//! A byte codec for the protocol schema.
//!
//! The client and the backend agree on this encoding at build time; it is the
//! sole coupling between them. Every message is self-delimiting: integers are
//! eight little-endian bytes, strings are a byte count followed by UTF-8
//! bytes, options and unions open with a one-byte tag, and lists with an
//! element count. A peer that meets an unknown tag gets no value back and
//! treats the message as a protocol error rather than silently ignoring it.
//!
//! The `lemma_*_round_trip` proofs state the codec's law: decoding an encoded
//! value yields that value exactly and consumes exactly its bytes.

use vstd::prelude::*;
use vstd::slice::{slice_subrange, slice_to_vec};
use vstd::string::StrSliceExecFns;
use vstd::utf8::{decode_utf8, encode_utf8, encode_utf8_decode_utf8, encode_utf8_valid_utf8,
    valid_utf8};

use crate::protocol::{
    BlockDevice, BlockDeviceKind, BlockDeviceKindV, BlockDeviceV, Request, RequestV, Response,
    ResponseV, SuperblockInfo, SuperblockInfoV,
};

verus! {

/// A 64-bit integer as eight little-endian bytes.
pub open spec fn enc_u64(x: u64) -> Seq<u8> {
    seq![
        (x & 0xff) as u8,
        ((x >> 8) & 0xff) as u8,
        ((x >> 16) & 0xff) as u8,
        ((x >> 24) & 0xff) as u8,
        ((x >> 32) & 0xff) as u8,
        ((x >> 40) & 0xff) as u8,
        ((x >> 48) & 0xff) as u8,
        ((x >> 56) & 0xff) as u8,
    ]
}

/// The integer eight little-endian bytes carry.
pub open spec fn u64_of_le(b: Seq<u8>) -> u64
    recommends
        b.len() == 8,
{
    (b[0] as u64) | ((b[1] as u64) << 8) | ((b[2] as u64) << 16) | ((b[3] as u64) << 24) | ((
    b[4] as u64) << 32) | ((b[5] as u64) << 40) | ((b[6] as u64) << 48) | ((b[7] as u64) << 56)
}

/// Each little-endian byte of an integer fits in eight bits.
pub proof fn lemma_le_bytes_fit(x: u64)
    ensures
        (x & 0xff) <= 0xff,
        ((x >> 8) & 0xff) <= 0xff,
        ((x >> 16) & 0xff) <= 0xff,
        ((x >> 24) & 0xff) <= 0xff,
        ((x >> 32) & 0xff) <= 0xff,
        ((x >> 40) & 0xff) <= 0xff,
        ((x >> 48) & 0xff) <= 0xff,
        ((x >> 56) & 0xff) <= 0xff,
{
    assert((x & 0xff) <= 0xff && ((x >> 8) & 0xff) <= 0xff && ((x >> 16) & 0xff) <= 0xff && ((x
        >> 24) & 0xff) <= 0xff && ((x >> 32) & 0xff) <= 0xff && ((x >> 40) & 0xff) <= 0xff && ((x
        >> 48) & 0xff) <= 0xff && ((x >> 56) & 0xff) <= 0xff) by (bit_vector);
}

/// Reassembling the eight little-endian bytes of an integer gives it back.
pub proof fn lemma_u64_le_round_trip(x: u64)
    ensures
        u64_of_le(enc_u64(x)) == x,
{
    assert((((x & 0xff) as u8) as u64) | (((((x >> 8) & 0xff) as u8) as u64) << 8) | (((((x >> 16)
        & 0xff) as u8) as u64) << 16) | (((((x >> 24) & 0xff) as u8) as u64) << 24) | (((((x >> 32)
        & 0xff) as u8) as u64) << 32) | (((((x >> 40) & 0xff) as u8) as u64) << 40) | (((((x >> 48)
        & 0xff) as u8) as u64) << 48) | (((((x >> 56) & 0xff) as u8) as u64) << 56) == x)
        by (bit_vector);
}

/// Reading an integer takes eight bytes and leaves the rest.
pub open spec fn dec_u64(b: Seq<u8>) -> Option<(u64, Seq<u8>)> {
    if b.len() >= 8 {
        Some((u64_of_le(b.take(8)), b.skip(8)))
    } else {
        None
    }
}

pub proof fn lemma_dec_enc_u64(x: u64, rest: Seq<u8>)
    ensures
        dec_u64(enc_u64(x) + rest) == Some((x, rest)),
{
    let b = enc_u64(x) + rest;
    assert(b.take(8) =~= enc_u64(x));
    assert(b.skip(8) =~= rest);
    lemma_u64_le_round_trip(x);
}

/// Concatenation of byte sequences associates; the codec lemmas regroup
/// encoded parts with it.
pub proof fn lemma_bytes_assoc(a: Seq<u8>, b: Seq<u8>, c: Seq<u8>)
    ensures
        (a + b) + c == a + (b + c),
{
    assert((a + b) + c =~= a + (b + c));
}

/// Whether a string's UTF-8 form is short enough for its byte-count prefix.
pub open spec fn str_wf(s: Seq<char>) -> bool {
    encode_utf8(s).len() <= u64::MAX
}

/// A string as its UTF-8 byte count followed by its UTF-8 bytes.
pub open spec fn enc_str(s: Seq<char>) -> Seq<u8> {
    enc_u64(encode_utf8(s).len() as u64) + encode_utf8(s)
}

/// Reading a string: its byte count, then that many bytes, which must be
/// valid UTF-8.
pub open spec fn dec_str(b: Seq<u8>) -> Option<(Seq<char>, Seq<u8>)> {
    match dec_u64(b) {
        Some((n, after)) => {
            if n <= after.len() && valid_utf8(after.take(n as int)) {
                Some((decode_utf8(after.take(n as int)), after.skip(n as int)))
            } else {
                None
            }
        },
        None => None,
    }
}

pub proof fn lemma_dec_enc_str(s: Seq<char>, rest: Seq<u8>)
    requires
        str_wf(s),
    ensures
        dec_str(enc_str(s) + rest) == Some((s, rest)),
{
    let bytes = encode_utf8(s);
    let n = bytes.len() as u64;
    assert(enc_str(s) + rest =~= enc_u64(n) + (bytes + rest));
    lemma_dec_enc_u64(n, bytes + rest);
    assert((bytes + rest).take(n as int) =~= bytes);
    assert((bytes + rest).skip(n as int) =~= rest);
    encode_utf8_valid_utf8(s);
    encode_utf8_decode_utf8(s);
}

pub open spec fn opt_str_wf(m: Option<Seq<char>>) -> bool {
    match m {
        Some(s) => str_wf(s),
        None => true,
    }
}

/// An optional string: a one-byte presence tag, then the string if present.
pub open spec fn enc_opt_str(m: Option<Seq<char>>) -> Seq<u8> {
    match m {
        None => seq![0u8],
        Some(s) => seq![1u8] + enc_str(s),
    }
}

pub open spec fn dec_opt_str(b: Seq<u8>) -> Option<(Option<Seq<char>>, Seq<u8>)> {
    if b.len() == 0 {
        None
    } else if b[0] == 0 {
        Some((None, b.skip(1)))
    } else if b[0] == 1 {
        match dec_str(b.skip(1)) {
            Some((s, rest)) => Some((Some(s), rest)),
            None => None,
        }
    } else {
        None
    }
}

pub proof fn lemma_dec_enc_opt_str(m: Option<Seq<char>>, rest: Seq<u8>)
    requires
        opt_str_wf(m),
    ensures
        dec_opt_str(enc_opt_str(m) + rest) == Some((m, rest)),
{
    match m {
        None => {
            assert((enc_opt_str(m) + rest).skip(1) =~= rest);
        },
        Some(s) => {
            assert((enc_opt_str(m) + rest).skip(1) =~= enc_str(s) + rest);
            lemma_dec_enc_str(s, rest);
        },
    }
}

pub open spec fn kind_wf(k: BlockDeviceKindV) -> bool {
    match k {
        BlockDeviceKindV::Disk => true,
        BlockDeviceKindV::Loopback { backing_file } => opt_str_wf(backing_file),
    }
}

/// A device kind: a one-byte tag, and for a loop device its optional backing
/// file.
pub open spec fn enc_kind(k: BlockDeviceKindV) -> Seq<u8> {
    match k {
        BlockDeviceKindV::Disk => seq![0u8],
        BlockDeviceKindV::Loopback { backing_file } => seq![1u8] + enc_opt_str(backing_file),
    }
}

pub open spec fn dec_kind(b: Seq<u8>) -> Option<(BlockDeviceKindV, Seq<u8>)> {
    if b.len() == 0 {
        None
    } else if b[0] == 0 {
        Some((BlockDeviceKindV::Disk, b.skip(1)))
    } else if b[0] == 1 {
        match dec_opt_str(b.skip(1)) {
            Some((m, rest)) => Some((BlockDeviceKindV::Loopback { backing_file: m }, rest)),
            None => None,
        }
    } else {
        None
    }
}

pub proof fn lemma_dec_enc_kind(k: BlockDeviceKindV, rest: Seq<u8>)
    requires
        kind_wf(k),
    ensures
        dec_kind(enc_kind(k) + rest) == Some((k, rest)),
{
    match k {
        BlockDeviceKindV::Disk => {
            assert((enc_kind(k) + rest).skip(1) =~= rest);
        },
        BlockDeviceKindV::Loopback { backing_file } => {
            assert((enc_kind(k) + rest).skip(1) =~= enc_opt_str(backing_file) + rest);
            lemma_dec_enc_opt_str(backing_file, rest);
        },
    }
}

pub open spec fn device_wf(d: BlockDeviceV) -> bool {
    str_wf(d.path) && kind_wf(d.kind) && opt_str_wf(d.model)
}

/// A device: path, size, sector count, kind, model — in that order.
pub open spec fn enc_device(d: BlockDeviceV) -> Seq<u8> {
    enc_str(d.path) + enc_u64(d.size) + enc_u64(d.sectors) + enc_kind(d.kind) + enc_opt_str(d.model)
}

pub open spec fn dec_device(b: Seq<u8>) -> Option<(BlockDeviceV, Seq<u8>)> {
    match dec_str(b) {
        Some((path, b1)) => match dec_u64(b1) {
            Some((size, b2)) => match dec_u64(b2) {
                Some((sectors, b3)) => match dec_kind(b3) {
                    Some((kind, b4)) => match dec_opt_str(b4) {
                        Some((model, b5)) => Some(
                            (BlockDeviceV { path, size, sectors, kind, model }, b5),
                        ),
                        None => None,
                    },
                    None => None,
                },
                None => None,
            },
            None => None,
        },
        None => None,
    }
}

pub proof fn lemma_dec_enc_device(d: BlockDeviceV, rest: Seq<u8>)
    requires
        device_wf(d),
    ensures
        dec_device(enc_device(d) + rest) == Some((d, rest)),
{
    let r4 = enc_opt_str(d.model) + rest;
    let r3 = enc_kind(d.kind) + r4;
    let r2 = enc_u64(d.sectors) + r3;
    let r1 = enc_u64(d.size) + r2;
    assert(enc_device(d) + rest =~= enc_str(d.path) + r1);
    lemma_dec_enc_str(d.path, r1);
    lemma_dec_enc_u64(d.size, r2);
    lemma_dec_enc_u64(d.sectors, r3);
    lemma_dec_enc_kind(d.kind, r4);
    lemma_dec_enc_opt_str(d.model, rest);
}

pub open spec fn devices_wf(ds: Seq<BlockDeviceV>) -> bool {
    ds.len() <= u64::MAX && forall|i: int| 0 <= i < ds.len() ==> device_wf(#[trigger] ds[i])
}

/// The devices of a listing, one after the other.
pub open spec fn enc_device_items(ds: Seq<BlockDeviceV>) -> Seq<u8>
    decreases ds.len(),
{
    if ds.len() == 0 {
        Seq::empty()
    } else {
        enc_device(ds[0]) + enc_device_items(ds.drop_first())
    }
}

/// A device listing: its element count, then the devices.
pub open spec fn enc_devices(ds: Seq<BlockDeviceV>) -> Seq<u8> {
    enc_u64(ds.len() as u64) + enc_device_items(ds)
}

pub open spec fn dec_device_items(b: Seq<u8>, n: nat) -> Option<(Seq<BlockDeviceV>, Seq<u8>)>
    decreases n,
{
    if n == 0 {
        Some((Seq::empty(), b))
    } else {
        match dec_device(b) {
            Some((d, b1)) => match dec_device_items(b1, (n - 1) as nat) {
                Some((ds, b2)) => Some((seq![d] + ds, b2)),
                None => None,
            },
            None => None,
        }
    }
}

pub open spec fn dec_devices(b: Seq<u8>) -> Option<(Seq<BlockDeviceV>, Seq<u8>)> {
    match dec_u64(b) {
        Some((n, after)) => dec_device_items(after, n as nat),
        None => None,
    }
}

#[verifier::rlimit(50)]
pub proof fn lemma_dec_enc_device_items(ds: Seq<BlockDeviceV>, rest: Seq<u8>)
    requires
        forall|i: int| 0 <= i < ds.len() ==> device_wf(#[trigger] ds[i]),
    ensures
        dec_device_items(enc_device_items(ds) + rest, ds.len()) == Some((ds, rest)),
    decreases ds.len(),
{
    if ds.len() == 0 {
        assert(enc_device_items(ds) + rest =~= rest);
        assert(dec_device_items(rest, 0) == Some((Seq::<BlockDeviceV>::empty(), rest)));
        assert(ds =~= Seq::<BlockDeviceV>::empty());
    } else {
        let tail = ds.drop_first();
        let b = enc_device_items(ds) + rest;
        let tail_bytes = enc_device_items(tail) + rest;
        lemma_bytes_assoc(enc_device(ds[0]), enc_device_items(tail), rest);
        assert(b == enc_device(ds[0]) + tail_bytes);
        lemma_dec_enc_device(ds[0], tail_bytes);
        assert(dec_device(b) == Some((ds[0], tail_bytes)));
        assert forall|i: int| 0 <= i < tail.len() implies device_wf(#[trigger] tail[i]) by {
            assert(tail[i] == ds[i + 1]);
        }
        lemma_dec_enc_device_items(tail, rest);
        assert(dec_device_items(tail_bytes, tail.len()) == Some((tail, rest)));
        assert(dec_device_items(b, ds.len()) == Some((seq![ds[0]] + tail, rest)));
        assert(seq![ds[0]] + tail =~= ds);
    }
}

pub proof fn lemma_dec_enc_devices(ds: Seq<BlockDeviceV>, rest: Seq<u8>)
    requires
        devices_wf(ds),
    ensures
        dec_devices(enc_devices(ds) + rest) == Some((ds, rest)),
{
    assert(enc_devices(ds) + rest =~= enc_u64(ds.len() as u64) + (enc_device_items(ds) + rest));
    lemma_dec_enc_u64(ds.len() as u64, enc_device_items(ds) + rest);
    lemma_dec_enc_device_items(ds, rest);
}

pub open spec fn superblock_wf(sb: SuperblockInfoV) -> bool {
    str_wf(sb.filesystem)
}

/// Superblock metadata: its filesystem-type label.
pub open spec fn enc_superblock(sb: SuperblockInfoV) -> Seq<u8> {
    enc_str(sb.filesystem)
}

pub open spec fn dec_superblock(b: Seq<u8>) -> Option<(SuperblockInfoV, Seq<u8>)> {
    match dec_str(b) {
        Some((filesystem, rest)) => Some((SuperblockInfoV { filesystem }, rest)),
        None => None,
    }
}

pub proof fn lemma_dec_enc_superblock(sb: SuperblockInfoV, rest: Seq<u8>)
    requires
        superblock_wf(sb),
    ensures
        dec_superblock(enc_superblock(sb) + rest) == Some((sb, rest)),
{
    lemma_dec_enc_str(sb.filesystem, rest);
}

pub open spec fn request_wf(r: RequestV) -> bool {
    match r {
        RequestV::GetSuperblock(path) => str_wf(path),
        _ => true,
    }
}

/// A request: a one-byte tag, and for a superblock request the device path.
pub open spec fn enc_request(r: RequestV) -> Seq<u8> {
    match r {
        RequestV::GetBlockDevices => seq![0u8],
        RequestV::GetSuperblock(path) => seq![1u8] + enc_str(path),
        RequestV::Shutdown => seq![2u8],
    }
}

pub open spec fn dec_request(b: Seq<u8>) -> Option<(RequestV, Seq<u8>)> {
    if b.len() == 0 {
        None
    } else if b[0] == 0 {
        Some((RequestV::GetBlockDevices, b.skip(1)))
    } else if b[0] == 1 {
        match dec_str(b.skip(1)) {
            Some((path, rest)) => Some((RequestV::GetSuperblock(path), rest)),
            None => None,
        }
    } else if b[0] == 2 {
        Some((RequestV::Shutdown, b.skip(1)))
    } else {
        None
    }
}

pub open spec fn response_wf(r: ResponseV) -> bool {
    match r {
        ResponseV::BlockDevices(ds) => devices_wf(ds),
        ResponseV::Superblock(sb) => superblock_wf(sb),
        ResponseV::Error(message) => str_wf(message),
    }
}

/// A response: a one-byte tag, then the payload of its variant.
pub open spec fn enc_response(r: ResponseV) -> Seq<u8> {
    match r {
        ResponseV::BlockDevices(ds) => seq![0u8] + enc_devices(ds),
        ResponseV::Superblock(sb) => seq![1u8] + enc_superblock(sb),
        ResponseV::Error(message) => seq![2u8] + enc_str(message),
    }
}

pub open spec fn dec_response(b: Seq<u8>) -> Option<(ResponseV, Seq<u8>)> {
    if b.len() == 0 {
        None
    } else if b[0] == 0 {
        match dec_devices(b.skip(1)) {
            Some((ds, rest)) => Some((ResponseV::BlockDevices(ds), rest)),
            None => None,
        }
    } else if b[0] == 1 {
        match dec_superblock(b.skip(1)) {
            Some((sb, rest)) => Some((ResponseV::Superblock(sb), rest)),
            None => None,
        }
    } else if b[0] == 2 {
        match dec_str(b.skip(1)) {
            Some((message, rest)) => Some((ResponseV::Error(message), rest)),
            None => None,
        }
    } else {
        None
    }
}

/// The codec's law for requests: decoding an encoded request yields that
/// request exactly and consumes exactly its bytes, whatever follows them.
pub proof fn lemma_request_round_trip(r: RequestV, rest: Seq<u8>)
    requires
        request_wf(r),
    ensures
        dec_request(enc_request(r) + rest) == Some((r, rest)),
{
    match r {
        RequestV::GetBlockDevices => {
            assert((enc_request(r) + rest).skip(1) =~= rest);
        },
        RequestV::GetSuperblock(path) => {
            assert((enc_request(r) + rest).skip(1) =~= enc_str(path) + rest);
            lemma_dec_enc_str(path, rest);
        },
        RequestV::Shutdown => {
            assert((enc_request(r) + rest).skip(1) =~= rest);
        },
    }
}

/// The codec's law for responses: decoding an encoded response yields that
/// response exactly — deep equality on every field of every payload — and
/// consumes exactly its bytes, whatever follows them.
pub proof fn lemma_response_round_trip(r: ResponseV, rest: Seq<u8>)
    requires
        response_wf(r),
    ensures
        dec_response(enc_response(r) + rest) == Some((r, rest)),
{
    match r {
        ResponseV::BlockDevices(ds) => {
            assert((enc_response(r) + rest).skip(1) =~= enc_devices(ds) + rest);
            lemma_dec_enc_devices(ds, rest);
        },
        ResponseV::Superblock(sb) => {
            assert((enc_response(r) + rest).skip(1) =~= enc_superblock(sb) + rest);
            lemma_dec_enc_superblock(sb, rest);
        },
        ResponseV::Error(message) => {
            assert((enc_response(r) + rest).skip(1) =~= enc_str(message) + rest);
            lemma_dec_enc_str(message, rest);
        },
    }
}

/// Appending one encoded part at a time builds the listing's encoding.
pub proof fn lemma_enc_device_items_take_succ(ds: Seq<BlockDeviceV>, i: int)
    requires
        0 <= i < ds.len(),
    ensures
        enc_device_items(ds.take(i + 1)) == enc_device_items(ds.take(i)) + enc_device(ds[i]),
    decreases i,
{
    if i == 0 {
        assert(ds.take(1) =~= seq![ds[0]]);
        assert(ds.take(1).drop_first() =~= Seq::<BlockDeviceV>::empty());
        assert(ds.take(0) =~= Seq::<BlockDeviceV>::empty());
        assert(enc_device(ds[0]) + Seq::<u8>::empty() =~= enc_device(ds[0]));
        assert(Seq::<u8>::empty() + enc_device(ds[0]) =~= enc_device(ds[0]));
    } else {
        let tail = ds.drop_first();
        lemma_enc_device_items_take_succ(tail, i - 1);
        assert(ds.take(i + 1).drop_first() =~= tail.take(i));
        assert(ds.take(i).drop_first() =~= tail.take(i - 1));
        assert(ds.take(i + 1)[0] == ds[0]);
        assert(ds.take(i)[0] == ds[0]);
        lemma_bytes_assoc(
            enc_device(ds[0]),
            enc_device_items(tail.take(i - 1)),
            enc_device(tail[i - 1]),
        );
        assert(tail[i - 1] == ds[i]);
    }
}

/// Append the eight little-endian bytes of `x`.
fn encode_u64_into(out: &mut Vec<u8>, x: u64)
    ensures
        final(out)@ == old(out)@ + enc_u64(x),
{
    proof {
        lemma_le_bytes_fit(x);
    }
    out.push((x & 0xff) as u8);
    out.push(((x >> 8) & 0xff) as u8);
    out.push(((x >> 16) & 0xff) as u8);
    out.push(((x >> 24) & 0xff) as u8);
    out.push(((x >> 32) & 0xff) as u8);
    out.push(((x >> 40) & 0xff) as u8);
    out.push(((x >> 48) & 0xff) as u8);
    out.push(((x >> 56) & 0xff) as u8);
    proof {
        assert(out@ =~= old(out)@ + enc_u64(x));
    }
}

/// Append the byte count and UTF-8 bytes of `s`.
fn encode_str_into(out: &mut Vec<u8>, s: &String)
    ensures
        final(out)@ == old(out)@ + enc_str(s@),
{
    let mut bytes = s.as_str().as_bytes_vec();
    let n = bytes.len();
    encode_u64_into(out, n as u64);
    out.append(&mut bytes);
    proof {
        lemma_bytes_assoc(old(out)@, enc_u64(n as u64), encode_utf8(s@));
    }
}

/// Append the presence tag and, if present, the string.
fn encode_opt_str_into(out: &mut Vec<u8>, m: &Option<String>)
    ensures
        final(out)@ == old(out)@ + enc_opt_str(m.deep_view()),
{
    match m {
        None => {
            out.push(0u8);
            proof {
                assert(out@ =~= old(out)@ + enc_opt_str(m.deep_view()));
            }
        },
        Some(s) => {
            out.push(1u8);
            let ghost mid = out@;
            encode_str_into(out, s);
            proof {
                assert(mid =~= old(out)@ + seq![1u8]);
                lemma_bytes_assoc(old(out)@, seq![1u8], enc_str(s@));
            }
        },
    }
}

/// Append the kind tag and, for a loop device, its optional backing file.
fn encode_kind_into(out: &mut Vec<u8>, kind: &BlockDeviceKind)
    ensures
        final(out)@ == old(out)@ + enc_kind(kind@),
{
    match kind {
        BlockDeviceKind::Disk => {
            out.push(0u8);
            proof {
                assert(out@ =~= old(out)@ + enc_kind(kind@));
            }
        },
        BlockDeviceKind::Loopback { backing_file } => {
            out.push(1u8);
            let ghost mid = out@;
            encode_opt_str_into(out, backing_file);
            proof {
                assert(mid =~= old(out)@ + seq![1u8]);
                lemma_bytes_assoc(old(out)@, seq![1u8], enc_opt_str(backing_file.deep_view()));
            }
        },
    }
}

/// Append one device's five fields in order.
fn encode_device_into(out: &mut Vec<u8>, d: &BlockDevice)
    ensures
        final(out)@ == old(out)@ + enc_device(d@),
{
    let ghost base = out@;
    encode_str_into(out, &d.path);
    encode_u64_into(out, d.size);
    encode_u64_into(out, d.sectors);
    encode_kind_into(out, &d.kind);
    encode_opt_str_into(out, &d.model);
    proof {
        let p1 = enc_str(d@.path);
        let p2 = enc_u64(d@.size);
        let p3 = enc_u64(d@.sectors);
        let p4 = enc_kind(d@.kind);
        let p5 = enc_opt_str(d@.model);
        lemma_bytes_assoc(base, p1, p2);
        lemma_bytes_assoc(base, p1 + p2, p3);
        lemma_bytes_assoc(base, (p1 + p2) + p3, p4);
        lemma_bytes_assoc(base, ((p1 + p2) + p3) + p4, p5);
    }
}

/// Append a device listing: its element count, then the devices.
fn encode_devices_into(out: &mut Vec<u8>, devices: &Vec<BlockDevice>)
    ensures
        final(out)@ == old(out)@ + enc_devices(devices.deep_view()),
{
    let ghost dv = devices.deep_view();
    let ghost base = out@;
    encode_u64_into(out, devices.len() as u64);
    proof {
        assert(enc_device_items(dv.take(0)) =~= Seq::<u8>::empty());
        assert((base + enc_u64(dv.len() as u64)) + Seq::<u8>::empty() =~= base + enc_u64(
            dv.len() as u64,
        ));
    }
    let mut i: usize = 0;
    while i < devices.len()
        invariant
            0 <= i <= devices.len(),
            dv == devices.deep_view(),
            out@ == (base + enc_u64(dv.len() as u64)) + enc_device_items(dv.take(i as int)),
        decreases devices.len() - i,
    {
        encode_device_into(out, &devices[i]);
        proof {
            assert(devices@[i as int]@ == dv[i as int]);
            lemma_enc_device_items_take_succ(dv, i as int);
            lemma_bytes_assoc(
                base + enc_u64(dv.len() as u64),
                enc_device_items(dv.take(i as int)),
                enc_device(dv[i as int]),
            );
        }
        i += 1;
    }
    proof {
        assert(dv.take(dv.len() as int) =~= dv);
        lemma_bytes_assoc(base, enc_u64(dv.len() as u64), enc_device_items(dv));
    }
}

/// One request as bytes.
pub fn encode_request(req: &Request) -> (out: Vec<u8>)
    ensures
        out@ == enc_request(req@),
{
    let mut out: Vec<u8> = Vec::new();
    match req {
        Request::GetBlockDevices => {
            out.push(0u8);
            proof {
                assert(out@ =~= enc_request(req@));
            }
        },
        Request::GetSuperblock(path) => {
            out.push(1u8);
            let ghost mid = out@;
            encode_str_into(&mut out, path);
            proof {
                assert(mid =~= seq![1u8]);
                assert(out@ =~= enc_request(req@));
            }
        },
        Request::Shutdown => {
            out.push(2u8);
            proof {
                assert(out@ =~= enc_request(req@));
            }
        },
    }
    out
}

/// One response as bytes.
pub fn encode_response(resp: &Response) -> (out: Vec<u8>)
    ensures
        out@ == enc_response(resp@),
{
    let mut out: Vec<u8> = Vec::new();
    match resp {
        Response::BlockDevices(devices) => {
            out.push(0u8);
            let ghost mid = out@;
            encode_devices_into(&mut out, devices);
            proof {
                assert(mid =~= seq![0u8]);
                assert(out@ =~= enc_response(resp@));
            }
        },
        Response::Superblock(sb) => {
            out.push(1u8);
            let ghost mid = out@;
            encode_str_into(&mut out, &sb.filesystem);
            proof {
                assert(mid =~= seq![1u8]);
                assert(out@ =~= enc_response(resp@));
            }
        },
        Response::Error(message) => {
            out.push(2u8);
            let ghost mid = out@;
            encode_str_into(&mut out, message);
            proof {
                assert(mid =~= seq![2u8]);
                assert(out@ =~= enc_response(resp@));
            }
        },
    }
    out
}

/// Relies on `String::from_utf8`: it succeeds exactly on valid UTF-8 input,
/// and on success returns the string whose UTF-8 bytes are that input.
#[verifier::external_body]
fn string_from_utf8(bytes: Vec<u8>) -> (r: Option<String>)
    ensures
        r is Some <==> valid_utf8(bytes@),
        r matches Some(s) ==> encode_utf8(s@) == bytes@,
{
    String::from_utf8(bytes).ok()
}

/// Read an integer at `pos`.
fn decode_u64_at(b: &Vec<u8>, pos: usize) -> (r: Option<(u64, usize)>)
    requires
        pos <= b@.len(),
    ensures
        r is None ==> dec_u64(b@.skip(pos as int)) is None,
        r matches Some(p) ==> pos <= p.1 <= b@.len() && dec_u64(b@.skip(pos as int)) == Some(
            (p.0, b@.skip(p.1 as int)),
        ),
{
    if b.len() - pos >= 8 {
        let x0 = b[pos] as u64;
        let x1 = b[pos + 1] as u64;
        let x2 = b[pos + 2] as u64;
        let x3 = b[pos + 3] as u64;
        let x4 = b[pos + 4] as u64;
        let x5 = b[pos + 5] as u64;
        let x6 = b[pos + 6] as u64;
        let x7 = b[pos + 7] as u64;
        let x = x0 | (x1 << 8) | (x2 << 16) | (x3 << 24) | (x4 << 32) | (x5 << 40) | (x6 << 48) | (
        x7 << 56);
        proof {
            let s = b@.skip(pos as int);
            assert(s.take(8)[0] == b@[pos as int]);
            assert(s.take(8)[1] == b@[pos + 1]);
            assert(s.take(8)[2] == b@[pos + 2]);
            assert(s.take(8)[3] == b@[pos + 3]);
            assert(s.take(8)[4] == b@[pos + 4]);
            assert(s.take(8)[5] == b@[pos + 5]);
            assert(s.take(8)[6] == b@[pos + 6]);
            assert(s.take(8)[7] == b@[pos + 7]);
            assert(x == u64_of_le(s.take(8)));
            assert(s.skip(8) =~= b@.skip(pos + 8));
        }
        Some((x, pos + 8))
    } else {
        None
    }
}

/// Read a string at `pos`.
fn decode_str_at(b: &Vec<u8>, pos: usize) -> (r: Option<(String, usize)>)
    requires
        pos <= b@.len(),
    ensures
        r is None ==> dec_str(b@.skip(pos as int)) is None,
        r matches Some(p) ==> pos <= p.1 <= b@.len() && dec_str(b@.skip(pos as int)) == Some(
            (p.0@, b@.skip(p.1 as int)),
        ),
{
    match decode_u64_at(b, pos) {
        None => None,
        Some((n, mid)) => {
            let ghost after = b@.skip(mid as int);
            if n <= (b.len() - mid) as u64 {
                proof {
                    assert(n as int <= after.len());
                }
                let end = mid + (n as usize);
                let bytes = slice_to_vec(slice_subrange(b.as_slice(), mid, end));
                proof {
                    assert(bytes@ =~= after.take(n as int));
                }
                match string_from_utf8(bytes) {
                    Some(s) => {
                        proof {
                            encode_utf8_decode_utf8(s@);
                            assert(after.skip(n as int) =~= b@.skip(end as int));
                        }
                        Some((s, end))
                    },
                    None => None,
                }
            } else {
                None
            }
        },
    }
}

/// Read an optional string at `pos`.
fn decode_opt_str_at(b: &Vec<u8>, pos: usize) -> (r: Option<(Option<String>, usize)>)
    requires
        pos <= b@.len(),
    ensures
        r is None ==> dec_opt_str(b@.skip(pos as int)) is None,
        r matches Some(p) ==> pos <= p.1 <= b@.len() && dec_opt_str(b@.skip(pos as int)) == Some(
            (p.0.deep_view(), b@.skip(p.1 as int)),
        ),
{
    if pos == b.len() {
        None
    } else {
        let tag = b[pos];
        proof {
            assert(b@.skip(pos as int)[0] == b@[pos as int]);
            assert(b@.skip(pos as int).skip(1) =~= b@.skip(pos + 1));
        }
        if tag == 0 {
            Some((None, pos + 1))
        } else if tag == 1 {
            match decode_str_at(b, pos + 1) {
                Some((s, end)) => Some((Some(s), end)),
                None => None,
            }
        } else {
            None
        }
    }
}

/// Read a device kind at `pos`.
fn decode_kind_at(b: &Vec<u8>, pos: usize) -> (r: Option<(BlockDeviceKind, usize)>)
    requires
        pos <= b@.len(),
    ensures
        r is None ==> dec_kind(b@.skip(pos as int)) is None,
        r matches Some(p) ==> pos <= p.1 <= b@.len() && dec_kind(b@.skip(pos as int)) == Some(
            (p.0@, b@.skip(p.1 as int)),
        ),
{
    if pos == b.len() {
        None
    } else {
        let tag = b[pos];
        proof {
            assert(b@.skip(pos as int)[0] == b@[pos as int]);
            assert(b@.skip(pos as int).skip(1) =~= b@.skip(pos + 1));
        }
        if tag == 0 {
            Some((BlockDeviceKind::Disk, pos + 1))
        } else if tag == 1 {
            match decode_opt_str_at(b, pos + 1) {
                Some((backing_file, end)) => Some(
                    (BlockDeviceKind::Loopback { backing_file }, end),
                ),
                None => None,
            }
        } else {
            None
        }
    }
}

/// Read one device at `pos`.
fn decode_device_at(b: &Vec<u8>, pos: usize) -> (r: Option<(BlockDevice, usize)>)
    requires
        pos <= b@.len(),
    ensures
        r is None ==> dec_device(b@.skip(pos as int)) is None,
        r matches Some(p) ==> pos <= p.1 <= b@.len() && dec_device(b@.skip(pos as int)) == Some(
            (p.0@, b@.skip(p.1 as int)),
        ),
{
    match decode_str_at(b, pos) {
        None => None,
        Some((path, p1)) => match decode_u64_at(b, p1) {
            None => None,
            Some((size, p2)) => match decode_u64_at(b, p2) {
                None => None,
                Some((sectors, p3)) => match decode_kind_at(b, p3) {
                    None => None,
                    Some((kind, p4)) => match decode_opt_str_at(b, p4) {
                        None => None,
                        Some((model, p5)) => Some(
                            (BlockDevice { path, size, sectors, kind, model }, p5),
                        ),
                    },
                },
            },
        },
    }
}

/// How a decoded prefix combines with the decoding of what remains.
pub open spec fn items_combine(
    prefix: Seq<BlockDeviceV>,
    tail: Option<(Seq<BlockDeviceV>, Seq<u8>)>,
) -> Option<(Seq<BlockDeviceV>, Seq<u8>)> {
    match tail {
        Some((ds, rest)) => Some((prefix + ds, rest)),
        None => None,
    }
}

/// Reading one more device extends the decoded prefix and keeps the combined
/// result.
proof fn lemma_items_step(
    b: Seq<u8>,
    cur: int,
    next: int,
    d: BlockDeviceV,
    remaining: nat,
    prefix: Seq<BlockDeviceV>,
)
    requires
        remaining > 0,
        dec_device(b.skip(cur)) == Some((d, b.skip(next))),
    ensures
        items_combine(prefix, dec_device_items(b.skip(cur), remaining)) == items_combine(
            prefix.push(d),
            dec_device_items(b.skip(next), (remaining - 1) as nat),
        ),
{
    let t = dec_device_items(b.skip(next), (remaining - 1) as nat);
    assert(dec_device_items(b.skip(cur), remaining) == items_combine(seq![d], t));
    if t is Some {
        let pr = choose|pr: (Seq<BlockDeviceV>, Seq<u8>)| t == Some(pr);
        assert(prefix + (seq![d] + pr.0) =~= prefix.push(d) + pr.0);
    }
}

/// A failed device read fails the whole listing.
proof fn lemma_items_fail(b: Seq<u8>, cur: int, remaining: nat, prefix: Seq<BlockDeviceV>)
    requires
        remaining > 0,
        dec_device(b.skip(cur)) is None,
    ensures
        items_combine(prefix, dec_device_items(b.skip(cur), remaining)) is None,
{
}

/// Read a device listing at `pos`.
fn decode_devices_at(b: &Vec<u8>, pos: usize) -> (r: Option<(Vec<BlockDevice>, usize)>)
    requires
        pos <= b@.len(),
    ensures
        r is None ==> dec_devices(b@.skip(pos as int)) is None,
        r matches Some(p) ==> pos <= p.1 <= b@.len() && dec_devices(b@.skip(pos as int)) == Some(
            (p.0.deep_view(), b@.skip(p.1 as int)),
        ),
{
    match decode_u64_at(b, pos) {
        None => None,
        Some((n, start)) => {
            let ghost whole = dec_devices(b@.skip(pos as int));
            let mut out: Vec<BlockDevice> = Vec::new();
            let mut cur = start;
            let mut remaining = n;
            proof {
                assert(whole == dec_device_items(b@.skip(start as int), n as nat));
                assert(out.deep_view() =~= Seq::<BlockDeviceV>::empty());
                if whole is Some {
                    let pr = choose|pr: (Seq<BlockDeviceV>, Seq<u8>)| whole == Some(pr);
                    assert(Seq::<BlockDeviceV>::empty() + pr.0 =~= pr.0);
                }
            }
            while remaining > 0
                invariant
                    pos <= cur <= b@.len(),
                    whole == dec_devices(b@.skip(pos as int)),
                    items_combine(
                        out.deep_view(),
                        dec_device_items(b@.skip(cur as int), remaining as nat),
                    ) == whole,
                decreases remaining,
            {
                let ghost before = out.deep_view();
                match decode_device_at(b, cur) {
                    None => {
                        proof {
                            lemma_items_fail(b@, cur as int, remaining as nat, before);
                        }
                        return None;
                    },
                    Some((d, next)) => {
                        proof {
                            lemma_items_step(
                                b@,
                                cur as int,
                                next as int,
                                d@,
                                remaining as nat,
                                before,
                            );
                        }
                        out.push(d);
                        proof {
                            assert(out.deep_view() =~= before.push(d@));
                        }
                        cur = next;
                        remaining = remaining - 1;
                    },
                }
            }
            proof {
                assert(dec_device_items(b@.skip(cur as int), 0) == Some(
                    (Seq::<BlockDeviceV>::empty(), b@.skip(cur as int)),
                ));
                assert(out.deep_view() + Seq::<BlockDeviceV>::empty() =~= out.deep_view());
            }
            Some((out, cur))
        },
    }
}

/// Read superblock metadata at `pos`.
fn decode_superblock_at(b: &Vec<u8>, pos: usize) -> (r: Option<(SuperblockInfo, usize)>)
    requires
        pos <= b@.len(),
    ensures
        r is None ==> dec_superblock(b@.skip(pos as int)) is None,
        r matches Some(p) ==> pos <= p.1 <= b@.len() && dec_superblock(b@.skip(pos as int))
            == Some((p.0@, b@.skip(p.1 as int))),
{
    match decode_str_at(b, pos) {
        Some((filesystem, end)) => Some((SuperblockInfo { filesystem }, end)),
        None => None,
    }
}

/// One whole request from bytes: the request they encode, if they are exactly
/// one encoded request.
pub fn decode_request(b: &Vec<u8>) -> (r: Option<Request>)
    ensures
        r matches Some(req) ==> dec_request(b@) == Some((req@, b@.skip(b@.len() as int))),
        r is None ==> (dec_request(b@) matches Some(p) ==> p.1.len() > 0),
{
    proof {
        assert(b@.skip(0) =~= b@);
    }
    if b.len() == 0 {
        return None;
    }
    let tag = b[0];
    let parsed: Option<(Request, usize)> = if tag == 0 {
        Some((Request::GetBlockDevices, 1))
    } else if tag == 1 {
        match decode_str_at(b, 1) {
            Some((path, end)) => Some((Request::GetSuperblock(path), end)),
            None => None,
        }
    } else if tag == 2 {
        Some((Request::Shutdown, 1))
    } else {
        None
    };
    match parsed {
        Some((req, end)) => {
            if end == b.len() {
                proof {
                    assert(b@.skip(end as int).len() == 0);
                }
                Some(req)
            } else {
                proof {
                    assert(b@.skip(end as int).len() > 0);
                }
                None
            }
        },
        None => None,
    }
}

/// One whole response from bytes: the response they encode, if they are
/// exactly one encoded response.
pub fn decode_response(b: &Vec<u8>) -> (r: Option<Response>)
    ensures
        r matches Some(resp) ==> dec_response(b@) == Some((resp@, b@.skip(b@.len() as int))),
        r is None ==> (dec_response(b@) matches Some(p) ==> p.1.len() > 0),
{
    proof {
        assert(b@.skip(0) =~= b@);
    }
    if b.len() == 0 {
        return None;
    }
    let tag = b[0];
    let parsed: Option<(Response, usize)> = if tag == 0 {
        match decode_devices_at(b, 1) {
            Some((devices, end)) => Some((Response::BlockDevices(devices), end)),
            None => None,
        }
    } else if tag == 1 {
        match decode_superblock_at(b, 1) {
            Some((sb, end)) => Some((Response::Superblock(sb), end)),
            None => None,
        }
    } else if tag == 2 {
        match decode_str_at(b, 1) {
            Some((message, end)) => Some((Response::Error(message), end)),
            None => None,
        }
    } else {
        None
    };
    match parsed {
        Some((resp, end)) => {
            if end == b.len() {
                proof {
                    assert(b@.skip(end as int).len() == 0);
                }
                Some(resp)
            } else {
                proof {
                    assert(b@.skip(end as int).len() > 0);
                }
                None
            }
        },
        None => None,
    }
}

} // verus!
