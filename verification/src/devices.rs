//! Building and filtering device listings.
//!
//! The enumeration collaborator reports each discovered device as plain
//! values; the constructors here build the protocol's [`BlockDevice`] from
//! them. Frontends that only want devices a user can select filter out
//! unattached loop devices with [`filter_attached`].

use vstd::prelude::*;

use crate::protocol::{BlockDevice, BlockDeviceKind, BlockDeviceKindV, BlockDeviceV};

verus! {

impl BlockDevice {
    /// A whole disk, described by its device node path, size and sector
    /// count, and the model the hardware reports, if any.
    pub fn from_disk_parts(path: String, size: u64, sectors: u64, model: Option<String>) -> (d:
        BlockDevice)
        ensures
            d@ == (BlockDeviceV {
                path: path@,
                size,
                sectors,
                kind: BlockDeviceKindV::Disk,
                model: model.deep_view(),
            }),
    {
        BlockDevice { path, size, sectors, kind: BlockDeviceKind::Disk, model }
    }

    /// A loop device. `disk` carries the size and sector count of the
    /// attached backing disk; an unattached loop device has none and is
    /// reported with zero size and sectors. Loop devices carry no model.
    pub fn from_loopback_parts(
        path: String,
        disk: Option<(u64, u64)>,
        backing_file: Option<String>,
    ) -> (d: BlockDevice)
        ensures
            d@ == (BlockDeviceV {
                path: path@,
                size: match disk {
                    Some(sizes) => sizes.0,
                    None => 0,
                },
                sectors: match disk {
                    Some(sizes) => sizes.1,
                    None => 0,
                },
                kind: BlockDeviceKindV::Loopback { backing_file: backing_file.deep_view() },
                model: None,
            }),
    {
        let (size, sectors): (u64, u64) = match disk {
            Some(sizes) => sizes,
            None => (0, 0),
        };
        BlockDevice {
            path,
            size,
            sectors,
            kind: BlockDeviceKind::Loopback { backing_file },
            model: None,
        }
    }
}

/// Whether a device is backed by real storage: every disk is, and a loop
/// device is exactly when it has a backing file.
pub open spec fn is_attached(d: BlockDeviceV) -> bool {
    match d.kind {
        BlockDeviceKindV::Disk => true,
        BlockDeviceKindV::Loopback { backing_file } => backing_file is Some,
    }
}

/// The attached devices of a listing, in their original order.
pub open spec fn attached_only(devices: Seq<BlockDeviceV>) -> Seq<BlockDeviceV>
    decreases devices.len(),
{
    if devices.len() == 0 {
        Seq::empty()
    } else if is_attached(devices[0]) {
        seq![devices[0]] + attached_only(devices.drop_first())
    } else {
        attached_only(devices.drop_first())
    }
}

/// Drop every device that is not backed by real storage — the unattached
/// loop devices — keeping everything else in order.
pub fn filter_attached(devices: Vec<BlockDevice>) -> (r: Vec<BlockDevice>)
    ensures
        r.deep_view() == attached_only(devices.deep_view()),
{
    let ghost all = devices.deep_view();
    let mut out: Vec<BlockDevice> = Vec::new();
    let mut i: usize = 0;
    proof {
        assert(all.skip(0) =~= all);
        assert(out.deep_view() =~= Seq::<BlockDeviceV>::empty());
        assert(Seq::<BlockDeviceV>::empty() + attached_only(all) =~= attached_only(all));
    }
    while i < devices.len()
        invariant
            0 <= i <= devices.len(),
            all == devices.deep_view(),
            out.deep_view() + attached_only(all.skip(i as int)) == attached_only(all),
        decreases devices.len() - i,
    {
        let ghost before = out.deep_view();
        let device = &devices[i];
        proof {
            assert(all.skip(i as int)[0] == all[i as int]);
            assert(all.skip(i as int).drop_first() =~= all.skip(i + 1));
        }
        let keep = match &device.kind {
            BlockDeviceKind::Disk => true,
            BlockDeviceKind::Loopback { backing_file } => backing_file.is_some(),
        };
        if keep {
            out.push(device.clone());
            proof {
                assert(out.deep_view() =~= before.push(all[i as int]));
                assert(before.push(all[i as int]) + attached_only(all.skip(i + 1)) =~= before + (
                seq![all[i as int]] + attached_only(all.skip(i + 1))));
            }
        }
        i += 1;
    }
    proof {
        assert(all.skip(devices@.len() as int) =~= Seq::<BlockDeviceV>::empty());
        assert(out.deep_view() + Seq::<BlockDeviceV>::empty() =~= out.deep_view());
    }
    out
}

} // verus!
