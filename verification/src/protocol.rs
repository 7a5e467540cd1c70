//! The protocol schema: the closed set of request and response messages
//! exchanged between the frontend client and the privileged backend, together
//! with the data they carry.
//!
//! Each executable type has a mathematical view (`@`) used by every contract
//! in this crate. Payloads are self-describing plain values only.

use vstd::prelude::*;

verus! {

/// The kind of block device.
pub enum BlockDeviceKind {
    Disk,
    Loopback { backing_file: Option<String> },
}

/// Mathematical view of [`BlockDeviceKind`].
#[verifier::ext_equal]
pub ghost enum BlockDeviceKindV {
    Disk,
    Loopback { backing_file: Option<Seq<char>> },
}

impl View for BlockDeviceKind {
    type V = BlockDeviceKindV;

    open spec fn view(&self) -> BlockDeviceKindV {
        match self {
            BlockDeviceKind::Disk => BlockDeviceKindV::Disk,
            BlockDeviceKind::Loopback { backing_file } => BlockDeviceKindV::Loopback {
                backing_file: match backing_file {
                    Some(f) => Some(f@),
                    None => None,
                },
            },
        }
    }
}

impl DeepView for BlockDeviceKind {
    type V = BlockDeviceKindV;

    open spec fn deep_view(&self) -> BlockDeviceKindV {
        self.view()
    }
}

/// One discovered block device. A `Loopback` device with no backing file is an
/// unattached loop device: a valid, meaningful state, not an error.
pub struct BlockDevice {
    pub path: String,
    pub size: u64,
    pub sectors: u64,
    pub kind: BlockDeviceKind,
    pub model: Option<String>,
}

/// Mathematical view of [`BlockDevice`].
#[verifier::ext_equal]
pub ghost struct BlockDeviceV {
    pub path: Seq<char>,
    pub size: u64,
    pub sectors: u64,
    pub kind: BlockDeviceKindV,
    pub model: Option<Seq<char>>,
}

impl View for BlockDevice {
    type V = BlockDeviceV;

    open spec fn view(&self) -> BlockDeviceV {
        BlockDeviceV {
            path: self.path@,
            size: self.size,
            sectors: self.sectors,
            kind: self.kind@,
            model: match self.model {
                Some(m) => Some(m@),
                None => None,
            },
        }
    }
}

impl DeepView for BlockDevice {
    type V = BlockDeviceV;

    open spec fn deep_view(&self) -> BlockDeviceV {
        self.view()
    }
}

/// Filesystem metadata decoded from the first bytes of a device node.
/// Produced only on a successful parse; a failed parse is surfaced as a
/// protocol-level error, never as a partially populated value.
pub struct SuperblockInfo {
    pub filesystem: String,
}

/// Mathematical view of [`SuperblockInfo`].
#[verifier::ext_equal]
pub ghost struct SuperblockInfoV {
    pub filesystem: Seq<char>,
}

impl View for SuperblockInfo {
    type V = SuperblockInfoV;

    open spec fn view(&self) -> SuperblockInfoV {
        SuperblockInfoV { filesystem: self.filesystem@ }
    }
}

impl DeepView for SuperblockInfo {
    type V = SuperblockInfoV;

    open spec fn deep_view(&self) -> SuperblockInfoV {
        self.view()
    }
}

impl Clone for BlockDeviceKind {
    fn clone(&self) -> (r: Self)
        ensures
            r@ == self@,
    {
        match self {
            BlockDeviceKind::Disk => BlockDeviceKind::Disk,
            BlockDeviceKind::Loopback { backing_file } => BlockDeviceKind::Loopback {
                backing_file: match backing_file {
                    Some(f) => Some(f.clone()),
                    None => None,
                },
            },
        }
    }
}

impl Clone for BlockDevice {
    fn clone(&self) -> (r: Self)
        ensures
            r@ == self@,
    {
        BlockDevice {
            path: self.path.clone(),
            size: self.size,
            sectors: self.sectors,
            kind: self.kind.clone(),
            model: match &self.model {
                Some(m) => Some(m.clone()),
                None => None,
            },
        }
    }
}

impl Clone for SuperblockInfo {
    fn clone(&self) -> (r: Self)
        ensures
            r@ == self@,
    {
        SuperblockInfo { filesystem: self.filesystem.clone() }
    }
}

/// Client-initiated requests.
pub enum Request {
    GetBlockDevices,
    GetSuperblock(String),
    Shutdown,
}

/// Mathematical view of [`Request`].
#[verifier::ext_equal]
pub ghost enum RequestV {
    GetBlockDevices,
    GetSuperblock(Seq<char>),
    Shutdown,
}

impl View for Request {
    type V = RequestV;

    open spec fn view(&self) -> RequestV {
        match self {
            Request::GetBlockDevices => RequestV::GetBlockDevices,
            Request::GetSuperblock(path) => RequestV::GetSuperblock(path@),
            Request::Shutdown => RequestV::Shutdown,
        }
    }
}

impl DeepView for Request {
    type V = RequestV;

    open spec fn deep_view(&self) -> RequestV {
        self.view()
    }
}

/// Backend-initiated responses.
pub enum Response {
    BlockDevices(Vec<BlockDevice>),
    Superblock(SuperblockInfo),
    Error(String),
}

/// Mathematical view of [`Response`].
#[verifier::ext_equal]
pub ghost enum ResponseV {
    BlockDevices(Seq<BlockDeviceV>),
    Superblock(SuperblockInfoV),
    Error(Seq<char>),
}

impl View for Response {
    type V = ResponseV;

    open spec fn view(&self) -> ResponseV {
        match self {
            Response::BlockDevices(devices) => ResponseV::BlockDevices(devices.deep_view()),
            Response::Superblock(sb) => ResponseV::Superblock(sb@),
            Response::Error(message) => ResponseV::Error(message@),
        }
    }
}

impl DeepView for Response {
    type V = ResponseV;

    open spec fn deep_view(&self) -> ResponseV {
        self.view()
    }
}

} // verus!
