use sawdisk::codec::{decode_request, decode_response, encode_request, encode_response};
use sawdisk::protocol::{BlockDevice, BlockDeviceKind, Request, Response, SuperblockInfo};

fn assert_devices_equal(a: &BlockDevice, b: &BlockDevice) {
    assert_eq!(a.path, b.path);
    assert_eq!(a.size, b.size);
    assert_eq!(a.sectors, b.sectors);
    assert_eq!(a.model, b.model);
    match (&a.kind, &b.kind) {
        (BlockDeviceKind::Disk, BlockDeviceKind::Disk) => {},
        (
            BlockDeviceKind::Loopback { backing_file: fa },
            BlockDeviceKind::Loopback { backing_file: fb },
        ) => assert_eq!(fa, fb),
        _ => panic!("device kinds differ"),
    }
}

#[test]
fn loopback_device_round_trips_through_the_schema() {
    let device = BlockDevice {
        path: "/dev/loop3".to_string(),
        size: 1048576,
        sectors: 2048,
        kind: BlockDeviceKind::Loopback { backing_file: Some("/img/a.img".to_string()) },
        model: None,
    };
    let original = Response::BlockDevices(vec![device]);
    let bytes = encode_response(&original);
    let decoded = decode_response(&bytes);
    let devices = match decoded {
        Some(Response::BlockDevices(devices)) => devices,
        _ => panic!("the encoded response must decode to a device list"),
    };
    assert_eq!(devices.len(), 1);
    let expected = BlockDevice {
        path: "/dev/loop3".to_string(),
        size: 1048576,
        sectors: 2048,
        kind: BlockDeviceKind::Loopback { backing_file: Some("/img/a.img".to_string()) },
        model: None,
    };
    assert_devices_equal(&devices[0], &expected);
}

#[test]
fn disk_device_with_extreme_size_round_trips() {
    let device = BlockDevice {
        path: "/dev/sda".to_string(),
        size: u64::MAX,
        sectors: 0,
        kind: BlockDeviceKind::Disk,
        model: Some("Acme Disk".to_string()),
    };
    let original = Response::BlockDevices(vec![device]);
    let bytes = encode_response(&original);
    let devices = match decode_response(&bytes) {
        Some(Response::BlockDevices(devices)) => devices,
        _ => panic!("the encoded response must decode to a device list"),
    };
    let expected = BlockDevice {
        path: "/dev/sda".to_string(),
        size: u64::MAX,
        sectors: 0,
        kind: BlockDeviceKind::Disk,
        model: Some("Acme Disk".to_string()),
    };
    assert_devices_equal(&devices[0], &expected);
}

#[test]
fn empty_device_list_round_trips() {
    let bytes = encode_response(&Response::BlockDevices(Vec::new()));
    match decode_response(&bytes) {
        Some(Response::BlockDevices(devices)) => assert!(devices.is_empty()),
        _ => panic!("the empty listing must decode to an empty listing"),
    }
}

#[test]
fn superblock_response_round_trips() {
    let bytes = encode_response(&Response::Superblock(SuperblockInfo {
        filesystem: "ext4".to_string(),
    }));
    match decode_response(&bytes) {
        Some(Response::Superblock(sb)) => assert_eq!(sb.filesystem, "ext4"),
        _ => panic!("the encoded superblock must decode to a superblock"),
    }
}

#[test]
fn error_response_round_trips_verbatim() {
    let bytes = encode_response(&Response::Error("Failed to get superblock".to_string()));
    match decode_response(&bytes) {
        Some(Response::Error(message)) => assert_eq!(message, "Failed to get superblock"),
        _ => panic!("the encoded error must decode to an error"),
    }
}

#[test]
fn every_request_kind_round_trips() {
    let bytes = encode_request(&Request::GetBlockDevices);
    assert!(matches!(decode_request(&bytes), Some(Request::GetBlockDevices)));

    let bytes = encode_request(&Request::GetSuperblock("/dev/nvme0n1p2".to_string()));
    match decode_request(&bytes) {
        Some(Request::GetSuperblock(path)) => assert_eq!(path, "/dev/nvme0n1p2"),
        _ => panic!("the encoded superblock request must decode to one"),
    }

    let bytes = encode_request(&Request::Shutdown);
    assert!(matches!(decode_request(&bytes), Some(Request::Shutdown)));
}

#[test]
fn unicode_path_round_trips() {
    let bytes = encode_request(&Request::GetSuperblock("/dev/δίσκος".to_string()));
    match decode_request(&bytes) {
        Some(Request::GetSuperblock(path)) => assert_eq!(path, "/dev/δίσκος"),
        _ => panic!("the unicode path must survive the round trip"),
    }
}

#[test]
fn unknown_tags_are_rejected() {
    assert!(decode_request(&vec![9u8]).is_none());
    assert!(decode_response(&vec![9u8]).is_none());
}

#[test]
fn empty_input_is_rejected() {
    assert!(decode_request(&Vec::new()).is_none());
    assert!(decode_response(&Vec::new()).is_none());
}

#[test]
fn trailing_bytes_are_rejected() {
    let mut bytes = encode_request(&Request::Shutdown);
    bytes.push(0u8);
    assert!(decode_request(&bytes).is_none());
}

#[test]
fn truncated_input_is_rejected() {
    let bytes = encode_response(&Response::Error("Failed to get superblock".to_string()));
    let truncated: Vec<u8> = bytes[..bytes.len() - 1].to_vec();
    assert!(decode_response(&truncated).is_none());
}
