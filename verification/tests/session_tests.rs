use sawdisk::devices::filter_attached;
use sawdisk::dispatch::run_session;
use sawdisk::protocol::{BlockDevice, BlockDeviceKind, Request, Response, SuperblockInfo};

fn disk(path: &str, size: u64, sectors: u64, model: Option<&str>) -> BlockDevice {
    BlockDevice {
        path: path.to_string(),
        size,
        sectors,
        kind: BlockDeviceKind::Disk,
        model: model.map(|m| m.to_string()),
    }
}

fn loopback(path: &str, size: u64, sectors: u64, backing_file: Option<&str>) -> BlockDevice {
    BlockDevice {
        path: path.to_string(),
        size,
        sectors,
        kind: BlockDeviceKind::Loopback { backing_file: backing_file.map(|f| f.to_string()) },
        model: None,
    }
}

#[test]
fn responses_arrive_in_request_order() {
    let requests = vec![
        Request::GetBlockDevices,
        Request::GetSuperblock("/dev/x".to_string()),
        Request::GetSuperblock("/dev/y".to_string()),
    ];
    let enumeration = Some(vec![disk("/dev/sda", 1000, 2, Some("Acme"))]);
    let superblocks = vec![("/dev/x".to_string(), SuperblockInfo {
        filesystem: "ext4".to_string(),
    })];
    let (responses, closed) = run_session(&requests, &enumeration, &superblocks);
    assert_eq!(responses.len(), 3);
    assert!(!closed);
    match &responses[0] {
        Response::BlockDevices(devices) => assert_eq!(devices.len(), 1),
        _ => panic!("first response must answer GetBlockDevices"),
    }
    match &responses[1] {
        Response::Superblock(sb) => assert_eq!(sb.filesystem, "ext4"),
        _ => panic!("second response must answer GetSuperblock(/dev/x)"),
    }
    match &responses[2] {
        Response::Error(message) => assert_eq!(message, "Failed to get superblock"),
        _ => panic!("third response must answer GetSuperblock(/dev/y)"),
    }
}

#[test]
fn shutdown_closes_and_gets_no_response() {
    let requests = vec![
        Request::GetBlockDevices,
        Request::Shutdown,
        Request::GetBlockDevices,
    ];
    let (responses, closed) = run_session(&requests, &None, &Vec::new());
    assert_eq!(responses.len(), 1);
    assert!(closed);
}

#[test]
fn session_without_shutdown_does_not_close() {
    let requests = vec![Request::GetBlockDevices];
    let (responses, closed) = run_session(&requests, &None, &Vec::new());
    assert_eq!(responses.len(), 1);
    assert!(!closed);
}

#[test]
fn empty_enumeration_returns_empty_list_not_error() {
    let requests = vec![Request::GetBlockDevices];
    let (responses, closed) = run_session(&requests, &Some(Vec::new()), &Vec::new());
    assert!(!closed);
    assert_eq!(responses.len(), 1);
    match &responses[0] {
        Response::BlockDevices(devices) => assert!(devices.is_empty()),
        _ => panic!("an empty enumeration must still yield a device list"),
    }
}

#[test]
fn failed_enumeration_is_masked_as_empty_list() {
    let requests = vec![Request::GetBlockDevices];
    let (responses, _) = run_session(&requests, &None, &Vec::new());
    match &responses[0] {
        Response::BlockDevices(devices) => assert!(devices.is_empty()),
        _ => panic!("a failed enumeration must be masked as an empty list"),
    }
}

#[test]
fn rejected_superblock_path_yields_exact_error() {
    let requests = vec![Request::GetSuperblock("/dev/missing".to_string())];
    let superblocks = vec![("/dev/present".to_string(), SuperblockInfo {
        filesystem: "btrfs".to_string(),
    })];
    let (responses, closed) = run_session(&requests, &None, &superblocks);
    assert!(!closed);
    assert_eq!(responses.len(), 1);
    match &responses[0] {
        Response::Error(message) => assert_eq!(message, "Failed to get superblock"),
        _ => panic!("a rejected path must be answered with the fixed error"),
    }
}

#[test]
fn get_block_devices_twice_returns_identical_lists() {
    let requests = vec![Request::GetBlockDevices, Request::GetBlockDevices];
    let enumeration = Some(vec![
        disk("/dev/sda", 4096, 8, Some("Acme")),
        loopback("/dev/loop0", 0, 0, None),
    ]);
    let (responses, _) = run_session(&requests, &enumeration, &Vec::new());
    assert_eq!(responses.len(), 2);
    let first = match &responses[0] {
        Response::BlockDevices(devices) => devices,
        _ => panic!("expected a device list"),
    };
    let second = match &responses[1] {
        Response::BlockDevices(devices) => devices,
        _ => panic!("expected a device list"),
    };
    assert_eq!(first.len(), second.len());
    for (a, b) in first.iter().zip(second.iter()) {
        assert_eq!(a.path, b.path);
        assert_eq!(a.size, b.size);
        assert_eq!(a.sectors, b.sectors);
        assert_eq!(a.model, b.model);
        match (&a.kind, &b.kind) {
            (BlockDeviceKind::Disk, BlockDeviceKind::Disk) => {},
            (
                BlockDeviceKind::Loopback { backing_file: fa },
                BlockDeviceKind::Loopback { backing_file: fb },
            ) => assert_eq!(fa, fb),
            _ => panic!("device kinds differ between the two listings"),
        }
    }
}

#[test]
fn filtering_drops_only_backingless_loopback_devices() {
    let devices = vec![
        disk("/dev/sda", 500107862016, 976773168, Some("Acme SSD")),
        loopback("/dev/loop0", 0, 0, None),
    ];
    let filtered = filter_attached(devices);
    assert_eq!(filtered.len(), 1);
    assert_eq!(filtered[0].path, "/dev/sda");
    assert_eq!(filtered[0].size, 500107862016);
}

#[test]
fn filtering_keeps_loopback_devices_with_backing_files() {
    let devices = vec![
        loopback("/dev/loop1", 4096, 8, Some("/img/a.img")),
        loopback("/dev/loop2", 0, 0, None),
        disk("/dev/sdb", 64, 1, None),
    ];
    let filtered = filter_attached(devices);
    assert_eq!(filtered.len(), 2);
    assert_eq!(filtered[0].path, "/dev/loop1");
    assert_eq!(filtered[1].path, "/dev/sdb");
}
