use sawdisk::dispatch::{
    block_devices_reply, find_superblock, superblock_reply, Dispatcher, Work,
};
use sawdisk::protocol::{BlockDevice, BlockDeviceKind, Request, Response, SuperblockInfo};

#[test]
fn each_request_kind_asks_for_its_own_work() {
    let mut dispatcher = Dispatcher::new();
    dispatcher.accept_session();
    assert!(matches!(dispatcher.step(&Request::GetBlockDevices), Work::Enumerate));
    match dispatcher.step(&Request::GetSuperblock("/dev/sda1".to_string())) {
        Work::ReadSuperblock(path) => assert_eq!(path, "/dev/sda1"),
        _ => panic!("a superblock request must ask for a superblock read"),
    }
    assert!(matches!(dispatcher.step(&Request::Shutdown), Work::Close));
}

#[test]
fn masked_enumeration_failure_becomes_empty_list() {
    match block_devices_reply(None) {
        Response::BlockDevices(devices) => assert!(devices.is_empty()),
        _ => panic!("an enumeration failure must be masked as an empty list"),
    }
}

#[test]
fn successful_enumeration_is_reported_as_is() {
    let device = BlockDevice {
        path: "/dev/sda".to_string(),
        size: 8192,
        sectors: 16,
        kind: BlockDeviceKind::Disk,
        model: Some("Acme".to_string()),
    };
    match block_devices_reply(Some(vec![device])) {
        Response::BlockDevices(devices) => {
            assert_eq!(devices.len(), 1);
            assert_eq!(devices[0].path, "/dev/sda");
            assert_eq!(devices[0].model, Some("Acme".to_string()));
        },
        _ => panic!("a successful enumeration must be reported as a device list"),
    }
}

#[test]
fn superblock_replies_follow_the_parse_outcome() {
    match superblock_reply(Some(SuperblockInfo { filesystem: "f2fs".to_string() })) {
        Response::Superblock(sb) => assert_eq!(sb.filesystem, "f2fs"),
        _ => panic!("a parsed superblock must be reported as one"),
    }
    match superblock_reply(None) {
        Response::Error(message) => assert_eq!(message, "Failed to get superblock"),
        _ => panic!("a failed parse must be reported with the fixed error"),
    }
}

#[test]
fn superblock_lookup_takes_the_first_match() {
    let table = vec![
        ("/dev/a".to_string(), SuperblockInfo { filesystem: "ext4".to_string() }),
        ("/dev/a".to_string(), SuperblockInfo { filesystem: "xfs".to_string() }),
        ("/dev/b".to_string(), SuperblockInfo { filesystem: "btrfs".to_string() }),
    ];
    match find_superblock(&table, &"/dev/a".to_string()) {
        Some(sb) => assert_eq!(sb.filesystem, "ext4"),
        None => panic!("a recorded path must be found"),
    }
    match find_superblock(&table, &"/dev/b".to_string()) {
        Some(sb) => assert_eq!(sb.filesystem, "btrfs"),
        None => panic!("a recorded path must be found"),
    }
    assert!(find_superblock(&table, &"/dev/c".to_string()).is_none());
}
