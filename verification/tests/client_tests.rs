use sawdisk::client::{Arrival, ClientError, ClientSession};
use sawdisk::protocol::{BlockDevice, BlockDeviceKind, Request, Response, SuperblockInfo};

#[test]
fn matching_device_list_response_succeeds() {
    let session = ClientSession::new();
    let device = BlockDevice {
        path: "/dev/sda".to_string(),
        size: 1024,
        sectors: 2,
        kind: BlockDeviceKind::Disk,
        model: None,
    };
    let arrival = Arrival::Received(Response::BlockDevices(vec![device]));
    match session.interpret_block_devices(arrival) {
        Ok(devices) => {
            assert_eq!(devices.len(), 1);
            assert_eq!(devices[0].path, "/dev/sda");
        },
        Err(_) => panic!("a matching response must succeed"),
    }
}

#[test]
fn error_response_carries_backend_reason_verbatim() {
    let session = ClientSession::new();
    let arrival = Arrival::Received(Response::Error("Failed to get superblock".to_string()));
    match session.interpret_superblock(arrival) {
        Err(ClientError::OperationError(message)) => {
            assert_eq!(message, "Failed to get superblock")
        },
        _ => panic!("a reported failure must become an operation error"),
    }
}

#[test]
fn mismatched_response_is_a_protocol_violation() {
    let session = ClientSession::new();
    let arrival = Arrival::Received(Response::Superblock(SuperblockInfo {
        filesystem: "ext4".to_string(),
    }));
    assert!(matches!(
        session.interpret_block_devices(arrival),
        Err(ClientError::ProtocolViolation)
    ));
    let arrival = Arrival::Received(Response::BlockDevices(Vec::new()));
    assert!(matches!(
        session.interpret_superblock(arrival),
        Err(ClientError::ProtocolViolation)
    ));
}

#[test]
fn closure_before_a_response_is_a_protocol_violation() {
    let session = ClientSession::new();
    assert!(matches!(
        session.interpret_block_devices(Arrival::Closed),
        Err(ClientError::ProtocolViolation)
    ));
    assert!(matches!(
        session.interpret_superblock(Arrival::Closed),
        Err(ClientError::ProtocolViolation)
    ));
}

#[test]
fn failed_read_is_a_channel_error() {
    let session = ClientSession::new();
    assert!(matches!(
        session.interpret_block_devices(Arrival::Failed),
        Err(ClientError::ChannelError)
    ));
    assert!(matches!(
        session.interpret_superblock(Arrival::Failed),
        Err(ClientError::ChannelError)
    ));
}

#[test]
fn matching_superblock_response_succeeds() {
    let session = ClientSession::new();
    let arrival = Arrival::Received(Response::Superblock(SuperblockInfo {
        filesystem: "xfs".to_string(),
    }));
    match session.interpret_superblock(arrival) {
        Ok(sb) => assert_eq!(sb.filesystem, "xfs"),
        Err(_) => panic!("a matching response must succeed"),
    }
}

#[test]
fn client_interprets_every_response_a_session_produces() {
    let session = ClientSession::new();
    let requests = vec![
        Request::GetBlockDevices,
        Request::GetSuperblock("/dev/a".to_string()),
        Request::GetSuperblock("/dev/b".to_string()),
    ];
    let enumeration = Some(vec![BlockDevice {
        path: "/dev/sda".to_string(),
        size: 2048,
        sectors: 4,
        kind: BlockDeviceKind::Disk,
        model: None,
    }]);
    let superblocks = vec![("/dev/a".to_string(), SuperblockInfo {
        filesystem: "ext4".to_string(),
    })];
    let (mut responses, _) = sawdisk::dispatch::run_session(&requests, &enumeration, &superblocks);
    let third = responses.pop().unwrap();
    let second = responses.pop().unwrap();
    let first = responses.pop().unwrap();
    match session.interpret_block_devices(Arrival::Received(first)) {
        Ok(devices) => assert_eq!(devices[0].path, "/dev/sda"),
        Err(_) => panic!("the listing owed to the first request must interpret as success"),
    }
    match session.interpret_superblock(Arrival::Received(second)) {
        Ok(sb) => assert_eq!(sb.filesystem, "ext4"),
        Err(_) => panic!("the metadata owed to the second request must interpret as success"),
    }
    match session.interpret_superblock(Arrival::Received(third)) {
        Err(ClientError::OperationError(message)) => {
            assert_eq!(message, "Failed to get superblock")
        },
        _ => panic!("the failure owed to the third request must carry the backend's reason"),
    }
}

#[test]
fn typed_calls_send_their_own_request_kinds() {
    let session = ClientSession::new();
    assert!(matches!(session.block_devices_request(), Request::GetBlockDevices));
    match session.superblock_request("/dev/sda1") {
        Request::GetSuperblock(path) => assert_eq!(path, "/dev/sda1"),
        _ => panic!("the superblock call must send a superblock request"),
    }
    assert!(matches!(session.shutdown(), Request::Shutdown));
}
