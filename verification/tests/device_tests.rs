use sawdisk::protocol::{BlockDevice, BlockDeviceKind};

#[test]
fn disk_parts_build_a_disk_device() {
    let d = BlockDevice::from_disk_parts(
        "/dev/nvme0n1".to_string(),
        512110190592,
        1000215216,
        Some("Acme NVMe".to_string()),
    );
    assert_eq!(d.path, "/dev/nvme0n1");
    assert_eq!(d.size, 512110190592);
    assert_eq!(d.sectors, 1000215216);
    assert!(matches!(d.kind, BlockDeviceKind::Disk));
    assert_eq!(d.model, Some("Acme NVMe".to_string()));
}

#[test]
fn attached_loopback_parts_carry_their_disk_and_backing_file() {
    let d = BlockDevice::from_loopback_parts(
        "/dev/loop0".to_string(),
        Some((1048576, 2048)),
        Some("/img/a.img".to_string()),
    );
    assert_eq!(d.path, "/dev/loop0");
    assert_eq!(d.size, 1048576);
    assert_eq!(d.sectors, 2048);
    match d.kind {
        BlockDeviceKind::Loopback { backing_file } => {
            assert_eq!(backing_file, Some("/img/a.img".to_string()))
        },
        _ => panic!("loopback parts must build a loopback device"),
    }
    assert_eq!(d.model, None);
}

#[test]
fn unattached_loopback_parts_report_zero_size() {
    let d = BlockDevice::from_loopback_parts("/dev/loop7".to_string(), None, None);
    assert_eq!(d.size, 0);
    assert_eq!(d.sectors, 0);
    match d.kind {
        BlockDeviceKind::Loopback { backing_file } => assert_eq!(backing_file, None),
        _ => panic!("loopback parts must build a loopback device"),
    }
}
