use sawdisk::devices::filter_attached;
use sawdisk::menu::{enums_to_cliclack, PartitionMenu};
use sawdisk::protocol::{BlockDevice, BlockDeviceKind};

#[test]
fn menu_labels_are_exact() {
    assert_eq!(PartitionMenu::Create.label(), "Create Partition");
    assert_eq!(PartitionMenu::Delete.label(), "Delete Partition");
    assert_eq!(PartitionMenu::Resize.label(), "Resize Partition");
    assert_eq!(PartitionMenu::Format.label(), "Format Partition");
    assert_eq!(PartitionMenu::Mount.label(), "Mount Partition");
    assert_eq!(PartitionMenu::Unmount.label(), "Unmount Partition");
    assert_eq!(PartitionMenu::List.label(), "List Partitions");
    assert_eq!(PartitionMenu::Quit.label(), "Quit");
}

#[test]
fn menu_items_keep_order_labels_and_empty_hints() {
    let entries = [
        PartitionMenu::Create,
        PartitionMenu::Delete,
        PartitionMenu::Resize,
        PartitionMenu::Format,
        PartitionMenu::Mount,
        PartitionMenu::Unmount,
        PartitionMenu::List,
        PartitionMenu::Quit,
    ];
    let items = enums_to_cliclack(&entries);
    assert_eq!(items.len(), entries.len());
    for (i, (value, label, hint)) in items.iter().enumerate() {
        assert_eq!(*value, entries[i]);
        assert_eq!(*label, entries[i].label());
        assert_eq!(*hint, "");
    }
}

#[test]
fn filtering_an_empty_listing_yields_an_empty_listing() {
    let filtered = filter_attached(Vec::new());
    assert!(filtered.is_empty());
}

#[test]
fn filtering_keeps_relative_order() {
    let devices = vec![
        BlockDevice {
            path: "/dev/sda".to_string(),
            size: 1,
            sectors: 1,
            kind: BlockDeviceKind::Disk,
            model: None,
        },
        BlockDevice {
            path: "/dev/loop9".to_string(),
            size: 0,
            sectors: 0,
            kind: BlockDeviceKind::Loopback { backing_file: None },
            model: None,
        },
        BlockDevice {
            path: "/dev/sdb".to_string(),
            size: 2,
            sectors: 2,
            kind: BlockDeviceKind::Disk,
            model: None,
        },
    ];
    let filtered = filter_attached(devices);
    assert_eq!(filtered.len(), 2);
    assert_eq!(filtered[0].path, "/dev/sda");
    assert_eq!(filtered[1].path, "/dev/sdb");
}
