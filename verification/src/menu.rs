//! The partition action menu the frontend offers once a disk is selected.

use vstd::prelude::*;

verus! {

/// One entry of the partition action menu.
#[derive(Clone, Copy, Debug, PartialEq, Eq, Structural)]
pub enum PartitionMenu {
    Create,
    Delete,
    Resize,
    Format,
    Mount,
    Unmount,
    List,
    Quit,
}

/// The label shown for each menu entry.
pub open spec fn menu_label(entry: PartitionMenu) -> Seq<char> {
    match entry {
        PartitionMenu::Create => "Create Partition"@,
        PartitionMenu::Delete => "Delete Partition"@,
        PartitionMenu::Resize => "Resize Partition"@,
        PartitionMenu::Format => "Format Partition"@,
        PartitionMenu::Mount => "Mount Partition"@,
        PartitionMenu::Unmount => "Unmount Partition"@,
        PartitionMenu::List => "List Partitions"@,
        PartitionMenu::Quit => "Quit"@,
    }
}

impl PartitionMenu {
    /// The label shown for this entry.
    pub fn label(&self) -> (r: String)
        ensures
            r@ == menu_label(*self),
    {
        match self {
            PartitionMenu::Create => "Create Partition".to_owned(),
            PartitionMenu::Delete => "Delete Partition".to_owned(),
            PartitionMenu::Resize => "Resize Partition".to_owned(),
            PartitionMenu::Format => "Format Partition".to_owned(),
            PartitionMenu::Mount => "Mount Partition".to_owned(),
            PartitionMenu::Unmount => "Unmount Partition".to_owned(),
            PartitionMenu::List => "List Partitions".to_owned(),
            PartitionMenu::Quit => "Quit".to_owned(),
        }
    }
}

/// Menu entries in the `(value, label, hint)` shape the frontend's selection
/// prompt takes; every hint is empty.
pub fn enums_to_cliclack(enums: &[PartitionMenu]) -> (r: Vec<(PartitionMenu, String, &'static str)>)
    ensures
        r@.len() == enums@.len(),
        forall|i: int|
            0 <= i < enums@.len() ==> {
                &&& (#[trigger] r@[i]).0 == enums@[i]
                &&& r@[i].1@ == menu_label(enums@[i])
                &&& r@[i].2@ == ""@
            },
{
    let mut out: Vec<(PartitionMenu, String, &'static str)> = Vec::new();
    let mut i: usize = 0;
    while i < enums.len()
        invariant
            0 <= i <= enums@.len(),
            out@.len() == i,
            forall|j: int|
                0 <= j < i ==> {
                    &&& (#[trigger] out@[j]).0 == enums@[j]
                    &&& out@[j].1@ == menu_label(enums@[j])
                    &&& out@[j].2@ == ""@
                },
        decreases enums@.len() - i,
    {
        let entry = enums[i];
        out.push((entry, entry.label(), ""));
        i += 1;
    }
    out
}

} // verus!
