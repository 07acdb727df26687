//! Devices that an image can be written to.

use std::path::PathBuf;
use vstd::prelude::*;

verus! {

/// What kind of target a write goes to: a plain file, a whole disk or one
/// partition.
#[derive(Debug, Clone, Copy, PartialEq, Eq, Structural, PartialOrd, Ord, Hash)]
pub enum Type {
    File,
    Disk,
    Partition,
}

/// Whether a device is removable.
#[derive(Debug, Clone, Copy, PartialEq, Eq, Structural, PartialOrd, Ord, Hash)]
pub enum Removable {
    Yes,
    No,
    Unknown,
}

/// A device or file that an image can be written to, as the interface lists it:
/// its device node, its name and model, whether it is removable, its size in bytes
/// and its kind.
#[derive(Debug, PartialEq, Eq, PartialOrd, Ord, Hash)]
pub struct WriteTarget {
    pub devnode: PathBuf,
    pub name: String,
    pub model: String,
    pub removable: Removable,
    pub size: u64,
    pub target_type: Type,
}


impl Clone for WriteTarget {
    fn clone(&self) -> (t: WriteTarget)
        ensures
            t == *self,
    {
        WriteTarget {
            devnode: self.devnode.clone(),
            name: self.name.clone(),
            model: self.model.clone(),
            removable: self.removable,
            size: self.size,
            target_type: self.target_type,
        }
    }
}

} // verus!
