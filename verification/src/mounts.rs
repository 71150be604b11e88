//! Entries of the mount table.

pub mod grammar;
pub mod parser;

use vstd::prelude::*;
use vstd::string::*;
use crate::paths::{begins_with, starts_with};
use crate::text::texts;

verus! {

/// One mounted file system.
#[derive(Clone, Debug)]
pub struct Mount {
    /// What is mounted: a device, a share, or a name such as `proc`.
    pub device: String,
    /// Where it is mounted.
    pub mount_point: String,
    /// The file system type.
    pub filesystem: String,
    /// The mount options, in the order in which the table lists them.
    pub options: Vec<String>,
}

/// A mount as a mathematical value.
pub struct MountView {
    pub device: Seq<char>,
    pub mount_point: Seq<char>,
    pub filesystem: Seq<char>,
    pub options: Seq<Seq<char>>,
}

impl View for Mount {
    type V = MountView;

    open spec fn view(&self) -> MountView {
        MountView {
            device: self.device@,
            mount_point: self.mount_point@,
            filesystem: self.filesystem@,
            options: texts(self.options@),
        }
    }
}

impl Default for Mount {
    /// A mount with empty fields and no options.
    fn default() -> (m: Mount)
        ensures
            m@.device.len() == 0,
            m@.mount_point.len() == 0,
            m@.filesystem.len() == 0,
            m@.options.len() == 0,
    {
        Mount {
            device: String::new(),
            mount_point: String::new(),
            filesystem: String::new(),
            options: Vec::new(),
        }
    }
}

/// How a mount is shown: `<device> on <mount point> type <file system>`. The
/// options are left out.
pub open spec fn shown(m: MountView) -> Seq<char> {
    m.device + " on "@ + m.mount_point + " type "@ + m.filesystem
}

impl Mount {
    /// The mount in words, as [`shown`] spells it.
    pub fn to_string(&self) -> (text: String)
        ensures
            text@ == shown(self@),
    {
        let mut text: String = self.device.clone();
        text.append(" on ");
        text.append(self.mount_point.as_str());
        text.append(" type ");
        text.append(self.filesystem.as_str());
        text
    }
}

/// Whether `name` is a file system type that is backed by no storage: kernel
/// interfaces, memory file systems and the like.
pub open spec fn is_virtual_name(name: Seq<char>) -> bool {
    ||| name == "binfmt_misc"@
    ||| name == "cgroup"@
    ||| name == "cgroup2"@
    ||| name == "devpts"@
    ||| name == "devtmpfs"@
    ||| name == "overlay"@
    ||| name == "proc"@
    ||| name == "sysfs"@
    ||| name == "tmpfs"@
    ||| name == "nsfs"@
    ||| name == "rpc_pipefs"@
    ||| name == "securityfs"@
    ||| name == "pstore"@
    ||| name == "efivarfs"@
    ||| name == "bpf"@
    ||| name == "autofs"@
    ||| name == "mqueue"@
    ||| name == "hugetlbfs"@
    ||| name == "debugfs"@
    ||| name == "tracefs"@
    ||| name == "fusectl"@
    ||| name == "configfs"@
    ||| name == "ramfs"@
    ||| name == "nfsd"@
}

/// Whether `fstype` names a virtual file system.
pub fn is_virtual_filesystem(fstype: &str) -> (yes: bool)
    ensures
        yes == is_virtual_name(fstype@),
{
    *fstype == *"binfmt_misc" || *fstype == *"cgroup" || *fstype == *"cgroup2" || *fstype
        == *"devpts" || *fstype == *"devtmpfs" || *fstype == *"overlay" || *fstype == *"proc"
        || *fstype == *"sysfs" || *fstype == *"tmpfs" || *fstype == *"nsfs" || *fstype
        == *"rpc_pipefs" || *fstype == *"securityfs" || *fstype == *"pstore" || *fstype
        == *"efivarfs" || *fstype == *"bpf" || *fstype == *"autofs" || *fstype == *"mqueue"
        || *fstype == *"hugetlbfs" || *fstype == *"debugfs" || *fstype == *"tracefs" || *fstype
        == *"fusectl" || *fstype == *"configfs" || *fstype == *"ramfs" || *fstype == *"nfsd"
}

/// Whether a mount is left out of a listing, given whether its mount point
/// lies under `/snap/`: virtual file systems are left out, and so are the
/// squashfs images that snap packages mount.
pub open spec fn skipped_given(fstype: Seq<char>, under_snap: bool) -> bool {
    is_virtual_name(fstype) || (under_snap && fstype == "squashfs"@)
}

/// Whether a mount is left out of a listing, given its file system type and
/// whether its mount point lies under `/snap/`.
pub fn is_skipped_given(fstype: &str, under_snap: bool) -> (yes: bool)
    ensures
        yes == skipped_given(fstype@, under_snap),
{
    is_virtual_filesystem(fstype) || (under_snap && *fstype == *"squashfs")
}

/// Whether a mount is left out of a listing. Whether the mount point lies
/// under `/snap/` is decided by whole path components.
pub fn is_skipped(mount_point: &str, fstype: &str) -> (yes: bool)
    ensures
        yes == skipped_given(fstype@, begins_with(mount_point@, "/snap/"@)),
{
    let under_snap: bool = starts_with(mount_point, "/snap/");
    is_skipped_given(fstype, under_snap)
}

} // verus!
