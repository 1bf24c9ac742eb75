//! Reading the table of mounted filesystems.
//!
//! Each line of the table describes one mount in fields separated by white
//! space: the device, the mount point, the type of filesystem, and more.

use crate::request::line_views;
use crate::text::{fields, split_fields, text_eq, views};
use vstd::prelude::*;

verus! {

/// The mount point that `line` gives for configfs, where it gives one: its
/// second field, if its third field is `configfs`.
pub open spec fn configfs_mount(line: Seq<char>) -> Option<Seq<char>> {
    let found = fields(line);
    if found.len() >= 3 && found[2] == "configfs"@ {
        Some(found[1])
    } else {
        None
    }
}

/// The mount point of the first of `lines` that gives one for configfs.
pub open spec fn first_configfs_mount(lines: Seq<Seq<char>>) -> Option<Seq<char>>
    decreases lines.len(),
{
    if lines.len() == 0 {
        None
    } else if configfs_mount(lines[0]) is Some {
        configfs_mount(lines[0])
    } else {
        first_configfs_mount(lines.drop_first())
    }
}

/// An optional text as an optional sequence.
pub open spec fn text_view(text: Option<String>) -> Option<Seq<char>> {
    match text {
        Some(text) => Some(text@),
        None => None,
    }
}

/// Where `line` of the mount table says that configfs is mounted, if it
/// speaks of configfs.
pub fn mount_in_line(line: &str) -> (mount: Option<String>)
    ensures
        text_view(mount) == configfs_mount(line@),
{
    let found = split_fields(line);
    proof {
        assert(views(found@).len() == found@.len());
    }
    if found.len() >= 3 && text_eq(found[2], "configfs") {
        assert(views(found@)[2] == found@[2]@);
        assert(views(found@)[1] == found@[1]@);
        Some(found[1].to_owned())
    } else {
        proof {
            if found.len() >= 3 {
                assert(views(found@)[2] == found@[2]@);
            }
        }
        None
    }
}

/// Where configfs is mounted according to the `lines` of the mount table:
/// the mount point in the first line that speaks of configfs.
pub fn configfs_mountpoint(lines: &Vec<String>) -> (mount: Option<String>)
    ensures
        text_view(mount) == first_configfs_mount(line_views(lines@)),
{
    let ghost all = line_views(lines@);
    let mut i: usize = 0;
    assert(all.skip(0) =~= all);
    while i < lines.len()
        invariant
            i <= lines.len(),
            all == line_views(lines@),
            first_configfs_mount(all) == first_configfs_mount(all.skip(i as int)),
        decreases lines.len() - i,
    {
        let mount = mount_in_line(lines[i].as_str());
        assert(all.skip(i as int)[0] == lines@[i as int]@);
        if mount.is_some() {
            return mount;
        }
        assert(all.skip(i as int).drop_first() =~= all.skip(i + 1));
        i += 1;
    }
    None
}

} // verus!
