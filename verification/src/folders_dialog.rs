//! The folders of the host that a machine shares.
use crate::tagged::Tagged;
use vstd::prelude::*;

verus! {

/// A folder of the host, and the tag under which the guest mounts it.
#[derive(Debug)]
pub struct SharedFolder {
    pub host_path: String,
    pub mount_tag: String,
}

/// The folder for a path and the name at its end. The name is the mount tag; a path without
/// one gets the tag `share`.
pub fn shared_folder(path: &str, file_name: Option<&str>) -> (res: SharedFolder)
    ensures
        res.host_path@ == path@,
        res.mount_tag@ == (match file_name {
            Some(name) => name@,
            None => "share"@,
        }),
{
    let tag: &str = match file_name {
        Some(name) => name,
        None => "share",
    };
    SharedFolder { host_path: path.to_string(), mount_tag: tag.to_string() }
}

/// The title and the subtitle of the row of a folder.
pub fn make_folder_row(folder: &SharedFolder) -> (res: (String, String))
    ensures
        res.0@ == folder.host_path@,
        res.1@ == folder.mount_tag@,
{
    (folder.host_path.as_str().to_string(), folder.mount_tag.as_str().to_string())
}

/// The path and the tag of a folder.
pub open spec fn folder_view(folder: SharedFolder) -> (Seq<char>, Seq<char>) {
    (folder.host_path@, folder.mount_tag@)
}

/// The paths and tags of folders.
pub open spec fn folders_view(folders: Seq<SharedFolder>) -> Seq<(Seq<char>, Seq<char>)> {
    Seq::new(folders.len(), |i: int| folder_view(folders[i]))
}

fn copy_folder(folder: &SharedFolder) -> (res: SharedFolder)
    ensures
        folder_view(res) == folder_view(*folder),
{
    SharedFolder {
        host_path: folder.host_path.as_str().to_string(),
        mount_tag: folder.mount_tag.as_str().to_string(),
    }
}

/// The folders of a machine, each with a number of its own, in order.
pub fn tag_folders(folders: &Vec<SharedFolder>) -> (res: Tagged<SharedFolder>)
    requires
        folders@.len() <= u32::MAX,
    ensures
        res.wf(),
        folders_view(res.values()) == folders_view(folders@),
        res.next_id == folders@.len(),
{
    let mut list: Tagged<SharedFolder> = Tagged::new();
    let mut i: usize = 0;
    while i < folders.len()
        invariant
            i <= folders@.len() <= u32::MAX,
            list.wf(),
            list.next_id == i,
            list.items@.len() == i,
            folders_view(list.values()) == folders_view(folders@).take(i as int),
        decreases folders@.len() - i,
    {
        let ghost before = folders_view(list.values());
        let folder: SharedFolder = copy_folder(&folders[i]);
        list.push(folder);
        proof {
            assert(folders_view(list.values()) =~= before.push(folder_view(folder)));
            assert(folders_view(folders@).take(i + 1) =~= folders_view(folders@).take(
                i as int,
            ).push(folder_view(folders@[i as int])));
        }
        i = i + 1;
    }
    proof {
        assert(folders_view(folders@).take(i as int) =~= folders_view(folders@));
    }
    list
}

/// The folders to save: those of the list, without their numbers.
pub fn folders_of(list: &Tagged<SharedFolder>) -> (res: Vec<SharedFolder>)
    ensures
        folders_view(res@) == folders_view(list.values()),
{
    let mut out: Vec<SharedFolder> = Vec::new();
    let mut i: usize = 0;
    let ghost all = folders_view(list.values());
    while i < list.items.len()
        invariant
            i <= list.items@.len(),
            all == folders_view(list.values()),
            folders_view(out@) == all.take(i as int),
        decreases list.items@.len() - i,
    {
        let ghost before = folders_view(out@);
        let folder: SharedFolder = copy_folder(&list.items[i].1);
        out.push(folder);
        proof {
            assert(folders_view(out@) =~= before.push(folder_view(folder)));
            assert(all.take(i + 1) =~= all.take(i as int).push(all[i as int]));
        }
        i = i + 1;
    }
    proof {
        assert(all.take(i as int) =~= all);
    }
    out
}

/// What is shown in place of folders: a text if there are none, and nothing if there are any.
pub fn empty_text(folders: usize) -> (res: Option<&'static str>)
    ensures
        res.is_some() == (folders == 0),
        res matches Some(text) ==> text@ == "No shared folders"@,
{
    if folders == 0 {
        Some("No shared folders")
    } else {
        None
    }
}

} // verus!
