//! Decision logic of the multi-operation commands: the depth-first walk a
//! recursive delete performs, and the batch a favourites upload issues.
//!
//! Each is a plan over plain values: the driver performs one file operation
//! at a time and hands the outcome back, so every decision is made here.

use vstd::prelude::*;
use crate::commands::{ensure_dir_path, spec_dir_path};
use crate::text::{spec_two_digit, two_digit_string};

verus! {

/// One pending step of a recursive delete: list a directory (its path ends
/// with a slash), or remove a single file.
pub enum FsTask {
    List { path: String },
    Remove { path: String },
}

/// Whether a directory entry name denotes a subdirectory: the device marks
/// one with a trailing slash.
pub open spec fn spec_entry_is_dir(name: Seq<char>) -> bool {
    name.len() > 0 && name.last() == '/'
}

/// The worklist of a recursive delete, processed last-in first-out so that
/// the walk is depth-first and in listing order.  The root directory itself
/// is never removed: only tasks for its descendants ever enter the stack.
pub struct DeleteWalk {
    pub stack: Vec<FsTask>,
}

impl DeleteWalk {
    /// Starts a walk that empties the directory at `path`: the one pending
    /// task lists the normalized path.
    pub fn new(path: &str) -> (r: DeleteWalk)
        ensures
            r.stack@.len() == 1,
            r.stack@[0] matches FsTask::List { path: p } && p@ == spec_dir_path(path@),
    {
        let normalized = ensure_dir_path(path);
        let mut stack: Vec<FsTask> = Vec::new();
        stack.push(FsTask::List { path: normalized });
        DeleteWalk { stack }
    }

    /// The next pending task, or nothing when the walk is complete.
    pub fn next_task(&mut self) -> (r: Option<FsTask>)
        ensures
            old(self).stack@.len() == 0 ==> r is None && final(self).stack@
                == old(self).stack@,
            old(self).stack@.len() > 0 ==> (r matches Some(task) && task
                == old(self).stack@.last() && final(self).stack@ == old(self).stack@.drop_last()),
    {
        self.stack.pop()
    }

    /// Feeds back the listing of a directory: every entry becomes a pending
    /// task — a listing task for a subdirectory, a removal for a file — and
    /// the tasks are stacked in reverse so that the walk visits the entries
    /// in listing order, each subdirectory fully before its successors.
    pub fn on_listing(&mut self, dir_path: &str, entries: &Vec<String>)
        ensures
            final(self).stack@.len() == old(self).stack@.len() + entries@.len(),
            forall|k: int|
                0 <= k < old(self).stack@.len() ==> final(self).stack@[k] == old(
                    self,
                ).stack@[k],
            forall|j: int|
                0 <= j < entries@.len() ==> {
                    let name = entries@[entries@.len() - 1 - j]@;
                    let full = dir_path@ + name;
                    &&& spec_entry_is_dir(name) ==> (#[trigger] final(self).stack@[old(
                        self,
                    ).stack@.len() + j] matches FsTask::List { path } && path@ == full)
                    &&& !spec_entry_is_dir(name) ==> (final(self).stack@[old(self).stack@.len()
                        + j] matches FsTask::Remove { path } && path@ == full)
                },
    {
        let ghost old_stack = self.stack@;
        let mut j: usize = entries.len();
        while j > 0
            invariant
                j <= entries@.len(),
                self.stack@.len() == old_stack.len() + (entries@.len() - j),
                forall|k: int| 0 <= k < old_stack.len() ==> self.stack@[k] == old_stack[k],
                forall|t: int|
                    0 <= t < entries@.len() - j ==> {
                        let name = entries@[entries@.len() - 1 - t]@;
                        let full = dir_path@ + name;
                        &&& spec_entry_is_dir(name) ==> (#[trigger] self.stack@[old_stack.len()
                            + t] matches FsTask::List { path } && path@ == full)
                        &&& !spec_entry_is_dir(name) ==> (self.stack@[old_stack.len()
                            + t] matches FsTask::Remove { path } && path@ == full)
                    },
            decreases j,
        {
            j -= 1;
            let entry = &entries[j];
            let mut full = String::from_str(dir_path);
            full.append(entry.as_str());
            let n = entry.as_str().unicode_len();
            let is_dir = n > 0 && entry.as_str().get_char(n - 1) == '/';
            if is_dir {
                self.stack.push(FsTask::List { path: full });
            } else {
                self.stack.push(FsTask::Remove { path: full });
            }
        }
    }
}

/// One step of a favourites upload.
pub enum UploadStep {
    /// Empty the favourites directory tree.
    ClearFavorites,
    /// Create one slot directory; an already-existing directory is
    /// tolerated.
    MakeSlot { path: String },
    /// Upload one file into its slot, with write-back verification.
    SendFile { path: String, data: Vec<u8> },
}

/// The slot directory for file `slot`: the favourites root, a slash, and
/// the slot number zero-padded to two digits.
pub open spec fn spec_slot_path(slot: nat) -> Seq<char> {
    "/U/0/FAV/"@ + spec_two_digit(slot)
}

/// The file a favourite is stored in, within its slot directory.
pub open spec fn spec_slot_file(slot: nat) -> Seq<char> {
    spec_slot_path(slot) + "/TST.BPB"@
}

/// The slot directory path for one file index.
pub fn slot_path(slot: usize) -> (r: String)
    ensures
        r@ == spec_slot_path(slot as nat),
{
    let mut s = String::from_str("/U/0/FAV/");
    let digits = two_digit_string(slot as u64);
    s.append(digits.as_str());
    s
}

/// Law: the favourites upload batch.  The plan clears the favourites tree
/// first, then for each file, in order, creates its slot directory and
/// uploads the file into that slot — one make-directory and one upload per
/// file, with the file bytes passed through unchanged.
pub fn upload_plan(files: &Vec<Vec<u8>>) -> (r: Vec<UploadStep>)
    ensures
        r@.len() == 1 + 2 * files@.len(),
        r@[0] is ClearFavorites,
        forall|i: int|
            0 <= i < files@.len() ==> {
                &&& (#[trigger] r@[1 + 2 * i] matches UploadStep::MakeSlot { path } && path@
                    == spec_slot_path(i as nat))
                &&& (r@[2 + 2 * i] matches UploadStep::SendFile { path, data } && path@
                    == spec_slot_file(i as nat) && data@ == files@[i]@)
            },
{
    let mut r: Vec<UploadStep> = Vec::new();
    r.push(UploadStep::ClearFavorites);
    let mut i: usize = 0;
    while i < files.len()
        invariant
            i <= files@.len(),
            r@.len() == 1 + 2 * i,
            r@[0] is ClearFavorites,
            forall|k: int|
                0 <= k < i ==> {
                    &&& (#[trigger] r@[1 + 2 * k] matches UploadStep::MakeSlot { path } && path@
                        == spec_slot_path(k as nat))
                    &&& (r@[2 + 2 * k] matches UploadStep::SendFile { path, data } && path@
                        == spec_slot_file(k as nat) && data@ == files@[k]@)
                },
        decreases files@.len() - i,
    {
        let dir = slot_path(i);
        let mut file = slot_path(i);
        file.append("/TST.BPB");
        let data = files[i].clone();
        proof {
            assert(data@ =~= files@[i as int]@);
        }
        r.push(UploadStep::MakeSlot { path: dir });
        r.push(UploadStep::SendFile { path: file, data });
        i += 1;
    }
    r
}

} // verus!
