//! The files the tool keeps, as plain values.
//!
//! Nothing here touches a disk. A `FileOp` describes one step for the caller
//! to carry out; `apply_op` says what a step that succeeds does to the files;
//! and `Files` is an in-memory image on which steps can be replayed and from
//! which the rest of the crate reads.

use vstd::prelude::*;
use vstd::slice::*;
use vstd::string::*;
use vstd::utf8::*;
use crate::text::str_eq;

verus! {

/// What is stored under each path.
pub type Disk = Map<Seq<char>, Seq<u8>>;

/// One step on the file system, to be carried out by the caller.
#[derive(Debug, Clone, PartialEq, Eq)]
pub enum FileOp {
    /// Create the directory `path` and every missing parent.
    CreateDirAll { path: String },
    /// Create `path` or empty it, then write `data`.
    WriteFile { path: String, data: Vec<u8> },
    /// Remove `path` if it is there; an absent file is no fault.
    RemoveFile { path: String },
}

/// A `FileOp` in specifications.
pub enum FileOpView {
    CreateDirAll { path: Seq<char> },
    WriteFile { path: Seq<char>, data: Seq<u8> },
    RemoveFile { path: Seq<char> },
}

impl View for FileOp {
    type V = FileOpView;

    open spec fn view(&self) -> FileOpView {
        match self {
            FileOp::CreateDirAll { path } => FileOpView::CreateDirAll { path: path@ },
            FileOp::WriteFile { path, data } => FileOpView::WriteFile { path: path@, data: data@ },
            FileOp::RemoveFile { path } => FileOpView::RemoveFile { path: path@ },
        }
    }
}

/// The views of a list of steps.
pub open spec fn ops_view(ops: Seq<FileOp>) -> Seq<FileOpView> {
    ops.map_values(|op: FileOp| op@)
}

/// The files after the step `op` has succeeded. Directories hold no content
/// and are not part of the image.
pub open spec fn apply_op(disk: Disk, op: FileOpView) -> Disk {
    match op {
        FileOpView::CreateDirAll { path } => disk,
        FileOpView::WriteFile { path, data } => disk.insert(path, data),
        FileOpView::RemoveFile { path } => disk.remove(path),
    }
}

/// The files after every step of `ops` has succeeded, in order.
pub open spec fn apply_ops(disk: Disk, ops: Seq<FileOpView>) -> Disk
    decreases ops.len(),
{
    if ops.len() == 0 {
        disk
    } else {
        apply_op(apply_ops(disk, ops.drop_last()), ops.last())
    }
}

/// The text stored under `path`: `None` if nothing is stored there or if what
/// is stored is not well-formed UTF-8.
pub open spec fn text_at(disk: Disk, path: Seq<char>) -> Option<Seq<char>> {
    if disk.contains_key(path) && valid_utf8(disk[path]) {
        Some(decode_utf8(disk[path]))
    } else {
        None
    }
}

/// Replaying two lists one after the other is replaying their concatenation.
pub proof fn lemma_apply_ops_concat(disk: Disk, first: Seq<FileOpView>, second: Seq<FileOpView>)
    ensures
        apply_ops(disk, first + second) == apply_ops(apply_ops(disk, first), second),
    decreases second.len(),
{
    if second.len() == 0 {
        assert(first + second =~= first);
    } else {
        lemma_apply_ops_concat(disk, first, second.drop_last());
        assert((first + second).drop_last() =~= first + second.drop_last());
        assert((first + second).last() == second.last());
    }
}

/// Replaying a list of two steps is taking one step after the other.
pub proof fn lemma_apply_two(disk: Disk, a: FileOpView, b: FileOpView)
    ensures
        apply_ops(disk, seq![a, b]) == apply_op(apply_op(disk, a), b),
{
    let ops = seq![a, b];
    assert(ops.drop_last() =~= seq![a]);
    assert(seq![a].drop_last() =~= Seq::<FileOpView>::empty());
    reveal_with_fuel(apply_ops, 3);
}

/// `String::from_utf8`: succeeds exactly on well-formed UTF-8, and the string
/// it gives is the one that `bytes` encodes.
#[verifier::external_body]
fn utf8_text(bytes: Vec<u8>) -> (r: Option<String>)
    ensures
        r is Some == valid_utf8(bytes@),
        r matches Some(s) ==> encode_utf8(s@) == bytes@,
{
    match String::from_utf8(bytes) {
        Ok(s) => Some(s),
        Err(_) => None,
    }
}

#[derive(Debug, Clone)]
struct FileEntry {
    path: String,
    data: Vec<u8>,
}

/// An in-memory image of files: what is stored under each path.
#[derive(Debug, Clone)]
pub struct Files {
    entries: Vec<FileEntry>,
}

/// What a list of entries stores; a later entry hides an earlier one of the
/// same path.
spec fn image(entries: Seq<FileEntry>) -> Disk
    decreases entries.len(),
{
    if entries.len() == 0 {
        Map::empty()
    } else {
        image(entries.drop_last()).insert(entries.last().path@, entries.last().data@)
    }
}

proof fn lemma_image_found(entries: Seq<FileEntry>, path: Seq<char>, j: int)
    requires
        0 <= j < entries.len(),
        entries[j].path@ == path,
        forall|k: int| j < k < entries.len() ==> entries[k].path@ != path,
    ensures
        image(entries).contains_key(path),
        image(entries)[path] == entries[j].data@,
    decreases entries.len(),
{
    if j < entries.len() - 1 {
        lemma_image_found(entries.drop_last(), path, j);
    }
}

proof fn lemma_image_absent(entries: Seq<FileEntry>, path: Seq<char>)
    requires
        forall|k: int| 0 <= k < entries.len() ==> entries[k].path@ != path,
    ensures
        !image(entries).contains_key(path),
    decreases entries.len(),
{
    if entries.len() > 0 {
        lemma_image_absent(entries.drop_last(), path);
    }
}

proof fn lemma_image_without_entry(entries: Seq<FileEntry>, i: int)
    requires
        0 <= i < entries.len(),
    ensures
        image(entries.remove(i)).remove(entries[i].path@) == image(entries).remove(
            entries[i].path@,
        ),
    decreases entries.len(),
{
    let path = entries[i].path@;
    let rest = entries.drop_last();
    if i == entries.len() - 1 {
        assert(entries.remove(i) =~= rest);
        assert(image(rest).remove(path) =~= image(entries).remove(path));
    } else {
        lemma_image_without_entry(rest, i);
        let cut = entries.remove(i);
        assert(cut.drop_last() =~= rest.remove(i));
        assert(cut.last() == entries.last());
        let a = image(rest.remove(i));
        let b = image(rest);
        assert(a.remove(path) == b.remove(path));
        let key = entries.last().path@;
        let data = entries.last().data@;
        let l = a.insert(key, data).remove(path);
        let r = b.insert(key, data).remove(path);
        assert forall|x: Seq<char>| #[trigger]
            l.contains_key(x) == r.contains_key(x) && (l.contains_key(x) ==> l[x] == r[x]) by {
            if x != path {
                assert(a.remove(path).contains_key(x) == a.contains_key(x));
                assert(b.remove(path).contains_key(x) == b.contains_key(x));
                if a.contains_key(x) {
                    assert(a.remove(path)[x] == a[x]);
                    assert(b.remove(path)[x] == b[x]);
                }
            }
        }
        assert(a.insert(key, data).remove(path) =~= b.insert(key, data).remove(path));
    }
}

impl View for Files {
    type V = Disk;

    closed spec fn view(&self) -> Disk {
        image(self.entries@)
    }
}

impl Files {
    /// An image that holds no file.
    pub fn new() -> (r: Files)
        ensures
            r@ == Map::<Seq<char>, Seq<u8>>::empty(),
    {
        Files { entries: Vec::new() }
    }

    fn find(&self, path: &str) -> (r: Option<usize>)
        ensures
            match r {
                Some(j) => self@.contains_key(path@) && j < self.entries@.len()
                    && self.entries@[j as int].data@ == self@[path@],
                None => !self@.contains_key(path@),
            },
    {
        let mut i: usize = self.entries.len();
        while i > 0
            invariant
                i <= self.entries@.len(),
                forall|k: int| i <= k < self.entries@.len() ==> self.entries@[k].path@ != path@,
            decreases i,
        {
            i -= 1;
            if str_eq(self.entries[i].path.as_str(), path) {
                proof {
                    lemma_image_found(self.entries@, path@, i as int);
                }
                return Some(i);
            }
        }
        proof {
            lemma_image_absent(self.entries@, path@);
        }
        None
    }

    /// Whether a file is stored under `path`.
    pub fn contains(&self, path: &str) -> (r: bool)
        ensures
            r == self@.contains_key(path@),
    {
        self.find(path).is_some()
    }

    /// What is stored under `path`, if anything.
    pub fn read(&self, path: &str) -> (r: Option<Vec<u8>>)
        ensures
            r is Some == self@.contains_key(path@),
            r matches Some(data) ==> data@ == self@[path@],
    {
        match self.find(path) {
            Some(j) => Some(slice_to_vec(self.entries[j].data.as_slice())),
            None => None,
        }
    }

    /// The text stored under `path`, if a file is there and holds text.
    pub fn read_text(&self, path: &str) -> (r: Option<String>)
        ensures
            r is Some == text_at(self@, path@) is Some,
            r matches Some(s) ==> text_at(self@, path@) == Some(s@),
    {
        match self.read(path) {
            Some(data) => {
                let text = utf8_text(data);
                proof {
                    if let Some(s) = &text {
                        encode_utf8_decode_utf8(s@);
                    }
                }
                text
            },
            None => None,
        }
    }

    /// Stores `data` under `path`, in place of what was there.
    pub fn write(&mut self, path: &str, data: Vec<u8>)
        ensures
            final(self)@ == old(self)@.insert(path@, data@),
    {
        self.remove(path);
        let ghost kept = self.entries@;
        let entry = FileEntry { path: String::from_str(path), data };
        self.entries.push(entry);
        assert(self.entries@.drop_last() =~= kept);
        assert(self@ =~= old(self)@.insert(path@, data@));
    }

    /// Removes what is stored under `path`, if anything.
    pub fn remove(&mut self, path: &str)
        ensures
            final(self)@ == old(self)@.remove(path@),
    {
        let ghost before = self@;
        let mut i: usize = self.entries.len();
        while i > 0
            invariant
                i <= self.entries@.len(),
                self@.remove(path@) == before.remove(path@),
                forall|k: int| i <= k < self.entries@.len() ==> self.entries@[k].path@ != path@,
            decreases i,
        {
            i -= 1;
            if str_eq(self.entries[i].path.as_str(), path) {
                proof {
                    lemma_image_without_entry(self.entries@, i as int);
                }
                self.entries.remove(i);
            }
        }
        proof {
            lemma_image_absent(self.entries@, path@);
            assert(self@.remove(path@) =~= self@);
        }
    }

    /// Replays one step.
    pub fn apply(&mut self, op: &FileOp)
        ensures
            final(self)@ == apply_op(old(self)@, op@),
    {
        match op {
            FileOp::CreateDirAll { path } => {},
            FileOp::WriteFile { path, data } => {
                self.write(path.as_str(), slice_to_vec(data.as_slice()));
            },
            FileOp::RemoveFile { path } => {
                self.remove(path.as_str());
            },
        }
    }

    /// Replays a list of steps in order.
    pub fn run(&mut self, ops: &Vec<FileOp>)
        ensures
            final(self)@ == apply_ops(old(self)@, ops_view(ops@)),
    {
        let ghost before = self@;
        let mut i: usize = 0;
        while i < ops.len()
            invariant
                i <= ops@.len(),
                self@ == apply_ops(before, ops_view(ops@).subrange(0, i as int)),
            decreases ops.len() - i,
        {
            self.apply(&ops[i]);
            i += 1;
            proof {
                let done = ops_view(ops@).subrange(0, i as int);
                assert(done.drop_last() =~= ops_view(ops@).subrange(0, i - 1));
                assert(done.last() == ops@[i - 1]@);
            }
        }
        assert(ops_view(ops@).subrange(0, i as int) =~= ops_view(ops@));
    }
}

} // verus!
