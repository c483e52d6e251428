//! The values that the search reads and writes: the files of a tree, the
//! entries they come from, and the commits of the history with their trees.
use vstd::prelude::*;

use crate::git::zero_oid_text;

verus! {

/// One entry of a tree, and the commit that last set its content.
#[derive(Clone, Debug)]
pub struct File {
    pub name: String,
    pub oid: String,
    pub commit: String,
    pub blob_type: String,
    pub author: String,
    pub time: i64,
    pub msg: String,
}

/// A `File` as text and numbers.
pub struct FileView {
    pub name: Seq<char>,
    pub oid: Seq<char>,
    pub commit: Seq<char>,
    pub blob_type: Seq<char>,
    pub author: Seq<char>,
    pub time: i64,
    pub msg: Seq<char>,
}

impl View for File {
    type V = FileView;

    open spec fn view(&self) -> FileView {
        FileView {
            name: self.name@,
            oid: self.oid@,
            commit: self.commit@,
            blob_type: self.blob_type@,
            author: self.author@,
            time: self.time,
            msg: self.msg@,
        }
    }
}

/// One entry of a tree as it is listed: its name, the text of its id and the
/// name of its object type.
pub struct Entry {
    pub name: String,
    pub id: String,
    pub kind: String,
}

/// What an entry of a tree holds, seen from a search one level down.
pub enum Probe {
    /// An entry that is not a tree.
    Other,
    /// A tree, by the ids of its own entries.
    Subtree(Vec<String>),
    /// An entry whose type or content could not be read.
    Unreadable,
}

/// One commit of the history, newest first, with the tree it records.
pub struct Revision {
    /// The text of the commit's id.
    pub id: String,
    /// The committer's name, where it is readable.
    pub author: Option<String>,
    /// The commit time, in seconds since the epoch.
    pub time: i64,
    /// The summary of the message, where there is a readable one.
    pub msg: Option<String>,
    /// The ids of the entries of the commit's tree.
    pub top: Vec<String>,
    /// The entries of the commit's tree, one level down.
    pub nested: Vec<Probe>,
}

/// Forty zero digits: the commit text of a file not yet attributed.
pub open spec fn zero_text() -> Seq<char> {
    Seq::new(40, |i: int| '0')
}

/// The file that an entry starts as: no commit, author, time or message yet.
pub open spec fn fresh_file(e: Entry) -> FileView {
    FileView {
        name: e.name@,
        oid: e.id@,
        commit: zero_text(),
        blob_type: e.kind@,
        author: Seq::empty(),
        time: 0,
        msg: Seq::empty(),
    }
}

/// One file per entry, in order, none attributed yet.
pub fn get_files(entries: &Vec<Entry>) -> (files: Vec<File>)
    ensures
        files@.len() == entries@.len(),
        forall|i: int| 0 <= i < entries@.len() ==> #[trigger] files@[i]@ == fresh_file(entries@[i]),
{
    let mut files: Vec<File> = Vec::new();
    for i in 0..entries.len()
        invariant
            files@.len() == i,
            forall|j: int| 0 <= j < i ==> #[trigger] files@[j]@ == fresh_file(entries@[j]),
    {
        let e = &entries[i];
        let file = File {
            name: e.name.clone(),
            oid: e.id.clone(),
            commit: zero_oid_text(),
            blob_type: e.kind.clone(),
            author: String::new(),
            time: 0,
            msg: String::new(),
        };
        files.push(file);
    }
    files
}

} // verus!
