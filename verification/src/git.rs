//! The calls into `git2` (and the one `std` call on strings that vstd leaves
//! unspecified). Each item here is trusted: Verus believes its contract.
//! Most results come from what is stored in a repository on disk, so only
//! what holds of every outcome is stated.
use vstd::prelude::*;

use crate::oid::{is_canonical_oid, spec_oid_text};

verus! {

#[verifier::external_type_specification]
#[verifier::external_body]
pub struct ExRepository(git2::Repository);

#[verifier::external_type_specification]
#[verifier::external_body]
pub struct ExGitError(git2::Error);

#[verifier::external_type_specification]
#[verifier::external_body]
pub struct ExOid(git2::Oid);

#[verifier::external_type_specification]
#[verifier::external_body]
pub struct ExRevwalk<'repo>(git2::Revwalk<'repo>);

#[verifier::external_type_specification]
#[verifier::external_body]
pub struct ExTree<'repo>(git2::Tree<'repo>);

/// `std::string::String::push`: appends one character.
#[verifier::external_body]
pub(crate) fn push_char(s: &mut String, c: char)
    ensures
        final(s)@ == old(s)@.push(c),
{
    s.push(c)
}

/// `git2::Oid::from_str`, with the parsed id given back as text (its
/// `Display`). libgit2's `git_oid_fromstrn` accepts 1 to 40 hex digits
/// of either case and fills the missing low digits with zeros; the text of an
/// id is its 40 lower-case hex digits. So the call succeeds exactly when
/// `spec_oid_text` is defined, and the text is that value.
#[verifier::external_body]
pub(crate) fn oid_parse(s: &str) -> (res: Result<String, git2::Error>)
    ensures
        res is Ok <==> spec_oid_text(s@) is Some,
        res matches Ok(text) ==> Some(text@) == spec_oid_text(s@),
{
    match git2::Oid::from_str(s) {
        Ok(oid) => Ok(format!("{}", oid)),
        Err(e) => Err(e),
    }
}

/// `git2::Oid::ZERO_SHA1`, as text: forty zero digits.
#[verifier::external_body]
pub(crate) fn zero_oid_text() -> (res: String)
    ensures
        res@ == Seq::new(40, |i: int| '0'),
{
    format!("{}", git2::Oid::ZERO_SHA1)
}

/// `git2::Repository::open`. Nothing is stated of the result: whether a
/// repository opens depends on the disk.
#[verifier::external_body]
pub(crate) fn repo_open(path: &str) -> (res: Result<git2::Repository, git2::Error>) {
    git2::Repository::open(std::path::Path::new(path))
}

/// `git2::Repository::revwalk`. Nothing is stated of the result.
#[verifier::external_body]
pub(crate) fn repo_revwalk<'a>(repo: &'a git2::Repository) -> (res: Result<git2::Revwalk<'a>, git2::Error>) {
    repo.revwalk()
}

/// `git2::Revwalk::push_head`. Nothing is stated of the result: it depends
/// on the repository's HEAD.
#[verifier::external_body]
pub(crate) fn revwalk_push_head(walk: &mut git2::Revwalk<'_>) -> (res: Result<(), git2::Error>) {
    walk.push_head()
}

/// `git2::Revwalk`'s `Iterator::next`, driven to the end by `collect`: the
/// ids of the walk, newest first, each as its text (40 lower-case hex
/// digits), or the first error the walk meets. Which ids they are is read
/// from the repository and not stated. The walk is not bounded by anything
/// Verus can see, so no verified loop drives it.
#[verifier::external_body]
pub(crate) fn revwalk_ids(walk: &mut git2::Revwalk<'_>) -> (res: Result<Vec<String>, git2::Error>)
    ensures
        res matches Ok(ids) ==> forall|i: int| 0 <= i < ids@.len() ==> is_canonical_oid(#[trigger] ids@[i]@),
{
    walk.by_ref().map(|step| step.map(|oid| format!("{}", oid))).collect()
}

/// A commit as plain values: the text of its id and of its tree's id, the
/// committer's name where it is UTF-8, the commit time in seconds, and the
/// summary where there is one and it is UTF-8.
pub struct CommitInfo {
    pub id: String,
    pub tree_id: String,
    pub author: Option<String>,
    pub time: i64,
    pub summary: Option<String>,
}

/// `git2::Repository::find_commit`, for the id given by its text (read with
/// `git2::Oid::from_str`), the commit handed out as its plain values
/// (`Commit::id`, `Commit::tree_id`, `Commit::committer` with
/// `Signature::name` and `Signature::when`/`Time::seconds`,
/// `Commit::summary`). libgit2's `git_commit_lookup` finds the commit with
/// exactly that id, so the id handed out is the canonical text of the one
/// asked for. Everything else is read from the repository and not stated.
#[verifier::external_body]
pub(crate) fn repo_find_commit(repo: &git2::Repository, id: &String) -> (res: Result<CommitInfo, git2::Error>)
    ensures
        res matches Ok(c) ==> Some(c.id@) == spec_oid_text(id@),
        res matches Ok(c) ==> is_canonical_oid(c.tree_id@),
{
    let commit = repo.find_commit(git2::Oid::from_str(id.as_str())?)?;
    let committer = commit.committer();
    Ok(CommitInfo {
        id: format!("{}", commit.id()),
        tree_id: format!("{}", commit.tree_id()),
        author: committer.name().ok().map(|name| name.to_string()),
        time: committer.when().seconds(),
        summary: commit.summary().ok().flatten().map(|s| s.to_string()),
    })
}

/// The id of a tree, as its text (`git2::Tree::id`): a second name for the
/// collection that `tree_contents` names.
pub uninterp spec fn tree_id(tree: git2::Tree) -> Seq<char>;

/// `git2::Repository::find_tree`, for the id given by its text (read with
/// `git2::Oid::from_str`; an id that does not parse is that call's error).
/// libgit2's `git_tree_lookup` finds the tree with exactly that id; which
/// entries it holds is read from the repository and not stated.
#[verifier::external_body]
pub(crate) fn repo_find_tree<'a>(repo: &'a git2::Repository, id: &String) -> (res: Result<git2::Tree<'a>, git2::Error>)
    ensures
        res matches Ok(t) ==> Some(tree_id(t)) == spec_oid_text(id@),
{
    match git2::Oid::from_str(id.as_str()) {
        Ok(oid) => repo.find_tree(oid),
        Err(e) => Err(e),
    }
}

/// One entry of a tree: the text of its id, its name where that is UTF-8,
/// and the name of its object type where `git2` knows it.
pub struct TreeItem {
    pub id: String,
    pub name: Option<String>,
    pub kind: Option<String>,
}

/// The text of an optional string.
pub open spec fn opt_text(s: Option<String>) -> Option<Seq<char>> {
    match s {
        Some(t) => Some(t@),
        None => None,
    }
}

/// A tree item as plain values: id text, name, type name.
pub open spec fn item_text(item: TreeItem) -> (Seq<char>, Option<Seq<char>>, Option<Seq<char>>) {
    (item.id@, opt_text(item.name), opt_text(item.kind))
}

/// What a tree holds, entry by entry in its order: the text of the entry's
/// id, its name where that is UTF-8, and the name of its object type where
/// `git2` knows it.
pub uninterp spec fn tree_contents(tree: git2::Tree) -> Seq<(Seq<char>, Option<Seq<char>>, Option<Seq<char>>)>;

/// `git2::Tree::iter`, collected: the entries of the tree in their order,
/// each handed out with its plain values (`TreeEntry::id` as 40 lower-case
/// hex digits; `TreeEntry::name`, `None` where it is not UTF-8;
/// `TreeEntry::kind` by its `ObjectType::str` name, `None` where libgit2
/// reports a type that `git2` does not know). These are what
/// `tree_contents` names; which entries a tree holds is read from the
/// repository and not stated.
#[verifier::external_body]
pub(crate) fn tree_items(tree: &git2::Tree<'_>) -> (res: Vec<TreeItem>)
    ensures
        res@.len() == tree_contents(*tree).len(),
        forall|i: int| 0 <= i < res@.len() ==> #[trigger] item_text(res@[i]) == tree_contents(*tree)[i],
        forall|i: int| 0 <= i < res@.len() ==> is_canonical_oid(#[trigger] res@[i].id@),
        forall|i: int| 0 <= i < res@.len() ==> (#[trigger] res@[i].kind matches Some(k) ==> is_object_type_name(k@)),
{
    tree.iter().map(|entry| TreeItem {
        id: format!("{}", entry.id()),
        name: match entry.name() {
            Ok(name) => Some(name.to_string()),
            Err(_) => None,
        },
        kind: match entry.kind() {
            Some(kind) => Some(kind.str().to_string()),
            None => None,
        },
    }).collect()
}

/// The names that `git2::ObjectType::str` gives.
pub open spec fn is_object_type_name(s: Seq<char>) -> bool {
    ||| s == Seq::<char>::empty()
    ||| s == seq!['c', 'o', 'm', 'm', 'i', 't']
    ||| s == tree_kind_name()
    ||| s == seq!['b', 'l', 'o', 'b']
    ||| s == seq!['t', 'a', 'g']
}

/// The name of the tree object type.
pub open spec fn tree_kind_name() -> Seq<char> {
    seq!['t', 'r', 'e', 'e']
}

} // verus!
