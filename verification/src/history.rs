//! Reading a repository into the values the search works on, and the entry
//! point that lists a tree with the commit that last set each entry.
use vstd::prelude::*;

use crate::git::{
    is_object_type_name, item_text, opt_text, repo_find_commit, repo_find_tree, repo_open,
    repo_revwalk, revwalk_ids, revwalk_push_head, tree_contents, tree_id, tree_items,
    tree_kind_name, CommitInfo,
};
use crate::model::{fresh_file, get_files, zero_text, Entry, File, FileView, Probe, Revision};
use crate::oid::{
    clean_tree, invalid_tree_message, is_canonical_oid, lemma_canonical_oid_reads_back, lemma_oid_text_canonical,
    spec_oid_text,
};
use crate::search::{
    add_commit, attribution, holds, law_attributed_to_introducing_commit, presence, same_entry, settle,
};
use crate::text::listing_path;

verus! {

/// Why a listing could not be made.
#[derive(Debug)]
pub enum InfoError {
    /// `git2` reported an error.
    Git(git2::Error),
    /// The repository's content could not be read as expected (a commit or
    /// tree missing, a name that is not UTF-8, an empty history), or the
    /// search could not finish.
    Broken,
}

/// The message given when the repository cannot be read.
pub open spec fn internal_error_message() -> Seq<char> {
    "Internal Error"@
}

/// Opens the repository at `path`.
fn open_repo(path: String) -> (res: Result<git2::Repository, git2::Error>) {
    repo_open(path.as_str())
}

/// The commit of each id, in order; `None` when one cannot be found.
fn get_commits(ids: &Vec<String>, repo: &git2::Repository) -> (res: Option<Vec<CommitInfo>>)
    ensures
        res matches Some(commits) ==> commits@.len() == ids@.len(),
        res matches Some(commits) ==> forall|i: int| 0 <= i < ids@.len() ==>
            Some((#[trigger] commits@[i]).id@) == spec_oid_text(ids@[i]@) && is_canonical_oid(commits@[i].tree_id@),
        ids@.len() == 0 ==> res is Some,
{
    let mut commits: Vec<CommitInfo> = Vec::new();
    for i in 0..ids.len()
        invariant
            commits@.len() == i,
            forall|j: int| 0 <= j < i ==>
                Some((#[trigger] commits@[j]).id@) == spec_oid_text(ids@[j]@) && is_canonical_oid(commits@[j].tree_id@),
    {
        match repo_find_commit(repo, &ids[i]) {
            Ok(c) => commits.push(c),
            Err(_) => return None,
        }
    }
    Some(commits)
}

/// The tree of each commit, in order; `None` when one cannot be read.
fn get_trees<'a>(commits: &Vec<CommitInfo>, repo: &'a git2::Repository) -> (res: Option<Vec<git2::Tree<'a>>>)
    ensures
        res matches Some(trees) ==> trees@.len() == commits@.len(),
        res matches Some(trees) ==> forall|i: int| 0 <= i < commits@.len() ==>
            Some(tree_id(#[trigger] trees@[i])) == spec_oid_text(commits@[i].tree_id@),
        commits@.len() == 0 ==> res is Some,
{
    let mut trees: Vec<git2::Tree<'a>> = Vec::new();
    for i in 0..commits.len()
        invariant
            trees@.len() == i,
            forall|j: int| 0 <= j < i ==> Some(tree_id(#[trigger] trees@[j])) == spec_oid_text(commits@[j].tree_id@),
    {
        match repo_find_tree(repo, &commits[i].tree_id) {
            Ok(t) => trees.push(t),
            Err(_) => return None,
        }
    }
    Some(trees)
}

/// The tree that a tree entry with id text `id` points to; `None` when it
/// cannot be read as one.
fn treeify<'a>(repo: &'a git2::Repository, id: &String) -> (res: Option<git2::Tree<'a>>)
    ensures
        res matches Some(t) ==> Some(tree_id(t)) == spec_oid_text(id@),
{
    match repo_find_tree(repo, id) {
        Ok(tree) => Some(tree),
        Err(_) => None,
    }
}

/// The ids of the entries of a tree, in order.
fn entry_ids(tree: &git2::Tree<'_>) -> (ids: Vec<String>)
    ensures
        ids@.len() == tree_contents(*tree).len(),
        forall|i: int| 0 <= i < ids@.len() ==> #[trigger] ids@[i]@ == tree_contents(*tree)[i].0,
        forall|i: int| 0 <= i < ids@.len() ==> is_canonical_oid(#[trigger] ids@[i]@),
{
    let items = tree_items(tree);
    let mut ids: Vec<String> = Vec::new();
    for i in 0..items.len()
        invariant
            ids@.len() == i,
            items@.len() == tree_contents(*tree).len(),
            forall|j: int| 0 <= j < items@.len() ==> #[trigger] item_text(items@[j]) == tree_contents(*tree)[j],
            forall|j: int| 0 <= j < items@.len() ==> is_canonical_oid(#[trigger] items@[j].id@),
            forall|j: int| 0 <= j < i ==> #[trigger] ids@[j]@ == tree_contents(*tree)[j].0,
            forall|j: int| 0 <= j < i ==> is_canonical_oid(#[trigger] ids@[j]@),
    {
        assert(item_text(items@[i as int]) == tree_contents(*tree)[i as int]);
        ids.push(items[i].id.clone());
    }
    ids
}

/// `ids` are the ids of the entries of the tree `t`, in order.
pub open spec fn lists_ids_of(ids: Seq<String>, t: git2::Tree) -> bool {
    &&& ids.len() == tree_contents(t).len()
    &&& forall|j: int| 0 <= j < ids.len() ==> #[trigger] ids[j]@ == tree_contents(t)[j].0
}

/// `ids` are the entry ids of the tree whose id the entry text `entry_id`
/// names.
pub open spec fn subtree_of(ids: Seq<String>, entry_id: Seq<char>) -> bool {
    exists|t: git2::Tree| Some(tree_id(t)) == spec_oid_text(entry_id) && #[trigger] lists_ids_of(ids, t)
}

/// What a search one level down sees of an entry `c` of a tree: an entry of
/// unknown type is unreadable; a tree is read as the subtree with the
/// entry's id, or is unreadable when it cannot be read; anything else is
/// passed over.
pub open spec fn probe_of(p: Probe, c: (Seq<char>, Option<Seq<char>>, Option<Seq<char>>)) -> bool {
    match c.2 {
        None => p is Unreadable,
        Some(k) => if k == tree_kind_name() {
            match p {
                Probe::Unreadable => true,
                Probe::Subtree(ids) => subtree_of(ids@, c.0),
                Probe::Other => false,
            }
        } else {
            p is Other
        },
    }
}

/// The entries of a tree one level down, one probe per entry.
fn nested_probes(tree: &git2::Tree<'_>, repo: &git2::Repository) -> (probes: Vec<Probe>)
    ensures
        probes@.len() == tree_contents(*tree).len(),
        forall|i: int| 0 <= i < probes@.len() ==> probe_of(#[trigger] probes@[i], tree_contents(*tree)[i]),
{
    let items = tree_items(tree);
    let tree_name = String::from_str("tree");
    proof {
        reveal_strlit("tree");
        assert(tree_name@ =~= tree_kind_name());
    }
    let mut probes: Vec<Probe> = Vec::new();
    for i in 0..items.len()
        invariant
            probes@.len() == i,
            tree_name@ == tree_kind_name(),
            items@.len() == tree_contents(*tree).len(),
            forall|j: int| 0 <= j < items@.len() ==> #[trigger] item_text(items@[j]) == tree_contents(*tree)[j],
            forall|j: int| 0 <= j < i ==> probe_of(#[trigger] probes@[j], tree_contents(*tree)[j]),
    {
        let item = &items[i];
        assert(item_text(items@[i as int]) == tree_contents(*tree)[i as int]);
        let probe = match &item.kind {
            None => Probe::Unreadable,
            Some(kind) => if *kind == tree_name {
                match treeify(repo, &item.id) {
                    Some(sub) => {
                        let ids = entry_ids(&sub);
                        assert(lists_ids_of(ids@, sub));
                        Probe::Subtree(ids)
                    },
                    None => Probe::Unreadable,
                }
            } else {
                Probe::Other
            },
        };
        probes.push(probe);
    }
    probes
}

/// `r` is commit `c` with its tree `t` as the search sees them; the look one
/// level down is read only when `deep` is set.
pub open spec fn revision_of(r: Revision, c: CommitInfo, t: git2::Tree, deep: bool) -> bool {
    &&& r.id@ == c.id@
    &&& opt_text(r.author) == opt_text(c.author)
    &&& r.time == c.time
    &&& opt_text(r.msg) == opt_text(c.summary)
    &&& lists_ids_of(r.top@, t)
    &&& deep ==> r.nested@.len() == tree_contents(t).len()
    &&& deep ==> forall|i: int| 0 <= i < r.nested@.len() ==> probe_of(#[trigger] r.nested@[i], tree_contents(t)[i])
    &&& !deep ==> r.nested@.len() == 0
}

/// A copy of an optional string.
fn copy_text(s: &Option<String>) -> (res: Option<String>)
    ensures
        opt_text(res) == opt_text(*s),
{
    match s {
        Some(t) => Some(t.clone()),
        None => None,
    }
}

/// One commit and its tree as the search sees them.
fn read_revision(commit: &CommitInfo, tree: &git2::Tree<'_>, deep: bool, repo: &git2::Repository) -> (r: Revision)
    ensures
        revision_of(r, *commit, *tree, deep),
{
    Revision {
        id: commit.id.clone(),
        author: copy_text(&commit.author),
        time: commit.time,
        msg: copy_text(&commit.summary),
        top: entry_ids(tree),
        nested: if deep {
            nested_probes(tree, repo)
        } else {
            Vec::new()
        },
    }
}

/// The history as the search sees it, one revision per commit, in order.
fn read_history(
    commits: &Vec<CommitInfo>,
    trees: &Vec<git2::Tree<'_>>,
    deep: bool,
    repo: &git2::Repository,
) -> (history: Vec<Revision>)
    requires
        trees@.len() == commits@.len(),
    ensures
        history@.len() == commits@.len(),
        forall|i: int| 0 <= i < commits@.len() ==> revision_of(#[trigger] history@[i], commits@[i], trees@[i], deep),
{
    let mut history: Vec<Revision> = Vec::new();
    for i in 0..commits.len()
        invariant
            trees@.len() == commits@.len(),
            history@.len() == i,
            forall|j: int| 0 <= j < i ==> revision_of(#[trigger] history@[j], commits@[j], trees@[j], deep),
    {
        history.push(read_revision(&commits[i], &trees[i], deep, repo));
    }
    history
}

/// Every entry of a tree has a readable name and a known type.
pub open spec fn all_readable(contents: Seq<(Seq<char>, Option<Seq<char>>, Option<Seq<char>>)>) -> bool {
    forall|i: int| 0 <= i < contents.len() ==> (#[trigger] contents[i]).1 is Some && contents[i].2 is Some
}

/// The entries of a tree, in order; `None` when a name is not UTF-8 or a
/// type is unknown.
fn read_entries(tree: &git2::Tree<'_>) -> (res: Option<Vec<Entry>>)
    ensures
        res is Some <==> all_readable(tree_contents(*tree)),
        res matches Some(entries) ==> {
            &&& entries@.len() == tree_contents(*tree).len()
            &&& forall|i: int| 0 <= i < entries@.len() ==> {
                &&& (#[trigger] entries@[i]).id@ == tree_contents(*tree)[i].0
                &&& Some(entries@[i].name@) == tree_contents(*tree)[i].1
                &&& Some(entries@[i].kind@) == tree_contents(*tree)[i].2
            }
        },
        res matches Some(entries) ==> forall|i: int| 0 <= i < entries@.len() ==> {
            &&& is_canonical_oid(#[trigger] entries@[i].id@)
            &&& is_object_type_name(entries@[i].kind@)
        },
{
    let items = tree_items(tree);
    let mut entries: Vec<Entry> = Vec::new();
    for i in 0..items.len()
        invariant
            entries@.len() == i,
            items@.len() == tree_contents(*tree).len(),
            forall|j: int| 0 <= j < items@.len() ==> #[trigger] item_text(items@[j]) == tree_contents(*tree)[j],
            forall|j: int| 0 <= j < items@.len() ==> is_canonical_oid(#[trigger] items@[j].id@),
            forall|j: int| 0 <= j < items@.len() ==> (#[trigger] items@[j].kind matches Some(k) ==> is_object_type_name(k@)),
            forall|j: int| 0 <= j < i ==> (#[trigger] tree_contents(*tree)[j]).1 is Some && tree_contents(*tree)[j].2 is Some,
            forall|j: int| 0 <= j < i ==> {
                &&& (#[trigger] entries@[j]).id@ == tree_contents(*tree)[j].0
                &&& Some(entries@[j].name@) == tree_contents(*tree)[j].1
                &&& Some(entries@[j].kind@) == tree_contents(*tree)[j].2
                &&& is_canonical_oid(entries@[j].id@)
                &&& is_object_type_name(entries@[j].kind@)
            },
    {
        let item = &items[i];
        assert(item_text(items@[i as int]) == tree_contents(*tree)[i as int]);
        let name = match &item.name {
            Some(name) => name.clone(),
            None => return None,
        };
        let kind = match &item.kind {
            Some(kind) => kind.clone(),
            None => return None,
        };
        entries.push(Entry { name, id: item.id.clone(), kind });
    }
    Some(entries)
}

/// The file that an entry of a tree (as `tree_contents` gives it) starts
/// as: no commit, author, time or message yet.
pub open spec fn fresh_of(c: (Seq<char>, Option<Seq<char>>, Option<Seq<char>>)) -> FileView {
    FileView {
        name: c.1.unwrap(),
        oid: c.0,
        commit: zero_text(),
        blob_type: c.2.unwrap(),
        author: Seq::empty(),
        time: 0,
        msg: Seq::empty(),
    }
}

/// The views of a sequence of files.
pub open spec fn file_views(files: Seq<File>) -> Seq<FileView> {
    files.map_values(|f: File| f@)
}

/// The views of a sequence of boxed files.
pub open spec fn boxed_views(files: Seq<Box<File>>) -> Seq<FileView> {
    files.map_values(|f: Box<File>| (*f)@)
}

/// `files` are the entries `contents` of a tree, in order, each settled by
/// the search over the history `h`.
pub open spec fn is_listing(
    files: Seq<FileView>,
    contents: Seq<(Seq<char>, Option<Seq<char>>, Option<Seq<char>>)>,
    h: Seq<Revision>,
    deep: bool,
) -> bool {
    &&& files.len() == contents.len()
    &&& all_readable(contents)
    &&& forall|i: int| 0 <= i < contents.len() ==> is_canonical_oid(#[trigger] contents[i].0)
    &&& forall|i: int| 0 <= i < files.len() ==>
        Some(#[trigger] files[i]) == settle(fresh_of(contents[i]), attribution(contents[i].0, h, deep), h)
}

/// `commits` are the commits with the ids `ids`, in order.
pub open spec fn commits_of(commits: Seq<CommitInfo>, ids: Seq<String>) -> bool {
    &&& commits.len() == ids.len()
    &&& forall|i: int| 0 <= i < ids.len() ==> Some((#[trigger] commits[i]).id@) == spec_oid_text(ids[i]@)
}

/// `files` list the tree `t`, settled by the history `h` read from the
/// commits `commits` with the ids `ids` and from their trees `trees`: `t`
/// is the tree with the id that `tree` names, or without one the tree of
/// the first (newest) commit.
pub open spec fn listing_from(
    files: Seq<FileView>,
    ids: Seq<String>,
    tree: Option<Seq<char>>,
    t: git2::Tree,
    commits: Seq<CommitInfo>,
    trees: Seq<git2::Tree>,
    h: Seq<Revision>,
) -> bool {
    &&& match tree {
        Some(id) => Some(tree_id(t)) == spec_oid_text(id),
        None => commits.len() >= 1 && Some(tree_id(t)) == spec_oid_text(commits[0].tree_id@),
    }
    &&& commits_of(commits, ids)
    &&& trees.len() == commits.len()
    &&& h.len() == commits.len()
    &&& forall|i: int| 0 <= i < commits.len() ==> Some(tree_id(#[trigger] trees[i])) == spec_oid_text(commits[i].tree_id@)
    &&& forall|i: int| 0 <= i < commits.len() ==> revision_of(#[trigger] h[i], commits[i], trees[i], tree is Some)
    &&& is_listing(files, tree_contents(t), h, tree is Some)
}

/// `files` are the listing of `tree` over the commits with the ids `ids`,
/// as `listing_from` ties them.
pub open spec fn walk_listing(files: Seq<FileView>, ids: Seq<String>, tree: Option<Seq<char>>) -> bool {
    exists|t: git2::Tree, commits: Seq<CommitInfo>, trees: Seq<git2::Tree>, h: Seq<Revision>|
        #[trigger] listing_from(files, ids, tree, t, commits, trees, h)
}

/// `files` are the listing of `tree` over the ids of some walk of the
/// history.
pub open spec fn serves(files: Seq<FileView>, tree: Option<Seq<char>>) -> bool {
    exists|ids: Seq<String>| #[trigger] walk_listing(files, ids, tree)
}

/// Lists the tree `parent_tree` (the text of its id; without one, the tree
/// of the newest commit) and attributes each entry to the commit that last
/// set it: by a search through the history of the commits `ids`, newest
/// first, at top level for the newest commit's tree and one level down for
/// a tree given by id.
pub fn list_walk(ids: &Vec<String>, parent_tree: Option<String>, repo: &git2::Repository) -> (res: Result<Vec<File>, InfoError>)
    ensures
        parent_tree is None && ids@.len() == 0 ==> res matches Err(InfoError::Broken),
        res matches Ok(files) ==> forall|i: int| 0 <= i < files@.len() ==> is_canonical_oid(#[trigger] files@[i].oid@),
        res matches Ok(files) ==> walk_listing(file_views(files@), ids@, opt_text(parent_tree)),
{
    let commits = match get_commits(ids, repo) {
        Some(commits) => commits,
        None => return Err(InfoError::Broken),
    };
    let trees = match get_trees(&commits, repo) {
        Some(trees) => trees,
        None => return Err(InfoError::Broken),
    };
    let file_tree = match &parent_tree {
        Some(tree) => match repo_find_tree(repo, tree) {
            Ok(t) => t,
            Err(e) => return Err(InfoError::Git(e)),
        },
        None => {
            if commits.len() == 0 {
                return Err(InfoError::Broken);
            }
            match repo_find_tree(repo, &commits[0].tree_id) {
                Ok(t) => t,
                Err(e) => return Err(InfoError::Git(e)),
            }
        },
    };
    let entries = match read_entries(&file_tree) {
        Some(entries) => entries,
        None => return Err(InfoError::Broken),
    };
    let mut files = get_files(&entries);
    let deep = parent_tree.is_some();
    let history = read_history(&commits, &trees, deep, repo);
    let ghost fresh = files@;
    match add_commit(&mut files, &history, deep) {
        Ok(()) => {
            let ghost contents = tree_contents(file_tree);
            assert forall|i: int| 0 <= i < files@.len() implies {
                &&& is_canonical_oid(#[trigger] files@[i].oid@)
                &&& Some(file_views(files@)[i]) == settle(fresh_of(contents[i]), attribution(contents[i].0, history@, deep), history@)
            } by {
                assert(same_entry(files@[i]@, fresh[i]@));
                assert(fresh[i]@ == fresh_file(entries@[i]));
            }
            assert forall|i: int| 0 <= i < contents.len() implies is_canonical_oid(#[trigger] contents[i].0) by {
                assert(entries@[i].id@ == contents[i].0);
            }
            assert(listing_from(file_views(files@), ids@, opt_text(parent_tree), file_tree, commits@, trees@, history@));
            Ok(files)
        },
        Err(_) => Err(InfoError::Broken),
    }
}

/// Lists the tree `parent_tree` (the text of its id; without one, the tree
/// of the newest commit) over the history that a walk from the head gives.
fn get_info(parent_tree: Option<String>, repo: git2::Repository) -> (res: Result<Vec<File>, InfoError>)
    ensures
        res matches Ok(files) ==> forall|i: int| 0 <= i < files@.len() ==> is_canonical_oid(#[trigger] files@[i].oid@),
        res matches Ok(files) ==> serves(file_views(files@), opt_text(parent_tree)),
{
    let mut walk = match repo_revwalk(&repo) {
        Ok(walk) => walk,
        Err(e) => return Err(InfoError::Git(e)),
    };
    match revwalk_push_head(&mut walk) {
        Ok(()) => {},
        Err(e) => return Err(InfoError::Git(e)),
    }
    let ids = match revwalk_ids(&mut walk) {
        Ok(ids) => ids,
        Err(e) => return Err(InfoError::Git(e)),
    };
    let res = list_walk(&ids, parent_tree, &repo);
    assert(res matches Ok(files) ==> walk_listing(file_views(files@), ids@, opt_text(parent_tree)));
    res
}

/// Whether the tree `t` has an entry with the id text `id`.
pub open spec fn in_tree(t: git2::Tree, id: Seq<char>) -> bool {
    exists|m: int| 0 <= m < tree_contents(t).len() && #[trigger] tree_contents(t)[m].0 == id
}

/// A listing, of the newest tree or of a tree given by id, gives each entry
/// the commit that brought its content as the search sees it: when the
/// entry is found in the newest `k + 1` commits of the walk and in none older
/// (at top level, or one level down for a tree given by id), the entry
/// carries the id, committer name, commit time and summary of commit `k`,
/// and keeps its own name, id and type.
pub proof fn law_listing_stamps_found_commit(
    files: Seq<FileView>,
    ids: Seq<String>,
    tree: Option<Seq<char>>,
    t: git2::Tree,
    commits: Seq<CommitInfo>,
    trees: Seq<git2::Tree>,
    h: Seq<Revision>,
    i: int,
    k: int,
)
    requires
        listing_from(files, ids, tree, t, commits, trees, h),
        0 <= i < files.len(),
        0 <= k < commits.len(),
        forall|j: int| 0 <= j < h.len() ==> #[trigger] presence(h, tree_contents(t)[i].0, tree is Some)[j] == Some(j <= k),
    ensures
        files[i].commit == commits[k].id@,
        Some(files[i].author) == opt_text(commits[k].author),
        files[i].time == commits[k].time,
        Some(files[i].msg) == opt_text(commits[k].summary),
        files[i].oid == tree_contents(t)[i].0,
        Some(files[i].name) == tree_contents(t)[i].1,
        Some(files[i].blob_type) == tree_contents(t)[i].2,
{
    let oid = tree_contents(t)[i].0;
    lemma_canonical_oid_reads_back(oid);
    law_attributed_to_introducing_commit(h, oid, tree is Some, k);
    assert(revision_of(h[k], commits[k], trees[k], tree is Some));
}

/// The listing of the newest commit's tree gives each entry the commit that
/// brought its content: when the entry's id is in the trees of the newest
/// `k + 1` commits of the walk and in none older, the entry carries the id,
/// committer name, commit time and summary of commit `k`, and keeps its own
/// name, id and type.
pub proof fn law_listing_names_introducing_commit(
    files: Seq<FileView>,
    ids: Seq<String>,
    t: git2::Tree,
    commits: Seq<CommitInfo>,
    trees: Seq<git2::Tree>,
    h: Seq<Revision>,
    i: int,
    k: int,
)
    requires
        listing_from(files, ids, None, t, commits, trees, h),
        0 <= i < files.len(),
        0 <= k < commits.len(),
        forall|j: int| 0 <= j < commits.len() ==> (in_tree(#[trigger] trees[j], tree_contents(t)[i].0) <==> j <= k),
    ensures
        files[i].commit == commits[k].id@,
        Some(files[i].author) == opt_text(commits[k].author),
        files[i].time == commits[k].time,
        Some(files[i].msg) == opt_text(commits[k].summary),
        files[i].oid == tree_contents(t)[i].0,
        Some(files[i].name) == tree_contents(t)[i].1,
        Some(files[i].blob_type) == tree_contents(t)[i].2,
{
    let oid = tree_contents(t)[i].0;
    lemma_canonical_oid_reads_back(oid);
    assert forall|j: int| 0 <= j < h.len() implies #[trigger] presence(h, oid, false)[j] == Some(j <= k) by {
        assert(revision_of(h[j], commits[j], trees[j], false));
        if holds(h[j].top@, oid) {
            let m = choose|m: int| 0 <= m < h[j].top@.len() && #[trigger] h[j].top@[m]@ == oid;
            assert(tree_contents(trees[j])[m].0 == oid);
        }
        if in_tree(trees[j], oid) {
            let m = choose|m: int| 0 <= m < tree_contents(trees[j]).len() && #[trigger] tree_contents(trees[j])[m].0 == oid;
            assert(h[j].top@[m]@ == oid);
        }
    }
    law_listing_stamps_found_commit(files, ids, None, t, commits, trees, h, i, k);
}

/// Over a history of one commit, every listed entry carries that commit's
/// id, committer name, commit time and summary.
pub proof fn law_single_commit_listing(
    files: Seq<FileView>,
    ids: Seq<String>,
    tree: Option<Seq<char>>,
    t: git2::Tree,
    commits: Seq<CommitInfo>,
    trees: Seq<git2::Tree>,
    h: Seq<Revision>,
    i: int,
)
    requires
        listing_from(files, ids, tree, t, commits, trees, h),
        commits.len() == 1,
        0 <= i < files.len(),
    ensures
        files[i].commit == commits[0].id@,
        Some(files[i].author) == opt_text(commits[0].author),
        files[i].time == commits[0].time,
        Some(files[i].msg) == opt_text(commits[0].summary),
{
    assert(revision_of(h[0], commits[0], trees[0], tree is Some));
}

/// Each file in a box of its own, in order.
fn box_files(files: Vec<File>) -> (boxed: Vec<Box<File>>)
    ensures
        boxed@.len() == files@.len(),
        forall|i: int| 0 <= i < files@.len() ==> *(#[trigger] boxed@[i]) == files@[i],
{
    let mut boxed: Vec<Box<File>> = Vec::new();
    let mut rest = files;
    let ghost all = rest@;
    while rest.len() > 0
        invariant
            boxed@.len() + rest@.len() == all.len(),
            rest@ == all.skip(boxed@.len() as int),
            forall|i: int| 0 <= i < boxed@.len() ==> *(#[trigger] boxed@[i]) == all[i],
        decreases rest@.len(),
    {
        let f = rest.remove(0);
        assert(rest@ =~= all.skip(boxed@.len() + 1int));
        boxed.push(Box::new(f));
    }
    boxed
}

/// Lists the tree `tree` (a hex object id; without one, the tree of the
/// newest commit) of the opened repository `repo`, each entry with the
/// commit that last set its content. An invalid tree id is answered with
/// "Tree ID not valid oid"; a repository that cannot be read with
/// "Internal Error".
pub fn go_in(repo: git2::Repository, tree: Option<String>) -> (res: Result<Box<Vec<Box<File>>>, String>)
    ensures
        tree matches Some(t) && spec_oid_text(t@) is None ==> (res matches Err(msg) && msg@ == invalid_tree_message()),
        res matches Err(msg) ==> msg@ == invalid_tree_message() || msg@ == internal_error_message(),
        (res matches Err(msg) && msg@ == invalid_tree_message()) ==> (tree matches Some(t) && spec_oid_text(t@) is None),
        res matches Ok(files) ==> forall|i: int| 0 <= i < files@.len() ==> is_canonical_oid(#[trigger] files@[i].oid@),
        res matches Ok(files) ==> serves(boxed_views(files@), opt_text(tree)),
{
    proof {
        reveal_strlit("Internal Error");
        reveal_strlit("Tree ID not valid oid");
        assert(internal_error_message().len() != invalid_tree_message().len());
    }
    let ghost given = opt_text(tree);
    let tree_id_text = match clean_tree(tree) {
        Ok(id) => id,
        Err(msg) => return Err(msg),
    };
    match get_info(tree_id_text, repo) {
        Ok(files) => {
            let boxed = box_files(files);
            assert forall|i: int| 0 <= i < boxed@.len() implies is_canonical_oid(#[trigger] boxed@[i].oid@) by {
                assert(*boxed@[i] == files@[i]);
            }
            proof {
                let ids = choose|ids: Seq<String>| #[trigger] walk_listing(file_views(files@), ids, opt_text(tree_id_text));
                let (t, commits, trees, h) = choose|t: git2::Tree, commits: Seq<CommitInfo>, trees: Seq<git2::Tree>, h: Seq<Revision>|
                    #[trigger] listing_from(file_views(files@), ids, opt_text(tree_id_text), t, commits, trees, h);
                assert(boxed_views(boxed@) =~= file_views(files@));
                if let Some(id) = given {
                    lemma_oid_text_canonical(id);
                }
                assert(listing_from(boxed_views(boxed@), ids, given, t, commits, trees, h));
                assert(walk_listing(boxed_views(boxed@), ids, given));
            }
            Ok(Box::new(boxed))
        },
        Err(_) => Err(String::from_str("Internal Error")),
    }
}

/// Lists the tree `tree` (a hex object id; without one, the tree of the
/// newest commit) of the repository at `path`, each entry with the commit
/// that last set its content. An invalid tree id is answered with
/// "Tree ID not valid oid"; a repository that cannot be opened or read with
/// "Internal Error". Every listed file carries the 40-digit text of its id.
pub fn go(path: String, tree: Option<String>) -> (res: Result<Box<Vec<Box<File>>>, String>)
    ensures
        res matches Err(msg) ==> msg@ == invalid_tree_message() || msg@ == internal_error_message(),
        tree matches Some(t) && spec_oid_text(t@) is None ==> res is Err,
        (res matches Err(msg) && msg@ == invalid_tree_message()) ==> (tree matches Some(t) && spec_oid_text(t@) is None),
        res matches Ok(files) ==> forall|i: int| 0 <= i < files@.len() ==> is_canonical_oid(#[trigger] files@[i].oid@),
        res matches Ok(files) ==> serves(boxed_views(files@), opt_text(tree)),
{
    proof {
        reveal_strlit("Internal Error");
        reveal_strlit("Tree ID not valid oid");
        assert(internal_error_message().len() != invalid_tree_message().len());
    }
    let repo = match open_repo(path) {
        Ok(repo) => repo,
        Err(_) => return Err(String::from_str("Internal Error")),
    };
    go_in(repo, tree)
}

/// The id of the newest commit of a walk: its first id.
pub fn newest_id(ids: &Vec<String>) -> (res: Option<String>)
    ensures
        ids@.len() == 0 <==> res is None,
        res matches Some(id) ==> id@ == ids@[0]@,
{
    if ids.len() == 0 {
        None
    } else {
        Some(ids[0].clone())
    }
}

/// The entries of the tree of the newest commit of the walk `ids` (its
/// first id), none attributed; `None` when the walk is empty or the commit,
/// its tree or an entry cannot be read.
pub fn newest_files(ids: &Vec<String>, repo: &git2::Repository) -> (res: Option<Vec<Box<File>>>)
    ensures
        ids@.len() == 0 ==> res is None,
        res matches Some(files) ==> forall|i: int| 0 <= i < files@.len() ==> {
            &&& is_canonical_oid((#[trigger] files@[i]).oid@)
            &&& files@[i].commit@ == zero_text()
        },
        res matches Some(files) ==> lists_newest(boxed_views(files@), ids@),
{
    let newest = match newest_id(ids) {
        Some(id) => id,
        None => return None,
    };
    let master = match repo_find_commit(repo, &newest) {
        Ok(c) => c,
        Err(_) => return None,
    };
    let master_tree = match repo_find_tree(repo, &master.tree_id) {
        Ok(t) => t,
        Err(_) => return None,
    };
    let entries = match read_entries(&master_tree) {
        Some(entries) => entries,
        None => return None,
    };
    let files = get_files(&entries);
    let boxed = box_files(files);
    proof {
        let contents = tree_contents(master_tree);
        assert forall|i: int| 0 <= i < boxed@.len() implies {
            &&& boxed_views(boxed@)[i] == fresh_of(contents[i])
            &&& is_canonical_oid((#[trigger] boxed@[i]).oid@)
            &&& boxed@[i].commit@ == zero_text()
        } by {
            assert(*boxed@[i] == files@[i]);
            assert(files@[i]@ == fresh_file(entries@[i]));
        }
        assert(newest_listing(boxed_views(boxed@), ids@, master, master_tree));
    }
    Some(boxed)
}

/// Lists the tree of the newest commit of the repository that `path` names
/// (see `listing_path`), with no commit attributed to any entry. `None`
/// when the repository cannot be opened or read.
pub fn get_file_list(path: &str) -> (res: Option<Vec<Box<File>>>)
    requires
        path@.len() > 0,
        (path@[0] as int) < 128,
    ensures
        res matches Some(files) ==> forall|i: int| 0 <= i < files@.len() ==> {
            &&& is_canonical_oid((#[trigger] files@[i]).oid@)
            &&& files@[i].commit@ == zero_text()
        },
        res matches Some(files) ==> lists_head(boxed_views(files@)),
{
    let repo = match open_repo(listing_path(path)) {
        Ok(repo) => repo,
        Err(_) => return None,
    };
    let mut walk = match repo_revwalk(&repo) {
        Ok(walk) => walk,
        Err(_) => return None,
    };
    match revwalk_push_head(&mut walk) {
        Ok(()) => {},
        Err(_) => return None,
    }
    let ids = match revwalk_ids(&mut walk) {
        Ok(ids) => ids,
        Err(_) => return None,
    };
    let res = newest_files(&ids, &repo);
    assert(res matches Some(files) ==> lists_newest(boxed_views(files@), ids@));
    res
}

/// `files` are the entries of the tree of the newest commit of some walk
/// of the history.
pub open spec fn lists_head(files: Seq<FileView>) -> bool {
    exists|ids: Seq<String>| #[trigger] lists_newest(files, ids)
}

/// `files` are the entries of the tree of the commit with the first of the
/// ids `ids`.
pub open spec fn lists_newest(files: Seq<FileView>, ids: Seq<String>) -> bool {
    exists|c: CommitInfo, t: git2::Tree| #[trigger] newest_listing(files, ids, c, t)
}

/// `files` are the entries of the tree `t` of the commit `c`, the commit of
/// the first of the ids `ids`, in order, none attributed.
pub open spec fn newest_listing(files: Seq<FileView>, ids: Seq<String>, c: CommitInfo, t: git2::Tree) -> bool {
    &&& ids.len() >= 1
    &&& Some(c.id@) == spec_oid_text(ids[0]@)
    &&& Some(tree_id(t)) == spec_oid_text(c.tree_id@)
    &&& files.len() == tree_contents(t).len()
    &&& all_readable(tree_contents(t))
    &&& forall|i: int| 0 <= i < files.len() ==> #[trigger] files[i] == fresh_of(tree_contents(t)[i])
}

} // verus!
