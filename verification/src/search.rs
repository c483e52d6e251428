//! The search through the history for the commit that last set a file's
//! content. The history is newest first; a file is looked for either among
//! the entries of each commit's tree (`bsearch`) or among the entries of the
//! trees one level below it (`bsearch_deep`).
use vstd::prelude::*;

use crate::model::{File, FileView, Probe, Revision};
use crate::oid::{object_id_text, spec_oid_text};

verus! {

/// Why a search cannot finish: it would step before the newest commit or
/// settle past the oldest, the file's id is not a valid object id, an entry
/// one level down cannot be read, or the commit it settles on has no
/// readable committer name or summary.
#[derive(Debug)]
pub struct SearchFault;

/// Where a search ends.
pub enum Attribution {
    /// The file is left as it is.
    Unchanged,
    /// The file is attributed to the commit at this index.
    Commit(int),
    /// The search cannot finish.
    Fault,
}

/// `ids` lists `id`.
pub open spec fn holds(ids: Seq<String>, id: Seq<char>) -> bool {
    exists|k: int| 0 <= k < ids.len() && #[trigger] ids[k]@ == id
}

/// Looking through the entries of a tree one level down, in order: the first
/// subtree that lists `id` gives `true`; an unreadable entry met before it
/// stops the look; with neither, `false`.
pub open spec fn scan_nested(probes: Seq<Probe>, id: Seq<char>) -> Option<bool>
    decreases probes.len(),
{
    if probes.len() == 0 {
        Some(false)
    } else {
        match probes[0] {
            Probe::Other => scan_nested(probes.drop_first(), id),
            Probe::Unreadable => None,
            Probe::Subtree(ids) => if holds(ids@, id) {
                Some(true)
            } else {
                scan_nested(probes.drop_first(), id)
            },
        }
    }
}

/// Whether each commit's tree has the file with id text `oid`, by index;
/// `None` where the look cannot be finished (an id that is not valid, or an
/// unreadable entry one level down).
pub open spec fn presence(h: Seq<Revision>, oid: Seq<char>, deep: bool) -> Seq<Option<bool>> {
    Seq::new(
        h.len(),
        |i: int|
            match spec_oid_text(oid) {
                None => None,
                Some(id) => if deep {
                    scan_nested(h[i].nested@, id)
                } else {
                    Some(holds(h[i].top@, id))
                },
            },
    )
}

/// The presence at index `i`; past the oldest commit the file is absent.
pub open spec fn probe(q: Seq<Option<bool>>, i: int) -> Option<bool> {
    if i >= q.len() {
        Some(false)
    } else {
        q[i]
    }
}

/// The size of what is left to search between `start` and `end`.
pub open spec fn span(start: int, end: int) -> int {
    if start <= end {
        2 * (end - start) + 1
    } else {
        0
    }
}

/// The steps of the search between `start` and `end` over the presence `q`
/// (with nothing present past the oldest commit): at a distance of one (or
/// of zero, looking one level down) it settles on `end` if the file is
/// there, else on `start`; otherwise it probes the middle and its neighbour
/// and either settles or goes on in one half.
pub open spec fn locate(start: int, end: int, q: Seq<Option<bool>>, deep: bool) -> Attribution
    decreases span(start, end),
    when start <= end + 1
{
    let n = q.len() as int;
    let diff = if start > end {
        start - end
    } else {
        end - start
    };
    let mid = (start + end) / 2;
    if diff == 1 || (deep && diff == 0) {
        match probe(q, end) {
            None => Attribution::Fault,
            Some(true) => Attribution::Commit(end),
            Some(false) => if start >= n {
                Attribution::Fault
            } else {
                Attribution::Commit(start)
            },
        }
    } else {
        match probe(q, mid) {
            None => Attribution::Fault,
            Some(true) => match probe(q, mid + 1) {
                None => Attribution::Fault,
                Some(true) => locate(mid + 1, end, q, deep),
                Some(false) => Attribution::Commit(mid),
            },
            Some(false) => if mid == 0 {
                Attribution::Fault
            } else {
                match probe(q, mid - 1) {
                    None => Attribution::Fault,
                    Some(true) => Attribution::Commit(mid - 1),
                    Some(false) => locate(start, mid - 1, q, deep),
                }
            },
        }
    }
}

/// Where a search between `start` and `end` ends for a file with id text
/// `oid`: an empty history leaves the file as it is; a history of one commit
/// settles on it at once; otherwise the steps of `locate` decide.
pub open spec fn search_outcome(
    start: int,
    end: int,
    oid: Seq<char>,
    h: Seq<Revision>,
    deep: bool,
) -> Attribution {
    if h.len() == 0 {
        Attribution::Unchanged
    } else if h.len() == 1 {
        Attribution::Commit(0)
    } else {
        locate(start, end, presence(h, oid, deep), deep)
    }
}

/// Where the search over the whole history ends for a file with id text `oid`.
pub open spec fn attribution(oid: Seq<char>, h: Seq<Revision>, deep: bool) -> Attribution {
    search_outcome(0, h.len() as int, oid, h, deep)
}

/// The file attributed to commit `r`: its id, committer name, time and
/// summary; none where the name or the summary is unreadable.
pub open spec fn stamped(f: FileView, r: Revision) -> Option<FileView> {
    match (r.author, r.msg) {
        (Some(a), Some(m)) => Some(
            FileView {
                name: f.name,
                oid: f.oid,
                commit: r.id@,
                blob_type: f.blob_type,
                author: a@,
                time: r.time,
                msg: m@,
            },
        ),
        _ => None,
    }
}

/// The file after a search that ended in `a`; none where it cannot finish.
pub open spec fn settle(f: FileView, a: Attribution, h: Seq<Revision>) -> Option<FileView> {
    match a {
        Attribution::Unchanged => Some(f),
        Attribution::Commit(i) => stamped(f, h[i]),
        Attribution::Fault => None,
    }
}

/// The name, id and type of a file are never changed.
pub open spec fn same_entry(a: FileView, b: FileView) -> bool {
    &&& a.name == b.name
    &&& a.oid == b.oid
    &&& a.blob_type == b.blob_type
}

/// Whether `ids` lists `id`.
pub fn holds_id(ids: &Vec<String>, id: &String) -> (res: bool)
    ensures
        res == holds(ids@, id@),
{
    for k in 0..ids.len()
        invariant
            forall|j: int| 0 <= j < k ==> #[trigger] ids@[j]@ != id@,
    {
        if ids[k] == *id {
            return true;
        }
    }
    false
}

/// Attributes `file` to commit `r`.
pub fn stamp(file: &mut File, r: &Revision) -> (res: Result<(), SearchFault>)
    ensures
        res is Ok <==> stamped(old(file)@, *r) is Some,
        res is Ok ==> Some(final(file)@) == stamped(old(file)@, *r),
        same_entry(final(file)@, old(file)@),
{
    match (&r.author, &r.msg) {
        (Some(a), Some(m)) => {
            file.commit = r.id.clone();
            file.author = a.clone();
            file.time = r.time;
            file.msg = m.clone();
            Ok(())
        },
        _ => Err(SearchFault),
    }
}

/// The midpoint of `start` and `end`, rounded down.
fn midpoint(start: usize, end: usize) -> (mid: usize)
    ensures
        mid as int == (start as int + end as int) / 2,
{
    start / 2 + end / 2 + (start % 2 + end % 2) / 2
}

/// The canonical text of a file's id, or the fault of an invalid one.
fn file_id(file: &File) -> (res: Result<String, SearchFault>)
    ensures
        res is Ok <==> spec_oid_text(file.oid@) is Some,
        res matches Ok(id) ==> Some(id@) == spec_oid_text(file.oid@),
{
    match object_id_text(&file.oid) {
        Some(id) => Ok(id),
        None => Err(SearchFault),
    }
}

/// Whether the tree of the commit at `i` lists `file`; past the oldest
/// commit it does not. Fails on an invalid id.
fn probe_top(file: &File, history: &Vec<Revision>, i: usize) -> (res: Result<bool, SearchFault>)
    ensures
        match probe(presence(history@, file.oid@, false), i as int) {
            None => res is Err,
            Some(b) => res == Ok::<bool, SearchFault>(b),
        },
{
    if i >= history.len() {
        return Ok(false);
    }
    let id = file_id(file)?;
    Ok(holds_id(&history[i].top, &id))
}

/// Whether the subtrees of the commit at `i` list `file`; past the oldest
/// commit they do not. Fails on an invalid id or an unreadable entry.
fn probe_sub(file: &File, history: &Vec<Revision>, i: usize) -> (res: Result<bool, SearchFault>)
    ensures
        match probe(presence(history@, file.oid@, true), i as int) {
            None => res is Err,
            Some(b) => res == Ok::<bool, SearchFault>(b),
        },
{
    if i >= history.len() {
        return Ok(false);
    }
    let id = file_id(file)?;
    match in_tree_handler(&id, &history[i])? {
        Some(_) => Ok(true),
        None => Ok(false),
    }
}

/// Searches the history between `start` and `end` for the commit that last
/// set `file`'s content, looking at the entries of each commit's tree, and
/// attributes the file to it. A commit past the oldest one counts as not
/// having the file. A pair with `start > end + 1` in a history of two or
/// more commits is not searched: from `0` and the history's length the
/// search never reaches one.
pub fn bsearch(start: usize, end: usize, file: &mut File, history: &Vec<Revision>) -> (res: Result<(), SearchFault>)
    requires
        history@.len() <= 1 || start <= end + 1,
    ensures
        res is Ok <==> settle(old(file)@, search_outcome(start as int, end as int, old(file)@.oid, history@, false), history@) is Some,
        res is Ok ==> Some(final(file)@) == settle(old(file)@, search_outcome(start as int, end as int, old(file)@.oid, history@, false), history@),
        same_entry(final(file)@, old(file)@),
    decreases span(start as int, end as int),
{
    let n = history.len();
    if n == 0 {
        return Ok(());
    }
    if n == 1 {
        return stamp(file, &history[0]);
    }
    let diff = if start > end {
        start - end
    } else {
        end - start
    };
    let mid = midpoint(start, end);
    if diff == 1 {
        if probe_top(file, history, end)? {
            return stamp(file, &history[end]);
        }
        if start >= n {
            return Err(SearchFault);
        }
        return stamp(file, &history[start]);
    }
    if probe_top(file, history, mid)? {
        if probe_top(file, history, mid + 1)? {
            bsearch(mid + 1, end, file, history)
        } else {
            stamp(file, &history[mid])
        }
    } else {
        if mid == 0 {
            return Err(SearchFault);
        }
        if probe_top(file, history, mid - 1)? {
            stamp(file, &history[mid - 1])
        } else {
            bsearch(start, mid - 1, file, history)
        }
    }
}

/// Looks for `oid` one level below a commit's tree: in each subtree among
/// its entries, in order. `Ok(Some(true))` when a subtree lists it,
/// `Ok(None)` when none does, and a fault on an unreadable entry met first.
pub fn in_tree_handler(oid: &String, tree: &Revision) -> (res: Result<Option<bool>, SearchFault>)
    ensures
        scan_nested(tree.nested@, oid@) is None <==> res is Err,
        scan_nested(tree.nested@, oid@) == Some(true) <==> res == Ok::<Option<bool>, SearchFault>(Some(true)),
        scan_nested(tree.nested@, oid@) == Some(false) <==> res == Ok::<Option<bool>, SearchFault>(None),
{
    let probes = &tree.nested;
    assert(probes@.skip(0) =~= probes@);
    for j in 0..probes.len()
        invariant
            probes@ == tree.nested@,
            scan_nested(probes@, oid@) == scan_nested(probes@.skip(j as int), oid@),
    {
        let ghost rest = probes@.skip(j as int);
        assert(rest[0] == probes@[j as int]);
        assert(rest.drop_first() =~= probes@.skip(j + 1));
        match &probes[j] {
            Probe::Other => {},
            Probe::Unreadable => {
                return Err(SearchFault);
            },
            Probe::Subtree(ids) => {
                if holds_id(ids, oid) {
                    return Ok(Some(true));
                }
            },
        }
    }
    assert(probes@.skip(probes@.len() as int) =~= Seq::<Probe>::empty());
    Ok(None)
}

/// Searches the history between `start` and `end` for the commit that last
/// set `file`'s content, looking one level below each commit's tree, and
/// attributes the file to it. A commit past the oldest one counts as not
/// having the file. A pair with `start > end + 1` in a history of two or
/// more commits is not searched: from `0` and the history's length the
/// search never reaches one.
pub fn bsearch_deep(start: usize, end: usize, file: &mut File, history: &Vec<Revision>) -> (res: Result<(), SearchFault>)
    requires
        history@.len() <= 1 || start <= end + 1,
    ensures
        res is Ok <==> settle(old(file)@, search_outcome(start as int, end as int, old(file)@.oid, history@, true), history@) is Some,
        res is Ok ==> Some(final(file)@) == settle(old(file)@, search_outcome(start as int, end as int, old(file)@.oid, history@, true), history@),
        same_entry(final(file)@, old(file)@),
    decreases span(start as int, end as int),
{
    let n = history.len();
    if n == 0 {
        return Ok(());
    }
    if n == 1 {
        return stamp(file, &history[0]);
    }
    let diff = if start > end {
        start - end
    } else {
        end - start
    };
    let mid = midpoint(start, end);
    if diff == 1 || diff == 0 {
        if probe_sub(file, history, end)? {
            return stamp(file, &history[end]);
        }
        if start >= n {
            return Err(SearchFault);
        }
        return stamp(file, &history[start]);
    }
    if probe_sub(file, history, mid)? {
        if probe_sub(file, history, mid + 1)? {
            bsearch_deep(mid + 1, end, file, history)
        } else {
            stamp(file, &history[mid])
        }
    } else {
        if mid == 0 {
            return Err(SearchFault);
        }
        if probe_sub(file, history, mid - 1)? {
            stamp(file, &history[mid - 1])
        } else {
            bsearch_deep(start, mid - 1, file, history)
        }
    }
}

/// Attributes every file to the commit that last set its content, searching
/// the whole history from its newest commit; `in_subtree` chooses the look
/// one level below each commit's tree. Fails when the search fails for any
/// file.
pub fn add_commit(files: &mut Vec<File>, history: &Vec<Revision>, in_subtree: bool) -> (res: Result<(), SearchFault>)
    ensures
        final(files)@.len() == old(files)@.len(),
        res is Ok <==> forall|i: int| 0 <= i < old(files)@.len() ==>
            (#[trigger] settle(old(files)@[i]@, attribution(old(files)@[i]@.oid, history@, in_subtree), history@)) is Some,
        res is Ok ==> forall|i: int| 0 <= i < old(files)@.len() ==>
            Some(#[trigger] final(files)@[i]@) == settle(old(files)@[i]@, attribution(old(files)@[i]@.oid, history@, in_subtree), history@),
        forall|i: int| 0 <= i < old(files)@.len() ==> same_entry(#[trigger] final(files)@[i]@, old(files)@[i]@),
{
    let end = history.len();
    let count = files.len();
    for i in 0..count
        invariant
            count == old(files)@.len(),
            end == history@.len(),
            files@.len() == count,
            forall|j: int| i <= j < count ==> #[trigger] files@[j] == old(files)@[j],
            forall|j: int| 0 <= j < i ==>
                Some(#[trigger] files@[j]@) == settle(old(files)@[j]@, attribution(old(files)@[j]@.oid, history@, in_subtree), history@),
            forall|j: int| 0 <= j < count ==> same_entry(#[trigger] files@[j]@, old(files)@[j]@),
    {
        let r = if in_subtree {
            bsearch_deep(0, end, &mut files[i], history)
        } else {
            bsearch(0, end, &mut files[i], history)
        };
        if r.is_err() {
            assert(settle(old(files)@[i as int]@, attribution(old(files)@[i as int]@.oid, history@, in_subtree), history@) is None);
            return Err(SearchFault);
        }
    }
    assert forall|i: int| 0 <= i < old(files)@.len() implies
        (#[trigger] settle(old(files)@[i]@, attribution(old(files)@[i]@.oid, history@, in_subtree), history@)) is Some by {
        assert(Some(files@[i]@) == settle(old(files)@[i]@, attribution(old(files)@[i]@.oid, history@, in_subtree), history@));
    }
    Ok(())
}

/// In a history where the file is present exactly in the commits `0..=k`,
/// a search between `start <= k < end` settles on `k`.
proof fn lemma_locate_boundary(start: int, end: int, q: Seq<Option<bool>>, deep: bool, k: int)
    requires
        0 <= start <= k < end <= q.len(),
        forall|i: int| 0 <= i < q.len() ==> #[trigger] q[i] == Some(i <= k),
    ensures
        locate(start, end, q, deep) == Attribution::Commit(k),
    decreases end - start,
{
    assert forall|i: int| 0 <= i implies #[trigger] probe(q, i) == Some(i <= k) by {
        if i < q.len() {
            assert(q[i] == Some(i <= k));
        }
    }
    let mid = (start + end) / 2;
    if end - start >= 2 {
        assert(probe(q, mid) == Some(mid <= k));
        if mid <= k {
            assert(probe(q, mid + 1) == Some(mid + 1 <= k));
            if mid + 1 <= k {
                lemma_locate_boundary(mid + 1, end, q, deep, k);
            }
        } else {
            assert(probe(q, mid - 1) == Some(mid - 1 <= k));
            if mid - 1 > k {
                lemma_locate_boundary(start, mid - 1, q, deep, k);
            }
        }
    } else {
        assert(probe(q, end) == Some(end <= k));
    }
}

/// A search between two indices from zero on never settles outside the
/// history.
proof fn lemma_locate_in_range(start: int, end: int, q: Seq<Option<bool>>, deep: bool)
    requires
        0 <= start <= end + 1,
        0 <= end,
    ensures
        locate(start, end, q, deep) matches Attribution::Commit(i) ==> 0 <= i < q.len(),
        !(locate(start, end, q, deep) is Unchanged),
    decreases span(start, end),
{
    let diff = if start > end { start - end } else { end - start };
    let mid = (start + end) / 2;
    if diff == 1 || (deep && diff == 0) {
    } else if probe(q, mid) == Some(true) && probe(q, mid + 1) == Some(true) {
        lemma_locate_in_range(mid + 1, end, q, deep);
    } else if probe(q, mid) == Some(false) && mid != 0 && probe(q, mid - 1) == Some(false) {
        lemma_locate_in_range(start, mid - 1, q, deep);
    }
}

/// The commit that brought a file's content: when the file's id is in the
/// trees of the newest `k + 1` commits and in none older, the file is
/// attributed to commit `k` (counting from the newest); a file present in
/// every commit is attributed to the oldest. This holds looking at top
/// level and looking one level down alike.
pub proof fn law_attributed_to_introducing_commit(h: Seq<Revision>, oid: Seq<char>, deep: bool, k: int)
    requires
        spec_oid_text(oid) is Some,
        0 <= k < h.len(),
        forall|i: int| 0 <= i < h.len() ==> #[trigger] presence(h, oid, deep)[i] == Some(i <= k),
    ensures
        attribution(oid, h, deep) == Attribution::Commit(k),
{
    if h.len() >= 2 {
        lemma_locate_boundary(0, h.len() as int, presence(h, oid, deep), deep, k);
    }
}

/// A search over the whole history never attributes a file to a commit
/// outside it, and leaves a file as it is only when the history is empty.
pub proof fn law_attribution_within_history(h: Seq<Revision>, oid: Seq<char>, deep: bool)
    ensures
        attribution(oid, h, deep) matches Attribution::Commit(i) ==> 0 <= i < h.len(),
        attribution(oid, h, deep) is Unchanged <==> h.len() == 0,
{
    lemma_locate_in_range(0, h.len() as int, presence(h, oid, deep), deep);
}

/// Whether the probe `p` is a subtree that lists `id`.
pub open spec fn lists_in(p: Probe, id: Seq<char>) -> bool {
    p matches Probe::Subtree(ids) && holds(ids@, id)
}

/// The look one level down passes over entries that are not trees: when
/// some subtree lists `id` and no entry before it is unreadable, the look
/// finds it.
pub proof fn law_look_down_finds_listing_subtree(probes: Seq<Probe>, id: Seq<char>, k: int)
    requires
        0 <= k < probes.len(),
        lists_in(probes[k], id),
        forall|j: int| 0 <= j < k ==> !(#[trigger] probes[j] is Unreadable),
    ensures
        scan_nested(probes, id) == Some(true),
    decreases probes.len(),
{
    if k > 0 {
        assert(!(probes[0] is Unreadable));
        assert forall|j: int| 0 <= j < k - 1 implies !(#[trigger] probes.drop_first()[j] is Unreadable) by {
            assert(probes.drop_first()[j] == probes[j + 1]);
        }
        if !lists_in(probes[0], id) {
            law_look_down_finds_listing_subtree(probes.drop_first(), id, k - 1);
        }
    }
}

/// When every entry is readable and no subtree lists `id`, the look one
/// level down answers that the id is absent.
pub proof fn law_look_down_absent(probes: Seq<Probe>, id: Seq<char>)
    requires
        forall|j: int| 0 <= j < probes.len() ==> !(#[trigger] probes[j] is Unreadable) && !lists_in(probes[j], id),
    ensures
        scan_nested(probes, id) == Some(false),
    decreases probes.len(),
{
    if probes.len() > 0 {
        assert(!(probes[0] is Unreadable) && !lists_in(probes[0], id));
        assert forall|j: int| 0 <= j < probes.len() - 1 implies
            !(#[trigger] probes.drop_first()[j] is Unreadable) && !lists_in(probes.drop_first()[j], id) by {
            assert(probes.drop_first()[j] == probes[j + 1]);
        }
        law_look_down_absent(probes.drop_first(), id);
    }
}

/// An unreadable entry met before any subtree that lists `id` stops the
/// look one level down without an answer.
pub proof fn law_look_down_stops_at_unreadable(probes: Seq<Probe>, id: Seq<char>, k: int)
    requires
        0 <= k < probes.len(),
        probes[k] is Unreadable,
        forall|j: int| 0 <= j < k ==> !lists_in(#[trigger] probes[j], id),
    ensures
        scan_nested(probes, id) is None,
    decreases probes.len(),
{
    if k > 0 {
        assert(!lists_in(probes[0], id));
        assert forall|j: int| 0 <= j < k - 1 implies !lists_in(#[trigger] probes.drop_first()[j], id) by {
            assert(probes.drop_first()[j] == probes[j + 1]);
        }
        if !(probes[0] is Unreadable) {
            law_look_down_stops_at_unreadable(probes.drop_first(), id, k - 1);
        }
    }
}

/// The first look of a search over two or more commits is at the middle
/// commit `m = n / 2`; what it sees there settles the file whatever the older
/// commits hold: found in commit `m - 1` but not in `m`, the file belongs to
/// `m - 1`; found in `m` but not in `m + 1` (or `m` is the oldest), it
/// belongs to `m`. This holds looking at top level and one level down alike.
pub proof fn law_search_settles_at_first_midpoint(h: Seq<Revision>, oid: Seq<char>, deep: bool)
    requires
        h.len() >= 2,
    ensures
        presence(h, oid, deep)[(h.len() as int) / 2 - 1] == Some(true) && presence(h, oid, deep)[(h.len() as int) / 2] == Some(false)
            ==> attribution(oid, h, deep) == Attribution::Commit((h.len() as int) / 2 - 1),
        presence(h, oid, deep)[(h.len() as int) / 2] == Some(true)
            && ((h.len() as int) / 2 + 1 == h.len() as int || presence(h, oid, deep)[(h.len() as int) / 2 + 1] == Some(false))
            ==> attribution(oid, h, deep) == Attribution::Commit((h.len() as int) / 2),
{
    let q = presence(h, oid, deep);
    let n = h.len() as int;
    let m = n / 2;
    assert(probe(q, m) == q[m]);
    assert(probe(q, m - 1) == q[m - 1]);
    assert(m + 1 == n ==> probe(q, m + 1) == Some(false));
    assert(m + 1 < n ==> probe(q, m + 1) == q[m + 1]);
    assert(attribution(oid, h, deep) == locate(0, n, q, deep));
}

/// A search between `start` (where the file is present) and `end` (with
/// the file absent just past it), over a history where every look has an
/// answer, settles on a commit that has the file while the next older one
/// does not.
proof fn lemma_locate_ends_on_change(start: int, end: int, q: Seq<Option<bool>>, deep: bool)
    requires
        0 <= start <= end + 1,
        forall|i: int| 0 <= i < q.len() ==> (#[trigger] q[i]) is Some,
        probe(q, start) == Some(true),
        probe(q, end + 1) == Some(false),
    ensures
        locate(start, end, q, deep) matches Attribution::Commit(k) && probe(q, k) == Some(true)
            && probe(q, k + 1) == Some(false),
    decreases span(start, end),
{
    let diff = if start > end { start - end } else { end - start };
    let mid = (start + end) / 2;
    assert forall|i: int| 0 <= i implies (#[trigger] probe(q, i)) is Some by {
        if i < q.len() {
            assert(q[i] is Some);
        }
    }
    if diff == 1 || (deep && diff == 0) {
    } else {
        if probe(q, mid) == Some(true) && probe(q, mid + 1) == Some(true) {
            lemma_locate_ends_on_change(mid + 1, end, q, deep);
        } else if probe(q, mid) == Some(false) && mid != 0 && probe(q, mid - 1) == Some(false) {
            lemma_locate_ends_on_change(start, mid - 1, q, deep);
        }
    }
}

/// Where the file is in the newest commit and every look has an answer, a
/// search over two or more commits settles on a commit whose tree has the
/// file while the next older commit's tree (if any) does not: the file is
/// never attributed to a commit that lacks it, nor to one whose parent
/// already had it.
pub proof fn law_search_ends_on_a_change(h: Seq<Revision>, oid: Seq<char>, deep: bool)
    requires
        h.len() >= 2,
        forall|j: int| 0 <= j < h.len() ==> (#[trigger] presence(h, oid, deep)[j]) is Some,
        presence(h, oid, deep)[0] == Some(true),
    ensures
        attribution(oid, h, deep) matches Attribution::Commit(k) && 0 <= k < h.len()
            && presence(h, oid, deep)[k] == Some(true)
            && (k + 1 == h.len() || presence(h, oid, deep)[k + 1] == Some(false)),
{
    let q = presence(h, oid, deep);
    assert(probe(q, 0) == q[0]);
    lemma_locate_ends_on_change(0, h.len() as int, q, deep);
    lemma_locate_in_range(0, h.len() as int, q, deep);
    let k = locate(0, h.len() as int, q, deep)->Commit_0;
    assert(k + 1 < h.len() ==> probe(q, k + 1) == q[k + 1]);
}

} // verus!
