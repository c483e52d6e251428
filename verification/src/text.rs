//! Text handling: splitting paths and `git log` output, and building the
//! paths and parameters of requests.
use vstd::prelude::*;

use crate::git::push_char;
use vstd::std_specs::iter::IteratorSpec;

verus! {

/// The pieces of `s` between occurrences of `sep`, in order; a text with `k`
/// separators has `k + 1` pieces (the empty text has one empty piece).
pub open spec fn pieces(s: Seq<char>, sep: char) -> Seq<Seq<char>>
    decreases s.len(),
{
    if s.len() == 0 {
        seq![Seq::<char>::empty()]
    } else {
        let rest = pieces(s.drop_last(), sep);
        if s.last() == sep {
            rest.push(Seq::<char>::empty())
        } else {
            rest.update(rest.len() - 1, rest.last().push(s.last()))
        }
    }
}

/// The pieces joined again, with `sep` between neighbours.
pub open spec fn join(parts: Seq<Seq<char>>, sep: char) -> Seq<char>
    decreases parts.len(),
{
    if parts.len() <= 1 {
        if parts.len() == 0 {
            Seq::empty()
        } else {
            parts[0]
        }
    } else {
        join(parts.drop_last(), sep).push(sep) + parts.last()
    }
}

/// The views of a vector of strings.
pub open spec fn texts(v: Seq<String>) -> Seq<Seq<char>> {
    v.map_values(|p: String| p@)
}

/// Splits `s` at every `sep`.
pub fn split_on(s: &str, sep: char) -> (parts: Vec<String>)
    ensures
        texts(parts@) == pieces(s@, sep),
{
    let mut parts: Vec<String> = Vec::new();
    let mut cur = String::new();
    let mut chars = s.chars();
    let ghost mut seen: Seq<char> = Seq::empty();
    loop
        invariant
            chars.decrease() is Some,
            seen + chars.remaining() == s@,
            texts(parts@).push(cur@) == pieces(seen, sep),
        ensures
            seen == s@,
            texts(parts@).push(cur@) == pieces(seen, sep),
        decreases chars.decrease()->0,
    {
        let ghost before = chars.remaining();
        match chars.next() {
            None => {
                assert(seen =~= s@);
                break;
            },
            Some(c) => {
                assert(seen.push(c).drop_last() =~= seen);
                if c == sep {
                    let ghost done = parts@;
                    parts.push(cur);
                    assert(texts(parts@) =~= texts(done).push(cur@));
                    cur = String::new();
                } else {
                    push_char(&mut cur, c);
                }
                assert(texts(parts@).push(cur@) =~= pieces(seen.push(c), sep));
                proof {
                    assert(seen.push(c) + chars.remaining() =~= seen + before);
                    seen = seen.push(c);
                }
            },
        }
    }
    let ghost done = parts@;
    parts.push(cur);
    assert(texts(parts@) =~= texts(done).push(cur@));
    parts
}

/// There is always at least one piece.
proof fn lemma_pieces_nonempty(s: Seq<char>, sep: char)
    ensures
        pieces(s, sep).len() >= 1,
    decreases s.len(),
{
    if s.len() > 0 {
        lemma_pieces_nonempty(s.drop_last(), sep);
    }
}

/// Splitting and joining again gives back the text, and no piece holds the
/// separator.
pub proof fn law_split_rejoins(s: Seq<char>, sep: char)
    ensures
        pieces(s, sep).len() >= 1,
        join(pieces(s, sep), sep) == s,
        forall|i: int| 0 <= i < pieces(s, sep).len() ==> !(#[trigger] pieces(s, sep)[i]).contains(sep),
    decreases s.len(),
{
    lemma_pieces_nonempty(s, sep);
    if s.len() == 0 {
        assert(pieces(s, sep)[0] =~= Seq::<char>::empty());
        assert(s =~= Seq::<char>::empty());
    } else {
        let init = s.drop_last();
        let c = s.last();
        let rest = pieces(init, sep);
        law_split_rejoins(init, sep);
        if c == sep {
            let now = rest.push(Seq::<char>::empty());
            assert(now.drop_last() =~= rest);
            assert(join(now, sep) =~= join(rest, sep).push(sep) + Seq::<char>::empty());
            assert(s =~= init.push(c));
            assert forall|i: int| 0 <= i < now.len() implies !(#[trigger] now[i]).contains(sep) by {
                if i < rest.len() {
                    assert(now[i] == rest[i]);
                } else {
                    assert(now[i] =~= Seq::<char>::empty());
                }
            }
        } else {
            let last = rest.len() - 1;
            let now = rest.update(last, rest.last().push(c));
            if rest.len() == 1 {
                assert(join(now, sep) == now[0]);
                assert(join(rest, sep) == rest[0]);
                assert(s =~= init.push(c));
            } else {
                assert(now.drop_last() =~= rest.drop_last());
                assert(join(now, sep) == join(rest.drop_last(), sep).push(sep) + rest.last().push(c));
                assert(join(rest, sep) == join(rest.drop_last(), sep).push(sep) + rest.last());
                assert(join(now, sep) =~= join(rest, sep).push(c));
                assert(s =~= init.push(c));
            }
            assert forall|i: int| 0 <= i < now.len() implies !(#[trigger] now[i]).contains(sep) by {
                if i < last {
                    assert(now[i] == rest[i]);
                } else {
                    assert(!rest[last].contains(sep));
                    if now[i].contains(sep) {
                        let k = choose|k: int| 0 <= k < now[i].len() && now[i][k] == sep;
                        if k < rest[last].len() {
                            assert(rest[last][k] == sep);
                        }
                    }
                }
            }
        }
    }
}

/// Splits a path at every '/' and ends its first piece with '/'.
pub fn split(path: &str) -> (parts: Vec<String>)
    ensures
        parts@.len() >= 1,
        parts@.len() == pieces(path@, '/').len(),
        parts@[0]@ == pieces(path@, '/')[0].push('/'),
        forall|i: int| 1 <= i < parts@.len() ==> #[trigger] parts@[i]@ == pieces(path@, '/')[i],
{
    let mut parts = split_on(path, '/');
    proof {
        lemma_pieces_nonempty(path@, '/');
        assert(texts(parts@)[0] == parts@[0]@);
    }
    let ghost before = parts@;
    push_char(&mut parts[0], '/');
    assert forall|i: int| 1 <= i < parts@.len() implies #[trigger] parts@[i]@ == pieces(path@, '/')[i] by {
        assert(parts@[i] == before[i]);
        assert(texts(before)[i] == before[i]@);
    }
    parts
}

/// The repository that a listing path names: a path that starts with '.'
/// names it by its first piece and a '/' (the rest is not used); any other
/// path names it whole.
pub fn listing_path(path: &str) -> (res: String)
    ensures
        path@.len() > 0 && path@[0] == '.' ==> res@ == pieces(path@, '/')[0].push('/'),
        !(path@.len() > 0 && path@[0] == '.') ==> res@ == path@,
{
    let mut chars = path.chars();
    let ghost all = chars.remaining();
    let first = chars.next();
    assert(all == path@);
    match first {
        Some(c) => if c == '.' {
            let parts = split(path);
            parts[0].clone()
        } else {
            String::from_str(path)
        },
        None => String::from_str(path),
    }
}

/// The latest commit of a file as `git log` reports it.
#[derive(Debug)]
pub struct GitCommit {
    pub file: String,
    pub commit: String,
    pub author: String,
    pub time: String,
    pub msg: String,
}

/// The path of `file` below `parent`: `parent/file`, or `file` alone when
/// `parent` is empty.
pub fn truth_path(file: String, parent: &String) -> (path: String)
    ensures
        parent@.len() == 0 ==> path@ == file@,
        parent@.len() != 0 ==> path@ == parent@.push('/') + file@,
{
    if parent.as_str().is_empty() {
        file
    } else {
        let mut path = parent.clone();
        push_char(&mut path, '/');
        path.concat(file.as_str())
    }
}

/// Reads the output of `git log --pretty=format:%H%n%cn%n%cD%n%s -n 1`:
/// exactly four lines, the commit id, the committer, the date and the
/// subject; anything else is an error.
pub fn parse_log(file: String, output: &str) -> (res: Result<GitCommit, ()>)
    ensures
        res is Ok <==> pieces(output@, '\n').len() == 4,
        res matches Ok(c) ==> {
            &&& c.file@ == file@
            &&& c.commit@ == pieces(output@, '\n')[0]
            &&& c.author@ == pieces(output@, '\n')[1]
            &&& c.time@ == pieces(output@, '\n')[2]
            &&& c.msg@ == pieces(output@, '\n')[3]
        },
{
    let lines = split_on(output, '\n');
    if lines.len() != 4 {
        return Err(());
    }
    proof {
        assert(texts(lines@)[0] == lines@[0]@);
        assert(texts(lines@)[1] == lines@[1]@);
        assert(texts(lines@)[2] == lines@[2]@);
        assert(texts(lines@)[3] == lines@[3]@);
    }
    Ok(GitCommit {
        file,
        commit: lines[0].clone(),
        author: lines[1].clone(),
        time: lines[2].clone(),
        msg: lines[3].clone(),
    })
}

/// The tree parameter of a request: "VOID" stands for none.
pub fn tree_param(tree: String) -> (res: Option<String>)
    ensures
        tree@ == "VOID"@ ==> res is None,
        tree@ != "VOID"@ ==> (res matches Some(t) && t@ == tree@),
{
    let void = String::from_str("VOID");
    if tree != void {
        Some(tree)
    } else {
        None
    }
}

/// `base/name`.
pub fn join_path(base: &str, name: &str) -> (res: String)
    ensures
        res@ == base@.push('/') + name@,
{
    let mut res = String::from_str(base);
    push_char(&mut res, '/');
    res.concat(name)
}

/// The directory of a repository: `user_path/repository.git`.
pub fn repo_path(user_path: &str, repository: &str) -> (res: String)
    ensures
        res@ == user_path@.push('/') + repository@ + ".git"@,
{
    join_path(user_path, repository).concat(".git")
}

} // verus!
