use git_info::model::{get_files, Entry, File, Probe, Revision};
use git_info::search::{add_commit, bsearch, bsearch_deep, in_tree_handler};

fn id(k: u32) -> String {
    format!("{:040x}", k)
}

fn file(k: u32) -> File {
    File {
        name: format!("f{}", k),
        oid: id(k),
        commit: "0".repeat(40),
        blob_type: "blob".to_string(),
        author: String::new(),
        time: 0,
        msg: String::new(),
    }
}

fn rev(c: u32, top: Vec<u32>) -> Revision {
    Revision {
        id: id(1000 + c),
        author: Some(format!("author{}", c)),
        time: 100 + c as i64,
        msg: Some(format!("msg{}", c)),
        top: top.into_iter().map(id).collect(),
        nested: Vec::new(),
    }
}

fn deep_rev(c: u32, subtrees: Vec<Vec<u32>>) -> Revision {
    let mut r = rev(c, Vec::new());
    r.nested = subtrees
        .into_iter()
        .map(|s| Probe::Subtree(s.into_iter().map(id).collect()))
        .collect();
    r
}

/// History of `n` commits, newest first, where file 7 is present in commits `0..=k`.
fn history_with_boundary(n: u32, k: u32) -> Vec<Revision> {
    (0..n).map(|c| rev(c, if c <= k { vec![7, 8] } else { vec![8] })).collect()
}

#[test]
fn attributes_to_the_commit_that_introduced_the_content() {
    for n in 1..12u32 {
        for k in 0..n {
            let h = history_with_boundary(n, k);
            let mut f = file(7);
            assert!(bsearch(0, n as usize, &mut f, &h).is_ok());
            assert_eq!(f.commit, id(1000 + k));
            assert_eq!(f.author, format!("author{}", k));
            assert_eq!(f.time, 100 + k as i64);
            assert_eq!(f.msg, format!("msg{}", k));
            assert_eq!(f.name, "f7");
            assert_eq!(f.oid, id(7));
        }
    }
}

#[test]
fn deep_search_attributes_to_the_commit_that_introduced_the_content() {
    for n in 1..10u32 {
        for k in 0..n {
            let h: Vec<Revision> = (0..n)
                .map(|c| deep_rev(c, if c <= k { vec![vec![1], vec![7]] } else { vec![vec![1]] }))
                .collect();
            let mut f = file(7);
            assert!(bsearch_deep(0, n as usize, &mut f, &h).is_ok());
            assert_eq!(f.commit, id(1000 + k));
        }
    }
}

#[test]
fn content_present_since_the_first_commit_goes_to_the_oldest_commit() {
    let h = history_with_boundary(4, 3);
    let mut f = file(7);
    assert!(bsearch(0, 4, &mut f, &h).is_ok());
    assert_eq!(f.commit, id(1003));
    let h = history_with_boundary(2, 1);
    let mut f = file(7);
    assert!(bsearch(0, 2, &mut f, &h).is_ok());
    assert_eq!(f.commit, id(1001));
    assert_eq!(f.author, "author1");
}

#[test]
fn empty_history_leaves_the_file_alone() {
    let mut f = file(7);
    assert!(bsearch(0, 0, &mut f, &Vec::new()).is_ok());
    assert_eq!(f.commit, "0".repeat(40));
    assert!(bsearch_deep(0, 0, &mut f, &Vec::new()).is_ok());
    assert_eq!(f.author, "");
}

#[test]
fn single_commit_history_attributes_at_top_level() {
    let h = vec![rev(0, vec![])];
    let mut f = file(7);
    assert!(bsearch(0, 1, &mut f, &h).is_ok());
    assert_eq!(f.commit, id(1000));
    assert_eq!(f.author, "author0");
}

#[test]
fn single_commit_history_attributes_one_level_down() {
    let h = vec![deep_rev(0, vec![vec![7]])];
    let mut f = file(7);
    assert!(bsearch_deep(0, 1, &mut f, &h).is_ok());
    assert_eq!(f.commit, id(1000));
    assert_eq!(f.msg, "msg0");
}

#[test]
fn short_histories_are_answered_for_any_bounds() {
    let mut f = file(7);
    assert!(bsearch(9, 2, &mut f, &Vec::new()).is_ok());
    assert_eq!(f.commit, "0".repeat(40));
    assert!(bsearch_deep(9, 2, &mut f, &Vec::new()).is_ok());
    let h = vec![rev(0, vec![])];
    assert!(bsearch(9, 2, &mut f, &h).is_ok());
    assert_eq!(f.commit, id(1000));
    let mut g = file(7);
    assert!(bsearch_deep(9, 2, &mut g, &h).is_ok());
    assert_eq!(g.author, "author0");
}

#[test]
fn invalid_file_id_fails_once_the_history_is_searched() {
    let h = history_with_boundary(3, 0);
    let mut f = file(7);
    f.oid = "not an id".to_string();
    assert!(bsearch(0, 3, &mut f, &h).is_err());
    let single = vec![rev(0, vec![])];
    let mut g = file(7);
    g.oid = "zz".to_string();
    assert!(bsearch(0, 1, &mut g, &single).is_ok());
    assert_eq!(g.commit, id(1000));
}

#[test]
fn upper_case_and_short_ids_name_the_same_object() {
    let h = history_with_boundary(3, 1);
    let mut f = file(7);
    f.oid = "7".to_string();
    // "7" names the id 7000...0, which no tree lists: the search runs off the history.
    assert!(bsearch(0, 3, &mut f, &h).is_err());
    let mut g = file(0xab);
    g.oid = id(0xab).to_uppercase();
    let h2: Vec<Revision> = (0..3).map(|c| rev(c, if c <= 1 { vec![0xab] } else { vec![] })).collect();
    assert!(bsearch(0, 3, &mut g, &h2).is_ok());
    assert_eq!(g.commit, id(1001));
}

#[test]
fn unreadable_committer_name_fails() {
    let mut h = history_with_boundary(3, 1);
    h[1].author = None;
    let mut f = file(7);
    assert!(bsearch(0, 3, &mut f, &h).is_err());
    let mut h = history_with_boundary(3, 1);
    h[1].msg = None;
    let mut f = file(7);
    assert!(bsearch(0, 3, &mut f, &h).is_err());
}

#[test]
fn in_tree_handler_looks_one_level_down() {
    let r = deep_rev(0, vec![vec![1, 2], vec![3]]);
    assert_eq!(in_tree_handler(&id(3), &r).unwrap(), Some(true));
    assert_eq!(in_tree_handler(&id(4), &r).unwrap(), None);
    let mut r2 = rev(0, vec![3]);
    r2.nested = vec![Probe::Other, Probe::Unreadable, Probe::Subtree(vec![id(3)])];
    assert!(in_tree_handler(&id(3), &r2).is_err());
    r2.nested = vec![Probe::Subtree(vec![id(3)]), Probe::Unreadable];
    assert_eq!(in_tree_handler(&id(3), &r2).unwrap(), Some(true));
}

#[test]
fn add_commit_attributes_every_file() {
    let h: Vec<Revision> = (0..4u32)
        .map(|c| rev(c, match c { 0 => vec![1, 2], 1 => vec![2, 9], _ => vec![9] }))
        .collect();
    let mut files = vec![file(1), file(2)];
    assert!(add_commit(&mut files, &h, false).is_ok());
    assert_eq!(files[0].commit, id(1000));
    assert_eq!(files[1].commit, id(1001));
    assert_eq!(files[1].msg, "msg1");
    let mut more = vec![file(9)];
    assert!(add_commit(&mut more, &h, false).is_ok());
    assert_eq!(more[0].commit, id(1003));
    let mut bad = file(1);
    bad.oid = "zz".to_string();
    let mut broken = vec![file(1), bad];
    assert!(add_commit(&mut broken, &h, false).is_err());
}

#[test]
fn get_files_starts_every_entry_unattributed() {
    let entries = vec![
        Entry { name: "a".to_string(), id: id(1), kind: "blob".to_string() },
        Entry { name: "d".to_string(), id: id(2), kind: "tree".to_string() },
    ];
    let files = get_files(&entries);
    assert_eq!(files.len(), 2);
    assert_eq!(files[1].name, "d");
    assert_eq!(files[1].oid, id(2));
    assert_eq!(files[1].blob_type, "tree");
    assert_eq!(files[0].commit, "0000000000000000000000000000000000000000");
    assert_eq!(files[0].author, "");
    assert_eq!(files[0].time, 0);
    assert_eq!(files[0].msg, "");
}
