use git2::{Commit, Oid, Repository, Signature, Time};
use git_info::history::{get_file_list, go, go_in, list_walk, newest_files, newest_id, InfoError};
use git_info::text::{parse_log, truth_path};

const BLOB: i32 = 0o100644;
const DIR: i32 = 0o040000;

fn open_fresh(path: &str) -> Repository {
    let repo = Repository::init(path).unwrap();
    repo.set_head("refs/heads/master").unwrap();
    repo
}

fn tree(repo: &Repository, entries: &[(&str, Oid, i32)]) -> Oid {
    let mut builder = repo.treebuilder(None).unwrap();
    for (name, oid, mode) in entries {
        builder.insert(name, *oid, *mode).unwrap();
    }
    builder.write().unwrap()
}

fn commit(repo: &Repository, tree_oid: Oid, parent: Option<Oid>, who: &str, when: i64, msg: &str) -> Oid {
    let tree = repo.find_tree(tree_oid).unwrap();
    let sig = Signature::new(who, "someone@example.com", &Time::new(when, 0)).unwrap();
    let parents: Vec<Commit> = parent.into_iter().map(|p| repo.find_commit(p).unwrap()).collect();
    let refs: Vec<&Commit> = parents.iter().collect();
    repo.commit(None, &sig, &sig, msg, &tree, &refs).unwrap()
}

fn set_master(repo: &Repository, head: Oid) {
    repo.reference("refs/heads/master", head, true, "test").unwrap();
}

/// Three commits, oldest first: {a: one}, {a: one, b: two}, {a: one!, b: two}.
fn build_flat(path: &str) -> (Oid, Oid, Oid) {
    let repo = open_fresh(path);
    let one = repo.blob(b"one").unwrap();
    let one2 = repo.blob(b"one!").unwrap();
    let two = repo.blob(b"two").unwrap();
    let t0 = tree(&repo, &[("a", one, BLOB)]);
    let t1 = tree(&repo, &[("a", one, BLOB), ("b", two, BLOB)]);
    let t2 = tree(&repo, &[("a", one2, BLOB), ("b", two, BLOB)]);
    let c0 = commit(&repo, t0, None, "Ann", 1000, "start");
    let c1 = commit(&repo, t1, Some(c0), "Bob", 2000, "add b");
    let c2 = commit(&repo, t2, Some(c1), "Cyd", 3000, "change a\n\nmore words");
    set_master(&repo, c2);
    (c0, c1, c2)
}

#[test]
fn go_attributes_each_file_of_the_newest_tree() {
    let path = "/tmp/git_info_test_flat";
    let (_c0, c1, c2) = build_flat(path);
    let files = go(path.to_string(), None).unwrap();
    assert_eq!(files.len(), 2);
    assert_eq!(files[0].name, "a");
    assert_eq!(files[0].blob_type, "blob");
    assert_eq!(files[0].commit, c2.to_string());
    assert_eq!(files[0].author, "Cyd");
    assert_eq!(files[0].time, 3000);
    assert_eq!(files[0].msg, "change a");
    assert_eq!(files[1].name, "b");
    assert_eq!(files[1].commit, c1.to_string());
    assert_eq!(files[1].author, "Bob");
    assert_eq!(files[1].msg, "add b");
}

#[test]
fn go_attributes_content_unchanged_since_the_first_commit_to_that_commit() {
    let path = "/tmp/git_info_test_since_first";
    let repo = open_fresh(path);
    let one = repo.blob(b"one").unwrap();
    let two = repo.blob(b"two").unwrap();
    let t0 = tree(&repo, &[("a", one, BLOB)]);
    let t1 = tree(&repo, &[("a", one, BLOB), ("b", two, BLOB)]);
    let c0 = commit(&repo, t0, None, "Ann", 1000, "start");
    let c1 = commit(&repo, t1, Some(c0), "Bob", 2000, "add b");
    set_master(&repo, c1);
    let files = go(path.to_string(), None).unwrap();
    assert_eq!(files.len(), 2);
    assert_eq!(files[0].name, "a");
    assert_eq!(files[0].commit, c0.to_string());
    assert_eq!(files[0].author, "Ann");
    assert_eq!(files[0].msg, "start");
    assert_eq!(files[1].commit, c1.to_string());
}

#[test]
fn go_looks_one_level_down_for_a_given_tree() {
    let path = "/tmp/git_info_test_deep";
    let repo = open_fresh(path);
    let x = repo.blob(b"x").unwrap();
    let y = repo.blob(b"y").unwrap();
    let z = repo.blob(b"z").unwrap();
    let d0 = tree(&repo, &[("y", y, BLOB)]);
    let d1 = tree(&repo, &[("x", x, BLOB)]);
    let d2 = tree(&repo, &[("x", x, BLOB), ("z", z, BLOB)]);
    let r0 = tree(&repo, &[("dir", d0, DIR)]);
    let r1 = tree(&repo, &[("dir", d1, DIR)]);
    let r2 = tree(&repo, &[("dir", d2, DIR), ("top", y, BLOB)]);
    let c0 = commit(&repo, r0, None, "Ann", 1000, "zero");
    let c1 = commit(&repo, r1, Some(c0), "Bob", 2000, "one");
    let c2 = commit(&repo, r2, Some(c1), "Cyd", 3000, "two");
    set_master(&repo, c2);
    let files = go(path.to_string(), Some(d2.to_string())).unwrap();
    assert_eq!(files.len(), 2);
    assert_eq!(files[0].name, "x");
    assert_eq!(files[0].commit, c1.to_string());
    assert_eq!(files[0].author, "Bob");
    assert_eq!(files[1].name, "z");
    assert_eq!(files[1].commit, c2.to_string());
    assert_eq!(files[1].time, 3000);
}

#[test]
fn go_reports_an_invalid_tree_id() {
    let path = "/tmp/git_info_test_flat_invalid";
    build_flat(path);
    assert_eq!(go(path.to_string(), Some("VOID".to_string())).unwrap_err(), "Tree ID not valid oid");
}

#[test]
fn go_reports_an_unknown_tree_as_internal_error() {
    let path = "/tmp/git_info_test_flat_unknown";
    build_flat(path);
    let missing = "1".repeat(40);
    assert_eq!(go(path.to_string(), Some(missing)).unwrap_err(), "Internal Error");
}

#[test]
fn go_reports_a_missing_repository_as_internal_error() {
    assert_eq!(
        go("/tmp/git_info_test_no_such_repository/x".to_string(), None).unwrap_err(),
        "Internal Error"
    );
}

#[test]
fn get_file_list_lists_the_newest_tree_unattributed() {
    let path = "/tmp/git_info_test_list";
    let (_c0, _c1, _c2) = build_flat(path);
    let files = get_file_list(path).unwrap();
    assert_eq!(files.len(), 2);
    assert_eq!(files[0].name, "a");
    assert_eq!(files[1].name, "b");
    assert_eq!(files[1].commit, Oid::ZERO_SHA1.to_string());
    assert_eq!(files[1].author, "");
    assert_eq!(files[1].time, 0);
    assert!(get_file_list("/tmp/git_info_test_no_such_repository/y").is_none());
}

#[test]
fn check_truth() {
    let path = String::from("/tmp/git_info_test_truth");
    let (_c0, c1, c2) = build_flat(&path);
    let files = get_file_list(&path).unwrap();
    let attributed = go(path.clone(), None).unwrap();
    assert_eq!(files.len(), attributed.len());
    // What `git log -n 1 --pretty=format:%H%n%cn%n%cD%n%s -- <file>` prints
    // for each file of this history.
    let logs = [
        format!("{}\nCyd\nThu, 1 Jan 1970 00:50:00 +0000\nchange a", c2),
        format!("{}\nBob\nThu, 1 Jan 1970 00:33:20 +0000\nadd b", c1),
    ];
    for (i, file) in files.iter().enumerate() {
        let file_path = truth_path(file.name.clone(), &String::new());
        assert_eq!(file_path, file.name);
        let truth = parse_log(file.name.clone(), &logs[i]).unwrap();
        assert_eq!(truth.file, attributed[i].name);
        assert_eq!(truth.commit, attributed[i].commit);
        assert_eq!(truth.author, attributed[i].author);
        assert_eq!(truth.msg, attributed[i].msg);
    }
}

#[test]
fn go_in_answers_an_invalid_id_after_the_open() {
    let path = "/tmp/git_info_test_go_in";
    build_flat(path);
    let repo = Repository::open(path).unwrap();
    assert_eq!(go_in(repo, Some("VOID".to_string())).unwrap_err(), "Tree ID not valid oid");
    let repo = Repository::open(path).unwrap();
    let files = go_in(repo, None).unwrap();
    assert_eq!(files.len(), 2);
    assert_eq!(files[0].author, "Cyd");
}

#[test]
fn list_walk_searches_the_commits_it_is_given() {
    let path = "/tmp/git_info_test_list_walk";
    let (c0, c1, c2) = build_flat(path);
    let repo = Repository::open(path).unwrap();
    // Only the two oldest commits: the listing is that of `c1`'s tree.
    let ids = vec![c1.to_string(), c0.to_string()];
    let files = list_walk(&ids, None, &repo).unwrap();
    assert_eq!(files.len(), 2);
    assert_eq!(files[0].name, "a");
    assert_eq!(files[0].commit, c0.to_string());
    assert_eq!(files[1].commit, c1.to_string());
    let all = vec![c2.to_string(), c1.to_string(), c0.to_string()];
    let files = list_walk(&all, None, &repo).unwrap();
    assert_eq!(files[0].commit, c2.to_string());
    assert!(matches!(list_walk(&Vec::new(), None, &repo), Err(InfoError::Broken)));
}

#[test]
fn newest_files_lists_the_tree_of_the_first_id() {
    let path = "/tmp/git_info_test_newest";
    let (c0, c1, _c2) = build_flat(path);
    let repo = Repository::open(path).unwrap();
    let files = newest_files(&vec![c0.to_string(), c1.to_string()], &repo).unwrap();
    assert_eq!(files.len(), 1);
    assert_eq!(files[0].name, "a");
    assert!(newest_files(&Vec::new(), &repo).is_none());
    assert_eq!(newest_id(&vec!["x".to_string(), "y".to_string()]), Some("x".to_string()));
    assert_eq!(newest_id(&Vec::new()), None);
}
