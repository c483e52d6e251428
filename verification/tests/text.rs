use git_info::oid::{clean_tree, object_id_text};
use git_info::text::{join_path, listing_path, parse_log, repo_path, split, split_on, tree_param, truth_path};

#[test]
fn split_ends_the_first_piece_with_a_slash() {
    assert_eq!(split("./repo/sub"), vec!["./", "repo", "sub"]);
    assert_eq!(split("repo"), vec!["repo/"]);
    assert_eq!(split(""), vec!["/"]);
    assert_eq!(split("a//b/"), vec!["a/", "", "b", ""]);
}

#[test]
fn split_on_keeps_empty_pieces() {
    assert_eq!(split_on("a\nb\n\nc", '\n'), vec!["a", "b", "", "c"]);
    assert_eq!(split_on("é/ü", '/'), vec!["é", "ü"]);
    let s = "x/yy//z";
    assert_eq!(split_on(s, '/').join("/"), s);
}

#[test]
fn clean_tree_reads_optional_ids() {
    assert!(matches!(clean_tree(None), Ok(None)));
    let ok = clean_tree(Some("072d563d59c2efa35488517a87284a37f2127ced".to_string())).unwrap().unwrap();
    assert_eq!(ok, "072d563d59c2efa35488517a87284a37f2127ced");
    assert_eq!(clean_tree(Some("ABC".to_string())).unwrap().unwrap(), format!("abc{}", "0".repeat(37)));
    assert_eq!(clean_tree(Some("VOID".to_string())).unwrap_err(), "Tree ID not valid oid");
    assert_eq!(clean_tree(Some(String::new())).unwrap_err(), "Tree ID not valid oid");
    assert_eq!(clean_tree(Some("0".repeat(41))).unwrap_err(), "Tree ID not valid oid");
}

#[test]
fn object_id_text_is_lower_case_and_padded() {
    assert_eq!(object_id_text(&"ABC".to_string()).unwrap(), format!("abc{}", "0".repeat(37)));
    assert_eq!(object_id_text(&"g".to_string()), None);
    assert_eq!(object_id_text(&"F".repeat(40)).unwrap(), "f".repeat(40));
}

#[test]
fn parse_log_wants_four_lines() {
    let c = parse_log("a.txt".to_string(), "abc\nAlice\nMon, 1 Jan 2018\nFix it").unwrap();
    assert_eq!(c.file, "a.txt");
    assert_eq!(c.commit, "abc");
    assert_eq!(c.author, "Alice");
    assert_eq!(c.time, "Mon, 1 Jan 2018");
    assert_eq!(c.msg, "Fix it");
    assert!(parse_log("a".to_string(), "abc\nAlice\nMon").is_err());
    assert!(parse_log("a".to_string(), "").is_err());
    assert!(parse_log("a".to_string(), "1\n2\n3\n4\n").is_err());
}

#[test]
fn truth_path_joins_parent_and_file() {
    assert_eq!(truth_path("f.rs".to_string(), &"src".to_string()), "src/f.rs");
    assert_eq!(truth_path("f.rs".to_string(), &String::new()), "f.rs");
}

#[test]
fn request_paths_and_parameters() {
    assert_eq!(tree_param("VOID".to_string()), None);
    assert_eq!(tree_param("abc".to_string()), Some("abc".to_string()));
    assert_eq!(join_path("/srv/git", "carlos"), "/srv/git/carlos");
    assert_eq!(repo_path("/srv/git/carlos", "tensorflow"), "/srv/git/carlos/tensorflow.git");
}

#[test]
fn listing_path_names_the_repository() {
    assert_eq!(listing_path("./a/b"), "./");
    assert_eq!(listing_path("../x"), "../");
    assert_eq!(listing_path("."), "./");
    assert_eq!(listing_path("/srv/repo"), "/srv/repo");
    assert_eq!(listing_path(""), "");
}
