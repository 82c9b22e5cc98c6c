use zstags::cli::{is_not_hidden, tags_line, TagMod};
use zstags::codec::{decode_payload, encode_payload, split_payload};
use zstags::config::split_fields;
use zstags::{
    add_tag, create_backend, delete_tag, get_absolute_path, normalize_path, AnyBackend, Backend,
    FoldOp, PersyBackend, Query, TagError, TagSet, XattrBackend,
};
use zstags::backend::{with_tag, without_tag};

fn set_of(tags: &[&str]) -> TagSet {
    let mut s = TagSet::new();
    for t in tags {
        s.insert(t.to_string());
    }
    s
}

fn same_set(s: &TagSet, tags: &[&str]) -> bool {
    s.len() == set_of(tags).len() && tags.iter().all(|t| s.contains(t))
}

#[test]
fn absolute_path_joins_relative_onto_current_dir() {
    assert_eq!(get_absolute_path("a/b", "/x"), "/x/a/b");
    assert_eq!(get_absolute_path("a/b", "/x/"), "/x/a/b");
    assert_eq!(get_absolute_path("../c", "/x/y"), "/x/c");
}

#[test]
fn absolute_path_cleans_absolute_input() {
    assert_eq!(get_absolute_path("/x/./y/../z", "/cur"), "/x/z");
    assert_eq!(get_absolute_path("//a///b/", "/cur"), "/a/b");
    assert_eq!(get_absolute_path("/..", "/cur"), "/");
}

#[test]
fn absolute_path_of_empty_is_current_dir() {
    assert_eq!(get_absolute_path("", "/cur/dir"), "/cur/dir");
    assert_eq!(get_absolute_path(".", "/cur/dir"), "/cur/dir");
}

#[test]
fn relative_path_of_same_path_is_empty() {
    let x = get_absolute_path("some/file", "/home/u");
    assert_eq!(normalize_path(&x, &x), "");
}

#[test]
fn relative_path_descends_and_ascends() {
    assert_eq!(normalize_path("/a/b/c", "/a"), "b/c");
    assert_eq!(normalize_path("/a", "/a/b/c"), "../..");
    assert_eq!(normalize_path("/a/x", "/a/b"), "../x");
}

#[test]
fn tag_set_insert_remove_contains() {
    let mut s = TagSet::new();
    assert!(s.is_empty());
    assert!(s.insert("red".to_string()));
    assert!(!s.insert("red".to_string()));
    assert!(s.insert("blue".to_string()));
    assert_eq!(s.len(), 2);
    assert!(s.contains("red"));
    assert!(!s.contains("green"));
    assert!(s.remove("red"));
    assert!(!s.remove("red"));
    assert_eq!(s.len(), 1);
    assert!(!s.contains("red"));
}

#[test]
fn tag_set_from_vec_drops_repeats() {
    let s = TagSet::from_vec(vec!["a".to_string(), "b".to_string(), "a".to_string()]);
    assert!(same_set(&s, &["a", "b"]));
    assert_eq!(s.items().len(), 2);
}

#[test]
fn add_tag_twice_is_adding_once() {
    let once = with_tag(set_of(&["x"]), "y".to_string());
    let twice = with_tag(with_tag(set_of(&["x"]), "y".to_string()), "y".to_string());
    assert!(same_set(&once, &["x", "y"]));
    assert!(same_set(&twice, &["x", "y"]));
}

#[test]
fn delete_absent_tag_leaves_set() {
    let s = without_tag(set_of(&["x", "y"]), "z");
    assert!(same_set(&s, &["x", "y"]));
    let t = without_tag(set_of(&["x", "y"]), "x");
    assert!(same_set(&t, &["y"]));
}

#[test]
fn query_one_of_two_tags() {
    let file = set_of(&["x"]);
    let q = |op| Query { foldop: op, tags: set_of(&["x", "y"]) };
    assert!(!q(FoldOp::And).matches_tags(&file));
    assert!(q(FoldOp::Or).matches_tags(&file));
    assert!(q(FoldOp::Xor).matches_tags(&file));
}

#[test]
fn query_both_tags() {
    let file = set_of(&["x", "y", "z"]);
    let q = |op| Query { foldop: op, tags: set_of(&["x", "y"]) };
    assert!(q(FoldOp::And).matches_tags(&file));
    assert!(q(FoldOp::Or).matches_tags(&file));
    assert!(!q(FoldOp::Xor).matches_tags(&file));
}

#[test]
fn query_no_tags_on_file() {
    let file = TagSet::new();
    let q = |op| Query { foldop: op, tags: set_of(&["x", "y"]) };
    assert!(!q(FoldOp::And).matches_tags(&file));
    assert!(!q(FoldOp::Or).matches_tags(&file));
    assert!(!q(FoldOp::Xor).matches_tags(&file));
}

#[test]
fn fold_op_words() {
    assert_eq!(FoldOp::parse("&"), Some(FoldOp::And));
    assert_eq!(FoldOp::parse("&&"), Some(FoldOp::And));
    assert_eq!(FoldOp::parse("|"), Some(FoldOp::Or));
    assert_eq!(FoldOp::parse("||"), Some(FoldOp::Or));
    assert_eq!(FoldOp::parse("^^"), Some(FoldOp::Xor));
    assert_eq!(FoldOp::parse("^"), Some(FoldOp::Xor));
    assert_eq!(FoldOp::parse("&|"), None);
    assert_eq!(FoldOp::parse("&&&"), None);
    assert_eq!(FoldOp::parse(""), None);
}

#[test]
fn payload_of_red_and_blue() {
    let bytes = XattrBackend::attr_for_tags(&set_of(&["red", "blue"])).unwrap();
    assert!(bytes == b"red|blue".to_vec() || bytes == b"blue|red".to_vec());
    assert_eq!(encode_payload(&set_of(&["solo"])), b"solo".to_vec());
}

#[test]
fn payload_for_no_tags_is_no_attribute() {
    assert!(XattrBackend::attr_for_tags(&TagSet::new()).is_none());
    let t = XattrBackend::tags_from_attr(None).unwrap();
    assert!(t.is_empty());
}

#[test]
fn payload_splits_on_bar_and_nul() {
    let t = decode_payload(&b"a|b\0c".to_vec()).unwrap();
    assert!(same_set(&t, &["a", "b", "c"]));
    let runs = split_payload(&b"ab||c".to_vec());
    assert_eq!(runs, vec![b"ab".to_vec(), vec![], b"c".to_vec()]);
    let empty = decode_payload(&Vec::new()).unwrap();
    assert!(same_set(&empty, &[""]));
}

#[test]
fn payload_round_trip() {
    let tags = set_of(&["red", "grün", "日本"]);
    let back = XattrBackend::tags_from_attr(XattrBackend::attr_for_tags(&tags)).unwrap();
    assert!(same_set(&back, &["red", "grün", "日本"]));
}

#[test]
fn payload_not_utf8_is_storage_error() {
    assert!(decode_payload(&vec![b'o', b'k', b'|', 0xff]).is_none());
    let e = XattrBackend::tags_from_attr(Some(vec![0xc3])).err().unwrap();
    assert!(matches!(e, TagError::Storage(_)));
}

#[test]
fn spec_fields_split_on_colons() {
    assert_eq!(split_fields("persy:db:dir:init"), vec!["persy", "db", "dir", "init"]);
    assert_eq!(split_fields("xattr"), vec!["xattr"]);
    assert_eq!(split_fields("a::b:"), vec!["a", "", "b", ""]);
}

#[test]
fn backend_spec_errors() {
    let config = |s: &str| matches!(create_backend(s, "/cur"), Err(TagError::Config(_)));
    assert!(config("nosuch"));
    assert!(config("xattr:extra"));
    assert!(config("persy"));
    assert!(config("persy:only_one"));
    assert!(config("persy:a:b:c:d"));
    assert!(config("persy:a:b:zap"));
    assert!(matches!(create_backend("xattr", "/cur"), Ok(AnyBackend::Xattr(_))));
}

#[test]
fn persy_new_rejects_bad_args() {
    assert!(matches!(PersyBackend::new(vec!["db"], "/cur"), Err(TagError::Config(_))));
    assert!(matches!(PersyBackend::new(vec!["db", "b", "nope"], "/cur"), Err(TagError::Config(_))));
}

#[test]
fn persy_rows_follow_set_tags() {
    let stamp = std::time::SystemTime::now()
        .duration_since(std::time::UNIX_EPOCH)
        .unwrap()
        .as_nanos();
    let db = format!("/tmp/zstags_rows_{}.persy", stamp);
    let spec = format!("persy:{}:/data:init", db);
    let mut b = match create_backend(&spec, "/data/sub") {
        Ok(b) => b,
        Err(e) => panic!("{:?}", e),
    };
    if let AnyBackend::Persy(p) = &b {
        assert_eq!(p.mangle_path("f.txt"), "sub/f.txt");
        assert_eq!(p.mangle_path("/data/g"), "g");
    }
    assert!(b.tags("f.txt").unwrap().is_empty());
    b.set_tags("f.txt", set_of(&["a", "b"])).unwrap();
    assert!(same_set(&b.tags("/data/sub/f.txt").unwrap(), &["a", "b"]));
    b.set_tags("f.txt", set_of(&["a"])).unwrap();
    assert!(same_set(&b.tags("f.txt").unwrap(), &["a"]));
    add_tag(&mut b, "f.txt", "c".to_string()).unwrap();
    add_tag(&mut b, "f.txt", "c".to_string()).unwrap();
    assert!(same_set(&b.tags("f.txt").unwrap(), &["a", "c"]));
    delete_tag(&mut b, "f.txt", "zz").unwrap();
    assert!(same_set(&b.tags("f.txt").unwrap(), &["a", "c"]));
    delete_tag(&mut b, "f.txt", "a").unwrap();
    assert!(same_set(&b.tags("f.txt").unwrap(), &["c"]));
    b.set_tags("f.txt", TagSet::new()).unwrap();
    assert!(b.tags("f.txt").unwrap().is_empty());
}

#[test]
fn hidden_entries_are_skipped_below_the_start() {
    assert!(is_not_hidden(".", 0));
    assert!(is_not_hidden(".hidden", 0));
    assert!(!is_not_hidden(".hidden", 1));
    assert!(is_not_hidden("seen", 3));
}

#[test]
fn tag_modifiers() {
    let mut tags = set_of(&["old"]);
    assert!(TagMod::parse("+new").unwrap().apply(&mut tags));
    assert!(!TagMod::parse("+new").unwrap().apply(&mut tags));
    assert!(TagMod::parse("-old").unwrap().apply(&mut tags));
    assert!(!TagMod::parse("-gone").unwrap().apply(&mut tags));
    assert!(same_set(&tags, &["new"]));
    assert!(TagMod::parse("+").is_none());
    assert!(TagMod::parse("x").is_none());
    assert!(TagMod::parse("*tag").is_none());
}

#[test]
fn tags_line_lists_each_tag() {
    assert_eq!(tags_line("old tags", &TagSet::new()), "old tags:");
    assert_eq!(tags_line("f", &set_of(&["a"])), "f: a");
    let two = tags_line("f", &set_of(&["a", "b"]));
    assert!(two == "f: a b" || two == "f: b a");
}

#[test]
fn unreadable_tags_select_nothing() {
    let q = Query { foldop: FoldOp::Or, tags: set_of(&["x"]) };
    assert!(!q.matches_read(&Err(TagError::Storage("broken".to_string()))));
    assert!(q.matches_read(&Ok(set_of(&["x", "z"]))));
    assert!(!q.matches_read(&Ok(set_of(&["z"]))));
}

#[test]
fn failed_removal_of_absent_attribute_is_benign() {
    let r = XattrBackend::removal_outcome("/f", "No data available", Ok(TagSet::new()));
    assert!(r.is_ok());
}

#[test]
fn failed_removal_with_tags_left_is_storage_error() {
    let r = XattrBackend::removal_outcome("/f", "denied", Ok(set_of(&["kept"])));
    match r {
        Err(TagError::Storage(m)) => assert_eq!(m, "zstags::XattrBackend::set_tags: /f: denied"),
        other => panic!("{:?}", other),
    }
}

#[test]
fn failed_removal_and_failed_reread_gives_read_error() {
    let r = XattrBackend::removal_outcome("/f", "denied", Err(TagError::Storage("unreadable".to_string())));
    match r {
        Err(TagError::Storage(m)) => assert_eq!(m, "unreadable"),
        other => panic!("{:?}", other),
    }
}
