use ui_host_runtime::patch::descend_existing;
use ui_host_runtime::{
    apply_vm_patch_ops, parse_index, parse_pointer, patch_changes_screen, remove_path, set_path,
    unescape_json_pointer_token, Json, JsonNumber, PatchError, PatchOp,
};

fn s(text: &str) -> Json {
    Json::Str(text.to_string())
}

fn n(v: u64) -> Json {
    Json::Number(JsonNumber::Unsigned(v))
}

fn obj(members: Vec<(&str, Json)>) -> Json {
    Json::Object(members.into_iter().map(|(k, v)| (k.to_string(), v)).collect())
}

#[test]
fn add_inserts_a_new_object_key() {
    let mut vm = obj(vec![("a", n(1))]);
    set_path(&mut vm, "/b", n(2), false).unwrap();
    assert_eq!(vm, obj(vec![("a", n(1)), ("b", n(2))]));
}

#[test]
fn add_overwrites_an_existing_key_in_place() {
    let mut vm = obj(vec![("a", n(1)), ("b", n(2))]);
    set_path(&mut vm, "/a", s("x"), false).unwrap();
    assert_eq!(vm, obj(vec![("a", s("x")), ("b", n(2))]));
}

#[test]
fn replace_on_missing_key_fails() {
    let mut vm = obj(vec![("a", n(1))]);
    assert_eq!(set_path(&mut vm, "/b", n(2), true), Err(PatchError::MissingPath));
    assert_eq!(vm, obj(vec![("a", n(1))]));
}

#[test]
fn replace_on_existing_key_overwrites() {
    let mut vm = obj(vec![("app", obj(vec![("title", s("X"))]))]);
    set_path(&mut vm, "/app/title", s("Y"), true).unwrap();
    assert_eq!(vm, obj(vec![("app", obj(vec![("title", s("Y"))]))]));
}

#[test]
fn remove_on_missing_key_fails() {
    let mut vm = obj(vec![("a", n(1))]);
    assert_eq!(remove_path(&mut vm, "/b"), Err(PatchError::MissingPath));
    assert_eq!(remove_path(&mut vm, "/x/y"), Err(PatchError::MissingPath));
    assert_eq!(vm, obj(vec![("a", n(1))]));
}

#[test]
fn remove_on_existing_key_deletes_it() {
    let mut vm = obj(vec![("a", n(1)), ("b", n(2)), ("c", n(3))]);
    remove_path(&mut vm, "/b").unwrap();
    assert_eq!(vm, obj(vec![("a", n(1)), ("c", n(3))]));
}

#[test]
fn add_creates_missing_intermediate_objects() {
    let mut vm = obj(vec![]);
    set_path(&mut vm, "/x/y/z", n(5), false).unwrap();
    assert_eq!(vm, obj(vec![("x", obj(vec![("y", obj(vec![("z", n(5))]))]))]));
}

#[test]
fn failed_replace_keeps_created_intermediates() {
    let mut vm = obj(vec![]);
    assert_eq!(set_path(&mut vm, "/x/y", n(5), true), Err(PatchError::MissingPath));
    assert_eq!(vm, obj(vec![("x", obj(vec![]))]));
}

#[test]
fn add_at_array_len_appends() {
    let mut vm = obj(vec![("items", Json::Array(vec![s("a"), s("b")]))]);
    set_path(&mut vm, "/items/2", s("c"), false).unwrap();
    assert_eq!(vm, obj(vec![("items", Json::Array(vec![s("a"), s("b"), s("c")]))]));
}

#[test]
fn add_inside_array_overwrites_element() {
    let mut vm = obj(vec![("items", Json::Array(vec![s("a"), s("b")]))]);
    set_path(&mut vm, "/items/0", s("z"), false).unwrap();
    assert_eq!(vm, obj(vec![("items", Json::Array(vec![s("z"), s("b")]))]));
}

#[test]
fn add_past_array_len_fails() {
    let mut vm = obj(vec![("items", Json::Array(vec![s("a"), s("b")]))]);
    assert_eq!(set_path(&mut vm, "/items/3", s("c"), false), Err(PatchError::IndexOutOfBounds));
    assert_eq!(set_path(&mut vm, "/items/x", s("c"), false), Err(PatchError::InvalidIndex));
    assert_eq!(set_path(&mut vm, "/items/-1", s("c"), false), Err(PatchError::InvalidIndex));
    assert_eq!(vm, obj(vec![("items", Json::Array(vec![s("a"), s("b")]))]));
}

#[test]
fn remove_inside_array_shifts_tail_left() {
    let mut vm = obj(vec![("items", Json::Array(vec![s("a"), s("b"), s("c")]))]);
    remove_path(&mut vm, "/items/0").unwrap();
    assert_eq!(vm, obj(vec![("items", Json::Array(vec![s("b"), s("c")]))]));
}

#[test]
fn remove_at_or_past_array_len_fails() {
    let mut vm = obj(vec![("items", Json::Array(vec![s("a"), s("b")]))]);
    assert!(remove_path(&mut vm, "/items/2").is_err());
    assert!(remove_path(&mut vm, "/items/5").is_err());
    let mut empty = obj(vec![("items", Json::Array(vec![]))]);
    assert!(remove_path(&mut empty, "/items/0").is_err());
    assert_eq!(vm, obj(vec![("items", Json::Array(vec![s("a"), s("b")]))]));
}

#[test]
fn escaped_slash_targets_key_with_slash() {
    let mut vm = obj(vec![]);
    set_path(&mut vm, "/a~1b", n(1), false).unwrap();
    assert_eq!(vm, obj(vec![("a/b", n(1))]));
}

#[test]
fn escaped_tilde_targets_key_with_tilde() {
    let mut vm = obj(vec![]);
    set_path(&mut vm, "/a~0b", n(1), false).unwrap();
    assert_eq!(vm, obj(vec![("a~b", n(1))]));
}

#[test]
fn bad_escape_fails() {
    let mut vm = obj(vec![]);
    assert_eq!(set_path(&mut vm, "/~x", n(1), false), Err(PatchError::InvalidEscape));
    assert_eq!(set_path(&mut vm, "/a~", n(1), false), Err(PatchError::TrailingTilde));
    assert_eq!(vm, obj(vec![]));
}

#[test]
fn empty_path_on_set_replaces_root() {
    let mut vm = obj(vec![("a", n(1))]);
    set_path(&mut vm, "", Json::Array(vec![n(3)]), true).unwrap();
    assert_eq!(vm, Json::Array(vec![n(3)]));
}

#[test]
fn empty_path_on_remove_resets_root() {
    let mut vm = obj(vec![("a", n(1))]);
    remove_path(&mut vm, "").unwrap();
    assert_eq!(vm, obj(vec![]));
}

#[test]
fn path_without_leading_slash_fails() {
    let mut vm = obj(vec![("a", n(1))]);
    assert_eq!(set_path(&mut vm, "a", n(2), false), Err(PatchError::InvalidPointer));
    assert_eq!(remove_path(&mut vm, "a"), Err(PatchError::InvalidPointer));
}

#[test]
fn set_on_scalar_parent_fails() {
    let mut vm = obj(vec![("a", n(1))]);
    assert_eq!(set_path(&mut vm, "/a/b", n(2), false), Err(PatchError::NotAContainer));
    assert_eq!(remove_path(&mut vm, "/a/b"), Err(PatchError::NotAContainer));
}

#[test]
fn pointer_tokens_are_split_and_unescaped() {
    assert_eq!(parse_pointer("").unwrap(), Vec::<String>::new());
    assert_eq!(parse_pointer("/").unwrap(), vec!["".to_string()]);
    assert_eq!(
        parse_pointer("/a~1b/c~0d/").unwrap(),
        vec!["a/b".to_string(), "c~d".to_string(), "".to_string()]
    );
    assert_eq!(parse_pointer("x"), Err(PatchError::InvalidPointer));
    assert_eq!(parse_pointer("/ok/~2"), Err(PatchError::InvalidEscape));
}

#[test]
fn unescape_handles_each_escape() {
    assert_eq!(unescape_json_pointer_token("~01").unwrap(), "~1");
    assert_eq!(unescape_json_pointer_token("~10").unwrap(), "/0");
    assert_eq!(unescape_json_pointer_token("plain").unwrap(), "plain");
    assert_eq!(unescape_json_pointer_token("~"), Err(PatchError::TrailingTilde));
    assert_eq!(unescape_json_pointer_token("a~b"), Err(PatchError::InvalidEscape));
}

#[test]
fn index_reads_decimal_within_bound() {
    assert_eq!(parse_index("0", 0), Ok(0));
    assert_eq!(parse_index("12", 12), Ok(12));
    assert_eq!(parse_index("+3", 5), Ok(3));
    assert_eq!(parse_index("007", 9), Ok(7));
    assert_eq!(parse_index("13", 12), Err(PatchError::IndexOutOfBounds));
    assert_eq!(parse_index("", 12), Err(PatchError::InvalidIndex));
    assert_eq!(parse_index("+", 12), Err(PatchError::InvalidIndex));
    assert_eq!(parse_index("1a", 12), Err(PatchError::InvalidIndex));
    assert_eq!(parse_index("99999999999999999999999", usize::MAX), Err(PatchError::InvalidIndex));
}

#[test]
fn descend_existing_reaches_array_elements() {
    let mut vm = obj(vec![("items", Json::Array(vec![s("a"), s("b")]))]);
    let items = descend_existing(&mut vm, "items").unwrap();
    let second = descend_existing(items, "1").unwrap();
    *second = s("z");
    assert_eq!(vm, obj(vec![("items", Json::Array(vec![s("a"), s("z")]))]));
    assert!(descend_existing(&mut vm, "missing").is_none());
}

#[test]
fn ops_apply_in_order_and_stop_at_first_failure() {
    let mut vm = obj(vec![("a", n(1))]);
    let ops = vec![
        PatchOp::Add { path: "/b".to_string(), value: n(2) },
        PatchOp::Replace { path: "/a".to_string(), value: n(10) },
        PatchOp::Remove { path: "/missing".to_string() },
        PatchOp::Add { path: "/c".to_string(), value: n(3) },
    ];
    assert_eq!(apply_vm_patch_ops(&mut vm, &ops), Err(PatchError::MissingPath));
    assert_eq!(vm, obj(vec![("a", n(10)), ("b", n(2))]));
}

#[test]
fn ops_all_succeed() {
    let mut vm = obj(vec![("list", Json::Array(vec![n(1), n(2), n(3)]))]);
    let ops = vec![
        PatchOp::Remove { path: "/list/1".to_string() },
        PatchOp::Add { path: "/list/2".to_string(), value: n(4) },
        PatchOp::Replace { path: "/list/0".to_string(), value: Json::Null },
    ];
    apply_vm_patch_ops(&mut vm, &ops).unwrap();
    assert_eq!(vm, obj(vec![("list", Json::Array(vec![Json::Null, n(3), n(4)]))]));
}

#[test]
fn screen_swap_is_detected_by_path() {
    let swap = vec![
        PatchOp::Replace { path: "/app/title".to_string(), value: s("Y") },
        PatchOp::Replace { path: "/screen/name".to_string(), value: s("devices") },
    ];
    let no_swap = vec![
        PatchOp::Replace { path: "/app/title".to_string(), value: s("Y") },
        PatchOp::Remove { path: "/screen/names".to_string() },
    ];
    assert!(patch_changes_screen(&swap));
    assert!(patch_changes_screen(&[PatchOp::Remove { path: "/screen/name".to_string() }]));
    assert!(!patch_changes_screen(&no_swap));
    assert!(!patch_changes_screen(&[]));
}
