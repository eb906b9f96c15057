use assert_fs::assertion::{
    explain_failure, render, BytesContentPathPredicate, Case, ConvertedPredicate,
    IntoPathPredicate, PathPredicate, PathState, Product, StrContentPathPredicate,
    StrPathPredicate, StrPredicate,
};

fn file(path: &str, content: &[u8]) -> PathState {
    PathState {
        path: path.to_string(),
        exists: true,
        is_file: true,
        is_dir: false,
        is_symlink: false,
        content: Ok(content.to_vec()),
    }
}

fn missing(path: &str) -> PathState {
    PathState {
        path: path.to_string(),
        exists: false,
        is_file: false,
        is_dir: false,
        is_symlink: false,
        content: Err("No such file or directory".to_string()),
    }
}

fn dir_link(path: &str) -> PathState {
    PathState {
        path: path.to_string(),
        exists: true,
        is_file: false,
        is_dir: true,
        is_symlink: true,
        content: Err("Is a directory".to_string()),
    }
}

#[test]
fn into_path_from_pred() {
    let pred = ConvertedPredicate::Path(PathPredicate::Exists).into_path();
    let case = pred.find_case(false, &file("hello.md", b""));
    assert!(case.is_none());
}

#[test]
fn into_path_from_bytes() {
    let pred = (b"hello\n" as &[u8]).into_path();
    let case = pred.find_case(false, &file("tests/fixture/hello.txt", b"hello\n"));
    assert!(case.is_none());
}

#[test]
fn into_path_from_str() {
    let pred = "hello\n".into_path();
    let case = pred.find_case(false, &file("tests/fixture/hello.txt", b"hello\n"));
    assert!(case.is_none());
}

#[test]
fn into_path_from_owned_values() {
    let st = file("x", b"abc");
    assert!(vec![b'a', b'b', b'c'].into_path().eval(&st));
    assert!(String::from("abc").into_path().eval(&st));
    assert!((&String::from("abc")).into_path().eval(&st));
    assert!(!(&String::from("ab")).into_path().eval(&st));
    assert!(StrPredicate::Contains("b".to_string()).into_path().eval(&st));
    let converted = ConvertedPredicate::Str(StrContentPathPredicate::new("abc"));
    assert!(converted.into_path().eval(&st));
}

#[test]
fn code_example() {
    let input_file = file("/tmp/sb/foo.txt", b"");
    assert!(explain_failure(&"".into_path(), &input_file).is_none());
    let bar = missing("/tmp/sb/bar.txt");
    assert!(explain_failure(&PathPredicate::Missing.into_path(), &bar).is_none());
}

#[test]
fn verify_failure_output() {
    let st = file("Cargo.toml", b"[package]\nname = \"x\"\n");
    let msg = explain_failure(&"Not real content".into_path(), &st).expect("mismatch");
    assert!(msg.starts_with("Unexpected file, failed file content == expected text\n"));
    assert!(msg.contains("  var: Cargo.toml\n"));
    assert!(msg.contains("+Not real content"));
    assert!(msg.contains("-[package]"));
    assert!(msg.ends_with("path=Cargo.toml"));
}

#[test]
fn bytes_round_trip() {
    let data: &[u8] = &[0, 1, 2, 255];
    let st = file("/t/x.bin", data);
    let pred = BytesContentPathPredicate::new(data);
    assert!(pred.eval(&st));
    assert!(pred.find_case(false, &st).is_none());
    assert!(pred.find_case(true, &st).is_some());
    let other = BytesContentPathPredicate::new(&[0, 1, 2]);
    assert!(!other.eval(&st));
    let msg = explain_failure(&ConvertedPredicate::Bytes(other), &st).expect("mismatch");
    assert!(msg.contains("expected: [0, 1, 2]\n"));
    assert!(msg.contains("actual: [0, 1, 2, 255]\n"));
}

#[test]
fn empty_bytes_match_empty_file() {
    let st = file("/t/empty", b"");
    assert!(BytesContentPathPredicate::new(b"").eval(&st));
    assert!(!BytesContentPathPredicate::new(b"x").eval(&st));
}

#[test]
fn hello_world_scenario() {
    let st = file("/tmp/sb/foo.txt", b"Hello\nWorld!");
    assert!(explain_failure(&"Hello\nWorld!".into_path(), &st).is_none());
    let msg = explain_failure(&"Goodbye\nWorld!".into_path(), &st).expect("mismatch");
    assert!(msg.contains("diff"));
    assert!(msg.contains("-Hello"));
    assert!(msg.contains("+Goodbye"));
    assert!(msg.find("-Hello") < msg.find("+Goodbye"));
    assert!(!msg.contains("-World!"));
    assert!(msg.ends_with("path=/tmp/sb/foo.txt"));
}

#[test]
fn text_round_trip_with_non_ascii() {
    let text = "héllo wörld ✓\nzweite Zeile";
    let st = file("/t/u.txt", text.as_bytes());
    let pred = StrContentPathPredicate::new(text);
    assert!(pred.eval(&st));
    assert!(pred.find_case(false, &st).is_none());
    let found = pred.find_case(true, &st).expect("holds");
    assert_eq!(found.products.len(), 1);
    assert!(!StrContentPathPredicate::new("héllo").eval(&st));
}

#[test]
fn invalid_utf8_fails_text_assertions() {
    let st = file("/t/bin", &[0xff, 0xfe, 0x41]);
    assert!(!StrContentPathPredicate::new("A").eval(&st));
    assert!(!StrPathPredicate::new(StrPredicate::Contains("A".to_string())).eval(&st));
    let msg = explain_failure(&"A".into_path(), &st).expect("invalid");
    assert!(msg.contains("error: invalid UTF-8\n"));
    let msg = explain_failure(&StrPredicate::IsEmpty.into_path(), &st).expect("invalid");
    assert!(msg.contains("error: invalid UTF-8\n"));
    assert!(BytesContentPathPredicate::new(&[0xff, 0xfe, 0x41]).eval(&st));
}

#[test]
fn unreadable_content_fails_content_assertions() {
    let st = missing("/t/none");
    assert!(!BytesContentPathPredicate::new(b"").eval(&st));
    assert!(!StrContentPathPredicate::new("").eval(&st));
    let msg = explain_failure(&"".into_path(), &st).expect("unreadable");
    assert!(msg.contains("error: No such file or directory\n"));
}

#[test]
fn touch_then_exists() {
    let touched = file("/t/foo.txt", b"");
    assert!(PathPredicate::Exists.eval(&touched));
    assert!(PathPredicate::IsFile.eval(&touched));
    assert!(!PathPredicate::Missing.eval(&touched));
    let sibling = missing("/t/bar.txt");
    assert!(PathPredicate::Missing.eval(&sibling));
    let msg = explain_failure(&PathPredicate::Exists.into_path(), &sibling).expect("missing");
    assert_eq!(msg, "Unexpected file, failed var.exists()\n  var: /t/bar.txt\npath=/t/bar.txt");
}

#[test]
fn symlink_to_dir_is_a_directory() {
    let st = dir_link("/t/link_dir");
    assert!(PathPredicate::IsDir.eval(&st));
    assert!(PathPredicate::Exists.eval(&st));
    assert!(PathPredicate::IsSymlink.eval(&st));
    assert!(!PathPredicate::IsFile.eval(&st));
}

#[test]
fn text_predicates() {
    let st = file("/t/a", b"To be or not to be");
    assert!(StrPathPredicate::new(StrPredicate::Contains("not".into())).eval(&st));
    assert!(!StrPathPredicate::new(StrPredicate::Contains("nope".into())).eval(&st));
    assert!(StrPathPredicate::new(StrPredicate::Contains(String::new())).eval(&st));
    assert!(StrPathPredicate::new(StrPredicate::StartsWith("To be".into())).eval(&st));
    assert!(!StrPathPredicate::new(StrPredicate::StartsWith("be".into())).eval(&st));
    assert!(StrPathPredicate::new(StrPredicate::EndsWith("to be".into())).eval(&st));
    assert!(!StrPathPredicate::new(StrPredicate::EndsWith("To be or not to be!".into())).eval(&st));
    assert!(!StrPathPredicate::new(StrPredicate::IsEmpty).eval(&st));
    assert!(StrPathPredicate::new(StrPredicate::IsEmpty).eval(&file("/t/e", b"")));
}

#[test]
fn text_predicate_failure_nests_child_case() {
    let st = file("/t/a", b"abc");
    let pred = StrPathPredicate::new(StrPredicate::Contains("z".into()));
    let case = pred.find_case(false, &st).expect("fails");
    assert_eq!(case.predicate, "file content as text");
    assert_eq!(case.children.len(), 1);
    assert_eq!(case.children[0].predicate, "var.contains(z)");
    assert_eq!(
        render(&case),
        "file content as text\n  var: /t/a\n  var.contains(z)\n    var: abc\n"
    );
}

#[test]
fn render_lists_products_then_children() {
    let case = Case {
        predicate: "p".to_string(),
        result: false,
        products: vec![
            Product { name: "a".to_string(), value: "1".to_string() },
            Product { name: "b".to_string(), value: "2".to_string() },
        ],
        children: vec![Case {
            predicate: "q".to_string(),
            result: false,
            products: vec![],
            children: vec![],
        }],
    };
    assert_eq!(render(&case), "p\n  a: 1\n  b: 2\n  q\n");
}

#[test]
fn descriptions() {
    assert_eq!(PathPredicate::Missing.description(), "!var.exists()");
    assert_eq!(PathPredicate::IsDir.description(), "var.is_dir()");
    assert_eq!(StrPredicate::StartsWith("x".into()).description(), "var.starts_with(x)");
    assert_eq!(StrPredicate::IsEmpty.description(), "var.is_empty()");
}

#[test]
fn text_case_carries_given_diff() {
    let st = file("/t/a", b"x");
    let case = assert_fs::assertion::text_case(&st, false, Some("-a\n+b\n".to_string()));
    assert_eq!(case.predicate, "file content == expected text");
    assert_eq!(case.products.len(), 2);
    assert_eq!(case.products[1].name, "diff");
    assert_eq!(case.products[1].value, "-a\n+b\n");
    let same = assert_fs::assertion::text_case(&st, true, None);
    assert_eq!(same.products.len(), 1);
    assert!(same.result);
}

#[test]
fn bytes_case_carries_given_renderings() {
    let st = file("/t/a", b"x");
    let case = assert_fs::assertion::bytes_case(&st, false, "[1]".to_string(), "[2]".to_string());
    assert_eq!(render(&case), "file content == expected bytes\n  var: /t/a\n  expected: [1]\n  actual: [2]\n");
}

#[test]
fn bytes_render_as_debug_does() {
    let bytes: &[u8] = &[0, 9, 10, 99, 100, 255];
    assert_eq!(assert_fs::assertion::render_bytes(bytes), format!("{:?}", bytes));
    assert_eq!(assert_fs::assertion::render_bytes(bytes), "[0, 9, 10, 99, 100, 255]");
    assert_eq!(assert_fs::assertion::render_bytes(&[]), "[]");
}
