use assert_fs::errors::{FixtureError, FixtureKind};
use assert_fs::fixture::{
    copy_files, create_dir_all, symlink_to_dir, symlink_to_file, touch, write_binary,
    write_file, write_str, ChildPath, EntryKind, FsOp, PathChild, PathExistingChild, WalkItem,
};
use assert_fs::paths::{join, parent, relative};
use assert_fs::sandbox::Sandbox;

fn plan_text(plan: &[FsOp]) -> Vec<String> {
    plan.iter().map(|op| format!("{:?}", op)).collect()
}

fn dir_op(p: &str) -> String {
    format!("{:?}", FsOp::CreateDirAll { path: p.to_string() })
}

fn entry(path: &str, kind: EntryKind) -> WalkItem {
    WalkItem::Entry { path: path.to_string(), kind }
}

#[test]
fn join_appends_with_one_separator() {
    assert_eq!(join("/tmp/x", "foo.txt"), "/tmp/x/foo.txt");
    assert_eq!(join("/tmp/x/", "foo.txt"), "/tmp/x/foo.txt");
    assert_eq!(join("", "foo.txt"), "foo.txt");
    assert_eq!(join("/tmp/x", "/etc/hosts"), "/etc/hosts");
    assert_eq!(join("/tmp/x", ""), "/tmp/x/");
}

#[test]
fn parent_drops_last_component() {
    assert_eq!(parent("a/b"), Some("a".to_string()));
    assert_eq!(parent("a/b/"), Some("a".to_string()));
    assert_eq!(parent("a//b"), Some("a".to_string()));
    assert_eq!(parent("a"), Some(String::new()));
    assert_eq!(parent("/a"), Some("/".to_string()));
    assert_eq!(parent("/"), None);
    assert_eq!(parent(""), None);
}

#[test]
fn relative_strips_ancestor() {
    assert_eq!(relative("/s/a/b.rs", "/s"), Some("a/b.rs".to_string()));
    assert_eq!(relative("/s", "/s"), Some(String::new()));
    assert_eq!(relative("/a.rs", "/"), Some("a.rs".to_string()));
    assert_eq!(relative("/sx/a.rs", "/s"), None);
    assert_eq!(relative("/t/a.rs", "/s"), None);
}

#[test]
fn child_path_round_trips() {
    let c = ChildPath::new("Cargo.toml");
    assert_eq!(c.path(), "Cargo.toml");
}

#[test]
fn child_resolves_against_parent() {
    let base = ChildPath::new("/tmp/x");
    assert_eq!(base.child("foo/bar.txt").path(), "/tmp/x/foo/bar.txt");
    assert_eq!(base.child("foo").child("bar.txt").path(), "/tmp/x/foo/bar.txt");
    assert_eq!(base.child("/abs").path(), "/abs");
}

#[test]
fn sandbox_child_resolves_against_root() {
    let temp = Sandbox::directory("/tmp/sb");
    assert_eq!(temp.child("foo.txt").path(), "/tmp/sb/foo.txt");
    let file = Sandbox::named_file("/tmp/sb", "foo.rs");
    assert_eq!(file.path(), "/tmp/sb/foo.rs");
    assert_eq!(file.dir(), "/tmp/sb");
}

#[test]
fn existing_child_touches_parent_and_file() {
    let temp = Sandbox::directory("/tmp/sb");
    let (child, plan) = temp.existing_child("sub/foo.txt");
    assert_eq!(child.path(), "/tmp/sb/sub/foo.txt");
    assert_eq!(
        plan_text(&plan),
        vec![
            dir_op("/tmp/sb/sub"),
            format!("{:?}", FsOp::Touch { path: "/tmp/sb/sub/foo.txt".to_string() }),
        ]
    );
    let (nested, plan) = child.existing_child("x");
    assert_eq!(nested.path(), "/tmp/sb/sub/foo.txt/x");
    assert_eq!(plan.len(), 2);
}

#[test]
fn touch_without_parent_creates_file_only() {
    let plan = touch("foo.txt");
    assert_eq!(
        plan_text(&plan),
        vec![format!("{:?}", FsOp::Touch { path: "foo.txt".to_string() })]
    );
}

#[test]
fn write_str_writes_utf8_bytes() {
    let plan = write_str("/t/d/x.txt", "Hello\nWorld! é");
    assert_eq!(plan.len(), 2);
    assert_eq!(format!("{:?}", plan[0]), dir_op("/t/d"));
    match &plan[1] {
        FsOp::WriteFile { path, data } => {
            assert_eq!(path, "/t/d/x.txt");
            assert_eq!(data.as_slice(), "Hello\nWorld! é".as_bytes());
        }
        other => panic!("unexpected step {:?}", other),
    }
}

#[test]
fn write_binary_writes_exact_bytes() {
    let plan = write_binary("/t/x.bin", &[0, 159, 146, 150]);
    match &plan[1] {
        FsOp::WriteFile { path, data } => {
            assert_eq!(path, "/t/x.bin");
            assert_eq!(data, &vec![0u8, 159, 146, 150]);
        }
        other => panic!("unexpected step {:?}", other),
    }
}

#[test]
fn write_file_copies_after_parent() {
    let plan = write_file("/t/d/x.toml", "Cargo.toml");
    assert_eq!(
        plan_text(&plan),
        vec![
            dir_op("/t/d"),
            format!(
                "{:?}",
                FsOp::CopyFile { from: "Cargo.toml".to_string(), to: "/t/d/x.toml".to_string() }
            ),
        ]
    );
}

#[test]
fn single_step_plans() {
    assert_eq!(plan_text(&create_dir_all("/t/sub")), vec![dir_op("/t/sub")]);
    assert_eq!(
        plan_text(&symlink_to_file("/t/link", "/t/real")),
        vec![format!(
            "{:?}",
            FsOp::SymlinkFile { link: "/t/link".to_string(), target: "/t/real".to_string() }
        )]
    );
    assert_eq!(
        plan_text(&symlink_to_dir("/t/link_dir", "/t/real_dir")),
        vec![format!(
            "{:?}",
            FsOp::SymlinkDir { link: "/t/link_dir".to_string(), target: "/t/real_dir".to_string() }
        )]
    );
}

#[test]
fn failed_steps_report_their_kind() {
    let cases = vec![
        (FsOp::CreateDirAll { path: "a".into() }, FixtureKind::CreateDir),
        (FsOp::Touch { path: "a".into() }, FixtureKind::WriteFile),
        (FsOp::WriteFile { path: "a".into(), data: vec![] }, FixtureKind::WriteFile),
        (FsOp::CopyFile { from: "a".into(), to: "b".into() }, FixtureKind::CopyFile),
        (FsOp::SymlinkFile { link: "a".into(), target: "b".into() }, FixtureKind::Symlink),
        (FsOp::SymlinkDir { link: "a".into(), target: "b".into() }, FixtureKind::Symlink),
    ];
    for (op, kind) in cases {
        let e = op.failed("denied".to_string());
        assert_eq!(e.kind(), kind);
        assert_eq!(e.cause(), Some("denied"));
    }
}

#[test]
fn copy_keeps_only_walked_entries() {
    let items = vec![entry("/s/a.rs", EntryKind::File)];
    let plan = copy_files("/t", &Ok("/s".to_string()), &items);
    assert!(plan.error.is_none());
    assert_eq!(
        plan_text(&plan.ops),
        vec![
            dir_op("/t"),
            format!("{:?}", FsOp::CopyFile { from: "/s/a.rs".into(), to: "/t/a.rs".into() }),
        ]
    );
}

#[test]
fn copy_recreates_directories_and_skips_special_files() {
    let items = vec![
        entry("/s/sub", EntryKind::Dir),
        entry("/s/sub/b.rs", EntryKind::File),
        entry("/s/dev", EntryKind::Other),
    ];
    let plan = copy_files("/t", &Ok("/s".to_string()), &items);
    assert!(plan.error.is_none());
    assert_eq!(
        plan_text(&plan.ops),
        vec![
            dir_op("/t/sub"),
            dir_op("/t/sub"),
            format!("{:?}", FsOp::CopyFile { from: "/s/sub/b.rs".into(), to: "/t/sub/b.rs".into() }),
        ]
    );
}

#[test]
fn copy_planned_twice_is_the_same_plan() {
    let items = vec![entry("/s/a.rs", EntryKind::File), entry("/s/d", EntryKind::Dir)];
    let first = copy_files("/t", &Ok("/s".to_string()), &items);
    let second = copy_files("/t", &Ok("/s".to_string()), &items);
    assert_eq!(plan_text(&first.ops), plan_text(&second.ops));
}

#[test]
fn copy_stops_at_walk_failure() {
    let items = vec![
        entry("/s/a.rs", EntryKind::File),
        WalkItem::Failed { cause: "permission denied".into() },
        entry("/s/b.rs", EntryKind::File),
    ];
    let plan = copy_files("/t", &Ok("/s".to_string()), &items);
    assert_eq!(plan.ops.len(), 2);
    let e = plan.error.expect("walk failure");
    assert_eq!(e.kind(), FixtureKind::Walk);
    assert_eq!(e.cause(), Some("permission denied"));
}

#[test]
fn copy_rejects_entry_outside_source() {
    let items = vec![entry("/elsewhere/a.rs", EntryKind::File)];
    let plan = copy_files("/t", &Ok("/s".to_string()), &items);
    assert!(plan.ops.is_empty());
    assert_eq!(plan.error.expect("outside").kind(), FixtureKind::Walk);
}

#[test]
fn copy_fails_when_source_cannot_be_resolved() {
    let plan = copy_files("/t", &Err("not found".to_string()), &vec![]);
    assert!(plan.ops.is_empty());
    let e = plan.error.expect("canonicalize failure");
    assert_eq!(e.kind(), FixtureKind::Walk);
    assert_eq!(e.cause(), Some("not found"));
}

#[test]
fn error_messages() {
    let e = FixtureError::new(FixtureKind::CreateDir);
    assert_eq!(e.kind(), FixtureKind::CreateDir);
    assert_eq!(e.cause(), None);
    assert_eq!(
        e.message(),
        "Failed to initialize fixture: Failed when creating a directory."
    );
    let e = e.chain("disk full".to_string());
    assert_eq!(
        e.message(),
        "Failed to initialize fixture: Failed when creating a directory.\nCause: disk full"
    );
    assert_eq!(FixtureKind::Walk.description(), "Failed when walking the source tree.");
    assert_eq!(FixtureKind::Symlink.description(), "Failed when symlinking to the target.");
    assert_eq!(FixtureKind::Cleanup.description(), "Failed to cleanup fixture.");
}

#[test]
fn close_of_removed_directory_is_cleanup_error() {
    let temp = Sandbox::directory("/tmp/gone");
    assert!(temp.needs_removal());
    let r = temp.close(Some(Err("No such file or directory".to_string())));
    let e = r.expect_err("removal failed");
    assert_eq!(e.kind(), FixtureKind::Cleanup);
    assert_eq!(e.cause(), Some("No such file or directory"));
}

#[test]
fn close_after_removal_succeeds() {
    let temp = Sandbox::directory("/tmp/ok");
    assert!(temp.close(Some(Ok(()))).is_ok());
}

#[test]
fn persisted_sandbox_closes_without_removal() {
    let temp = Sandbox::directory("/tmp/keep").into_persistent();
    assert!(temp.is_persisted());
    assert!(!temp.needs_removal());
    assert_eq!(temp.path(), "/tmp/keep");
    let temp = temp.into_persistent();
    assert!(temp.is_persisted());
    assert!(temp.close(Some(Err("ignored".to_string()))).is_ok());
}

#[test]
fn persist_if_is_conditional() {
    let temp = Sandbox::directory("/tmp/c").into_persistent_if(false);
    assert!(!temp.is_persisted());
    let temp = temp.into_persistent_if(true);
    assert!(temp.is_persisted());
    let temp = temp.into_persistent_if(false);
    assert!(temp.is_persisted());
}
