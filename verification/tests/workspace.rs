use microbox::duration::Duration;
use microbox::launch::HostOs;
use microbox::request::ExecutionResult;
use microbox::workspace::{
    add_snapshot, copy_action, find_workspace, list_workspaces, new_record, plan_restore,
    render_workspace_list, render_workspace_record, render_workspace_run, restore_source, slugify, snapshot_note,
    summarize_run, touch, workspace_home, CopyAction, EntryKind, FileStep, WorkspaceRecord,
    WorkspaceSnapshotRecord, WorkspaceStore,
};
use std::collections::BTreeMap;

fn record(id: &str, name: &str, at: u64) -> WorkspaceRecord {
    WorkspaceRecord {
        id: id.to_string(),
        name: name.to_string(),
        source: None,
        root: format!("/h/workspaces/{id}/root"),
        created_at_unix: at,
        updated_at_unix: at,
        snapshots: vec![],
    }
}

/// Copies the files of one directory to another, as a copy of directories does.
fn copy_files(files: &mut BTreeMap<String, String>, from: &str, to: &str) {
    let found: Vec<(String, String)> = files
        .iter()
        .filter(|(path, _)| path.starts_with(&format!("{from}/")))
        .map(|(path, text)| (path[from.len() + 1..].to_string(), text.clone()))
        .collect();
    for (name, text) in found {
        if copy_action(&Some(name.clone()), EntryKind::File) == CopyAction::Copy {
            files.insert(format!("{to}/{name}"), text);
        }
    }
}

#[test]
fn slugify_normalizes_names() {
    assert_eq!(slugify("Demo Workspace!"), "demo-workspace");
    assert_eq!(slugify("  A__B  "), "a-b");
}

#[test]
fn slugs_are_their_own_slugs() {
    for name in ["Demo Workspace!", "  A__B  ", "--", "", "Ünï çödé 42", "a-b-c"] {
        let slug = slugify(name);
        assert_eq!(slugify(&slug), slug);
    }
    assert_eq!(slugify("--"), "");
    assert_eq!(slugify("Ünï çödé 42"), "n-d-42");
}

#[test]
fn slugs_keep_the_letters_in_order() {
    assert_eq!(slugify("Ab1"), "ab1");
    assert_eq!(slugify("A b..1"), "a-b-1");
    assert_eq!(slugify("!?"), "");
    assert_eq!(slugify("x"), "x");
}

#[test]
fn restores_clear_before_they_copy() {
    let mut w = record("a-1", "a", 1);
    w.snapshots.push(WorkspaceSnapshotRecord {
        name: "s".to_string(),
        created_at_unix: 2,
        path: "/p/s-2".to_string(),
    });
    let steps = plan_restore(&w, "s").unwrap();
    assert_eq!(steps.len(), 2);
    assert!(matches!(&steps[0], FileStep::Clear(dir) if dir == &w.root));
    assert!(
        matches!(&steps[1], FileStep::Copy { from, to } if from == "/p/s-2" && to == &w.root)
    );
    assert_eq!(
        plan_restore(&w, "t").unwrap_err().message(),
        "policy error: snapshot not found: t"
    );
}

#[test]
fn workspace_lifecycle_roundtrip() {
    let mut files: BTreeMap<String, String> = BTreeMap::new();
    files.insert("/base/source/hello.txt".to_string(), "hello from source".to_string());

    let store = WorkspaceStore::new("/base/home".to_string(), HostOs::Linux);
    let plan = store.plan_create(&vec![], "demo", "/base/source", true, 100).unwrap();
    copy_files(&mut files, "/base/source", &plan.root);
    let workspace = new_record(plan, "demo".to_string(), "/base/source".to_string(), 100);
    assert!(files.contains_key(&format!("{}/hello.txt", workspace.root)));

    let hello = format!("{}/hello.txt", workspace.root);
    files.insert(hello.clone(), "mutated".to_string());
    let path = store.plan_snapshot(&workspace, &workspace.id, "snap1", 200).unwrap();
    assert_eq!(path, "/base/home/workspaces/demo-100/snapshots/snap1-200");
    copy_files(&mut files, &workspace.root, &path);
    let snapshot = WorkspaceSnapshotRecord { name: "snap1".to_string(), created_at_unix: 200, path };
    let workspace = add_snapshot(workspace, snapshot, 201);
    files.insert(hello.clone(), "changed again".to_string());
    let added = format!("{}/added.txt", workspace.root);
    files.insert(added.clone(), "new".to_string());
    for step in plan_restore(&workspace, "snap1").unwrap() {
        match step {
            FileStep::Clear(dir) => files.retain(|path, _| !path.starts_with(&format!("{dir}/"))),
            FileStep::Copy { from, to } => copy_files(&mut files, &from, &to),
        }
    }
    assert!(!files.contains_key(&added));
    let workspace = touch(workspace, 300);

    assert_eq!(files[&hello], "mutated");
    assert_eq!(workspace.snapshots.len(), 1);
    assert_eq!(workspace.snapshots[0].name, "snap1");
    assert_eq!(workspace.updated_at_unix, 300);
    assert_eq!(workspace.created_at_unix, 100);
}

#[test]
fn workspaces_stand_under_the_home() {
    let store = WorkspaceStore::new("/h".to_string(), HostOs::Linux);
    assert_eq!(store.workspaces_dir(), "/h/workspaces");
    assert_eq!(store.workspace_dir("x"), "/h/workspaces/x");
    assert_eq!(store.workspace_root("x"), "/h/workspaces/x/root");
    assert_eq!(store.snapshots_dir("x"), "/h/workspaces/x/snapshots");
    assert_eq!(store.runs_dir("x"), "/h/workspaces/x/runs");
    assert_eq!(store.metadata_path("x"), "/h/workspaces/x/workspace.json");
    assert_eq!(store.run_record_path("x", 7), "/h/workspaces/x/runs/run-7.json");
}

#[test]
fn homes_are_chosen_in_order() {
    let some = |s: &str| Some(s.to_string());
    let none = None;
    assert_eq!(workspace_home(HostOs::Linux, &some("n"), &some("m"), &some("/h"), &none, &none), "n");
    assert_eq!(workspace_home(HostOs::Linux, &none, &some("m"), &some("/h"), &none, &none), "m");
    assert_eq!(workspace_home(HostOs::Linux, &none, &some(" \t"), &some("/h"), &none, &none), "/h/.microbox");
    assert_eq!(workspace_home(HostOs::Linux, &none, &none, &some(""), &some("/p"), &none), "/p/.microbox");
    assert_eq!(workspace_home(HostOs::Linux, &none, &none, &none, &none, &some("/c")), "/c/.microbox");
    assert_eq!(workspace_home(HostOs::Linux, &none, &none, &none, &none, &none), "./.microbox");
}

#[test]
fn workspaces_that_cannot_be_made() {
    let store = WorkspaceStore::new("/h".to_string(), HostOs::Linux);
    let existing = vec![record("demo-1", "demo", 1)];
    assert_eq!(
        store.plan_create(&existing, "demo", "/nowhere", false, 2).unwrap_err().message(),
        "io error: source directory does not exist: /nowhere"
    );
    assert_eq!(
        store.plan_create(&existing, "demo", "/src", true, 2).unwrap_err().message(),
        "policy error: workspace name already exists: demo"
    );
    assert_eq!(store.plan_create(&existing, "demo-1", "/src", true, 2).unwrap().id, "demo-1-2");
}

#[test]
fn workspaces_are_listed_by_age() {
    let listed = list_workspaces(vec![
        record("c", "c", 3),
        record("a1", "a1", 1),
        record("b", "b", 2),
        record("a2", "a2", 1),
    ]);
    let ids: Vec<&str> = listed.iter().map(|w| w.id.as_str()).collect();
    assert_eq!(ids, vec!["a1", "a2", "b", "c"]);
}

#[test]
fn workspaces_are_found_by_name_or_id() {
    let all = || vec![record("one-1", "one", 1), record("two-2", "two", 2), record("x", "one", 3)];
    assert_eq!(find_workspace(all(), "two").unwrap().id, "two-2");
    assert_eq!(find_workspace(all(), "one-1").unwrap().id, "one-1");
    assert_eq!(
        find_workspace(all(), "one").unwrap_err().message(),
        "policy error: workspace name is ambiguous: one"
    );
    assert_eq!(
        find_workspace(all(), "three").unwrap_err().message(),
        "policy error: workspace not found: three"
    );
}

#[test]
fn snapshots_keep_their_names() {
    let store = WorkspaceStore::new("/h".to_string(), HostOs::Linux);
    let first = WorkspaceSnapshotRecord {
        name: "s".to_string(),
        created_at_unix: 5,
        path: "/p/s-5".to_string(),
    };
    let second = WorkspaceSnapshotRecord {
        name: "t".to_string(),
        created_at_unix: 6,
        path: "/p/t-6".to_string(),
    };
    let w = add_snapshot(add_snapshot(record("x", "x", 1), first, 5), second, 6);
    assert_eq!(restore_source(&w, "s").unwrap(), "/p/s-5");
    assert_eq!(restore_source(&w, "t").unwrap(), "/p/t-6");
    assert_eq!(
        restore_source(&w, "u").unwrap_err().message(),
        "policy error: snapshot not found: u"
    );
    assert_eq!(
        store.plan_snapshot(&w, "x", "t", 9).unwrap_err().message(),
        "policy error: snapshot already exists: t"
    );
}

#[test]
fn entries_of_tools_are_not_copied() {
    let action = |name: &str, kind| copy_action(&Some(name.to_string()), kind);
    for name in [".microbox", ".git", "target"] {
        assert_eq!(action(name, EntryKind::Directory), CopyAction::Skip);
        assert_eq!(action(name, EntryKind::File), CopyAction::Skip);
    }
    assert_eq!(action(".gitignore", EntryKind::File), CopyAction::Copy);
    assert_eq!(action("src", EntryKind::Directory), CopyAction::Descend);
    assert_eq!(action("link", EntryKind::Other), CopyAction::Skip);
    assert_eq!(copy_action(&None, EntryKind::File), CopyAction::Copy);
}

#[test]
fn workspaces_are_told() {
    let mut w = record("demo-1", "demo", 1);
    assert_eq!(
        render_workspace_record(&w, "initialized", "source imported"),
        "MicroBox workspace initialized\nid = demo-1\nname = demo\n\
         root = /h/workspaces/demo-1/root\nsource = -\ncreated_at_unix = 1\n\
         updated_at_unix = 1\nsnapshot_count = 0\nnote = source imported"
    );
    w.source = Some("/src".to_string());
    w.snapshots.push(WorkspaceSnapshotRecord {
        name: "s".to_string(),
        created_at_unix: 2,
        path: "/p".to_string(),
    });
    let told = render_workspace_record(&w, "restore", &snapshot_note("s", true));
    assert!(told.contains("\nsource = /src\n"));
    assert!(told.ends_with("snapshot_count = 1\nnote = snapshot s restored\nsnapshots:\n  - s @ /p"));
    assert_eq!(snapshot_note("s", false), "snapshot s created");
    assert_eq!(
        render_workspace_list("/h", &vec![w]),
        "MicroBox workspaces\nhome = /h\n\
         - demo (demo-1) snapshots=1 root=/h/workspaces/demo-1/root"
    );
    assert_eq!(
        render_workspace_list("/h", &vec![]),
        "MicroBox workspaces\nhome = /h\nno workspaces found"
    );
}

#[test]
fn runs_in_workspaces_are_told() {
    let result = ExecutionResult {
        status: Some(-3),
        stdout: "x".to_string(),
        stderr: String::new(),
        duration: Duration::from_micros(12_999),
        timed_out: false,
    };
    let summary = summarize_run("echo hi".to_string(), &result);
    assert_eq!(
        render_workspace_run("demo", &summary),
        "\nworkspace = demo\ncommand = echo hi\nexit_code = -3\nduration_ms = 12\n\
         timed_out = false"
    );
}
