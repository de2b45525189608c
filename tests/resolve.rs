use symlinker::resolve::{plan, DestState, Event, FsOp};

fn s(x: &str) -> String {
    x.to_string()
}

#[test]
fn plan_for_absent_destination() {
    let p = plan(&DestState::Absent, &s("/src/a.txt"), &s("/out/a.txt"));
    assert_eq!(p.ops.len(), 2);
    assert!(matches!(&p.ops[0], FsOp::CreateParentDirs { path } if path == "/out/a.txt"));
    assert!(matches!(&p.ops[1], FsOp::Link { target, path } if target == "/src/a.txt" && path == "/out/a.txt"));
    assert_eq!(p.events.len(), 1);
    assert_eq!(p.events[0].message(), "Created symlink: /out/a.txt -> /src/a.txt");
}

#[test]
fn plan_replaces_stale_link() {
    let p = plan(&DestState::Symlink { target: s("/old/g") }, &s("/src/f"), &s("/out/f"));
    assert_eq!(p.ops.len(), 3);
    assert!(matches!(&p.ops[1], FsOp::RemoveLink { path } if path == "/out/f"));
    assert!(matches!(&p.ops[2], FsOp::Link { target, path } if target == "/src/f" && path == "/out/f"));
    assert_eq!(p.events.len(), 1);
    assert_eq!(p.events[0].message(), "Replaced existing symlink: /out/f -> /old/g, now -> /src/f");
}

#[test]
fn plan_moves_regular_file_aside() {
    let p = plan(&DestState::RegularFile, &s("/src/f.txt"), &s("/out/f.txt"));
    assert_eq!(p.ops.len(), 3);
    assert!(matches!(&p.ops[1], FsOp::MoveAside { from, to } if from == "/out/f.txt" && to == "/out/f.txt.conflict"));
    assert!(matches!(&p.ops[2], FsOp::Link { target, path } if target == "/src/f.txt" && path == "/out/f.txt"));
    assert_eq!(p.events.len(), 2);
    assert_eq!(p.events[0].message(), "Conflict: /out/f.txt already exists, moving to /out/f.txt.conflict");
    assert_eq!(p.events[1].message(), "Created symlink: /out/f.txt -> /src/f.txt");
}

#[test]
fn second_plan_on_own_link_is_a_replace() {
    let p = plan(&DestState::Symlink { target: s("/src/f") }, &s("/src/f"), &s("/out/f"));
    assert!(matches!(&p.events[0], Event::Replaced { old_target, new_target, .. } if old_target == new_target));
    assert!(matches!(&p.ops[2], FsOp::Link { target, .. } if target == "/src/f"));
}
