use synchronize_backup::partial::{
    plan_synchronization, steps, Action, Entry, ErrorKind, Observation, Operation, Step, SyncError,
    Target,
};

const SRC: &str = "/tmp/t/foo";
const DST: &str = "/tmp/t/bar";

fn obs(src: Option<Target>, dst: Entry) -> Observation {
    Observation { src, dst }
}

fn plan(
    src_prefix: Option<Target>,
    dst_prefix: Option<Target>,
    subpaths: &[&str],
    observations: Vec<Observation>,
) -> Result<Vec<Action>, SyncError> {
    let subpaths: Vec<String> = subpaths.iter().map(|s| s.to_string()).collect();
    plan_synchronization(SRC, DST, src_prefix, dst_prefix, &subpaths, &observations)
}

fn plan_in_directories(subpaths: &[&str], observations: Vec<Observation>) -> Result<Vec<Action>, SyncError> {
    plan(Some(Target::Directory), Some(Target::Directory), subpaths, observations)
}

fn all_steps(actions: &[Action]) -> Vec<Step> {
    actions.iter().flat_map(steps).collect()
}

fn check_err_contains(result: Result<Vec<Action>, SyncError>, expected: &str) -> SyncError {
    match result {
        Ok(_) => panic!("expected an error containing {expected:?}"),
        Err(e) => {
            let message = e.message();
            assert!(message.contains(expected), "{message:?} does not contain {expected:?}");
            e
        }
    }
}

fn mirror(src: &str, dst: &str) -> Step {
    Step::MirrorDirectory(src.to_string(), dst.to_string())
}

fn mirrors(steps: &[Step]) -> Vec<(String, String)> {
    steps
        .iter()
        .filter_map(|s| match s {
            Step::MirrorDirectory(a, b) => Some((a.clone(), b.clone())),
            _ => None,
        })
        .collect()
}

fn touched(steps: &[Step]) -> Vec<String> {
    steps
        .iter()
        .map(|s| match s {
            Step::RemoveFile(p) | Step::RemoveDirectory(p) => p.clone(),
            Step::MirrorDirectory(_, d) | Step::CopyFile(_, d) => d.clone(),
        })
        .collect()
}

// bar -> bay -> baz, baz/colors a file; foo -> for -> fox, fox/colors -> things -> words/.
#[test]
fn replace_a_file_with_a_directory_and_there_are_symlinks_to_symlinks() {
    let actions =
        plan_in_directories(&["colors"], vec![obs(Some(Target::Directory), Entry::File)]).unwrap();
    assert_eq!(actions.len(), 1);
    assert_eq!(actions[0].operation, Operation::RemoveDestFileAndCopyDir);
    let steps = all_steps(&actions);
    assert_eq!(steps.len(), 2);
    assert!(matches!(&steps[0], Step::RemoveFile(p) if p == "/tmp/t/bar/colors"));
    assert_eq!(mirrors(&steps), vec![("/tmp/t/foo/colors/".to_string(), "/tmp/t/bar/colors".to_string())]);
}

#[test]
fn subpath_with_an_ending_slash() {
    let actions =
        plan_in_directories(&["colors/"], vec![obs(Some(Target::Directory), Entry::Absent)]).unwrap();
    assert_eq!(actions[0].operation, Operation::SynchronizeDir);
    assert_eq!(actions[0].src_path, "/tmp/t/foo/colors/");
    assert_eq!(actions[0].dst_path, "/tmp/t/bar/colors/");
    assert_eq!(mirrors(&all_steps(&actions)), vec![(
        "/tmp/t/foo/colors/".to_string(),
        "/tmp/t/bar/colors/".to_string()
    )]);
}

#[test]
fn no_subpath() {
    let actions = plan_in_directories(&[], vec![]).unwrap();
    assert!(actions.is_empty());
    assert!(all_steps(&actions).is_empty());
}

#[test]
fn subpath_is_empty() {
    let actions =
        plan_in_directories(&[""], vec![obs(Some(Target::Directory), Entry::Directory)]).unwrap();
    assert_eq!(actions[0].operation, Operation::SynchronizeDir);
    let steps = all_steps(&actions);
    assert_eq!(steps.len(), 1);
    assert!(matches!(&steps[0], Step::MirrorDirectory(s, d) if s == "/tmp/t/foo/" && d == "/tmp/t/bar/"));
}

#[test]
fn subpath_is_point() {
    let actions =
        plan_in_directories(&["."], vec![obs(Some(Target::Directory), Entry::Directory)]).unwrap();
    let steps = all_steps(&actions);
    assert_eq!(steps.len(), 1);
    assert!(matches!(&steps[0], Step::MirrorDirectory(s, d) if s == "/tmp/t/foo/./" && d == "/tmp/t/bar/."));
}

#[test]
fn fail_if_src_prefix_path_does_not_exist() {
    let e = check_err_contains(plan(None, Some(Target::Directory), &[], vec![]), "failed to read metadata");
    assert_eq!(e.kind, ErrorKind::MetadataUnreadable);
    assert_eq!(e.path, SRC);
}

#[test]
fn fail_if_dst_prefix_path_does_not_exist() {
    let e = check_err_contains(plan(Some(Target::Directory), None, &[], vec![]), "failed to read metadata");
    assert_eq!(e.path, DST);
}

#[test]
fn fail_if_src_prefix_path_is_a_file() {
    let e = check_err_contains(
        plan(Some(Target::File), Some(Target::Directory), &[], vec![]),
        "is not a directory",
    );
    assert_eq!(e.kind, ErrorKind::NotADirectory);
    assert_eq!(e.path, SRC);
}

#[test]
fn fail_if_dst_prefix_path_is_a_file() {
    let e = check_err_contains(
        plan(Some(Target::Directory), Some(Target::File), &[], vec![]),
        "is not a directory",
    );
    assert_eq!(e.path, DST);
}

// foo -> fox, a file.
#[test]
fn fail_if_src_prefix_path_is_a_symlink_to_a_file() {
    check_err_contains(plan(Some(Target::File), Some(Target::Directory), &[], vec![]), "is not a directory");
}

// bar -> baz, a file.
#[test]
fn fail_if_dst_prefix_path_is_a_symlink_to_a_file() {
    check_err_contains(plan(Some(Target::Directory), Some(Target::File), &[], vec![]), "is not a directory");
}

// foo -> fox -> non_existent_path.
#[test]
fn fail_if_src_prefix_path_is_a_broken_symlink() {
    check_err_contains(plan(None, Some(Target::Directory), &[], vec![]), "failed to read metadata");
}

// bar -> baz -> non_existent_path.
#[test]
fn fail_if_dst_prefix_path_is_a_broken_symlink() {
    check_err_contains(plan(Some(Target::Directory), None, &[], vec![]), "failed to read metadata");
}

#[test]
fn fail_if_subpath_is_absolute() {
    let result = plan_in_directories(
        &["colors", "/picture"],
        vec![obs(Some(Target::Directory), Entry::Absent), obs(Some(Target::File), Entry::Absent)],
    );
    let e = check_err_contains(result, "is absolute");
    assert_eq!(e.kind, ErrorKind::Absolute);
    assert_eq!(e.path, "/picture");
}

#[test]
fn main_fail_if_src_path_does_not_exist() {
    let result = plan_in_directories(
        &["colors", "picture"],
        vec![obs(Some(Target::Directory), Entry::Absent), obs(None, Entry::Absent)],
    );
    let e = check_err_contains(result, "failed to read metadata");
    assert_eq!(e.path, "/tmp/t/foo/picture");
}

// foo/picture -> sea -> non_existent_path.
#[test]
fn main_fail_if_src_path_is_a_broken_symlink() {
    let result = plan_in_directories(
        &["colors", "picture"],
        vec![obs(Some(Target::Directory), Entry::Absent), obs(None, Entry::Absent)],
    );
    check_err_contains(result, "failed to read metadata");
}

// bar/picture -> sun, a directory.
#[test]
fn fail_to_replace_a_symlink_to_a_directory_with_a_file() {
    let result = plan_in_directories(
        &["colors", "picture"],
        vec![
            obs(Some(Target::Directory), Entry::Absent),
            obs(Some(Target::File), Entry::Symlink(Some(Target::Directory))),
        ],
    );
    let e = check_err_contains(result, "is a symlink whose final target is a directory");
    assert_eq!(e.kind, ErrorKind::SymlinkToDirectory);
    assert_eq!(e.path, "/tmp/t/bar/picture");
}

// bar/picture -> sky -> sun, a directory.
#[test]
fn fail_to_replace_a_symlink_to_a_symlink_to_a_directory_with_a_file() {
    let result = plan_in_directories(
        &["colors", "picture"],
        vec![
            obs(Some(Target::Directory), Entry::Absent),
            obs(Some(Target::File), Entry::Symlink(Some(Target::Directory))),
        ],
    );
    check_err_contains(result, "is a symlink whose final target is a directory");
}

// bar/picture -> sun -> non_existent_path.
#[test]
fn fail_to_replace_a_broken_symlink_with_a_directory() {
    let result = plan_in_directories(
        &["colors", "picture"],
        vec![obs(Some(Target::Directory), Entry::Absent), obs(Some(Target::Directory), Entry::Symlink(None))],
    );
    let e = check_err_contains(result, "is a broken symlink");
    assert_eq!(e.kind, ErrorKind::BrokenSymlink);
}

#[test]
fn fail_to_replace_a_broken_symlink_with_a_file() {
    let result = plan_in_directories(
        &["colors", "picture"],
        vec![obs(Some(Target::Directory), Entry::Absent), obs(Some(Target::File), Entry::Symlink(None))],
    );
    check_err_contains(result, "is a broken symlink");
}

#[test]
fn main_demo_without_update() {
    let actions = plan_in_directories(
        &["colors", "picture"],
        vec![obs(Some(Target::Directory), Entry::Absent), obs(Some(Target::File), Entry::Absent)],
    )
    .unwrap();
    let steps = all_steps(&actions);
    assert_eq!(steps.len(), 2);
    assert!(matches!(&steps[0], Step::MirrorDirectory(s, d) if s == "/tmp/t/foo/colors/" && d == "/tmp/t/bar/colors"));
    assert!(matches!(&steps[1], Step::CopyFile(s, d) if s == "/tmp/t/foo/picture" && d == "/tmp/t/bar/picture"));
    assert!(!touched(&steps).iter().any(|p| p.ends_with("sea") || p.ends_with("sun")));
}

#[test]
fn main_demo_with_update() {
    let actions = plan_in_directories(
        &["colors", "picture"],
        vec![obs(Some(Target::Directory), Entry::Directory), obs(Some(Target::File), Entry::File)],
    )
    .unwrap();
    assert_eq!(actions[0].operation, Operation::SynchronizeDir);
    assert_eq!(actions[1].operation, Operation::CopyFile);
    assert_eq!(all_steps(&actions).len(), 2);
}

#[test]
fn replace_a_file_with_a_directory() {
    let actions =
        plan_in_directories(&["colors"], vec![obs(Some(Target::Directory), Entry::File)]).unwrap();
    let steps = all_steps(&actions);
    assert!(matches!(&steps[0], Step::RemoveFile(p) if p == "/tmp/t/bar/colors"));
    assert_eq!(steps[1], mirror("/tmp/t/foo/colors/", "/tmp/t/bar/colors"));
}

#[test]
fn replace_a_directory_with_a_file() {
    let actions =
        plan_in_directories(&["colors"], vec![obs(Some(Target::File), Entry::Directory)]).unwrap();
    assert_eq!(actions[0].operation, Operation::RemoveDestDirAndCopyFile);
    let steps = all_steps(&actions);
    assert!(matches!(&steps[0], Step::RemoveDirectory(p) if p == "/tmp/t/bar/colors"));
    assert!(matches!(&steps[1], Step::CopyFile(s, d) if s == "/tmp/t/foo/colors" && d == "/tmp/t/bar/colors"));
}

// bar/colors (through bar -> bay -> baz) is a directory; foo/colors -> things -> words, a file.
#[test]
fn replace_a_directory_with_a_file_and_there_are_symlinks_to_symlinks() {
    let actions =
        plan_in_directories(&["colors"], vec![obs(Some(Target::File), Entry::Directory)]).unwrap();
    assert_eq!(actions[0].operation, Operation::RemoveDestDirAndCopyFile);
}

// bar/colors -> ../baz/colors, a directory; the mirror writes through the link.
#[test]
fn main_demo_with_symlinks() {
    let actions = plan_in_directories(
        &["colors", "picture"],
        vec![
            obs(Some(Target::Directory), Entry::Symlink(Some(Target::Directory))),
            obs(Some(Target::File), Entry::Symlink(Some(Target::File))),
        ],
    )
    .unwrap();
    assert_eq!(actions[0].operation, Operation::SynchronizeDir);
    assert_eq!(actions[1].operation, Operation::CopyFile);
}

#[test]
fn main_symlinks_to_symlinks() {
    let actions = plan_in_directories(
        &["colors"],
        vec![obs(Some(Target::Directory), Entry::Symlink(Some(Target::Directory)))],
    )
    .unwrap();
    assert_eq!(all_steps(&actions), vec![mirror("/tmp/t/foo/colors/", "/tmp/t/bar/colors")]);
}

// bar/picture -> sun, a file.
#[test]
fn fail_to_replace_a_symlink_to_a_file_with_a_directory() {
    let result = plan_in_directories(
        &["colors", "picture"],
        vec![
            obs(Some(Target::Directory), Entry::Absent),
            obs(Some(Target::Directory), Entry::Symlink(Some(Target::File))),
        ],
    );
    let e = check_err_contains(result, "is a symlink whose final target is a file");
    assert_eq!(e.kind, ErrorKind::SymlinkToFile);
}

// bar/picture -> sky -> sun, a file.
#[test]
fn fail_to_replace_a_symlink_to_a_symlink_to_a_file_with_a_directory() {
    let result = plan_in_directories(
        &["colors", "picture"],
        vec![
            obs(Some(Target::Directory), Entry::Absent),
            obs(Some(Target::Directory), Entry::Symlink(Some(Target::File))),
        ],
    );
    check_err_contains(result, "is a symlink whose final target is a file");
}

#[test]
fn subpath_is_parent() {
    let actions = plan(Some(Target::Directory), Some(Target::Directory), &[".."], vec![obs(
        Some(Target::Directory),
        Entry::Directory,
    )])
    .unwrap();
    assert_eq!(all_steps(&actions), vec![mirror("/tmp/t/foo/../", "/tmp/t/bar/..")]);
}

#[test]
fn messages_quote_the_path() {
    let e = SyncError::new(ErrorKind::Absolute, "/a b");
    assert_eq!(e.message(), "\"/a b\" is absolute");
    let e = SyncError::new(ErrorKind::MetadataUnreadable, "x");
    assert_eq!(e.message(), "failed to read metadata from \"x\"");
    assert_eq!(synchronize_backup::paths::quote("tab\there"), "\"tab{~t}here\"");
}

// A directory already mirrored at its destination is mirrored again, with nothing removed:
// a second run plans exactly what the first one did.
#[test]
fn mirroring_onto_a_mirror_plans_the_same_again() {
    let first =
        plan_in_directories(&["colors"], vec![obs(Some(Target::Directory), Entry::Absent)]).unwrap();
    let second =
        plan_in_directories(&["colors"], vec![obs(Some(Target::Directory), Entry::Directory)]).unwrap();
    assert_eq!(all_steps(&first), all_steps(&second));
    assert_eq!(all_steps(&second), vec![mirror("/tmp/t/foo/colors/", "/tmp/t/bar/colors")]);
}
