use synchronize_backup::dated::DateTime;
use synchronize_backup::dated_copy::{
    check_all_copies_seem_possible, get_dst_path, CopyAction, CopyError, CopyObservation,
};
use synchronize_backup::partial::Target;

fn now() -> DateTime {
    DateTime::new(2022, 12, 13, 14, 15).unwrap()
}

fn launch(paths: &[&str], observations: Vec<CopyObservation>) -> Result<Vec<CopyAction>, CopyError> {
    let src_paths: Vec<String> = paths.iter().map(|p| format!("/tmp/t/{p}")).collect();
    check_all_copies_seem_possible(&src_paths, now(), &observations)
}

fn free(src: Target) -> CopyObservation {
    CopyObservation { src: Some(src), dst_exists: false }
}

fn check_err_contains(result: Result<Vec<CopyAction>, CopyError>, expected: &str) -> CopyError {
    match result {
        Ok(_) => panic!("expected an error containing {expected:?}"),
        Err(e) => {
            let message = e.message();
            assert!(message.contains(expected), "{message:?} does not contain {expected:?}");
            e
        }
    }
}

#[test]
fn simple_demo() {
    let actions =
        launch(&["colors", "picture"], vec![free(Target::Directory), free(Target::File)]).unwrap();
    assert_eq!(actions.len(), 2);
    assert_eq!(actions[0].dst_path, "/tmp/t/colors_2022-12-13-14h15");
    assert!(actions[0].src_is_dir);
    assert_eq!(actions[1].dst_path, "/tmp/t/picture_2022-12-13-14h15");
    assert!(!actions[1].src_is_dir);
}

// colors -> words/, picture -> sea: the copies follow the command-line symlinks.
#[test]
fn copy_demo_with_symlinks() {
    let actions =
        launch(&["colors", "picture"], vec![free(Target::Directory), free(Target::File)]).unwrap();
    assert_eq!(actions[0].src_path, "/tmp/t/colors");
    assert_eq!(actions[1].dst_path, "/tmp/t/picture_2022-12-13-14h15");
}

// colors -> things -> words/, picture -> place -> sea.
#[test]
fn copy_symlinks_to_symlinks() {
    let actions =
        launch(&["colors", "picture"], vec![free(Target::Directory), free(Target::File)]).unwrap();
    assert!(actions[0].src_is_dir && !actions[1].src_is_dir);
}

#[test]
fn main_fancy_directory_names() {
    let names = ["foo.abc.xyz", " ", "--b a r", "--", "-"];
    let actions = launch(&names, vec![free(Target::Directory); 5]).unwrap();
    let dsts: Vec<&str> = actions.iter().map(|a| a.dst_path.as_str()).collect();
    assert_eq!(
        dsts,
        vec![
            "/tmp/t/foo.abc.xyz_2022-12-13-14h15",
            "/tmp/t/ _2022-12-13-14h15",
            "/tmp/t/--b a r_2022-12-13-14h15",
            "/tmp/t/--_2022-12-13-14h15",
            "/tmp/t/-_2022-12-13-14h15",
        ]
    );
}

#[test]
fn fancy_file_names() {
    let names = ["foo.abc.xyz", " ", "--b a r", "--", "-"];
    let actions = launch(&names, vec![free(Target::File); 5]).unwrap();
    assert!(actions.iter().all(|a| !a.src_is_dir));
    assert_eq!(actions[2].dst_path, "/tmp/t/--b a r_2022-12-13-14h15");
}

#[test]
fn main_fail_if_src_path_does_not_have_a_name() {
    let result = launch(&["foo", "bar/baz/.."], vec![free(Target::Directory), free(Target::Directory)]);
    let e = check_err_contains(result, "does not have a name");
    assert!(matches!(e, CopyError::NoName(p) if p == "/tmp/t/bar/baz/.."));
}

#[test]
fn copy_fail_if_src_path_does_not_exist() {
    let result = launch(&["foo", "bar"], vec![
        free(Target::Directory),
        CopyObservation { src: None, dst_exists: false },
    ]);
    check_err_contains(result, "failed to read metadata");
}

// bar -> baz -> non_existent_path.
#[test]
fn copy_fail_if_src_path_is_a_broken_symlink() {
    let result = launch(&["foo", "bar"], vec![
        free(Target::Directory),
        CopyObservation { src: None, dst_exists: false },
    ]);
    check_err_contains(result, "failed to read metadata");
}

#[test]
fn fail_if_dst_path_is_a_directory() {
    let result = launch(&["foo", "bar"], vec![
        free(Target::Directory),
        CopyObservation { src: Some(Target::Directory), dst_exists: true },
    ]);
    let e = check_err_contains(result, "already exists");
    assert!(matches!(e, CopyError::AlreadyExists(p) if p == "/tmp/t/bar_2022-12-13-14h15"));
}

#[test]
fn main_fail_if_dst_path_is_a_file() {
    let result = launch(&["foo", "bar"], vec![
        free(Target::File),
        CopyObservation { src: Some(Target::File), dst_exists: true },
    ]);
    check_err_contains(result, "already exists");
}

// bar_2022-12-13-14h15 -> non_existent_path.
#[test]
fn fail_if_dst_path_is_a_symlink() {
    let result = launch(&["foo", "bar"], vec![
        free(Target::Directory),
        CopyObservation { src: Some(Target::Directory), dst_exists: true },
    ]);
    check_err_contains(result, "already exists");
}

#[test]
fn dated_copy_stands_beside_the_source() {
    assert_eq!(get_dst_path("a/b/c.txt", now()).as_deref(), Some("a/b/c.txt_2022-12-13-14h15"));
    assert_eq!(get_dst_path("a/b/", now()).as_deref(), Some("a/b_2022-12-13-14h15"));
    assert_eq!(get_dst_path("a/..", now()), None);
}
