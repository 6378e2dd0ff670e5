use synchronize_backup::backup::{
    get_final_dst_path, is_dated_name_of, plan_backup, BackupError, BackupPlan, ListedEntry,
};
use synchronize_backup::dated::{format_dated_suffix, DateTime};
use synchronize_backup::partial::{Entry, Target};

const DST: &str = "/tmp/t/bar";

fn now() -> DateTime {
    DateTime::new(2022, 12, 13, 14, 15).unwrap()
}

fn dir(name: &str) -> ListedEntry {
    ListedEntry { name: name.to_string(), path: format!("{DST}/{name}"), is_dir: true }
}

fn not_dir(name: &str) -> ListedEntry {
    ListedEntry { name: name.to_string(), path: format!("{DST}/{name}"), is_dir: false }
}

fn launch(
    src: &str,
    src_target: Option<Target>,
    final_entry: Entry,
    listing: Option<Vec<ListedEntry>>,
) -> Result<BackupPlan, BackupError> {
    plan_backup(src, DST, now(), src_target, final_entry, listing.as_ref())
}

fn check_err_contains(result: Result<BackupPlan, BackupError>, expected: &str) -> BackupError {
    match result {
        Ok(_) => panic!("expected an error containing {expected:?}"),
        Err(e) => {
            let message = e.message();
            assert!(message.contains(expected), "{message:?} does not contain {expected:?}");
            e
        }
    }
}

#[test]
fn demo_without_update() {
    let plan =
        launch("/tmp/t/foo/colors", Some(Target::Directory), Entry::Absent, Some(vec![])).unwrap();
    assert_eq!(plan.final_dst_path, "/tmp/t/bar/colors_2022-12-13-14h15");
    assert_eq!(plan.rename_from, None);
    assert_eq!(plan.mirror_src, "/tmp/t/foo/colors/");
    assert!(!plan.final_dst_path.ends_with("colors_2022-08-09-10h11"));
}

#[test]
fn demo_with_update() {
    let plan = launch(
        "/tmp/t/foo/colors",
        Some(Target::Directory),
        Entry::Absent,
        Some(vec![dir("colors_2022-08-09-10h11")]),
    )
    .unwrap();
    assert_eq!(plan.rename_from.as_deref(), Some("/tmp/t/bar/colors_2022-08-09-10h11"));
    assert_eq!(plan.final_dst_path, "/tmp/t/bar/colors_2022-12-13-14h15");
    assert_eq!(plan.mirror_src, "/tmp/t/foo/colors/");
}

// bar -> baz holding colors_2022-08-09-10h11/; foo/colors -> words/.
#[test]
fn demo_with_symlinks() {
    let plan = launch(
        "/tmp/t/foo/colors",
        Some(Target::Directory),
        Entry::Absent,
        Some(vec![dir("colors_2022-08-09-10h11")]),
    )
    .unwrap();
    assert_eq!(plan.rename_from.as_deref(), Some("/tmp/t/bar/colors_2022-08-09-10h11"));
    assert_eq!(plan.final_dst_path, "/tmp/t/bar/colors_2022-12-13-14h15");
}

// bar -> bay -> baz; foo/colors -> things -> words/.
#[test]
fn symlinks_to_symlinks() {
    let plan = launch(
        "/tmp/t/foo/colors",
        Some(Target::Directory),
        Entry::Absent,
        Some(vec![dir("colors_2022-08-09-10h11"), not_dir("sun")]),
    )
    .unwrap();
    assert_eq!(plan.rename_from.as_deref(), Some("/tmp/t/bar/colors_2022-08-09-10h11"));
}

#[test]
fn src_path_with_an_ending_slash() {
    let plan =
        launch("/tmp/t/foo/colors/", Some(Target::Directory), Entry::Absent, Some(vec![])).unwrap();
    assert_eq!(plan.final_dst_path, "/tmp/t/bar/colors_2022-12-13-14h15");
    assert_eq!(plan.mirror_src, "/tmp/t/foo/colors/");
}

#[test]
fn final_dst_path_already_exists_and_is_a_directory() {
    let plan = launch(
        "/tmp/t/foo/colors",
        Some(Target::Directory),
        Entry::Directory,
        Some(vec![dir("colors_2022-12-13-14h15")]),
    );
    // The dated destination itself matches the pattern: it is the one candidate, renamed
    // onto itself before the mirror.
    let plan = plan.unwrap();
    assert_eq!(plan.final_dst_path, "/tmp/t/bar/colors_2022-12-13-14h15");
    assert_eq!(plan.rename_from.as_deref(), Some("/tmp/t/bar/colors_2022-12-13-14h15"));
}

#[test]
fn fancy_directory_names() {
    for (src_path, dst_path, expected) in [
        ("foo/colors.abc.xyz", "bar.abc.xyz", "bar.abc.xyz/colors.abc.xyz_2022-12-13-14h15"),
        ("foo/ ", " ", " / _2022-12-13-14h15"),
        ("foo/c --o l o r s", "--b a r", "--b a r/c --o l o r s_2022-12-13-14h15"),
        ("foo/co -- lors", "--", "--/co -- lors_2022-12-13-14h15"),
        ("foo/-", "-", "-/-_2022-12-13-14h15"),
    ] {
        let plan =
            plan_backup(src_path, dst_path, now(), Some(Target::Directory), Entry::Absent, Some(&vec![]))
                .unwrap();
        assert_eq!(plan.final_dst_path, expected);
    }
}

#[test]
fn fail_if_two_valid_candidates() {
    let result = launch(
        "/tmp/t/foo/colors",
        Some(Target::Directory),
        Entry::Absent,
        Some(vec![dir("colors_2022-08-09-10h11"), dir("colors_2022-09-10-11h12")]),
    );
    match check_err_contains(result, "there are several candidates") {
        BackupError::SeveralCandidates(v) => assert_eq!(
            v,
            vec!["/tmp/t/bar/colors_2022-08-09-10h11", "/tmp/t/bar/colors_2022-09-10-11h12"]
        ),
        other => panic!("unexpected error {other:?}"),
    }
}

#[test]
fn valid_and_invalid_candidates() {
    let listing = vec![
        dir("colors2022-08-09-10h11"),
        dir("colors_222-08-09-10h11"),
        dir("colors_2022-08-09-10h11"),
        dir("colors_2022-08-09-10h11m12"),
        dir("colors_2022-08-bb-10h11"),
        not_dir("colors_2022-09-10-11h12"),
        dir("colors_2022-AA-09-10h11"),
        dir("some_colors_2022-08-09-10h11"),
    ];
    let plan =
        launch("/tmp/t/foo/colors", Some(Target::Directory), Entry::Absent, Some(listing)).unwrap();
    assert_eq!(plan.rename_from.as_deref(), Some("/tmp/t/bar/colors_2022-08-09-10h11"));
    assert_eq!(plan.final_dst_path, "/tmp/t/bar/colors_2022-12-13-14h15");
}

// bar/colors_2022-09-10-11h12 -> baz: a symlink is listed as no directory.
#[test]
fn symlink_is_invalid_candidate() {
    let listing =
        vec![dir("baz"), dir("colors_2022-08-09-10h11"), not_dir("colors_2022-09-10-11h12")];
    let plan =
        launch("/tmp/t/foo/colors", Some(Target::Directory), Entry::Absent, Some(listing)).unwrap();
    assert_eq!(plan.rename_from.as_deref(), Some("/tmp/t/bar/colors_2022-08-09-10h11"));
}

#[test]
fn fail_if_src_path_does_not_have_a_name() {
    let result = launch("/tmp/t/foo/colors/dark/..", Some(Target::Directory), Entry::Absent, Some(vec![]));
    let e = check_err_contains(result, "does not have a name");
    assert!(matches!(e, BackupError::NoName(p) if p == "/tmp/t/foo/colors/dark/.."));
}

#[test]
fn fail_if_src_path_does_not_exist() {
    let result = launch("/tmp/t/foo/colors", None, Entry::Absent, Some(vec![]));
    check_err_contains(result, "failed to read metadata");
}

#[test]
fn fail_if_src_path_is_a_file() {
    let result = launch("/tmp/t/foo/colors", Some(Target::File), Entry::Absent, Some(vec![]));
    check_err_contains(result, "is not a directory");
}

// foo/colors -> words, a file.
#[test]
fn fail_if_src_path_is_a_symlink_to_a_file() {
    let result = launch("/tmp/t/foo/colors", Some(Target::File), Entry::Absent, Some(vec![]));
    check_err_contains(result, "is not a directory");
}

// foo/colors -> words -> non_existent_path.
#[test]
fn fail_if_src_path_is_a_broken_symlink() {
    let result = launch("/tmp/t/foo/colors", None, Entry::Absent, Some(vec![]));
    check_err_contains(result, "failed to read metadata");
}

#[test]
fn fail_if_dst_path_does_not_exist() {
    let result = launch("/tmp/t/foo/colors", Some(Target::Directory), Entry::Absent, None);
    let e = check_err_contains(result, "failed to look for candidates");
    assert!(e.message().contains("failed to read as a directory"));
}

#[test]
fn fail_if_dst_path_is_a_file() {
    let result = launch("/tmp/t/foo/colors", Some(Target::Directory), Entry::Absent, None);
    let e = check_err_contains(result, "failed to look for candidates");
    assert!(e.message().contains("failed to read as a directory"));
}

// bar -> baz, a file.
#[test]
fn fail_if_dst_path_is_a_symlink_to_a_file() {
    let result = launch("/tmp/t/foo/colors", Some(Target::Directory), Entry::Absent, None);
    check_err_contains(result, "failed to read as a directory");
}

// bar -> baz -> non_existent_path.
#[test]
fn fail_if_dst_path_is_a_broken_symlink() {
    let result = launch("/tmp/t/foo/colors", Some(Target::Directory), Entry::Absent, None);
    let e = check_err_contains(result, "failed to look for candidates");
    assert!(matches!(e, BackupError::DestinationUnreadable(p) if p == DST));
}

#[test]
fn fail_if_final_dst_path_is_a_file() {
    let result = launch("/tmp/t/foo/colors", Some(Target::Directory), Entry::File, Some(vec![]));
    let e = check_err_contains(result, "exists but is not a directory");
    assert!(
        matches!(e, BackupError::FinalDestinationNotADirectory(p) if p == "/tmp/t/bar/colors_2022-12-13-14h15")
    );
}

// bar/colors_2022-12-13-14h15 -> baz.
#[test]
fn fail_if_final_dst_path_is_a_symlink() {
    let result = launch(
        "/tmp/t/foo/colors",
        Some(Target::Directory),
        Entry::Symlink(Some(Target::Directory)),
        Some(vec![dir("baz")]),
    );
    check_err_contains(result, "exists but is not a directory");
}

#[test]
fn dated_suffix_is_zero_padded() {
    let d = DateTime::new(987, 1, 2, 3, 4).unwrap();
    assert_eq!(format_dated_suffix(d), "_0987-01-02-03h04");
    assert_eq!(format_dated_suffix(now()), "_2022-12-13-14h15");
    assert!(DateTime::new(2022, 13, 1, 0, 0).is_none());
    assert!(DateTime::new(2022, 1, 1, 24, 0).is_none());
}

#[test]
fn final_destination_joins_the_dated_name() {
    assert_eq!(get_final_dst_path("colors", "bar", now()), "bar/colors_2022-12-13-14h15");
    assert_eq!(get_final_dst_path("colors", "bar/", now()), "bar/colors_2022-12-13-14h15");
    assert_eq!(get_final_dst_path("colors", "", now()), "colors_2022-12-13-14h15");
}

#[test]
fn dated_names_follow_the_pattern() {
    assert!(is_dated_name_of("colors_2022-08-09-10h11", "colors"));
    assert!(!is_dated_name_of("colors_2022-08-09-10h11", "color"));
    assert!(!is_dated_name_of("_2022-08-09-10h11", ""));
    assert!(!is_dated_name_of("colors_2022-08-09-10h1x", "colors"));
    assert!(!is_dated_name_of("colors_2022-08-09-10m11", "colors"));
    assert!(!is_dated_name_of("co\nlors_2022-08-09-10h11", "co\nlors"));
}

// The dated directory is renamed and the file of a dated name left alone.
#[test]
fn directory_candidate_is_renamed_and_file_left_alone() {
    let listing = vec![dir("colors_2022-08-09-10h11"), not_dir("colors_2022-09-10-11h12")];
    let plan =
        launch("/tmp/t/foo/colors", Some(Target::Directory), Entry::Absent, Some(listing)).unwrap();
    assert_eq!(plan.rename_from.as_deref(), Some("/tmp/t/bar/colors_2022-08-09-10h11"));
    assert_eq!(plan.final_dst_path, "/tmp/t/bar/colors_2022-12-13-14h15");
}
