use std::collections::BTreeMap;

use synchronize_backup::dated::DateTime;
use synchronize_backup::renamer::{work, RenameTo, Yield};

#[derive(Debug, PartialEq, Eq)]
struct Size(u64);

fn now() -> DateTime {
    DateTime::new(2011, 12, 13, 14, 15).unwrap()
}

fn launch_work(files: &mut BTreeMap<String, Size>, file_path: &str, now: DateTime) {
    let size = files[file_path].0;
    let mut coroutine = work(file_path, size);
    let action = loop {
        coroutine = match coroutine {
            Yield::WantsNow(coroutine) => coroutine.resume(now),
            Yield::WantsExists(coroutine) => {
                let exists = files.contains_key(coroutine.get_arg());
                coroutine.resume(exists)
            }
            Yield::Return(action) => break action,
        };
    };
    if let Some(RenameTo(dst_path)) = action {
        let file_size = files.remove(file_path).unwrap();
        files.insert(dst_path, file_size);
    }
}

#[test]
fn lib_demo() {
    let mut files = BTreeMap::from([
        ("app.log".into(), Size(300)),
        ("app.log.2011-12-13.1".into(), Size(100)),
        ("app.log.2011-12-13.2".into(), Size(200)),
    ]);
    launch_work(&mut files, "app.log", now());
    assert_eq!(
        files,
        BTreeMap::from([
            ("app.log.2011-12-13.1".into(), Size(100)),
            ("app.log.2011-12-13.2".into(), Size(200)),
            ("app.log.2011-12-13.3".into(), Size(300)),
        ])
    );
}

#[test]
fn lib_first_backup_of_the_day() {
    let mut files = BTreeMap::from([("app.log".into(), Size(42))]);
    launch_work(&mut files, "app.log", now());
    assert_eq!(files, BTreeMap::from([("app.log.2011-12-13.1".into(), Size(42))]));
}

#[test]
fn lib_noop_because_the_file_is_small() {
    let mut files = BTreeMap::from([("app.log".into(), Size(41))]);
    launch_work(&mut files, "app.log", now());
    assert_eq!(files, BTreeMap::from([("app.log".into(), Size(41))]));
}

#[test]
fn main_demo() {
    let content = "ABCDEFGHIJKLMNOPQRSTUVWXYZabcdefghijklmnopqrstuvwxyz";
    let mut files = BTreeMap::from([
        ("app.log".into(), Size(content.len() as u64)),
        ("app.log.2011-12-13.1".into(), Size(3)),
        ("app.log.2011-12-13.2".into(), Size(3)),
    ]);
    launch_work(&mut files, "app.log", now());
    assert!(!files.contains_key("app.log"));
    assert_eq!(files["app.log.2011-12-13.3"], Size(content.len() as u64));
    assert_eq!(files.len(), 3);
}

#[test]
fn main_first_backup_of_the_day() {
    let content = "ABCDEFGHIJKLMNOPQRSTUVWXYZabcdefghijklmnopqrstuvwxyz";
    let mut files = BTreeMap::from([("app.log".into(), Size(content.len() as u64))]);
    launch_work(&mut files, "app.log", now());
    assert!(!files.contains_key("app.log"));
    assert_eq!(files["app.log.2011-12-13.1"], Size(content.len() as u64));
}

#[test]
fn main_noop_because_the_file_is_small() {
    let mut files = BTreeMap::from([("app.log".into(), Size("small".len() as u64))]);
    launch_work(&mut files, "app.log", now());
    assert_eq!(files, BTreeMap::from([("app.log".into(), Size(5))]));
}

#[test]
fn candidate_numbers_go_past_nine() {
    let mut files = BTreeMap::from([("a".to_string(), Size(50))]);
    for n in 1..=10 {
        files.insert(format!("a.2011-12-13.{n}"), Size(1));
    }
    launch_work(&mut files, "a", now());
    assert!(files.contains_key("a.2011-12-13.11"));
    assert!(!files.contains_key("a"));
}

#[test]
fn asking_for_the_date_then_for_existence() {
    let Yield::WantsNow(step) = work("x", 42) else { panic!("the date should be asked") };
    let Yield::WantsExists(step) = step.resume(DateTime::new(2024, 2, 9, 0, 0).unwrap()) else {
        panic!("an existence should be asked")
    };
    assert_eq!(step.get_arg(), "x.2024-02-09.1");
    let Yield::Return(Some(RenameTo(p))) = step.resume(false) else { panic!("a rename is due") };
    assert_eq!(p, "x.2024-02-09.1");
}
