use std::collections::HashMap;

use log4rs_date_appender::date::system_today;
use log4rs_date_appender::template::{decimal_string, render_path_str, replace_all_str};
use log4rs_date_appender::{
    BuildError, CurrentDate, Date, DateRollingAppender, DateTrigger, RollingTrigger, SystemDate,
};

/// An in-memory file: the path it was opened at and the lines written to it.
struct MemFile {
    path: String,
}

/// Runs one append the way a caller does: consult the appender, open the
/// requested file if asked, then write the line through the cached handle.
fn append_line(
    core: &mut DateRollingAppender<MemFile>,
    files: &mut HashMap<String, Vec<String>>,
    today: Date,
    line: &str,
) {
    if let Some(req) = core.begin_append(&today) {
        let entry = files.entry(req.path.clone()).or_default();
        if req.truncate {
            entry.clear();
        }
        assert!(core.install(MemFile { path: req.path }));
    }
    assert!(core.has_writer());
    let path = core.writer_mut().path.clone();
    files.get_mut(&path).unwrap().push(line.to_string());
}

fn appender(path: &str, start_day: u32, append: bool) -> DateRollingAppender<MemFile> {
    DateRollingAppender::<MemFile>::builder()
        .append(append)
        .trigger(DateTrigger::starting_on(start_day))
        .path(path)
        .finalize()
        .unwrap()
}

#[test]
fn changed_day() {
    let yesterday = Date::new(2024, 3, 6);
    let today = Date::new(2024, 3, 7);
    let mut core = appender(".temp/test-{year}-{month}-{day}.log", 6, true);
    let mut files = HashMap::new();
    append_line(&mut core, &mut files, yesterday, "1. alpha");
    append_line(&mut core, &mut files, yesterday, "2. beta");
    append_line(&mut core, &mut files, yesterday, "3. gamma");
    append_line(&mut core, &mut files, today, "4. delta");
    append_line(&mut core, &mut files, today, "5. epsilon");
    append_line(&mut core, &mut files, today, "6. zeta");
    let y = &files[".temp/test-2024-3-6.log"];
    let t = &files[".temp/test-2024-3-7.log"];
    for (i, log) in y.iter().enumerate() {
        assert!(log.contains(&format!("{}.", i + 1)));
    }
    for (i, log) in t.iter().enumerate() {
        assert!(log.contains(&format!("{}.", i + 4)));
    }
    assert_eq!(y.len(), 3);
    assert_eq!(t.len(), 3);
}

#[test]
fn constant_source_fires_at_most_once() {
    let mut t = DateTrigger::starting_on(6);
    assert!(t.check_day(7));
    for _ in 0..5 {
        assert!(!t.check_day(7));
    }
    let mut same = DateTrigger::starting_on(7);
    for _ in 0..5 {
        assert!(!same.check_day(7));
    }
}

#[test]
fn advance_by_one_fires_once() {
    let mut t = DateTrigger::starting_on(7);
    assert!(!t.check_day(7));
    assert!(t.check_day(8));
    assert!(!t.check_day(8));
    assert_eq!(t.day(), 8);
}

#[test]
fn trigger_through_trait() {
    let mut t = DateTrigger::starting_on(31);
    assert!(t.trigger(&Date::new(2024, 4, 1)));
    assert!(!t.trigger(&Date::new(2024, 4, 1)));
    let mut u = DateTrigger::new::<Fixed>().unwrap();
    assert!(!u.trigger(&Date::new(2024, 3, 7)));
    assert!(u.trigger(&Date::new(2024, 3, 8)));
    assert!(!u.trigger(&Date::new(2024, 3, 8)));
}

#[test]
fn same_day_of_next_month_is_no_boundary() {
    let mut t = DateTrigger::new::<Fixed>().unwrap();
    assert!(!t.trigger(&Date::new(2024, 4, 7)));
    assert_eq!(t.day(), 7);
}

#[test]
fn render_log_path_for_date() {
    let d = Date::new(2024, 3, 7);
    let a = render_path_str("log/{year}-{month}-{day}.log", &d);
    let b = render_path_str("log/{year}-{month}-{day}.log", &d);
    assert_eq!(a, "log/2024-3-7.log");
    assert_eq!(a, b);
}

#[test]
fn placeholders_only_in_base_name() {
    let d = Date::new(2024, 12, 31);
    assert_eq!(
        render_path_str("{day}/x/{year}{month}{day}-{hour}.log", &d),
        "{day}/x/20241231-{hour}.log"
    );
    assert_eq!(render_path_str("plain.log", &d), "plain.log");
    assert_eq!(render_path_str("{year}", &Date::new(-44, 3, 15)), "-44");
}

#[test]
fn replace_scans_left_to_right() {
    assert_eq!(replace_all_str("aaa", "aa", "b"), "ba");
    assert_eq!(replace_all_str("abc", "", "x"), "abc");
    assert_eq!(replace_all_str("", "a", "x"), "");
    assert_eq!(decimal_string(0), "0");
    assert_eq!(decimal_string(1907), "1907");
    assert_eq!(decimal_string(u64::MAX), "18446744073709551615");
}

#[test]
fn append_round_trip() {
    let d = Date::new(2024, 3, 7);
    let e = Date::new(2024, 3, 8);
    let mut core = appender("log/{year}-{month}-{day}.log", 7, true);
    let mut files = HashMap::new();
    for i in 0..4 {
        append_line(&mut core, &mut files, d, &format!("d{}", i));
    }
    for i in 0..2 {
        append_line(&mut core, &mut files, e, &format!("e{}", i));
    }
    assert_eq!(files["log/2024-3-7.log"], vec!["d0", "d1", "d2", "d3"]);
    assert_eq!(files["log/2024-3-8.log"], vec!["e0", "e1"]);
}

#[test]
fn boundary_drops_handle() {
    let mut core = appender("log/{day}.log", 7, true);
    let req = core.begin_append(&Date::new(2024, 3, 7)).unwrap();
    assert_eq!(req.path, "log/7.log");
    assert!(core.install(MemFile { path: req.path }));
    assert!(core.begin_append(&Date::new(2024, 3, 7)).is_none());
    assert_eq!(core.opened_for(), Some(Date::new(2024, 3, 7)));
    let req = core.begin_append(&Date::new(2024, 3, 8)).unwrap();
    assert!(!core.has_writer());
    assert_eq!(core.opened_for(), None);
    assert_eq!(req.path, "log/8.log");
    assert!(core.install(MemFile { path: req.path }));
    assert_eq!(core.writer_mut().path, "log/8.log");
    assert_eq!(core.trigger_day(), 8);
}

#[test]
fn install_without_request_is_refused() {
    let mut core = appender("a.log", 1, true);
    assert!(!core.install(MemFile { path: "a.log".to_string() }));
    assert!(!core.has_writer());
}

#[test]
fn failed_open_is_retried() {
    let mut core = appender("log/{day}.log", 7, true);
    let first = core.begin_append(&Date::new(2024, 3, 7)).unwrap();
    // the open failed: nothing installed
    let second = core.begin_append(&Date::new(2024, 3, 7)).unwrap();
    assert_eq!(first.path, second.path);
}

#[test]
fn directory_request_is_stable() {
    let mut core = appender("out/logs/{year}.log", 7, false);
    let a = core.begin_append(&Date::new(2024, 3, 7)).unwrap();
    let b = core.begin_append(&Date::new(2024, 3, 7)).unwrap();
    assert_eq!(a.dir.as_deref(), Some("out/logs"));
    assert_eq!(a.dir, b.dir);
    assert!(!a.append);
    assert!(a.truncate);
    let mut flat = appender("plain.log", 7, true);
    let c = flat.begin_append(&Date::new(2024, 3, 7)).unwrap();
    assert_eq!(c.dir, None);
    assert!(c.append);
    assert!(!c.truncate);
}

#[test]
fn missing_options_fail_construction() {
    let no_path = DateRollingAppender::<MemFile>::builder()
        .append(true)
        .trigger(DateTrigger::starting_on(1))
        .finalize::<MemFile>();
    assert_eq!(no_path.err(), Some(BuildError::MissingPath));
    let no_trigger = DateRollingAppender::<MemFile>::builder()
        .append(true)
        .path("a.log")
        .finalize::<MemFile>();
    assert_eq!(no_trigger.err(), Some(BuildError::MissingTrigger));
    let no_append = DateRollingAppender::<MemFile>::builder()
        .trigger(DateTrigger::starting_on(1))
        .path("a.log")
        .finalize::<MemFile>();
    assert_eq!(no_append.err(), Some(BuildError::MissingAppend));
    let all = appender("a.log", 3, false);
    assert_eq!(all.path(), "a.log");
    assert!(!all.append_mode());
    assert_eq!(all.trigger_day(), 3);
    assert!(!all.has_writer());
}

struct Fixed;

impl CurrentDate for Fixed {
    fn current_date() -> Option<Date> {
        Some(Date::new(2024, 3, 7))
    }
}

struct Broken;

impl CurrentDate for Broken {
    fn current_date() -> Option<Date> {
        None
    }
}

#[test]
fn date_sources() {
    let t = DateTrigger::new::<Fixed>().unwrap();
    assert_eq!(t.day(), 7);
    assert_eq!(Fixed::ymd(&Fixed::current_date().unwrap()), (2024, 3, 7));
    assert!(DateTrigger::new::<Broken>().is_none());
    let now = SystemDate::current_date().unwrap();
    assert!((1..=12).contains(&now.month));
    assert!((1..=31).contains(&now.day));
    assert!(now.year >= 2024);
    assert_eq!(system_today(), Some(now));
}
