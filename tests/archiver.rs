use dir_archiver::config::{load, parse_config, parse_line, ConfigError, LineFault, MarkerPolicy, Mode};
use dir_archiver::naming::{archive_file_name, base_name, join_path};
use dir_archiver::run::{Action, Entry, Event, Phase, Run, RunError};
use dir_archiver::stamp::{now, Stamp};
use dir_archiver::config::Job;

fn fixed() -> Stamp {
    Stamp::new(2024, 5, 1, 13, 7)
}

fn entry(name: &str, is_dir: bool) -> Entry {
    Entry { name: name.to_string(), is_dir }
}

fn expect_path(a: &Action, kind: &str) -> String {
    match (a, kind) {
        (Action::CheckSource { path }, "check") => path.clone(),
        (Action::PrepareDestination { path }, "prepare") => path.clone(),
        (Action::ListSource { path }, "list") => path.clone(),
        _ => panic!("unexpected action {:?}, wanted {}", a, kind),
    }
}

fn expect_archive(a: &Action) -> (String, String) {
    match a {
        Action::Archive { request } => (request.input_root.clone(), request.output_path.clone()),
        _ => panic!("expected an archive request, got {:?}", a),
    }
}

#[test]
fn well_formed_config_gives_one_job_per_line_in_order() {
    let jobs = parse_config("a|b\nc|d|S\ne|f|x\n", MarkerPolicy::Lenient).unwrap();
    assert_eq!(jobs.len(), 3);
    assert_eq!(jobs[0].source, "a");
    assert_eq!(jobs[0].destination, "b");
    assert_eq!(jobs[0].mode, Mode::WholeTree);
    assert_eq!(jobs[1].source, "c");
    assert_eq!(jobs[1].destination, "d");
    assert_eq!(jobs[1].mode, Mode::PerSubfolder);
    assert_eq!(jobs[2].source, "e");
    assert_eq!(jobs[2].mode, Mode::WholeTree);
}

#[test]
fn line_without_delimiter_is_fatal() {
    let r = parse_config("a|b\nnodelimiter\nc|d", MarkerPolicy::Lenient);
    assert_eq!(r.unwrap_err(), ConfigError { fault: LineFault::TooFewFields, line: 2 });
    assert_eq!(parse_line("x", MarkerPolicy::Strict).unwrap_err(), LineFault::TooFewFields);
}

#[test]
fn unknown_marker_falls_back_when_lenient() {
    let j = parse_line("src|dst|s", MarkerPolicy::Lenient).unwrap();
    assert_eq!(j.mode, Mode::WholeTree);
    assert_eq!(j.source, "src");
    assert_eq!(j.destination, "dst");
    assert_eq!(parse_line("src|dst|S|extra", MarkerPolicy::Lenient).unwrap_err(), LineFault::TooManyFields);
}

#[test]
fn four_fields_are_fatal_under_either_policy() {
    let r = parse_config("a|b\nc|d|S|x", MarkerPolicy::Lenient);
    assert_eq!(r.unwrap_err(), ConfigError { fault: LineFault::TooManyFields, line: 2 });
    let r = parse_config("a|b|c|d|e", MarkerPolicy::Strict);
    assert_eq!(r.unwrap_err(), ConfigError { fault: LineFault::TooManyFields, line: 1 });
    assert_eq!(parse_line("a|b||", MarkerPolicy::Lenient).unwrap_err(), LineFault::TooManyFields);
}

#[test]
fn unknown_marker_rejected_when_strict() {
    let r = parse_config("a|b\nc|d|Q", MarkerPolicy::Strict);
    assert_eq!(r.unwrap_err(), ConfigError { fault: LineFault::UnknownMarker, line: 2 });
    assert_eq!(parse_line("a|b|S|x", MarkerPolicy::Strict).unwrap_err(), LineFault::TooManyFields);
    assert_eq!(parse_line("a|b|", MarkerPolicy::Strict).unwrap().mode, Mode::WholeTree);
    assert_eq!(parse_line("a|b|S", MarkerPolicy::Strict).unwrap().mode, Mode::PerSubfolder);
}

#[test]
fn empty_lines_give_no_jobs() {
    let jobs = parse_config("\n\na|b\n\n\nc|d\n\n", MarkerPolicy::Lenient).unwrap();
    assert_eq!(jobs.len(), 2);
    assert_eq!(jobs[1].source, "c");
    assert_eq!(parse_config("", MarkerPolicy::Lenient).unwrap().len(), 0);
    assert_eq!(parse_config("\n\r\n\n", MarkerPolicy::Strict).unwrap().len(), 0);
}

#[test]
fn missing_resource_gives_no_jobs() {
    assert_eq!(load(None, MarkerPolicy::Strict).unwrap().len(), 0);
    assert_eq!(load(Some("a|b"), MarkerPolicy::Strict).unwrap().len(), 1);
}

#[test]
fn carriage_returns_are_dropped() {
    let jobs = parse_config("a|b\r\nc|d|S\r\n", MarkerPolicy::Lenient).unwrap();
    assert_eq!(jobs[0].destination, "b");
    assert_eq!(jobs[1].mode, Mode::PerSubfolder);
}

#[test]
fn empty_fields_are_kept() {
    let j = parse_line("|", MarkerPolicy::Lenient).unwrap();
    assert_eq!(j.source, "");
    assert_eq!(j.destination, "");
}

#[test]
fn archive_file_name_format() {
    let n = archive_file_name("proj", fixed(), ".tar.zst");
    assert_eq!(n, "proj_24_05_01_13_07.tar.zst");
    assert_eq!(archive_file_name("x", Stamp::new(1999, 12, 31, 23, 59), ".tgz"), "x_99_12_31_23_59.tgz");
}

#[test]
fn stamp_text_pads_and_wraps_the_year() {
    assert_eq!(Stamp::new(2005, 1, 2, 3, 4).text(), "05_01_02_03_04");
    assert_eq!(Stamp::new(-1, 10, 20, 0, 0).text(), "99_10_20_00_00");
    assert_eq!(Stamp::new(2100, 6, 9, 12, 30).text(), "00_06_09_12_30");
}

#[test]
fn now_is_a_valid_stamp() {
    let s = now();
    assert!(1 <= s.month && s.month <= 12);
    assert!(1 <= s.day && s.day <= 31);
    assert!(s.hour < 24 && s.minute < 60);
    assert_eq!(s.text().len(), 14);
}

#[test]
fn base_names() {
    assert_eq!(base_name("/data/proj").unwrap(), "proj");
    assert_eq!(base_name("/data/proj/").unwrap(), "proj");
    assert_eq!(base_name("proj").unwrap(), "proj");
    assert_eq!(base_name("a/./").unwrap(), "a");
    assert!(base_name("/").is_none());
    assert!(base_name("").is_none());
    assert!(base_name(".").is_none());
    assert!(base_name("a/..").is_none());
}

#[test]
fn joining_paths() {
    assert_eq!(join_path("out", "x.tgz"), "out/x.tgz");
    assert_eq!(join_path("out/", "x.tgz"), "out/x.tgz");
    assert_eq!(join_path("", "x.tgz"), "x.tgz");
}

#[test]
fn whole_tree_run_makes_one_archive() {
    let jobs = vec![Job::new("/data/proj", "/backup", Mode::WholeTree)];
    let mut run = Run::new(jobs, ".tar.zst");
    assert_eq!(run.phase(), Phase::Idle);
    let a = run.step(Event::Start, fixed());
    assert_eq!(expect_path(&a, "check"), "/data/proj");
    let a = run.step(Event::SourceChecked { is_dir: true }, fixed());
    assert_eq!(expect_path(&a, "prepare"), "/backup");
    let a = run.step(Event::DestinationReady { ok: true }, fixed());
    let (root, out) = expect_archive(&a);
    assert_eq!(root, "/data/proj");
    assert_eq!(out, "/backup/proj_24_05_01_13_07.tar.zst");
    let a = run.step(Event::Archived { success: true }, fixed());
    assert!(matches!(a, Action::Finish));
    assert_eq!(run.phase(), Phase::Finished);
}

#[test]
fn per_subfolder_run_archives_each_directory() {
    let jobs = vec![Job::new("/src", "/dst", Mode::PerSubfolder)];
    let mut run = Run::new(jobs, ".tgz");
    run.step(Event::Start, fixed());
    run.step(Event::SourceChecked { is_dir: true }, fixed());
    let a = run.step(Event::DestinationReady { ok: true }, fixed());
    assert_eq!(expect_path(&a, "list"), "/src");
    let listing = vec![entry("one", true), entry("notes.txt", false), entry("two", true)];
    let a = run.step(Event::Listed { entries: Some(listing) }, fixed());
    let (root, out) = expect_archive(&a);
    assert_eq!(root, "/src/one");
    assert_eq!(out, "/dst/one_24_05_01_13_07.tgz");
    let a = run.step(Event::Archived { success: true }, fixed());
    let (root, out) = expect_archive(&a);
    assert_eq!(root, "/src/two");
    assert_eq!(out, "/dst/two_24_05_01_13_07.tgz");
    let a = run.step(Event::Archived { success: true }, fixed());
    assert!(matches!(a, Action::Finish));
}

#[test]
fn per_subfolder_without_directories_moves_on() {
    let jobs = vec![
        Job::new("/src", "/dst", Mode::PerSubfolder),
        Job::new("/next", "/dst", Mode::WholeTree),
    ];
    let mut run = Run::new(jobs, ".tgz");
    run.step(Event::Start, fixed());
    run.step(Event::SourceChecked { is_dir: true }, fixed());
    run.step(Event::DestinationReady { ok: true }, fixed());
    let a = run.step(Event::Listed { entries: Some(vec![entry("f", false)]) }, fixed());
    assert_eq!(expect_path(&a, "check"), "/next");
}

#[test]
fn missing_source_aborts_the_run() {
    let jobs = vec![
        Job::new("/a", "/dst", Mode::WholeTree),
        Job::new("/missing", "/dst", Mode::WholeTree),
        Job::new("/c", "/dst", Mode::WholeTree),
    ];
    let mut run = Run::new(jobs, ".tgz");
    run.step(Event::Start, fixed());
    run.step(Event::SourceChecked { is_dir: true }, fixed());
    run.step(Event::DestinationReady { ok: true }, fixed());
    let a = run.step(Event::Archived { success: true }, fixed());
    assert_eq!(expect_path(&a, "check"), "/missing");
    let a = run.step(Event::SourceChecked { is_dir: false }, fixed());
    assert!(matches!(a, Action::Abort { error: RunError::MissingSource { job: 1 } }));
    assert_eq!(run.phase(), Phase::Aborted);
    assert!(!run.accepts(&Event::Start));
    assert!(!run.accepts(&Event::SourceChecked { is_dir: true }));
    assert!(!run.accepts(&Event::Archived { success: true }));
}

#[test]
fn archiver_failure_does_not_stop_the_run() {
    let jobs = vec![
        Job::new("/a", "/dst", Mode::WholeTree),
        Job::new("/b", "/dst", Mode::WholeTree),
    ];
    let mut run = Run::new(jobs, ".tgz");
    run.step(Event::Start, fixed());
    run.step(Event::SourceChecked { is_dir: true }, fixed());
    run.step(Event::DestinationReady { ok: true }, fixed());
    let a = run.step(Event::Archived { success: false }, fixed());
    assert_eq!(expect_path(&a, "check"), "/b");
    run.step(Event::SourceChecked { is_dir: true }, fixed());
    let a = run.step(Event::DestinationReady { ok: true }, fixed());
    let (root, _) = expect_archive(&a);
    assert_eq!(root, "/b");
}

#[test]
fn destination_failure_aborts() {
    let mut run = Run::new(vec![Job::new("/a", "/dst", Mode::WholeTree)], ".tgz");
    run.step(Event::Start, fixed());
    run.step(Event::SourceChecked { is_dir: true }, fixed());
    let a = run.step(Event::DestinationReady { ok: false }, fixed());
    assert!(matches!(a, Action::Abort { error: RunError::Io { job: 0 } }));
}

#[test]
fn listing_failure_aborts() {
    let mut run = Run::new(vec![Job::new("/a", "/dst", Mode::PerSubfolder)], ".tgz");
    run.step(Event::Start, fixed());
    run.step(Event::SourceChecked { is_dir: true }, fixed());
    run.step(Event::DestinationReady { ok: true }, fixed());
    let a = run.step(Event::Listed { entries: None }, fixed());
    assert!(matches!(a, Action::Abort { error: RunError::Io { job: 0 } }));
}

#[test]
fn unnamed_source_aborts() {
    let mut run = Run::new(vec![Job::new("/", "/dst", Mode::WholeTree)], ".tgz");
    run.step(Event::Start, fixed());
    let a = run.step(Event::SourceChecked { is_dir: true }, fixed());
    assert!(matches!(a, Action::Abort { error: RunError::UnnamedSource { job: 0 } }));
}

#[test]
fn empty_run_finishes_at_once() {
    let mut run = Run::new(Vec::new(), ".tgz");
    assert!(matches!(run.step(Event::Start, fixed()), Action::Finish));
}

#[test]
fn advance_names_the_archive_at_the_current_time() {
    let mut run = Run::new(vec![Job::new("/data/proj", "/backup", Mode::WholeTree)], ".tar.zst");
    run.advance(Event::Start);
    run.advance(Event::SourceChecked { is_dir: true });
    let a = run.advance(Event::DestinationReady { ok: true });
    let (_, out) = expect_archive(&a);
    assert!(out.starts_with("/backup/proj_"));
    assert!(out.ends_with(".tar.zst"));
    assert_eq!(out.len(), "/backup/proj_".len() + 14 + ".tar.zst".len());
}

#[test]
fn same_minute_gives_the_same_name() {
    let a = archive_file_name("proj", fixed(), ".tgz");
    let b = archive_file_name("proj", fixed(), ".tgz");
    assert_eq!(a, b);
}
