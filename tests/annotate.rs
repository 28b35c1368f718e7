use annotate::{
    backup_path, chomp, split_records, Action, AnnotateError, Annotator, Event, Run, Stage,
    write_record, DEFAULT_MARKER,
};

fn texts(items: &[&str]) -> Vec<String> {
    items.iter().map(|s| s.to_string()).collect()
}

fn literal(patterns: &str, marker: &str) -> Annotator {
    Annotator::compile(&texts(&[patterns]), &Vec::new(), marker.to_string()).unwrap()
}

fn regex(patterns: &str, marker: &str) -> Annotator {
    Annotator::compile(&Vec::new(), &texts(&[patterns]), marker.to_string()).unwrap()
}

#[test]
fn chomp_strips_one_newline() {
    let mut s = String::from("ab\n");
    chomp(&mut s);
    assert_eq!(s, "ab");
    let mut s = String::from("ab\n\n");
    chomp(&mut s);
    assert_eq!(s, "ab\n");
    let mut s = String::from("ab\r");
    chomp(&mut s);
    assert_eq!(s, "ab\r");
    let mut s = String::new();
    chomp(&mut s);
    assert_eq!(s, "");
}

#[test]
fn records_split_on_newlines() {
    assert!(split_records("").is_empty());
    assert_eq!(split_records("a\n"), vec!["a"]);
    assert_eq!(split_records("a"), vec!["a"]);
    assert_eq!(split_records("a\n\nb"), vec!["a", "", "b"]);
    assert_eq!(split_records("\n"), vec![""]);
    assert_eq!(split_records("x\r\ny\n"), vec!["x\r", "y"]);
}

#[test]
fn literal_matches_equal_and_containing_lines() {
    let a = literal("foo\n", ">> ");
    assert!(a.is_match("foo"));
    assert!(a.is_match("a foo b"));
    assert!(!a.is_match("fo"));
}

#[test]
fn literal_meta_characters_match_only_themselves() {
    let a = literal("a.b\n(x)\n", "!");
    assert!(a.is_match("a.b"));
    assert!(!a.is_match("axb"));
    assert!(a.is_match("(x)"));
    assert!(!a.is_match("x"));
}

#[test]
fn regex_patterns_match_as_written() {
    let a = regex("^ba+z$\n", "!");
    assert!(a.is_match("baaaz"));
    assert!(!a.is_match("bz"));
    assert!(!a.is_match("xbaz"));
}

#[test]
fn invalid_regex_fails_compilation() {
    let r = Annotator::compile(&texts(&["ok\n"]), &texts(&["(\n"]), "!".to_string());
    assert!(matches!(r, Err(AnnotateError::MatcherCompilationFailed(_))));
}

#[test]
fn no_pattern_sources_fails() {
    let r = Annotator::compile(&Vec::new(), &Vec::new(), "!".to_string());
    assert!(matches!(r, Err(AnnotateError::NoPatternSources)));
}

#[test]
fn empty_pattern_sources_match_nothing() {
    let a = Annotator::compile(&texts(&[""]), &Vec::new(), "!".to_string()).unwrap();
    assert_eq!(a.pattern_count(), 0);
    assert!(!a.is_match("anything"));
}

#[test]
fn literal_scenario_substring_match() {
    let mut a = literal("foo\n", ">> ");
    let out = a.annotate_text("foo\nfoobar\nbaz\n");
    assert_eq!(out, ">> foo\n>> foobar\nbaz\n");
}

#[test]
fn last_record_without_newline_is_annotated() {
    let mut a = literal("foo", "+");
    assert_eq!(a.annotate_text("baz\nfoo"), "baz\n+foo\n");
    assert_eq!(a.annotate_text(""), "");
}

#[test]
fn rewrite_keeps_unmatched_lines() {
    let mut a = regex("[0-9]\n", "# ");
    let out = a.annotate_text("one\n2\nthree 3\n\nfour\n");
    assert_eq!(out, "one\n# 2\n# three 3\n\nfour\n");
}

#[test]
fn second_rewrite_adds_one_marker_to_matching_lines() {
    let mut a = literal("foo\n", ">> ");
    let once = a.annotate_text("foo\nbar\n");
    let twice = a.annotate_text(&once);
    assert_eq!(twice, ">> >> foo\nbar\n");
}

#[test]
fn marker_alone_is_not_a_pattern() {
    let mut a = literal("foo\n", "+=1=+");
    let out = a.annotate_text("+=1=+bar\n");
    assert_eq!(out, "+=1=+bar\n");
}

#[test]
fn seen_lines_join_live_patterns_but_not_the_compiled_set() {
    let mut a = literal("foo\nbar\n", "!");
    assert_eq!(a.pattern_count(), 2);
    a.annotate_text("x\ny\nx\n");
    assert_eq!(a.pattern_count(), 5);
    a.annotate_text("z\n");
    assert_eq!(a.pattern_count(), 6);
    assert!(!a.is_match("x"));
    assert_eq!(a.marker(), "!");
}

#[test]
fn default_marker_text() {
    assert_eq!(DEFAULT_MARKER, "+=1=+");
}

#[test]
fn backup_path_sets_orig_extension() {
    assert_eq!(backup_path("dir/file.txt").unwrap(), "dir/file.orig");
    assert_eq!(backup_path("file").unwrap(), "file.orig");
    assert!(matches!(
        backup_path(""),
        Err(AnnotateError::BackupPathUnrepresentable { path }) if path.is_empty()
    ));
    assert!(backup_path("a/..").is_err());
}

#[test]
fn empty_target_list_finishes_at_once() {
    let mut run = Run::new(literal("foo\n", "!"), Vec::new(), false);
    assert!(matches!(run.start(), Action::Finish));
}

#[test]
fn run_walks_each_file_through_its_stages() {
    let mut run = Run::new(literal("foo\n", ">> "), texts(&["a.txt", "b"]), false);
    match run.start() {
        Action::Rename { from, to } => {
            assert_eq!(from, "a.txt");
            assert_eq!(to, "a.orig");
        }
        other => panic!("unexpected {:?}", other),
    }
    assert!(matches!(run.step(Event::Succeeded), Action::CreateOutput { path } if path == "a.txt"));
    assert!(matches!(run.step(Event::Succeeded), Action::ReadBackup { path } if path == "a.orig"));
    match run.step(Event::Read("foo\nbar".to_string())) {
        Action::WriteOutput { path, content } => {
            assert_eq!(path, "a.txt");
            assert_eq!(content, ">> foo\nbar\n");
        }
        other => panic!("unexpected {:?}", other),
    }
    assert!(matches!(run.step(Event::Succeeded), Action::DeleteBackup { path } if path == "a.orig"));
    assert!(matches!(run.step(Event::Succeeded), Action::Rename { from, to } if from == "b" && to == "b.orig"));
    assert!(matches!(run.step(Event::Succeeded), Action::CreateOutput { .. }));
    assert!(matches!(run.step(Event::Succeeded), Action::ReadBackup { .. }));
    assert!(matches!(run.step(Event::Read(String::new())), Action::WriteOutput { content, .. } if content.is_empty()));
    assert!(matches!(run.step(Event::Succeeded), Action::DeleteBackup { .. }));
    assert!(matches!(run.step(Event::Succeeded), Action::Finish));
}

#[test]
fn kept_backups_are_not_deleted() {
    let mut run = Run::new(literal("foo\n", "!"), texts(&["a.txt"]), true);
    assert!(matches!(run.start(), Action::Rename { .. }));
    run.step(Event::Succeeded);
    run.step(Event::Succeeded);
    run.step(Event::Read("foo\n".to_string()));
    assert!(matches!(run.step(Event::Succeeded), Action::Finish));
}

fn run_to(stage_steps: usize) -> Run {
    let mut run = Run::new(literal("foo\n", "!"), texts(&["a.txt"]), false);
    run.start();
    let events = [
        Event::Succeeded,
        Event::Succeeded,
        Event::Read("foo\n".to_string()),
        Event::Succeeded,
    ];
    for e in events.into_iter().take(stage_steps) {
        run.step(e);
    }
    run
}

#[test]
fn each_failure_aborts_with_its_error() {
    assert!(matches!(
        run_to(0).step(Event::Failed),
        Action::Abort(AnnotateError::RenameFailed { from, to }) if from == "a.txt" && to == "a.orig"
    ));
    assert!(matches!(
        run_to(1).step(Event::Failed),
        Action::Abort(AnnotateError::OutputCreateFailed { path }) if path == "a.txt"
    ));
    assert!(matches!(
        run_to(2).step(Event::Failed),
        Action::Abort(AnnotateError::RecordReadFailed { path }) if path == "a.orig"
    ));
    assert!(matches!(
        run_to(3).step(Event::Failed),
        Action::Abort(AnnotateError::WriteFailed { path }) if path == "a.txt"
    ));
    assert!(matches!(
        run_to(4).step(Event::Failed),
        Action::Abort(AnnotateError::BackupDeleteFailed { path }) if path == "a.orig"
    ));
}

#[test]
fn unrepresentable_backup_aborts_before_any_rename() {
    let mut run = Run::new(literal("foo\n", "!"), texts(&[""]), false);
    assert!(matches!(
        run.start(),
        Action::Abort(AnnotateError::BackupPathUnrepresentable { .. })
    ));
}

#[test]
fn stage_values_compare() {
    assert_eq!(Stage::Done, Stage::Done);
    assert_ne!(Stage::Done, Stage::Aborted);
}

#[test]
fn record_written_with_marker_only_when_matched() {
    let mut out = String::from("x\n");
    write_record(&mut out, true, ">> ", "foo");
    write_record(&mut out, false, ">> ", "bar");
    write_record(&mut out, false, ">> ", "");
    assert_eq!(out, "x\n>> foo\nbar\n\n");
}

#[test]
fn lines_seen_in_a_file_do_not_mark_its_later_lines() {
    let mut a = literal("zzz\n", "+=1=+");
    assert_eq!(a.annotate_text("x\nx\n"), "x\nx\n");
    assert_eq!(a.annotate_text("x\n"), "x\n");
}

#[test]
fn literal_does_not_mark_unrelated_lines() {
    let mut a = literal("a.c\n", "!");
    assert_eq!(a.annotate_text("abc\na.c\nxa.cx\n"), "abc\n!a.c\n!xa.cx\n");
}

#[test]
fn plain_names_get_the_orig_extension_appended() {
    assert_eq!(backup_path("notes").unwrap(), "notes.orig");
    assert_eq!(backup_path("dir/notes.md").unwrap(), "dir/notes.orig");
    assert_eq!(backup_path("a.b.c").unwrap(), "a.b.orig");
}

#[test]
fn live_patterns_grow_over_every_file_of_a_run() {
    let a = Annotator::compile(&texts(&["foo\n"]), &texts(&["b+\n"]), "!".to_string()).unwrap();
    let mut run = Run::new(a, texts(&["one", "two"]), true);
    assert_eq!(run.annotator().pattern_count(), 2);
    run.start();
    run.step(Event::Succeeded);
    run.step(Event::Succeeded);
    run.step(Event::Read("foo\nbar\nfoo\n".to_string()));
    assert_eq!(run.annotator().pattern_count(), 5);
    run.step(Event::Succeeded);
    run.step(Event::Succeeded);
    run.step(Event::Succeeded);
    match run.step(Event::Read("x".to_string())) {
        Action::WriteOutput { content, .. } => assert_eq!(content, "x\n"),
        other => panic!("unexpected {:?}", other),
    }
    assert_eq!(run.annotator().pattern_count(), 6);
    assert!(matches!(run.step(Event::Succeeded), Action::Finish));
}
