use memo::compose::{seed_content, ComposeAction, ComposeEvent, ComposeSession};
use memo::names::{make_candidate, name_taken, resolve_filename};
use memo::numeral::u64_to_string;
use memo::selector::{pick_random, SelectCursor, SelectKey};
use memo::timestamp::{format_timestamp, parse_timestamp, TimeFields};
use memo::Error;

fn drive_to_finalize(title: Option<String>, existing: Vec<String>) -> String {
    let (mut session, action) = ComposeSession::start(title);
    match action {
        ComposeAction::CreateDraft { .. } => {}
        _ => panic!("expected a draft to be requested first"),
    }
    match session.step(ComposeEvent::DraftCreated) {
        ComposeAction::RunEditor => {}
        _ => panic!("expected the editor to be requested"),
    }
    match session.step(ComposeEvent::EditorExited { ok: true }) {
        ComposeAction::ListDirectory => {}
        _ => panic!("expected a directory listing to be requested"),
    }
    match session.step(ComposeEvent::Listed { existing }) {
        ComposeAction::Finalize { filename } => filename,
        _ => panic!("expected a finalize step"),
    }
}

#[test]
fn fresh_title_keeps_plain_name() {
    let filename = drive_to_finalize(Some(String::from("Ideas")), vec![]);
    assert_eq!(filename, "Ideas.md");
}

#[test]
fn fresh_title_ignores_other_entries() {
    let existing = vec![String::from("Other.md"), String::from("Ideas (1).md")];
    let filename = drive_to_finalize(Some(String::from("Ideas")), existing);
    assert_eq!(filename, "Ideas.md");
}

#[test]
fn taken_title_gets_first_suffix() {
    let existing = vec![String::from("Ideas.md")];
    let filename = drive_to_finalize(Some(String::from("Ideas")), existing);
    assert_eq!(filename, "Ideas (1).md");
}

#[test]
fn taken_title_and_suffix_get_second_suffix() {
    let existing = vec![String::from("Ideas.md"), String::from("Ideas (1).md")];
    let filename = drive_to_finalize(Some(String::from("Ideas")), existing);
    assert_eq!(filename, "Ideas (2).md");
}

#[test]
fn resolve_skips_to_first_gap() {
    let existing = vec![String::from("Ideas.md"), String::from("Ideas (2).md")];
    let filename = resolve_filename(&existing, "Ideas");
    assert_eq!(filename, "Ideas (1).md");
}

#[test]
fn empty_title_is_a_valid_title() {
    let filename = drive_to_finalize(Some(String::new()), vec![]);
    assert_eq!(filename, ".md");
}

#[test]
fn successful_session_reports_success() {
    let (mut session, _) = ComposeSession::start(Some(String::from("Log")));
    session.step(ComposeEvent::DraftCreated);
    session.step(ComposeEvent::EditorExited { ok: true });
    session.step(ComposeEvent::Listed { existing: vec![] });
    match session.step(ComposeEvent::Renamed) {
        ComposeAction::Stop { result } => assert_eq!(result, Ok(())),
        _ => panic!("expected the session to stop"),
    }
}

#[test]
fn editor_failure_stops_before_finalize() {
    let (mut session, _) = ComposeSession::start(Some(String::from("Ideas")));
    match session.step(ComposeEvent::DraftCreated) {
        ComposeAction::RunEditor => {}
        _ => panic!("expected the editor to be requested"),
    }
    match session.step(ComposeEvent::EditorExited { ok: false }) {
        ComposeAction::Stop { result } => assert_eq!(result, Err(Error::EditorFailed)),
        _ => panic!("a failed editor run must stop the session"),
    }
}

#[test]
fn draft_failure_reports_io_error() {
    let (mut session, _) = ComposeSession::start(None);
    match session.step(ComposeEvent::DraftFailed) {
        ComposeAction::Stop { result } => assert_eq!(result, Err(Error::IoError)),
        _ => panic!("a failed draft must stop the session"),
    }
}

#[test]
fn listing_failure_reports_io_error() {
    let (mut session, _) = ComposeSession::start(None);
    session.step(ComposeEvent::DraftCreated);
    session.step(ComposeEvent::EditorExited { ok: true });
    match session.step(ComposeEvent::ListFailed) {
        ComposeAction::Stop { result } => assert_eq!(result, Err(Error::IoError)),
        _ => panic!("a failed listing must stop the session"),
    }
}

#[test]
fn rename_failure_reports_io_error() {
    let (mut session, _) = ComposeSession::start(Some(String::from("x")));
    session.step(ComposeEvent::DraftCreated);
    session.step(ComposeEvent::EditorExited { ok: true });
    session.step(ComposeEvent::Listed { existing: vec![] });
    match session.step(ComposeEvent::RenameFailed) {
        ComposeAction::Stop { result } => assert_eq!(result, Err(Error::IoError)),
        _ => panic!("a failed rename must stop the session"),
    }
}

#[test]
fn seed_holds_heading_for_supplied_title() {
    let seed = seed_content(&Some(String::from("Groceries")));
    assert_eq!(seed, "# Groceries\n");
}

#[test]
fn seed_is_empty_without_title() {
    let seed = seed_content(&None);
    assert_eq!(seed, "");
}

#[test]
fn start_seeds_the_draft() {
    let (_, action) = ComposeSession::start(Some(String::from("Plan")));
    match action {
        ComposeAction::CreateDraft { seed } => assert_eq!(seed, "# Plan\n"),
        _ => panic!("expected a draft to be requested first"),
    }
}

#[test]
fn untitled_note_gets_timestamp_name_close_to_now() {
    let before = chrono::Local::now().naive_local();
    let filename = drive_to_finalize(None, vec![]);
    let after = chrono::Local::now().naive_local();

    let title = filename.strip_suffix(".md").expect("timestamp name must end in .md");
    let parsed = parse_timestamp(title).expect("timestamp name must parse back");
    let when = chrono::NaiveDate::from_ymd_opt(parsed.year, parsed.month as u32, parsed.day as u32)
        .expect("parsed date must be valid")
        .and_hms_opt(parsed.hour as u32, parsed.minute as u32, 0)
        .expect("parsed time must be valid");
    assert!(when >= before - chrono::Duration::seconds(60));
    assert!(when <= after);
}

#[test]
fn format_shows_afternoon_time() {
    let f = TimeFields { year: 2026, month: 10, day: 12, hour: 16, minute: 30 };
    assert_eq!(format_timestamp(&f), "Oct 12, 2026 - 04:30pm");
}

#[test]
fn format_shows_midnight_as_twelve_am() {
    let f = TimeFields { year: 2024, month: 1, day: 1, hour: 0, minute: 0 };
    assert_eq!(format_timestamp(&f), "Jan 01, 2024 - 12:00am");
}

#[test]
fn format_shows_noon_as_twelve_pm() {
    let f = TimeFields { year: 1999, month: 6, day: 30, hour: 12, minute: 5 };
    assert_eq!(format_timestamp(&f), "Jun 30, 1999 - 12:05pm");
}

#[test]
fn format_pads_small_years() {
    let f = TimeFields { year: 33, month: 3, day: 3, hour: 3, minute: 3 };
    assert_eq!(format_timestamp(&f), "Mar 03, 0033 - 03:03am");
}

#[test]
fn parse_inverts_format() {
    let f = TimeFields { year: 2026, month: 10, day: 12, hour: 16, minute: 30 };
    assert_eq!(parse_timestamp(&format_timestamp(&f)), Some(f));
    let g = TimeFields { year: 0, month: 12, day: 31, hour: 0, minute: 59 };
    assert_eq!(parse_timestamp(&format_timestamp(&g)), Some(g));
}

#[test]
fn parse_rejects_other_text() {
    assert_eq!(parse_timestamp("not a timestamp at all!"), None);
    assert_eq!(parse_timestamp("Oct 12, 2026 - 04:30xx"), None);
    assert_eq!(parse_timestamp("Zzz 12, 2026 - 04:30pm"), None);
    assert_eq!(parse_timestamp(""), None);
}

#[test]
fn selector_script_picks_second_entry() {
    let mut cursor = SelectCursor::new(3).expect("three entries must be selectable");
    assert_eq!(cursor.step(SelectKey::Down), None);
    assert_eq!(cursor.step(SelectKey::Down), None);
    assert_eq!(cursor.step(SelectKey::Up), None);
    assert_eq!(cursor.step(SelectKey::Confirm), Some(1));
}

#[test]
fn selector_clamps_at_both_ends() {
    let mut cursor = SelectCursor::new(2).expect("two entries must be selectable");
    assert_eq!(cursor.step(SelectKey::Up), None);
    assert_eq!(cursor.pos, 0);
    cursor.step(SelectKey::Down);
    cursor.step(SelectKey::Down);
    cursor.step(SelectKey::Down);
    assert_eq!(cursor.step(SelectKey::Confirm), Some(1));
}

#[test]
fn selector_refuses_empty_list() {
    assert_eq!(SelectCursor::new(0), Err(Error::NoNotesFound));
}

#[test]
fn random_pick_refuses_empty_list() {
    assert_eq!(pick_random(0), Err(Error::NoNotesFound));
}

#[test]
fn random_pick_of_one_is_that_one() {
    assert_eq!(pick_random(1), Ok(0));
}

#[test]
fn random_pick_is_roughly_uniform() {
    let n: usize = 5;
    let rounds: usize = 20000;
    let mut counts = vec![0usize; n];
    for _ in 0..rounds {
        let i = pick_random(n).expect("a non-empty list must yield a pick");
        assert!(i < n);
        counts[i] += 1;
    }
    let expected = rounds / n;
    for &c in &counts {
        assert!(c > expected * 4 / 5, "a note was picked far too rarely");
        assert!(c < expected * 6 / 5, "a note was picked far too often");
    }
}

#[test]
fn numerals_render_in_decimal() {
    assert_eq!(u64_to_string(0), "0");
    assert_eq!(u64_to_string(7), "7");
    assert_eq!(u64_to_string(12345), "12345");
    assert_eq!(u64_to_string(1000), "1000");
}

#[test]
fn candidates_follow_the_suffix_pattern() {
    assert_eq!(make_candidate("Ideas", 0), "Ideas.md");
    assert_eq!(make_candidate("Ideas", 1), "Ideas (1).md");
    assert_eq!(make_candidate("Ideas", 12), "Ideas (12).md");
}

#[test]
fn name_taken_looks_at_whole_names() {
    let existing = vec![String::from("Ideas.md"), String::from("Log (1).md")];
    assert!(name_taken(&existing, &String::from("Ideas.md")));
    assert!(!name_taken(&existing, &String::from("Ideas")));
    assert!(!name_taken(&existing, &String::from("Log.md")));
}
