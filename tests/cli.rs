use flash_kv::cli::{
    execute_line, get_help_text, get_state, init as init_mirror, take_change, update_state,
    AppState, Session, HELP_TEXT, KEY_COUNTER, KEY_MODE, LINE_CAPACITY,
};
use flash_kv::command::{parse_command, parse_command_bytes, Command};
use flash_kv::flash_map::Flash;
use flash_kv::region::flash_range_from_linker;
use flash_kv::storage::{init, InitOutcome, Recovery, Storage};
use sequential_storage::mock_flash::WriteCountCheck;

fn fresh_storage() -> Storage {
    let flash = Flash::new(WriteCountCheck::Twice, None, false);
    let region = flash_range_from_linker(0x0800_0000, 0x0800_0400).unwrap();
    let (s, outcome) = init(flash, region).unwrap();
    assert_eq!(outcome, InitOutcome::Recovered(Recovery::MarkerMissing));
    s
}

fn text(b: &[u8]) -> String {
    String::from_utf8(b.to_vec()).unwrap()
}

#[test]
fn parse_recognises_each_verb() {
    assert_eq!(parse_command("get"), Command::Get);
    assert_eq!(parse_command("get now"), Command::Get);
    assert_eq!(parse_command("set 42"), Command::SetCounter { counter: 42 });
    assert_eq!(parse_command("set +7"), Command::SetCounter { counter: 7 });
    assert_eq!(parse_command("set   9 extra"), Command::SetCounter { counter: 9 });
    assert_eq!(parse_command("set 4294967295"), Command::SetCounter { counter: 4294967295 });
    assert_eq!(parse_command("mode 3"), Command::SetMode { mode: 3 });
    assert_eq!(parse_command("mode 255"), Command::SetMode { mode: 255 });
    assert_eq!(parse_command("help"), Command::Help);
}

#[test]
fn parse_splits_words_on_unicode_whitespace() {
    assert_eq!(parse_command("set 42\u{a0}extra"), Command::SetCounter { counter: 42 });
    assert_eq!(parse_command("set \u{3000}7"), Command::SetCounter { counter: 7 });
    assert_eq!(parse_command("mode 9\u{2029}"), Command::SetMode { mode: 9 });
    assert_eq!(parse_command("get\u{85}"), Command::Get);
    assert_eq!(parse_command("set 4\u{e9}2"), Command::Unknown);
    assert_eq!(parse_command("mode\t5"), Command::Unknown);
}

#[test]
fn parse_rejects_malformed_input() {
    assert_eq!(parse_command("set 4294967296"), Command::Unknown);
    assert_eq!(parse_command("set abc"), Command::Unknown);
    assert_eq!(parse_command("set -1"), Command::Unknown);
    assert_eq!(parse_command("set +"), Command::Unknown);
    assert_eq!(parse_command("set "), Command::Unknown);
    assert_eq!(parse_command("set"), Command::Unknown);
    assert_eq!(parse_command("mode 256"), Command::Unknown);
    assert_eq!(parse_command("mode x1"), Command::Unknown);
    assert_eq!(parse_command("help me"), Command::Unknown);
    assert_eq!(parse_command("getter"), Command::Unknown);
    assert_eq!(parse_command("getx"), Command::Unknown);
    assert_eq!(parse_command("HELP"), Command::Unknown);
    assert_eq!(parse_command(""), Command::Unknown);
    assert_eq!(parse_command_bytes(b"frobnicate"), Command::Unknown);
}

#[test]
fn help_text_lists_the_commands() {
    assert_eq!(get_help_text(), HELP_TEXT);
    assert!(get_help_text().starts_with("Available commands:\r\n"));
    assert!(get_help_text().contains("set <value> - Set counter to <value>\r\n"));
}

#[test]
fn mirror_starts_with_initial_state() {
    let mut m = init_mirror(AppState { counter: 3, mode: 1 });
    assert_eq!(get_state(&m), AppState { counter: 3, mode: 1 });
    assert!(!take_change(&mut m));
}

#[test]
fn two_writes_give_one_wake_up_with_second_value() {
    let mut m = init_mirror(AppState { counter: 0, mode: 0 });
    update_state(&mut m, AppState { counter: 1, mode: 1 });
    update_state(&mut m, AppState { counter: 2, mode: 2 });
    assert!(take_change(&mut m));
    assert_eq!(get_state(&m), AppState { counter: 2, mode: 2 });
    assert!(!take_change(&mut m));
}

#[test]
fn session_echoes_and_completes_a_line() {
    let mut s = Session::new();
    let (out, done) = s.feed(b"set 42\r\n");
    assert!(done);
    assert_eq!(out, b"set 42\r\r\n".to_vec());
    assert_eq!(s.take_line(), b"set 42".to_vec());
    assert_eq!(s.take_line(), Vec::<u8>::new());
}

#[test]
fn session_handles_backspace_and_noise() {
    let mut s = Session::new();
    let (out, done) = s.feed(b"ab\x08c\x7f\x08\x01d");
    assert!(!done);
    assert_eq!(out, b"ab\x08\x08 \x08c\x7f\x08 \x08\x08\x08 \x08\x01d".to_vec());
    assert_eq!(s.take_line(), b"d".to_vec());
    let (out, _) = s.feed(b"\x08");
    assert_eq!(out, b"\x08".to_vec());
}

#[test]
fn session_caps_the_line_length() {
    let mut s = Session::new();
    let long = vec![b'x'; LINE_CAPACITY + 10];
    let (out, done) = s.feed(&long);
    assert!(!done);
    assert_eq!(out.len(), LINE_CAPACITY + 10);
    assert_eq!(s.take_line().len(), LINE_CAPACITY);
}

#[test]
fn welcome_ends_with_prompt() {
    assert!(Session::welcome().ends_with("> "));
    assert!(Session::welcome().contains("Type 'help' for available commands"));
}

#[test]
fn get_command_reports_state() {
    let mut st = fresh_storage();
    let mut m = init_mirror(AppState { counter: 17, mode: 4 });
    let out = execute_line(b"get", &mut st, &mut m).0;
    assert_eq!(text(&out), "Counter: 17, Mode: 4\r\n> ");
    assert!(!take_change(&mut m));
}

#[test]
fn set_command_persists_then_updates_mirror() {
    let mut st = fresh_storage();
    let mut m = init_mirror(AppState { counter: 0, mode: 9 });
    let (out, stored) = execute_line(b"set 42", &mut st, &mut m);
    assert_eq!(stored, Some(Ok(())));
    assert_eq!(text(&out), "Counter set to 42\r\n> ");
    assert_eq!(st.get::<u32>(KEY_COUNTER), Ok(Some(42)));
    assert_eq!(get_state(&m), AppState { counter: 42, mode: 9 });
    assert!(take_change(&mut m));
}

#[test]
fn mode_command_persists_then_updates_mirror() {
    let mut st = fresh_storage();
    let mut m = init_mirror(AppState { counter: 5, mode: 0 });
    let out = execute_line(b"mode 200", &mut st, &mut m).0;
    assert_eq!(text(&out), "Mode set to 200\r\n> ");
    assert_eq!(st.get::<u8>(KEY_MODE), Ok(Some(200)));
    assert_eq!(get_state(&m), AppState { counter: 5, mode: 200 });
}

#[test]
fn other_lines_get_help_or_unknown() {
    let mut st = fresh_storage();
    let mut m = init_mirror(AppState { counter: 0, mode: 0 });
    let out = execute_line(b"help", &mut st, &mut m).0;
    assert_eq!(text(&out), format!("{}> ", HELP_TEXT));
    let out = execute_line(b"set x", &mut st, &mut m).0;
    assert_eq!(text(&out), "Unknown command. Type 'help' for available commands\r\n> ");
    let (out, stored) = execute_line(b"", &mut st, &mut m);
    assert!(out.is_empty());
    assert_eq!(stored, None);
    assert!(!take_change(&mut m));
}

#[test]
fn end_to_end_scenario() {
    let mut st = fresh_storage();
    assert_eq!(st.insert("app/run_count", &1u32), Ok(()));
    assert_eq!(st.get::<u32>("app/run_count"), Ok(Some(1)));
    assert_eq!(st.get::<u32>("nonexistent"), Ok(None));
    let mut m = init_mirror(AppState { counter: 1, mode: 0 });
    let mut session = Session::new();
    let (echo, done) = session.feed(b"set 42\r\n");
    assert!(done);
    assert!(echo.starts_with(b"set 42"));
    let line = session.take_line();
    let reply = execute_line(&line, &mut st, &mut m).0;
    assert_eq!(text(&reply), "Counter set to 42\r\n> ");
    assert_eq!(st.get::<u32>("app/run_count"), Ok(Some(42)));
    assert_eq!(get_state(&m).counter, 42);
}
