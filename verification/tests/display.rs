use whalespotter::computer::{ComputationEvent, ScanError};
use whalespotter::coordinator::{decode, Effect, Input, Key, Modifiers, UserAction};
use whalespotter::file_info::FileInfo;
use whalespotter::screen::{decimal_string, u64_to_str, Area, ScanStatus, Screen};

fn row(path: &str, size: u64, is_dir: bool) -> FileInfo {
    FileInfo { path: path.to_string(), file_count: 1, size, is_dir }
}

#[test]
fn small_numbers_are_written_in_full() {
    assert_eq!(u64_to_str(0), "0");
    assert_eq!(u64_to_str(7), "7");
    assert_eq!(u64_to_str(1024), "1024");
    assert_eq!(u64_to_str(2299), "2299");
}

#[test]
fn numbers_from_2300_on_take_a_unit() {
    assert_eq!(u64_to_str(2300), "2K");
    assert_eq!(u64_to_str(3 * 1024), "3K");
    assert_eq!(u64_to_str(2299 * 1024), "2299K");
    assert_eq!(u64_to_str(2300 * 1024), "2M");
    assert_eq!(u64_to_str(5 * 1024 * 1024), "5M");
    assert_eq!(u64_to_str(1 << 32), "4G");
    assert_eq!(u64_to_str(1 << 42), "4T");
    assert_eq!(u64_to_str(1 << 52), "4P");
    assert_eq!(u64_to_str(1 << 62), "4E");
    assert_eq!(u64_to_str(u64::MAX), "15E");
}

#[test]
fn decimal_string_writes_every_digit() {
    assert_eq!(decimal_string(0), "0");
    assert_eq!(decimal_string(9), "9");
    assert_eq!(decimal_string(10), "10");
    assert_eq!(decimal_string(1234567890), "1234567890");
    assert_eq!(decimal_string(u64::MAX), "18446744073709551615");
}

#[test]
fn title_tells_where_the_scan_stands() {
    let mut screen = Screen::new("/home/me".to_string());
    assert_eq!(screen.status(), ScanStatus::Computing);
    assert_eq!(screen.title(), "# **/home/me** *computing...*");
    screen.set_finished();
    assert_eq!(screen.status(), ScanStatus::Complete);
    assert_eq!(screen.title(), "# **/home/me**");
    screen.set_unreadable();
    assert_eq!(screen.title(), "# **/home/me** *unreadable*");
    screen.set_finished();
    assert_eq!(screen.status(), ScanStatus::Unreadable);
}

#[test]
fn new_root_clears_the_total() {
    let mut screen = Screen::new("/a".to_string());
    screen.add_to_total_size(10);
    screen.add_to_total_size(32);
    assert_eq!(screen.total_size(), 42);
    screen.set_finished();
    screen.set_new_root("/b".to_string());
    assert_eq!(screen.get_root(), "/b");
    assert_eq!(screen.total_size(), 0);
    assert_eq!(screen.status(), ScanStatus::Computing);
}

#[test]
fn total_wraps_around() {
    let mut screen = Screen::new("/a".to_string());
    screen.add_to_total_size(u64::MAX);
    screen.add_to_total_size(3);
    assert_eq!(screen.total_size(), 2);
}

#[test]
fn first_drawing_lays_the_list_out() {
    let mut screen = Screen::new("/a".to_string());
    assert!(screen.can_display(80, 24));
    let frame = screen.display(80, 24);
    assert!(frame.resized);
    assert_eq!(frame.title, "# **/a** *computing...*");
    assert_eq!(frame.title_area, Area { left: 0, top: 0, width: 80, height: 1 });
    assert_eq!(frame.list_area, Area { left: 0, top: 1, width: 80, height: 20 });
    assert_eq!(frame.hint_area, Area { left: 0, top: 22, width: 80, height: 1 });
    let again = screen.display(80, 24);
    assert!(!again.resized);
    assert_eq!(again.list_area, frame.list_area);
    let wider = screen.display(100, 30);
    assert!(wider.resized);
    assert_eq!(wider.list_area, Area { left: 0, top: 1, width: 100, height: 26 });
}

#[test]
fn terminal_too_small_cannot_be_drawn() {
    let screen = Screen::new("/a".to_string());
    assert!(!screen.can_display(80, 3));
    assert!(!screen.can_display(80, 1));
    assert!(screen.can_display(80, 4));
    assert!(!screen.can_display(0, 0));
}

#[test]
fn record_adds_a_row_and_its_size() {
    let mut screen = Screen::new("/a".to_string());
    let effect = screen.on_computation(ComputationEvent::FileInfo(row("/a/x", 5, false)));
    assert_eq!(effect, Effect::AddRow(row("/a/x", 5, false)));
    let effect = screen.on_computation(ComputationEvent::FileInfo(row("/a/d", 7, true)));
    assert_eq!(effect, Effect::AddRow(row("/a/d", 7, true)));
    assert_eq!(screen.total_size(), 12);
    assert_eq!(screen.status(), ScanStatus::Computing);
    assert_eq!(screen.on_computation(ComputationEvent::Finished), Effect::Nothing);
    assert_eq!(screen.status(), ScanStatus::Complete);
    assert_eq!(screen.total_size(), 12);
}

#[test]
fn enter_on_a_directory_starts_a_scan_of_it() {
    let mut screen = Screen::new("/a".to_string());
    screen.add_to_total_size(9);
    screen.set_finished();
    let selected = row("/a/d", 7, true);
    let effect = screen.apply(UserAction::Enter, Some(&selected), Some("/".to_string()));
    assert_eq!(effect, Effect::StartScan("/a/d".to_string()));
    assert_eq!(screen.get_root(), "/a/d");
    assert_eq!(screen.total_size(), 0);
    assert_eq!(screen.status(), ScanStatus::Computing);
}

#[test]
fn enter_on_a_file_opens_it() {
    let mut screen = Screen::new("/a".to_string());
    screen.add_to_total_size(9);
    let selected = row("/a/x", 5, false);
    let effect = screen.apply(UserAction::Enter, Some(&selected), None);
    assert_eq!(effect, Effect::OpenFile("/a/x".to_string()));
    assert_eq!(screen.get_root(), "/a");
    assert_eq!(screen.total_size(), 9);
}

#[test]
fn enter_without_selection_does_nothing() {
    let mut screen = Screen::new("/a".to_string());
    assert_eq!(screen.apply(UserAction::Enter, None, None), Effect::Nothing);
    assert_eq!(screen.get_root(), "/a");
}

#[test]
fn refresh_scans_the_same_directory_again() {
    let mut screen = Screen::new("/a".to_string());
    screen.add_to_total_size(9);
    screen.set_finished();
    let selected = row("/a/x", 5, false);
    let effect = screen.apply(UserAction::Refresh, Some(&selected), None);
    assert_eq!(effect, Effect::StartScan("/a".to_string()));
    assert_eq!(screen.get_root(), "/a");
    assert_eq!(screen.total_size(), 0);
    assert_eq!(screen.status(), ScanStatus::Computing);
}

#[test]
fn escape_drops_the_selection_first() {
    let mut screen = Screen::new("/a/b".to_string());
    let selected = row("/a/b/x", 5, false);
    let effect = screen.apply(UserAction::Escape, Some(&selected), Some("/a".to_string()));
    assert_eq!(effect, Effect::Unselect);
    assert_eq!(screen.get_root(), "/a/b");
}

#[test]
fn escape_without_selection_goes_to_the_parent_or_quits() {
    let mut screen = Screen::new("/a/b".to_string());
    let effect = screen.apply(UserAction::Escape, None, Some("/a".to_string()));
    assert_eq!(effect, Effect::StartScan("/a".to_string()));
    assert_eq!(screen.get_root(), "/a");
    assert_eq!(screen.apply(UserAction::Escape, None, None), Effect::Quit);
    assert_eq!(screen.get_root(), "/a");
}

#[test]
fn escape_looks_the_parent_up() {
    let mut screen = Screen::new("/a/b".to_string());
    assert_eq!(screen.on_user(UserAction::Escape, None), Effect::StartScan("/a".to_string()));
    assert_eq!(screen.on_user(UserAction::Escape, None), Effect::StartScan("/".to_string()));
    assert_eq!(screen.get_root(), "/");
    assert_eq!(screen.on_user(UserAction::Escape, None), Effect::Quit);
    assert_eq!(screen.get_root(), "/");
}

#[test]
fn other_actions_leave_the_scan_alone() {
    let mut screen = Screen::new("/a".to_string());
    screen.add_to_total_size(9);
    let selected = row("/a/x", 5, false);
    let cases = [
        (UserAction::Home, Effect::SelectFirst),
        (UserAction::End, Effect::SelectLast),
        (UserAction::PageUp, Effect::ScrollPages(-1)),
        (UserAction::PageDown, Effect::ScrollPages(1)),
        (UserAction::Up, Effect::SelectNext(true)),
        (UserAction::Down, Effect::SelectNext(false)),
        (UserAction::Wheel(-3), Effect::ScrollLines(-3)),
        (UserAction::Quit, Effect::Quit),
        (UserAction::Other, Effect::Nothing),
    ];
    for (action, expected) in cases {
        assert_eq!(screen.on_user(action, Some(&selected)), expected);
        assert_eq!(screen.get_root(), "/a");
        assert_eq!(screen.total_size(), 9);
        assert_eq!(screen.status(), ScanStatus::Computing);
    }
}

#[test]
fn closed_stream_aborts() {
    let mut screen = Screen::new("/a".to_string());
    screen.add_to_total_size(4);
    assert_eq!(screen.on_received(None), Effect::Abort);
    assert_eq!(screen.total_size(), 4);
    assert_eq!(screen.status(), ScanStatus::Computing);
    let effect = screen.on_received(Some(ComputationEvent::FileInfo(row("/a/x", 5, false))));
    assert_eq!(effect, Effect::AddRow(row("/a/x", 5, false)));
    assert_eq!(screen.total_size(), 9);
    assert_eq!(screen.on_received(Some(ComputationEvent::Finished)), Effect::Nothing);
    assert_eq!(screen.status(), ScanStatus::Complete);
}

#[test]
fn escape_at_the_root_or_on_an_empty_path_quits() {
    let mut screen = Screen::new("/".to_string());
    assert_eq!(screen.on_user(UserAction::Escape, None), Effect::Quit);
    let mut screen = Screen::new("".to_string());
    assert_eq!(screen.on_user(UserAction::Escape, None), Effect::Quit);
    let mut screen = Screen::new("relative".to_string());
    assert_eq!(screen.on_user(UserAction::Escape, None), Effect::StartScan("".to_string()));
}

#[test]
fn stale_record_after_completion_is_still_added() {
    let mut screen = Screen::new("/a".to_string());
    screen.on_computation(ComputationEvent::Finished);
    let effect = screen.on_computation(ComputationEvent::FileInfo(row("/a/x", 5, false)));
    assert_eq!(effect, Effect::AddRow(row("/a/x", 5, false)));
    assert_eq!(screen.total_size(), 5);
    assert_eq!(screen.status(), ScanStatus::Complete);
}

const PLAIN: Modifiers = Modifiers { shift: false, control: false, alt: false };
const CONTROL: Modifiers = Modifiers { shift: false, control: true, alt: false };

#[test]
fn plain_keys_name_their_actions() {
    let cases = [
        (Key::Enter, UserAction::Enter),
        (Key::F(5), UserAction::Refresh),
        (Key::Esc, UserAction::Escape),
        (Key::Home, UserAction::Home),
        (Key::End, UserAction::End),
        (Key::PageUp, UserAction::PageUp),
        (Key::PageDown, UserAction::PageDown),
        (Key::Up, UserAction::Up),
        (Key::Down, UserAction::Down),
        (Key::F(4), UserAction::Other),
        (Key::Char('q'), UserAction::Other),
        (Key::Other, UserAction::Other),
    ];
    for (key, action) in cases {
        assert_eq!(decode(Input::Key(key, PLAIN)), action);
    }
}

#[test]
fn control_q_quits_and_other_modified_keys_do_nothing() {
    assert_eq!(decode(Input::Key(Key::Char('q'), CONTROL)), UserAction::Quit);
    assert_eq!(decode(Input::Key(Key::Char('Q'), CONTROL)), UserAction::Other);
    assert_eq!(decode(Input::Key(Key::Char('c'), CONTROL)), UserAction::Other);
    assert_eq!(decode(Input::Key(Key::Enter, CONTROL)), UserAction::Other);
    let both = Modifiers { shift: true, control: true, alt: false };
    assert_eq!(decode(Input::Key(Key::Char('q'), both)), UserAction::Other);
    let shift = Modifiers { shift: true, control: false, alt: false };
    assert_eq!(decode(Input::Key(Key::Enter, shift)), UserAction::Other);
    let alt = Modifiers { shift: false, control: false, alt: true };
    assert_eq!(decode(Input::Key(Key::Esc, alt)), UserAction::Other);
}

#[test]
fn wheel_scrolls_and_other_inputs_do_nothing() {
    assert_eq!(decode(Input::Wheel(1)), UserAction::Wheel(1));
    assert_eq!(decode(Input::Wheel(-1)), UserAction::Wheel(-1));
    assert_eq!(decode(Input::Other), UserAction::Other);
}

#[test]
fn scan_that_could_not_start_shows_as_unreadable() {
    let mut screen = Screen::new("/a".to_string());
    screen.on_started(None);
    assert_eq!(screen.status(), ScanStatus::Computing);
    screen.on_started(Some(ScanError::RootUnreadable));
    assert_eq!(screen.status(), ScanStatus::Unreadable);
    assert_eq!(screen.get_root(), "/a");
    let effect = screen.apply(UserAction::Refresh, None, None);
    assert_eq!(effect, Effect::StartScan("/a".to_string()));
    assert_eq!(screen.status(), ScanStatus::Computing);
}
