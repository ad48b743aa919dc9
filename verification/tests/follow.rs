use taill::cursor::CursorState;
use taill::cursor::FollowCursor;
use taill::event::ChangeEvent;
use taill::event::ChangeKind;
use taill::lines::split_lines;
use taill::pattern::Pattern;
use taill::registry::FollowRegistry;
use taill::wake::WakeSlot;

fn bytes(s: &str) -> Vec<u8> {
    s.as_bytes().to_vec()
}

#[test]
fn split_returns_only_complete_lines() {
    let (lines, consumed) = split_lines(&bytes("ab\ncd\nef"));
    assert_eq!(lines, vec![bytes("ab"), bytes("cd")]);
    assert_eq!(consumed, 6);
}

#[test]
fn split_of_empty_input_is_empty() {
    let (lines, consumed) = split_lines(&Vec::new());
    assert!(lines.is_empty());
    assert_eq!(consumed, 0);
}

#[test]
fn split_keeps_blank_lines() {
    let (lines, consumed) = split_lines(&bytes("\n\nx\n"));
    assert_eq!(lines, vec![bytes(""), bytes(""), bytes("x")]);
    assert_eq!(consumed, 4);
}

#[test]
fn split_strips_only_the_newline() {
    let (lines, consumed) = split_lines(&bytes("a\r\n"));
    assert_eq!(lines, vec![bytes("a\r")]);
    assert_eq!(consumed, 3);
}

#[test]
fn emits_single_line_after_append() {
    let mut c = FollowCursor::new(0);
    let lines = c.on_read(&bytes("hello\n"));
    assert_eq!(lines, vec![bytes("hello")]);
    assert_eq!(c.offset(), 6);
    assert_eq!(c.state(), CursorState::Draining);
}

#[test]
fn burst_emits_each_line_once_in_order() {
    let mut c = FollowCursor::new(0);
    let first = c.on_read(&bytes("a\nb\nc\n"));
    assert_eq!(first, vec![bytes("a"), bytes("b"), bytes("c")]);
    assert_eq!(c.offset(), 6);

    // Nothing new: the follower goes to rest.
    assert!(c.on_read(&Vec::new()).is_empty());
    assert_eq!(c.state(), CursorState::Waiting);

    // A late coalesced wake arrives; re-reading at the offset finds nothing,
    // so nothing is emitted twice.
    assert_eq!(c.resume(), 6);
    assert!(c.on_read(&Vec::new()).is_empty());
    assert_eq!(c.offset(), 6);
}

#[test]
fn partial_write_emits_nothing_until_terminated() {
    let mut c = FollowCursor::new(0);
    assert!(c.on_read(&bytes("par")).is_empty());
    assert_eq!(c.offset(), 0);
    assert_eq!(c.state(), CursorState::Waiting);

    // The terminator arrives later; the re-read at the unchanged offset sees
    // the fragment whole — neither split nor duplicated.
    assert_eq!(c.resume(), 0);
    let lines = c.on_read(&bytes("partial\n"));
    assert_eq!(lines, vec![bytes("partial")]);
    assert_eq!(c.offset(), 8);
}

#[test]
fn offset_counts_all_emitted_bytes_from_start() {
    let mut c = FollowCursor::new(100);
    assert_eq!(c.offset(), 100);
    c.on_read(&bytes("one\n"));
    assert_eq!(c.offset(), 104);
    assert!(c.on_read(&Vec::new()).is_empty());
    c.resume();
    c.on_read(&bytes("two\nthree\n"));
    assert_eq!(c.offset(), 114);
}

#[test]
fn timeout_alone_resumes_a_waiting_follower() {
    let mut c = FollowCursor::new(0);
    assert!(c.on_read(&Vec::new()).is_empty());
    assert_eq!(c.state(), CursorState::Waiting);

    // No directory event, no wake: the bounded timeout still fires, the
    // follower re-seeks and drains the data that arrived unsignalled.
    let seek = c.resume();
    assert_eq!(seek, 0);
    assert_eq!(c.state(), CursorState::Draining);
    assert_eq!(c.on_read(&bytes("late\n")), vec![bytes("late")]);
}

#[test]
fn read_error_stops_one_follower_only() {
    let mut a = FollowCursor::new(0);
    let mut b = FollowCursor::new(0);
    a.on_read(&bytes("a1\n"));
    b.on_read(&bytes("b1\n"));

    a.on_read_error();
    assert_eq!(a.state(), CursorState::Failed);
    assert_eq!(a.offset(), 3);

    // The other follower drains on, unaffected.
    assert_eq!(b.on_read(&bytes("b2\n")), vec![bytes("b2")]);
    assert_eq!(b.offset(), 6);
    assert_eq!(b.state(), CursorState::Draining);
}

#[test]
fn wake_slot_coalesces_signals() {
    let mut w = WakeSlot::new();
    assert!(!w.take());
    w.signal();
    w.signal();
    w.signal();
    assert!(w.take());
    assert!(!w.take());
}

#[test]
fn event_adopts_matching_new_names_once() {
    let pat = Pattern::new(&bytes("app-*.log")).unwrap();
    let mut reg = FollowRegistry::new(pat);
    let ev = ChangeEvent {
        kind: ChangeKind::Created,
        names: vec![bytes("app-1.log"), bytes("other.txt"), bytes("app-1.log")],
    };

    let chosen = reg.process_event(&ev);
    assert_eq!(chosen, vec![bytes("app-1.log")]);

    reg.adopt(bytes("app-1.log"));
    assert_eq!(reg.len(), 1);
    assert_eq!(reg.name_at(0), &bytes("app-1.log"));

    // The same event again: the name is followed now, nothing is adopted twice.
    assert!(reg.process_event(&ev).is_empty());
}

#[test]
fn non_change_events_adopt_nothing() {
    let pat = Pattern::new(&bytes("*.log")).unwrap();
    let reg = FollowRegistry::new(pat);
    let ev = ChangeEvent { kind: ChangeKind::Other, names: vec![bytes("a.log")] };
    assert!(reg.process_event(&ev).is_empty());
}

#[test]
fn modify_events_also_adopt() {
    let pat = Pattern::new(&bytes("*.log")).unwrap();
    let reg = FollowRegistry::new(pat);
    let ev = ChangeEvent { kind: ChangeKind::Modified, names: vec![bytes("a.log")] };
    assert_eq!(reg.process_event(&ev), vec![bytes("a.log")]);
}

#[test]
fn failed_open_is_retried_on_the_next_matching_event() {
    let pat = Pattern::new(&bytes("*.log")).unwrap();
    let mut reg = FollowRegistry::new(pat);
    let ev = ChangeEvent { kind: ChangeKind::Created, names: vec![bytes("a.log")] };

    // First event: chosen, but the open fails, so the caller does not adopt.
    assert_eq!(reg.process_event(&ev), vec![bytes("a.log")]);
    assert_eq!(reg.len(), 0);

    // Next matching event: offered again.
    assert_eq!(reg.process_event(&ev), vec![bytes("a.log")]);

    // Once adopted, never again.
    reg.adopt(bytes("a.log"));
    assert!(reg.process_event(&ev).is_empty());
}

#[test]
fn wake_fanout_reaches_every_follower() {
    let pat = Pattern::new(&bytes("*.log")).unwrap();
    let mut reg = FollowRegistry::new(pat);
    reg.adopt(bytes("a.log"));
    reg.adopt(bytes("b.log"));

    assert!(!reg.take_wake(0));
    reg.wake_all();
    assert!(reg.take_wake(0));
    assert!(reg.take_wake(1));
    assert!(!reg.take_wake(0));

    // Waking twice before draining still delivers one pending wake.
    reg.wake_all();
    reg.wake_all();
    assert!(reg.take_wake(1));
    assert!(!reg.take_wake(1));
}

#[test]
fn should_adopt_checks_pattern_and_registry() {
    let pat = Pattern::new(&bytes("app-?.log")).unwrap();
    let mut reg = FollowRegistry::new(pat);
    assert!(reg.should_adopt(&bytes("app-1.log")));
    assert!(!reg.should_adopt(&bytes("app-12.log")));
    reg.adopt(bytes("app-1.log"));
    assert!(!reg.should_adopt(&bytes("app-1.log")));
    assert!(reg.should_adopt(&bytes("app-2.log")));
    assert!(reg.is_followed(&bytes("app-1.log")));
    assert!(!reg.is_followed(&bytes("app-2.log")));
}
