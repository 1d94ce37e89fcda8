use rusty_address_book::filter::filter_customers;
use rusty_address_book::guard::ModeGuard;
use rusty_address_book::record::{sample_data, Customer};
use rusty_address_book::session::{Action, Event, Key, Phase, QueryBuffer, Session};

fn polling() -> Session {
    let mut session = Session::new();
    assert_eq!(session.begin_pass(false), Action::Redraw);
    session
}

fn type_text(session: &mut Session, text: &str) {
    for c in text.chars() {
        assert_eq!(session.on_event(Event::Key(Key::Char(c)), false), Action::Redraw);
    }
}

#[test]
fn a_new_session_is_at_the_top_with_nothing_typed() {
    let session = Session::new();
    assert_eq!(session.phase(), Phase::Active);
    assert_eq!(session.query(), "");
}

#[test]
fn a_pass_begins_with_an_empty_query_and_a_redraw() {
    let mut session = Session::new();
    assert_eq!(session.begin_pass(false), Action::Redraw);
    assert_eq!(session.phase(), Phase::Polling);
    assert_eq!(session.query(), "");
}

#[test]
fn typing_and_backspace_edit_the_end_of_the_query() {
    let records = sample_data();
    let mut session = polling();
    assert_eq!(session.on_event(Event::Key(Key::Char('a')), false), Action::Redraw);
    assert_eq!(session.on_event(Event::Key(Key::Char('b')), false), Action::Redraw);
    assert_eq!(session.on_event(Event::Key(Key::Char('c')), false), Action::Redraw);
    assert_eq!(session.query(), "abc");
    assert_eq!(filter_customers(&records, session.query()), Vec::<&Customer>::new());
    assert_eq!(session.on_event(Event::Key(Key::Backspace), false), Action::Redraw);
    assert_eq!(session.query(), "ab");
    assert_eq!(session.phase(), Phase::Polling);
    assert_eq!(
        filter_customers(&records, session.query()),
        filter_customers(&records, "ab")
    );
    assert_eq!(filter_customers(&records, session.query()), Vec::<&Customer>::new());
    assert_ne!(
        filter_customers(&records, session.query()),
        filter_customers(&records, "a")
    );
}

#[test]
fn typing_bo_leaves_only_bob() {
    let records = sample_data();
    let mut session = polling();
    type_text(&mut session, "bo");
    assert_eq!(filter_customers(&records, session.query()), vec![&records[2]]);
}

#[test]
fn backspace_on_an_empty_query_does_nothing() {
    let mut session = polling();
    assert_eq!(session.on_event(Event::Key(Key::Backspace), false), Action::Nothing);
    assert_eq!(session.query(), "");
    assert_eq!(session.phase(), Phase::Polling);
}

#[test]
fn a_timeout_and_other_keys_change_nothing() {
    let mut session = polling();
    type_text(&mut session, "x");
    assert_eq!(session.on_event(Event::Timeout, false), Action::Nothing);
    assert_eq!(session.on_event(Event::Key(Key::Other), false), Action::Nothing);
    assert_eq!(session.query(), "x");
    assert_eq!(session.phase(), Phase::Polling);
}

#[test]
fn enter_commits_the_query_and_the_next_pass_resets_it() {
    let mut session = polling();
    type_text(&mut session, "/list");
    assert_eq!(session.on_event(Event::Key(Key::Enter), false), Action::Commit);
    assert_eq!(session.phase(), Phase::Active);
    assert_eq!(session.query(), "/list");
    assert_eq!(session.begin_pass(false), Action::Redraw);
    assert_eq!(session.phase(), Phase::Polling);
    assert_eq!(session.query(), "");
}

#[test]
fn the_cancel_chord_stops_the_loop_and_has_the_flag_set() {
    let mut session = polling();
    type_text(&mut session, "q");
    assert_eq!(session.on_event(Event::Key(Key::Cancel), false), Action::Cancel);
    assert_eq!(session.phase(), Phase::Stopped);
    assert_eq!(session.begin_pass(true), Action::Nothing);
    assert_eq!(session.phase(), Phase::Stopped);
}

#[test]
fn a_stopped_flag_at_the_top_ends_the_loop_without_a_redraw() {
    let mut session = Session::new();
    assert_eq!(session.begin_pass(true), Action::Nothing);
    assert_eq!(session.phase(), Phase::Stopped);
}

#[test]
fn a_stopped_flag_ends_the_loop_at_the_next_wait() {
    let events = [
        Event::Timeout,
        Event::Key(Key::Char('z')),
        Event::Key(Key::Backspace),
        Event::Key(Key::Enter),
        Event::Key(Key::Cancel),
        Event::Key(Key::Other),
    ];
    for event in events {
        let mut session = polling();
        type_text(&mut session, "ab");
        assert_eq!(session.on_event(event, true), Action::Nothing);
        assert_eq!(session.phase(), Phase::Stopped);
        assert_eq!(session.query(), "ab");
    }
}

#[test]
fn a_stopped_loop_never_asks_for_anything_again() {
    let mut session = polling();
    assert_eq!(session.on_event(Event::Timeout, true), Action::Nothing);
    for stopped in [true, false] {
        assert_eq!(session.begin_pass(stopped), Action::Nothing);
        assert_eq!(session.on_event(Event::Key(Key::Char('a')), stopped), Action::Nothing);
        assert_eq!(session.on_event(Event::Key(Key::Enter), stopped), Action::Nothing);
        assert_eq!(session.on_event(Event::Timeout, stopped), Action::Nothing);
        assert_eq!(session.phase(), Phase::Stopped);
        assert_eq!(session.query(), "");
    }
}

#[test]
fn calls_out_of_turn_are_ignored() {
    let mut session = Session::new();
    assert_eq!(session.on_event(Event::Key(Key::Char('a')), false), Action::Nothing);
    assert_eq!(session.phase(), Phase::Active);
    assert_eq!(session.query(), "");
    let mut session = polling();
    type_text(&mut session, "a");
    assert_eq!(session.begin_pass(false), Action::Nothing);
    assert_eq!(session.phase(), Phase::Polling);
    assert_eq!(session.query(), "a");
}

#[test]
fn the_query_buffer_grows_shrinks_and_clears() {
    let mut buffer = QueryBuffer::new();
    assert_eq!(buffer.as_str(), "");
    assert!(!buffer.backspace());
    buffer.push('h');
    buffer.push('é');
    buffer.push('y');
    assert_eq!(buffer.as_str(), "héy");
    assert!(buffer.backspace());
    assert_eq!(buffer.as_str(), "hé");
    assert!(buffer.backspace());
    assert_eq!(buffer.as_str(), "h");
    buffer.push('i');
    buffer.clear();
    assert_eq!(buffer.as_str(), "");
    assert!(!buffer.backspace());
}

#[test]
fn the_terminal_is_restored_once_after_an_error_in_the_loop() {
    let mut guard = ModeGuard::acquired();
    assert!(guard.is_raw());
    let mut session = polling();
    type_text(&mut session, "ab");
    let failed: Result<Event, String> = Err("the keyboard went away".to_string());
    let mut restored = 0;
    if failed.is_err() {
        // the error path releases the guard
        if guard.release() {
            restored += 1;
        }
    }
    // and so does the end of the scope
    if guard.release() {
        restored += 1;
    }
    if guard.release() {
        restored += 1;
    }
    assert_eq!(restored, 1);
    assert!(!guard.is_raw());
}

#[test]
fn the_first_release_restores_the_terminal() {
    let mut guard = ModeGuard::acquired();
    assert!(guard.release());
    assert!(!guard.is_raw());
    assert!(!guard.release());
    assert!(!guard.is_raw());
}
