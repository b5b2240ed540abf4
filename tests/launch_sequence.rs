use procpin::affinity::Affinity;
use procpin::priority::Priority;
use procpin::session::{Action, Event, Failure, Params, Session, FAILURE_EXIT_CODE};

fn params(priority: Option<Priority>, affinity: Option<usize>, verbose: bool) -> Params {
    Params {
        executable: String::from("prog"),
        executable_parameters: vec![String::from("--flag"), String::from("value")],
        priority,
        affinity: affinity.map(Affinity),
        verbose,
    }
}

#[test]
fn plain_launch_relays_exit_code() {
    let mut s = Session::new(&params(None, None, false), true);
    assert_eq!(s.pending(), Action::Launch);
    assert_eq!(s.advance(Event::Launched(7)), Action::OpenHandle(7));
    assert_eq!(s.advance(Event::Done), Action::Wait);
    assert_eq!(s.advance(Event::Exited(Some(42))), Action::Exit(42));
}

#[test]
fn missing_exit_code_becomes_one() {
    let mut s = Session::new(&params(None, None, false), true);
    s.advance(Event::Launched(7));
    s.advance(Event::Done);
    assert_eq!(s.advance(Event::Exited(None)), Action::Exit(1));
}

#[test]
fn zero_exit_code_is_relayed() {
    let mut s = Session::new(&params(None, None, false), false);
    assert_eq!(s.advance(Event::Launched(3)), Action::Wait);
    assert_eq!(s.advance(Event::Exited(Some(0))), Action::Exit(0));
}

#[test]
fn failed_launch_never_waits() {
    let mut s = Session::new(&params(Some(Priority::High), Some(3), false), true);
    assert_eq!(s.pending(), Action::Launch);
    assert_eq!(s.advance(Event::Failed), Action::Abort(Failure::Launch));
    assert_eq!(s.advance(Event::Done), Action::Abort(Failure::Launch));
    assert_eq!(s.advance(Event::Exited(Some(0))), Action::Abort(Failure::Launch));
    assert_ne!(FAILURE_EXIT_CODE, 0);
}

#[test]
fn affinity_then_priority() {
    let mut s = Session::new(&params(Some(Priority::Low), Some(0xF0), false), true);
    assert_eq!(s.pending(), Action::Launch);
    assert_eq!(s.advance(Event::Launched(11)), Action::OpenHandle(11));
    assert_eq!(s.advance(Event::Done), Action::SetAffinity(0xF0));
    assert_eq!(s.advance(Event::Done), Action::SetPriority(0x40));
    assert_eq!(s.advance(Event::Done), Action::Wait);
    assert_eq!(s.advance(Event::Exited(Some(5))), Action::Exit(5));
}

#[test]
fn verbose_shows_before_child_work() {
    let mut s = Session::new(&params(Some(Priority::Realtime), Some(1), true), true);
    assert_eq!(s.pending(), Action::ShowParams);
    assert_eq!(s.advance(Event::Done), Action::Launch);
    assert_eq!(s.advance(Event::Launched(99)), Action::ShowPid(99));
    assert_eq!(s.advance(Event::Done), Action::OpenHandle(99));
    assert_eq!(s.advance(Event::Done), Action::SetAffinity(1));
    assert_eq!(s.advance(Event::Done), Action::SetPriority(0x100));
    assert_eq!(s.advance(Event::Done), Action::Wait);
}

#[test]
fn each_failure_is_reported() {
    let mut s = Session::new(&params(None, None, false), true);
    s.advance(Event::Launched(1));
    assert_eq!(s.advance(Event::Failed), Action::Abort(Failure::OpenHandle));

    let mut s = Session::new(&params(None, Some(2), false), true);
    s.advance(Event::Launched(1));
    s.advance(Event::Done);
    assert_eq!(s.advance(Event::Failed), Action::Abort(Failure::SetAffinity));

    let mut s = Session::new(&params(Some(Priority::Normal), None, false), true);
    s.advance(Event::Launched(1));
    s.advance(Event::Done);
    assert_eq!(s.advance(Event::Failed), Action::Abort(Failure::SetPriority));

    let mut s = Session::new(&params(None, None, false), true);
    s.advance(Event::Launched(1));
    s.advance(Event::Done);
    assert_eq!(s.advance(Event::Failed), Action::Abort(Failure::Wait));
}

#[test]
fn unsupported_attributes_stop_before_launch() {
    let s = Session::new(&params(Some(Priority::High), None, false), false);
    assert_eq!(s.pending(), Action::Abort(Failure::Unsupported));
    let s = Session::new(&params(None, Some(1), true), false);
    assert_eq!(s.pending(), Action::Abort(Failure::Unsupported));
    let mut s = Session::new(&params(None, None, false), false);
    assert_eq!(s.pending(), Action::Launch);
    assert_eq!(s.advance(Event::Launched(4)), Action::Wait);
}

fn run_to_end(events: &[Event]) -> Action {
    let mut s = Session::new(&params(Some(Priority::BelowNormal), Some(6), true), true);
    let mut last = s.pending();
    for e in events {
        last = s.advance(*e);
    }
    last
}

#[test]
fn relaunch_gives_same_exit_code() {
    let events = [
        Event::Done,
        Event::Launched(50),
        Event::Done,
        Event::Done,
        Event::Done,
        Event::Done,
        Event::Exited(Some(42)),
    ];
    assert_eq!(run_to_end(&events), Action::Exit(42));
    assert_eq!(run_to_end(&events), run_to_end(&events));
}
