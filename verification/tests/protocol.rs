use ws_dispatch::dispatch::dispatch;
use ws_dispatch::request::decode_request;
use ws_dispatch::request::Request;
use ws_dispatch::session::handle_event;
use ws_dispatch::session::is_expected_closure;
use ws_dispatch::session::run_session;
use ws_dispatch::session::should_report;
use ws_dispatch::session::Action;
use ws_dispatch::session::Event;
use ws_dispatch::session::Outcome;
use ws_dispatch::session::TransportError;

fn data(payload: &str) -> Event {
    Event::Data { payload: payload.to_string() }
}

#[test]
fn dispatch_job_one_greets() {
    assert_eq!(dispatch(1), "hi");
}

#[test]
fn dispatch_other_jobs_get_fallback() {
    assert_eq!(dispatch(0), "e");
    assert_eq!(dispatch(2), "e");
    assert_eq!(dispatch(99), "e");
    assert_eq!(dispatch(u32::MAX), "e");
}

#[test]
fn decode_accepts_plain_request() {
    assert_eq!(decode_request("{\"job\": 1}"), Some(Request { job: 1 }));
    assert_eq!(decode_request("{\"job\":0}"), Some(Request { job: 0 }));
    assert_eq!(decode_request("  { \"job\" : 42 }  "), Some(Request { job: 42 }));
}

#[test]
fn decode_accepts_largest_job() {
    assert_eq!(decode_request("{\"job\": 4294967295}"), Some(Request { job: u32::MAX }));
}

#[test]
fn decode_ignores_other_attributes() {
    assert_eq!(decode_request("{\"job\": 1, \"extra\": [2, 3]}"), Some(Request { job: 1 }));
}

#[test]
fn decode_rejects_malformed_bodies() {
    assert_eq!(decode_request(""), None);
    assert_eq!(decode_request("not json"), None);
    assert_eq!(decode_request("{"), None);
    assert_eq!(decode_request("{}"), None);
    assert_eq!(decode_request("{\"jobs\": 1}"), None);
    assert_eq!(decode_request("{\"job\": \"1\"}"), None);
    assert_eq!(decode_request("{\"job\": -1}"), None);
    assert_eq!(decode_request("{\"job\": 1.5}"), None);
    assert_eq!(decode_request("{\"job\": 4294967296}"), None);
    assert_eq!(decode_request("[1]"), None);
    assert_eq!(decode_request("null"), None);
}

#[test]
fn event_with_valid_request_is_answered() {
    let action = handle_event(&data("{\"job\": 1}"));
    assert!(matches!(action, Action::Reply { text: "hi" }));
    let action = handle_event(&data("{\"job\": 99}"));
    assert!(matches!(action, Action::Reply { text: "e" }));
}

#[test]
fn event_with_malformed_body_kills_connection() {
    let action = handle_event(&data("{\"job\": \"oops\"}"));
    assert!(matches!(action, Action::FailDecode));
}

#[test]
fn control_event_is_passed_over() {
    assert!(matches!(handle_event(&Event::Control), Action::Ignore));
}

#[test]
fn closure_event_finishes_session() {
    assert!(matches!(handle_event(&Event::Closed), Action::Finish));
}

#[test]
fn failure_event_is_handed_back() {
    let action = handle_event(&Event::Failed { error: TransportError::Other });
    assert!(matches!(action, Action::Fail { error: TransportError::Other }));
}

#[test]
fn one_reply_per_request_in_order() {
    let events = vec![
        data("{\"job\": 1}"),
        data("{\"job\": 2}"),
        Event::Control,
        data("{\"job\": 1}"),
        data("{\"job\": 0}"),
    ];
    let (replies, outcome) = run_session(&events);
    assert_eq!(replies, vec!["hi", "e", "hi", "e"]);
    assert_eq!(outcome, Outcome::Clean);
}

#[test]
fn invalid_body_ends_session_without_reply() {
    let events = vec![
        data("{\"job\": 1}"),
        data("{\"job\": oops}"),
        data("{\"job\": 2}"),
    ];
    let (replies, outcome) = run_session(&events);
    assert_eq!(replies, vec!["hi"]);
    assert_eq!(outcome, Outcome::DecodeFatal);
    assert!(!should_report(&outcome));
}

#[test]
fn invalid_body_leaves_other_connection_untouched() {
    let bad = vec![data("{]")];
    let good = vec![data("{\"job\": 1}"), Event::Closed];
    let (bad_replies, bad_outcome) = run_session(&bad);
    let (good_replies, good_outcome) = run_session(&good);
    assert_eq!(bad_replies, Vec::<&str>::new());
    assert_eq!(bad_outcome, Outcome::DecodeFatal);
    assert_eq!(good_replies, vec!["hi"]);
    assert_eq!(good_outcome, Outcome::Clean);
}

#[test]
fn disconnect_without_data_is_silent() {
    let events = vec![Event::Closed];
    let (replies, outcome) = run_session(&events);
    assert_eq!(replies, Vec::<&str>::new());
    assert_eq!(outcome, Outcome::Clean);
    assert!(!should_report(&outcome));
}

#[test]
fn benign_failures_are_silent() {
    for error in [
        TransportError::ConnectionClosed,
        TransportError::Protocol,
        TransportError::InvalidUtf8,
    ] {
        let events = vec![Event::Failed { error }];
        let (replies, outcome) = run_session(&events);
        assert_eq!(replies, Vec::<&str>::new());
        assert_eq!(outcome, Outcome::Transport { error });
        assert!(is_expected_closure(error));
        assert!(!should_report(&outcome));
    }
}

#[test]
fn unexpected_failure_is_reported() {
    let events = vec![data("{\"job\": 1}"), Event::Failed { error: TransportError::Other }];
    let (replies, outcome) = run_session(&events);
    assert_eq!(replies, vec!["hi"]);
    assert_eq!(outcome, Outcome::Transport { error: TransportError::Other });
    assert!(!is_expected_closure(TransportError::Other));
    assert!(should_report(&outcome));
}

#[test]
fn events_after_closure_are_not_served() {
    let events = vec![data("{\"job\": 1}"), Event::Closed, data("{\"job\": 1}")];
    let (replies, outcome) = run_session(&events);
    assert_eq!(replies, vec!["hi"]);
    assert_eq!(outcome, Outcome::Clean);
}

#[test]
fn interleaved_connections_get_their_own_replies() {
    let first = vec![data("{\"job\": 1}"), data("{\"job\": 7}")];
    let second = vec![data("{\"job\": 3}"), data("{\"job\": 1}")];
    // Step the two handlers by turns, as concurrent connections would run.
    let mut first_replies: Vec<&str> = Vec::new();
    let mut second_replies: Vec<&str> = Vec::new();
    for i in 0..2 {
        if let Action::Reply { text } = handle_event(&first[i]) {
            first_replies.push(text);
        }
        if let Action::Reply { text } = handle_event(&second[i]) {
            second_replies.push(text);
        }
    }
    assert_eq!(first_replies, vec!["hi", "e"]);
    assert_eq!(second_replies, vec!["e", "hi"]);
}

#[test]
fn session_scenario_greet_then_fallback_then_close() {
    let events = vec![data("{\"job\": 1}"), data("{\"job\": 99}"), Event::Closed];
    let (replies, outcome) = run_session(&events);
    assert_eq!(replies, vec!["hi", "e"]);
    assert_eq!(outcome, Outcome::Clean);
    assert!(!should_report(&outcome));
}
