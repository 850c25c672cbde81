//! The per-connection session: one accepted, already-upgraded message
//! channel seen as a stream of plain events, and the decision the handler
//! owes to each event. The caller performs the transport work (waiting
//! for a message, sending a reply, closing) and feeds the next event in;
//! every decision in between is made here and verified.

use vstd::prelude::*;

use crate::dispatch::dispatch;
use crate::dispatch::dispatch_spec;
use crate::request::decode_request;
use crate::request::json_job;

verus! {

/// How receiving on the message channel can fail, as the handler's
/// caller reports it. The first three are benign disconnects; `Other`
/// stands for any unexpected transport failure.
#[derive(Clone, Copy, Debug, PartialEq, Eq, Structural)]
pub enum TransportError {
    /// The connection was already closed when the operation ran.
    ConnectionClosed,
    /// The peer violated the framing protocol.
    Protocol,
    /// A text frame held invalid character data.
    InvalidUtf8,
    /// Any other input/output failure.
    Other,
}

/// One observation on a connection's message channel.
#[derive(Debug)]
pub enum Event {
    /// A text or binary application message, its payload as text.
    Data { payload: String },
    /// Any other message type: no request/response cycle fires.
    Control,
    /// The peer closed the stream; the sole normal end of a session.
    Closed,
    /// Receiving failed with a transport error.
    Failed { error: TransportError },
}

/// What the handler decides to do after one event.
#[derive(Clone, Copy, Debug)]
pub enum Action {
    /// Send exactly this text back, then wait for the next message.
    Reply { text: &'static str },
    /// Send nothing; wait for the next message.
    Ignore,
    /// End the session normally.
    Finish,
    /// A malformed request body: drop the connection without a reply.
    FailDecode,
    /// A transport error: end the session and report it to the caller.
    Fail { error: TransportError },
}

/// How a whole session ended.
#[derive(Clone, Copy, Debug, PartialEq, Eq, Structural)]
pub enum Outcome {
    /// The peer closed the stream, or every event was consumed.
    Clean,
    /// A malformed request body ended the connection; no reply was sent
    /// for it.
    DecodeFatal,
    /// Receiving failed; the error is handed to the caller.
    Transport { error: TransportError },
}

/// The job identifier carried by an event, if it is a well-formed
/// data message.
pub open spec fn request_job(ev: Event) -> Option<u32> {
    match ev {
        Event::Data { payload } => json_job(payload@),
        _ => None,
    }
}

/// The handler's decision for one event: a well-formed request is answered
/// by its dispatched response, a malformed one kills the connection with
/// no reply, a non-data message is passed over, closure ends the session,
/// and a transport error is handed back unchanged.
pub fn handle_event(ev: &Event) -> (action: Action)
    ensures
        match *ev {
            Event::Data { payload } => (match json_job(payload@) {
                Some(job) => action matches Action::Reply { text } && text@ == dispatch_spec(job),
                None => action is FailDecode,
            }),
            Event::Control => action is Ignore,
            Event::Closed => action is Finish,
            Event::Failed { error } => action matches Action::Fail { error: e } && e == error,
        },
{
    match ev {
        Event::Data { payload } => match decode_request(payload.as_str()) {
            Some(req) => Action::Reply { text: dispatch(req.job) },
            None => Action::FailDecode,
        },
        Event::Control => Action::Ignore,
        Event::Closed => Action::Finish,
        Event::Failed { error } => Action::Fail { error: *error },
    }
}

/// The replies a session owes to a stream of events: one reply per
/// well-formed request, in arrival order, and nothing at or after the
/// event that ends the session (closure, a transport error, or a
/// malformed body, which gets no reply itself).
pub open spec fn session_replies(events: Seq<Event>) -> Seq<Seq<char>>
    decreases events.len(),
{
    if events.len() == 0 {
        Seq::empty()
    } else {
        match events[0] {
            Event::Data { payload } => match json_job(payload@) {
                Some(job) => seq![dispatch_spec(job)] + session_replies(events.drop_first()),
                None => Seq::empty(),
            },
            Event::Control => session_replies(events.drop_first()),
            Event::Closed => Seq::empty(),
            Event::Failed { .. } => Seq::empty(),
        }
    }
}

/// How a session over a stream of events ends: at the first closure,
/// transport error or malformed body, or cleanly when the events run out.
pub open spec fn session_outcome(events: Seq<Event>) -> Outcome
    decreases events.len(),
{
    if events.len() == 0 {
        Outcome::Clean
    } else {
        match events[0] {
            Event::Data { payload } => match json_job(payload@) {
                Some(_) => session_outcome(events.drop_first()),
                None => Outcome::DecodeFatal,
            },
            Event::Control => session_outcome(events.drop_first()),
            Event::Closed => Outcome::Clean,
            Event::Failed { error } => Outcome::Transport { error },
        }
    }
}

/// The views of a batch of reply texts.
pub open spec fn reply_views(replies: Seq<&'static str>) -> Seq<Seq<char>> {
    replies.map_values(|r: &'static str| r@)
}

/// Runs one whole session over a recorded stream of events: the replies
/// come out exactly as `session_replies` owes them, in order, and the
/// outcome is exactly `session_outcome`. Strict request/response order
/// holds by construction: each reply is produced before the next event
/// is looked at.
pub fn run_session(events: &Vec<Event>) -> (r: (Vec<&'static str>, Outcome))
    ensures
        reply_views(r.0@) == session_replies(events@),
        r.1 == session_outcome(events@),
{
    let mut replies: Vec<&'static str> = Vec::new();
    let mut i: usize = 0;
    proof {
        assert(events@.skip(0) =~= events@);
        assert(reply_views(replies@) + session_replies(events@) =~= session_replies(events@));
    }
    loop
        invariant
            i <= events.len(),
            reply_views(replies@) + session_replies(events@.skip(i as int)) == session_replies(
                events@,
            ),
            session_outcome(events@.skip(i as int)) == session_outcome(events@),
        ensures
            reply_views(replies@) == session_replies(events@),
            session_outcome(events@) is Clean,
        decreases events.len() - i,
    {
        if i >= events.len() {
            proof {
                assert(events@.skip(i as int) =~= Seq::<Event>::empty());
                assert(reply_views(replies@) + session_replies(events@.skip(i as int))
                    =~= reply_views(replies@));
            }
            break ;
        }
        proof {
            assert(events@.skip(i as int)[0] == events@[i as int]);
            assert(events@.skip(i as int).drop_first() =~= events@.skip(i + 1));
        }
        match handle_event(&events[i]) {
            Action::Reply { text } => {
                let ghost prev = replies@;
                replies.push(text);
                proof {
                    assert(reply_views(replies@) =~= reply_views(prev) + seq![text@]);
                    assert(reply_views(replies@) + session_replies(events@.skip(i + 1))
                        =~= session_replies(events@));
                }
            },
            Action::Ignore => {},
            Action::Finish => {
                proof {
                    assert(session_replies(events@) =~= reply_views(replies@));
                }
                return (replies, Outcome::Clean);
            },
            Action::FailDecode => {
                proof {
                    assert(session_replies(events@) =~= reply_views(replies@));
                }
                return (replies, Outcome::DecodeFatal);
            },
            Action::Fail { error } => {
                proof {
                    assert(session_replies(events@) =~= reply_views(replies@));
                }
                return (replies, Outcome::Transport { error });
            },
        }
        i = i + 1;
    }
    (replies, Outcome::Clean)
}

/// A transport error that merely means the peer went away: the stream was
/// closed, the framing protocol was violated, or a text frame held invalid
/// character data. Such an end is normal, not a failure of the system.
pub open spec fn expected_closure(e: TransportError) -> bool {
    e is ConnectionClosed || e is Protocol || e is InvalidUtf8
}

/// Decides whether a transport error is a benign disconnect.
pub fn is_expected_closure(e: TransportError) -> (r: bool)
    ensures
        r == expected_closure(e),
{
    match e {
        TransportError::ConnectionClosed => true,
        TransportError::Protocol => true,
        TransportError::InvalidUtf8 => true,
        TransportError::Other => false,
    }
}

/// A finished session deserves an error report only when it ended in a
/// transport failure that is not a benign disconnect.
pub open spec fn reportable(o: Outcome) -> bool {
    o matches Outcome::Transport { error } && !expected_closure(error)
}

/// Decides whether the caller should report a finished session as an
/// error: a clean close and a benign disconnect stay silent; the failure
/// stays contained in this connection either way.
pub fn should_report(o: &Outcome) -> (r: bool)
    ensures
        r == reportable(*o),
{
    match o {
        Outcome::Transport { error } => !is_expected_closure(*error),
        _ => false,
    }
}

/// Law: strict request/response order. A session whose every event is a
/// well-formed request answers each one with exactly one reply, in arrival
/// order: the reply at each position is the dispatch of the job identifier
/// of the request at the same position.
pub proof fn lemma_one_reply_per_request(events: Seq<Event>)
    requires
        forall|i: int| 0 <= i < events.len() ==> (#[trigger] request_job(events[i])) is Some,
    ensures
        session_replies(events).len() == events.len(),
        forall|i: int|
            0 <= i < events.len() ==> session_replies(events)[i] == dispatch_spec(
                request_job(events[i])->Some_0,
            ),
    decreases events.len(),
{
    if events.len() > 0 {
        let rest = events.drop_first();
        assert(request_job(events[0]) is Some);
        assert(forall|i: int| 0 <= i < rest.len() ==> rest[i] == events[i + 1]);
        lemma_one_reply_per_request(rest);
        let job = request_job(events[0])->Some_0;
        assert(session_replies(events) == seq![dispatch_spec(job)] + session_replies(rest));
        assert(forall|i: int|
            0 < i < events.len() ==> session_replies(events)[i] == session_replies(rest)[i - 1]);
    }
}

/// Law: a malformed body ends the session without a reply for it. If the
/// event at position `k` is a data message that fails to decode and every
/// event before it is a well-formed request, the session sends exactly the
/// `k` replies owed to the preceding requests — none for the malformed one
/// or anything after it — and ends in the decode failure. Nothing else sees
/// that failure: it reaches no further than this session's own outcome.
pub proof fn lemma_invalid_body_gets_no_reply(events: Seq<Event>, k: int)
    requires
        0 <= k < events.len(),
        forall|i: int| 0 <= i < k ==> (#[trigger] request_job(events[i])) is Some,
        events[k] matches Event::Data { payload } && json_job(payload@) is None,
    ensures
        session_replies(events).len() == k,
        forall|i: int|
            0 <= i < k ==> session_replies(events)[i] == dispatch_spec(
                request_job(events[i])->Some_0,
            ),
        session_outcome(events) is DecodeFatal,
    decreases k,
{
    let rest = events.drop_first();
    assert(forall|i: int| 0 <= i < rest.len() ==> rest[i] == events[i + 1]);
    if k == 0 {
        assert(session_replies(events) =~= Seq::<Seq<char>>::empty());
    } else {
        assert(request_job(events[0]) is Some);
        lemma_invalid_body_gets_no_reply(rest, k - 1);
        let job = request_job(events[0])->Some_0;
        assert(session_replies(events) == seq![dispatch_spec(job)] + session_replies(rest));
        assert(forall|i: int|
            0 < i < k ==> session_replies(events)[i] == session_replies(rest)[i - 1]);
    }
}

/// Law: a peer that merely goes away raises nothing. A session whose data
/// messages are all well-formed and whose transport failures, if any, are
/// benign disconnects ends without a reportable error, whether it ends by
/// closure, by such a failure, or by running out of events.
pub proof fn lemma_disconnect_is_silent(events: Seq<Event>)
    requires
        forall|i: int|
            0 <= i < events.len() ==> ((#[trigger] events[i]) matches Event::Data { payload }
                ==> json_job(payload@) is Some),
        forall|i: int|
            0 <= i < events.len() ==> ((#[trigger] events[i]) matches Event::Failed { error }
                ==> expected_closure(error)),
    ensures
        !reportable(session_outcome(events)),
    decreases events.len(),
{
    if events.len() > 0 {
        let rest = events.drop_first();
        assert(forall|i: int| 0 <= i < rest.len() ==> rest[i] == events[i + 1]);
        match events[0] {
            Event::Data { payload } => {
                assert(events[0] matches Event::Data { payload });
                lemma_disconnect_is_silent(rest);
            },
            Event::Control => {
                lemma_disconnect_is_silent(rest);
            },
            Event::Closed => {},
            Event::Failed { error } => {
                assert(events[0] matches Event::Failed { error });
            },
        }
    }
}

/// The events that belong to one connection in an interleaved schedule of
/// events tagged by connection, in schedule order.
pub open spec fn connection_events(schedule: Seq<(bool, Event)>, conn: bool) -> Seq<Event>
    decreases schedule.len(),
{
    if schedule.len() == 0 {
        Seq::empty()
    } else if schedule[0].0 == conn {
        seq![schedule[0].1] + connection_events(schedule.drop_first(), conn)
    } else {
        connection_events(schedule.drop_first(), conn)
    }
}

/// Law: no cross-connection leakage. Connections share no state, so in an
/// interleaved schedule the traffic of one connection, wherever it is
/// inserted, changes neither the events the other connection's handler
/// sees nor the replies that session owes.
pub proof fn lemma_no_cross_connection_leakage(
    schedule: Seq<(bool, Event)>,
    other: (bool, Event),
    at: int,
    conn: bool,
)
    requires
        0 <= at <= schedule.len(),
        other.0 != conn,
    ensures
        connection_events(schedule.insert(at, other), conn) == connection_events(schedule, conn),
        session_replies(connection_events(schedule.insert(at, other), conn)) == session_replies(
            connection_events(schedule, conn),
        ),
    decreases at,
{
    let ins = schedule.insert(at, other);
    if at == 0 {
        assert(ins[0] == other);
        assert(ins.drop_first() =~= schedule);
    } else {
        assert(ins[0] == schedule[0]);
        assert(ins.drop_first() =~= schedule.drop_first().insert(at - 1, other));
        lemma_no_cross_connection_leakage(schedule.drop_first(), other, at - 1, conn);
    }
}

} // verus!
