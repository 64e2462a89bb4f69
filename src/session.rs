use crate::transport::TransportError;
use vstd::prelude::*;

verus! {

/// Where a session stands between two events.
#[derive(Debug, Clone, Copy, PartialEq, Eq, Structural)]
pub enum Phase {
    /// Waiting for the next request.
    Idle,
    /// A request is with the dispatcher.
    Handling,
    /// A response that the dispatcher produced before returning is being sent.
    Emitting,
    /// Responses of the last request are being sent.
    Sending,
    /// Terminal.
    Closed,
}

/// Why a session ended.
#[derive(Debug, Clone, Copy, PartialEq, Eq, Structural)]
pub enum CloseReason {
    Transport(TransportError),
    Dispatch,
}

/// What the driver of a session reports back after performing an action.
#[derive(Debug)]
pub enum SessionEvent<Req, Resp> {
    /// The transport delivered a request.
    Received(Req),
    /// The transport could not deliver a request.
    ReceiveFailed(TransportError),
    /// The dispatcher produced this response before returning.
    Emitted(Resp),
    /// The dispatcher returned these further responses, in order.
    Dispatched(Vec<Resp>),
    /// The dispatcher failed.
    DispatchFailed,
    /// The transport accepted the last response.
    Sent,
    /// The transport could not take the last response.
    SendFailed(TransportError),
}

/// What a session asks its driver to do next.
#[derive(Debug)]
pub enum SessionAction<Req, Resp> {
    Receive,
    Dispatch(Req),
    Send(Resp),
    /// Keep waiting for the dispatcher.
    Resume,
    Stop(CloseReason),
}

/// The abstract state of a session, with the history that its laws speak of.
pub struct SessionView<Req, Resp> {
    pub phase: Phase,
    /// Responses of the current request not yet handed out.
    pub outbox: Seq<Resp>,
    /// Every request received, in order.
    pub requests: Seq<Req>,
    /// The responses the dispatcher produced for each completed request.
    pub batches: Seq<Seq<Resp>>,
    /// Responses produced so far for the request with the dispatcher.
    pub early: Seq<Resp>,
    /// Every response handed out for sending, in order.
    pub issued: Seq<Resp>,
}

impl<Req, Resp> SessionEvent<Req, Resp> {
    /// The transport moved a packet.
    pub open spec fn is_transport_success(self) -> bool {
        self is Received || self is Sent
    }
}

impl<Req, Resp> SessionView<Req, Resp> {
    pub open spec fn initial() -> Self {
        SessionView {
            phase: Phase::Idle,
            outbox: seq![],
            requests: seq![],
            batches: seq![],
            early: seq![],
            issued: seq![],
        }
    }

    /// Every response produced so far, request after request.
    pub open spec fn produced(self) -> Seq<Resp> {
        self.batches.flatten_alt() + self.early
    }

    pub open spec fn wf(self) -> bool {
        match self.phase {
            Phase::Idle => {
                &&& self.outbox.len() == 0
                &&& self.early.len() == 0
                &&& self.batches.len() == self.requests.len()
                &&& self.issued == self.produced()
            },
            Phase::Handling | Phase::Emitting => {
                &&& self.outbox.len() == 0
                &&& self.batches.len() + 1 == self.requests.len()
                &&& self.issued == self.produced()
            },
            Phase::Sending => {
                &&& self.early.len() == 0
                &&& self.batches.len() == self.requests.len()
                &&& self.issued + self.outbox == self.produced()
            },
            Phase::Closed => {
                &&& self.outbox.len() == 0
                &&& self.batches.len() <= self.requests.len() <= self.batches.len() + 1
                &&& self.issued.is_prefix_of(self.produced())
            },
        }
    }

    /// The events that the current phase waits for.
    pub open spec fn expects(self, e: SessionEvent<Req, Resp>) -> bool {
        match self.phase {
            Phase::Idle => e is Received || e is ReceiveFailed,
            Phase::Handling => e is Emitted || e is Dispatched || e is DispatchFailed,
            Phase::Emitting => e is Sent || e is SendFailed,
            Phase::Sending => e is Sent || e is SendFailed,
            Phase::Closed => false,
        }
    }

    pub open spec fn closed(self) -> Self {
        SessionView { phase: Phase::Closed, outbox: seq![], ..self }
    }

    /// Hands out the next pending response, or goes back to waiting.
    pub open spec fn drain(self) -> (Self, SessionAction<Req, Resp>) {
        if self.outbox.len() == 0 {
            (SessionView { phase: Phase::Idle, ..self }, SessionAction::Receive)
        } else {
            (
                SessionView {
                    phase: Phase::Sending,
                    outbox: self.outbox.drop_first(),
                    issued: self.issued.push(self.outbox[0]),
                    ..self
                },
                SessionAction::Send(self.outbox[0]),
            )
        }
    }

    /// The transition taken on an event.
    pub open spec fn next(self, e: SessionEvent<Req, Resp>) -> (Self, SessionAction<Req, Resp>) {
        match e {
            SessionEvent::Received(req) => (
                SessionView { phase: Phase::Handling, requests: self.requests.push(req), ..self },
                SessionAction::Dispatch(req),
            ),
            SessionEvent::ReceiveFailed(err) => (
                self.closed(),
                SessionAction::Stop(CloseReason::Transport(err)),
            ),
            SessionEvent::Emitted(x) => (
                SessionView {
                    phase: Phase::Emitting,
                    early: self.early.push(x),
                    issued: self.issued.push(x),
                    ..self
                },
                SessionAction::Send(x),
            ),
            SessionEvent::Dispatched(batch) => SessionView {
                batches: self.batches.push(self.early + batch@),
                early: seq![],
                outbox: batch@,
                ..self
            }.drain(),
            SessionEvent::DispatchFailed => (self.closed(), SessionAction::Stop(CloseReason::Dispatch)),
            SessionEvent::Sent => if self.phase == Phase::Emitting {
                (SessionView { phase: Phase::Handling, ..self }, SessionAction::Resume)
            } else {
                self.drain()
            },
            SessionEvent::SendFailed(err) => (
                self.closed(),
                SessionAction::Stop(CloseReason::Transport(err)),
            ),
        }
    }
}

proof fn lemma_produced_push<Resp>(b: Seq<Seq<Resp>>, x: Seq<Resp>)
    ensures
        b.push(x).flatten_alt() == b.flatten_alt() + x,
{
    assert(b.push(x).drop_last() =~= b);
}

/// Every transition that an expected event triggers keeps the session well formed.
pub proof fn lemma_next_wf<Req, Resp>(v: SessionView<Req, Resp>, e: SessionEvent<Req, Resp>)
    requires
        v.wf(),
        v.expects(e),
    ensures
        v.next(e).0.wf(),
        v.next(e).0.produced() == v.produced() + output_of(e),
        v.next(e).0.requests == v.requests + receipt_of(e),
        v.next(e).0.batches.len() == v.batches.len() + (if e is Dispatched { 1int } else { 0int }),
        v.next(e).0.issued == v.issued + send_of(v.next(e).1),
        dispatch_of(v.next(e).1) == receipt_of(e),
{
    let p = v.produced();
    let w = v.next(e).0;
    let a = v.next(e).1;
    match e {
        SessionEvent::Dispatched(batch) => {
            let b = batch@;
            lemma_produced_push(v.batches, v.early + b);
            assert(w.produced() =~= v.batches.flatten_alt() + (v.early + b) + seq![]);
            assert(w.produced() =~= p + b);
            if b.len() > 0 {
                assert(v.issued.push(b[0]) + b.drop_first() =~= v.issued + b);
                assert(w.issued =~= v.issued + seq![b[0]]);
            } else {
                assert(v.issued + b =~= v.issued);
                assert(w.issued =~= v.issued + seq![]);
            }
        },
        SessionEvent::Emitted(x) => {
            assert(w.produced() =~= p + seq![x]);
            assert(w.issued =~= v.issued + seq![x]);
        },
        SessionEvent::Sent => {
            assert(w.produced() =~= p + seq![]);
            if v.phase == Phase::Emitting {
                assert(w.issued =~= v.issued + seq![]);
            } else if v.outbox.len() > 0 {
                assert(v.issued.push(v.outbox[0]) + v.outbox.drop_first() =~= v.issued + v.outbox);
                assert(w.issued =~= v.issued + seq![v.outbox[0]]);
            } else {
                assert(v.issued + v.outbox =~= v.issued);
                assert(w.issued =~= v.issued + seq![]);
            }
        },
        SessionEvent::SendFailed(_) => {
            assert(w.produced() =~= p + seq![]);
            assert(w.issued =~= v.issued + seq![]);
            if v.phase == Phase::Sending {
                assert((v.issued + v.outbox).subrange(0, v.issued.len() as int) =~= v.issued);
            } else {
                assert(p.subrange(0, p.len() as int) =~= p);
            }
        },
        SessionEvent::ReceiveFailed(_) | SessionEvent::DispatchFailed => {
            assert(w.produced() =~= p + seq![]);
            assert(w.issued =~= v.issued + seq![]);
            assert(p.subrange(0, p.len() as int) =~= p);
        },
        SessionEvent::Received(r) => {
            assert(w.produced() =~= p + seq![]);
            assert(w.issued =~= v.issued + seq![]);
        },
    }
    assert(w.requests =~= v.requests + receipt_of(e));
}

/// The response that an action hands out for sending, if any.
pub open spec fn send_of<Req, Resp>(a: SessionAction<Req, Resp>) -> Seq<Resp> {
    match a {
        SessionAction::Send(x) => seq![x],
        _ => seq![],
    }
}

/// The request that an action hands to the dispatcher, if any.
pub open spec fn dispatch_of<Req, Resp>(a: SessionAction<Req, Resp>) -> Seq<Req> {
    match a {
        SessionAction::Dispatch(r) => seq![r],
        _ => seq![],
    }
}

/// The request that an event delivers, if any.
pub open spec fn receipt_of<Req, Resp>(e: SessionEvent<Req, Resp>) -> Seq<Req> {
    match e {
        SessionEvent::Received(r) => seq![r],
        _ => seq![],
    }
}

/// The responses that an event reports the dispatcher produced.
pub open spec fn output_of<Req, Resp>(e: SessionEvent<Req, Resp>) -> Seq<Resp> {
    match e {
        SessionEvent::Emitted(x) => seq![x],
        SessionEvent::Dispatched(b) => b@,
        _ => seq![],
    }
}

/// Whether each event of the sequence is one that the session waits for when it comes.
pub open spec fn accepted<Req, Resp>(v: SessionView<Req, Resp>, events: Seq<SessionEvent<Req, Resp>>) -> bool
    decreases events.len(),
{
    events.len() == 0 || (v.expects(events[0]) && accepted(v.next(events[0]).0, events.drop_first()))
}

/// The state reached and the actions asked for, event after event.
pub open spec fn run<Req, Resp>(v: SessionView<Req, Resp>, events: Seq<SessionEvent<Req, Resp>>) -> (
    SessionView<Req, Resp>,
    Seq<SessionAction<Req, Resp>>,
)
    decreases events.len(),
{
    if events.len() == 0 {
        (v, seq![])
    } else {
        let (v1, a) = v.next(events[0]);
        let (w, acts) = run(v1, events.drop_first());
        (w, seq![a] + acts)
    }
}

/// The responses handed out for sending, in order.
pub open spec fn sends<Req, Resp>(acts: Seq<SessionAction<Req, Resp>>) -> Seq<Resp>
    decreases acts.len(),
{
    if acts.len() == 0 {
        seq![]
    } else {
        send_of(acts[0]) + sends(acts.drop_first())
    }
}

/// The requests handed to the dispatcher, in order.
pub open spec fn dispatches<Req, Resp>(acts: Seq<SessionAction<Req, Resp>>) -> Seq<Req>
    decreases acts.len(),
{
    if acts.len() == 0 {
        seq![]
    } else {
        dispatch_of(acts[0]) + dispatches(acts.drop_first())
    }
}

/// The requests that the transport delivered, in order.
pub open spec fn receipts<Req, Resp>(events: Seq<SessionEvent<Req, Resp>>) -> Seq<Req>
    decreases events.len(),
{
    if events.len() == 0 {
        seq![]
    } else {
        receipt_of(events[0]) + receipts(events.drop_first())
    }
}

/// The responses that the dispatcher produced, in the order it produced them.
pub open spec fn outputs<Req, Resp>(events: Seq<SessionEvent<Req, Resp>>) -> Seq<Resp>
    decreases events.len(),
{
    if events.len() == 0 {
        seq![]
    } else {
        output_of(events[0]) + outputs(events.drop_first())
    }
}

/// How many requests the dispatcher completed.
pub open spec fn completions<Req, Resp>(events: Seq<SessionEvent<Req, Resp>>) -> nat
    decreases events.len(),
{
    if events.len() == 0 {
        0
    } else {
        (if events[0] is Dispatched { 1nat } else { 0nat }) + completions(events.drop_first())
    }
}

proof fn lemma_wf_prefix<Req, Resp>(v: SessionView<Req, Resp>)
    requires
        v.wf(),
    ensures
        v.issued.is_prefix_of(v.produced()),
        v.batches.len() <= v.requests.len() <= v.batches.len() + 1,
{
    let p = v.produced();
    if v.phase == Phase::Sending {
        assert((v.issued + v.outbox).subrange(0, v.issued.len() as int) =~= v.issued);
    } else if v.phase != Phase::Closed {
        assert(p.subrange(0, p.len() as int) =~= p);
    }
}

proof fn lemma_run_history<Req, Resp>(v: SessionView<Req, Resp>, events: Seq<SessionEvent<Req, Resp>>)
    requires
        v.wf(),
        accepted(v, events),
    ensures
        run(v, events).0.wf(),
        run(v, events).0.requests == v.requests + receipts(events),
        run(v, events).0.produced() == v.produced() + outputs(events),
        run(v, events).0.batches.len() == v.batches.len() + completions(events),
        run(v, events).0.issued == v.issued + sends(run(v, events).1),
        dispatches(run(v, events).1) == receipts(events),
    decreases events.len(),
{
    if events.len() == 0 {
        assert(v.requests + receipts(events) =~= v.requests);
        assert(v.produced() + outputs(events) =~= v.produced());
        assert(v.issued + sends(run(v, events).1) =~= v.issued);
    } else {
        let e = events[0];
        let rest = events.drop_first();
        let (v1, a) = v.next(e);
        lemma_next_wf(v, e);
        lemma_run_history(v1, rest);
        let (w, acts) = run(v1, rest);
        let all = seq![a] + acts;
        assert(all.drop_first() =~= acts);
        assert(all[0] == a);
        assert(v.requests + receipts(events) =~= v1.requests + receipts(rest));
        assert(v.produced() + outputs(events) =~= v1.produced() + outputs(rest));
        assert(v.issued + sends(all) =~= v1.issued + sends(acts));
        assert(dispatches(all) =~= receipts(events));
    }
}

/// Responses leave a connection in the order of the requests that produced
/// them: the dispatcher gets the received requests one at a time and in
/// order, at most one request is with it at any time, and the responses
/// handed out for sending are always a prefix of what the dispatcher
/// produced, in the order it produced it (early responses included).
pub proof fn law_responses_in_request_order<Req, Resp>(events: Seq<SessionEvent<Req, Resp>>)
    requires
        accepted(SessionView::initial(), events),
    ensures
        dispatches(run(SessionView::initial(), events).1) == receipts(events),
        sends(run(SessionView::initial(), events).1).is_prefix_of(outputs(events)),
        completions(events) <= receipts(events).len() <= completions(events) + 1,
{
    let v = SessionView::<Req, Resp>::initial();
    assert(v.produced() =~= seq![]);
    lemma_run_history(v, events);
    let w = run(v, events).0;
    lemma_wf_prefix(w);
    assert(w.issued =~= sends(run(v, events).1));
    assert(w.produced() =~= outputs(events));
    assert(w.requests =~= receipts(events));
}

/// A transport that fails every operation ends its session: a run in which no
/// event reports a transport success is at most two events long, a run of two
/// such events leaves the session closed, a transport failure always closes
/// it, and a closed session waits for no further event.
pub proof fn law_exhausted_transport_ends_session<Req, Resp>(
    v: SessionView<Req, Resp>,
    events: Seq<SessionEvent<Req, Resp>>,
)
    requires
        v.wf(),
        accepted(v, events),
        forall|i: int| 0 <= i < events.len() ==> !(#[trigger] events[i]).is_transport_success(),
    ensures
        events.len() <= 2,
        events.len() == 2 ==> run(v, events).0.phase == Phase::Closed,
        events.len() > 0 && (events.last() is ReceiveFailed || events.last() is SendFailed)
            ==> run(v, events).0.phase == Phase::Closed,
        run(v, events).0.phase == Phase::Closed ==> forall|e: SessionEvent<Req, Resp>| !run(v, events).0.expects(e),
{
    if events.len() > 0 {
        let e0 = events[0];
        let v1 = v.next(e0).0;
        let rest = events.drop_first();
        assert(!e0.is_transport_success());
        assert(v.expects(e0) && accepted(v1, rest));
        assert(run(v, events).0 == run(v1, rest).0);
        if rest.len() > 0 {
            let e1 = rest[0];
            assert(!events[1].is_transport_success());
            assert(e1 == events[1]);
            assert(v1.expects(e1));
            let v2 = v1.next(e1).0;
            let rest2 = rest.drop_first();
            assert(accepted(v2, rest2));
            assert(v2.phase == Phase::Closed);
            if rest2.len() > 0 {
                assert(!v2.expects(rest2[0]));
            }
            assert(rest2 =~= seq![]);
            assert(run(v1, rest).0 == run(v2, rest2).0);
            assert(events.last() == e1);
        } else {
            assert(rest =~= seq![]);
            assert(run(v1, rest).0 == v1);
            assert(events.last() == e0);
        }
    }
}

/// The request/response loop of one connection, as a state machine that a
/// driver feeds with the outcome of each action it performs.
pub struct Session<Req, Resp> {
    phase: Phase,
    outbox: Vec<Resp>,
    requests: Ghost<Seq<Req>>,
    batches: Ghost<Seq<Seq<Resp>>>,
    early: Ghost<Seq<Resp>>,
    issued: Ghost<Seq<Resp>>,
}

impl<Req, Resp> View for Session<Req, Resp> {
    type V = SessionView<Req, Resp>;

    closed spec fn view(&self) -> SessionView<Req, Resp> {
        SessionView {
            phase: self.phase,
            outbox: self.outbox@,
            requests: self.requests@,
            batches: self.batches@,
            early: self.early@,
            issued: self.issued@,
        }
    }
}

impl<Req, Resp> Session<Req, Resp> {
    /// A session waiting for its first request; its first action is `Receive`.
    pub fn new() -> (s: Self)
        ensures
            s@ == SessionView::<Req, Resp>::initial(),
            s@.wf(),
    {
        let s = Session {
            phase: Phase::Idle,
            outbox: Vec::new(),
            requests: Ghost(Seq::empty()),
            batches: Ghost(Seq::empty()),
            early: Ghost(Seq::empty()),
            issued: Ghost(Seq::empty()),
        };
        proof {
            let v = s@;
            assert(v.outbox =~= seq![]);
            assert(v.produced() =~= seq![]);
        }
        s
    }

    pub fn phase(&self) -> (r: Phase)
        ensures
            r == self@.phase,
    {
        self.phase
    }

    pub fn is_closed(&self) -> (r: bool)
        ensures
            r == (self@.phase == Phase::Closed),
    {
        self.phase == Phase::Closed
    }

    /// Whether the current phase waits for this event.
    pub fn expects(&self, e: &SessionEvent<Req, Resp>) -> (r: bool)
        ensures
            r == self@.expects(*e),
    {
        match self.phase {
            Phase::Idle => matches!(e, SessionEvent::Received(_) | SessionEvent::ReceiveFailed(_)),
            Phase::Handling => matches!(
                e,
                SessionEvent::Emitted(_) | SessionEvent::Dispatched(_) | SessionEvent::DispatchFailed
            ),
            Phase::Emitting => matches!(e, SessionEvent::Sent | SessionEvent::SendFailed(_)),
            Phase::Sending => matches!(e, SessionEvent::Sent | SessionEvent::SendFailed(_)),
            Phase::Closed => false,
        }
    }

    fn close(&mut self)
        requires
            old(self)@.wf(),
            old(self)@.phase != Phase::Closed,
        ensures
            final(self)@ == old(self)@.closed(),
    {
        self.phase = Phase::Closed;
        self.outbox = Vec::new();
        proof {
            assert(self@.outbox =~= seq![]);
        }
    }

    fn drain(&mut self) -> (r: SessionAction<Req, Resp>)
        ensures
            (final(self)@, r) == old(self)@.drain(),
    {
        if self.outbox.len() == 0 {
            self.phase = Phase::Idle;
            SessionAction::Receive
        } else {
            let first = self.outbox.remove(0);
            proof {
                assert(self.outbox@ =~= old(self).outbox@.drop_first());
            }
            self.issued = Ghost(self.issued@.push(first));
            self.phase = Phase::Sending;
            SessionAction::Send(first)
        }
    }

    /// Takes the outcome of the last action and returns the next one.
    pub fn step(&mut self, event: SessionEvent<Req, Resp>) -> (r: SessionAction<Req, Resp>)
        requires
            old(self)@.wf(),
            old(self)@.expects(event),
        ensures
            final(self)@.wf(),
            (final(self)@, r) == old(self)@.next(event),
    {
        proof {
            lemma_next_wf(self@, event);
        }
        match event {
            SessionEvent::Received(req) => {
                self.requests = Ghost(self.requests@.push(req));
                self.phase = Phase::Handling;
                SessionAction::Dispatch(req)
            },
            SessionEvent::ReceiveFailed(err) => {
                self.close();
                SessionAction::Stop(CloseReason::Transport(err))
            },
            SessionEvent::Emitted(x) => {
                self.early = Ghost(self.early@.push(x));
                self.issued = Ghost(self.issued@.push(x));
                self.phase = Phase::Emitting;
                SessionAction::Send(x)
            },
            SessionEvent::Dispatched(batch) => {
                self.batches = Ghost(self.batches@.push(self.early@ + batch@));
                self.early = Ghost(Seq::empty());
                self.outbox = batch;
                self.drain()
            },
            SessionEvent::DispatchFailed => {
                self.close();
                SessionAction::Stop(CloseReason::Dispatch)
            },
            SessionEvent::Sent => {
                if self.phase == Phase::Emitting {
                    self.phase = Phase::Handling;
                    SessionAction::Resume
                } else {
                    self.drain()
                }
            },
            SessionEvent::SendFailed(err) => {
                self.close();
                SessionAction::Stop(CloseReason::Transport(err))
            },
        }
    }
}

} // verus!
