use vstd::prelude::*;

verus! {

/// Where the connection acceptor stands.
#[derive(Debug, Clone, Copy, PartialEq, Eq, Structural)]
pub enum AcceptorPhase {
    /// The execution context is being built.
    Starting,
    /// The listening socket is being bound.
    Binding,
    /// The readiness event is being delivered.
    Announcing,
    /// Waiting for the next incoming connection.
    Listening,
    /// The protocol upgrade of an accepted connection is under way.
    Upgrading,
    /// A session is being launched for an upgraded connection.
    Spawning,
    /// Terminal.
    Stopped,
}

/// Why the acceptor stopped.
#[derive(Debug, Clone, Copy, PartialEq, Eq, Structural)]
pub enum StopReason {
    /// The execution context could not be built.
    Context,
    /// The address could not be bound.
    Bind,
    /// The listening socket failed to accept.
    Accept,
}

/// The outcome of the last action, as the driver reports it.
#[derive(Debug, Clone, Copy, PartialEq, Eq, Structural)]
pub enum AcceptorEvent {
    ContextReady,
    ContextFailed,
    Bound,
    BindFailed,
    Announced,
    AnnounceFailed,
    Accepted,
    AcceptFailed,
    Upgraded,
    HandshakeFailed,
    Spawned,
}

/// What the acceptor asks its driver to do next.
#[derive(Debug, Clone, Copy, PartialEq, Eq, Structural)]
pub enum AcceptorAction {
    BuildContext,
    Bind,
    EmitConnected,
    Accept,
    Upgrade,
    SpawnSession,
    Stop(StopReason),
}

/// The events that a phase waits for.
pub open spec fn expects(p: AcceptorPhase, e: AcceptorEvent) -> bool {
    match p {
        AcceptorPhase::Starting => e == AcceptorEvent::ContextReady || e == AcceptorEvent::ContextFailed,
        AcceptorPhase::Binding => e == AcceptorEvent::Bound || e == AcceptorEvent::BindFailed,
        AcceptorPhase::Announcing => e == AcceptorEvent::Announced || e == AcceptorEvent::AnnounceFailed,
        AcceptorPhase::Listening => e == AcceptorEvent::Accepted || e == AcceptorEvent::AcceptFailed,
        AcceptorPhase::Upgrading => e == AcceptorEvent::Upgraded || e == AcceptorEvent::HandshakeFailed,
        AcceptorPhase::Spawning => e == AcceptorEvent::Spawned,
        AcceptorPhase::Stopped => false,
    }
}

/// The transition taken on an expected event.
pub open spec fn next(p: AcceptorPhase, e: AcceptorEvent) -> (AcceptorPhase, AcceptorAction) {
    match e {
        AcceptorEvent::ContextReady => (AcceptorPhase::Binding, AcceptorAction::Bind),
        AcceptorEvent::ContextFailed => (AcceptorPhase::Stopped, AcceptorAction::Stop(StopReason::Context)),
        AcceptorEvent::Bound => (AcceptorPhase::Announcing, AcceptorAction::EmitConnected),
        AcceptorEvent::BindFailed => (AcceptorPhase::Stopped, AcceptorAction::Stop(StopReason::Bind)),
        AcceptorEvent::Announced => (AcceptorPhase::Listening, AcceptorAction::Accept),
        AcceptorEvent::AnnounceFailed => (AcceptorPhase::Listening, AcceptorAction::Accept),
        AcceptorEvent::Accepted => (AcceptorPhase::Upgrading, AcceptorAction::Upgrade),
        AcceptorEvent::AcceptFailed => (AcceptorPhase::Stopped, AcceptorAction::Stop(StopReason::Accept)),
        AcceptorEvent::Upgraded => (AcceptorPhase::Spawning, AcceptorAction::SpawnSession),
        AcceptorEvent::HandshakeFailed => (AcceptorPhase::Listening, AcceptorAction::Accept),
        AcceptorEvent::Spawned => (AcceptorPhase::Listening, AcceptorAction::Accept),
    }
}

/// The connection-acceptance lifecycle: build the context, bind once,
/// announce readiness once, then accept, upgrade and launch sessions until
/// the listening socket fails.
pub struct Acceptor {
    phase: AcceptorPhase,
}

impl View for Acceptor {
    type V = AcceptorPhase;

    closed spec fn view(&self) -> AcceptorPhase {
        self.phase
    }
}

impl Acceptor {
    /// An acceptor about to build its context; its first action is `BuildContext`.
    pub fn new() -> (r: Acceptor)
        ensures
            r@ == AcceptorPhase::Starting,
    {
        Acceptor { phase: AcceptorPhase::Starting }
    }

    pub fn phase(&self) -> (r: AcceptorPhase)
        ensures
            r == self@,
    {
        self.phase
    }

    /// Whether the current phase waits for this event.
    pub fn expects(&self, e: AcceptorEvent) -> (r: bool)
        ensures
            r == expects(self@, e),
    {
        match self.phase {
            AcceptorPhase::Starting => e == AcceptorEvent::ContextReady || e == AcceptorEvent::ContextFailed,
            AcceptorPhase::Binding => e == AcceptorEvent::Bound || e == AcceptorEvent::BindFailed,
            AcceptorPhase::Announcing => e == AcceptorEvent::Announced || e == AcceptorEvent::AnnounceFailed,
            AcceptorPhase::Listening => e == AcceptorEvent::Accepted || e == AcceptorEvent::AcceptFailed,
            AcceptorPhase::Upgrading => e == AcceptorEvent::Upgraded || e == AcceptorEvent::HandshakeFailed,
            AcceptorPhase::Spawning => e == AcceptorEvent::Spawned,
            AcceptorPhase::Stopped => false,
        }
    }

    /// Takes the outcome of the last action and returns the next one.
    pub fn step(&mut self, e: AcceptorEvent) -> (r: AcceptorAction)
        requires
            expects(old(self)@, e),
        ensures
            (final(self)@, r) == next(old(self)@, e),
    {
        let (p, a) = match e {
            AcceptorEvent::ContextReady => (AcceptorPhase::Binding, AcceptorAction::Bind),
            AcceptorEvent::ContextFailed => (AcceptorPhase::Stopped, AcceptorAction::Stop(StopReason::Context)),
            AcceptorEvent::Bound => (AcceptorPhase::Announcing, AcceptorAction::EmitConnected),
            AcceptorEvent::BindFailed => (AcceptorPhase::Stopped, AcceptorAction::Stop(StopReason::Bind)),
            AcceptorEvent::Announced => (AcceptorPhase::Listening, AcceptorAction::Accept),
            AcceptorEvent::AnnounceFailed => (AcceptorPhase::Listening, AcceptorAction::Accept),
            AcceptorEvent::Accepted => (AcceptorPhase::Upgrading, AcceptorAction::Upgrade),
            AcceptorEvent::AcceptFailed => (AcceptorPhase::Stopped, AcceptorAction::Stop(StopReason::Accept)),
            AcceptorEvent::Upgraded => (AcceptorPhase::Spawning, AcceptorAction::SpawnSession),
            AcceptorEvent::HandshakeFailed => (AcceptorPhase::Listening, AcceptorAction::Accept),
            AcceptorEvent::Spawned => (AcceptorPhase::Listening, AcceptorAction::Accept),
        };
        self.phase = p;
        a
    }
}

/// Whether each event of the sequence is one that the acceptor waits for when it comes.
pub open spec fn accepted(p: AcceptorPhase, events: Seq<AcceptorEvent>) -> bool
    decreases events.len(),
{
    events.len() == 0 || (expects(p, events[0]) && accepted(next(p, events[0]).0, events.drop_first()))
}

/// The phase reached and the actions asked for, event after event.
pub open spec fn run(p: AcceptorPhase, events: Seq<AcceptorEvent>) -> (AcceptorPhase, Seq<AcceptorAction>)
    decreases events.len(),
{
    if events.len() == 0 {
        (p, seq![])
    } else {
        let (p1, a) = next(p, events[0]);
        let (q, acts) = run(p1, events.drop_first());
        (q, seq![a] + acts)
    }
}

/// How many times the readiness event is emitted.
pub open spec fn announcements(acts: Seq<AcceptorAction>) -> nat
    decreases acts.len(),
{
    if acts.len() == 0 {
        0
    } else {
        (if acts[0] == AcceptorAction::EmitConnected { 1nat } else { 0nat }) + announcements(acts.drop_first())
    }
}

/// The failures that end the acceptor.
pub open spec fn is_fatal(e: AcceptorEvent) -> bool {
    e == AcceptorEvent::ContextFailed || e == AcceptorEvent::BindFailed || e == AcceptorEvent::AcceptFailed
}

proof fn lemma_run_unfold(p: AcceptorPhase, events: Seq<AcceptorEvent>)
    requires
        events.len() > 0,
        accepted(p, events),
    ensures
        expects(p, events[0]),
        accepted(next(p, events[0]).0, events.drop_first()),
        run(p, events).0 == run(next(p, events[0]).0, events.drop_first()).0,
        run(p, events).1 == seq![next(p, events[0]).1] + run(next(p, events[0]).0, events.drop_first()).1,
        (seq![next(p, events[0]).1] + run(next(p, events[0]).0, events.drop_first()).1)[0] == next(p, events[0]).1,
        (seq![next(p, events[0]).1] + run(next(p, events[0]).0, events.drop_first()).1).drop_first()
            == run(next(p, events[0]).0, events.drop_first()).1,
        announcements(run(p, events).1) == (if next(p, events[0]).1 == AcceptorAction::EmitConnected {
            1nat
        } else {
            0nat
        }) + announcements(run(next(p, events[0]).0, events.drop_first()).1),
{
    let tail = run(next(p, events[0]).0, events.drop_first()).1;
    let all = seq![next(p, events[0]).1] + tail;
    assert(all.drop_first() =~= tail);
    assert(all.len() > 0);
    assert(announcements(all) == (if all[0] == AcceptorAction::EmitConnected {
        1nat
    } else {
        0nat
    }) + announcements(all.drop_first()));
}

/// Past binding, the acceptor never announces again.
proof fn lemma_no_second_announcement(p: AcceptorPhase, events: Seq<AcceptorEvent>)
    requires
        accepted(p, events),
        p != AcceptorPhase::Starting && p != AcceptorPhase::Binding,
    ensures
        announcements(run(p, events).1) == 0,
    decreases events.len(),
{
    if events.len() > 0 {
        lemma_run_unfold(p, events);
        lemma_no_second_announcement(next(p, events[0]).0, events.drop_first());
    }
}

/// The readiness event is emitted at most once, and only right after the
/// address was bound.
pub proof fn law_connected_at_most_once(events: Seq<AcceptorEvent>)
    requires
        accepted(AcceptorPhase::Starting, events),
    ensures
        announcements(run(AcceptorPhase::Starting, events).1) <= 1,
        run(AcceptorPhase::Starting, events).1.len() == events.len(),
        forall|i: int|
            0 <= i < events.len() && #[trigger] run(AcceptorPhase::Starting, events).1[i]
                == AcceptorAction::EmitConnected ==> events[i] == AcceptorEvent::Bound,
{
    lemma_announce_after_bind(AcceptorPhase::Starting, events);
    lemma_run_len(AcceptorPhase::Starting, events);
    if events.len() > 0 {
        let p1 = next(AcceptorPhase::Starting, events[0]).0;
        let rest = events.drop_first();
        lemma_run_unfold(AcceptorPhase::Starting, events);
        if p1 == AcceptorPhase::Binding && rest.len() > 0 {
            lemma_run_unfold(p1, rest);
            lemma_no_second_announcement(next(p1, rest[0]).0, rest.drop_first());
        } else if p1 != AcceptorPhase::Binding {
            lemma_no_second_announcement(p1, rest);
        } else {
            assert(rest =~= seq![]);
        }
    }
}

proof fn lemma_run_len(p: AcceptorPhase, events: Seq<AcceptorEvent>)
    ensures
        run(p, events).1.len() == events.len(),
    decreases events.len(),
{
    if events.len() > 0 {
        lemma_run_len(next(p, events[0]).0, events.drop_first());
    }
}

proof fn lemma_announce_after_bind(p: AcceptorPhase, events: Seq<AcceptorEvent>)
    requires
        accepted(p, events),
    ensures
        forall|i: int|
            0 <= i < events.len() && #[trigger] run(p, events).1[i] == AcceptorAction::EmitConnected
                ==> events[i] == AcceptorEvent::Bound,
    decreases events.len(),
{
    lemma_run_len(p, events);
    if events.len() > 0 {
        let rest = events.drop_first();
        let p1 = next(p, events[0]).0;
        lemma_run_unfold(p, events);
        lemma_announce_after_bind(p1, rest);
        assert forall|i: int|
            0 <= i < events.len() && #[trigger] run(p, events).1[i] == AcceptorAction::EmitConnected
                implies events[i] == AcceptorEvent::Bound by {
            if i > 0 {
                assert(run(p, events).1[i] == run(p1, rest).1[i - 1]);
                assert(rest[i - 1] == events[i]);
            }
        }
    }
}

/// Without a fatal failure the acceptor never stops: a failed protocol
/// handshake drops that one connection and the acceptor goes back to
/// accepting, and nothing is bound or announced before the execution context
/// is built.
pub proof fn law_only_fatal_failures_stop(p: AcceptorPhase, events: Seq<AcceptorEvent>)
    requires
        accepted(p, events),
        p != AcceptorPhase::Stopped,
        forall|i: int| 0 <= i < events.len() ==> !is_fatal(#[trigger] events[i]),
    ensures
        run(p, events).0 != AcceptorPhase::Stopped,
        forall|i: int| 0 <= i < events.len() ==> !(#[trigger] run(p, events).1[i] is Stop),
        forall|i: int|
            0 <= i < events.len() && events[i] == AcceptorEvent::HandshakeFailed
                ==> #[trigger] run(p, events).1[i] == AcceptorAction::Accept,
    decreases events.len(),
{
    lemma_run_len(p, events);
    if events.len() > 0 {
        let rest = events.drop_first();
        let p1 = next(p, events[0]).0;
        lemma_run_unfold(p, events);
        assert(!is_fatal(events[0]));
        assert forall|i: int| 0 <= i < rest.len() implies !is_fatal(#[trigger] rest[i]) by {
            assert(rest[i] == events[i + 1]);
        }
        law_only_fatal_failures_stop(p1, rest);
        assert forall|i: int| 0 <= i < events.len() implies !(#[trigger] run(p, events).1[i] is Stop) by {
            if i > 0 {
                assert(run(p, events).1[i] == run(p1, rest).1[i - 1]);
            }
        }
        assert forall|i: int|
            0 <= i < events.len() && events[i] == AcceptorEvent::HandshakeFailed
                implies #[trigger] run(p, events).1[i] == AcceptorAction::Accept by {
            if i > 0 {
                assert(run(p, events).1[i] == run(p1, rest).1[i - 1]);
                assert(rest[i - 1] == events[i]);
            }
        }
    }
}

/// A failure to build the execution context ends the acceptor before any
/// address is bound or any readiness event is emitted.
pub proof fn law_context_failure_opens_nothing(events: Seq<AcceptorEvent>)
    requires
        accepted(AcceptorPhase::Starting, events),
        events.len() > 0,
        events[0] == AcceptorEvent::ContextFailed,
    ensures
        run(AcceptorPhase::Starting, events).0 == AcceptorPhase::Stopped,
        run(AcceptorPhase::Starting, events).1 == seq![AcceptorAction::Stop(StopReason::Context)],
        !run(AcceptorPhase::Starting, events).1.contains(AcceptorAction::Bind),
        announcements(run(AcceptorPhase::Starting, events).1) == 0,
{
    let rest = events.drop_first();
    lemma_run_unfold(AcceptorPhase::Starting, events);
    if rest.len() > 0 {
        assert(!expects(AcceptorPhase::Stopped, rest[0]));
    }
    assert(rest =~= seq![]);
    let acts = run(AcceptorPhase::Starting, events).1;
    assert(acts =~= seq![AcceptorAction::Stop(StopReason::Context)]);
    assert(acts.drop_first() =~= seq![]);
    assert(acts[0] != AcceptorAction::Bind);
}

} // verus!
