//! The course of a build, step by step: what the caller that runs the
//! build process reports, and what it is told to do next.

use vstd::prelude::*;
use vstd::string::*;
use crate::classify::{
    classify, BuildEvent, BuildProductSelector, Classification, EventView, SelectorView,
};
use crate::orchestrator::{
    candidate_in, candidates_of, lemma_product_views_push, outcome, product_views, relayed,
    relays_diagnostics, select, selection_view, shows_diagnostics, BuildError, BuildErrorView,
};
use crate::product::{BuildProduct, ProductView};
use crate::text::texts;

verus! {

/// How far a build has come.
#[derive(Clone, Copy, Debug, PartialEq, Eq, Structural)]
pub enum Phase {
    /// No build process was started yet.
    NotStarted,
    /// The build process runs and its stream of events is read.
    Running,
    /// The stream was read to its end; the exit status is outstanding.
    Draining,
    /// The build is over; `success` says whether it yielded a product.
    Completed { success: bool },
    /// The build process could not be started.
    Failed,
}

/// What the caller reports of the build process.
#[derive(Debug, PartialEq, Eq)]
pub enum Signal {
    /// The process was started.
    Spawned,
    /// The process could not be started.
    SpawnFailed,
    /// The stream delivered an event.
    Event(BuildEvent),
    /// The stream is at its end.
    StreamClosed,
    /// The process has exited.
    Exited { success: bool },
}

/// Mathematical model of a [`Signal`].
pub enum SignalView {
    Spawned,
    SpawnFailed,
    Event(EventView),
    StreamClosed,
    Exited { success: bool },
}

impl View for Signal {
    type V = SignalView;

    open spec fn view(&self) -> SignalView {
        match self {
            Signal::Spawned => SignalView::Spawned,
            Signal::SpawnFailed => SignalView::SpawnFailed,
            Signal::Event(event) => SignalView::Event(event@),
            Signal::StreamClosed => SignalView::StreamClosed,
            Signal::Exited { success } => SignalView::Exited { success: *success },
        }
    }
}

/// What the caller does next.
#[derive(Debug, PartialEq, Eq)]
pub enum Step {
    /// Read the next event of the stream.
    Read,
    /// Show the text to the user, then read the next event.
    Relay(String),
    /// Wait for the build process to exit.
    AwaitExit,
    /// The build is over and this is what it yields.
    Finish(Result<BuildProduct, BuildError>),
    /// Give up: there is no build process.
    Abort,
    /// The signal has no place in the current phase; nothing has changed.
    Rejected,
}

/// Mathematical model of a [`Step`].
pub enum StepView {
    Read,
    Relay(Seq<char>),
    AwaitExit,
    Finish(Result<ProductView, BuildErrorView>),
    Abort,
    Rejected,
}

impl View for Step {
    type V = StepView;

    open spec fn view(&self) -> StepView {
        match self {
            Step::Read => StepView::Read,
            Step::Relay(text) => StepView::Relay(text@),
            Step::AwaitExit => StepView::AwaitExit,
            Step::Finish(result) => StepView::Finish(selection_view(*result)),
            Step::Abort => StepView::Abort,
            Step::Rejected => StepView::Rejected,
        }
    }
}

/// The state of a build in progress.
pub struct Orchestrator {
    phase: Phase,
    selector: BuildProductSelector,
    members: Vec<String>,
    quiet: bool,
    verbose: u64,
    candidates: Vec<BuildProduct>,
    seen: Ghost<Seq<EventView>>,
}

/// Mathematical model of an [`Orchestrator`].
pub struct OrchestratorView {
    pub phase: Phase,
    pub selector: SelectorView,
    pub members: Seq<Seq<char>>,
    pub quiet: bool,
    pub verbose: u64,
    /// The events that the stream has delivered so far.
    pub seen: Seq<EventView>,
}

impl OrchestratorView {
    /// The state of a build that has not begun.
    pub open spec fn initial(
        selector: SelectorView,
        members: Seq<Seq<char>>,
        quiet: bool,
        verbose: u64,
    ) -> OrchestratorView {
        OrchestratorView {
            phase: Phase::NotStarted,
            selector,
            members,
            quiet,
            verbose,
            seen: Seq::empty(),
        }
    }

    /// What the build yields if it exits now.
    pub open spec fn yields(self, success: bool) -> Result<ProductView, BuildErrorView> {
        outcome(self.seen, self.members, self.selector, success)
    }

    /// The state after `signal`.
    ///
    /// Events are taken only while the build runs, the end of the stream
    /// only then, and the exit status only once the stream is at its end:
    /// the stream is read to its end before the status is looked at. A
    /// signal out of turn changes nothing.
    pub open spec fn after(self, signal: SignalView) -> OrchestratorView {
        match (self.phase, signal) {
            (Phase::NotStarted, SignalView::Spawned) => OrchestratorView {
                phase: Phase::Running,
                ..self
            },
            (Phase::NotStarted, SignalView::SpawnFailed) => OrchestratorView {
                phase: Phase::Failed,
                ..self
            },
            (Phase::Running, SignalView::Event(event)) => OrchestratorView {
                seen: self.seen.push(event),
                ..self
            },
            (Phase::Running, SignalView::StreamClosed) => OrchestratorView {
                phase: Phase::Draining,
                ..self
            },
            (Phase::Draining, SignalView::Exited { success }) => OrchestratorView {
                phase: Phase::Completed { success: self.yields(success) is Ok },
                ..self
            },
            _ => self,
        }
    }

    /// What the caller is told to do on `signal`.
    pub open spec fn answer(self, signal: SignalView) -> StepView {
        match (self.phase, signal) {
            (Phase::NotStarted, SignalView::Spawned) => StepView::Read,
            (Phase::NotStarted, SignalView::SpawnFailed) => StepView::Abort,
            (Phase::Running, SignalView::Event(event)) => match event {
                EventView::Diagnostic(Some(text)) => if shows_diagnostics(
                    self.quiet,
                    self.verbose,
                ) {
                    StepView::Relay(text)
                } else {
                    StepView::Read
                },
                _ => StepView::Read,
            },
            (Phase::Running, SignalView::StreamClosed) => StepView::AwaitExit,
            (Phase::Draining, SignalView::Exited { success }) => StepView::Finish(
                self.yields(success),
            ),
            _ => StepView::Rejected,
        }
    }

    /// The state after all of `signals`, in their order.
    pub open spec fn after_all(self, signals: Seq<SignalView>) -> OrchestratorView
        decreases signals.len(),
    {
        if signals.len() == 0 {
            self
        } else {
            self.after_all(signals.drop_last()).after(signals.last())
        }
    }

    /// What the caller is told on each of `signals`, in their order.
    pub open spec fn answers(self, signals: Seq<SignalView>) -> Seq<StepView>
        decreases signals.len(),
    {
        if signals.len() == 0 {
            Seq::empty()
        } else {
            let earlier = signals.drop_last();
            self.answers(earlier).push(self.after_all(earlier).answer(signals.last()))
        }
    }
}

/// The signals that deliver `events`, one signal for each event.
pub open spec fn deliveries(events: Seq<EventView>) -> Seq<SignalView> {
    events.map_values(|event: EventView| SignalView::Event(event))
}

/// The signals of a build that starts, delivers `events`, closes its
/// stream and exits.
pub open spec fn whole_run(events: Seq<EventView>, success: bool) -> Seq<SignalView> {
    seq![SignalView::Spawned] + deliveries(events) + seq![
        SignalView::StreamClosed,
        SignalView::Exited { success },
    ]
}

/// Picks the text of a step that relays one.
pub open spec fn relay_in() -> spec_fn(StepView) -> Option<Seq<char>> {
    |step: StepView|
        match step {
            StepView::Relay(text) => Some(text),
            _ => None,
        }
}

impl View for Orchestrator {
    type V = OrchestratorView;

    closed spec fn view(&self) -> OrchestratorView {
        OrchestratorView {
            phase: self.phase,
            selector: self.selector@,
            members: texts(self.members@),
            quiet: self.quiet,
            verbose: self.verbose,
            seen: self.seen@,
        }
    }
}

impl Orchestrator {
    #[verifier::type_invariant]
    spec fn candidates_follow_events(self) -> bool {
        match self.phase {
            Phase::NotStarted => self.seen@.len() == 0 && self.candidates@.len() == 0,
            Phase::Running | Phase::Draining => product_views(self.candidates@) == candidates_of(
                self.seen@,
                texts(self.members@),
                self.selector@,
            ),
            _ => true,
        }
    }

    /// The state of a build that has not begun: one that wants what
    /// `selector` names among the products of `members`.
    pub fn new(selector: BuildProductSelector, members: Vec<String>, quiet: bool, verbose: u64) -> (state:
        Orchestrator)
        ensures
            state@ == OrchestratorView::initial(selector@, texts(members@), quiet, verbose),
    {
        Orchestrator {
            phase: Phase::NotStarted,
            selector,
            members,
            quiet,
            verbose,
            candidates: Vec::new(),
            seen: Ghost(Seq::empty()),
        }
    }

    /// How far the build has come.
    pub fn phase(&self) -> (phase: Phase)
        ensures
            phase == self@.phase,
    {
        self.phase
    }

    /// Takes a signal of the build process: the state after it, and what
    /// the caller is to do next.
    pub fn step(self, signal: Signal) -> (next: (Orchestrator, Step))
        ensures
            next.0@ == self@.after(signal@),
            next.1@ == self@.answer(signal@),
    {
        proof {
            use_type_invariant(&self);
        }
        let Orchestrator { phase, selector, members, quiet, verbose, candidates, seen } = self;
        match phase {
            Phase::NotStarted => match signal {
                Signal::Spawned => {
                    assert(product_views(candidates@) =~= candidates_of(
                        seen@,
                        texts(members@),
                        selector@,
                    ));
                    (
                        Orchestrator {
                            phase: Phase::Running,
                            selector,
                            members,
                            quiet,
                            verbose,
                            candidates,
                            seen,
                        },
                        Step::Read,
                    )
                },
                Signal::SpawnFailed => (
                    Orchestrator {
                        phase: Phase::Failed,
                        selector,
                        members,
                        quiet,
                        verbose,
                        candidates,
                        seen,
                    },
                    Step::Abort,
                ),
                _ => (
                    Orchestrator {
                        phase: Phase::NotStarted,
                        selector,
                        members,
                        quiet,
                        verbose,
                        candidates,
                        seen,
                    },
                    Step::Rejected,
                ),
            },
            Phase::Running => match signal {
                Signal::Event(event) => {
                    let ghost all = seen@.push(event@);
                    let ghost pick = candidate_in(texts(members@), selector@);
                    proof {
                        assert(all.drop_last() =~= seen@);
                        assert(all.last() == event@);
                    }
                    let mut candidates = candidates;
                    let step = match classify(event, &members, &selector) {
                        Classification::Candidate(product) => {
                            proof {
                                lemma_product_views_push(candidates@, product);
                                assert(product_views(candidates@).push(product@) =~= product_views(
                                    candidates@,
                                ) + seq![product@]);
                            }
                            candidates.push(product);
                            Step::Read
                        },
                        Classification::DiagnosticText(text) => {
                            if relays_diagnostics(quiet, verbose) {
                                Step::Relay(text)
                            } else {
                                Step::Read
                            }
                        },
                        Classification::Ignore => Step::Read,
                    };
                    (
                        Orchestrator {
                            phase: Phase::Running,
                            selector,
                            members,
                            quiet,
                            verbose,
                            candidates,
                            seen: Ghost(all),
                        },
                        step,
                    )
                },
                Signal::StreamClosed => (
                    Orchestrator {
                        phase: Phase::Draining,
                        selector,
                        members,
                        quiet,
                        verbose,
                        candidates,
                        seen,
                    },
                    Step::AwaitExit,
                ),
                _ => (
                    Orchestrator {
                        phase: Phase::Running,
                        selector,
                        members,
                        quiet,
                        verbose,
                        candidates,
                        seen,
                    },
                    Step::Rejected,
                ),
            },
            Phase::Draining => match signal {
                Signal::Exited { success } => {
                    let result = select(&selector, candidates, success);
                    let done = match &result {
                        Ok(_) => true,
                        Err(_) => false,
                    };
                    (
                        Orchestrator {
                            phase: Phase::Completed { success: done },
                            selector,
                            members,
                            quiet,
                            verbose,
                            candidates: Vec::new(),
                            seen,
                        },
                        Step::Finish(result),
                    )
                },
                _ => (
                    Orchestrator {
                        phase: Phase::Draining,
                        selector,
                        members,
                        quiet,
                        verbose,
                        candidates,
                        seen,
                    },
                    Step::Rejected,
                ),
            },
            Phase::Completed { success } => (
                Orchestrator {
                    phase: Phase::Completed { success },
                    selector,
                    members,
                    quiet,
                    verbose,
                    candidates,
                    seen,
                },
                Step::Rejected,
            ),
            Phase::Failed => (
                Orchestrator { phase: Phase::Failed, selector, members, quiet, verbose, candidates, seen },
                Step::Rejected,
            ),
        }
    }
}

/// Signals taken in two runs lead where they lead taken in one.
pub proof fn lemma_after_all_add(state: OrchestratorView, a: Seq<SignalView>, b: Seq<SignalView>)
    ensures
        state.after_all(a + b) == state.after_all(a).after_all(b),
        state.answers(a + b) == state.answers(a) + state.after_all(a).answers(b),
    decreases b.len(),
{
    if b.len() == 0 {
        assert(a + b =~= a);
        assert(state.answers(a) + state.after_all(a).answers(b) =~= state.answers(a));
    } else {
        lemma_after_all_add(state, a, b.drop_last());
        assert((a + b).drop_last() =~= a + b.drop_last());
        assert((a + b).last() == b.last());
        assert(state.answers(a + b) =~= state.answers(a) + state.after_all(a).answers(b));
    }
}

/// One signal alone leads where it leads.
pub proof fn lemma_after_one(state: OrchestratorView, signal: SignalView)
    ensures
        state.after_all(seq![signal]) == state.after(signal),
        state.answers(seq![signal]) == seq![state.answer(signal)],
{
    let one = seq![signal];
    assert(one.drop_last() =~= Seq::<SignalView>::empty());
    assert(state.after_all(one.drop_last()) == state);
    assert(state.answers(one.drop_last()) =~= Seq::<StepView>::empty());
    assert(state.answers(one) =~= seq![state.answer(signal)]);
}

/// While the build runs, the events that are delivered are all taken, and
/// the texts that the caller is told to relay are the diagnostics to be
/// shown, in the order of the events.
pub proof fn lemma_events_are_taken_in_order(state: OrchestratorView, events: Seq<EventView>)
    requires
        state.phase is Running,
    ensures
        state.after_all(deliveries(events)) == (OrchestratorView {
            seen: state.seen + events,
            ..state
        }),
        state.answers(deliveries(events)).filter_map(relay_in()) == relayed(
            events,
            state.quiet,
            state.verbose,
        ),
    decreases events.len(),
{
    let signals = deliveries(events);
    if events.len() == 0 {
        assert(state.seen + events =~= state.seen);
        assert(state.answers(signals).filter_map(relay_in()) =~= Seq::<Seq<char>>::empty());
        assert(relayed(events, state.quiet, state.verbose) =~= Seq::<Seq<char>>::empty());
    } else {
        let earlier = events.drop_last();
        lemma_events_are_taken_in_order(state, earlier);
        assert(signals.drop_last() =~= deliveries(earlier));
        assert(signals.last() == SignalView::Event(events.last()));
        assert((state.seen + earlier).push(events.last()) =~= state.seen + events);
        let before = state.after_all(deliveries(earlier));
        let told = before.answer(signals.last());
        let steps = state.answers(deliveries(earlier));
        assert(state.answers(signals) == steps.push(told));
        assert(steps.push(told).drop_last() =~= steps);
        if shows_diagnostics(state.quiet, state.verbose) {
            match events.last() {
                EventView::Diagnostic(Some(text)) => {
                    assert(steps.push(told).filter_map(relay_in()) =~= relayed(
                        events,
                        state.quiet,
                        state.verbose,
                    ));
                },
                _ => {},
            }
        }
    }
}

/// A build that starts, delivers `events`, closes its stream and exits
/// ends completed, with the yield of those events and that exit status
/// as the last thing told to the caller. On the way the caller is told
/// to relay exactly the diagnostics to be shown, in stream order.
pub proof fn lemma_whole_run_yields_the_outcome(
    selector: SelectorView,
    members: Seq<Seq<char>>,
    quiet: bool,
    verbose: u64,
    events: Seq<EventView>,
    success: bool,
)
    ensures
        ({
            let start = OrchestratorView::initial(selector, members, quiet, verbose);
            let signals = whole_run(events, success);
            let result = outcome(events, members, selector, success);
            &&& start.answers(signals).last() == StepView::Finish(result)
            &&& start.after_all(signals).phase == Phase::Completed { success: result is Ok }
            &&& start.answers(signals).filter_map(relay_in()) == relayed(events, quiet, verbose)
        }),
{
    let start = OrchestratorView::initial(selector, members, quiet, verbose);
    let head = seq![SignalView::Spawned];
    let body = deliveries(events);
    let tail = seq![SignalView::StreamClosed, SignalView::Exited { success }];
    let signals = whole_run(events, success);
    let pick = relay_in();
    assert(signals == head + body + tail);

    let running = start.after(SignalView::Spawned);
    lemma_after_one(start, SignalView::Spawned);

    lemma_events_are_taken_in_order(running, events);
    let drained = running.after_all(body);
    assert(running.seen + events =~= events);

    let result = outcome(events, members, selector, success);
    let waiting = drained.after(SignalView::StreamClosed);
    lemma_after_one(drained, SignalView::StreamClosed);
    lemma_after_one(waiting, SignalView::Exited { success });
    lemma_after_all_add(
        drained,
        seq![SignalView::StreamClosed],
        seq![SignalView::Exited { success }],
    );
    assert(tail =~= seq![SignalView::StreamClosed] + seq![SignalView::Exited { success }]);
    assert(drained.answers(tail) =~= seq![StepView::AwaitExit, StepView::Finish(result)]);

    lemma_after_all_add(start, head, body);
    lemma_after_all_add(start, head + body, tail);

    crate::orchestrator::lemma_filter_map_add(start.answers(head), running.answers(body), pick);
    crate::orchestrator::lemma_filter_map_add(
        start.answers(head) + running.answers(body),
        drained.answers(tail),
        pick,
    );
    Seq::lemma_filter_map_singleton(StepView::Read, pick);
    assert(drained.answers(tail).filter_map(pick) =~= Seq::<Seq<char>>::empty()) by {
        crate::orchestrator::lemma_filter_map_none(drained.answers(tail), pick);
    }
    assert(start.answers(signals).filter_map(pick) =~= relayed(events, quiet, verbose));
}

} // verus!
