//! The ingest cycle as a state machine.
//!
//! One cycle runs `Idle -> Scanning -> Reading -> Parsing -> Forwarding ->
//! Idle`. The machine decides; its driver performs the work that the machine
//! asks for and reports back. Three of the four kinds of work reach outside
//! the process (listing the directory, loading the file, sending a reading)
//! and are answered with a [`CycleEvent`] handed to [`step`]. The fourth,
//! parsing, needs exclusive access to the tracker and nothing else: the
//! driver answers [`CycleAction::Parse`] by calling [`parse`] with the
//! tracker.
use crate::ingest::{after_cycle, collect_new_records, cycle_lines, records_match};
use crate::record::WeatherData;
use crate::scanner::{latest, select_latest, FileEntry};
use crate::text::lines_of;
use crate::tracker::{FileTracker, TrackerState};
use vstd::prelude::*;

verus! {

/// Where a cycle stands.
#[derive(Clone, Debug, PartialEq, Eq)]
pub enum CycleState {
    /// Between cycles, waiting for the timer.
    Idle,
    /// Waiting for the listing of the watched directory.
    Scanning,
    /// Waiting for the text of the selected file.
    Reading { file: String },
    /// Holding the text of the file, waiting for access to the tracker.
    Parsing { file: String, content: String },
    /// Waiting for the outcome of a send; `pending` are the readings still to
    /// be sent after it, in order.
    Forwarding { pending: Vec<WeatherData> },
}

/// What the driver reports to the machine.
#[derive(Clone, Debug, PartialEq, Eq)]
pub enum CycleEvent {
    /// The timer fired.
    Tick,
    /// The entries of the watched directory; none if it could not be listed.
    Listed(Vec<FileEntry>),
    /// The text of the selected file, or `None` if it could not be read.
    Loaded(Option<String>),
    /// The last send finished, successfully or not.
    Sent(bool),
}

/// Why a cycle ended.
#[derive(Clone, Copy, Debug, PartialEq, Eq, Structural)]
pub enum CycleEnd {
    /// The directory offered no file.
    NoFile,
    /// The selected file could not be read.
    Unreadable,
    /// The file held no line that was both new and not blank.
    NothingNew,
    /// Every new reading was handed to the forwarder.
    Forwarded,
}

/// What the machine asks of its driver.
#[derive(Clone, Debug, PartialEq, Eq)]
pub enum CycleAction {
    /// List the watched directory and report `Listed`.
    Scan,
    /// Read the named file and report `Loaded`.
    Load(String),
    /// Call [`parse`] with the tracker.
    Parse,
    /// Send this reading and report `Sent`.
    Send(WeatherData),
    /// The cycle is over; wait for the next tick.
    Finish(CycleEnd),
    /// The report did not fit the state and changed nothing.
    Ignore,
}

/// The mathematical content of a [`CycleState`].
pub enum StateView {
    Idle,
    Scanning,
    Reading { file: Seq<char> },
    Parsing { file: Seq<char>, content: Seq<char> },
    Forwarding { pending: Seq<WeatherData> },
}

/// The mathematical content of a [`CycleEvent`].
pub enum EventView {
    Tick,
    Listed(Seq<FileEntry>),
    Loaded(Option<Seq<char>>),
    Sent(bool),
}

/// The mathematical content of a [`CycleAction`].
pub enum ActionView {
    Scan,
    Load(Seq<char>),
    Parse,
    Send(WeatherData),
    Finish(CycleEnd),
    Ignore,
}

impl View for CycleState {
    type V = StateView;

    open spec fn view(&self) -> StateView {
        match self {
            CycleState::Idle => StateView::Idle,
            CycleState::Scanning => StateView::Scanning,
            CycleState::Reading { file } => StateView::Reading { file: file@ },
            CycleState::Parsing { file, content } => StateView::Parsing {
                file: file@,
                content: content@,
            },
            CycleState::Forwarding { pending } => StateView::Forwarding { pending: pending@ },
        }
    }
}

impl View for CycleEvent {
    type V = EventView;

    open spec fn view(&self) -> EventView {
        match self {
            CycleEvent::Tick => EventView::Tick,
            CycleEvent::Listed(entries) => EventView::Listed(entries@),
            CycleEvent::Loaded(Some(content)) => EventView::Loaded(Some(content@)),
            CycleEvent::Loaded(None) => EventView::Loaded(None),
            CycleEvent::Sent(ok) => EventView::Sent(*ok),
        }
    }
}

impl View for CycleAction {
    type V = ActionView;

    open spec fn view(&self) -> ActionView {
        match self {
            CycleAction::Scan => ActionView::Scan,
            CycleAction::Load(file) => ActionView::Load(file@),
            CycleAction::Parse => ActionView::Parse,
            CycleAction::Send(record) => ActionView::Send(*record),
            CycleAction::Finish(end) => ActionView::Finish(*end),
            CycleAction::Ignore => ActionView::Ignore,
        }
    }
}

/// The machine's answer to a report: the state it moves to and what it asks
/// for next. A report that does not fit the state, a tick during a running
/// cycle among them, changes nothing.
pub open spec fn transition(state: StateView, event: EventView) -> (StateView, ActionView) {
    match (state, event) {
        (StateView::Idle, EventView::Tick) => (StateView::Scanning, ActionView::Scan),
        (StateView::Scanning, EventView::Listed(entries)) => match latest(entries) {
            Some(i) => (
                StateView::Reading { file: entries[i].name@ },
                ActionView::Load(entries[i].name@),
            ),
            None => (StateView::Idle, ActionView::Finish(CycleEnd::NoFile)),
        },
        (StateView::Reading { file }, EventView::Loaded(Some(content))) => (
            StateView::Parsing { file, content },
            ActionView::Parse,
        ),
        (StateView::Reading { file }, EventView::Loaded(None)) => (
            StateView::Idle,
            ActionView::Finish(CycleEnd::Unreadable),
        ),
        (StateView::Forwarding { pending }, EventView::Sent(_)) => if pending.len() > 0 {
            (
                StateView::Forwarding { pending: pending.drop_first() },
                ActionView::Send(pending.first()),
            )
        } else {
            (StateView::Idle, ActionView::Finish(CycleEnd::Forwarded))
        },
        _ => (state, ActionView::Ignore),
    }
}

/// Advances the machine by one report from the driver.
pub fn step(state: CycleState, event: CycleEvent) -> (moved: (CycleState, CycleAction))
    ensures
        (moved.0@, moved.1@) == transition(state@, event@),
{
    match state {
        CycleState::Idle => match event {
            CycleEvent::Tick => (CycleState::Scanning, CycleAction::Scan),
            _ => (CycleState::Idle, CycleAction::Ignore),
        },
        CycleState::Scanning => match event {
            CycleEvent::Listed(entries) => match select_latest(entries.as_slice()) {
                Some(i) => {
                    let file = entries[i].name.clone();
                    (CycleState::Reading { file: file.clone() }, CycleAction::Load(file))
                },
                None => (CycleState::Idle, CycleAction::Finish(CycleEnd::NoFile)),
            },
            _ => (CycleState::Scanning, CycleAction::Ignore),
        },
        CycleState::Reading { file } => match event {
            CycleEvent::Loaded(Some(content)) => (
                CycleState::Parsing { file, content },
                CycleAction::Parse,
            ),
            CycleEvent::Loaded(None) => (
                CycleState::Idle,
                CycleAction::Finish(CycleEnd::Unreadable),
            ),
            _ => (CycleState::Reading { file }, CycleAction::Ignore),
        },
        CycleState::Parsing { file, content } => (
            CycleState::Parsing { file, content },
            CycleAction::Ignore,
        ),
        CycleState::Forwarding { pending } => match event {
            CycleEvent::Sent(_) => send_next(pending),
            _ => (CycleState::Forwarding { pending }, CycleAction::Ignore),
        },
    }
}

/// Takes the first of `pending` for sending, or ends the cycle if none is
/// left.
fn send_next(pending: Vec<WeatherData>) -> (moved: (CycleState, CycleAction))
    ensures
        (moved.0@, moved.1@) == transition(
            StateView::Forwarding { pending: pending@ },
            EventView::Sent(true),
        ),
{
    let mut rest = pending;
    if rest.len() > 0 {
        let record = rest.remove(0);
        (CycleState::Forwarding { pending: rest }, CycleAction::Send(record))
    } else {
        (CycleState::Idle, CycleAction::Finish(CycleEnd::Forwarded))
    }
}

/// What [`parse`] may answer in `state` with the tracker at `before`. In
/// `Parsing`, the tracker moves as a cycle over the file's lines moves it; if
/// no line is emitted the cycle ends with `NothingNew`, else the readings of
/// the emitted lines are, in order, the one to send now and those pending
/// after it. In any other state nothing changes.
pub open spec fn parse_result(
    state: StateView,
    before: TrackerState,
    next: StateView,
    action: ActionView,
    after: TrackerState,
) -> bool {
    match state {
        StateView::Parsing { file, content } => {
            let lines = lines_of(content);
            let emitted = cycle_lines(before, file, lines);
            &&& after == after_cycle(before, file, lines)
            &&& if emitted.len() == 0 {
                next == StateView::Idle && action == ActionView::Finish(CycleEnd::NothingNew)
            } else {
                &&& next is Forwarding
                &&& action is Send
                &&& records_match(seq![action->Send_0] + next->pending, lines, emitted)
            }
        },
        _ => next == state && action == ActionView::Ignore && after == before,
    }
}

/// Performs the parsing step of a cycle: reads the new lines of the loaded
/// file, moves the tracker past them and starts forwarding their readings.
pub fn parse(state: CycleState, tracker: &mut FileTracker) -> (moved: (CycleState, CycleAction))
    ensures
        parse_result(state@, old(tracker)@, moved.0@, moved.1@, final(tracker)@),
{
    match state {
        CycleState::Parsing { file, content } => {
            let mut records = collect_new_records(tracker, file.as_str(), content.as_str());
            if records.len() == 0 {
                (CycleState::Idle, CycleAction::Finish(CycleEnd::NothingNew))
            } else {
                let first = records.remove(0);
                (CycleState::Forwarding { pending: records }, CycleAction::Send(first))
            }
        },
        other => (other, CycleAction::Ignore),
    }
}

/// The readings that the machine asks to send, in order, while the driver
/// reports the outcomes `outcomes` one after another.
pub open spec fn sends(state: StateView, outcomes: Seq<bool>) -> Seq<WeatherData>
    decreases outcomes.len(),
{
    if outcomes.len() == 0 {
        Seq::empty()
    } else {
        let (next, action) = transition(state, EventView::Sent(outcomes.first()));
        let later = sends(next, outcomes.drop_first());
        match action {
            ActionView::Send(record) => seq![record] + later,
            _ => later,
        }
    }
}

/// The state that the machine reaches after the driver has reported the
/// outcomes `outcomes` one after another.
pub open spec fn state_after(state: StateView, outcomes: Seq<bool>) -> StateView
    decreases outcomes.len(),
{
    if outcomes.len() == 0 {
        state
    } else {
        state_after(
            transition(state, EventView::Sent(outcomes.first())).0,
            outcomes.drop_first(),
        )
    }
}

/// A reading is sent only while forwarding, and forwarding is entered only by
/// the parsing step: no send is asked for before parsing is complete.
pub proof fn lemma_sends_only_while_forwarding(state: StateView, event: EventView)
    ensures
        transition(state, event).1 is Send ==> state is Forwarding,
        transition(state, event).0 is Forwarding ==> state is Forwarding,
{
}

/// A failed send blocks nothing: whatever the outcomes are, the machine asks
/// for every pending reading once, in order, and the cycle is over when the
/// last outcome is in.
pub proof fn lemma_failures_do_not_block(pending: Seq<WeatherData>, outcomes: Seq<bool>)
    requires
        outcomes.len() == pending.len() + 1,
    ensures
        sends(StateView::Forwarding { pending }, outcomes) == pending,
        state_after(StateView::Forwarding { pending }, outcomes) == StateView::Idle,
    decreases pending.len(),
{
    let state = StateView::Forwarding { pending };
    if pending.len() == 0 {
        assert(sends(transition(state, EventView::Sent(outcomes.first())).0, outcomes.drop_first())
            == Seq::<WeatherData>::empty());
        assert(state_after(
            transition(state, EventView::Sent(outcomes.first())).0,
            outcomes.drop_first(),
        ) == StateView::Idle);
    } else {
        lemma_failures_do_not_block(pending.drop_first(), outcomes.drop_first());
    }
}

/// A whole cycle, from the parsing step to its end: the readings that the
/// machine asks to send, the one that the parsing step hands out and those
/// that follow as the outcomes come in, are the readings of the new lines of
/// the file, one for each and in file order. With the last outcome the
/// machine is idle again.
pub proof fn lemma_cycle_sends_every_new_line(
    file: Seq<char>,
    content: Seq<char>,
    before: TrackerState,
    next: StateView,
    action: ActionView,
    after: TrackerState,
    outcomes: Seq<bool>,
)
    requires
        parse_result(StateView::Parsing { file, content }, before, next, action, after),
        outcomes.len() == cycle_lines(before, file, lines_of(content)).len(),
    ensures
        records_match(
            (match action {
                ActionView::Send(record) => seq![record],
                _ => Seq::empty(),
            }) + sends(next, outcomes),
            lines_of(content),
            cycle_lines(before, file, lines_of(content)),
        ),
        state_after(next, outcomes) == StateView::Idle,
{
    if cycle_lines(before, file, lines_of(content)).len() > 0 {
        lemma_failures_do_not_block(next->pending, outcomes);
    }
}

/// Nothing new: when the starting offset lies at or beyond the end of the
/// file, the parsing step ends the cycle. It asks for no send, and forwarding
/// is never entered.
pub proof fn lemma_nothing_new_sends_nothing(
    file: Seq<char>,
    content: Seq<char>,
    before: TrackerState,
    next: StateView,
    action: ActionView,
    after: TrackerState,
)
    requires
        before.start_for(file) >= lines_of(content).len(),
        parse_result(StateView::Parsing { file, content }, before, next, action, after),
    ensures
        next == StateView::Idle,
        action == ActionView::Finish(CycleEnd::NothingNew),
        after == before.turned_to(file),
{
}

} // verus!
