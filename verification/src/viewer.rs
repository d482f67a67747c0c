//! The interactive viewer as a state machine: a bounded history of entries,
//! a short status log, the selection, and the phase of the session.
//!
//! The caller owns the terminal and the keyboard. It hands in what happened
//! as an [`Event`] and is told what to do next as an [`Action`].

use crate::cursor::{Cursor, Position};
use crate::ring::{newest, Ring};
use crate::screen::{screen_of, ui, Screen};
use crate::text::texts;
use crate::types::{entry_views, LogEntry};
use tokio::sync::mpsc::Receiver;
use vstd::prelude::*;

verus! {

/// Number of status lines that are kept.
pub const DEBUG_LINES: usize = 10;

/// Number of table rows that the viewer shows unless it is told otherwise.
pub const VISIBLE_ROWS: usize = 10;

/// Where the session stands. It only moves forward: `Running`, then
/// `Quitting` on a quit key, then `Terminated`; or from `Running` straight to
/// `Terminated` on a failure.
#[derive(Debug, Clone, Copy, PartialEq, Eq, Structural)]
pub enum Phase {
    Running,
    Quitting,
    Terminated,
}

/// A key, as far as the viewer tells keys apart.
#[derive(Debug, Clone, Copy, PartialEq, Eq, Structural)]
pub enum Key {
    Char(char),
    Up,
    Down,
    Other,
}

/// A key together with the state of the control key.
#[derive(Debug, Clone, Copy, PartialEq, Eq, Structural)]
pub struct KeyPress {
    pub key: Key,
    pub control: bool,
}

/// What can happen to a viewer.
#[derive(Debug)]
pub enum Event {
    /// An entry came off the channel at the time written in `stamp`.
    Received { entry: LogEntry, stamp: String },
    /// The sending side of the channel is gone.
    Disconnected,
    Key(KeyPress),
    /// Drawing a frame or reading the keyboard failed.
    Failure,
    /// The terminal is back in the mode it was in before the session.
    Restored,
}

/// What the caller does next.
#[derive(Debug, Clone, Copy, PartialEq, Eq, Structural)]
pub enum Action {
    /// Draw the frame and wait for the next event.
    Render,
    /// Leave the loop and put the terminal back in the mode it was in.
    Restore,
    /// Nothing is left to do.
    Halt,
}

/// What a look into the channel found.
pub enum Polled {
    Entry(LogEntry),
    /// Nothing waits, but a sender is still there.
    Empty,
    /// Nothing waits, and no sender is left.
    Closed,
}

#[verifier::external_type_specification]
#[verifier::external_body]
#[verifier::reject_recursive_types(T)]
pub struct ExReceiver<T>(Receiver<T>);

/// Trusted: tokio's `Receiver::try_recv`, which never waits. What comes back
/// depends on what the sending task has done, so nothing is promised of it.
#[verifier::external_body]
pub(crate) fn poll_channel(rx: &mut Receiver<LogEntry>) -> (polled: Polled) {
    match rx.try_recv() {
        Ok(entry) => Polled::Entry(entry),
        Err(tokio::sync::mpsc::error::TryRecvError::Empty) => Polled::Empty,
        Err(tokio::sync::mpsc::error::TryRecvError::Disconnected) => Polled::Closed,
    }
}

/// The events of one look into the channel that took in `absorbed` entries
/// at the time written in `stamp`: that many arrivals with that stamp, and
/// after them at most the news that the channel is closed.
pub open spec fn is_drain(events: Seq<Event>, absorbed: nat, stamp: Seq<char>) -> bool {
    &&& absorbed <= events.len() <= absorbed + 1
    &&& forall|i: int|
        0 <= i < absorbed ==> ((#[trigger] events[i]) matches Event::Received { stamp: s, .. }
            && s@ == stamp)
    &&& events.len() == absorbed + 1 ==> events.last() is Disconnected
}

/// `q`, or `c` with the control key.
pub open spec fn quits(press: KeyPress) -> bool {
    press.key == Key::Char('q') || (press.key == Key::Char('c') && press.control)
}

/// The state of a viewer, as plain values.
pub struct ViewerState {
    /// The history, oldest entry first.
    pub logs: Seq<LogEntry>,
    /// The status lines, oldest first.
    pub debug: Seq<Seq<char>>,
    pub at: Position,
    pub phase: Phase,
    /// Capacity of the history.
    pub max_logs: nat,
    /// Number of table rows.
    pub window: nat,
}

impl ViewerState {
    /// The history and the status log are within their bounds, and the
    /// selection fits the history.
    pub open spec fn valid(self) -> bool {
        &&& self.logs.len() <= self.max_logs
        &&& self.debug.len() <= DEBUG_LINES
        &&& self.at.valid(self.logs.len(), self.window)
    }

    /// The status log with `line` added.
    pub open spec fn noted(self, line: Seq<char>) -> ViewerState {
        ViewerState { debug: newest(self.debug.push(line), DEBUG_LINES as nat), ..self }
    }

    /// `entry` joins the history, pushing out the oldest entry where the
    /// history is full; the arrival is noted; the selection is brought back
    /// into the history.
    pub open spec fn received(self, entry: LogEntry, stamp: Seq<char>) -> ViewerState {
        let logs = newest(self.logs.push(entry), self.max_logs);
        ViewerState {
            logs,
            at: self.at.clamped(logs.len(), self.window),
            ..self.noted("New log received at "@ + stamp)
        }
    }

    /// A quit key starts quitting; the arrows move the selection; other keys
    /// change nothing.
    pub open spec fn pressed(self, press: KeyPress) -> ViewerState {
        if quits(press) {
            ViewerState { phase: Phase::Quitting, ..self }
        } else {
            match press.key {
                Key::Up => ViewerState { at: self.at.up(self.logs.len(), self.window), ..self },
                Key::Down => ViewerState {
                    at: self.at.down(self.logs.len(), self.window),
                    ..self
                },
                _ => ViewerState { at: self.at.clamped(self.logs.len(), self.window), ..self },
            }
        }
    }

    /// The state after `event`.
    pub open spec fn next(self, event: Event) -> ViewerState {
        match self.phase {
            Phase::Running => match event {
                Event::Received { entry, stamp } => self.received(entry, stamp@),
                Event::Disconnected => self.noted("Channel disconnected!"@),
                Event::Key(press) => self.pressed(press),
                Event::Failure => ViewerState { phase: Phase::Terminated, ..self },
                Event::Restored => self,
            },
            Phase::Quitting => match event {
                Event::Restored => ViewerState { phase: Phase::Terminated, ..self },
                _ => self,
            },
            Phase::Terminated => self,
        }
    }

    /// What the caller is told after `event`: to go on while the session
    /// runs; to restore the terminal from the moment the session stops
    /// running until that is done; nothing after that.
    pub open spec fn action(self, event: Event) -> Action {
        match self.phase {
            Phase::Running => if self.next(event).phase == Phase::Running {
                Action::Render
            } else {
                Action::Restore
            },
            Phase::Quitting => match event {
                Event::Restored => Action::Halt,
                _ => Action::Restore,
            },
            Phase::Terminated => Action::Halt,
        }
    }

    /// The state after the events of `events`, taken in order.
    pub open spec fn after(self, events: Seq<Event>) -> ViewerState
        decreases events.len(),
    {
        if events.len() == 0 {
            self
        } else {
            self.after(events.drop_last()).next(events.last())
        }
    }
}

/// Every event leaves a valid state valid: the history stays within its
/// capacity, and the selection within the history.
pub proof fn lemma_next_is_valid(state: ViewerState, event: Event)
    requires
        state.valid(),
    ensures
        state.next(event).valid(),
        state.next(event).max_logs == state.max_logs,
        state.next(event).window == state.window,
{
}

/// After every one of any sequence of events, the state is valid.
pub proof fn lemma_after_is_valid(state: ViewerState, events: Seq<Event>)
    requires
        state.valid(),
    ensures
        state.after(events).valid(),
        state.after(events).max_logs == state.max_logs,
        state.after(events).window == state.window,
    decreases events.len(),
{
    if events.len() > 0 {
        lemma_after_is_valid(state, events.drop_last());
        lemma_next_is_valid(state.after(events.drop_last()), events.last());
    }
}

/// However a running session stops running, by a quit key or by a failure,
/// the caller is told to restore the terminal.
pub proof fn lemma_every_exit_restores(state: ViewerState, event: Event)
    requires
        state.phase == Phase::Running,
        state.next(event).phase != Phase::Running,
    ensures
        state.action(event) == Action::Restore,
{
}

/// Quitting is entered from a running session by a quit key, and in no other
/// way.
pub proof fn lemma_quitting_needs_quit_key(state: ViewerState, event: Event)
    requires
        state.phase != Phase::Quitting,
        state.next(event).phase == Phase::Quitting,
    ensures
        state.phase == Phase::Running,
        event matches Event::Key(press) && quits(press),
{
}

/// A terminated session stays terminated and asks for nothing.
pub proof fn lemma_terminated_is_final(state: ViewerState, event: Event)
    requires
        state.phase == Phase::Terminated,
    ensures
        state.next(event) == state,
        state.action(event) == Action::Halt,
{
}

/// Once the session no longer runs, events change neither the history nor
/// the selection.
pub proof fn lemma_stopped_session_is_frozen(state: ViewerState, event: Event)
    requires
        state.phase != Phase::Running,
    ensures
        state.next(event).logs == state.logs,
        state.next(event).debug == state.debug,
        state.next(event).at == state.at,
{
}

/// The viewer.
pub struct Viewer {
    logs: Ring<LogEntry>,
    debug: Ring<String>,
    cursor: Cursor,
    phase: Phase,
    window: usize,
}

impl View for Viewer {
    type V = ViewerState;

    closed spec fn view(&self) -> ViewerState {
        ViewerState {
            logs: self.logs@,
            debug: texts(self.debug@),
            at: self.cursor@,
            phase: self.phase,
            max_logs: self.logs.limit(),
            window: self.window as nat,
        }
    }
}

/// Taking the newest of the texts, or the texts of the newest, is the same.
proof fn lemma_texts_of_newest(lines: Seq<String>, line: String, limit: nat)
    ensures
        texts(newest(lines.push(line), limit)) == newest(texts(lines).push(line@), limit),
{
    assert(texts(newest(lines.push(line), limit)) =~= newest(texts(lines).push(line@), limit));
}

impl Viewer {
    /// The rings are within their bounds and the state is valid.
    pub closed spec fn wf(&self) -> bool {
        &&& self.logs.wf()
        &&& self.debug.wf()
        &&& self.debug.limit() == DEBUG_LINES
        &&& self@.valid()
    }

    /// A well-formed viewer is in a valid state.
    pub proof fn lemma_wf_is_valid(&self)
        requires
            self.wf(),
        ensures
            self@.valid(),
    {
    }

    /// A running viewer with an empty history of capacity `max_logs`, shown
    /// `window` rows at a time.
    pub fn new(max_logs: usize, window: usize) -> (viewer: Self)
        ensures
            viewer.wf(),
            viewer@ == (ViewerState {
                logs: Seq::<LogEntry>::empty(),
                debug: Seq::<Seq<char>>::empty(),
                at: Position { selected: 0, scroll: 0 },
                phase: Phase::Running,
                max_logs: max_logs as nat,
                window: window as nat,
            }),
    {
        let viewer = Viewer {
            logs: Ring::new(max_logs),
            debug: Ring::new(DEBUG_LINES),
            cursor: Cursor::new(),
            phase: Phase::Running,
            window,
        };
        proof {
            viewer.logs.lemma_bounded();
            viewer.debug.lemma_bounded();
            assert(texts(viewer.debug@) =~= Seq::<Seq<char>>::empty());
        }
        viewer
    }

    pub fn phase(&self) -> (phase: Phase)
        ensures
            phase == self@.phase,
    {
        self.phase
    }

    pub fn is_running(&self) -> (running: bool)
        ensures
            running == (self@.phase == Phase::Running),
    {
        match self.phase {
            Phase::Running => true,
            _ => false,
        }
    }

    /// Number of entries in the history.
    pub fn len(&self) -> (len: usize)
        ensures
            len == self@.logs.len(),
    {
        self.logs.len()
    }

    /// Capacity of the history.
    pub fn max_logs(&self) -> (max_logs: usize)
        ensures
            max_logs == self@.max_logs,
    {
        self.logs.capacity()
    }

    /// The entry at `index` of the history, counted from the oldest.
    pub fn entry(&self, index: usize) -> (entry: Option<&LogEntry>)
        ensures
            index < self@.logs.len() ==> entry == Some(&self@.logs[index as int]),
            index >= self@.logs.len() ==> entry is None,
    {
        self.logs.get(index)
    }

    /// Index of the selected entry; none while the history is empty.
    pub fn selected_index(&self) -> (index: Option<usize>)
        requires
            self.wf(),
        ensures
            self@.logs.len() == 0 <==> index is None,
            index matches Some(i) ==> i == self@.at.selected && i < self@.logs.len(),
    {
        self.cursor.selection(self.logs.len())
    }

    /// Index of the first visible row.
    pub fn scroll_offset(&self) -> (index: usize)
        ensures
            index == self@.at.scroll,
    {
        self.cursor.scroll_offset()
    }

    fn note(&mut self, line: String)
        requires
            old(self).wf(),
        ensures
            final(self).wf(),
            final(self)@ == old(self)@.noted(line@),
    {
        proof {
            lemma_texts_of_newest(self.debug@, line, DEBUG_LINES as nat);
            self.debug.lemma_bounded();
        }
        self.debug.push(line);
        proof {
            self.debug.lemma_bounded();
        }
    }

    fn receive(&mut self, entry: LogEntry, stamp: &str)
        requires
            old(self).wf(),
        ensures
            final(self).wf(),
            final(self)@ == old(self)@.received(entry, stamp@),
    {
        self.logs.push(entry);
        self.cursor.clamp(self.logs.len(), self.window);
        proof {
            self.logs.lemma_bounded();
        }
        self.note("New log received at ".to_owned().concat(stamp));
    }

    fn press(&mut self, press: KeyPress)
        requires
            old(self).wf(),
        ensures
            final(self).wf(),
            final(self)@ == old(self)@.pressed(press),
    {
        let quit = match press.key {
            Key::Char(c) => c == 'q' || (c == 'c' && press.control),
            _ => false,
        };
        if quit {
            self.phase = Phase::Quitting;
        } else {
            match press.key {
                Key::Up => self.cursor.up(self.logs.len(), self.window),
                Key::Down => self.cursor.down(self.logs.len(), self.window),
                _ => self.cursor.clamp(self.logs.len(), self.window),
            }
        }
    }

    /// Takes in `event` and says what to do next.
    pub fn handle(&mut self, event: Event) -> (action: Action)
        requires
            old(self).wf(),
        ensures
            final(self).wf(),
            final(self)@ == old(self)@.next(event),
            action == old(self)@.action(event),
    {
        match self.phase {
            Phase::Running => {
                match event {
                    Event::Received { entry, stamp } => {
                        self.receive(entry, stamp.as_str());
                    },
                    Event::Disconnected => {
                        self.note("Channel disconnected!".to_owned());
                    },
                    Event::Key(press) => {
                        self.press(press);
                    },
                    Event::Failure => {
                        self.phase = Phase::Terminated;
                    },
                    Event::Restored => {},
                }
                match self.phase {
                    Phase::Running => Action::Render,
                    _ => Action::Restore,
                }
            },
            Phase::Quitting => match event {
                Event::Restored => {
                    self.phase = Phase::Terminated;
                    Action::Halt
                },
                _ => Action::Restore,
            },
            Phase::Terminated => Action::Halt,
        }
    }

    /// Takes entries off `rx` without waiting, until the channel is empty or
    /// as many entries as the history holds were taken in, and returns their
    /// number. Each one is handled as a [`Event::Received`] with `stamp` as
    /// the time of its arrival; a closed channel is handled as
    /// [`Event::Disconnected`]. A viewer that no longer runs leaves the
    /// channel alone.
    pub fn drain(&mut self, rx: &mut Receiver<LogEntry>, stamp: &str) -> (absorbed: usize)
        requires
            old(self).wf(),
        ensures
            final(self).wf(),
            absorbed <= old(self)@.max_logs,
            old(self)@.phase != Phase::Running ==> absorbed == 0 && final(self)@ == old(self)@,
            exists|events: Seq<Event>|
                is_drain(events, absorbed as nat, stamp@) && final(self)@ == #[trigger] old(
                    self,
                )@.after(events),
    {
        let ghost mut events: Seq<Event> = Seq::empty();
        let mut absorbed: usize = 0;
        if !self.is_running() {
            assert(is_drain(events, 0, stamp@) && self@ == old(self)@.after(events));
            return 0;
        }
        let limit = self.logs.capacity();
        while absorbed < limit
            invariant
                self.wf(),
                self@.phase == Phase::Running,
                old(self)@.phase == Phase::Running,
                self@.max_logs == old(self)@.max_logs,
                limit == old(self)@.max_logs,
                absorbed <= limit,
                events.len() == absorbed,
                is_drain(events, absorbed as nat, stamp@),
                self@ == old(self)@.after(events),
            decreases limit - absorbed,
        {
            match poll_channel(rx) {
                Polled::Entry(entry) => {
                    let arrival = stamp.to_owned();
                    proof {
                        let event = Event::Received { entry, stamp: arrival };
                        assert(events.push(event).drop_last() =~= events);
                        events = events.push(event);
                    }
                    self.receive(entry, arrival.as_str());
                    absorbed = absorbed + 1;
                },
                Polled::Empty => {
                    return absorbed;
                },
                Polled::Closed => {
                    proof {
                        assert(events.push(Event::Disconnected).drop_last() =~= events);
                        events = events.push(Event::Disconnected);
                    }
                    self.note("Channel disconnected!".to_owned());
                    assert(is_drain(events, absorbed as nat, stamp@) && self@ == old(self)@.after(
                        events,
                    ));
                    return absorbed;
                },
            }
        }
        absorbed
    }

    /// The frame to draw.
    pub fn screen(&self) -> (screen: Screen)
        ensures
            screen@ == screen_of(
                entry_views(self@.logs),
                self@.at,
                self@.window,
                self@.debug,
            ),
    {
        ui(&self.logs, &self.cursor, self.window, &self.debug)
    }
}

} // verus!
