//! Dispatch: which lines become entries, and the fixed order in which an
//! accepted entry is persisted, handed to the viewer, alerted and uploaded.
//!
//! The work itself (files, the channel's waiting, the network) is the
//! caller's. A [`Delivery`] says which step is due as a [`Command`] and is
//! told how the step went as an [`Outcome`].

use crate::dedup::SeenSet;
use crate::notifier::handle_telegram_alert;
use crate::parser::{Classifier, Rules};
use crate::types::{LogEntry, LogEntryView, LogPriority};
use crate::utils::current_timestamp;
use tokio::sync::mpsc::Sender;
use vstd::prelude::*;

verus! {

/// The step of a delivery that is due.
#[derive(Debug, Clone, Copy, PartialEq, Eq, Structural)]
pub enum Stage {
    /// Append the entry to the snapshot.
    Persist,
    /// Hand the entry to the viewer.
    Enqueue,
    /// Send the alert.
    Notify,
    /// Send the report that follows an alert.
    Report,
    /// Upload the snapshot.
    Upload,
    Done,
}

/// How a step went.
#[derive(Debug, Clone, Copy, PartialEq, Eq, Structural)]
pub enum Outcome {
    Succeeded,
    Failed,
    /// The step could not be taken yet and is due again: the channel to the
    /// viewer is full.
    Busy,
}

/// What the caller is asked to do.
#[derive(Debug)]
pub enum Command {
    Persist(LogEntry),
    Enqueue(LogEntry),
    /// Alert with this text.
    Notify(String),
    Report,
    Upload,
    /// Nothing: the delivery is over. The entry is as it ended up.
    Finished(LogEntry),
}

/// A command, as plain values.
pub enum CommandView {
    Persist(LogEntryView),
    Enqueue(LogEntryView),
    Notify(Seq<char>),
    Report,
    Upload,
    Finished(LogEntryView),
}

impl View for Command {
    type V = CommandView;

    open spec fn view(&self) -> CommandView {
        match self {
            Command::Persist(entry) => CommandView::Persist(entry@),
            Command::Enqueue(entry) => CommandView::Enqueue(entry@),
            Command::Notify(text) => CommandView::Notify(text@),
            Command::Report => CommandView::Report,
            Command::Upload => CommandView::Upload,
            Command::Finished(entry) => CommandView::Finished(entry@),
        }
    }
}

/// A delivery, as plain values.
pub struct DeliveryState {
    pub entry: LogEntryView,
    pub stage: Stage,
}

impl DeliveryState {
    /// The delivery of `entry`, with every step still to take.
    pub open spec fn start(entry: LogEntryView) -> DeliveryState {
        DeliveryState { entry, stage: Stage::Persist }
    }

    /// Entries of priority high and above are alerted.
    pub open spec fn alerts(self) -> bool {
        self.entry.priority.rank() >= LogPriority::High.rank()
    }

    /// The delivery after the due step went as `outcome` says.
    ///
    /// A busy step changes nothing. Otherwise the steps follow in the order
    /// persist, enqueue, notify, report, upload. An entry that could not be
    /// persisted or enqueued goes on to the upload at once; so does one that
    /// is not alerted, and one whose alert failed. The outcome of the alert,
    /// and only that, is written into the entry.
    pub open spec fn next(self, outcome: Outcome) -> DeliveryState {
        if outcome == Outcome::Busy {
            self
        } else {
            let succeeded = outcome == Outcome::Succeeded;
            match self.stage {
                Stage::Persist => DeliveryState {
                    stage: if succeeded {
                        Stage::Enqueue
                    } else {
                        Stage::Upload
                    },
                    ..self
                },
                Stage::Enqueue => DeliveryState {
                    stage: if succeeded && self.alerts() {
                        Stage::Notify
                    } else {
                        Stage::Upload
                    },
                    ..self
                },
                Stage::Notify => DeliveryState {
                    entry: LogEntryView { notified: Some(succeeded), ..self.entry },
                    stage: if succeeded {
                        Stage::Report
                    } else {
                        Stage::Upload
                    },
                },
                Stage::Report => DeliveryState { stage: Stage::Upload, ..self },
                Stage::Upload => DeliveryState { stage: Stage::Done, ..self },
                Stage::Done => self,
            }
        }
    }

    /// The command of the due step.
    pub open spec fn command(self) -> CommandView {
        match self.stage {
            Stage::Persist => CommandView::Persist(self.entry),
            Stage::Enqueue => CommandView::Enqueue(self.entry),
            Stage::Notify => CommandView::Notify(self.entry.message),
            Stage::Report => CommandView::Report,
            Stage::Upload => CommandView::Upload,
            Stage::Done => CommandView::Finished(self.entry),
        }
    }

    /// The delivery after the outcomes of `outcomes`, taken in order.
    pub open spec fn after(self, outcomes: Seq<Outcome>) -> DeliveryState
        decreases outcomes.len(),
    {
        if outcomes.len() == 0 {
            self
        } else {
            self.after(outcomes.drop_last()).next(outcomes.last())
        }
    }
}

/// Position of a stage in the order of the steps.
pub open spec fn stage_rank(stage: Stage) -> nat {
    match stage {
        Stage::Persist => 0,
        Stage::Enqueue => 1,
        Stage::Notify => 2,
        Stage::Report => 3,
        Stage::Upload => 4,
        Stage::Done => 5,
    }
}

/// The steps of one entry are taken in their order: no outcome moves a
/// delivery back, and every outcome but a busy one moves it on until it is
/// done.
pub proof fn lemma_steps_keep_their_order(delivery: DeliveryState, outcome: Outcome)
    ensures
        stage_rank(delivery.next(outcome).stage) >= stage_rank(delivery.stage),
        outcome != Outcome::Busy && delivery.stage != Stage::Done ==> stage_rank(
            delivery.next(outcome).stage,
        ) > stage_rank(delivery.stage),
{
}

/// The upload is never passed over: a delivery is done only after its upload
/// was the step that was due.
pub proof fn lemma_upload_is_never_skipped(delivery: DeliveryState, outcome: Outcome)
    requires
        delivery.stage != Stage::Done,
        delivery.next(outcome).stage == Stage::Done,
    ensures
        delivery.stage == Stage::Upload,
{
}

/// A delivery is over after five steps at most, however they went.
pub proof fn lemma_delivery_ends(
    entry: LogEntryView,
    first: Outcome,
    second: Outcome,
    third: Outcome,
    fourth: Outcome,
    fifth: Outcome,
)
    requires
        first != Outcome::Busy,
        second != Outcome::Busy,
        third != Outcome::Busy,
        fourth != Outcome::Busy,
        fifth != Outcome::Busy,
    ensures
        DeliveryState::start(entry).next(first).next(second).next(third).next(fourth).next(
            fifth,
        ).stage == Stage::Done,
{
}

/// A full channel drops nothing: the delivery stays where it is, with its
/// entry, and asks for the same step again.
pub proof fn lemma_busy_channel_keeps_the_entry(delivery: DeliveryState)
    ensures
        delivery.next(Outcome::Busy) == delivery,
        delivery.next(Outcome::Busy).command() == delivery.command(),
{
}

/// No step rewrites the entry, but for the mark that the alert leaves.
pub proof fn lemma_entry_is_kept(delivery: DeliveryState, outcome: Outcome)
    ensures
        delivery.next(outcome).entry == (LogEntryView {
            notified: delivery.next(outcome).entry.notified,
            ..delivery.entry
        }),
        delivery.stage != Stage::Notify ==> delivery.next(outcome).entry == delivery.entry,
{
}

/// An entry of priority high or above that was persisted and enqueued is
/// alerted with its message, and is marked as notified once the alert has
/// succeeded.
pub proof fn lemma_alert_marks_the_entry(entry: LogEntryView)
    requires
        entry.priority.rank() >= LogPriority::High.rank(),
    ensures
        ({
            let due = DeliveryState::start(entry).next(Outcome::Succeeded).next(Outcome::Succeeded);
            &&& due.command() == CommandView::Notify(entry.message)
            &&& due.next(Outcome::Succeeded).entry.notified == Some(true)
            &&& due.next(Outcome::Failed).entry.notified == Some(false)
        }),
{
}

/// An entry below priority high is never alerted and never marked.
pub proof fn lemma_low_priority_is_not_alerted(delivery: DeliveryState, outcomes: Seq<Outcome>)
    requires
        delivery.stage == Stage::Persist,
        !delivery.alerts(),
    ensures
        delivery.after(outcomes).stage != Stage::Notify,
        delivery.after(outcomes).stage != Stage::Report,
        delivery.after(outcomes).entry == delivery.entry,
    decreases outcomes.len(),
{
    if outcomes.len() > 0 {
        lemma_low_priority_is_not_alerted(delivery, outcomes.drop_last());
    }
}

/// One accepted entry on its way through the steps.
#[derive(Debug)]
pub struct Delivery {
    entry: LogEntry,
    stage: Stage,
}

impl View for Delivery {
    type V = DeliveryState;

    closed spec fn view(&self) -> DeliveryState {
        DeliveryState { entry: self.entry@, stage: self.stage }
    }
}

#[verifier::external_type_specification]
#[verifier::external_body]
#[verifier::reject_recursive_types(T)]
pub struct ExSender<T>(Sender<T>);

/// What became of an entry offered to the channel.
#[derive(Debug)]
pub enum Offer {
    Sent,
    /// The channel holds as many entries as it may; the entry comes back.
    Full(LogEntry),
    /// The receiving side is gone; the entry comes back.
    Closed(LogEntry),
}

/// Trusted: tokio's `Sender::try_send`, which never waits. Whether the
/// channel takes the entry depends on the receiving task, so that is left
/// open; an entry that is not taken is the one that comes back in the error.
#[verifier::external_body]
pub(crate) fn offer_to_channel(tx: &Sender<LogEntry>, entry: LogEntry) -> (offer: Offer)
    ensures
        offer matches Offer::Full(back) ==> back == entry,
        offer matches Offer::Closed(back) ==> back == entry,
{
    match tx.try_send(entry) {
        Ok(()) => Offer::Sent,
        Err(tokio::sync::mpsc::error::TrySendError::Full(back)) => Offer::Full(back),
        Err(tokio::sync::mpsc::error::TrySendError::Closed(back)) => Offer::Closed(back),
    }
}

/// Offers `log_entry` to the viewer channel without waiting. An entry that
/// the channel does not take comes back.
pub fn send_log_to_channel(tx: &Sender<LogEntry>, log_entry: LogEntry) -> (offer: Offer)
    ensures
        offer matches Offer::Full(back) ==> back == log_entry,
        offer matches Offer::Closed(back) ==> back == log_entry,
{
    offer_to_channel(tx, log_entry)
}

/// How the enqueue step went, given what became of the entry: a full channel
/// makes the step due again, a closed one fails it.
pub open spec fn offer_outcome(offer: Offer) -> Outcome {
    match offer {
        Offer::Sent => Outcome::Succeeded,
        Offer::Full(_) => Outcome::Busy,
        Offer::Closed(_) => Outcome::Failed,
    }
}

impl Offer {
    /// How the enqueue step went; see [`offer_outcome`].
    pub fn outcome(&self) -> (outcome: Outcome)
        ensures
            outcome == offer_outcome(*self),
    {
        match self {
            Offer::Sent => Outcome::Succeeded,
            Offer::Full(_) => Outcome::Busy,
            Offer::Closed(_) => Outcome::Failed,
        }
    }
}

impl Delivery {
    /// The delivery of `entry`, with every step still to take.
    pub fn new(entry: LogEntry) -> (delivery: Self)
        ensures
            delivery@ == DeliveryState::start(entry@),
    {
        Delivery { entry, stage: Stage::Persist }
    }

    pub fn stage(&self) -> (stage: Stage)
        ensures
            stage == self@.stage,
    {
        self.stage
    }

    pub fn entry(&self) -> (entry: &LogEntry)
        ensures
            entry@ == self@.entry,
    {
        &self.entry
    }

    pub fn is_done(&self) -> (done: bool)
        ensures
            done == (self@.stage == Stage::Done),
    {
        match self.stage {
            Stage::Done => true,
            _ => false,
        }
    }

    /// The step that is due.
    pub fn command(&self) -> (command: Command)
        ensures
            command@ == self@.command(),
    {
        match self.stage {
            Stage::Persist => Command::Persist(self.entry.clone()),
            Stage::Enqueue => Command::Enqueue(self.entry.clone()),
            Stage::Notify => Command::Notify(self.entry.message.clone()),
            Stage::Report => Command::Report,
            Stage::Upload => Command::Upload,
            Stage::Done => Command::Finished(self.entry.clone()),
        }
    }

    /// Records how the due step went and moves on.
    pub fn advance(&mut self, outcome: Outcome)
        ensures
            final(self)@ == old(self)@.next(outcome),
    {
        let succeeded = match outcome {
            Outcome::Busy => {
                return ;
            },
            Outcome::Succeeded => true,
            Outcome::Failed => false,
        };
        match self.stage {
            Stage::Persist => {
                self.stage = if succeeded {
                    Stage::Enqueue
                } else {
                    Stage::Upload
                };
            },
            Stage::Enqueue => {
                self.stage = if succeeded && handle_telegram_alert(&self.entry) {
                    Stage::Notify
                } else {
                    Stage::Upload
                };
            },
            Stage::Notify => {
                self.entry.notified = Some(succeeded);
                self.stage = if succeeded {
                    Stage::Report
                } else {
                    Stage::Upload
                };
            },
            Stage::Report => {
                self.stage = Stage::Upload;
            },
            Stage::Upload => {
                self.stage = Stage::Done;
            },
            Stage::Done => {},
        }
    }

    /// Takes the enqueue step on `tx` without waiting, and returns how it
    /// went; `None`, and nothing done, where another step is due.
    ///
    /// On [`Outcome::Busy`] the channel was full: the entry stays with the
    /// delivery, and the step is to be taken again once the viewer has made
    /// room.
    pub fn enqueue(&mut self, tx: &Sender<LogEntry>) -> (outcome: Option<Outcome>)
        ensures
            outcome is None <==> old(self)@.stage != Stage::Enqueue,
            outcome is None ==> final(self)@ == old(self)@,
            outcome matches Some(o) ==> final(self)@ == old(self)@.next(o),
    {
        match self.stage {
            Stage::Enqueue => {
                let outcome = send_log_to_channel(tx, self.entry.clone()).outcome();
                self.advance(outcome);
                Some(outcome)
            },
            _ => None,
        }
    }
}

/// What offering `line` does to the set of seen lines, and the entry it
/// yields. A line that no keyword selects leaves no trace. A selected line is
/// remembered by its exact text and yields an entry the first time only.
pub open spec fn offered(rules: Rules, seen: Set<Seq<char>>, line: Seq<char>, timestamp: u64) -> (
    Set<Seq<char>>,
    Option<LogEntryView>,
) {
    match rules.entry(line, timestamp) {
        Some(entry) => if seen.contains(line) {
            (seen, None)
        } else {
            (seen.insert(line), Some(entry))
        },
        None => (seen, None),
    }
}

/// Whether offering `line` yields an entry: some keyword selects it, and its
/// text was not seen before.
pub open spec fn accepts(rules: Rules, seen: Set<Seq<char>>, line: Seq<char>) -> bool {
    rules.classification(line) is Some && !seen.contains(line)
}

/// What offering the lines of `lines` in their order does to the set of seen
/// lines, and the entries they yield, in the order of their lines.
pub open spec fn offered_all(
    rules: Rules,
    seen: Set<Seq<char>>,
    lines: Seq<Seq<char>>,
    timestamp: u64,
) -> (Set<Seq<char>>, Seq<LogEntryView>)
    decreases lines.len(),
{
    if lines.len() == 0 {
        (seen, Seq::empty())
    } else {
        let (before, entries) = offered_all(rules, seen, lines.drop_last(), timestamp);
        let (after, entry) = offered(rules, before, lines.last(), timestamp);
        (
            after,
            match entry {
                Some(entry) => entries.push(entry),
                None => entries,
            },
        )
    }
}

/// The same text offered twice in a row yields at most one entry: the second
/// offer yields none and changes nothing. It yields exactly one where the
/// text is selected and was not seen before.
pub proof fn lemma_same_line_twice(
    rules: Rules,
    seen: Set<Seq<char>>,
    line: Seq<char>,
    first: u64,
    second: u64,
)
    ensures
        ({
            let (once, entry) = offered(rules, seen, line, first);
            let (twice, again) = offered(rules, once, line, second);
            &&& again is None
            &&& twice == once
            &&& entry is Some <==> accepts(rules, seen, line)
        }),
{
}

/// A line that no keyword selects yields no entry and is not remembered.
pub proof fn lemma_dropped_line_leaves_no_trace(
    rules: Rules,
    seen: Set<Seq<char>>,
    line: Seq<char>,
    timestamp: u64,
)
    requires
        rules.classification(line) is None,
    ensures
        offered(rules, seen, line, timestamp) == (seen, None::<LogEntryView>),
{
}

/// A fresh line with a keyword of the very-high class yields a critical
/// entry of very high priority, which is alerted, and marked as notified
/// when the alert succeeds.
pub proof fn lemma_critical_line_is_alerted(
    rules: Rules,
    seen: Set<Seq<char>>,
    line: Seq<char>,
    timestamp: u64,
    k: int,
)
    requires
        0 <= k < rules.very_high.len(),
        crate::text::occurs_in(rules.very_high[k], line),
        !seen.contains(line),
    ensures
        ({
            let entry = offered(rules, seen, line, timestamp).1;
            &&& entry matches Some(e)
            &&& e.priority == LogPriority::VeryHigh
            &&& e.log_type == crate::types::LogType::Critical
            &&& DeliveryState::start(e).next(Outcome::Succeeded).next(
                Outcome::Succeeded,
            ).command() == CommandView::Notify(e.message)
            &&& DeliveryState::start(e).next(Outcome::Succeeded).next(Outcome::Succeeded).next(
                Outcome::Succeeded,
            ).entry.notified == Some(true)
        }),
{
}

/// A fresh line with a keyword of the very-high class that neither starts
/// nor ends with white space is delivered whole: its entry is critical, of
/// very high priority, with the line itself as its message; that entry is
/// what is persisted and what is handed to the viewer; and the alert carries
/// the line.
pub proof fn lemma_critical_line_is_delivered_whole(
    rules: Rules,
    seen: Set<Seq<char>>,
    line: Seq<char>,
    timestamp: u64,
    k: int,
)
    requires
        0 <= k < rules.very_high.len(),
        crate::text::occurs_in(rules.very_high[k], line),
        !seen.contains(line),
        line.len() > 0 ==> !crate::text::white_space(line.first()) && !crate::text::white_space(
            line.last(),
        ),
    ensures
        ({
            let entry = LogEntryView {
                timestamp,
                log_type: crate::types::LogType::Critical,
                priority: LogPriority::VeryHigh,
                message: line,
                notified: None,
            };
            let start = DeliveryState::start(entry);
            &&& offered(rules, seen, line, timestamp).1 == Some(entry)
            &&& start.command() == CommandView::Persist(entry)
            &&& start.next(Outcome::Succeeded).command() == CommandView::Enqueue(entry)
            &&& start.next(Outcome::Succeeded).next(Outcome::Succeeded).command()
                == CommandView::Notify(line)
        }),
{
    crate::text::lemma_tight_text_is_kept(line);
}

/// The positions in `lines` of the lines that yield an entry when the lines
/// are offered in their order, in increasing order.
pub open spec fn accepted_at(
    rules: Rules,
    seen: Set<Seq<char>>,
    lines: Seq<Seq<char>>,
    timestamp: u64,
) -> Seq<int>
    decreases lines.len(),
{
    if lines.len() == 0 {
        Seq::empty()
    } else {
        let earlier = accepted_at(rules, seen, lines.drop_last(), timestamp);
        let before = offered_all(rules, seen, lines.drop_last(), timestamp).0;
        if accepts(rules, before, lines.last()) {
            earlier.push(lines.len() - 1)
        } else {
            earlier
        }
    }
}

/// Entries leave in the order in which their lines came, one for each text:
/// the entries of a batch stand for lines at increasing positions, each is
/// the entry of its line, no two of them stand for lines of the same text,
/// and none stands for a text that was seen before the batch.
pub proof fn lemma_dispatch_keeps_line_order(
    rules: Rules,
    seen: Set<Seq<char>>,
    lines: Seq<Seq<char>>,
    timestamp: u64,
)
    ensures
        ({
            let (after, entries) = offered_all(rules, seen, lines, timestamp);
            let at = accepted_at(rules, seen, lines, timestamp);
            &&& at.len() == entries.len()
            &&& forall|k: int|
                0 <= k < at.len() ==> 0 <= #[trigger] at[k] < lines.len() && rules.entry(
                    lines[at[k]],
                    timestamp,
                ) == Some(entries[k]) && !seen.contains(lines[at[k]]) && after.contains(
                    lines[at[k]],
                )
            &&& forall|j: int, k: int|
                0 <= j < k < at.len() ==> at[j] < at[k] && lines[at[j]] != lines[at[k]]
            &&& forall|text: Seq<char>| seen.contains(text) ==> after.contains(text)
        }),
    decreases lines.len(),
{
    if lines.len() > 0 {
        let head = lines.drop_last();
        lemma_dispatch_keeps_line_order(rules, seen, head, timestamp);
        let (before, earlier) = offered_all(rules, seen, head, timestamp);
        let at_before = accepted_at(rules, seen, head, timestamp);
        let (after, entries) = offered_all(rules, seen, lines, timestamp);
        let at = accepted_at(rules, seen, lines, timestamp);
        assert forall|k: int| 0 <= k < at_before.len() implies lines[at_before[k]]
            == head[at_before[k]] by {}
        if accepts(rules, before, lines.last()) {
            assert(at == at_before.push(lines.len() - 1));
            assert forall|j: int, k: int| 0 <= j < k < at.len() implies at[j] < at[k]
                && lines[at[j]] != lines[at[k]] by {
                if k == at.len() - 1 {
                    assert(before.contains(head[at_before[j]]));
                }
            }
        }
    }
}

/// The views of the entries that `deliveries` carry, in order.
pub open spec fn carried(deliveries: Seq<Delivery>) -> Seq<LogEntryView> {
    deliveries.map_values(|d: Delivery| d@.entry)
}

/// Classifier and memory of the ingestion side.
pub struct Dispatcher {
    classifier: Classifier,
    seen: SeenSet,
}

impl Dispatcher {
    pub closed spec fn wf(&self) -> bool {
        self.seen.wf()
    }

    /// The keyword lists in use.
    pub closed spec fn rules(&self) -> Rules {
        self.classifier@
    }

    /// The texts of the lines that yielded an entry so far.
    pub closed spec fn seen(&self) -> Set<Seq<char>> {
        self.seen@
    }

    /// A dispatcher that has seen no line.
    pub fn new(classifier: Classifier) -> (dispatcher: Self)
        ensures
            dispatcher.wf(),
            dispatcher.rules() == classifier@,
            dispatcher.seen() == Set::<Seq<char>>::empty(),
    {
        Dispatcher { classifier, seen: SeenSet::new() }
    }

    /// Whether `line` yielded an entry before.
    pub fn has_seen(&self, line: &str) -> (found: bool)
        ensures
            found == self.seen().contains(line@),
    {
        self.seen.contains(line)
    }

    /// Offers `line`, read at `timestamp`. Returns the delivery of its entry
    /// if the line is selected and its text is new, and remembers the text;
    /// else returns `None` and remembers nothing.
    pub fn process_log_line_at(&mut self, line: &str, timestamp: u64) -> (delivery: Option<
        Delivery,
    >)
        requires
            old(self).wf(),
        ensures
            final(self).wf(),
            final(self).rules() == old(self).rules(),
            final(self).seen() == offered(old(self).rules(), old(self).seen(), line@, timestamp).0,
            delivery is Some <==> accepts(old(self).rules(), old(self).seen(), line@),
            delivery matches Some(d) ==> d@.stage == Stage::Persist && Some(d@.entry) == offered(
                old(self).rules(),
                old(self).seen(),
                line@,
                timestamp,
            ).1,
    {
        match self.classifier.entry_at(line, timestamp) {
            Some(entry) => {
                if self.seen.accept(line) {
                    Some(Delivery::new(entry))
                } else {
                    None
                }
            },
            None => None,
        }
    }

    /// As [`Dispatcher::process_log_line_at`], at the time the system clock
    /// shows. Which lines yield an entry, and what is remembered, does not
    /// depend on the time.
    pub fn process_log_line(&mut self, line: &str) -> (delivery: Option<Delivery>)
        requires
            old(self).wf(),
        ensures
            final(self).wf(),
            final(self).rules() == old(self).rules(),
            final(self).seen() == (if accepts(old(self).rules(), old(self).seen(), line@) {
                old(self).seen().insert(line@)
            } else {
                old(self).seen()
            }),
            delivery is Some <==> accepts(old(self).rules(), old(self).seen(), line@),
            delivery matches Some(d) ==> d@.stage == Stage::Persist && Some(d@.entry) == old(
                self,
            ).rules().entry(line@, d@.entry.timestamp),
    {
        self.process_log_line_at(line, current_timestamp())
    }

    /// Offers the lines of `lines` in their order, all read at `timestamp`,
    /// and returns the deliveries of those that yield an entry, in the order
    /// of their lines.
    pub fn process_lines_at(&mut self, lines: &Vec<String>, timestamp: u64) -> (deliveries: Vec<
        Delivery,
    >)
        requires
            old(self).wf(),
        ensures
            final(self).wf(),
            final(self).rules() == old(self).rules(),
            final(self).seen() == offered_all(
                old(self).rules(),
                old(self).seen(),
                crate::text::texts(lines@),
                timestamp,
            ).0,
            carried(deliveries@) == offered_all(
                old(self).rules(),
                old(self).seen(),
                crate::text::texts(lines@),
                timestamp,
            ).1,
            forall|i: int|
                0 <= i < deliveries@.len() ==> (#[trigger] deliveries@[i])@.stage == Stage::Persist,
    {
        let ghost rules = self.rules();
        let ghost start = self.seen();
        let ghost all = crate::text::texts(lines@);
        let mut deliveries: Vec<Delivery> = Vec::new();
        let mut i: usize = 0;
        assert(all.take(0) =~= Seq::<Seq<char>>::empty());
        assert(carried(deliveries@) =~= Seq::<LogEntryView>::empty());
        while i < lines.len()
            invariant
                self.wf(),
                self.rules() == rules,
                i <= lines.len(),
                all == crate::text::texts(lines@),
                self.seen() == offered_all(rules, start, all.take(i as int), timestamp).0,
                carried(deliveries@) == offered_all(rules, start, all.take(i as int), timestamp).1,
                forall|k: int|
                    0 <= k < deliveries@.len() ==> (#[trigger] deliveries@[k])@.stage
                        == Stage::Persist,
            decreases lines.len() - i,
        {
            proof {
                assert(all.take(i + 1).drop_last() =~= all.take(i as int));
                assert(all.take(i + 1).last() == lines@[i as int]@);
            }
            let ghost before = carried(deliveries@);
            match self.process_log_line_at(lines[i].as_str(), timestamp) {
                Some(delivery) => {
                    deliveries.push(delivery);
                    assert(carried(deliveries@) =~= before.push(delivery@.entry));
                },
                None => {},
            }
            i = i + 1;
        }
        assert(all.take(lines.len() as int) =~= all);
        deliveries
    }
}

} // verus!
