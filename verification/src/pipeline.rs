//! The driver of a translation run.
//!
//! A run is a state machine. The caller performs the [`Action`] it is given,
//! reports what came of it as an [`Event`] to [`Pipeline::step`], and gets
//! the next action back. The machine itself touches nothing outside: it
//! decides which entry is translated next and with which context, when an
//! attempt is repeated and when the run is given up, what is appended to the
//! checkpoint, what the final file holds, and when the checkpoint may go.

use crate::checkpoint::{load_checkpoint, loaded_checkpoint, record_text, record_text_of};
use crate::entry::{all_wf, distinct_numbers, models, Entry, EntryModel};
use crate::request::{request_for, request_of, Request, RequestModel};
use crate::srt::{
    ordered_by_number, parsed_source, read_entries, render, rendered_items, sort_by_number,
    sorted_items, SourceFault,
};
use vstd::prelude::*;

verus! {

/// Why a run was given up.
#[derive(Clone, Copy, Debug, PartialEq, Eq)]
pub enum AbortReason {
    /// The source file could not be read.
    SourceUnreadable,
    /// The source file holds no sequence of entries.
    SourceRejected(SourceFault),
    /// Every attempt to translate one entry failed.
    RetriesExhausted,
    /// The service failed in a way that no further attempt can mend.
    ServiceRefused,
    /// A translated entry could not be appended to the checkpoint.
    RecordFailed,
    /// The final file could not be written.
    WriteFailed,
    /// An event came that the run was not waiting for.
    OutOfTurn,
}

/// Where a run stands.
#[derive(Clone, Copy, Debug, PartialEq, Eq)]
pub enum Phase {
    /// Waiting for the source.
    Init,
    /// Waiting for the checkpoint.
    Resuming,
    /// Waiting for the translation of the next entry.
    Translating,
    /// Waiting for the translated entry to be safe in the checkpoint.
    Checkpointing,
    /// Waiting for the final file to be written.
    Finalizing,
    /// Waiting for the checkpoint to be removed.
    Cleanup,
    /// Done. `clean` says whether the checkpoint is gone.
    Terminated { clean: bool },
    /// Given up.
    Aborted(AbortReason),
}

/// What one attempt to translate came to.
#[derive(Debug, PartialEq, Eq)]
pub enum Outcome {
    /// The service answered with this text.
    Success(String),
    /// The attempt failed for this reason; another one may do better.
    RetryableFailure(String),
    /// The attempt failed for this reason, and so would any other.
    FatalFailure(String),
}

/// The values of an [`Outcome`].
pub enum OutcomeModel {
    Success(Seq<char>),
    RetryableFailure(Seq<char>),
    FatalFailure(Seq<char>),
}

impl View for Outcome {
    type V = OutcomeModel;

    open spec fn view(&self) -> OutcomeModel {
        match self {
            Outcome::Success(text) => OutcomeModel::Success(text@),
            Outcome::RetryableFailure(reason) => OutcomeModel::RetryableFailure(reason@),
            Outcome::FatalFailure(reason) => OutcomeModel::FatalFailure(reason@),
        }
    }
}

/// What the caller reports back.
#[derive(Debug, PartialEq, Eq)]
pub enum Event {
    /// The text of the source file; nothing if it could not be read.
    SourceRead(Option<String>),
    /// The text of the checkpoint; nothing if there is none or it could not
    /// be read.
    CheckpointRead(Option<String>),
    /// An attempt to translate has ended.
    Attempt(Outcome),
    /// The record is appended to the checkpoint and safe on disk.
    Recorded,
    /// The record could not be appended.
    RecordFailed,
    /// The final file is written.
    Written,
    /// The final file could not be written.
    WriteFailed,
    /// The checkpoint is removed.
    Removed,
    /// The checkpoint could not be removed.
    RemoveFailed,
}

/// The values of an [`Event`].
pub enum EventModel {
    SourceRead(Option<Seq<char>>),
    CheckpointRead(Option<Seq<char>>),
    Attempt(OutcomeModel),
    Recorded,
    RecordFailed,
    Written,
    WriteFailed,
    Removed,
    RemoveFailed,
}

impl View for Event {
    type V = EventModel;

    open spec fn view(&self) -> EventModel {
        match self {
            Event::SourceRead(contents) => EventModel::SourceRead(contents.deep_view()),
            Event::CheckpointRead(contents) => EventModel::CheckpointRead(contents.deep_view()),
            Event::Attempt(outcome) => EventModel::Attempt(outcome@),
            Event::Recorded => EventModel::Recorded,
            Event::RecordFailed => EventModel::RecordFailed,
            Event::Written => EventModel::Written,
            Event::WriteFailed => EventModel::WriteFailed,
            Event::Removed => EventModel::Removed,
            Event::RemoveFailed => EventModel::RemoveFailed,
        }
    }
}

/// What the caller is to do next.
#[derive(Debug, PartialEq, Eq)]
pub enum Action {
    /// Read the checkpoint and report [`Event::CheckpointRead`].
    ReadCheckpoint,
    /// Make this request and report [`Event::Attempt`].
    Translate(Request),
    /// Wait for `delay_secs` seconds, then make this request once more and
    /// report [`Event::Attempt`].
    Retry { request: Request, delay_secs: u64 },
    /// Append `text` to the checkpoint, make sure it is on disk, and report
    /// [`Event::Recorded`] or [`Event::RecordFailed`].
    Record { text: String },
    /// Write `text` as the final file and report [`Event::Written`] or
    /// [`Event::WriteFailed`].
    Write { text: String },
    /// Remove the checkpoint and report [`Event::Removed`] or
    /// [`Event::RemoveFailed`].
    RemoveCheckpoint,
    /// The run is done: leave with success. Where `clean` is false the
    /// checkpoint is still there, which does no harm.
    Finish { clean: bool },
    /// The run is given up: leave with failure. The checkpoint stays.
    Abort { reason: AbortReason },
}

/// The values of an [`Action`].
pub enum ActionModel {
    ReadCheckpoint,
    Translate(RequestModel),
    Retry { request: RequestModel, delay_secs: u64 },
    Record { text: Seq<char> },
    Write { text: Seq<char> },
    RemoveCheckpoint,
    Finish { clean: bool },
    Abort { reason: AbortReason },
}

/// The status with which the program leaves on `action`: 0 when the run is
/// done, 1 when it is given up, none while there is more to do.
pub open spec fn exit_code_of(action: ActionModel) -> Option<i32> {
    match action {
        ActionModel::Finish { clean } => Some(0i32),
        ActionModel::Abort { reason } => Some(1i32),
        _ => None,
    }
}

impl Action {
    /// The status with which the program is to leave, if the run has ended.
    pub fn exit_code(&self) -> (code: Option<i32>)
        ensures
            code == exit_code_of(self@),
    {
        match self {
            Action::Finish { .. } => Some(0),
            Action::Abort { .. } => Some(1),
            _ => None,
        }
    }
}

impl View for Action {
    type V = ActionModel;

    open spec fn view(&self) -> ActionModel {
        match self {
            Action::ReadCheckpoint => ActionModel::ReadCheckpoint,
            Action::Translate(request) => ActionModel::Translate(request@),
            Action::Retry { request, delay_secs } => ActionModel::Retry {
                request: request@,
                delay_secs: *delay_secs,
            },
            Action::Record { text } => ActionModel::Record { text: text@ },
            Action::Write { text } => ActionModel::Write { text: text@ },
            Action::RemoveCheckpoint => ActionModel::RemoveCheckpoint,
            Action::Finish { clean } => ActionModel::Finish { clean: *clean },
            Action::Abort { reason } => ActionModel::Abort { reason: *reason },
        }
    }
}

/// What a run is set up with.
#[derive(Debug, PartialEq, Eq)]
pub struct Settings {
    /// The language to translate to.
    pub lang: String,
    /// How many further attempts a failed translation gets.
    pub max_retries: u32,
    /// How long to wait before each of them, in seconds.
    pub retry_delay_secs: u64,
}

impl Settings {
    /// Settings for a run that translates to `lang`, gives a failed
    /// translation three further attempts and waits two seconds before each.
    pub fn new(lang: String) -> (settings: Settings)
        ensures
            settings.lang == lang,
            settings.max_retries == 3,
            settings.retry_delay_secs == 2,
    {
        Settings { lang, max_retries: 3, retry_delay_secs: 2 }
    }
}

/// The values of a run's state.
pub struct PipelineModel {
    pub phase: Phase,
    pub lang: Seq<char>,
    pub max_retries: nat,
    pub retry_delay_secs: u64,
    /// The entries of the source, in its order.
    pub source: Seq<EntryModel>,
    /// The translated entries so far: those taken from the checkpoint, then
    /// those of this run.
    pub output: Seq<EntryModel>,
    /// How many of them came from the checkpoint.
    pub resume_index: nat,
    /// How many attempts at the entry in work have failed.
    pub failures: nat,
    /// The translated entry that is on its way into the checkpoint.
    pub pending: Option<EntryModel>,
    /// The entries of the final file, once all are translated.
    pub finished: Seq<EntryModel>,
}

/// From `from` on, each entry of `output` is the source entry at its place
/// with another text.
pub open spec fn follows_source(source: Seq<EntryModel>, output: Seq<EntryModel>, from: nat) -> bool {
    forall|j: int|
        #![trigger output[j]]
        from <= j < output.len() ==> j < source.len() && output[j] == source[j].with_text(
            output[j].text,
        )
}

impl PipelineModel {
    /// What holds of a run in every phase.
    pub open spec fn steady(self) -> bool {
        &&& all_wf(self.source)
        &&& distinct_numbers(self.source)
        &&& all_wf(self.output)
        &&& self.resume_index <= self.output.len()
        &&& follows_source(self.source, self.output, self.resume_index)
        &&& self.failures <= self.max_retries
        &&& (self.pending matches Some(entry) ==> entry.wf())
    }

    /// The final file is drawn up: it holds the translated entries, each as
    /// often as they occur, in the order of their numbers.
    pub open spec fn drawn_up(self) -> bool {
        &&& self.pending is None
        &&& self.source.len() <= self.output.len()
        &&& self.finished == sorted_items(self.output)
        &&& self.finished.to_multiset() == self.output.to_multiset()
        &&& ordered_by_number(self.finished)
        &&& all_wf(self.finished)
    }

    /// The state is one that a run can be in.
    pub open spec fn wf(self) -> bool {
        &&& self.steady()
        &&& match self.phase {
            Phase::Init => self.source.len() == 0 && self.output.len() == 0 && self.pending is None
                && self.finished.len() == 0 && self.failures == 0,
            Phase::Resuming => self.output.len() == 0 && self.pending is None
                && self.finished.len() == 0 && self.failures == 0,
            Phase::Translating => self.output.len() < self.source.len() && self.pending is None
                && self.finished.len() == 0,
            Phase::Checkpointing => self.output.len() < self.source.len() && self.finished.len()
                == 0 && (self.pending matches Some(entry) && entry
                == self.source[self.output.len() as int].with_text(entry.text)),
            Phase::Finalizing => self.drawn_up(),
            Phase::Cleanup => self.drawn_up(),
            Phase::Terminated { clean } => self.drawn_up(),
            Phase::Aborted(reason) => true,
        }
    }
}

/// The run is given up for `reason`: nothing else changes.
pub open spec fn aborted(m: PipelineModel, reason: AbortReason) -> (PipelineModel, ActionModel) {
    (PipelineModel { phase: Phase::Aborted(reason), ..m }, ActionModel::Abort { reason })
}

/// The run goes on to the next entry that is not translated yet. Where none
/// is left, the final file is drawn up: the translated entries in the order
/// of their numbers.
pub open spec fn advanced(m: PipelineModel) -> (PipelineModel, ActionModel) {
    if m.output.len() < m.source.len() {
        (
            PipelineModel { phase: Phase::Translating, failures: 0, pending: None, ..m },
            ActionModel::Translate(request_of(m.source, m.output.len() as int, m.lang)),
        )
    } else {
        let finished = sorted_items(m.output);
        (
            PipelineModel { phase: Phase::Finalizing, failures: 0, pending: None, finished, ..m },
            ActionModel::Write { text: rendered_items(finished) },
        )
    }
}

/// The source was read, or could not be.
pub open spec fn after_source(m: PipelineModel, contents: Option<Seq<char>>) -> (
    PipelineModel,
    ActionModel,
) {
    match contents {
        None => aborted(m, AbortReason::SourceUnreadable),
        Some(text) => match parsed_source(text) {
            Err(fault) => aborted(m, AbortReason::SourceRejected(fault)),
            Ok(entries) => (
                PipelineModel { phase: Phase::Resuming, source: entries, ..m },
                ActionModel::ReadCheckpoint,
            ),
        },
    }
}

/// The checkpoint was read: its entries are taken as done, and work starts
/// behind them.
pub open spec fn after_checkpoint(m: PipelineModel, contents: Option<Seq<char>>) -> (
    PipelineModel,
    ActionModel,
) {
    let done = loaded_checkpoint(contents);
    advanced(PipelineModel { output: done, resume_index: done.len(), ..m })
}

/// An attempt at the entry in work has ended. Success sends the translated
/// entry to the checkpoint. A failure is answered with another attempt as
/// long as fewer than `max_retries` attempts have failed before, and ends
/// the run otherwise.
pub open spec fn after_attempt(m: PipelineModel, outcome: OutcomeModel) -> (
    PipelineModel,
    ActionModel,
) {
    match outcome {
        OutcomeModel::Success(text) => {
            let entry = m.source[m.output.len() as int].with_text(text);
            (
                PipelineModel { phase: Phase::Checkpointing, pending: Some(entry), ..m },
                ActionModel::Record { text: record_text_of(entry) },
            )
        },
        OutcomeModel::RetryableFailure(_) => if m.failures < m.max_retries {
            (
                PipelineModel { failures: m.failures + 1, ..m },
                ActionModel::Retry {
                    request: request_of(m.source, m.output.len() as int, m.lang),
                    delay_secs: m.retry_delay_secs,
                },
            )
        } else {
            aborted(m, AbortReason::RetriesExhausted)
        },
        OutcomeModel::FatalFailure(_) => aborted(m, AbortReason::ServiceRefused),
    }
}

/// The checkpoint took the record, or did not. Only a record that is safe
/// counts as translated.
pub open spec fn after_record(m: PipelineModel, durable: bool) -> (PipelineModel, ActionModel) {
    if durable {
        advanced(PipelineModel { output: m.output.push(m.pending->0), pending: None, ..m })
    } else {
        aborted(m, AbortReason::RecordFailed)
    }
}

/// The final file was written, or was not. Only a written file lets the
/// checkpoint go.
pub open spec fn after_write(m: PipelineModel, written: bool) -> (PipelineModel, ActionModel) {
    if written {
        (PipelineModel { phase: Phase::Cleanup, ..m }, ActionModel::RemoveCheckpoint)
    } else {
        aborted(m, AbortReason::WriteFailed)
    }
}

/// The checkpoint was removed, or was not: the run is done either way.
pub open spec fn after_removal(m: PipelineModel, removed: bool) -> (PipelineModel, ActionModel) {
    (
        PipelineModel { phase: Phase::Terminated { clean: removed }, ..m },
        ActionModel::Finish { clean: removed },
    )
}

/// The state that follows `m` on `event`, and the action that goes with it.
/// A run that is done or given up stays as it is and repeats its last word.
/// An event that the phase does not wait for ends the run; once the final
/// file is written, though, the run is done whatever is reported, and only
/// [`EventModel::Removed`] counts as the checkpoint being gone.
pub open spec fn step_model(m: PipelineModel, event: EventModel) -> (PipelineModel, ActionModel) {
    match (m.phase, event) {
        (Phase::Terminated { clean }, _) => (m, ActionModel::Finish { clean }),
        (Phase::Aborted(reason), _) => (m, ActionModel::Abort { reason }),
        (Phase::Init, EventModel::SourceRead(contents)) => after_source(m, contents),
        (Phase::Resuming, EventModel::CheckpointRead(contents)) => after_checkpoint(m, contents),
        (Phase::Translating, EventModel::Attempt(outcome)) => after_attempt(m, outcome),
        (Phase::Checkpointing, EventModel::Recorded) => after_record(m, true),
        (Phase::Checkpointing, EventModel::RecordFailed) => after_record(m, false),
        (Phase::Finalizing, EventModel::Written) => after_write(m, true),
        (Phase::Finalizing, EventModel::WriteFailed) => after_write(m, false),
        (Phase::Cleanup, event) => after_removal(m, event is Removed),
        _ => aborted(m, AbortReason::OutOfTurn),
    }
}

/// A translation run: the source, what is translated of it so far, and
/// where the run stands.
pub struct Pipeline {
    phase: Phase,
    settings: Settings,
    source: Vec<Entry>,
    output: Vec<Entry>,
    resume_index: usize,
    failures: u32,
    pending: Option<Entry>,
    finished: Vec<Entry>,
}

impl View for Pipeline {
    type V = PipelineModel;

    closed spec fn view(&self) -> PipelineModel {
        PipelineModel {
            phase: self.phase,
            lang: self.settings.lang@,
            max_retries: self.settings.max_retries as nat,
            retry_delay_secs: self.settings.retry_delay_secs,
            source: models(self.source@),
            output: models(self.output@),
            resume_index: self.resume_index as nat,
            failures: self.failures as nat,
            pending: match self.pending {
                Some(entry) => Some(entry@),
                None => None,
            },
            finished: models(self.finished@),
        }
    }
}

/// The state in which a run with these settings starts.
pub open spec fn initial(lang: Seq<char>, max_retries: nat, retry_delay_secs: u64) -> PipelineModel {
    PipelineModel {
        phase: Phase::Init,
        lang,
        max_retries,
        retry_delay_secs,
        source: Seq::empty(),
        output: Seq::empty(),
        resume_index: 0,
        failures: 0,
        pending: None,
        finished: Seq::empty(),
    }
}

impl Pipeline {
    /// A run that waits for its source.
    pub fn new(settings: Settings) -> (run: Pipeline)
        ensures
            run@ == initial(
                settings.lang@,
                settings.max_retries as nat,
                settings.retry_delay_secs,
            ),
            run@.wf(),
    {
        let run = Pipeline {
            phase: Phase::Init,
            settings,
            source: Vec::new(),
            output: Vec::new(),
            resume_index: 0,
            failures: 0,
            pending: None,
            finished: Vec::new(),
        };
        assert(run@.source =~= Seq::<EntryModel>::empty());
        run
    }

    /// Where the run stands.
    pub fn phase(&self) -> (phase: Phase)
        ensures
            phase == self@.phase,
    {
        self.phase
    }

    /// How many entries the source has.
    pub fn source_len(&self) -> (len: usize)
        ensures
            len == self@.source.len(),
    {
        self.source.len()
    }

    /// How many entries are translated and safe in the checkpoint. This is
    /// also the place of the entry in work, if there is one.
    pub fn position(&self) -> (done: usize)
        ensures
            done == self@.output.len(),
    {
        self.output.len()
    }

    /// How many of the translated entries were taken from the checkpoint.
    pub fn resume_index(&self) -> (taken: usize)
        ensures
            taken == self@.resume_index,
    {
        self.resume_index
    }

    /// How many attempts at the entry in work have failed.
    pub fn failures(&self) -> (failed: u32)
        ensures
            failed == self@.failures,
    {
        self.failures
    }

    /// The entries of the source.
    pub fn source(&self) -> (entries: &Vec<Entry>)
        ensures
            models(entries@) == self@.source,
    {
        &self.source
    }

    /// The translated entries so far, in the order of the source.
    pub fn output(&self) -> (entries: &Vec<Entry>)
        ensures
            models(entries@) == self@.output,
    {
        &self.output
    }

    /// The entries of the final file; none before all are translated.
    pub fn finished(&self) -> (entries: &Vec<Entry>)
        ensures
            models(entries@) == self@.finished,
    {
        &self.finished
    }

    fn abort(&mut self, reason: AbortReason) -> (action: Action)
        requires
            old(self)@.steady(),
        ensures
            (final(self)@, action@) == aborted(old(self)@, reason),
            final(self)@.wf(),
    {
        self.phase = Phase::Aborted(reason);
        Action::Abort { reason }
    }

    fn advance(&mut self) -> (action: Action)
        requires
            old(self)@.steady(),
            old(self)@.finished.len() == 0,
        ensures
            (final(self)@, action@) == advanced(old(self)@),
            final(self)@.wf(),
    {
        self.failures = 0;
        self.pending = None;
        if self.output.len() < self.source.len() {
            self.phase = Phase::Translating;
            Action::Translate(
                request_for(&self.source, self.output.len(), self.settings.lang.as_str()),
            )
        } else {
            self.finished = sort_by_number(&self.output);
            self.phase = Phase::Finalizing;
            Action::Write { text: render(&self.finished) }
        }
    }

    fn on_source(&mut self, contents: Option<String>) -> (action: Action)
        requires
            old(self)@.wf(),
            old(self)@.phase is Init,
        ensures
            (final(self)@, action@) == after_source(old(self)@, contents.deep_view()),
            final(self)@.wf(),
    {
        match contents {
            None => self.abort(AbortReason::SourceUnreadable),
            Some(text) => match read_entries(text.as_str()) {
                Err(fault) => self.abort(AbortReason::SourceRejected(fault)),
                Ok(entries) => {
                    self.source = entries;
                    self.phase = Phase::Resuming;
                    Action::ReadCheckpoint
                },
            },
        }
    }

    fn on_checkpoint(&mut self, contents: Option<String>) -> (action: Action)
        requires
            old(self)@.wf(),
            old(self)@.phase is Resuming,
        ensures
            (final(self)@, action@) == after_checkpoint(old(self)@, contents.deep_view()),
            final(self)@.wf(),
    {
        let done = load_checkpoint(&contents);
        self.resume_index = done.len();
        self.output = done;
        self.advance()
    }

    fn on_attempt(&mut self, outcome: Outcome) -> (action: Action)
        requires
            old(self)@.wf(),
            old(self)@.phase is Translating,
        ensures
            (final(self)@, action@) == after_attempt(old(self)@, outcome@),
            final(self)@.wf(),
    {
        let index = self.output.len();
        match outcome {
            Outcome::Success(text) => {
                let entry = self.source[index].with_text(text);
                let text = record_text(&entry);
                self.pending = Some(entry);
                self.phase = Phase::Checkpointing;
                Action::Record { text }
            },
            Outcome::RetryableFailure(_) => {
                if self.failures < self.settings.max_retries {
                    self.failures = self.failures + 1;
                    Action::Retry {
                        request: request_for(&self.source, index, self.settings.lang.as_str()),
                        delay_secs: self.settings.retry_delay_secs,
                    }
                } else {
                    self.abort(AbortReason::RetriesExhausted)
                }
            },
            Outcome::FatalFailure(_) => self.abort(AbortReason::ServiceRefused),
        }
    }

    fn on_record(&mut self, durable: bool) -> (action: Action)
        requires
            old(self)@.wf(),
            old(self)@.phase is Checkpointing,
        ensures
            (final(self)@, action@) == after_record(old(self)@, durable),
            final(self)@.wf(),
    {
        if durable {
            let ghost before = self@;
            let entry = self.pending.take().unwrap();
            self.output.push(entry);
            assert(self@.output =~= before.output.push(before.pending->0));
            self.advance()
        } else {
            self.abort(AbortReason::RecordFailed)
        }
    }

    fn on_write(&mut self, written: bool) -> (action: Action)
        requires
            old(self)@.wf(),
            old(self)@.phase is Finalizing,
        ensures
            (final(self)@, action@) == after_write(old(self)@, written),
            final(self)@.wf(),
    {
        if written {
            self.phase = Phase::Cleanup;
            Action::RemoveCheckpoint
        } else {
            self.abort(AbortReason::WriteFailed)
        }
    }

    fn on_removal(&mut self, removed: bool) -> (action: Action)
        requires
            old(self)@.wf(),
            old(self)@.phase is Cleanup,
        ensures
            (final(self)@, action@) == after_removal(old(self)@, removed),
            final(self)@.wf(),
    {
        self.phase = Phase::Terminated { clean: removed };
        Action::Finish { clean: removed }
    }

    /// Takes the run one step on: `event` says what came of the last action,
    /// the result is what to do next.
    pub fn step(&mut self, event: Event) -> (action: Action)
        requires
            old(self)@.wf(),
        ensures
            (final(self)@, action@) == step_model(old(self)@, event@),
            final(self)@.wf(),
    {
        match self.phase {
            Phase::Terminated { clean } => Action::Finish { clean },
            Phase::Aborted(reason) => Action::Abort { reason },
            Phase::Init => match event {
                Event::SourceRead(contents) => self.on_source(contents),
                _ => self.abort(AbortReason::OutOfTurn),
            },
            Phase::Resuming => match event {
                Event::CheckpointRead(contents) => self.on_checkpoint(contents),
                _ => self.abort(AbortReason::OutOfTurn),
            },
            Phase::Translating => match event {
                Event::Attempt(outcome) => self.on_attempt(outcome),
                _ => self.abort(AbortReason::OutOfTurn),
            },
            Phase::Checkpointing => match event {
                Event::Recorded => self.on_record(true),
                Event::RecordFailed => self.on_record(false),
                _ => self.abort(AbortReason::OutOfTurn),
            },
            Phase::Finalizing => match event {
                Event::Written => self.on_write(true),
                Event::WriteFailed => self.on_write(false),
                _ => self.abort(AbortReason::OutOfTurn),
            },
            Phase::Cleanup => match event {
                Event::Removed => self.on_removal(true),
                _ => self.on_removal(false),
            },
        }
    }
}

} // verus!
