//! What holds of every run.
//!
//! A run is followed here through the states of [`step_model`], which is
//! what [`crate::pipeline::Pipeline::step`] computes.

use crate::checkpoint::{loaded_checkpoint, record_text_of};
use crate::entry::EntryModel;
use crate::pipeline::{
    advanced, exit_code_of, follows_source, step_model, AbortReason, ActionModel, EventModel,
    OutcomeModel, Phase, PipelineModel,
};
use crate::request::request_of;
use crate::srt::{ordered_by_number, rendered_items, sorted_items};
use vstd::prelude::*;

verus! {

/// The state that a run reaches from `m` when `events` are reported one
/// after the other, and the actions that it answers with, one for each
/// event.
pub open spec fn run(m: PipelineModel, events: Seq<EventModel>) -> (PipelineModel, Seq<ActionModel>)
    decreases events.len(),
{
    if events.len() == 0 {
        (m, Seq::empty())
    } else {
        let before = run(m, events.drop_last());
        let last = step_model(before.0, events.last());
        (last.0, before.1.push(last.1))
    }
}

/// A run answers each event with one action.
pub proof fn lemma_run_len(m: PipelineModel, events: Seq<EventModel>)
    ensures
        run(m, events).1.len() == events.len(),
    decreases events.len(),
{
    if events.len() > 0 {
        lemma_run_len(m, events.drop_last());
    }
}

/// One more event takes the run one step on.
pub proof fn lemma_run_push(m: PipelineModel, events: Seq<EventModel>, event: EventModel)
    ensures
        run(m, events.push(event)) == ({
            let before = run(m, events);
            let last = step_model(before.0, event);
            (last.0, before.1.push(last.1))
        }),
{
    assert(events.push(event).drop_last() =~= events);
}

/// A run over two stretches of events is the run over the first, followed
/// from where that ends by the run over the second.
pub proof fn lemma_run_concat(m: PipelineModel, first: Seq<EventModel>, second: Seq<EventModel>)
    ensures
        run(m, first + second) == ({
            let before = run(m, first);
            let after = run(before.0, second);
            (after.0, before.1 + after.1)
        }),
    decreases second.len(),
{
    if second.len() > 0 {
        let shorter = second.drop_last();
        lemma_run_concat(m, first, shorter);
        assert((first + second).drop_last() =~= first + shorter);
    }
}

/// As many failed attempts in a row as there are `reasons`.
pub open spec fn failures(reasons: Seq<Seq<char>>) -> Seq<EventModel> {
    Seq::new(
        reasons.len(),
        |i: int| EventModel::Attempt(OutcomeModel::RetryableFailure(reasons[i])),
    )
}

/// The action that answers a failed attempt which is tried again.
pub open spec fn retry_of(m: PipelineModel) -> ActionModel {
    ActionModel::Retry {
        request: request_of(m.source, m.output.len() as int, m.lang),
        delay_secs: m.retry_delay_secs,
    }
}

/// While the attempts at an entry fail and may be repeated, each failure is
/// counted and answered with the same request again. Nothing else changes.
pub proof fn lemma_failures_retried(m: PipelineModel, reasons: Seq<Seq<char>>)
    requires
        m.phase is Translating,
        m.failures + reasons.len() <= m.max_retries,
    ensures
        run(m, failures(reasons)) == (
            PipelineModel { failures: m.failures + reasons.len(), ..m },
            Seq::new(reasons.len(), |i: int| retry_of(m)),
        ),
    decreases reasons.len(),
{
    if reasons.len() > 0 {
        let shorter = reasons.drop_last();
        lemma_failures_retried(m, shorter);
        assert(failures(reasons).drop_last() =~= failures(shorter));
        assert(failures(reasons).last() == EventModel::Attempt(
            OutcomeModel::RetryableFailure(reasons.last()),
        ));
    }
}

/// Fatal escalation: when every attempt at an entry fails, a run that allows
/// `max_retries` further attempts makes `max_retries + 1` attempts in all.
/// Each of the first `max_retries` failures is answered with the request
/// again, the next one with the end of the run and a status that is not 0.
/// The entry is never sent to the checkpoint, and what was translated before
/// stays as it is.
pub proof fn lemma_fatal_escalation(m: PipelineModel, reasons: Seq<Seq<char>>)
    requires
        m.phase is Translating,
        m.failures == 0,
        reasons.len() == m.max_retries + 1,
    ensures
        run(m, failures(reasons)) == (
            PipelineModel {
                phase: Phase::Aborted(AbortReason::RetriesExhausted),
                failures: m.max_retries,
                ..m
            },
            Seq::new(m.max_retries, |i: int| retry_of(m)).push(
                ActionModel::Abort { reason: AbortReason::RetriesExhausted },
            ),
        ),
        exit_code_of(run(m, failures(reasons)).1.last()) == Some(1i32),
{
    let shorter = reasons.drop_last();
    lemma_failures_retried(m, shorter);
    assert(failures(reasons).drop_last() =~= failures(shorter));
}

/// One of the actions asks for the checkpoint to be removed.
pub open spec fn asks_removal(actions: Seq<ActionModel>) -> bool {
    exists|i: int| 0 <= i < actions.len() && #[trigger] actions[i] is RemoveCheckpoint
}

/// The final file was asked for at some point and was reported written.
pub open spec fn reported_written(events: Seq<EventModel>, actions: Seq<ActionModel>) -> bool {
    exists|i: int|
        0 <= i < actions.len() && i + 1 < events.len() && #[trigger] actions[i] is Write
            && events[i + 1] is Written
}

/// The final file was asked for at some point, was reported written, and
/// only then was the checkpoint asked to go.
pub open spec fn removal_follows_write(events: Seq<EventModel>, actions: Seq<ActionModel>) -> bool {
    exists|i: int|
        0 <= i && i + 1 < actions.len() && i + 1 < events.len() && #[trigger] actions[i] is Write
            && events[i + 1] is Written && actions[i + 1] is RemoveCheckpoint
}

/// How the phase in which a run stands goes with what it was told and what
/// it asked for.
pub open spec fn barrier(
    phase: Phase,
    events: Seq<EventModel>,
    actions: Seq<ActionModel>,
) -> bool {
    let past_writing = phase is Cleanup || phase is Terminated;
    &&& asks_removal(actions) ==> past_writing
    &&& reported_written(events, actions) ==> past_writing
    &&& past_writing ==> removal_follows_write(events, actions)
    &&& phase is Finalizing <==> actions.len() > 0 && actions.last() is Write
    &&& phase == (Phase::Terminated { clean: true }) ==> exists|i: int|
        0 <= i < events.len() && #[trigger] events[i] is Removed
}

/// How one step moves between the phases at the end of a run, and what it
/// asks for on the way: the step from `from` on `event` that ends in `to`
/// and answers `action`.
pub open spec fn moves(from: Phase, event: EventModel, to: Phase, action: ActionModel) -> bool {
    let written = from is Finalizing && event is Written;
    &&& action is Write <==> to is Finalizing
    &&& action is RemoveCheckpoint <==> written
    &&& to is Cleanup <==> written
    &&& to is Terminated <==> from is Cleanup || from is Terminated
    &&& to == (Phase::Terminated { clean: true }) ==> from == (Phase::Terminated { clean: true })
        || event is Removed
}

/// Every step moves in this way.
pub proof fn lemma_step_moves(m: PipelineModel, event: EventModel)
    ensures
        moves(m.phase, event, step_model(m, event).0.phase, step_model(m, event).1),
{
    match m.phase {
        Phase::Init => {},
        Phase::Resuming => {},
        Phase::Translating => {},
        Phase::Checkpointing => {},
        Phase::Finalizing => {},
        Phase::Cleanup => {},
        Phase::Terminated { clean } => {},
        Phase::Aborted(reason) => {},
    }
}

/// A step that moves in this way keeps the barrier.
pub proof fn lemma_barrier_kept(
    from: Phase,
    events: Seq<EventModel>,
    actions: Seq<ActionModel>,
    event: EventModel,
    to: Phase,
    action: ActionModel,
)
    requires
        actions.len() == events.len(),
        barrier(from, events, actions),
        moves(from, event, to, action),
    ensures
        barrier(to, events.push(event), actions.push(action)),
{
    let n = events.len() as int;
    let told = events.push(event);
    let asked = actions.push(action);
    if to is Terminated || to is Cleanup {
        assert(removal_follows_write(told, asked)) by {
            if from is Finalizing {
                assert(asked[n - 1] is Write && told[n] is Written && asked[n] is RemoveCheckpoint);
            } else {
                let i = choose|i: int|
                    0 <= i && i + 1 < actions.len() && i + 1 < events.len()
                        && #[trigger] actions[i] is Write && events[i + 1] is Written
                        && actions[i + 1] is RemoveCheckpoint;
                assert(asked[i] is Write && told[i + 1] is Written && asked[i + 1]
                    is RemoveCheckpoint);
            }
        }
    }
    if asks_removal(asked) {
        let i = choose|i: int| 0 <= i < asked.len() && #[trigger] asked[i] is RemoveCheckpoint;
        if i < n {
            assert(actions[i] is RemoveCheckpoint);
        }
    }
    if reported_written(told, asked) {
        let i = choose|i: int|
            0 <= i < asked.len() && i + 1 < told.len() && #[trigger] asked[i] is Write && told[i
                + 1] is Written;
        if i + 1 < n {
            assert(actions[i] is Write && events[i + 1] is Written);
        } else {
            assert(actions.last() is Write);
        }
    }
    if to == (Phase::Terminated { clean: true }) {
        if from == (Phase::Terminated { clean: true }) {
            let i = choose|i: int| 0 <= i < events.len() && #[trigger] events[i] is Removed;
            assert(told[i] is Removed);
        } else {
            assert(told[n] is Removed);
        }
    }
}

/// The barrier holds all along a run.
pub proof fn lemma_barrier_holds(m: PipelineModel, events: Seq<EventModel>)
    requires
        m.phase is Init,
    ensures
        barrier(run(m, events).0.phase, events, run(m, events).1),
    decreases events.len(),
{
    if events.len() > 0 {
        let shorter = events.drop_last();
        let before = run(m, shorter);
        let last = step_model(before.0, events.last());
        lemma_barrier_holds(m, shorter);
        lemma_run_len(m, shorter);
        lemma_step_moves(before.0, events.last());
        lemma_barrier_kept(
            before.0.phase,
            shorter,
            before.1,
            events.last(),
            last.0.phase,
            last.1,
        );
        assert(shorter.push(events.last()) =~= events);
    }
}

/// Cleanup barrier: a run that is given up has never asked for the
/// checkpoint to be removed, so what it recorded is there for the next run;
/// nor was its final file ever reported written. A run that is done has
/// asked for the checkpoint to go, and only after the final file was
/// reported written; it calls itself clean only if the removal was reported
/// done.
pub proof fn lemma_cleanup_barrier(m: PipelineModel, events: Seq<EventModel>)
    requires
        m.phase is Init,
    ensures
        run(m, events).0.phase is Aborted ==> !asks_removal(run(m, events).1)
            && !reported_written(events, run(m, events).1),
        run(m, events).0.phase is Terminated ==> removal_follows_write(events, run(m, events).1),
        run(m, events).0.phase == (Phase::Terminated { clean: true }) ==> exists|i: int|
            0 <= i < events.len() && #[trigger] events[i] is Removed,
{
    lemma_barrier_holds(m, events);
}

/// Context correctness: whenever a run asks for a translation, at the first
/// attempt or a later one, after a resume or not, the request is that of the
/// next entry that is not translated yet, with the text of its neighbours
/// as the source has it.
pub proof fn lemma_requests_from_source(m: PipelineModel, event: EventModel)
    ensures
        ({
            let (next, action) = step_model(m, event);
            let asked = request_of(next.source, next.output.len() as int, next.lang);
            &&& action matches ActionModel::Translate(request) ==> request == asked
            &&& action matches ActionModel::Retry { request, .. } ==> request == asked
            &&& !(m.phase is Init) ==> next.source == m.source
        }),
{
    match m.phase {
        Phase::Init => {},
        Phase::Resuming => {},
        Phase::Translating => {},
        Phase::Checkpointing => {},
        Phase::Finalizing => {},
        Phase::Cleanup => {},
        Phase::Terminated { clean } => {},
        Phase::Aborted(reason) => {},
    }
}

/// A record goes to the checkpoint only in answer to a translation that
/// came back: no entry is recorded before it is translated.
pub proof fn lemma_only_translations_recorded(m: PipelineModel, events: Seq<EventModel>, i: int)
    requires
        0 <= i < events.len(),
        run(m, events).1[i] is Record,
    ensures
        events[i] matches EventModel::Attempt(OutcomeModel::Success(_)),
    decreases events.len(),
{
    lemma_run_len(m, events.drop_last());
    if i < events.len() - 1 {
        lemma_only_translations_recorded(m, events.drop_last(), i);
    }
}

/// The events of as many translations as there are `texts`, each one coming
/// back at the first attempt and recorded safely.
pub open spec fn successes(texts: Seq<Seq<char>>) -> Seq<EventModel>
    decreases texts.len(),
{
    if texts.len() == 0 {
        Seq::empty()
    } else {
        successes(texts.drop_last()).push(
            EventModel::Attempt(OutcomeModel::Success(texts.last())),
        ).push(EventModel::Recorded)
    }
}

/// The entries of `source` from `from` on, each with the text that `texts`
/// has for it.
pub open spec fn translated_from(
    source: Seq<EntryModel>,
    from: int,
    texts: Seq<Seq<char>>,
) -> Seq<EntryModel> {
    Seq::new(texts.len(), |j: int| source[from + j].with_text(texts[j]))
}

/// The entries of `source`, each with the text that `texts` has for it.
pub open spec fn translated(source: Seq<EntryModel>, texts: Seq<Seq<char>>) -> Seq<EntryModel> {
    translated_from(source, 0, texts)
}

/// Translations that come back one after the other are appended to what
/// is translated already, each as the source entry at its place with the new
/// text. After the last of them the run stands where it would stand had it
/// found all of them in the checkpoint.
pub proof fn lemma_translations_accumulate(m: PipelineModel, texts: Seq<Seq<char>>)
    requires
        m.output.len() + texts.len() <= m.source.len(),
    ensures
        ({
            let all = m.output + translated_from(m.source, m.output.len() as int, texts);
            let end = advanced(PipelineModel { output: all, ..m });
            let got = run(advanced(m).0, successes(texts));
            &&& got.0 == end.0
            &&& texts.len() > 0 ==> got.1.len() > 0 && got.1.last() == end.1
        }),
    decreases texts.len(),
{
    if texts.len() > 0 {
        let shorter = texts.drop_last();
        lemma_translations_accumulate(m, shorter);
        let start = advanced(m).0;
        let answer = EventModel::Attempt(OutcomeModel::Success(texts.last()));
        lemma_run_push(start, successes(shorter), answer);
        lemma_run_push(start, successes(shorter).push(answer), EventModel::Recorded);
        let sofar = m.output + translated_from(m.source, m.output.len() as int, shorter);
        let all = m.output + translated_from(m.source, m.output.len() as int, texts);
        let at = advanced(PipelineModel { output: sofar, ..m }).0;
        let entry = m.source[sofar.len() as int].with_text(texts.last());
        assert(sofar.push(entry) =~= all);
        assert(step_model(at, answer).0 == PipelineModel {
            phase: Phase::Checkpointing,
            pending: Some(entry),
            ..at
        });
    }
}

/// Each translation takes two events: the answer and the record.
pub proof fn lemma_successes_len(texts: Seq<Seq<char>>)
    ensures
        successes(texts).len() == 2 * texts.len(),
    decreases texts.len(),
{
    if texts.len() > 0 {
        lemma_successes_len(texts.drop_last());
    }
}

/// Records go to the checkpoint in the order of the source, one for each
/// translation that came back: the answer to the translation of the `j`-th
/// entry in work is the record of that entry with its new text.
pub proof fn lemma_records_in_order(m: PipelineModel, texts: Seq<Seq<char>>, j: int)
    requires
        m.output.len() + texts.len() <= m.source.len(),
        0 <= j < texts.len(),
    ensures
        run(advanced(m).0, successes(texts)).1.len() == 2 * texts.len(),
        run(advanced(m).0, successes(texts)).1[2 * j] == (ActionModel::Record {
            text: record_text_of(m.source[m.output.len() + j].with_text(texts[j])),
        }),
    decreases texts.len(),
{
    let shorter = texts.drop_last();
    let start = advanced(m).0;
    let answer = EventModel::Attempt(OutcomeModel::Success(texts.last()));
    lemma_successes_len(shorter);
    lemma_run_len(start, successes(shorter));
    lemma_run_push(start, successes(shorter), answer);
    lemma_run_push(start, successes(shorter).push(answer), EventModel::Recorded);
    if j < shorter.len() {
        lemma_records_in_order(m, shorter, j);
    } else {
        lemma_translations_accumulate(m, shorter);
    }
}

/// Resume idempotence: a run that finds the first `k` translated entries in
/// its checkpoint and translates the rest ends with the same final file as
/// a run that finds nothing and translates all, provided the service gives
/// the same text for the same entry. `k` may be anything from none to all.
pub proof fn lemma_resume_idempotent(
    m: PipelineModel,
    texts: Seq<Seq<char>>,
    k: int,
    fresh: Option<Seq<char>>,
    found: Option<Seq<char>>,
)
    requires
        m.phase is Resuming,
        texts.len() == m.source.len(),
        0 <= k <= texts.len(),
        loaded_checkpoint(fresh) == Seq::<EntryModel>::empty(),
        loaded_checkpoint(found) == translated(m.source, texts).take(k),
    ensures
        ({
            let whole = run(m, seq![EventModel::CheckpointRead(fresh)] + successes(texts));
            let resumed = run(
                m,
                seq![EventModel::CheckpointRead(found)] + successes(texts.skip(k)),
            );
            let all = translated(m.source, texts);
            &&& whole.0.phase is Finalizing
            &&& resumed.0.phase is Finalizing
            &&& whole.0.output == all
            &&& resumed.0.output == all
            &&& whole.0.finished == sorted_items(all)
            &&& resumed.0.finished == sorted_items(all)
            &&& whole.1.last() == ActionModel::Write { text: rendered_items(sorted_items(all)) }
            &&& resumed.1.last() == ActionModel::Write { text: rendered_items(sorted_items(all)) }
        }),
{
    let all = translated(m.source, texts);
    lemma_resumed_run(m, Seq::empty(), texts, fresh);
    lemma_resumed_run(m, all.take(k), texts.skip(k), found);
    assert(all.take(k) + translated_from(m.source, k, texts.skip(k)) =~= all);
}

/// A run that takes `done` from its checkpoint and then gets `texts` for the
/// entries that are left ends with all of them, in the order of their
/// numbers, as its final file.
pub proof fn lemma_resumed_run(
    m: PipelineModel,
    done: Seq<EntryModel>,
    texts: Seq<Seq<char>>,
    contents: Option<Seq<char>>,
)
    requires
        m.phase is Resuming,
        loaded_checkpoint(contents) == done,
        done.len() + texts.len() == m.source.len(),
    ensures
        ({
            let got = run(m, seq![EventModel::CheckpointRead(contents)] + successes(texts));
            let all = done + translated_from(m.source, done.len() as int, texts);
            &&& got.0.phase is Finalizing
            &&& got.0.output == all
            &&& got.0.finished == sorted_items(all)
            &&& got.1.len() > 0
            &&& got.1.last() == ActionModel::Write { text: rendered_items(sorted_items(all)) }
        }),
{
    let read = EventModel::CheckpointRead(contents);
    lemma_run_push(m, Seq::empty(), read);
    lemma_run_concat(m, seq![read], successes(texts));
    lemma_translations_accumulate(
        PipelineModel { output: done, resume_index: done.len(), ..m },
        texts,
    );
}

/// The numbers go up along the sequence, and none occurs twice.
pub open spec fn rising_numbers(entries: Seq<EntryModel>) -> bool {
    forall|i: int, j: int|
        0 <= i < j < entries.len() ==> (#[trigger] entries[i]).number < (
        #[trigger] entries[j]).number
}

/// Entries whose numbers go up have one order only: whatever holds the same
/// entries with the numbers not going down holds them in the same places.
pub proof fn lemma_one_order(given: Seq<EntryModel>, other: Seq<EntryModel>)
    requires
        rising_numbers(given),
        ordered_by_number(other),
        other.to_multiset() == given.to_multiset(),
    ensures
        other == given,
    decreases given.len(),
{
    broadcast use vstd::seq_lib::group_to_multiset_ensures;

    vstd::seq_lib::to_multiset_len(given);
    vstd::seq_lib::to_multiset_len(other);
    if given.len() > 0 {
        let n = given.len() as int;
        let a = given.last();
        let b = other.last();
        // The last entry of each occurs in the other, so neither number is
        // above the other: the two are one entry.
        assert(given.to_multiset().count(b) > 0);
        let j = choose|j: int| 0 <= j < n && given[j] == b;
        assert(other.to_multiset().count(a) > 0);
        let k = choose|k: int| 0 <= k < n && other[k] == a;
        assert(j == n - 1);
        assert(given.remove(n - 1) =~= given.drop_last());
        assert(other.remove(n - 1) =~= other.drop_last());
        assert(rising_numbers(given.drop_last()));
        assert(ordered_by_number(other.drop_last()));
        lemma_one_order(given.drop_last(), other.drop_last());
        assert(other =~= other.drop_last().push(b));
    }
}

/// The final file is drawn up and every translated entry, those from the
/// checkpoint too, is the source entry at its place with another text.
pub open spec fn finished_from_source(m: PipelineModel) -> bool {
    &&& m.wf()
    &&& m.phase is Finalizing || m.phase is Cleanup || m.phase is Terminated
    &&& follows_source(m.source, m.output, 0)
}

/// A run that took nothing from a checkpoint has translated every entry
/// itself, from the source.
pub proof fn lemma_fresh_run_from_source(m: PipelineModel)
    requires
        m.wf(),
        m.phase is Finalizing || m.phase is Cleanup || m.phase is Terminated,
        m.resume_index == 0,
    ensures
        finished_from_source(m),
{
}

/// `entry` is an entry of `source` with another text: it has the number
/// and the two times of that entry.
pub open spec fn from_source(source: Seq<EntryModel>, entry: EntryModel) -> bool {
    exists|j: int| 0 <= j < source.len() && entry == (#[trigger] source[j]).with_text(entry.text)
}

/// Order preservation and timestamp invariance: the final file holds one
/// entry for each entry of the source and no other. Each has the number and
/// the two times of its source entry, untouched; only the text is replaced.
/// The numbers go up from entry to entry.
///
/// This is said of a run whose checkpoint, if it found one, was written for
/// the same source; a run that found none is such a run.
pub proof fn lemma_final_file(m: PipelineModel)
    requires
        finished_from_source(m),
    ensures
        m.finished.len() == m.source.len(),
        m.output.len() == m.source.len(),
        rising_numbers(m.finished),
        forall|i: int|
            0 <= i < m.finished.len() ==> from_source(m.source, #[trigger] m.finished[i]),
        forall|j: int| 0 <= j < m.source.len() ==> m.finished.contains(#[trigger] m.output[j]),
{
    broadcast use vstd::seq_lib::group_to_multiset_ensures;

    let n = m.source.len() as int;
    assert(m.output.len() == n) by {
        if m.output.len() > n {
            assert(m.output[n] == m.source[n].with_text(m.output[n].text));
        }
    }
    vstd::seq_lib::to_multiset_len(m.finished);
    vstd::seq_lib::to_multiset_len(m.output);
    assert forall|i: int| 0 <= i < m.finished.len() implies from_source(
        m.source,
        #[trigger] m.finished[i],
    ) by {
        assert(m.output.to_multiset().count(m.finished[i]) > 0);
        let j = choose|j: int| 0 <= j < m.output.len() && m.output[j] == m.finished[i];
        assert(m.finished[i] == m.source[j].with_text(m.finished[i].text));
    }
    assert forall|j: int| 0 <= j < m.source.len() implies m.finished.contains(
        #[trigger] m.output[j],
    ) by {
        assert(m.finished.to_multiset().count(m.output[j]) > 0);
    }
    // The numbers of the source differ, so no translated entry occurs twice,
    // and two entries of the final file cannot share a number.
    assert(m.output.no_duplicates()) by {
        assert forall|a: int, b: int|
            0 <= a < m.output.len() && 0 <= b < m.output.len() && a != b implies m.output[a]
            != m.output[b] by {
            assert(m.source[a].number != m.source[b].number);
        }
    }
    m.output.lemma_multiset_has_no_duplicates();
    m.finished.lemma_multiset_has_no_duplicates_conv();
    assert forall|a: int, b: int| 0 <= a < b < m.finished.len() implies (
    #[trigger] m.finished[a]).number < (#[trigger] m.finished[b]).number by {
        if m.finished[a].number == m.finished[b].number {
            assert(m.output.to_multiset().count(m.finished[a]) > 0);
            let x = choose|x: int| 0 <= x < m.output.len() && m.output[x] == m.finished[a];
            assert(m.output.to_multiset().count(m.finished[b]) > 0);
            let y = choose|y: int| 0 <= y < m.output.len() && m.output[y] == m.finished[b];
            assert(x == y) by {
                if x != y {
                    assert(m.source[x].number != m.source[y].number);
                }
            }
        }
    }
}

/// Where the numbers of the source go up from entry to entry, the final
/// file is the source entry by entry, with the texts replaced: the entry at
/// each place has the number and the times of the source entry at that
/// place.
pub proof fn lemma_final_file_in_place(m: PipelineModel)
    requires
        finished_from_source(m),
        ordered_by_number(m.source),
    ensures
        m.finished == m.output,
        m.finished.len() == m.source.len(),
        forall|i: int|
            0 <= i < m.source.len() ==> (#[trigger] m.finished[i]) == m.source[i].with_text(
                m.finished[i].text,
            ),
{
    lemma_final_file(m);
    assert forall|i: int, j: int| 0 <= i < j < m.output.len() implies (
    #[trigger] m.output[i]).number < (#[trigger] m.output[j]).number by {
        assert(m.source[i].number <= m.source[j].number);
        assert(m.source[i].number != m.source[j].number);
    }
    lemma_one_order(m.output, m.finished);
}

} // verus!
