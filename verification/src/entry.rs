//! Subtitle entries and their timestamps.

use vstd::prelude::*;

verus! {

/// The latest instant a timestamp can hold, 255:59:59,999, in milliseconds.
pub const MAX_MILLIS: u32 = 921_599_999;

/// A time of day as the four fields of a subtitle timecode,
/// `hours:minutes:seconds,millis`.
#[derive(Clone, Copy, Debug, PartialEq, Eq)]
pub struct Clock {
    pub hours: u8,
    pub minutes: u8,
    pub seconds: u8,
    pub millis: u16,
}

impl Clock {
    /// The fields are in their usual ranges.
    pub open spec fn normal(self) -> bool {
        self.minutes < 60 && self.seconds < 60 && self.millis < 1000
    }

    /// The instant in milliseconds.
    pub open spec fn total(self) -> int {
        ((self.hours * 60 + self.minutes) * 60 + self.seconds) * 1000 + self.millis
    }

    pub fn is_normal(&self) -> (r: bool)
        ensures
            r == self.normal(),
    {
        self.minutes < 60 && self.seconds < 60 && self.millis < 1000
    }

    pub fn total_millis(&self) -> (r: u32)
        ensures
            r == self.total(),
    {
        let hours: u32 = self.hours as u32;
        let minutes: u32 = self.minutes as u32;
        let seconds: u32 = self.seconds as u32;
        let millis: u32 = self.millis as u32;
        ((hours * 60 + minutes) * 60 + seconds) * 1000 + millis
    }
}

/// The fields under which an instant of `ms` milliseconds is shown. Each
/// field is cut to its width, so instants after [`MAX_MILLIS`] lose their
/// upper part.
pub open spec fn clock_of(ms: int) -> Clock {
    let hours = (ms / 3_600_000) % 256;
    let past_hours = ms - hours * 3_600_000;
    let minutes = (past_hours / 60_000) % 256;
    let past_minutes = past_hours - minutes * 60_000;
    let seconds = (past_minutes / 1000) % 256;
    let past_seconds = past_minutes - seconds * 1000;
    Clock {
        hours: hours as u8,
        minutes: minutes as u8,
        seconds: seconds as u8,
        millis: (past_seconds % 65536) as u16,
    }
}

/// Up to [`MAX_MILLIS`] the fields of an instant are in range and add up to it.
pub proof fn lemma_clock_of_total(ms: int)
    requires
        0 <= ms <= MAX_MILLIS,
    ensures
        clock_of(ms).normal(),
        clock_of(ms).total() == ms,
{
}

/// Fields in range are the fields of the instant they add up to.
pub proof fn lemma_total_of_clock(c: Clock)
    requires
        c.normal(),
    ensures
        0 <= c.total() <= MAX_MILLIS,
        clock_of(c.total()) == c,
{
}

/// An instant on the subtitle time line, in milliseconds from its start.
#[derive(Clone, Copy, Debug, PartialEq, Eq)]
pub struct Timestamp {
    pub millis: u32,
}

impl Timestamp {
    /// The instant can be written as a timecode.
    pub open spec fn wf(self) -> bool {
        self.millis <= MAX_MILLIS
    }

    /// The instant that the fields of `clock` name; none if a field is out
    /// of range.
    pub open spec fn of_clock(clock: Clock) -> Option<Timestamp> {
        if clock.normal() {
            Some(Timestamp { millis: clock.total() as u32 })
        } else {
            None
        }
    }

    /// The instant that the fields of `clock` name, if they are in range.
    pub fn from_clock(clock: Clock) -> (r: Option<Timestamp>)
        ensures
            r == Timestamp::of_clock(clock),
            r matches Some(t) ==> t.wf(),
    {
        if clock.is_normal() {
            proof {
                lemma_total_of_clock(clock);
            }
            Some(Timestamp { millis: clock.total_millis() })
        } else {
            None
        }
    }

    /// The instant `hours:minutes:seconds,millis`, if the fields are in range.
    pub fn new(hours: u8, minutes: u8, seconds: u8, millis: u16) -> (r: Option<Timestamp>)
        ensures
            r == Timestamp::of_clock(Clock { hours, minutes, seconds, millis }),
            r matches Some(t) ==> t.wf(),
    {
        Timestamp::from_clock(Clock { hours, minutes, seconds, millis })
    }
}

/// What an entry holds, as values: its number, its two instants in
/// milliseconds and its text.
pub struct EntryModel {
    pub number: nat,
    pub start: nat,
    pub end: nat,
    pub text: Seq<char>,
}

impl EntryModel {
    /// The number is positive and the entry ends no earlier than it starts,
    /// within what a timecode can show.
    pub open spec fn wf(self) -> bool {
        self.number > 0 && self.start <= self.end <= MAX_MILLIS
    }

    /// The entry with `text` in place of its own; number and times stay.
    pub open spec fn with_text(self, text: Seq<char>) -> EntryModel {
        EntryModel { number: self.number, start: self.start, end: self.end, text }
    }
}

/// One timed subtitle line.
#[derive(Debug, PartialEq, Eq)]
pub struct Entry {
    pub number: usize,
    pub start: Timestamp,
    pub end: Timestamp,
    pub text: String,
}

impl View for Entry {
    type V = EntryModel;

    open spec fn view(&self) -> EntryModel {
        EntryModel {
            number: self.number as nat,
            start: self.start.millis as nat,
            end: self.end.millis as nat,
            text: self.text@,
        }
    }
}

impl Clone for Entry {
    fn clone(&self) -> (r: Entry)
        ensures
            r == *self,
    {
        Entry { number: self.number, start: self.start, end: self.end, text: self.text.clone() }
    }
}

impl Entry {
    /// See [`EntryModel::wf`].
    pub open spec fn wf(&self) -> bool {
        self@.wf()
    }

    /// The entry with `text` in place of its own. Number and times are
    /// carried over untouched.
    pub fn with_text(&self, text: String) -> (r: Entry)
        ensures
            r@ == self@.with_text(text@),
            r.number == self.number,
            r.start == self.start,
            r.end == self.end,
            r.text == text,
    {
        Entry { number: self.number, start: self.start, end: self.end, text }
    }
}

/// The values of a sequence of entries, in order.
pub open spec fn models(entries: Seq<Entry>) -> Seq<EntryModel> {
    Seq::new(entries.len(), |i: int| entries[i]@)
}

/// Every entry of the sequence is well formed.
pub open spec fn all_wf(entries: Seq<EntryModel>) -> bool {
    forall|i: int| 0 <= i < entries.len() ==> (#[trigger] entries[i]).wf()
}

/// No number occurs twice in the sequence.
pub open spec fn distinct_numbers(entries: Seq<EntryModel>) -> bool {
    forall|i: int, j: int|
        0 <= i < j < entries.len() ==> (#[trigger] entries[i]).number != (
        #[trigger] entries[j]).number
}

/// What a subtitle record holds as it is read: the times are still the four
/// fields of their timecodes.
pub struct RecordModel {
    pub number: nat,
    pub start: Clock,
    pub end: Clock,
    pub text: Seq<char>,
}

/// A subtitle record as it is read, before anything is known of its times.
#[derive(Debug, PartialEq, Eq)]
pub struct Record {
    pub number: usize,
    pub start: Clock,
    pub end: Clock,
    pub text: String,
}

impl View for Record {
    type V = RecordModel;

    open spec fn view(&self) -> RecordModel {
        RecordModel {
            number: self.number as nat,
            start: self.start,
            end: self.end,
            text: self.text@,
        }
    }
}

/// The values of a sequence of records, in order.
pub open spec fn record_models(records: Seq<Record>) -> Seq<RecordModel> {
    Seq::new(records.len(), |i: int| records[i]@)
}

/// The record under which an entry is read back.
pub open spec fn record_of(entry: EntryModel) -> RecordModel {
    RecordModel {
        number: entry.number,
        start: clock_of(entry.start as int),
        end: clock_of(entry.end as int),
        text: entry.text,
    }
}

/// Why a record is no entry.
#[derive(Clone, Copy, Debug, PartialEq, Eq)]
pub enum EntryFault {
    /// The number is zero.
    ZeroNumber,
    /// A field of a timecode is out of its range.
    TimeOutOfRange,
    /// The end lies before the start.
    EndBeforeStart,
}

/// The first thing that is wrong with a record, if anything is.
pub open spec fn record_fault(record: RecordModel) -> Option<EntryFault> {
    if record.number == 0 {
        Some(EntryFault::ZeroNumber)
    } else if !record.start.normal() || !record.end.normal() {
        Some(EntryFault::TimeOutOfRange)
    } else if record.end.total() < record.start.total() {
        Some(EntryFault::EndBeforeStart)
    } else {
        None
    }
}

/// The entry that a record stands for.
pub open spec fn record_entry(record: RecordModel) -> EntryModel {
    EntryModel {
        number: record.number,
        start: record.start.total() as nat,
        end: record.end.total() as nat,
        text: record.text,
    }
}

/// A record without fault stands for a well-formed entry, and that entry is
/// read back as the same record.
pub proof fn lemma_record_round_trip(record: RecordModel)
    requires
        record_fault(record) is None,
    ensures
        record_entry(record).wf(),
        record_of(record_entry(record)) == record,
{
    lemma_total_of_clock(record.start);
    lemma_total_of_clock(record.end);
}

/// A well-formed entry is read back as a record without fault that stands
/// for the same entry.
pub proof fn lemma_entry_round_trip(entry: EntryModel)
    requires
        entry.wf(),
    ensures
        record_fault(record_of(entry)) is None,
        record_entry(record_of(entry)) == entry,
{
    lemma_clock_of_total(entry.start as int);
    lemma_clock_of_total(entry.end as int);
}

impl Record {
    /// The entry that the record stands for, or what is wrong with it.
    pub fn check(&self) -> (r: Result<Entry, EntryFault>)
        ensures
            match r {
                Ok(entry) => record_fault(self@) is None && entry@ == record_entry(self@)
                    && entry.wf(),
                Err(fault) => record_fault(self@) == Some(fault),
            },
    {
        if self.number == 0 {
            return Err(EntryFault::ZeroNumber);
        }
        if !self.start.is_normal() || !self.end.is_normal() {
            return Err(EntryFault::TimeOutOfRange);
        }
        let start = self.start.total_millis();
        let end = self.end.total_millis();
        if end < start {
            return Err(EntryFault::EndBeforeStart);
        }
        proof {
            lemma_record_round_trip(self@);
        }
        Ok(
            Entry {
                number: self.number,
                start: Timestamp { millis: start },
                end: Timestamp { millis: end },
                text: self.text.clone(),
            },
        )
    }
}

/// Why a sequence of records is no sequence of entries.
#[derive(Clone, Copy, Debug, PartialEq, Eq)]
pub enum SequenceFault {
    /// The record at `index` is no entry.
    Invalid { index: usize, fault: EntryFault },
    /// The record at `index` repeats the number of an earlier one.
    Repeated { index: usize },
}

/// The record at `index` has the number of an earlier record.
pub open spec fn repeats(records: Seq<RecordModel>, index: int) -> bool {
    exists|i: int| 0 <= i < index && (#[trigger] records[i]).number == records[index].number
}

/// No record before `upto` has a fault.
pub open spec fn faultless(records: Seq<RecordModel>, upto: int) -> bool {
    forall|i: int| 0 <= i < upto ==> record_fault(#[trigger] records[i]) is None
}

/// No record before `upto` repeats an earlier number.
pub open spec fn unrepeated(records: Seq<RecordModel>, upto: int) -> bool {
    forall|j: int| 0 <= j < upto ==> !repeats(records, j)
}

/// The entries that the first `len` records stand for.
pub open spec fn entries_of(records: Seq<RecordModel>, len: int) -> Seq<EntryModel> {
    Seq::new(len as nat, |i: int| record_entry(records[i]))
}

/// What [`check_records`] answers for `records`.
pub open spec fn checked_records(records: Seq<RecordModel>) -> Result<
    Seq<EntryModel>,
    SequenceFault,
> {
    if !faultless(records, records.len() as int) {
        let index = choose|i: int|
            0 <= i < records.len() && record_fault(#[trigger] records[i]) is Some && faultless(
                records,
                i,
            );
        Err(
            SequenceFault::Invalid {
                index: index as usize,
                fault: record_fault(records[index])->0,
            },
        )
    } else if !unrepeated(records, records.len() as int) {
        let index = choose|j: int|
            0 <= j < records.len() && #[trigger] repeats(records, j) && unrepeated(records, j);
        Err(SequenceFault::Repeated { index: index as usize })
    } else {
        Ok(entries_of(records, records.len() as int))
    }
}

/// The first record with a fault decides what [`checked_records`] answers.
pub proof fn lemma_first_fault(records: Seq<RecordModel>, index: usize)
    requires
        index < records.len(),
        record_fault(records[index as int]) is Some,
        faultless(records, index as int),
    ensures
        checked_records(records) == Err::<Seq<EntryModel>, SequenceFault>(
            SequenceFault::Invalid { index, fault: record_fault(records[index as int])->0 },
        ),
{
    let found = index as int;
    let chosen = choose|i: int|
        0 <= i < records.len() && record_fault(#[trigger] records[i]) is Some && faultless(
            records,
            i,
        );
    assert(chosen == found) by {
        if chosen < found {
            assert(record_fault(records[chosen]) is None);
        } else if found < chosen {
            assert(record_fault(records[found]) is None);
        }
    }
}

/// Among faultless records the first repeated number decides what
/// [`checked_records`] answers.
pub proof fn lemma_first_repeat(records: Seq<RecordModel>, index: usize)
    requires
        index < records.len(),
        faultless(records, records.len() as int),
        repeats(records, index as int),
        unrepeated(records, index as int),
    ensures
        checked_records(records) == Err::<Seq<EntryModel>, SequenceFault>(
            SequenceFault::Repeated { index },
        ),
{
    let found = index as int;
    let chosen = choose|j: int|
        0 <= j < records.len() && #[trigger] repeats(records, j) && unrepeated(records, j);
    assert(chosen == found) by {
        if chosen < found {
            assert(!repeats(records, chosen));
        } else if found < chosen {
            assert(!repeats(records, found));
        }
    }
}

/// Where no record repeats an earlier number, the entries' numbers differ.
pub proof fn lemma_unrepeated_distinct(records: Seq<RecordModel>)
    requires
        unrepeated(records, records.len() as int),
    ensures
        distinct_numbers(entries_of(records, records.len() as int)),
{
    let got = entries_of(records, records.len() as int);
    assert forall|a: int, b: int| 0 <= a < b < got.len() implies (#[trigger] got[a]).number != (
    #[trigger] got[b]).number by {
        assert(!repeats(records, b));
    }
}

/// Turns records into entries. The first record that is no entry is
/// reported with its place; if all are entries, the first one that repeats an
/// earlier number is. Nothing is skipped.
pub fn check_records(records: &Vec<Record>) -> (r: Result<Vec<Entry>, SequenceFault>)
    ensures
        match r {
            Ok(entries) => checked_records(record_models(records@)) == Ok::<
                Seq<EntryModel>,
                SequenceFault,
            >(models(entries@)),
            Err(fault) => checked_records(record_models(records@)) == Err::<
                Seq<EntryModel>,
                SequenceFault,
            >(fault),
        },
        r matches Ok(entries) ==> all_wf(models(entries@)) && distinct_numbers(models(entries@)),
{
    let ghost all = record_models(records@);
    let mut entries: Vec<Entry> = Vec::new();
    let mut i: usize = 0;
    while i < records.len()
        invariant
            0 <= i <= records.len(),
            all == record_models(records@),
            faultless(all, i as int),
            models(entries@) == entries_of(all, i as int),
            all_wf(models(entries@)),
        decreases records.len() - i,
    {
        match records[i].check() {
            Ok(entry) => {
                let ghost before = models(entries@);
                entries.push(entry);
                assert(models(entries@) =~= before.push(entry@));
            },
            Err(fault) => {
                proof {
                    lemma_first_fault(all, i);
                }
                return Err(SequenceFault::Invalid { index: i, fault });
            },
        }
        i += 1;
    }
    let mut j: usize = 0;
    while j < records.len()
        invariant
            0 <= j <= records.len(),
            all == record_models(records@),
            faultless(all, records.len() as int),
            unrepeated(all, j as int),
        decreases records.len() - j,
    {
        if number_seen_before(records, j) {
            proof {
                lemma_first_repeat(all, j);
            }
            return Err(SequenceFault::Repeated { index: j });
        }
        j += 1;
    }
    proof {
        lemma_unrepeated_distinct(all);
    }
    Ok(entries)
}

fn number_seen_before(records: &Vec<Record>, index: usize) -> (r: bool)
    requires
        index < records.len(),
    ensures
        r == repeats(record_models(records@), index as int),
{
    let ghost all = record_models(records@);
    let mut k: usize = 0;
    while k < index
        invariant
            0 <= k <= index < records.len(),
            all == record_models(records@),
            forall|m: int| 0 <= m < k ==> (#[trigger] all[m]).number != all[index as int].number,
        decreases index - k,
    {
        assert(all[k as int] == records[k as int]@);
        if records[k].number == records[index].number {
            return true;
        }
        k += 1;
    }
    false
}

/// The entries that the leading faultless records stand for: everything from
/// the first record with a fault on is left out.
pub open spec fn usable_prefix(records: Seq<RecordModel>) -> Seq<EntryModel>
    decreases records.len(),
{
    if records.len() == 0 || record_fault(records[0]) is Some {
        Seq::empty()
    } else {
        seq![record_entry(records[0])] + usable_prefix(records.drop_first())
    }
}

/// Where no record has a fault, every record is usable.
pub proof fn lemma_usable_all(records: Seq<RecordModel>)
    requires
        faultless(records, records.len() as int),
    ensures
        usable_prefix(records) == entries_of(records, records.len() as int),
    decreases records.len(),
{
    if records.len() > 0 {
        let rest = records.drop_first();
        assert forall|i: int| 0 <= i < rest.len() implies record_fault(#[trigger] rest[i]) is None by {
            assert(rest[i] == records[i + 1]);
        }
        lemma_usable_all(rest);
    }
}

/// Every usable entry is well formed.
pub proof fn lemma_usable_wf(records: Seq<RecordModel>)
    ensures
        all_wf(usable_prefix(records)),
    decreases records.len(),
{
    if records.len() > 0 && record_fault(records[0]) is None {
        lemma_record_round_trip(records[0]);
        lemma_usable_wf(records.drop_first());
    }
}

/// The entries of the records up to the first one with a fault. A damaged
/// record ends what can be trusted: it and all that follows are dropped.
pub fn usable_entries(records: &Vec<Record>) -> (entries: Vec<Entry>)
    ensures
        models(entries@) == usable_prefix(record_models(records@)),
        all_wf(models(entries@)),
{
    let ghost all = record_models(records@);
    let mut entries: Vec<Entry> = Vec::new();
    let mut i: usize = 0;
    assert(all.skip(0) =~= all);
    while i < records.len()
        invariant
            0 <= i <= records.len(),
            all == record_models(records@),
            usable_prefix(all) == models(entries@) + usable_prefix(all.skip(i as int)),
        decreases records.len() - i,
    {
        match records[i].check() {
            Ok(entry) => {
                entries.push(entry);
                assert(all.skip(i as int).drop_first() =~= all.skip(i + 1));
            },
            Err(_) => {
                proof {
                    lemma_usable_wf(all);
                }
                return entries;
            },
        }
        i += 1;
    }
    proof {
        lemma_usable_wf(all);
    }
    entries
}

} // verus!
