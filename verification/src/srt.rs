//! The subtitle text format, as the `srtlib` crate reads and writes it.
//!
//! The format itself is `srtlib`'s business. This module hands entries to it
//! and takes records back, and says of each call only what `srtlib`'s source
//! shows.

use crate::entry::{
    all_wf, check_records, checked_records, distinct_numbers, entries_of, faultless,
    lemma_entry_round_trip, lemma_usable_all, models, record_fault, record_models, record_of,
    usable_entries, Clock, Entry, EntryModel, Record, RecordModel, SequenceFault,
};
use vstd::prelude::*;

verus! {

/// `srtlib::Subtitles`, the collection of subtitles that `srtlib` parses,
/// sorts and writes. Nothing is known of a value but what
/// [`subtitle_items`] names.
#[verifier::external_type_specification]
#[verifier::external_body]
pub struct ExSubtitles(srtlib::Subtitles);

/// The subtitles that a `srtlib::Subtitles` holds, in its order: of each its
/// number, the milliseconds of its two timestamps and its text.
pub uninterp spec fn subtitle_items(subs: srtlib::Subtitles) -> Seq<EntryModel>;

/// The order in which `srtlib::Subtitles::sort` leaves subtitles that it
/// found as `items`.
pub uninterp spec fn sorted_items(items: Seq<EntryModel>) -> Seq<EntryModel>;

/// The text that `srtlib` writes for a collection that holds `items`.
pub uninterp spec fn rendered_items(items: Seq<EntryModel>) -> Seq<char>;

/// What `srtlib::Subtitles::parse_from_str` makes of `text`: the subtitles
/// it reads, or why it gives up.
pub uninterp spec fn parsed_items(text: Seq<char>) -> Result<Seq<EntryModel>, ParseFault>;

/// Why `srtlib` gives up on a text.
#[derive(Clone, Copy, Debug, PartialEq, Eq)]
pub enum ParseFault {
    /// A number is not written as one, or does not fit.
    Number,
    /// The text could not be read at all.
    Io,
    /// A timecode lacks one of its fields.
    Timecode,
    /// The subtitle of this number lacks a line; 0 where the number itself
    /// is missing.
    Structure(usize),
    /// The name of a text encoding is unknown.
    Encoding,
}

/// The numbers never go down along the sequence.
pub open spec fn ordered_by_number(entries: Seq<EntryModel>) -> bool {
    forall|i: int, j: int|
        0 <= i <= j < entries.len() ==> (#[trigger] entries[i]).number <= (
        #[trigger] entries[j]).number
}

/// The records under which `items` are read back.
pub open spec fn records_of(items: Seq<EntryModel>) -> Seq<RecordModel> {
    Seq::new(items.len(), |i: int| record_of(items[i]))
}

/// `srtlib::Subtitles::new`: a collection that holds nothing.
#[verifier::external_body]
fn empty_subtitles() -> (subs: srtlib::Subtitles)
    ensures
        subtitle_items(subs) == Seq::<EntryModel>::empty(),
{
    srtlib::Subtitles::new()
}

/// `srtlib::Subtitles::push` of the subtitle that `srtlib::Subtitle::new`
/// makes of the entry's number, times and text: it becomes the last one, and
/// the others stay as they are.
#[verifier::external_body]
fn push_subtitle(subs: &mut srtlib::Subtitles, entry: &Entry)
    ensures
        subtitle_items(*final(subs)) == subtitle_items(*old(subs)).push(entry@),
{
    let start = srtlib::Timestamp::from_milliseconds(entry.start.millis);
    let end = srtlib::Timestamp::from_milliseconds(entry.end.millis);
    subs.push(srtlib::Subtitle::new(entry.number, start, end, entry.text.clone()));
}

/// `srtlib::Subtitles::sort`: the same subtitles, each as often as before,
/// with the numbers in rising order. How subtitles of one number are placed
/// is left to [`sorted_items`].
#[verifier::external_body]
fn sort_subtitles(subs: &mut srtlib::Subtitles)
    ensures
        subtitle_items(*final(subs)) == sorted_items(subtitle_items(*old(subs))),
        subtitle_items(*final(subs)).to_multiset() == subtitle_items(*old(subs)).to_multiset(),
        ordered_by_number(subtitle_items(*final(subs))),
{
    subs.sort();
}

/// `srtlib::Subtitles::to_vec`, each subtitle handed out as a record: its
/// number and text as they are, each timestamp as the four fields that
/// `srtlib::Timestamp::get` gives for it.
#[verifier::external_body]
fn subtitle_records(subs: srtlib::Subtitles) -> (records: Vec<Record>)
    ensures
        record_models(records@) == records_of(subtitle_items(subs)),
{
    let clock = |t: srtlib::Timestamp| {
        let (hours, minutes, seconds, millis) = t.get();
        Clock { hours, minutes, seconds, millis }
    };
    subs.to_vec().into_iter().map(|s| Record {
        number: s.num,
        start: clock(s.start_time),
        end: clock(s.end_time),
        text: s.text,
    }).collect()
}

/// The text that `srtlib` writes for the collection (its `Display`), named
/// by [`rendered_items`].
#[verifier::external_body]
fn subtitles_text(subs: &srtlib::Subtitles) -> (text: String)
    ensures
        text@ == rendered_items(subtitle_items(*subs)),
{
    subs.to_string()
}

/// `srtlib::Subtitles::parse_from_str` on `text`. The subtitles it reads, or
/// the kind of error it returns, are those that [`parsed_items`] names.
#[verifier::external_body]
fn parse_subtitles(text: &str) -> (r: Result<srtlib::Subtitles, ParseFault>)
    ensures
        match r {
            Ok(subs) => parsed_items(text@) == Ok::<Seq<EntryModel>, ParseFault>(
                subtitle_items(subs),
            ),
            Err(fault) => parsed_items(text@) == Err::<Seq<EntryModel>, ParseFault>(fault),
        },
{
    match srtlib::Subtitles::parse_from_str(text.to_string()) {
        Ok(subs) => Ok(subs),
        Err(srtlib::ParsingError::ParseIntError(_)) => Err(ParseFault::Number),
        Err(srtlib::ParsingError::IOError(_)) => Err(ParseFault::Io),
        Err(srtlib::ParsingError::MalformedTimestamp) => Err(ParseFault::Timecode),
        Err(srtlib::ParsingError::BadSubtitleStructure(number)) => Err(ParseFault::Structure(number)),
        Err(srtlib::ParsingError::BadEncodingName) => Err(ParseFault::Encoding),
    }
}

fn collect_subtitles(entries: &Vec<Entry>) -> (subs: srtlib::Subtitles)
    ensures
        subtitle_items(subs) == models(entries@),
{
    let ghost all = models(entries@);
    let mut subs = empty_subtitles();
    let mut i: usize = 0;
    while i < entries.len()
        invariant
            0 <= i <= entries.len(),
            all == models(entries@),
            subtitle_items(subs) == all.take(i as int),
        decreases entries.len() - i,
    {
        push_subtitle(&mut subs, &entries[i]);
        i += 1;
    }
    subs
}

/// Entries that occur in a sequence of well-formed entries are well formed.
pub proof fn lemma_same_entries_wf(given: Seq<EntryModel>, other: Seq<EntryModel>)
    requires
        all_wf(given),
        other.to_multiset() == given.to_multiset(),
    ensures
        all_wf(other),
{
    broadcast use vstd::seq_lib::group_to_multiset_ensures;

    assert forall|i: int| 0 <= i < other.len() implies (#[trigger] other[i]).wf() by {
        assert(given.to_multiset().count(other[i]) > 0);
    }
}

/// Well-formed entries are read back from `srtlib` as they went in.
pub proof fn lemma_records_round_trip(items: Seq<EntryModel>)
    requires
        all_wf(items),
    ensures
        faultless(records_of(items), items.len() as int),
        entries_of(records_of(items), items.len() as int) == items,
{
    assert forall|i: int| 0 <= i < items.len() implies record_fault(
        #[trigger] records_of(items)[i],
    ) is None by {
        lemma_entry_round_trip(items[i]);
    }
    assert forall|i: int| 0 <= i < items.len() implies entries_of(
        records_of(items),
        items.len() as int,
    )[i] == items[i] by {
        lemma_entry_round_trip(items[i]);
    }
}

/// Puts the entries in the order of their numbers, as `srtlib` sorts them.
/// No entry is added, dropped or changed.
pub fn sort_by_number(entries: &Vec<Entry>) -> (sorted: Vec<Entry>)
    requires
        all_wf(models(entries@)),
    ensures
        models(sorted@) == sorted_items(models(entries@)),
        models(sorted@).to_multiset() == models(entries@).to_multiset(),
        ordered_by_number(models(sorted@)),
        all_wf(models(sorted@)),
{
    let mut subs = collect_subtitles(entries);
    sort_subtitles(&mut subs);
    let ghost items = subtitle_items(subs);
    let records = subtitle_records(subs);
    proof {
        lemma_same_entries_wf(models(entries@), items);
        lemma_records_round_trip(items);
        lemma_usable_all(records_of(items));
    }
    usable_entries(&records)
}

/// The text of a subtitle file that holds `entries`, in their order.
pub fn render(entries: &Vec<Entry>) -> (text: String)
    ensures
        text@ == rendered_items(models(entries@)),
{
    let subs = collect_subtitles(entries);
    subtitles_text(&subs)
}

/// The records that `srtlib` reads from `text`, or why it gives up.
pub open spec fn parsed_records(text: Seq<char>) -> Result<Seq<RecordModel>, ParseFault> {
    match parsed_items(text) {
        Ok(items) => Ok(records_of(items)),
        Err(fault) => Err(fault),
    }
}

/// Reads the records of a subtitle text.
pub fn read_records(text: &str) -> (r: Result<Vec<Record>, ParseFault>)
    ensures
        match r {
            Ok(records) => parsed_records(text@) == Ok::<Seq<RecordModel>, ParseFault>(
                record_models(records@),
            ),
            Err(fault) => parsed_records(text@) == Err::<Seq<RecordModel>, ParseFault>(fault),
        },
{
    match parse_subtitles(text) {
        Ok(subs) => Ok(subtitle_records(subs)),
        Err(fault) => Err(fault),
    }
}

/// Why a text is no source for a run.
#[derive(Clone, Copy, Debug, PartialEq, Eq)]
pub enum SourceFault {
    /// The text is no subtitle file.
    Malformed(ParseFault),
    /// The text is a subtitle file, but its records are no sequence of
    /// entries.
    Invalid(SequenceFault),
}

/// The entries that a subtitle text holds, or why it holds none. One bad
/// record makes the whole text bad.
pub open spec fn parsed_source(text: Seq<char>) -> Result<Seq<EntryModel>, SourceFault> {
    match parsed_records(text) {
        Err(fault) => Err(SourceFault::Malformed(fault)),
        Ok(records) => match checked_records(records) {
            Err(fault) => Err(SourceFault::Invalid(fault)),
            Ok(entries) => Ok(entries),
        },
    }
}

/// Reads the entries of a source text. Nothing is skipped: a record that
/// cannot be read, that is no entry, or that repeats a number fails the
/// whole text.
pub fn read_entries(text: &str) -> (r: Result<Vec<Entry>, SourceFault>)
    ensures
        match r {
            Ok(entries) => parsed_source(text@) == Ok::<Seq<EntryModel>, SourceFault>(
                models(entries@),
            ),
            Err(fault) => parsed_source(text@) == Err::<Seq<EntryModel>, SourceFault>(fault),
        },
        r matches Ok(entries) ==> all_wf(models(entries@)) && distinct_numbers(models(entries@)),
{
    match read_records(text) {
        Err(fault) => Err(SourceFault::Malformed(fault)),
        Ok(records) => match check_records(&records) {
            Err(fault) => Err(SourceFault::Invalid(fault)),
            Ok(entries) => Ok(entries),
        },
    }
}

/// What [`echo`] answers for `text`.
pub open spec fn echoed(text: Seq<char>) -> Result<Seq<char>, SourceFault> {
    match parsed_source(text) {
        Err(fault) => Err(fault),
        Ok(entries) => Ok(rendered_items(entries)),
    }
}

/// Reads a source text and writes its entries out again, untranslated.
pub fn echo(text: &str) -> (r: Result<String, SourceFault>)
    ensures
        match r {
            Ok(shown) => echoed(text@) == Ok::<Seq<char>, SourceFault>(shown@),
            Err(fault) => echoed(text@) == Err::<Seq<char>, SourceFault>(fault),
        },
{
    match read_entries(text) {
        Err(fault) => Err(fault),
        Ok(entries) => Ok(render(&entries)),
    }
}

} // verus!
