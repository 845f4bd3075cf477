//! The checkpoint: the log of entries that are already translated.
//!
//! Each translated entry is appended as one record, in the text form of a
//! subtitle file and closed by a blank line. A run that finds a checkpoint
//! takes its entries as done. A record that was cut short by a crash, or
//! that is damaged otherwise, ends what is taken over.

use crate::entry::{all_wf, models, usable_entries, usable_prefix, Entry, EntryModel};
use crate::srt::{parsed_records, read_records, render, rendered_items};
use vstd::prelude::*;
use vstd::std_specs::iter::IteratorSpec;

verus! {

/// The record that is appended to the checkpoint for `entry`.
pub open spec fn record_text_of(entry: EntryModel) -> Seq<char> {
    rendered_items(seq![entry]) + seq!['\n', '\n']
}

/// The text of the record that is appended to the checkpoint for `entry`:
/// the entry as a subtitle file shows it, and a blank line.
pub fn record_text(entry: &Entry) -> (text: String)
    ensures
        text@ == record_text_of(entry@),
{
    let mut one: Vec<Entry> = Vec::new();
    one.push(entry.clone());
    assert(models(one@) =~= seq![entry@]);
    proof {
        reveal_strlit("\n\n");
    }
    let text = render(&one).concat("\n\n");
    text
}

/// The longest start of `text` that ends in a blank line; empty if there is
/// no blank line. What follows it was never completed.
pub open spec fn complete_part(text: Seq<char>) -> Seq<char>
    decreases text.len(),
{
    if text.len() < 2 {
        Seq::empty()
    } else if text[text.len() - 2] == '\n' && text.last() == '\n' {
        text
    } else {
        complete_part(text.drop_last())
    }
}

/// Cuts the unfinished end off a checkpoint text.
pub fn without_fragment(text: &str) -> (kept: String)
    ensures
        kept@ == complete_part(text@),
{
    broadcast use vstd::string::axiom_spec_iter, vstd::string::next_postcondition;

    let total = text.unicode_len();
    let mut chars = text.chars();
    let mut seen: usize = 0;
    let mut keep: usize = 0;
    let mut after_newline = false;
    loop
        invariant
            total == text@.len(),
            0 <= keep <= seen <= total,
            chars.remaining() == text@.skip(seen as int),
            complete_part(text@.take(seen as int)) == text@.take(keep as int),
            after_newline == (seen > 0 && text@[seen - 1] == '\n'),
        ensures
            seen == total,
            keep <= total,
            complete_part(text@.take(seen as int)) == text@.take(keep as int),
        decreases total - seen,
    {
        let ghost before = text@.take(seen as int);
        match chars.next() {
            None => {
                break ;
            },
            Some(c) => {
                seen += 1;
                let ghost now = text@.take(seen as int);
                assert(now.drop_last() =~= before);
                if after_newline && c == '\n' {
                    keep = seen;
                }
                after_newline = c == '\n';
            },
        }
    }
    String::from_str(text.substring_char(0, keep))
}

/// The entries that a run takes over from a checkpoint with these contents:
/// none where there is no checkpoint or it cannot be read. A checkpoint that
/// cannot be read as a whole is read once more without its unfinished end.
pub open spec fn loaded_checkpoint(contents: Option<Seq<char>>) -> Seq<EntryModel> {
    match contents {
        None => Seq::empty(),
        Some(text) => match parsed_records(text) {
            Ok(records) => usable_prefix(records),
            Err(_) => match parsed_records(complete_part(text)) {
                Ok(records) => usable_prefix(records),
                Err(_) => Seq::empty(),
            },
        },
    }
}

/// Reads the entries of a checkpoint. `contents` is the text of the
/// checkpoint file, or nothing where the file is absent or unreadable. This
/// never fails: what cannot be read is left out, and the run translates it
/// again.
pub fn load_checkpoint(contents: &Option<String>) -> (entries: Vec<Entry>)
    ensures
        models(entries@) == loaded_checkpoint(contents.deep_view()),
        all_wf(models(entries@)),
{
    match contents {
        None => {
            let entries: Vec<Entry> = Vec::new();
            entries
        },
        Some(text) => match read_records(text.as_str()) {
            Ok(records) => usable_entries(&records),
            Err(_) => {
                let kept = without_fragment(text.as_str());
                match read_records(kept.as_str()) {
                    Ok(records) => usable_entries(&records),
                    Err(_) => {
                        let entries: Vec<Entry> = Vec::new();
                        entries
                    },
                }
            },
        },
    }
}

} // verus!
