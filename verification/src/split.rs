//! Splitting a subtitle file that alternates between two languages.

use crate::entry::{all_wf, models, Entry, EntryModel};
use crate::srt::{sort_by_number, sorted_items};
use vstd::prelude::*;

verus! {

/// The entries at the places 0, 2, 4 and so on.
pub open spec fn at_even(entries: Seq<EntryModel>) -> Seq<EntryModel> {
    Seq::new(((entries.len() + 1) / 2) as nat, |k: int| entries[2 * k])
}

/// The entries at the places 1, 3, 5 and so on.
pub open spec fn at_odd(entries: Seq<EntryModel>) -> Seq<EntryModel> {
    Seq::new((entries.len() / 2) as nat, |k: int| entries[2 * k + 1])
}

/// Parts a file in which every other entry is in the second language: the
/// entries at even places make the first file, those at odd places the
/// second, each in the order of its numbers.
pub fn split_alternating(entries: &Vec<Entry>) -> (parts: (Vec<Entry>, Vec<Entry>))
    requires
        all_wf(models(entries@)),
    ensures
        models(parts.0@) == sorted_items(at_even(models(entries@))),
        models(parts.1@) == sorted_items(at_odd(models(entries@))),
{
    let ghost all = models(entries@);
    let mut first: Vec<Entry> = Vec::new();
    let mut second: Vec<Entry> = Vec::new();
    let mut i: usize = 0;
    while i < entries.len()
        invariant
            0 <= i <= entries.len(),
            all == models(entries@),
            all_wf(all),
            models(first@) == at_even(all.take(i as int)),
            models(second@) == at_odd(all.take(i as int)),
            all_wf(models(first@)),
            all_wf(models(second@)),
        decreases entries.len() - i,
    {
        let entry = entries[i].clone();
        assert(entry@ == all[i as int]);
        if i % 2 == 0 {
            let ghost before = models(first@);
            first.push(entry);
            assert(models(first@) =~= before.push(entry@));
        } else {
            let ghost before = models(second@);
            second.push(entry);
            assert(models(second@) =~= before.push(entry@));
        }
        i += 1;
    }
    assert(all.take(entries.len() as int) =~= all);
    (sort_by_number(&first), sort_by_number(&second))
}

} // verus!
