//! The selection of a document: for each row that has one, the range of
//! display columns selected on it.

use std::collections::BTreeMap;
use vstd::prelude::*;
use vstd::std_specs::btree::increasing_seq;
use vstd::std_specs::cmp::OrdSpec;
use vstd::std_specs::iter::IteratorSpec;

use crate::selection_range::SelectionRange;
use crate::units::{decimal_text, usize_to_string, ChUnit};

verus! {

broadcast use vstd::std_specs::btree::group_btree_axioms;

/// The index of a row of the document.
pub type RowIndex = ChUnit;

/// Every range of the map selects something.
pub open spec fn all_valid(map: Map<RowIndex, SelectionRange>) -> bool {
    forall|row: RowIndex| #[trigger] map.contains_key(row) ==> map[row].is_valid()
}

/// The map with `range` on `row` if the range selects something, and
/// without an entry for `row` if it does not.
pub open spec fn with_range(
    map: Map<RowIndex, SelectionRange>,
    row: RowIndex,
    range: SelectionRange,
) -> Map<RowIndex, SelectionRange> {
    if range.is_valid() {
        map.insert(row, range)
    } else {
        map.remove(row)
    }
}

/// A listing of a map holds each of its entries once, by increasing row.
pub open spec fn is_listing_of(
    entries: Seq<(RowIndex, SelectionRange)>,
    map: Map<RowIndex, SelectionRange>,
) -> bool {
    &&& forall|i: int|
        0 <= i < entries.len() ==> map.contains_key((#[trigger] entries[i]).0) && map[entries[i].0]
            == entries[i].1
    &&& forall|row: RowIndex| #[trigger]
        map.contains_key(row) ==> exists|i: int|
            0 <= i < entries.len() && (#[trigger] entries[i]).0 == row
    &&& forall|i: int, j: int|
        0 <= i < j < entries.len() ==> (#[trigger] entries[i]).0 < (#[trigger] entries[j]).0
}

proof fn lemma_listing(
    map: BTreeMap<RowIndex, SelectionRange>,
    all: Seq<(&RowIndex, &SelectionRange)>,
    entries: Seq<(RowIndex, SelectionRange)>,
)
    requires
        all == map.iter().remaining(),
        increasing_seq(all.map_values(|kv: (&RowIndex, &SelectionRange)| *kv.0)),
        entries.len() == all.len(),
        forall|i: int| 0 <= i < entries.len() ==> (#[trigger] entries[i]) == (*all[i].0, *all[i].1),
    ensures
        is_listing_of(entries, map@),
{
    broadcast use vstd::std_specs::btree::axiom_spec_btree_map_iter;

    let keys = all.map_values(|kv: (&RowIndex, &SelectionRange)| *kv.0);
    assert(vstd::laws_cmp::obeys_cmp::<RowIndex>());
    assert forall|i: int, j: int| 0 <= i < j < entries.len() implies (#[trigger] entries[i]).0 < (
    #[trigger] entries[j]).0 by {
        assert(keys[i] == entries[i].0);
        assert(keys[j] == entries[j].0);
        assert(increasing_seq(keys));
        vstd::std_specs::btree::axiom_increasing_seq_meaning::<RowIndex>(keys);
        assert(keys[i].cmp_spec(&keys[j]) is Less);
        assert(keys[i] < keys[j]);
    }
    assert forall|row: RowIndex| #[trigger] map@.contains_key(row) implies exists|i: int|
        0 <= i < entries.len() && (#[trigger] entries[i]).0 == row by {
        assert(all.contains((&row, &map@[row])));
        let i = choose|i: int| 0 <= i < all.len() && all[i] == (&row, &map@[row]);
        assert(entries[i].0 == row);
    }
    assert forall|i: int| 0 <= i < entries.len() implies map@.contains_key(
        (#[trigger] entries[i]).0,
    ) && map@[entries[i].0] == entries[i].1 by {
        assert(map@.contains_key(*all[i].0));
        assert(map@[*all[i].0] == *all[i].1);
    }
}

/// How one entry of the map is written.
pub open spec fn entry_text(row: RowIndex, range: SelectionRange) -> Seq<char> {
    "✂️ ┆row: "@ + decimal_text(row as nat) + " => start: "@ + decimal_text(
        range.start_display_col_index as nat,
    ) + ", end: "@ + decimal_text(range.end_display_col_index as nat) + "┆"@
}

/// The entries of a listing written one after the other, with a comma and
/// a space between each two.
pub open spec fn entries_text(entries: Seq<(RowIndex, SelectionRange)>) -> Seq<char>
    decreases entries.len(),
{
    if entries.len() == 0 {
        Seq::empty()
    } else if entries.len() == 1 {
        entry_text(entries[0].0, entries[0].1)
    } else {
        entries_text(entries.drop_last()) + ", "@ + entry_text(
            entries.last().0,
            entries.last().1,
        )
    }
}

/// How a listing is written: its entries, or the word `None` if it has none.
pub open spec fn listing_text(entries: Seq<(RowIndex, SelectionRange)>) -> Seq<char> {
    if entries.len() == 0 {
        "None"@
    } else {
        entries_text(entries)
    }
}

fn entry_to_string(row: RowIndex, range: SelectionRange) -> (text: String)
    ensures
        text@ == entry_text(row, range),
{
    let mut text = String::from_str("✂️ ┆row: ");
    text.append(usize_to_string(row).as_str());
    text.append(" => start: ");
    text.append(usize_to_string(range.start_display_col_index).as_str());
    text.append(", end: ");
    text.append(usize_to_string(range.end_display_col_index).as_str());
    text.append("┆");
    text
}

/// The colours that the map's text is shown in.
#[derive(Clone, Copy, Debug, PartialEq, Eq, Hash, Structural)]
pub enum TextColor {
    White,
    Green,
    DarkGrey,
}

/// A text with the colours to show it in.
#[derive(Clone, Debug, PartialEq, Eq, Hash)]
pub struct StyledString {
    pub text: String,
    pub foreground: TextColor,
    pub background: TextColor,
}

/// Row by row, the selected range of display columns. A row without an entry
/// has no selection; no entry holds an empty range.
#[derive(Clone, Debug, PartialEq, Eq, Hash, Default)]
pub struct SelectionMap {
    map: BTreeMap<RowIndex, SelectionRange>,
}

impl View for SelectionMap {
    type V = Map<RowIndex, SelectionRange>;

    closed spec fn view(&self) -> Map<RowIndex, SelectionRange> {
        self.map@
    }
}

impl SelectionMap {
    /// The map's ranges all select something.
    pub open spec fn wf(&self) -> bool {
        all_valid(self@)
    }

    /// The map without entries.
    pub fn new() -> (map: SelectionMap)
        ensures
            map@ == Map::<RowIndex, SelectionRange>::empty(),
            map.wf(),
    {
        SelectionMap { map: BTreeMap::new() }
    }

    /// A copy of the map.
    pub fn duplicate(&self) -> (copy: SelectionMap)
        ensures
            copy@ == self@,
    {
        SelectionMap { map: self.map.clone() }
    }

    pub fn is_empty(&self) -> (empty: bool)
        ensures
            empty == (self@.dom().len() == 0),
    {
        self.map.is_empty()
    }

    /// Takes every entry out.
    pub fn clear(&mut self)
        ensures
            final(self)@ == Map::<RowIndex, SelectionRange>::empty(),
            final(self).wf(),
    {
        self.map.clear();
    }

    /// The entries of the map, in increasing order of row.
    pub fn iter(&self) -> (entries: Vec<(RowIndex, SelectionRange)>)
        ensures
            is_listing_of(entries@, self@),
    {
        let mut entries: Vec<(RowIndex, SelectionRange)> = Vec::new();
        let ghost all = self.map.iter().remaining();
        for entry in it: self.map.iter()
            invariant
                it.seq() == all,
                increasing_seq(all.map_values(|kv: (&RowIndex, &SelectionRange)| *kv.0)),
                entries@.len() == it.index(),
                forall|i: int|
                    0 <= i < entries@.len() ==> (#[trigger] entries@[i]) == (*all[i].0, *all[i].1),
        {
            entries.push((*entry.0, *entry.1));
        }
        proof {
            lemma_listing(self.map, all, entries@);
        }
        entries
    }

    /// The map as text: its entries by increasing row, or the word `None`.
    pub fn to_unformatted_string(&self) -> (text: String)
        ensures
            exists|entries: Seq<(RowIndex, SelectionRange)>|
                is_listing_of(entries, self@) && text@ == listing_text(entries),
    {
        let entries = self.iter();
        if entries.len() == 0 {
            let text = String::from_str("None");
            proof {
                assert(is_listing_of(entries@, self@) && text@ == listing_text(entries@));
            }
            return text;
        }
        let mut text = String::new();
        let mut i: usize = 0;
        while i < entries.len()
            invariant
                i <= entries.len(),
                text@ == entries_text(entries@.take(i as int)),
            decreases entries.len() - i,
        {
            proof {
                assert(entries@.take(i + 1).drop_last() =~= entries@.take(i as int));
                assert(entries@.take(i + 1).last() == entries@[i as int]);
                assert(entries@.take(i + 1)[0] == entries@[0]);
            }
            if i > 0 {
                text.append(", ");
            }
            text.append(entry_to_string(entries[i].0, entries[i].1).as_str());
            proof {
                if i == 0 {
                    assert(text@ =~= entry_text(entries@[0].0, entries@[0].1));
                }
            }
            i += 1;
        }
        proof {
            assert(entries@.take(entries@.len() as int) =~= entries@);
            assert(is_listing_of(entries@, self@) && text@ == listing_text(entries@));
        }
        text
    }

    /// The map as text with its colours: white on dark grey where nothing is
    /// selected, green on dark grey otherwise.
    pub fn to_formatted_string(&self) -> (styled: StyledString)
        ensures
            exists|entries: Seq<(RowIndex, SelectionRange)>|
                is_listing_of(entries, self@) && styled.text@ == listing_text(entries),
            styled.foreground == (if self@.dom().len() == 0 {
                TextColor::White
            } else {
                TextColor::Green
            }),
            styled.background == TextColor::DarkGrey,
    {
        let text = self.to_unformatted_string();
        let foreground = if self.is_empty() {
            TextColor::White
        } else {
            TextColor::Green
        };
        StyledString { text, foreground, background: TextColor::DarkGrey }
    }

    /// The range selected on a row, if there is one.
    pub fn get(&self, row_index: RowIndex) -> (range: Option<&SelectionRange>)
        ensures
            range is Some <==> self@.contains_key(row_index),
            range matches Some(r) ==> *r == self@[row_index],
    {
        self.map.get(&row_index)
    }

    /// Sets the range of a row. A range that selects nothing is not kept:
    /// the row is then left without an entry.
    pub fn insert(&mut self, row_index: RowIndex, selection_range: SelectionRange)
        ensures
            final(self)@ == with_range(old(self)@, row_index, selection_range),
            old(self).wf() ==> final(self).wf(),
    {
        if selection_range.start_display_col_index < selection_range.end_display_col_index {
            self.map.insert(row_index, selection_range);
        } else {
            self.map.remove(&row_index);
        }
    }

    /// Takes the entry of a row out and hands back the range it held.
    pub fn remove(&mut self, row_index: RowIndex) -> (range: Option<SelectionRange>)
        ensures
            final(self)@ == old(self)@.remove(row_index),
            range == (if old(self)@.contains_key(row_index) {
                Some(old(self)@[row_index])
            } else {
                None
            }),
            old(self).wf() ==> final(self).wf(),
    {
        self.map.remove(&row_index)
    }
}

} // verus!
