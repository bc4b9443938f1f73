//! One line of text as a sequence of grapheme segments, each with the number
//! of terminal columns it takes.

use unicode_segmentation::UnicodeSegmentation;
use unicode_width::UnicodeWidthStr;
use vstd::prelude::*;

use crate::units::ChUnit;

verus! {

/// What a grapheme segment is in contracts: its text and its width
/// in display columns.
pub struct SegmentModel {
    pub text: Seq<char>,
    pub width: nat,
}

/// The display width of a line: the widths of its segments, added up.
pub open spec fn width_of(line: Seq<SegmentModel>) -> nat
    decreases line.len(),
{
    if line.len() == 0 {
        0
    } else {
        width_of(line.drop_last()) + line.last().width
    }
}

/// The text of a line: the texts of its segments, one after the other.
pub open spec fn text_of(line: Seq<SegmentModel>) -> Seq<char>
    decreases line.len(),
{
    if line.len() == 0 {
        Seq::empty()
    } else {
        text_of(line.drop_last()) + line.last().text
    }
}

/// The display column at which segment `i` starts; for `i == line.len()`,
/// the column right of the last segment.
pub open spec fn col_of(line: Seq<SegmentModel>, i: int) -> nat {
    width_of(line.take(i))
}

/// The number of segments that end at or left of `col`. Below the line's
/// width this is the index of the segment that covers `col`; from the width
/// on it is the number of segments.
pub open spec fn index_at(line: Seq<SegmentModel>, col: int) -> int
    decreases line.len(),
{
    if line.len() == 0 || width_of(line) <= col {
        line.len() as int
    } else {
        index_at(line.drop_last(), col)
    }
}

/// A column is a boundary of a line when some segment starts there, or the
/// line ends there.
pub open spec fn is_boundary(line: Seq<SegmentModel>, col: int) -> bool {
    exists|i: int| 0 <= i <= line.len() && #[trigger] col_of(line, i) == col
}

/// The column a caret takes on a line when it arrives from another line at
/// `col`: the line's end if `col` lies at or beyond it, `col` itself on a
/// boundary, and inside a wide segment the nearer of the segment's two ends,
/// its right end where both are as near.
pub open spec fn snapped_col(line: Seq<SegmentModel>, col: int) -> int {
    let start = col_of(line, index_at(line, col)) as int;
    let end = col_of(line, index_at(line, col) + 1) as int;
    if width_of(line) <= col {
        width_of(line) as int
    } else if col - start < end - col {
        start
    } else {
        end
    }
}

pub proof fn lemma_width_of_concat(a: Seq<SegmentModel>, b: Seq<SegmentModel>)
    ensures
        width_of(a + b) == width_of(a) + width_of(b),
    decreases b.len(),
{
    if b.len() == 0 {
        assert(a + b =~= a);
    } else {
        assert((a + b).drop_last() =~= a + b.drop_last());
        assert((a + b).last() == b.last());
        lemma_width_of_concat(a, b.drop_last());
    }
}

pub proof fn lemma_width_of_single(segment: SegmentModel)
    ensures
        width_of(seq![segment]) == segment.width,
{
    assert(seq![segment].drop_last() =~= Seq::<SegmentModel>::empty());
    assert(width_of(seq![segment].drop_last()) == 0);
}

pub proof fn lemma_col_of_ends(line: Seq<SegmentModel>)
    ensures
        col_of(line, 0) == 0,
        col_of(line, line.len() as int) == width_of(line),
{
    assert(line.take(line.len() as int) =~= line);
}

pub proof fn lemma_col_of_step(line: Seq<SegmentModel>, i: int)
    requires
        0 <= i < line.len(),
    ensures
        col_of(line, i + 1) == col_of(line, i) + line[i].width,
{
    assert(line.take(i + 1).drop_last() =~= line.take(i));
    assert(line.take(i + 1).last() == line[i]);
}

pub proof fn lemma_col_of_monotone(line: Seq<SegmentModel>, i: int, j: int)
    requires
        0 <= i <= j <= line.len(),
    ensures
        col_of(line, i) <= col_of(line, j),
    decreases j - i,
{
    if i < j {
        lemma_col_of_monotone(line, i, j - 1);
        lemma_col_of_step(line, j - 1);
    }
}

/// What `index_at` finds: the one index whose segment starts at or left of
/// `col` and ends right of it, or the number of segments.
pub proof fn lemma_index_at_bounds(line: Seq<SegmentModel>, col: int)
    requires
        0 <= col,
    ensures
        0 <= index_at(line, col) <= line.len(),
        col_of(line, index_at(line, col)) <= col,
        index_at(line, col) < line.len() ==> col < col_of(line, index_at(line, col) + 1),
        index_at(line, col) == line.len() <==> width_of(line) <= col,
    decreases line.len(),
{
    lemma_col_of_ends(line);
    if line.len() == 0 || width_of(line) <= col {
    } else {
        let rest = line.drop_last();
        lemma_index_at_bounds(rest, col);
        let i = index_at(rest, col);
        assert(line.take(i) =~= rest.take(i));
        if i < rest.len() {
            assert(line.take(i + 1) =~= rest.take(i + 1));
        } else {
            assert(line.take(i + 1) =~= line);
        }
    }
}

pub proof fn lemma_index_at_unique(line: Seq<SegmentModel>, col: int, i: int)
    requires
        0 <= col,
        0 <= i <= line.len(),
        col_of(line, i) <= col,
        i < line.len() ==> col < col_of(line, i + 1),
    ensures
        index_at(line, col) == i,
{
    lemma_index_at_bounds(line, col);
    let k = index_at(line, col);
    if k < i {
        lemma_col_of_monotone(line, k + 1, i);
    } else if i < k {
        lemma_col_of_monotone(line, i + 1, k);
    }
}

/// On a boundary, `index_at` gives a segment that starts exactly there.
pub proof fn lemma_boundary_index(line: Seq<SegmentModel>, col: int)
    requires
        is_boundary(line, col),
    ensures
        0 <= col <= width_of(line),
        col_of(line, index_at(line, col)) == col,
{
    let j = choose|j: int| 0 <= j <= line.len() && #[trigger] col_of(line, j) == col;
    lemma_col_of_ends(line);
    lemma_col_of_monotone(line, j, line.len() as int);
    lemma_index_at_bounds(line, col);
    let k = index_at(line, col);
    if col_of(line, k) < col {
        if j <= k {
            lemma_col_of_monotone(line, j, k);
        } else {
            lemma_col_of_monotone(line, k + 1, j);
        }
    }
}

/// A snapped column is a boundary of the line, and a boundary snaps to
/// itself.
pub proof fn lemma_snapped_col_is_boundary(line: Seq<SegmentModel>, col: int)
    requires
        0 <= col,
    ensures
        is_boundary(line, snapped_col(line, col)),
        0 <= snapped_col(line, col) <= width_of(line),
        is_boundary(line, col) <==> snapped_col(line, col) == col,
{
    lemma_col_of_ends(line);
    lemma_index_at_bounds(line, col);
    let i = index_at(line, col);
    if is_boundary(line, col) {
        lemma_boundary_index(line, col);
    }
    if width_of(line) <= col {
        assert(col_of(line, line.len() as int) == snapped_col(line, col));
    } else {
        lemma_col_of_monotone(line, i + 1, line.len() as int);
        assert(col_of(line, i) == snapped_col(line, col) || col_of(line, i + 1) == snapped_col(
            line,
            col,
        ));
    }
}

/// The extended grapheme clusters of a text, in order, as the
/// `unicode-segmentation` crate cuts it.
pub uninterp spec fn grapheme_clusters(text: Seq<char>) -> Seq<Seq<char>>;

/// The number of terminal columns that a text takes, as the `unicode-width`
/// crate counts them.
pub uninterp spec fn display_width_of(text: Seq<char>) -> nat;

/// The texts of a sequence of strings.
pub open spec fn texts_of(parts: Seq<String>) -> Seq<Seq<char>> {
    parts.map_values(|p: String| p@)
}

/// Texts laid end to end.
pub open spec fn joined(parts: Seq<Seq<char>>) -> Seq<char>
    decreases parts.len(),
{
    if parts.len() == 0 {
        Seq::empty()
    } else {
        joined(parts.drop_last()) + parts.last()
    }
}

/// The segments that a text is cut into: its grapheme clusters, each with
/// its display width.
pub open spec fn segments_of(text: Seq<char>) -> Seq<SegmentModel> {
    Seq::new(
        grapheme_clusters(text).len(),
        |i: int|
            SegmentModel {
                text: grapheme_clusters(text)[i],
                width: display_width_of(grapheme_clusters(text)[i]),
            },
    )
}

/// Calls `UnicodeSegmentation::graphemes(text, true)` and hands out each
/// cluster as a `String`. Believed of it: the result is the clusters that
/// `grapheme_clusters` names, and, as the iterator yields consecutive slices
/// from the start of the text to its end, the clusters laid end to end are
/// the text.
#[verifier::external_body]
fn split_graphemes(text: &str) -> (parts: Vec<String>)
    ensures
        texts_of(parts@) == grapheme_clusters(text@),
        joined(texts_of(parts@)) == text@,
{
    UnicodeSegmentation::graphemes(text, true).map(|g| g.to_string()).collect()
}

/// Calls `UnicodeWidthStr::width(text)`. Believed of it: the result is the
/// number that `display_width_of` names.
#[verifier::external_body]
fn str_display_width(text: &str) -> (width: usize)
    ensures
        width == display_width_of(text@),
{
    UnicodeWidthStr::width(text)
}

/// One grapheme cluster of a line and the columns it takes.
#[derive(Clone, Debug, PartialEq, Eq, Hash)]
pub struct GraphemeClusterSegment {
    pub string: String,
    pub unicode_width: ChUnit,
}

impl View for GraphemeClusterSegment {
    type V = SegmentModel;

    open spec fn view(&self) -> SegmentModel {
        SegmentModel { text: self.string@, width: self.unicode_width as nat }
    }
}

/// The models of a sequence of segments.
pub open spec fn model_of(segments: Seq<GraphemeClusterSegment>) -> Seq<SegmentModel> {
    segments.map_values(|g: GraphemeClusterSegment| g@)
}

/// Where a segment lies in its line.
#[derive(Clone, Copy, Debug, PartialEq, Eq, Hash, Structural)]
pub struct SegmentLocation {
    /// The segment's index in the line.
    pub logical_index: usize,
    /// The display column at which the segment starts.
    pub display_col_offset: ChUnit,
    /// The number of columns the segment takes.
    pub unicode_width: ChUnit,
}

/// A line of text: grapheme segments in order. Its display width is the sum
/// of their widths and fits in a `usize`.
///
/// A text is cut into grapheme clusters when it comes into a line: in `new`,
/// and so for every text that is put into a buffer. A line is not cut anew
/// when segments are put into it or taken out of it, or when two lines are
/// made one. So each segment is a grapheme cluster of the text it came in
/// with, and the segments of a line need not be the grapheme clusters of the
/// line's whole text: a mark typed by itself after a letter is a segment of
/// its own, of no columns, behind the letter's. In return the segments on
/// both sides of a change keep their widths, every column that was a
/// boundary of what stays is one afterwards, and what is put in takes
/// exactly the columns that it would take alone.
#[derive(Clone, Debug, PartialEq, Eq, Hash)]
pub struct UnicodeString {
    segments: Vec<GraphemeClusterSegment>,
    display_width: ChUnit,
}

impl View for UnicodeString {
    type V = Seq<SegmentModel>;

    closed spec fn view(&self) -> Seq<SegmentModel> {
        model_of(self.segments@)
    }
}

impl UnicodeString {
    /// The stored width is the sum of the segments' widths. Nothing is asked
    /// of how the text is cut into the segments: they stay as they came in.
    pub closed spec fn wf(&self) -> bool {
        self.display_width == width_of(self@)
    }

    pub proof fn lemma_width_fits(&self)
        requires
            self.wf(),
        ensures
            width_of(self@) <= usize::MAX,
    {
    }

    /// The line without segments.
    pub fn empty() -> (line: UnicodeString)
        ensures
            line.wf(),
            line@ == Seq::<SegmentModel>::empty(),
    {
        let line = UnicodeString { segments: Vec::new(), display_width: 0 };
        assert(line@ =~= Seq::<SegmentModel>::empty());
        line
    }

    /// Makes a line of given segments. There is none when their widths add up
    /// beyond `usize::MAX`.
    pub fn from_segments(segments: Vec<GraphemeClusterSegment>) -> (r: Option<UnicodeString>)
        ensures
            r is Some <==> width_of(model_of(segments@)) <= usize::MAX,
            r matches Some(line) ==> line.wf() && line@ == model_of(segments@),
    {
        let ghost line = model_of(segments@);
        let mut total: usize = 0;
        let mut i: usize = 0;
        proof {
            lemma_col_of_ends(line);
        }
        while i < segments.len()
            invariant
                i <= segments.len(),
                line == model_of(segments@),
                total == col_of(line, i as int),
            decreases segments.len() - i,
        {
            proof {
                lemma_col_of_step(line, i as int);
                lemma_col_of_monotone(line, i + 1, line.len() as int);
                lemma_col_of_ends(line);
            }
            match total.checked_add(segments[i].unicode_width) {
                Some(t) => {
                    total = t;
                },
                None => {
                    return None;
                },
            }
            i += 1;
        }
        proof {
            lemma_col_of_ends(line);
        }
        Some(UnicodeString { segments, display_width: total })
    }

    /// Cuts a text into its grapheme clusters and measures each. There is no
    /// line when the widths add up beyond `usize::MAX`.
    pub fn new(text: &str) -> (r: Option<UnicodeString>)
        ensures
            r is Some <==> width_of(segments_of(text@)) <= usize::MAX,
            r matches Some(line) ==> line.wf() && line@ == segments_of(text@) && text_of(line@)
                == text@,
    {
        let parts = split_graphemes(text);
        let mut segments: Vec<GraphemeClusterSegment> = Vec::new();
        let mut i: usize = 0;
        while i < parts.len()
            invariant
                i <= parts.len(),
                segments.len() == i,
                texts_of(parts@) == grapheme_clusters(text@),
                forall|j: int|
                    0 <= j < i ==> (#[trigger] segments[j])@ == (SegmentModel {
                        text: parts[j]@,
                        width: display_width_of(parts[j]@),
                    }),
            decreases parts.len() - i,
        {
            let width = str_display_width(parts[i].as_str());
            segments.push(GraphemeClusterSegment { string: parts[i].clone(), unicode_width: width });
            i += 1;
        }
        proof {
            assert(model_of(segments@) =~= segments_of(text@)) by {
                assert forall|j: int| 0 <= j < segments.len() implies model_of(segments@)[j]
                    == segments_of(text@)[j] by {
                    assert(texts_of(parts@)[j] == parts[j]@);
                }
            }
            lemma_text_of_segments(segments_of(text@), texts_of(parts@));
        }
        UnicodeString::from_segments(segments)
    }

    /// The number of segments.
    pub fn len(&self) -> (n: usize)
        ensures
            n == self@.len(),
    {
        self.segments.len()
    }

    /// The segments, in order.
    pub fn get_segments(&self) -> (segments: &Vec<GraphemeClusterSegment>)
        ensures
            model_of(segments@) == self@,
    {
        &self.segments
    }

    /// The text of the segment that covers display column `col`. There is
    /// one exactly when `col` lies left of the line's end.
    pub fn get_string_at_display_col(&self, col: ChUnit) -> (r: Option<String>)
        requires
            self.wf(),
        ensures
            r is Some <==> col < width_of(self@),
            r matches Some(text) ==> text@ == self@[index_at(self@, col as int)].text,
    {
        match self.segment_at_display_col(col) {
            Some(at) => Some(self.segments[at.logical_index].string.clone()),
            None => None,
        }
    }

    /// The text of the segments from the start of the line that together
    /// take no more than `cols` columns.
    pub fn truncate_to_fit_display_cols(&self, cols: ChUnit) -> (text: String)
        requires
            self.wf(),
        ensures
            text@ == text_of(self@.take(index_at(self@, cols as int))),
    {
        let (count, _) = self.scan(cols);
        let mut text = String::new();
        let mut i: usize = 0;
        while i < count
            invariant
                i <= count <= self.segments.len(),
                text@ == text_of(self@.take(i as int)),
            decreases count - i,
        {
            proof {
                assert(self@.take(i + 1).drop_last() =~= self@.take(i as int));
                assert(self@.take(i + 1).last() == self@[i as int]);
            }
            text.append(self.segments[i].string.as_str());
            i += 1;
        }
        text
    }

    /// The number of display columns the line takes.
    pub fn display_width(&self) -> (w: ChUnit)
        requires
            self.wf(),
        ensures
            w == width_of(self@),
    {
        self.display_width
    }

    /// The line's text.
    pub fn get_string(&self) -> (text: String)
        ensures
            text@ == text_of(self@),
    {
        let mut text = String::new();
        let mut i: usize = 0;
        while i < self.segments.len()
            invariant
                i <= self.segments.len(),
                text@ == text_of(self@.take(i as int)),
            decreases self.segments.len() - i,
        {
            proof {
                assert(self@.take(i + 1).drop_last() =~= self@.take(i as int));
                assert(self@.take(i + 1).last() == self@[i as int]);
            }
            text.append(self.segments[i].string.as_str());
            i += 1;
        }
        proof {
            assert(self@.take(self@.len() as int) =~= self@);
        }
        text
    }

    /// Walks the segments that end at or left of `col`: their number and the
    /// column at which the next one starts.
    fn scan(&self, col: ChUnit) -> (r: (usize, ChUnit))
        requires
            self.wf(),
        ensures
            r.0 == index_at(self@, col as int),
            r.1 == col_of(self@, r.0 as int),
            r.0 <= self@.len(),
            r.1 <= col,
            r.0 < self@.len() ==> col < r.1 + self@[r.0 as int].width,
            r.0 == self@.len() <==> width_of(self@) <= col,
    {
        let mut i: usize = 0;
        let mut start: usize = 0;
        proof {
            lemma_col_of_ends(self@);
        }
        while i < self.segments.len() && self.segments[i].unicode_width <= col - start
            invariant
                i <= self.segments.len(),
                start == col_of(self@, i as int),
                start <= col,
            decreases self.segments.len() - i,
        {
            proof {
                lemma_col_of_step(self@, i as int);
            }
            start = start + self.segments[i].unicode_width;
            i += 1;
        }
        proof {
            if i < self.segments.len() {
                lemma_col_of_step(self@, i as int);
            }
            lemma_index_at_unique(self@, col as int, i as int);
            lemma_index_at_bounds(self@, col as int);
        }
        (i, start)
    }

    /// The segment that covers display column `col`. There is one exactly when
    /// `col` lies left of the line's end.
    pub fn segment_at_display_col(&self, col: ChUnit) -> (r: Option<SegmentLocation>)
        requires
            self.wf(),
        ensures
            r is Some <==> col < width_of(self@),
            r matches Some(at) ==> {
                &&& at.logical_index == index_at(self@, col as int)
                &&& at.logical_index < self@.len()
                &&& at.display_col_offset == col_of(self@, at.logical_index as int)
                &&& at.unicode_width == self@[at.logical_index as int].width
                &&& at.display_col_offset <= col < at.display_col_offset + at.unicode_width
                    <= width_of(self@)
            },
    {
        let (i, start) = self.scan(col);
        if i < self.segments.len() {
            proof {
                lemma_col_of_step(self@, i as int);
                lemma_col_of_monotone(self@, i + 1, self@.len() as int);
                lemma_col_of_ends(self@);
            }
            Some(
                SegmentLocation {
                    logical_index: i,
                    display_col_offset: start,
                    unicode_width: self.segments[i].unicode_width,
                },
            )
        } else {
            None
        }
    }

    /// The segment that covers the column left of `col`. There is one exactly
    /// when `col` is not 0 and lies at or left of the line's end.
    pub fn segment_left_of_display_col(&self, col: ChUnit) -> (r: Option<SegmentLocation>)
        requires
            self.wf(),
        ensures
            r is Some <==> 0 < col <= width_of(self@),
            r matches Some(at) ==> {
                &&& at.logical_index == index_at(self@, col - 1)
                &&& at.logical_index < self@.len()
                &&& at.display_col_offset == col_of(self@, at.logical_index as int)
                &&& at.unicode_width == self@[at.logical_index as int].width
                &&& at.display_col_offset < col <= at.display_col_offset + at.unicode_width
                    <= width_of(self@)
            },
    {
        if col == 0 {
            None
        } else {
            self.segment_at_display_col(col - 1)
        }
    }

    /// The display column at which segment `i` starts, and for the number of
    /// segments the line's end. There is none for a larger `i`.
    pub fn display_col_at_logical_index(&self, i: usize) -> (r: Option<ChUnit>)
        requires
            self.wf(),
        ensures
            r is Some <==> i <= self@.len(),
            r matches Some(col) ==> col == col_of(self@, i as int),
    {
        if i > self.segments.len() {
            return None;
        }
        let mut k: usize = 0;
        let mut start: usize = 0;
        proof {
            lemma_col_of_ends(self@);
        }
        while k < i
            invariant
                k <= i <= self.segments.len(),
                self.wf(),
                start == col_of(self@, k as int),
            decreases i - k,
        {
            proof {
                lemma_col_of_step(self@, k as int);
                lemma_col_of_monotone(self@, k + 1, self@.len() as int);
                lemma_col_of_ends(self@);
            }
            start = start + self.segments[k].unicode_width;
            k += 1;
        }
        Some(start)
    }

    /// The column a caret takes on this line when it arrives at `col`.
    pub fn snap_display_col(&self, col: ChUnit) -> (snapped: ChUnit)
        requires
            self.wf(),
        ensures
            snapped == snapped_col(self@, col as int),
            is_boundary(self@, snapped as int),
    {
        proof {
            lemma_snapped_col_is_boundary(self@, col as int);
        }
        match self.segment_at_display_col(col) {
            None => self.display_width,
            Some(at) => {
                proof {
                    lemma_col_of_step(self@, at.logical_index as int);
                }
                if col - at.display_col_offset < at.unicode_width - (col - at.display_col_offset) {
                    at.display_col_offset
                } else {
                    at.display_col_offset + at.unicode_width
                }
            },
        }
    }

    /// Puts the segments of `chunk` in front of the segment that covers `col`,
    /// or at the end when `col` lies at or beyond the line's end.
    pub fn insert_at_display_col(&mut self, col: ChUnit, chunk: UnicodeString)
        requires
            old(self).wf(),
            chunk.wf(),
            width_of(old(self)@) + width_of(chunk@) <= usize::MAX,
        ensures
            final(self).wf(),
            final(self)@ == old(self)@.take(index_at(old(self)@, col as int)) + chunk@ + old(self)@.skip(
                index_at(old(self)@, col as int),
            ),
    {
        let (i, _start) = self.scan(col);
        let ghost before = self@;
        let ghost added = chunk@;
        let mut chunk = chunk;
        let mut tail = self.segments.split_off(i);
        self.segments.append(&mut chunk.segments);
        self.segments.append(&mut tail);
        self.display_width = self.display_width + chunk.display_width;
        proof {
            let i = i as int;
            assert(self@ =~= before.take(i) + added + before.skip(i));
            assert(before =~= before.take(i) + before.skip(i));
            lemma_width_of_concat(before.take(i), before.skip(i));
            lemma_width_of_concat(before.take(i), added);
            lemma_width_of_concat(before.take(i) + added, before.skip(i));
        }
    }

    /// Takes segment `i` out of the line.
    pub fn remove_segment(&mut self, i: usize)
        requires
            old(self).wf(),
            i < old(self)@.len(),
        ensures
            final(self).wf(),
            final(self)@ == old(self)@.remove(i as int),
    {
        let ghost before = self@;
        let removed = self.segments.remove(i);
        proof {
            let i = i as int;
            assert(self@ =~= before.remove(i));
            assert(before =~= before.take(i) + seq![before[i]] + before.skip(i + 1));
            assert(before.remove(i) =~= before.take(i) + before.skip(i + 1));
            lemma_width_of_concat(before.take(i), seq![before[i]]);
            lemma_width_of_concat(before.take(i) + seq![before[i]], before.skip(i + 1));
            lemma_width_of_concat(before.take(i), before.skip(i + 1));
            lemma_width_of_single(before[i]);
            assert(removed@ == before[i]);
        }
        self.display_width = self.display_width - removed.unicode_width;
    }

    /// Cuts the line in two in front of the segment that covers `col`: the
    /// line keeps what lies left of the cut, the rest is handed out.
    pub fn split_at_display_col(&mut self, col: ChUnit) -> (rest: UnicodeString)
        requires
            old(self).wf(),
        ensures
            final(self).wf(),
            rest.wf(),
            final(self)@ == old(self)@.take(index_at(old(self)@, col as int)),
            rest@ == old(self)@.skip(index_at(old(self)@, col as int)),
    {
        let (i, start) = self.scan(col);
        let ghost before = self@;
        proof {
            lemma_col_of_monotone(before, i as int, before.len() as int);
            lemma_col_of_ends(before);
        }
        let tail = self.segments.split_off(i);
        let rest = UnicodeString { segments: tail, display_width: self.display_width - start };
        self.display_width = start;
        proof {
            let i = i as int;
            assert(self@ =~= before.take(i));
            assert(rest@ =~= before.skip(i));
            assert(before =~= before.take(i) + before.skip(i));
            lemma_width_of_concat(before.take(i), before.skip(i));
        }
        rest
    }

    /// Puts the segments of `other` behind those of the line.
    pub fn append(&mut self, other: UnicodeString)
        requires
            old(self).wf(),
            other.wf(),
            width_of(old(self)@) + width_of(other@) <= usize::MAX,
        ensures
            final(self).wf(),
            final(self)@ == old(self)@ + other@,
    {
        let ghost before = self@;
        let ghost added = other@;
        let mut other = other;
        self.segments.append(&mut other.segments);
        self.display_width = self.display_width + other.display_width;
        proof {
            assert(self@ =~= before + added);
            lemma_width_of_concat(before, added);
        }
    }

    /// A copy of the line.
    pub fn duplicate(&self) -> (copy: UnicodeString)
        requires
            self.wf(),
        ensures
            copy.wf(),
            copy@ == self@,
    {
        let mut segments: Vec<GraphemeClusterSegment> = Vec::new();
        let mut i: usize = 0;
        while i < self.segments.len()
            invariant
                i <= self.segments.len(),
                segments.len() == i,
                forall|j: int| 0 <= j < i ==> (#[trigger] segments[j])@ == self.segments[j]@,
            decreases self.segments.len() - i,
        {
            segments.push(
                GraphemeClusterSegment {
                    string: self.segments[i].string.clone(),
                    unicode_width: self.segments[i].unicode_width,
                },
            );
            i += 1;
        }
        let copy = UnicodeString { segments, display_width: self.display_width };
        proof {
            assert(copy@ =~= self@);
        }
        copy
    }
}

impl Default for UnicodeString {
    fn default() -> (line: UnicodeString)
        ensures
            line.wf(),
            line@ == Seq::<SegmentModel>::empty(),
    {
        UnicodeString::empty()
    }
}

/// The text of segments is their texts laid end to end.
proof fn lemma_text_of_segments(line: Seq<SegmentModel>, parts: Seq<Seq<char>>)
    requires
        line.len() == parts.len(),
        forall|i: int| 0 <= i < line.len() ==> (#[trigger] line[i]).text == parts[i],
    ensures
        text_of(line) == joined(parts),
    decreases line.len(),
{
    if line.len() > 0 {
        lemma_text_of_segments(line.drop_last(), parts.drop_last());
    }
}

} // verus!
