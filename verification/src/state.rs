//! The state of an editing session: the buffers of its editors and of its
//! dialogs, by the id of the box that shows them.

use std::collections::HashMap;
use std::path::Path;
use vstd::prelude::*;

use crate::dialog::{DialogBuffer, FlexBoxId};
use crate::editor_buffer::{BufferModel, EditorBuffer};
use crate::unicode_string::{segments_of, texts_of, width_of, SegmentModel, UnicodeString};
use crate::units::Position;

verus! {

broadcast use vstd::std_specs::hash::group_hash_axioms;

/// The file extension that stands for a document whose own is not known.
pub const DEFAULT_SYN_HI_FILE_EXT: &'static str = "md";

/// The boxes of the editing session.
#[derive(Clone, Copy, Debug, PartialEq, Eq, Hash, Structural)]
pub enum Id {
    Editor,
    Dialog,
}

impl Id {
    pub open spec fn spec_flex_box_id(self) -> FlexBoxId {
        match self {
            Id::Editor => 0,
            Id::Dialog => 1,
        }
    }

    /// The id of the box.
    pub fn flex_box_id(self) -> (id: FlexBoxId)
        ensures
            id == self.spec_flex_box_id(),
    {
        match self {
            Id::Editor => 0,
            Id::Dialog => 1,
        }
    }
}

/// The buffers of an editing session.
#[derive(Clone, Debug, PartialEq)]
pub struct State {
    pub editor_buffers: HashMap<FlexBoxId, EditorBuffer>,
    pub dialog_buffers: HashMap<FlexBoxId, DialogBuffer>,
}

/// The index of the first line feed of a text, or the text's length where it
/// has none.
pub open spec fn first_line_feed(text: Seq<char>) -> int
    decreases text.len(),
{
    if text.len() == 0 || text[0] == '\n' {
        0
    } else {
        1 + first_line_feed(text.skip(1))
    }
}

/// A line without the carriage return at its end, if it has one.
pub open spec fn without_carriage_return(line: Seq<char>) -> Seq<char> {
    if line.len() > 0 && line.last() == '\r' {
        line.drop_last()
    } else {
        line
    }
}

/// The lines of a text. A line ends at a line feed, or at a carriage return
/// followed by a line feed; neither belongs to the line. What follows the
/// last line feed is a line too, unless it is empty.
pub open spec fn lines_of(text: Seq<char>) -> Seq<Seq<char>>
    decreases text.len(),
{
    if text.len() == 0 {
        Seq::empty()
    } else if 0 <= first_line_feed(text) < text.len() {
        seq![without_carriage_return(text.take(first_line_feed(text)))] + lines_of(
            text.skip(first_line_feed(text) + 1),
        )
    } else {
        seq![text]
    }
}

/// Calls `str::lines` and hands out each line as a `String`. Believed of it,
/// as std documents: the lines are split at line feeds, a carriage return in
/// front of a line feed goes with it, no line holds its line ending, and a
/// line ending at the end of the text starts no further line.
#[verifier::external_body]
fn split_lines(text: &str) -> (lines: Vec<String>)
    ensures
        texts_of(lines@) == lines_of(text@),
{
    text.lines().map(|line| line.to_string()).collect()
}

/// The extension that `std::path::Path::extension` finds in a path, where it
/// finds one and that one is valid Unicode. It goes by the text of the path
/// alone: nothing is read from disk or from the environment. What separates
/// the parts of a path is fixed with the platform that the library is built
/// for.
pub uninterp spec fn path_extension_of(path: Seq<char>) -> Option<Seq<char>>;

/// The text of a string that may be there.
pub open spec fn maybe_text(maybe: Option<String>) -> Option<Seq<char>> {
    match maybe {
        Some(text) => Some(text@),
        None => None,
    }
}

/// Calls `Path::extension` on a path and hands out the extension as a
/// `String`, where there is one that is valid Unicode. Believed of it: the
/// result is what `path_extension_of` names.
#[verifier::external_body]
fn path_extension(file_path: &str) -> (extension: Option<String>)
    ensures
        maybe_text(extension) == path_extension_of(file_path@),
{
    Path::new(file_path).extension().and_then(|extension| extension.to_str()).map(
        |extension| extension.to_string(),
    )
}

/// The extension to go by: the one given unless it is missing or empty, and
/// otherwise the default.
pub open spec fn extension_or_default_text(maybe_extension: Option<Seq<char>>) -> Seq<char> {
    match maybe_extension {
        Some(extension) => if extension.len() == 0 {
            DEFAULT_SYN_HI_FILE_EXT@
        } else {
            extension
        },
        None => DEFAULT_SYN_HI_FILE_EXT@,
    }
}

/// The extension to go by, given the extension of a path if it has one.
pub fn extension_or_default(maybe_extension: Option<String>) -> (extension: String)
    ensures
        extension@ == extension_or_default_text(maybe_text(maybe_extension)),
{
    match maybe_extension {
        Some(extension) => {
            if extension.as_str().unicode_len() == 0 {
                String::from_str(DEFAULT_SYN_HI_FILE_EXT)
            } else {
                extension
            }
        },
        None => String::from_str(DEFAULT_SYN_HI_FILE_EXT),
    }
}

/// The file extension to go by for a path that may be there: the extension
/// of the path, and the default where there is no path, the path has no
/// extension, or the extension is empty.
pub open spec fn file_extension_of(maybe_file_path: Option<String>) -> Seq<char> {
    extension_or_default_text(
        match maybe_file_path {
            Some(file_path) => path_extension_of(file_path@),
            None => None,
        },
    )
}

/// The file extension of a path, or the default where there is no path, the
/// path has no extension, or the extension is empty.
pub fn get_file_extension(maybe_file_path: &Option<String>) -> (extension: String)
    ensures
        extension@ == file_extension_of(*maybe_file_path),
{
    match maybe_file_path {
        Some(file_path) => extension_or_default(path_extension(file_path.as_str())),
        None => extension_or_default(None),
    }
}

/// The lines of a file's text, and no lines where the file gave no text.
pub open spec fn content_of(maybe_file_text: Option<String>) -> Seq<Seq<char>> {
    match maybe_file_text {
        Some(text) => lines_of(text@),
        None => Seq::<Seq<char>>::empty(),
    }
}

/// The lines of a file's text, and no lines where the file gave no text.
pub fn get_content(maybe_file_text: &Option<String>) -> (lines: Vec<String>)
    ensures
        texts_of(lines@) == content_of(*maybe_file_text),
{
    match maybe_file_text {
        Some(text) => split_lines(text.as_str()),
        None => {
            let lines: Vec<String> = Vec::new();
            assert(texts_of(lines@) =~= Seq::<Seq<char>>::empty());
            lines
        },
    }
}

/// Every text of a sequence can be held as a line: its width fits in a
/// `usize`.
pub open spec fn all_fit(texts: Seq<Seq<char>>) -> bool {
    forall|i: int| 0 <= i < texts.len() ==> width_of(segments_of(#[trigger] texts[i])) <= usize::MAX
}

/// Each text cut into its segments.
pub open spec fn all_segments_of(texts: Seq<Seq<char>>) -> Seq<Seq<SegmentModel>> {
    Seq::new(texts.len(), |i: int| segments_of(texts[i]))
}

/// The lines of a document from their texts. There are none where the width
/// of one does not fit in a `usize`.
pub fn lines_from_texts(texts: &Vec<String>) -> (r: Option<Vec<UnicodeString>>)
    ensures
        r is Some <==> all_fit(texts_of(texts@)),
        r matches Some(lines) ==> {
            &&& EditorBuffer::lines_model(lines@) == all_segments_of(texts_of(texts@))
            &&& forall|row: int| 0 <= row < lines@.len() ==> (#[trigger] lines@[row]).wf()
        },
{
    let mut lines: Vec<UnicodeString> = Vec::new();
    let mut i: usize = 0;
    while i < texts.len()
        invariant
            i <= texts.len(),
            lines.len() == i,
            forall|row: int|
                0 <= row < i ==> (#[trigger] lines@[row]).wf() && lines@[row]@ == segments_of(
                    texts@[row]@,
                ),
            forall|row: int|
                0 <= row < i ==> width_of(segments_of(#[trigger] texts_of(texts@)[row]))
                    <= usize::MAX,
        decreases texts.len() - i,
    {
        match UnicodeString::new(texts[i].as_str()) {
            Some(line) => {
                lines.push(line);
            },
            None => {
                assert(texts_of(texts@)[i as int] == texts@[i as int]@);
                return None;
            },
        }
        assert(texts_of(texts@)[i as int] == texts@[i as int]@);
        i += 1;
    }
    proof {
        assert(EditorBuffer::lines_model(lines@) =~= all_segments_of(texts_of(texts@)));
    }
    Some(lines)
}

/// The buffer of the editor of a session over a file: the file's extension,
/// or the default one, and the file's lines. The buffer is empty where a
/// line's width does not fit in a `usize`.
pub open spec fn editor_buffer_over(
    extension: Seq<char>,
    lines: Seq<Seq<char>>,
    buffer: BufferModel,
) -> bool {
    &&& buffer.file_extension == Some(extension)
    &&& buffer.caret == (Position { col_index: 0, row_index: 0 })
    &&& buffer.scroll_offset == (Position { col_index: 0, row_index: 0 })
    &&& buffer.selection.dom().len() == 0
    &&& buffer.lines == if all_fit(lines) && lines.len() > 0 {
        all_segments_of(lines)
    } else {
        seq![Seq::<SegmentModel>::empty()]
    }
}

fn create_hash_map_of_editor_buffers(
    maybe_file_path: &Option<String>,
    maybe_file_text: &Option<String>,
) -> (buffers: HashMap<FlexBoxId, EditorBuffer>)
    ensures
        buffers@.dom() == set![Id::Editor.spec_flex_box_id()],
        buffers@[Id::Editor.spec_flex_box_id()].wf(),
        editor_buffer_over(
            file_extension_of(*maybe_file_path),
            content_of(*maybe_file_text),
            buffers@[Id::Editor.spec_flex_box_id()]@,
        ),
{
    let extension = get_file_extension(maybe_file_path);
    let ghost extension_text = extension@;
    let mut editor_buffer = EditorBuffer::new_empty(Some(extension));
    let texts = get_content(maybe_file_text);
    match lines_from_texts(&texts) {
        Some(lines) => {
            editor_buffer.set_lines(lines);
        },
        None => {},
    }
    let mut buffers: HashMap<FlexBoxId, EditorBuffer> = HashMap::new();
    buffers.insert(Id::Editor.flex_box_id(), editor_buffer);
    proof {
        assert(buffers@.dom() =~= set![Id::Editor.spec_flex_box_id()]);
        assert(editor_buffer_over(
            extension_text,
            texts_of(texts@),
            buffers@[Id::Editor.spec_flex_box_id()]@,
        ));
    }
    buffers
}

/// The state of a session over a file, given the file's path and its text
/// where both are there: one editor buffer, no dialog buffer.
pub fn new(maybe_file_path: &Option<String>, maybe_file_text: &Option<String>) -> (state: State)
    ensures
        state.editor_buffers@.dom() == set![Id::Editor.spec_flex_box_id()],
        state.dialog_buffers@.dom() == Set::<FlexBoxId>::empty(),
        state.editor_buffers@[Id::Editor.spec_flex_box_id()].wf(),
        editor_buffer_over(
            file_extension_of(*maybe_file_path),
            content_of(*maybe_file_text),
            state.editor_buffers@[Id::Editor.spec_flex_box_id()]@,
        ),
{
    let state = State {
        editor_buffers: create_hash_map_of_editor_buffers(maybe_file_path, maybe_file_text),
        dialog_buffers: HashMap::new(),
    };
    proof {
        assert(state.dialog_buffers@.dom() =~= Set::<FlexBoxId>::empty());
    }
    state
}

impl State {
    /// Puts a buffer in for an editor, in place of the one it had.
    pub fn insert_editor_buffer(&mut self, id: FlexBoxId, buffer: EditorBuffer)
        ensures
            final(self).editor_buffers@ == old(self).editor_buffers@.insert(id, buffer),
            final(self).dialog_buffers@ == old(self).dialog_buffers@,
    {
        self.editor_buffers.insert(id, buffer);
    }

    /// Whether an editor has a buffer.
    pub fn contains_editor_buffer(&self, id: FlexBoxId) -> (contains: bool)
        ensures
            contains == self.editor_buffers@.contains_key(id),
    {
        self.editor_buffers.contains_key(&id)
    }

    /// The buffer of an editor, if it has one.
    pub fn get_editor_buffer(&self, id: FlexBoxId) -> (buffer: Option<&EditorBuffer>)
        ensures
            buffer is Some <==> self.editor_buffers@.contains_key(id),
            buffer matches Some(b) ==> *b == self.editor_buffers@[id],
    {
        self.editor_buffers.get(&id)
    }

    /// The buffer of a dialog, if it has one.
    pub fn get_dialog_buffer(&self, id: FlexBoxId) -> (buffer: Option<&DialogBuffer>)
        ensures
            buffer is Some <==> self.dialog_buffers@.contains_key(id),
            buffer matches Some(b) ==> *b == self.dialog_buffers@[id],
    {
        self.dialog_buffers.get(&id)
    }
}

impl Default for State {
    fn default() -> (state: State)
        ensures
            state.editor_buffers@.dom() == set![Id::Editor.spec_flex_box_id()],
            state.dialog_buffers@.dom() == Set::<FlexBoxId>::empty(),
            state.editor_buffers@[Id::Editor.spec_flex_box_id()].wf(),
            editor_buffer_over(
                DEFAULT_SYN_HI_FILE_EXT@,
                Seq::<Seq<char>>::empty(),
                state.editor_buffers@[Id::Editor.spec_flex_box_id()]@,
            ),
    {
        self::new(&None, &None)
    }
}

} // verus!
