use vstd::prelude::*;
use vstd::utf8::{decode_utf8, encode_utf8, encode_utf8_decode_utf8, encode_utf8_valid_utf8, is_char_boundary, is_char_boundary_iff_not_is_continuation_byte, is_char_boundary_start_end_of_seq, valid_utf8, valid_utf8_split};
use vstd::seq_lib::lemma_flatten_concat;

use core::ops::Range;

use unicode_segmentation::UnicodeSegmentation;

use crate::text::{chars_of, concat, is_space, is_whitespace, string_of};

verus! {

broadcast use vstd::utf8::encode_utf8_valid_utf8, vstd::slice::group_slice_axioms;

/// The UTF-8 encoding of two texts one after the other is the two encodings
/// one after the other.
pub proof fn lemma_utf8_concat(a: Seq<char>, b: Seq<char>)
    ensures
        encode_utf8(a + b) == encode_utf8(a) + encode_utf8(b),
    decreases a.len(),
{
    if a.len() == 0 {
        assert(a + b =~= b);
        assert(encode_utf8(a) =~= Seq::<u8>::empty());
        assert(encode_utf8(a) + encode_utf8(b) =~= encode_utf8(b));
    } else {
        lemma_utf8_concat(a.drop_first(), b);
        assert((a + b).drop_first() =~= a.drop_first() + b);
        assert((a + b)[0] == a[0]);
        assert(encode_utf8(a + b) =~= vstd::utf8::encode_scalar(a[0] as u32) + (encode_utf8(
            a.drop_first(),
        ) + encode_utf8(b)));
    }
}

/// Where one text ends and the next begins is a character boundary of the
/// encoding of both.
pub proof fn lemma_concat_boundary(a: Seq<char>, b: Seq<char>)
    ensures
        is_char_boundary(encode_utf8(a + b), encode_utf8(a).len() as int),
{
    lemma_utf8_concat(a, b);
    let whole = encode_utf8(a + b);
    let head = encode_utf8(a);
    let tail = encode_utf8(b);
    is_char_boundary_start_end_of_seq(whole);
    if tail.len() > 0 {
        is_char_boundary_start_end_of_seq(tail);
        is_char_boundary_iff_not_is_continuation_byte(tail, 0);
        assert(whole[head.len() as int] == tail[0]);
        is_char_boundary_iff_not_is_continuation_byte(whole, head.len() as int);
    } else {
        assert(whole.len() == head.len());
    }
}

/// The characters whose encoding is the first `at` bytes of the text's.
pub open spec fn prefix_chars(s: Seq<char>, at: int) -> Seq<char> {
    decode_utf8(encode_utf8(s).subrange(0, at))
}

/// The characters whose encoding follows the first `at` bytes of the text's.
pub open spec fn suffix_chars(s: Seq<char>, at: int) -> Seq<char> {
    decode_utf8(encode_utf8(s).subrange(at, encode_utf8(s).len() as int))
}

/// The number of bytes of the text's UTF-8 form.
pub open spec fn utf8_len(s: Seq<char>) -> nat {
    encode_utf8(s).len()
}

/// Whether a byte offset falls between two characters of the text (or at
/// either end).
pub open spec fn valid_offset(s: Seq<char>, offset: int) -> bool {
    is_char_boundary(encode_utf8(s), offset)
}

/// The length of the text in bytes.
pub fn byte_length(s: &str) -> (n: usize)
    ensures
        n == utf8_len(s@),
{
    s.as_bytes().len()
}

/// Splits a text at a character boundary.
pub fn split_text(s: &str, at: usize) -> (r: (&str, &str))
    requires
        valid_offset(s@, at as int),
    ensures
        r.0@ == prefix_chars(s@, at as int),
        r.1@ == suffix_chars(s@, at as int),
        s@ == r.0@ + r.1@,
        utf8_len(r.0@) == at,
{
    let r = s.split_at(at);
    proof {
        encode_utf8_decode_utf8(r.0@);
        encode_utf8_decode_utf8(r.1@);
        encode_utf8_decode_utf8(s@);
        encode_utf8_decode_utf8(r.0@ + r.1@);
        lemma_utf8_concat(r.0@, r.1@);
        let bytes = encode_utf8(s@);
        assert(bytes.subrange(0, at as int) + bytes.subrange(at as int, bytes.len() as int) =~= bytes);
    }
    r
}

/// The extended grapheme clusters of a text, in order, as unicode-segmentation
/// splits it (`graphemes(true)`).
pub uninterp spec fn grapheme_clusters(s: Seq<char>) -> Seq<Seq<char>>;

/// The byte offset at which cluster `i` starts.
pub open spec fn cluster_offset(clusters: Seq<Seq<char>>, i: int) -> nat {
    utf8_len(clusters.take(i).flatten())
}

/// The texts of the clusters of a list of clusters and offsets.
pub open spec fn cluster_texts(entries: Seq<(usize, String)>) -> Seq<Seq<char>> {
    entries.map_values(|e: (usize, String)| e.1@)
}

/// The grapheme clusters of the text with the byte offset of each
/// (unicode-segmentation's `grapheme_indices(true)`). The crate hands out
/// consecutive non-empty slices of the text, so the clusters joined give the
/// text back.
#[verifier::external_body]
fn grapheme_indices(s: &str) -> (r: Vec<(usize, String)>)
    ensures
        r@.len() == grapheme_clusters(s@).len(),
        forall|i: int|
            0 <= i < r@.len() ==> (#[trigger] r@[i]).1@ == grapheme_clusters(s@)[i] && r@[i].0
                == cluster_offset(grapheme_clusters(s@), i),
        cluster_texts(r@).flatten() == s@,
        forall|i: int| 0 <= i < r@.len() ==> (#[trigger] r@[i]).1@.len() > 0,
{
    s.grapheme_indices(true).map(|(i, g)| (i, g.to_owned())).collect()
}

/// Whether std counts the character as alphabetic or numeric.
pub uninterp spec fn alphanumeric(c: char) -> bool;

/// Whether the character is alphabetic or numeric (std's
/// `char::is_alphanumeric`); its result is named, not stated.
#[verifier::external_body]
fn is_alphanumeric(c: char) -> (r: bool)
    ensures
        r == alphanumeric(c),
{
    c.is_alphanumeric()
}

/// A cluster that belongs to a word: letters, digits and underscores only.
pub open spec fn word_cluster(cluster: Seq<char>) -> bool {
    forall|i: int| 0 <= i < cluster.len() ==> alphanumeric(#[trigger] cluster[i]) || cluster[i] == '_'
}

/// A cluster of white space only.
pub open spec fn space_cluster(cluster: Seq<char>) -> bool {
    forall|i: int| 0 <= i < cluster.len() ==> is_space(#[trigger] cluster[i])
}

/// Whether a grapheme cluster belongs to a word.
pub fn is_word(grapheme: &str) -> (r: bool)
    ensures
        r == word_cluster(grapheme@),
{
    let chars = chars_of(grapheme);
    let mut i: usize = 0;
    while i < chars.len()
        invariant
            chars@ == grapheme@,
            i <= chars@.len(),
            forall|j: int| 0 <= j < i ==> alphanumeric(#[trigger] chars@[j]) || chars@[j] == '_',
        decreases chars@.len() - i,
    {
        let c = chars[i];
        if !(is_alphanumeric(c) || c == '_') {
            return false;
        }
        i += 1;
    }
    true
}

fn is_space_cluster(cluster: &str) -> (r: bool)
    ensures
        r == space_cluster(cluster@),
{
    let chars = chars_of(cluster);
    let mut i: usize = 0;
    while i < chars.len()
        invariant
            chars@ == cluster@,
            i <= chars@.len(),
            forall|j: int| 0 <= j < i ==> is_space(#[trigger] chars@[j]),
        decreases chars@.len() - i,
    {
        if !is_whitespace(chars[i]) {
            return false;
        }
        i += 1;
    }
    true
}

/// Splitting a list of clusters at `i`.
proof fn lemma_flatten_split(clusters: Seq<Seq<char>>, i: int)
    requires
        0 <= i <= clusters.len(),
    ensures
        clusters.flatten() == clusters.take(i).flatten() + clusters.skip(i).flatten(),
{
    lemma_flatten_concat(clusters.take(i), clusters.skip(i));
    assert(clusters.take(i) + clusters.skip(i) =~= clusters);
}

/// Cluster `i` of a text placed between `before` and `after` starts on a
/// character boundary of the whole.
proof fn lemma_cluster_boundary(
    before: Seq<char>,
    clusters: Seq<Seq<char>>,
    after: Seq<char>,
    i: int,
)
    requires
        0 <= i <= clusters.len(),
    ensures
        valid_offset(before + clusters.flatten() + after, (utf8_len(before) + cluster_offset(clusters, i)) as int),
        utf8_len(before) + cluster_offset(clusters, i) <= utf8_len(before + clusters.flatten()),
{
    lemma_flatten_split(clusters, i);
    let a = before + clusters.take(i).flatten();
    let b = clusters.skip(i).flatten() + after;
    assert(before + clusters.flatten() + after =~= a + b);
    lemma_concat_boundary(a, b);
    lemma_utf8_concat(before, clusters.take(i).flatten());
    lemma_utf8_concat(a, clusters.skip(i).flatten());
    assert(before + clusters.flatten() =~= a + clusters.skip(i).flatten());
}

/// The grapheme clusters of a text, each with its byte offset.
fn clusters_of(s: &str) -> (r: Vec<(usize, String)>)
    ensures
        cluster_texts(r@) == grapheme_clusters(s@),
        grapheme_clusters(s@).flatten() == s@,
        forall|i: int|
            0 <= i < r@.len() ==> (#[trigger] r@[i]).0 == cluster_offset(grapheme_clusters(s@), i),
        forall|i: int|
            0 <= i < grapheme_clusters(s@).len() ==> (#[trigger] grapheme_clusters(s@)[i]).len()
                > 0,
{
    let r = grapheme_indices(s);
    assert(cluster_texts(r@) =~= grapheme_clusters(s@));
    proof {
        assert forall|i: int| 0 <= i < grapheme_clusters(s@).len() implies (
        #[trigger] grapheme_clusters(s@)[i]).len() > 0 by {
            assert(r@[i].1@.len() > 0);
        }
    }
    r
}

/// The byte offset of the last cluster that starts before `offset`, among the
/// first `n` clusters, or zero.
pub open spec fn last_offset_below(clusters: Seq<Seq<char>>, n: int, offset: int) -> int
    decreases n,
{
    if n <= 0 {
        0
    } else if cluster_offset(clusters, n - 1) < offset {
        cluster_offset(clusters, n - 1) as int
    } else {
        last_offset_below(clusters, n - 1, offset)
    }
}

/// The byte offset of the first cluster from `i` on that starts after
/// `offset`, or `end`.
pub open spec fn first_offset_above(clusters: Seq<Seq<char>>, i: int, offset: int, end: int) -> int
    decreases clusters.len() - i,
{
    if i < 0 || i >= clusters.len() {
        end
    } else if cluster_offset(clusters, i) > offset {
        cluster_offset(clusters, i) as int
    } else {
        first_offset_above(clusters, i + 1, offset, end)
    }
}

/// Where the cursor lands moving one grapheme left of `offset`.
pub open spec fn previous_boundary_of(text: Seq<char>, offset: int) -> int {
    last_offset_below(grapheme_clusters(text), grapheme_clusters(text).len() as int, offset)
}

/// Where the cursor lands moving one grapheme right of `offset`.
pub open spec fn next_boundary_of(text: Seq<char>, offset: int) -> int {
    first_offset_above(grapheme_clusters(text), 0, offset, utf8_len(text) as int)
}

/// What the editor hands on when the user submits: the text.
pub struct Submit {
    pub text: String,
}

/// The notice an edit hands on to those that follow the editor's text: each
/// call that emits one returns it once.
#[derive(Clone, Copy, Debug)]
pub struct Changed;

/// The prompt editor's state: its text, and the selection as byte offsets
/// into it (the cursor at one end).
#[derive(Debug, PartialEq)]
pub struct TextEditor {
    pub content: String,
    pub placeholder: String,
    pub selected_range: Range<usize>,
    pub selection_reversed: bool,
    pub marked_range: Option<Range<usize>>,
    pub visible_lines: usize,
    pub is_selecting: bool,
    pub clear_on_submit: bool,
}

pub struct EditorView {
    pub content: Seq<char>,
    pub placeholder: Seq<char>,
    pub start: usize,
    pub end: usize,
    pub reversed: bool,
    pub marked: Option<(usize, usize)>,
    pub visible_lines: usize,
    pub selecting: bool,
    pub clear_on_submit: bool,
}

impl View for TextEditor {
    type V = EditorView;

    open spec fn view(&self) -> EditorView {
        EditorView {
            content: self.content@,
            placeholder: self.placeholder@,
            start: self.selected_range.start,
            end: self.selected_range.end,
            reversed: self.selection_reversed,
            marked: match self.marked_range {
                Some(r) => Some((r.start, r.end)),
                None => None,
            },
            visible_lines: self.visible_lines,
            selecting: self.is_selecting,
            clear_on_submit: self.clear_on_submit,
        }
    }
}

impl EditorView {
    /// The selection runs forward between two character boundaries.
    pub open spec fn wf(self) -> bool {
        &&& self.start <= self.end
        &&& valid_offset(self.content, self.start as int)
        &&& valid_offset(self.content, self.end as int)
        &&& match self.marked {
            Some((a, b)) => a <= b && valid_offset(self.content, a as int) && valid_offset(
                self.content,
                b as int,
            ),
            None => true,
        }
    }

    /// The range that typed text replaces: the text being composed, if
    /// any, else the selection.
    pub open spec fn edit_range(self) -> (usize, usize) {
        match self.marked {
            Some(r) => r,
            None => (self.start, self.end),
        }
    }

    /// The editor after `text` replaced the edit range, with the cursor after it.
    pub open spec fn typed(self, text: Seq<char>) -> Self {
        let (a, b) = self.edit_range();
        EditorView {
            content: prefix_chars(self.content, a as int) + text + suffix_chars(self.content, b as int),
            start: (a + utf8_len(text)) as usize,
            end: (a + utf8_len(text)) as usize,
            marked: None,
            ..self
        }
    }

    /// The selected text.
    pub open spec fn selected_text(self) -> Seq<char> {
        decode_utf8(encode_utf8(self.content).subrange(self.start as int, self.end as int))
    }

    /// The end of the selection the cursor is at.
    pub open spec fn cursor(self) -> usize {
        if self.reversed {
            self.start
        } else {
            self.end
        }
    }

    /// The selection collapsed to a cursor at `offset`.
    pub open spec fn moved_to(self, offset: usize) -> Self {
        EditorView { start: offset, end: offset, reversed: false, ..self }
    }

    /// The selection extended or shrunk by moving its cursor end to `offset`;
    /// it turns around when the cursor passes the other end.
    pub open spec fn selected_to(self, offset: usize) -> Self {
        let start = if self.reversed {
            offset
        } else {
            self.start
        };
        let end = if self.reversed {
            self.end
        } else {
            offset
        };
        if end < start {
            EditorView { start: end, end: start, reversed: !self.reversed, ..self }
        } else {
            EditorView { start, end, ..self }
        }
    }

    /// The editor emptied.
    pub open spec fn cleared(self) -> Self {
        EditorView { content: Seq::empty(), start: 0, end: 0, marked: None, ..self }
    }

    /// The editor holding `text`, with the cursor at its end.
    pub open spec fn restored(self, text: Seq<char>) -> Self {
        EditorView {
            content: text,
            start: utf8_len(text) as usize,
            end: utf8_len(text) as usize,
            reversed: false,
            marked: None,
            ..self
        }
    }
}

/// The text with each CR LF pair, and each CR left alone, turned into LF.
pub open spec fn unix_newlines(s: Seq<char>) -> Seq<char>
    decreases s.len(),
{
    if s.len() == 0 {
        s
    } else if s[0] == '\r' && s.len() > 1 && s[1] == '\n' {
        seq!['\n'] + unix_newlines(s.subrange(2, s.len() as int))
    } else if s[0] == '\r' {
        seq!['\n'] + unix_newlines(s.drop_first())
    } else {
        seq![s[0]] + unix_newlines(s.drop_first())
    }
}

/// Turns Windows and old Mac line ends into `\n`.
pub fn normalize_newlines(text: &str) -> (r: String)
    ensures
        r@ == unix_newlines(text@),
{
    let chars = chars_of(text);
    let ghost s = text@;
    let mut out: Vec<char> = Vec::new();
    let mut i: usize = 0;
    assert(out@ + unix_newlines(s.subrange(0, s.len() as int)) =~= unix_newlines(s)) by {
        assert(s.subrange(0, s.len() as int) =~= s);
    }
    while i < chars.len()
        invariant
            chars@ == s,
            i <= s.len(),
            out@ + unix_newlines(s.subrange(i as int, s.len() as int)) == unix_newlines(s),
        decreases s.len() - i,
    {
        let ghost rest = s.subrange(i as int, s.len() as int);
        let ghost before = out@;
        assert(rest[0] == s[i as int]);
        if chars[i] == '\r' && i + 1 < chars.len() && chars[i + 1] == '\n' {
            assert(rest[1] == s[i + 1]);
            assert(rest.subrange(2, rest.len() as int) =~= s.subrange(i + 2, s.len() as int));
            out.push('\n');
            assert(out@ + unix_newlines(s.subrange(i + 2, s.len() as int)) =~= before + (seq!['\n'] + unix_newlines(rest.subrange(2, rest.len() as int))));
            i += 2;
        } else {
            assert(rest.drop_first() =~= s.subrange(i + 1, s.len() as int));
            let c = if chars[i] == '\r' {
                '\n'
            } else {
                chars[i]
            };
            out.push(c);
            assert(out@ + unix_newlines(s.subrange(i + 1, s.len() as int)) =~= before + (seq![c] + unix_newlines(rest.drop_first())));
            i += 1;
        }
    }
    assert(s.subrange(i as int, s.len() as int) =~= Seq::<char>::empty());
    assert(out@ + Seq::<char>::empty() =~= out@);
    string_of(&out)
}

/// Within the first `end` bytes of a text, a character boundary of the
/// whole text is one of the part too.
proof fn lemma_boundary_in_prefix(bytes: Seq<u8>, at: int, end: int)
    requires
        valid_utf8(bytes),
        0 <= at <= end <= bytes.len(),
        is_char_boundary(bytes, at),
        is_char_boundary(bytes, end),
    ensures
        valid_utf8(bytes.subrange(0, end)),
        is_char_boundary(bytes.subrange(0, end), at),
{
    valid_utf8_split(bytes, end);
    let head = bytes.subrange(0, end);
    is_char_boundary_start_end_of_seq(head);
    if at < end {
        is_char_boundary_iff_not_is_continuation_byte(bytes, at);
        is_char_boundary_iff_not_is_continuation_byte(head, at);
        assert(head[at] == bytes[at]);
    }
}

impl TextEditor {
    pub fn new(placeholder: &str) -> (r: TextEditor)
        ensures
            r@ == (EditorView {
                content: Seq::empty(),
                placeholder: placeholder@,
                start: 0,
                end: 0,
                reversed: false,
                marked: None,
                visible_lines: 1,
                selecting: false,
                clear_on_submit: true,
            }),
            r@.wf(),
    {
        proof {
            is_char_boundary_start_end_of_seq(encode_utf8(Seq::<char>::empty()));
        }
        TextEditor {
            content: String::new(),
            placeholder: placeholder.to_owned(),
            selected_range: 0..0,
            selection_reversed: false,
            marked_range: None,
            visible_lines: 1,
            is_selecting: false,
            clear_on_submit: true,
        }
    }

    pub fn text(&self) -> (r: &str)
        ensures
            r@ == self@.content,
    {
        self.content.as_str()
    }

    /// Empties the editor.
    pub fn clear(&mut self) -> (r: Changed)
        ensures
            final(self)@ == old(self)@.cleared(),
            final(self)@.wf(),
    {
        self.content = String::new();
        self.selected_range = 0..0;
        self.marked_range = None;
        proof {
            is_char_boundary_start_end_of_seq(encode_utf8(Seq::<char>::empty()));
        }
        Changed
    }

    /// The editor keeps its text when it is submitted.
    pub fn preserve_on_submit(self) -> (r: Self)
        ensures
            r@ == (EditorView { clear_on_submit: false, ..self@ }),
    {
        let mut editor = self;
        editor.clear_on_submit = false;
        editor
    }

    /// Submits the text: returns it, and empties the editor unless it keeps
    /// its text on submit, with the change notice that emptying hands on.
    pub fn submit(&mut self) -> (r: (Submit, Option<Changed>))
        ensures
            r.0.text@ == old(self)@.content,
            r.1 is Some == old(self)@.clear_on_submit,
            final(self)@ == (if old(self)@.clear_on_submit {
                old(self)@.cleared()
            } else {
                old(self)@
            }),
            old(self)@.wf() ==> final(self)@.wf(),
    {
        let text = self.content.clone();
        let changed = if self.clear_on_submit {
            Some(self.clear())
        } else {
            None
        };
        (Submit { text }, changed)
    }

    /// The byte offset of the cursor.
    pub fn cursor_offset(&self) -> (r: usize)
        ensures
            r == self@.cursor(),
    {
        if self.selection_reversed {
            self.selected_range.start
        } else {
            self.selected_range.end
        }
    }

    /// Collapses the selection to a cursor at `offset`.
    pub fn move_to(&mut self, offset: usize)
        requires
            old(self)@.wf(),
            valid_offset(old(self)@.content, offset as int),
        ensures
            final(self)@ == old(self)@.moved_to(offset),
            final(self)@.wf(),
    {
        self.selected_range = offset..offset;
        self.selection_reversed = false;
    }

    /// Moves the cursor end of the selection to `offset`.
    pub fn select_to(&mut self, offset: usize)
        requires
            old(self)@.wf(),
            valid_offset(old(self)@.content, offset as int),
        ensures
            final(self)@ == old(self)@.selected_to(offset),
            final(self)@.wf(),
    {
        if self.selection_reversed {
            self.selected_range.start = offset;
        } else {
            self.selected_range.end = offset;
        }
        if self.selected_range.end < self.selected_range.start {
            self.selection_reversed = !self.selection_reversed;
            self.selected_range = self.selected_range.end..self.selected_range.start;
        }
    }

    /// Replaces the text in `range` with `text` and puts the cursor after it.
    pub fn replace_range(&mut self, range: Range<usize>, text: &str) -> (r: Changed)
        requires
            range.start <= range.end,
            valid_offset(old(self)@.content, range.start as int),
            valid_offset(old(self)@.content, range.end as int),
        ensures
            final(self)@ == (EditorView {
                content: prefix_chars(old(self)@.content, range.start as int) + text@ + suffix_chars(
                    old(self)@.content,
                    range.end as int,
                ),
                start: (range.start + utf8_len(text@)) as usize,
                end: (range.start + utf8_len(text@)) as usize,
                marked: None,
                ..old(self)@
            }),
            final(self)@.wf(),
    {
        let (head, _) = split_text(self.content.as_str(), range.start);
        let (_, tail) = split_text(self.content.as_str(), range.end);
        let joined = concat(concat(head, text).as_str(), tail);
        proof {
            lemma_utf8_concat(head@, text@);
            lemma_utf8_concat(head@ + text@, tail@);
            lemma_concat_boundary(head@ + text@, tail@);
        }
        let total = byte_length(joined.as_str());
        let cursor = range.start + byte_length(text);
        self.content = joined;
        self.selected_range = cursor..cursor;
        self.marked_range = None;
        Changed
    }

    /// Types `text` over the edit range (IME input, or else the selection).
    pub fn replace_selection(&mut self, text: &str)
        requires
            old(self)@.wf(),
        ensures
            final(self)@ == old(self)@.typed(text@),
            final(self)@.wf(),
    {
        let range = match &self.marked_range {
            Some(r) => r.start..r.end,
            None => self.selected_range.start..self.selected_range.end,
        };
        let _ = self.replace_range(range, text);
    }

    /// The selected text, when something is selected.
    pub fn copy(&self) -> (r: Option<String>)
        requires
            self@.wf(),
        ensures
            match r {
                Some(t) => self@.start != self@.end && t@ == self@.selected_text(),
                None => self@.start == self@.end,
            },
    {
        if self.selected_range.start == self.selected_range.end {
            return None;
        }
        let (head, _) = split_text(self.content.as_str(), self.selected_range.end);
        proof {
            let bytes = encode_utf8(self@.content);
            lemma_boundary_in_prefix(bytes, self@.start as int, self@.end as int);
            vstd::utf8::decode_utf8_encode_utf8(bytes.subrange(0, self@.end as int));
            assert(bytes.subrange(0, self@.end as int).subrange(self@.start as int, self@.end as int)
                =~= bytes.subrange(self@.start as int, self@.end as int));
        }
        let (_, selected) = split_text(head, self.selected_range.start);
        Some(selected.to_owned())
    }

    /// Backspace: deletes the selection, or the grapheme before the cursor.
    pub fn backspace(&mut self)
        requires
            old(self)@.wf(),
        ensures
            final(self)@ == (if old(self)@.start == old(self)@.end {
                old(self)@.selected_to(
                    previous_boundary_of(old(self)@.content, old(self)@.cursor() as int) as usize,
                )
            } else {
                old(self)@
            }).typed(Seq::empty()),
            final(self)@.wf(),
    {
        if self.selected_range.start == self.selected_range.end {
            let offset = self.previous_boundary(self.cursor_offset());
            self.select_to(offset);
        }
        proof {
            reveal_strlit("");
        }
        self.replace_selection("");
    }

    /// Delete: deletes the selection, or the grapheme after the cursor.
    pub fn delete(&mut self)
        requires
            old(self)@.wf(),
        ensures
            final(self)@ == (if old(self)@.start == old(self)@.end {
                old(self)@.selected_to(
                    next_boundary_of(old(self)@.content, old(self)@.cursor() as int) as usize,
                )
            } else {
                old(self)@
            }).typed(Seq::empty()),
            final(self)@.wf(),
    {
        if self.selected_range.start == self.selected_range.end {
            let offset = self.next_boundary(self.cursor_offset());
            self.select_to(offset);
        }
        proof {
            reveal_strlit("");
        }
        self.replace_selection("");
    }

    /// Deletes the selection, or back to the start of the word before the cursor.
    pub fn delete_word_backward(&mut self)
        requires
            old(self)@.wf(),
        ensures
            final(self)@ == (if old(self)@.start == old(self)@.end {
                old(self)@.selected_to(
                    previous_word_boundary_of(old(self)@.content, old(self)@.cursor() as int) as usize,
                )
            } else {
                old(self)@
            }).typed(Seq::empty()),
            final(self)@.wf(),
    {
        if self.selected_range.start == self.selected_range.end {
            let offset = self.previous_word_boundary(self.cursor_offset());
            self.select_to(offset);
        }
        proof {
            reveal_strlit("");
        }
        self.replace_selection("");
    }

    /// Deletes the selection, or on to the end of the word after the cursor.
    pub fn delete_word_forward(&mut self)
        requires
            old(self)@.wf(),
        ensures
            final(self)@ == (if old(self)@.start == old(self)@.end {
                old(self)@.selected_to(
                    next_word_boundary_of(old(self)@.content, old(self)@.cursor() as int) as usize,
                )
            } else {
                old(self)@
            }).typed(Seq::empty()),
            final(self)@.wf(),
    {
        if self.selected_range.start == self.selected_range.end {
            let offset = self.next_word_boundary(self.cursor_offset());
            self.select_to(offset);
        }
        proof {
            reveal_strlit("");
        }
        self.replace_selection("");
    }

    /// Cut: hands out the selected text, if any, and deletes it.
    pub fn cut(&mut self) -> (r: Option<String>)
        requires
            old(self)@.wf(),
        ensures
            match r {
                Some(t) => old(self)@.start != old(self)@.end && t@ == old(self)@.selected_text()
                    && final(self)@ == old(self)@.typed(Seq::empty()),
                None => old(self)@.start == old(self)@.end && final(self)@ == old(self)@,
            },
            final(self)@.wf(),
    {
        let copied = self.copy();
        if copied.is_some() {
            proof {
                reveal_strlit("");
            }
            self.replace_selection("");
        }
        copied
    }

    /// Enter with a modifier: types a line break.
    pub fn newline(&mut self)
        requires
            old(self)@.wf(),
        ensures
            final(self)@ == old(self)@.typed(seq!['\n']),
            final(self)@.wf(),
    {
        proof {
            reveal_strlit("\n");
            assert("\n"@ =~= seq!['\n']);
        }
        self.replace_selection("\n");
    }

    /// Pastes text, with its line ends made `\n`.
    pub fn paste(&mut self, text: &str)
        requires
            old(self)@.wf(),
        ensures
            final(self)@ == old(self)@.typed(unix_newlines(text@)),
            final(self)@.wf(),
    {
        let normalized = normalize_newlines(text);
        self.replace_selection(normalized.as_str());
    }

    /// Replaces the whole text and puts the cursor at its end.
    pub fn restore_text(&mut self, text: &str)
        ensures
            final(self)@ == old(self)@.restored(text@),
            final(self)@.wf(),
    {
        self.content = text.to_owned();
        let end = byte_length(text);
        self.selected_range = end..end;
        self.selection_reversed = false;
        self.marked_range = None;
        proof {
            is_char_boundary_start_end_of_seq(encode_utf8(text@));
        }
    }
}

/// Going back from cluster `i`, the first cluster index before which the
/// clusters are not all white space.
pub open spec fn skip_space_back(clusters: Seq<Seq<char>>, i: int) -> int
    decreases i,
{
    if 0 < i <= clusters.len() && space_cluster(clusters[i - 1]) {
        skip_space_back(clusters, i - 1)
    } else {
        i
    }
}

/// Going back from cluster `i` over clusters that are word clusters exactly
/// when `word` holds.
pub open spec fn skip_kind_back(clusters: Seq<Seq<char>>, i: int, word: bool) -> int
    decreases i,
{
    if 0 < i <= clusters.len() && word_cluster(clusters[i - 1]) == word {
        skip_kind_back(clusters, i - 1, word)
    } else {
        i
    }
}

/// Going forward from cluster `i` over white space.
pub open spec fn skip_space_fwd(clusters: Seq<Seq<char>>, i: int) -> int
    decreases clusters.len() - i,
{
    if 0 <= i < clusters.len() && space_cluster(clusters[i]) {
        skip_space_fwd(clusters, i + 1)
    } else {
        i
    }
}

/// Going forward from cluster `i` over clusters of the same kind as `word`.
pub open spec fn skip_kind_fwd(clusters: Seq<Seq<char>>, i: int, word: bool) -> int
    decreases clusters.len() - i,
{
    if 0 <= i < clusters.len() && word_cluster(clusters[i]) == word {
        skip_kind_fwd(clusters, i + 1, word)
    } else {
        i
    }
}

/// The cluster where the word (or run of punctuation) before the end of the
/// clusters starts, white space at the end skipped.
pub open spec fn word_start_index(clusters: Seq<Seq<char>>) -> int {
    let i = skip_space_back(clusters, clusters.len() as int);
    if i == 0 {
        0
    } else {
        skip_kind_back(clusters, i, word_cluster(clusters[i - 1]))
    }
}

/// The cluster after the word (or run of punctuation, or white space) at the
/// start of the clusters and the white space that follows it.
pub open spec fn word_end_index(clusters: Seq<Seq<char>>) -> int {
    if clusters.len() == 0 {
        0
    } else if space_cluster(clusters[0]) {
        skip_space_fwd(clusters, 0)
    } else {
        skip_space_fwd(clusters, skip_kind_fwd(clusters, 0, word_cluster(clusters[0])))
    }
}

/// Where the cursor lands moving one word left of `offset`.
pub open spec fn previous_word_boundary_of(text: Seq<char>, offset: int) -> int {
    let clusters = grapheme_clusters(prefix_chars(text, offset));
    let i = word_start_index(clusters);
    if i < clusters.len() {
        cluster_offset(clusters, i) as int
    } else {
        0
    }
}

/// Where the cursor lands moving one word right of `offset`.
pub open spec fn next_word_boundary_of(text: Seq<char>, offset: int) -> int {
    let clusters = grapheme_clusters(suffix_chars(text, offset));
    let i = word_end_index(clusters);
    if i < clusters.len() {
        offset + cluster_offset(clusters, i)
    } else {
        utf8_len(text) as int
    }
}

impl TextEditor {
    /// The offset one grapheme left of `offset`: where the last cluster that
    /// starts before it starts.
    pub fn previous_boundary(&self, offset: usize) -> (r: usize)
        ensures
            r == previous_boundary_of(self@.content, offset as int),
            valid_offset(self@.content, r as int),
            offset > 0 ==> r < offset,
    {
        let clusters = clusters_of(self.content.as_str());
        let ghost gs = grapheme_clusters(self@.content);
        proof {
            is_char_boundary_start_end_of_seq(encode_utf8(self@.content));
            assert(Seq::<char>::empty() + gs.flatten() + Seq::<char>::empty() =~= self@.content);
            assert(utf8_len(Seq::<char>::empty()) == 0);
        }
        let mut n: usize = clusters.len();
        while n > 0
            invariant
                n <= clusters@.len(),
                clusters@.len() == gs.len(),
                gs == grapheme_clusters(self@.content),
                gs.flatten() == self@.content,
                Seq::<char>::empty() + gs.flatten() + Seq::<char>::empty() == self@.content,
                utf8_len(Seq::<char>::empty()) == 0,
                forall|i: int| 0 <= i < clusters@.len() ==> (#[trigger] clusters@[i]).0 == cluster_offset(gs, i),
                last_offset_below(gs, gs.len() as int, offset as int) == last_offset_below(gs, n as int, offset as int),
                valid_offset(self@.content, 0),
            decreases n,
        {
            if clusters[n - 1].0 < offset {
                proof {
                    lemma_cluster_boundary(Seq::empty(), gs, Seq::empty(), n - 1);
                }
                return clusters[n - 1].0;
            }
            n -= 1;
        }
        0
    }

    /// The offset one grapheme right of `offset`: where the first cluster that
    /// starts after it starts, or the end of the text.
    pub fn next_boundary(&self, offset: usize) -> (r: usize)
        ensures
            r == next_boundary_of(self@.content, offset as int),
            valid_offset(self@.content, r as int),
            offset < utf8_len(self@.content) ==> offset < r,
    {
        let clusters = clusters_of(self.content.as_str());
        let end = byte_length(self.content.as_str());
        let ghost gs = grapheme_clusters(self@.content);
        proof {
            is_char_boundary_start_end_of_seq(encode_utf8(self@.content));
            assert(Seq::<char>::empty() + gs.flatten() + Seq::<char>::empty() =~= self@.content);
            assert(utf8_len(Seq::<char>::empty()) == 0);
        }
        let mut i: usize = 0;
        while i < clusters.len()
            invariant
                i <= clusters@.len(),
                clusters@.len() == gs.len(),
                gs == grapheme_clusters(self@.content),
                Seq::<char>::empty() + gs.flatten() + Seq::<char>::empty() == self@.content,
                utf8_len(Seq::<char>::empty()) == 0,
                end == utf8_len(self@.content),
                forall|k: int| 0 <= k < clusters@.len() ==> (#[trigger] clusters@[k]).0 == cluster_offset(gs, k),
                first_offset_above(gs, 0, offset as int, end as int) == first_offset_above(gs, i as int, offset as int, end as int),
                valid_offset(self@.content, end as int),
            decreases clusters@.len() - i,
        {
            if clusters[i].0 > offset {
                proof {
                    lemma_cluster_boundary(Seq::empty(), gs, Seq::empty(), i as int);
                }
                return clusters[i].0;
            }
            i += 1;
        }
        end
    }

    /// The offset one word left of `offset`: white space before it skipped,
    /// then the run of word characters, or of other characters, before that.
    pub fn previous_word_boundary(&self, offset: usize) -> (r: usize)
        requires
            valid_offset(self@.content, offset as int),
        ensures
            r == previous_word_boundary_of(self@.content, offset as int),
            valid_offset(self@.content, r as int),
            r <= offset,
    {
        let (head, tail) = split_text(self.content.as_str(), offset);
        let clusters = clusters_of(head);
        let ghost gs = grapheme_clusters(head@);
        proof {
            is_char_boundary_start_end_of_seq(encode_utf8(self@.content));
            assert(Seq::<char>::empty() + gs.flatten() + tail@ =~= self@.content);
            assert(utf8_len(Seq::<char>::empty()) == 0);
            assert(cluster_texts(clusters@).len() == clusters@.len());
        }
        let n = clusters.len();
        let mut index: usize = n;
        while index > 0 && is_space_cluster(clusters[index - 1].1.as_str())
            invariant
                index <= n,
                n == clusters@.len(),
                n == gs.len(),
                cluster_texts(clusters@) == gs,
                skip_space_back(gs, n as int) == skip_space_back(gs, index as int),
            decreases index,
        {
            assert(clusters@[index - 1].1@ == gs[index - 1]);
            index -= 1;
        }
        proof {
            if index > 0 {
                assert(clusters@[index - 1].1@ == gs[index - 1]);
            }
        }
        if index == 0 {
            return 0;
        }
        let word = is_word(clusters[index - 1].1.as_str());
        assert(clusters@[index - 1].1@ == gs[index - 1]);
        let ghost first = index as int;
        while index > 0 && is_word(clusters[index - 1].1.as_str()) == word
            invariant
                index <= n,
                n == clusters@.len(),
                n == gs.len(),
                cluster_texts(clusters@) == gs,
                skip_kind_back(gs, first, word) == skip_kind_back(gs, index as int, word),
            decreases index,
        {
            assert(clusters@[index - 1].1@ == gs[index - 1]);
            index -= 1;
        }
        proof {
            if index > 0 {
                assert(clusters@[index - 1].1@ == gs[index - 1]);
            }
        }
        if index < n {
            proof {
                lemma_cluster_boundary(Seq::empty(), gs, tail@, index as int);
            }
            clusters[index].0
        } else {
            0
        }
    }

    /// The offset one word right of `offset`: past the run of white space,
    /// or past the run of word characters (or of other characters) and the
    /// white space after it.
    pub fn next_word_boundary(&self, offset: usize) -> (r: usize)
        requires
            valid_offset(self@.content, offset as int),
        ensures
            r == next_word_boundary_of(self@.content, offset as int),
            valid_offset(self@.content, r as int),
            offset <= r,
    {
        let end = byte_length(self.content.as_str());
        let (head, tail) = split_text(self.content.as_str(), offset);
        let clusters = clusters_of(tail);
        let ghost gs = grapheme_clusters(tail@);
        proof {
            is_char_boundary_start_end_of_seq(encode_utf8(self@.content));
            assert(head@ + gs.flatten() + Seq::<char>::empty() =~= self@.content);
            assert(head@ + gs.flatten() =~= self@.content);
            assert(cluster_texts(clusters@).len() == clusters@.len());
        }
        let n = clusters.len();
        let mut index: usize = 0;
        if n > 0 && is_space_cluster(clusters[0].1.as_str()) {
            assert(clusters@[0].1@ == gs[0]);
            while index < n && is_space_cluster(clusters[index].1.as_str())
                invariant
                    index <= n,
                    n == clusters@.len(),
                    n == gs.len(),
                    cluster_texts(clusters@) == gs,
                    skip_space_fwd(gs, 0) == skip_space_fwd(gs, index as int),
                decreases n - index,
            {
                assert(clusters@[index as int].1@ == gs[index as int]);
                index += 1;
            }
            proof {
                if index < n {
                    assert(clusters@[index as int].1@ == gs[index as int]);
                }
            }
            if index < n {
                proof {
                    lemma_cluster_boundary(head@, gs, Seq::empty(), index as int);
                }
                return offset + clusters[index].0;
            }
            return end;
        }
        if n == 0 {
            return end;
        }
        assert(clusters@[0].1@ == gs[0]);
        let word = is_word(clusters[0].1.as_str());
        while index < n && is_word(clusters[index].1.as_str()) == word
            invariant
                index <= n,
                n == clusters@.len(),
                n == gs.len(),
                cluster_texts(clusters@) == gs,
                skip_kind_fwd(gs, 0, word) == skip_kind_fwd(gs, index as int, word),
            decreases n - index,
        {
            assert(clusters@[index as int].1@ == gs[index as int]);
            index += 1;
        }
        proof {
            if index < n {
                assert(clusters@[index as int].1@ == gs[index as int]);
            }
        }
        let ghost after_word = index as int;
        while index < n && is_space_cluster(clusters[index].1.as_str())
            invariant
                index <= n,
                n == clusters@.len(),
                n == gs.len(),
                cluster_texts(clusters@) == gs,
                skip_space_fwd(gs, after_word) == skip_space_fwd(gs, index as int),
            decreases n - index,
        {
            assert(clusters@[index as int].1@ == gs[index as int]);
            index += 1;
        }
        proof {
            if index < n {
                assert(clusters@[index as int].1@ == gs[index as int]);
            }
        }
        if index < n {
            proof {
                lemma_cluster_boundary(head@, gs, Seq::empty(), index as int);
            }
            offset + clusters[index].0
        } else {
            end
        }
    }
}

/// The byte of a line break.
pub open spec fn newline_byte() -> u8 {
    10
}

/// Going back from byte `i` to the start of its line: just after the line
/// break before it, or the start of the text.
pub open spec fn line_start(bytes: Seq<u8>, i: int) -> int
    decreases i,
{
    if 0 < i <= bytes.len() && bytes[i - 1] != newline_byte() {
        line_start(bytes, i - 1)
    } else {
        i
    }
}

/// Going forward from byte `i` to the end of its line: the line break after
/// it, or the end of the text.
pub open spec fn line_end(bytes: Seq<u8>, i: int) -> int
    decreases bytes.len() - i,
{
    if 0 <= i < bytes.len() && bytes[i] != newline_byte() {
        line_end(bytes, i + 1)
    } else {
        i
    }
}

/// A line break is a character of its own: the offsets before and after it
/// are character boundaries.
proof fn lemma_newline_boundaries(bytes: Seq<u8>, j: int)
    requires
        valid_utf8(bytes),
        0 <= j < bytes.len(),
        bytes[j] == newline_byte(),
    ensures
        is_char_boundary(bytes, j),
        is_char_boundary(bytes, j + 1),
{
    is_char_boundary_iff_not_is_continuation_byte(bytes, j);
    is_char_boundary_start_end_of_seq(bytes);
    valid_utf8_split(bytes, j);
    let rest = bytes.subrange(j, bytes.len() as int);
    assert(rest[0] == newline_byte());
    assert(is_char_boundary(rest, 1)) by {
        reveal_with_fuel(is_char_boundary, 2);
        assert(vstd::utf8::pop_first_scalar(rest) =~= rest.subrange(1, rest.len() as int));
    }
    if j + 1 < bytes.len() {
        is_char_boundary_iff_not_is_continuation_byte(rest, 1);
        assert(rest[1] == bytes[j + 1]);
        is_char_boundary_iff_not_is_continuation_byte(bytes, j + 1);
    }
}

impl TextEditor {
    /// The start of the cursor's line.
    pub fn line_start_offset(&self) -> (r: usize)
        requires
            self@.wf(),
        ensures
            r == line_start(encode_utf8(self@.content), self@.cursor() as int),
            valid_offset(self@.content, r as int),
    {
        let bytes = self.content.as_str().as_bytes();
        let ghost b = encode_utf8(self@.content);
        let mut j = self.cursor_offset();
        proof {
            is_char_boundary_start_end_of_seq(b);
        }
        while j > 0 && bytes[j - 1] != 10u8
            invariant
                bytes@ == b,
                b == encode_utf8(self@.content),
                j <= b.len(),
                line_start(b, self@.cursor() as int) == line_start(b, j as int),
                self@.wf(),
            decreases j,
        {
            j -= 1;
        }
        proof {
            if j > 0 {
                lemma_newline_boundaries(b, j - 1);
            }
        }
        j
    }

    /// The end of the cursor's line.
    pub fn line_end_offset(&self) -> (r: usize)
        requires
            self@.wf(),
        ensures
            r == line_end(encode_utf8(self@.content), self@.cursor() as int),
            valid_offset(self@.content, r as int),
    {
        let bytes = self.content.as_str().as_bytes();
        let ghost b = encode_utf8(self@.content);
        let mut j = self.cursor_offset();
        proof {
            is_char_boundary_start_end_of_seq(b);
        }
        while j < bytes.len() && bytes[j] != 10u8
            invariant
                bytes@ == b,
                b == encode_utf8(self@.content),
                j <= b.len(),
                line_end(b, self@.cursor() as int) == line_end(b, j as int),
                self@.wf(),
            decreases b.len() - j,
        {
            j += 1;
        }
        proof {
            if j < b.len() {
                lemma_newline_boundaries(b, j as int);
            }
        }
        j
    }

    /// Left arrow: one grapheme left, or to the start of the selection.
    pub fn left(&mut self)
        requires
            old(self)@.wf(),
        ensures
            final(self)@ == old(self)@.moved_to(
                if old(self)@.start == old(self)@.end {
                    previous_boundary_of(old(self)@.content, old(self)@.cursor() as int) as usize
                } else {
                    old(self)@.start
                },
            ),
            final(self)@.wf(),
    {
        let offset = if self.selected_range.start == self.selected_range.end {
            self.previous_boundary(self.cursor_offset())
        } else {
            self.selected_range.start
        };
        self.move_to(offset);
    }

    /// Right arrow: one grapheme right, or to the end of the selection.
    pub fn right(&mut self)
        requires
            old(self)@.wf(),
        ensures
            final(self)@ == old(self)@.moved_to(
                if old(self)@.start == old(self)@.end {
                    next_boundary_of(old(self)@.content, old(self)@.end as int) as usize
                } else {
                    old(self)@.end
                },
            ),
            final(self)@.wf(),
    {
        let offset = if self.selected_range.start == self.selected_range.end {
            self.next_boundary(self.selected_range.end)
        } else {
            self.selected_range.end
        };
        self.move_to(offset);
    }

    pub fn select_left(&mut self)
        requires
            old(self)@.wf(),
        ensures
            final(self)@ == old(self)@.selected_to(
                previous_boundary_of(old(self)@.content, old(self)@.cursor() as int) as usize,
            ),
            final(self)@.wf(),
    {
        let offset = self.previous_boundary(self.cursor_offset());
        self.select_to(offset);
    }

    pub fn select_right(&mut self)
        requires
            old(self)@.wf(),
        ensures
            final(self)@ == old(self)@.selected_to(
                next_boundary_of(old(self)@.content, old(self)@.cursor() as int) as usize,
            ),
            final(self)@.wf(),
    {
        let offset = self.next_boundary(self.cursor_offset());
        self.select_to(offset);
    }

    /// One word left, or to the start of the selection.
    pub fn word_left(&mut self)
        requires
            old(self)@.wf(),
        ensures
            final(self)@ == old(self)@.moved_to(
                if old(self)@.start == old(self)@.end {
                    previous_word_boundary_of(old(self)@.content, old(self)@.cursor() as int) as usize
                } else {
                    old(self)@.start
                },
            ),
            final(self)@.wf(),
    {
        let offset = if self.selected_range.start == self.selected_range.end {
            self.previous_word_boundary(self.cursor_offset())
        } else {
            self.selected_range.start
        };
        self.move_to(offset);
    }

    /// One word right, or to the end of the selection.
    pub fn word_right(&mut self)
        requires
            old(self)@.wf(),
        ensures
            final(self)@ == old(self)@.moved_to(
                if old(self)@.start == old(self)@.end {
                    next_word_boundary_of(old(self)@.content, old(self)@.cursor() as int) as usize
                } else {
                    old(self)@.end
                },
            ),
            final(self)@.wf(),
    {
        let offset = if self.selected_range.start == self.selected_range.end {
            self.next_word_boundary(self.cursor_offset())
        } else {
            self.selected_range.end
        };
        self.move_to(offset);
    }

    pub fn select_word_left(&mut self)
        requires
            old(self)@.wf(),
        ensures
            final(self)@ == old(self)@.selected_to(
                previous_word_boundary_of(old(self)@.content, old(self)@.cursor() as int) as usize,
            ),
            final(self)@.wf(),
    {
        let offset = self.previous_word_boundary(self.cursor_offset());
        self.select_to(offset);
    }

    pub fn select_word_right(&mut self)
        requires
            old(self)@.wf(),
        ensures
            final(self)@ == old(self)@.selected_to(
                next_word_boundary_of(old(self)@.content, old(self)@.cursor() as int) as usize,
            ),
            final(self)@.wf(),
    {
        let offset = self.next_word_boundary(self.cursor_offset());
        self.select_to(offset);
    }

    /// Selects the whole text, the cursor at its end.
    pub fn select_all(&mut self)
        requires
            old(self)@.wf(),
        ensures
            final(self)@ == old(self)@.moved_to(0).selected_to(utf8_len(old(self)@.content) as usize),
            final(self)@.wf(),
    {
        proof {
            is_char_boundary_start_end_of_seq(encode_utf8(self@.content));
        }
        self.move_to(0);
        let end = byte_length(self.content.as_str());
        self.select_to(end);
    }

    /// Home: to the start of the cursor's line.
    pub fn home(&mut self)
        requires
            old(self)@.wf(),
        ensures
            final(self)@ == old(self)@.moved_to(
                line_start(encode_utf8(old(self)@.content), old(self)@.cursor() as int) as usize,
            ),
            final(self)@.wf(),
    {
        let offset = self.line_start_offset();
        self.move_to(offset);
    }

    /// End: to the end of the cursor's line.
    pub fn end(&mut self)
        requires
            old(self)@.wf(),
        ensures
            final(self)@ == old(self)@.moved_to(
                line_end(encode_utf8(old(self)@.content), old(self)@.cursor() as int) as usize,
            ),
            final(self)@.wf(),
    {
        let offset = self.line_end_offset();
        self.move_to(offset);
    }

    pub fn document_home(&mut self)
        requires
            old(self)@.wf(),
        ensures
            final(self)@ == old(self)@.moved_to(0),
            final(self)@.wf(),
    {
        proof {
            is_char_boundary_start_end_of_seq(encode_utf8(self@.content));
        }
        self.move_to(0);
    }

    pub fn document_end(&mut self)
        requires
            old(self)@.wf(),
        ensures
            final(self)@ == old(self)@.moved_to(utf8_len(old(self)@.content) as usize),
            final(self)@.wf(),
    {
        proof {
            is_char_boundary_start_end_of_seq(encode_utf8(self@.content));
        }
        let end = byte_length(self.content.as_str());
        self.move_to(end);
    }

    pub fn select_home(&mut self)
        requires
            old(self)@.wf(),
        ensures
            final(self)@ == old(self)@.selected_to(0),
            final(self)@.wf(),
    {
        proof {
            is_char_boundary_start_end_of_seq(encode_utf8(self@.content));
        }
        self.select_to(0);
    }

    pub fn select_end(&mut self)
        requires
            old(self)@.wf(),
        ensures
            final(self)@ == old(self)@.selected_to(utf8_len(old(self)@.content) as usize),
            final(self)@.wf(),
    {
        proof {
            is_char_boundary_start_end_of_seq(encode_utf8(self@.content));
        }
        let end = byte_length(self.content.as_str());
        self.select_to(end);
    }
}

/// Extending the selection to an offset puts the cursor there, and the
/// selection still runs forward.
pub proof fn law_select_to_puts_cursor_there(v: EditorView, offset: usize)
    requires
        v.wf(),
        valid_offset(v.content, offset as int),
    ensures
        v.selected_to(offset).cursor() == offset,
        v.selected_to(offset).wf(),
{
}

/// Moving collapses the selection onto the cursor.
pub proof fn law_move_collapses_selection(v: EditorView, offset: usize)
    ensures
        v.moved_to(offset).start == offset,
        v.moved_to(offset).end == offset,
        v.moved_to(offset).cursor() == offset,
{
}

/// From a collapsed selection, extending it anywhere and back to where it
/// started collapses it again.
pub proof fn law_select_away_and_back_collapses(v: EditorView, offset: usize)
    requires
        v.start == v.end,
    ensures
        v.selected_to(offset).selected_to(v.cursor()).start == v.cursor(),
        v.selected_to(offset).selected_to(v.cursor()).end == v.cursor(),
{
}

/// The most lines the prompt editor grows to before it scrolls.
pub const MAX_VISIBLE_LINES: usize = 8;

/// The number of line feeds in the text.
pub open spec fn newline_count(s: Seq<char>) -> nat
    decreases s.len(),
{
    if s.len() == 0 {
        0
    } else {
        newline_count(s.drop_last()) + if s.last() == '\n' {
            1nat
        } else {
            0nat
        }
    }
}

impl TextEditor {
    /// The lines the text itself has: one more than its line feeds.
    pub fn explicit_lines(&self) -> (r: usize)
        requires
            self@.content.len() < usize::MAX,
        ensures
            r == newline_count(self@.content) + 1,
    {
        let chars = chars_of(self.content.as_str());
        let mut count: usize = 0;
        let mut i: usize = 0;
        while i < chars.len()
            invariant
                i <= chars@.len(),
                chars@ == self@.content,
                count == newline_count(chars@.take(i as int)),
                count <= i,
            decreases chars@.len() - i,
        {
            assert(chars@.take(i + 1).drop_last() =~= chars@.take(i as int));
            if chars[i] == '\n' {
                count += 1;
            }
            i += 1;
        }
        assert(chars@.take(chars@.len() as int) =~= chars@);
        count + 1
    }

    /// How many lines tall the editor is drawn: as many as its wrapped
    /// layout or its text has, between one and `MAX_VISIBLE_LINES`.
    pub fn layout_lines(&self) -> (r: usize)
        requires
            self@.content.len() < usize::MAX,
        ensures
            r == ({
                let wanted: int = if self@.visible_lines >= newline_count(self@.content) + 1 {
                    self@.visible_lines as int
                } else {
                    (newline_count(self@.content) + 1) as int
                };
                if wanted < 1 {
                    1
                } else if wanted > MAX_VISIBLE_LINES {
                    MAX_VISIBLE_LINES as int
                } else {
                    wanted
                }
            }),
    {
        let explicit = self.explicit_lines();
        let wanted = if self.visible_lines >= explicit {
            self.visible_lines
        } else {
            explicit
        };
        if wanted < 1 {
            1
        } else if wanted > MAX_VISIBLE_LINES {
            MAX_VISIBLE_LINES
        } else {
            wanted
        }
    }
}

/// Text without a carriage return pastes as it is.
proof fn lemma_unix_newlines_without_cr(s: Seq<char>)
    requires
        forall|i: int| 0 <= i < s.len() ==> s[i] != '\r',
    ensures
        unix_newlines(s) == s,
    decreases s.len(),
{
    if s.len() > 0 {
        lemma_unix_newlines_without_cr(s.drop_first());
        assert(seq![s[0]] + s.drop_first() =~= s);
    }
}

/// Cutting the selection and pasting what was cut gives the text back,
/// with the cursor after the pasted text, when the cut text holds no
/// carriage return (a paste turns those into line feeds) and nothing is
/// being composed.
pub proof fn law_cut_then_paste_restores(v: EditorView)
    requires
        v.wf(),
        v.marked is None,
        forall|i: int| 0 <= i < v.selected_text().len() ==> v.selected_text()[i] != '\r',
    ensures
        v.typed(Seq::empty()).typed(unix_newlines(v.selected_text())).content == v.content,
        v.typed(Seq::empty()).typed(unix_newlines(v.selected_text())).start == v.end,
        v.typed(Seq::empty()).typed(unix_newlines(v.selected_text())).end == v.end,
{
    let bytes = encode_utf8(v.content);
    let a = v.start as int;
    let b = v.end as int;
    let t = v.selected_text();
    lemma_unix_newlines_without_cr(t);
    encode_utf8_valid_utf8(v.content);
    is_char_boundary_start_end_of_seq(bytes);
    // The three pieces of the text are valid on their own.
    valid_utf8_split(bytes, a);
    valid_utf8_split(bytes, b);
    lemma_boundary_in_prefix(bytes, a, b);
    let upto_b = bytes.subrange(0, b);
    valid_utf8_split(upto_b, a);
    assert(upto_b.subrange(a, upto_b.len() as int) =~= bytes.subrange(a, b));
    let head = bytes.subrange(0, a);
    let middle = bytes.subrange(a, b);
    let tail = bytes.subrange(b, bytes.len() as int);
    vstd::utf8::decode_utf8_encode_utf8(head);
    vstd::utf8::decode_utf8_encode_utf8(middle);
    vstd::utf8::decode_utf8_encode_utf8(tail);
    // After the cut.
    let cut = v.typed(Seq::empty());
    assert(prefix_chars(v.content, a) == decode_utf8(head));
    assert(suffix_chars(v.content, b) == decode_utf8(tail));
    assert(cut.content =~= decode_utf8(head) + decode_utf8(tail));
    lemma_utf8_concat(decode_utf8(head), decode_utf8(tail));
    let cut_bytes = encode_utf8(cut.content);
    assert(cut_bytes =~= head + tail);
    assert(utf8_len(Seq::<char>::empty()) == 0) by {
        assert(encode_utf8(Seq::<char>::empty()) =~= Seq::<u8>::empty());
    }
    assert(cut.start == a);
    assert(cut_bytes.subrange(0, a) =~= head);
    assert(cut_bytes.subrange(a, cut_bytes.len() as int) =~= tail);
    // After the paste.
    let back = cut.typed(t);
    assert(back.content == decode_utf8(head) + t + decode_utf8(tail));
    lemma_utf8_concat(decode_utf8(head), t);
    lemma_utf8_concat(decode_utf8(head) + t, decode_utf8(tail));
    assert(encode_utf8(back.content) =~= bytes);
    vstd::utf8::encode_utf8_decode_utf8(back.content);
    vstd::utf8::encode_utf8_decode_utf8(v.content);
    assert(utf8_len(t) == b - a);
}

proof fn lemma_last_offset_below(clusters: Seq<Seq<char>>, n: int, offset: int)
    requires
        offset > 0,
    ensures
        0 <= last_offset_below(clusters, n, offset) < offset,
    decreases n,
{
    if n > 0 && !(cluster_offset(clusters, n - 1) < offset) {
        lemma_last_offset_below(clusters, n - 1, offset);
    }
}

proof fn lemma_first_offset_above(clusters: Seq<Seq<char>>, i: int, offset: int, end: int)
    requires
        offset < end,
    ensures
        offset < first_offset_above(clusters, i, offset, end),
    decreases clusters.len() - i,
{
    if 0 <= i < clusters.len() && !(cluster_offset(clusters, i) > offset) {
        lemma_first_offset_above(clusters, i + 1, offset, end);
    }
}

/// Moving one grapheme left goes left, and no further than the text's
/// start; moving one grapheme right from inside the text goes right.
pub proof fn law_grapheme_moves_go_their_way(text: Seq<char>, offset: int)
    ensures
        offset > 0 ==> 0 <= previous_boundary_of(text, offset) < offset,
        offset < utf8_len(text) ==> offset < next_boundary_of(text, offset),
{
    if offset > 0 {
        lemma_last_offset_below(grapheme_clusters(text), grapheme_clusters(text).len() as int, offset);
    }
    if offset < utf8_len(text) {
        lemma_first_offset_above(grapheme_clusters(text), 0, offset, utf8_len(text) as int);
    }
}

} // verus!
