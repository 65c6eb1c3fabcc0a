//! Text-editing operations driven by voice commands, and the editor that
//! applies them while keeping a linear undo/redo history.
//!
//! All delete operations act on the trailing content of the buffer; all
//! format operations act on the last word only.

use vstd::prelude::*;
use crate::text::{
    is_space, is_space_char, trim_end_spec, trim_end_str, word_seq, str_views, join_sp,
    split_words, join_prefix, substr_string, upper_of, lower_of, uppercase_of, lowercase_of,
    str_eq,
};

verus! {

/// Scope of a delete operation.
#[derive(Debug, Clone, PartialEq, Eq)]
pub enum DeleteScope {
    /// Delete the last word.
    LastWord,
    /// Delete the last sentence.
    LastSentence,
    /// Delete the last paragraph.
    LastParagraph,
    /// Delete a specific number of words.
    Words(usize),
    /// Delete from a specific position to the end.
    FromPosition(usize),
    /// Delete a character range.
    Range(usize, usize),
}

/// Text styling options.
#[derive(Debug, Clone, PartialEq, Eq)]
pub enum TextStyle {
    /// Bold text.
    Bold,
    /// Italic text.
    Italic,
    /// Underline text.
    Underline,
}

/// Formatting operations on the last word.
#[derive(Debug, Clone, PartialEq, Eq)]
pub enum FormatOperation {
    /// Uppercase the first character of the last word.
    Capitalize,
    /// Lowercase the entire last word.
    Lowercase,
    /// Uppercase the entire last word.
    Uppercase,
    /// Wrap the last word in a style marker.
    Style(TextStyle),
}

/// A text-editing operation, as recorded in the history.
#[derive(Debug, Clone, PartialEq, Eq)]
pub enum TextEditOperation {
    /// Delete text (word, sentence, paragraph, count or range).
    Delete(DeleteScope),
    /// Replace text.
    Replace {
        /// Text to replace.
        original: String,
        /// Replacement text.
        replacement: String,
    },
    /// Format text (capitalize, case change, style).
    Format(FormatOperation),
}

/// One entry of the editor's undo/redo history.
#[derive(Debug, Clone)]
pub struct TextOperationHistory {
    /// The operation that was performed.
    pub operation: TextEditOperation,
    /// The text before the operation.
    pub previous_text: String,
    /// The text after the operation.
    pub current_text: String,
    /// Milliseconds since the Unix epoch when the operation occurred.
    pub timestamp: i64,
}

/// Relies on chrono::Local::now and DateTime::timestamp_millis for the
/// wall-clock time; the value depends on the clock, so nothing is promised
/// of it.
#[verifier::external_body]
fn now_timestamp_millis() -> i64 {
    chrono::Local::now().timestamp_millis()
}

// ---------------------------------------------------------------------------
// Delete semantics, as functions on character sequences.
// ---------------------------------------------------------------------------

/// Sentence-terminating characters.
pub open spec fn is_sentence_end(c: char) -> bool {
    c == '.' || c == '!' || c == '?'
}

fn is_sentence_end_char(c: char) -> (r: bool)
    ensures
        r == is_sentence_end(c),
{
    c == '.' || c == '!' || c == '?'
}

/// Truncates a trimmed text back to its last whitespace boundary;
/// empty if it has none.
pub open spec fn cut_last_word(t: Seq<char>) -> Seq<char>
    decreases t.len(),
{
    if t.len() == 0 {
        Seq::empty()
    } else if is_space(t.last()) {
        t.drop_last()
    } else {
        cut_last_word(t.drop_last())
    }
}

/// Deleting the last word: trailing whitespace is dropped first.
pub open spec fn delete_last_word_spec(s: Seq<char>) -> Seq<char> {
    cut_last_word(trim_end_spec(s))
}

/// The text with its trailing run of sentence terminators removed.
pub open spec fn strip_sentence_ends(t: Seq<char>) -> Seq<char>
    decreases t.len(),
{
    if t.len() > 0 && is_sentence_end(t.last()) {
        strip_sentence_ends(t.drop_last())
    } else {
        t
    }
}

/// The text up to and including its last sentence terminator; empty if none.
pub open spec fn keep_through_sentence_end(t: Seq<char>) -> Seq<char>
    decreases t.len(),
{
    if t.len() == 0 {
        Seq::empty()
    } else if is_sentence_end(t.last()) {
        t
    } else {
        keep_through_sentence_end(t.drop_last())
    }
}

/// Deleting the last sentence: the final sentence, terminators included, is
/// removed, and the text is truncated back to the terminator of the sentence
/// before it; empty if there is none.
pub open spec fn delete_last_sentence_spec(s: Seq<char>) -> Seq<char> {
    trim_end_spec(keep_through_sentence_end(strip_sentence_ends(trim_end_spec(s))))
}

/// The text up to the start of the rightmost blank line (two newlines), if any.
pub open spec fn cut_at_double_newline(t: Seq<char>) -> Option<Seq<char>>
    decreases t.len(),
{
    if t.len() < 2 {
        None
    } else if t[t.len() - 2] == '\n' && t[t.len() - 1] == '\n' {
        Some(t.take(t.len() - 2))
    } else {
        cut_at_double_newline(t.drop_last())
    }
}

/// The text up to its rightmost newline, if any.
pub open spec fn cut_at_newline(t: Seq<char>) -> Option<Seq<char>>
    decreases t.len(),
{
    if t.len() == 0 {
        None
    } else if t.last() == '\n' {
        Some(t.drop_last())
    } else {
        cut_at_newline(t.drop_last())
    }
}

/// Deleting the last paragraph: back to the last double newline, falling back
/// to a single newline, else empty.
pub open spec fn delete_last_paragraph_spec(s: Seq<char>) -> Seq<char> {
    let t = trim_end_spec(s);
    match cut_at_double_newline(t) {
        Some(r) => r,
        None => match cut_at_newline(t) {
            Some(r) => r,
            None => Seq::empty(),
        },
    }
}

/// Deleting a character range, bounds clamped to the text length; positions
/// past the end or an empty range leave the text unchanged.
pub open spec fn delete_range_spec(s: Seq<char>, start: int, end: int) -> Seq<char> {
    if start >= s.len() || start >= end {
        s
    } else if end >= s.len() {
        s.take(start)
    } else {
        s.take(start) + s.skip(end)
    }
}

/// Deleting the last `count` whitespace-delimited words; the survivors are
/// rejoined with single spaces.
pub open spec fn delete_words_spec(s: Seq<char>, count: int) -> Seq<char> {
    let t = trim_end_spec(s);
    if t.len() == 0 || count == 0 {
        t
    } else if word_seq(t).len() <= count {
        Seq::empty()
    } else {
        join_sp(word_seq(t).take(word_seq(t).len() - count))
    }
}

/// Deleting from a position to the end, the position clamped to the length.
pub open spec fn delete_from_position_spec(s: Seq<char>, position: int) -> Seq<char> {
    if position >= s.len() {
        s
    } else {
        s.take(position)
    }
}

/// What a delete operation with the given scope leaves of the text.
pub open spec fn delete_spec(s: Seq<char>, scope: DeleteScope) -> Seq<char> {
    match scope {
        DeleteScope::LastWord => delete_last_word_spec(s),
        DeleteScope::LastSentence => delete_last_sentence_spec(s),
        DeleteScope::LastParagraph => delete_last_paragraph_spec(s),
        DeleteScope::Words(count) => delete_words_spec(s, count as int),
        DeleteScope::FromPosition(p) => delete_from_position_spec(s, p as int),
        DeleteScope::Range(a, b) => delete_range_spec(s, a as int, b as int),
    }
}

// ---------------------------------------------------------------------------
// Format semantics.
// ---------------------------------------------------------------------------

/// The last word replaced by `w`, the others rejoined with single spaces.
pub open spec fn replace_last_word(s: Seq<char>, w: Seq<char>) -> Seq<char> {
    let ws = word_seq(s);
    if s.len() == 0 {
        Seq::empty()
    } else if ws.len() == 0 {
        s
    } else if ws.len() == 1 {
        w
    } else {
        join_sp(ws.drop_last()) + seq![' '] + w
    }
}

/// The last word of the text, empty if it has none.
pub open spec fn last_word_of(s: Seq<char>) -> Seq<char> {
    if word_seq(s).len() == 0 {
        Seq::empty()
    } else {
        word_seq(s).last()
    }
}

/// What a format operation makes of the last word.
pub open spec fn format_word(w: Seq<char>, op: FormatOperation) -> Seq<char> {
    match op {
        FormatOperation::Capitalize => upper_of(w.take(1)) + w.skip(1),
        FormatOperation::Lowercase => lower_of(w),
        FormatOperation::Uppercase => upper_of(w),
        FormatOperation::Style(TextStyle::Bold) => seq!['*', '*'] + w + seq!['*', '*'],
        FormatOperation::Style(TextStyle::Italic) => seq!['*'] + w + seq!['*'],
        FormatOperation::Style(TextStyle::Underline) => seq!['_'] + w + seq!['_'],
    }
}

/// What a format operation leaves of the text.
pub open spec fn format_spec(s: Seq<char>, op: FormatOperation) -> Seq<char> {
    replace_last_word(s, format_word(last_word_of(s), op))
}

// ---------------------------------------------------------------------------
// Lemmas connecting the scan-from-the-end specifications to index scans.
// ---------------------------------------------------------------------------

proof fn lemma_cut_last_word_none(t: Seq<char>)
    requires
        forall|i: int| 0 <= i < t.len() ==> !is_space(t[i]),
    ensures
        cut_last_word(t) == Seq::<char>::empty(),
    decreases t.len(),
{
    if t.len() > 0 {
        lemma_cut_last_word_none(t.drop_last());
    }
}

proof fn lemma_cut_last_word_at(t: Seq<char>, p: int)
    requires
        0 <= p < t.len(),
        is_space(t[p]),
        forall|i: int| p < i < t.len() ==> !is_space(t[i]),
    ensures
        cut_last_word(t) == t.take(p),
    decreases t.len(),
{
    if p == t.len() - 1 {
        assert(t.drop_last() =~= t.take(p));
    } else {
        lemma_cut_last_word_at(t.drop_last(), p);
        assert(t.drop_last().take(p) =~= t.take(p));
    }
}

proof fn lemma_strip_sentence_ends_take(t: Seq<char>, k: int)
    requires
        0 <= k <= t.len(),
        forall|i: int| k <= i < t.len() ==> is_sentence_end(t[i]),
        k > 0 ==> !is_sentence_end(t[k - 1]),
    ensures
        strip_sentence_ends(t) == t.take(k),
    decreases t.len(),
{
    if k == t.len() {
        assert(t.take(k) =~= t);
    } else {
        lemma_strip_sentence_ends_take(t.drop_last(), k);
        assert(t.drop_last().take(k) =~= t.take(k));
    }
}

proof fn lemma_keep_through_none(t: Seq<char>)
    requires
        forall|i: int| 0 <= i < t.len() ==> !is_sentence_end(t[i]),
    ensures
        keep_through_sentence_end(t) == Seq::<char>::empty(),
    decreases t.len(),
{
    if t.len() > 0 {
        lemma_keep_through_none(t.drop_last());
    }
}

proof fn lemma_keep_through_at(t: Seq<char>, p: int)
    requires
        0 <= p < t.len(),
        is_sentence_end(t[p]),
        forall|i: int| p < i < t.len() ==> !is_sentence_end(t[i]),
    ensures
        keep_through_sentence_end(t) == t.take(p + 1),
    decreases t.len(),
{
    if p == t.len() - 1 {
        assert(t.take(p + 1) =~= t);
    } else {
        lemma_keep_through_at(t.drop_last(), p);
        assert(t.drop_last().take(p + 1) =~= t.take(p + 1));
    }
}

proof fn lemma_cut_double_newline_none(t: Seq<char>)
    requires
        forall|i: int| 0 <= i && i + 1 < t.len() ==> !(#[trigger] t[i] == '\n' && t[i + 1] == '\n'),
    ensures
        cut_at_double_newline(t) is None,
    decreases t.len(),
{
    if t.len() >= 2 {
        let u = t.drop_last();
        assert forall|i: int| 0 <= i && i + 1 < u.len() implies !(#[trigger] u[i] == '\n'
            && u[i + 1] == '\n') by {
            assert(u[i] == t[i]);
            assert(u[i + 1] == t[i + 1]);
        }
        lemma_cut_double_newline_none(u);
    }
}

proof fn lemma_cut_double_newline_at(t: Seq<char>, p: int)
    requires
        0 <= p,
        p + 1 < t.len(),
        t[p] == '\n' && t[p + 1] == '\n',
        forall|i: int| p < i && i + 1 < t.len() ==> !(#[trigger] t[i] == '\n' && t[i + 1] == '\n'),
    ensures
        cut_at_double_newline(t) == Some(t.take(p)),
    decreases t.len(),
{
    if p == t.len() - 2 {
    } else {
        let u = t.drop_last();
        assert forall|i: int| p < i && i + 1 < u.len() implies !(#[trigger] u[i] == '\n'
            && u[i + 1] == '\n') by {
            assert(u[i] == t[i]);
            assert(u[i + 1] == t[i + 1]);
        }
        lemma_cut_double_newline_at(u, p);
        assert(u.take(p) =~= t.take(p));
    }
}

proof fn lemma_cut_newline_none(t: Seq<char>)
    requires
        forall|i: int| 0 <= i < t.len() ==> t[i] != '\n',
    ensures
        cut_at_newline(t) is None,
    decreases t.len(),
{
    if t.len() > 0 {
        lemma_cut_newline_none(t.drop_last());
    }
}

proof fn lemma_cut_newline_at(t: Seq<char>, p: int)
    requires
        0 <= p < t.len(),
        t[p] == '\n',
        forall|i: int| p < i < t.len() ==> t[i] != '\n',
    ensures
        cut_at_newline(t) == Some(t.take(p)),
    decreases t.len(),
{
    if p == t.len() - 1 {
        assert(t.drop_last() =~= t.take(p));
    } else {
        lemma_cut_newline_at(t.drop_last(), p);
        assert(t.drop_last().take(p) =~= t.take(p));
    }
}

proof fn lemma_word_seq_words_nonempty(s: Seq<char>)
    ensures
        forall|i: int| 0 <= i < word_seq(s).len() ==> #[trigger] word_seq(s)[i].len() >= 1,
    decreases s.len(),
{
    if s.len() == 0 {
    } else if is_space(s.first()) {
        lemma_word_seq_words_nonempty(s.drop_first());
        assert(word_seq(s) == word_seq(s.drop_first()));
    } else {
        let l = crate::text::take_word(s).len() as int;
        crate::text::lemma_take_word_len(s);
        assert(l >= 1);
        lemma_word_seq_words_nonempty(s.skip(l));
        assert(word_seq(s) == seq![crate::text::take_word(s)] + word_seq(s.skip(l)));
        assert forall|i: int| 0 <= i < word_seq(s).len() implies #[trigger] word_seq(s)[i].len()
            >= 1 by {
            if i == 0 {
                assert(word_seq(s)[0] == crate::text::take_word(s));
            } else {
                assert(word_seq(s)[i] == word_seq(s.skip(l))[i - 1]);
            }
        }
    }
}

// ---------------------------------------------------------------------------
// Executable delete operations.
// ---------------------------------------------------------------------------

fn delete_last_word(s: &str) -> (r: String)
    ensures
        r@ == delete_last_word_spec(s@),
{
    let t = trim_end_str(s);
    let n = t.unicode_len();
    let mut k = n;
    while k > 0 && !is_space_char(t.get_char(k - 1))
        invariant
            k <= n,
            n == t@.len(),
            forall|i: int| k <= i < n ==> !is_space(t@[i]),
        decreases k,
    {
        k = k - 1;
    }
    if k == 0 {
        proof {
            lemma_cut_last_word_none(t@);
        }
        String::new()
    } else {
        proof {
            lemma_cut_last_word_at(t@, k - 1);
        }
        substr_string(t, 0, k - 1)
    }
}

fn delete_last_sentence(s: &str) -> (r: String)
    ensures
        r@ == delete_last_sentence_spec(s@),
{
    let t = trim_end_str(s);
    let n = t.unicode_len();
    let mut k = n;
    while k > 0 && is_sentence_end_char(t.get_char(k - 1))
        invariant
            k <= n,
            n == t@.len(),
            forall|i: int| k <= i < n ==> is_sentence_end(t@[i]),
        decreases k,
    {
        k = k - 1;
    }
    proof {
        lemma_strip_sentence_ends_take(t@, k as int);
    }
    let u = t.substring_char(0, k);
    let mut j = k;
    while j > 0 && !is_sentence_end_char(u.get_char(j - 1))
        invariant
            j <= k,
            k == u@.len(),
            forall|i: int| j <= i < k ==> !is_sentence_end(u@[i]),
        decreases j,
    {
        j = j - 1;
    }
    if j == 0 {
        proof {
            lemma_keep_through_none(u@);
        }
        String::new()
    } else {
        proof {
            lemma_keep_through_at(u@, j - 1);
            assert(u@.take(j as int) =~= u@.subrange(0, j as int));
        }
        let kept = u.substring_char(0, j);
        String::from_str(trim_end_str(kept))
    }
}

fn delete_last_paragraph(s: &str) -> (r: String)
    ensures
        r@ == delete_last_paragraph_spec(s@),
{
    let t = trim_end_str(s);
    let n = t.unicode_len();
    let mut k = n;
    while k >= 2 && !(t.get_char(k - 2) == '\n' && t.get_char(k - 1) == '\n')
        invariant
            k <= n,
            n == t@.len(),
            forall|i: int| k - 1 <= i && i + 1 < n ==> !(#[trigger] t@[i] == '\n' && t@[i + 1] == '\n'),
        decreases k,
    {
        k = k - 1;
    }
    if k >= 2 {
        proof {
            lemma_cut_double_newline_at(t@, k - 2);
        }
        return substr_string(t, 0, k - 2);
    }
    proof {
        lemma_cut_double_newline_none(t@);
    }
    let mut j = n;
    while j > 0 && !(t.get_char(j - 1) == '\n')
        invariant
            j <= n,
            n == t@.len(),
            forall|i: int| j <= i < n ==> t@[i] != '\n',
        decreases j,
    {
        j = j - 1;
    }
    if j > 0 {
        proof {
            lemma_cut_newline_at(t@, j - 1);
        }
        substr_string(t, 0, j - 1)
    } else {
        proof {
            lemma_cut_newline_none(t@);
        }
        String::new()
    }
}

fn delete_range(s: &str, start: usize, end: usize) -> (r: String)
    ensures
        r@ == delete_range_spec(s@, start as int, end as int),
{
    let n = s.unicode_len();
    if start >= n || start >= end {
        return String::from_str(s);
    }
    if end >= n {
        return substr_string(s, 0, start);
    }
    let head = substr_string(s, 0, start);
    let tail = s.substring_char(end, n);
    head.concat(tail)
}

fn delete_words(s: &str, count: usize) -> (r: String)
    ensures
        r@ == delete_words_spec(s@, count as int),
{
    let t = trim_end_str(s);
    if t.unicode_len() == 0 || count == 0 {
        return String::from_str(t);
    }
    let words = split_words(t);
    if words.len() <= count {
        return String::new();
    }
    let keep = words.len() - count;
    let r = join_prefix(&words, keep);
    proof {
        assert(str_views(words@).take(keep as int) =~= word_seq(t@).take(
            word_seq(t@).len() - count,
        ));
    }
    r
}

fn delete_from_position(s: &str, position: usize) -> (r: String)
    ensures
        r@ == delete_from_position_spec(s@, position as int),
{
    let n = s.unicode_len();
    if position >= n {
        return String::from_str(s);
    }
    substr_string(s, 0, position)
}

// ---------------------------------------------------------------------------
// Executable format operations.
// ---------------------------------------------------------------------------

fn format_text(s: &str, op: &FormatOperation) -> (r: String)
    ensures
        r@ == format_spec(s@, *op),
{
    let n = s.unicode_len();
    if n == 0 {
        proof {
            assert(word_seq(s@) =~= Seq::<Seq<char>>::empty());
        }
        return String::new();
    }
    let words = split_words(s);
    if words.len() == 0 {
        return String::from_str(s);
    }
    proof {
        lemma_word_seq_words_nonempty(s@);
    }
    let last = &words[words.len() - 1];
    proof {
        assert(last@ == str_views(words@)[words@.len() - 1]);
        assert(last@.len() >= 1);
    }
    let ln = last.as_str().unicode_len();
    let styled: String = match op {
        FormatOperation::Capitalize => {
            let first = last.as_str().substring_char(0, 1);
            let up = uppercase_of(first);
            let rest = last.as_str().substring_char(1, ln);
            proof {
                assert(first@ =~= last@.take(1));
                assert(rest@ =~= last@.skip(1));
            }
            up.concat(rest)
        },
        FormatOperation::Lowercase => lowercase_of(last.as_str()),
        FormatOperation::Uppercase => uppercase_of(last.as_str()),
        FormatOperation::Style(style) => {
            let (open_mark, close_mark): (&str, &str) = match style {
                TextStyle::Bold => ("**", "**"),
                TextStyle::Italic => ("*", "*"),
                TextStyle::Underline => ("_", "_"),
            };
            proof {
                reveal_strlit("**");
                reveal_strlit("*");
                reveal_strlit("_");
            }
            let mut w = String::from_str(open_mark);
            w.append(last.as_str());
            w.append(close_mark);
            proof {
                assert(w@ =~= format_word(last@, *op));
            }
            w
        },
    };
    if words.len() == 1 {
        proof {
            assert(last_word_of(s@) == last@);
        }
        styled
    } else {
        let mut out = join_prefix(&words, words.len() - 1);
        out.append(" ");
        out.append(styled.as_str());
        proof {
            reveal_strlit(" ");
            let ws = word_seq(s@);
            assert(ws.drop_last() =~= str_views(words@).take(words@.len() - 1));
            assert(out@ =~= join_sp(ws.drop_last()) + seq![' '] + styled@);
        }
        out
    }
}

} // verus!

verus! {

// ---------------------------------------------------------------------------
// The editor and its linear undo/redo history.
// ---------------------------------------------------------------------------

/// True when `e` records operation `op` taking the text `before` to `after`
/// (the timestamp is left open).
pub open spec fn entry_is(
    e: TextOperationHistory,
    op: TextEditOperation,
    before: Seq<char>,
    after: Seq<char>,
) -> bool {
    e.operation == op && e.previous_text@ == before && e.current_text@ == after
}

/// The history and cursor after recording a new entry: the redo branch beyond
/// the cursor is discarded, the entry is appended, the cursor moves to the
/// end, and if the bound is exceeded the oldest entry is dropped.
pub open spec fn spec_record(
    h: Seq<TextOperationHistory>,
    pos: int,
    max: int,
    e: TextOperationHistory,
) -> (Seq<TextOperationHistory>, int) {
    let p = h.take(pos).push(e);
    if p.len() > max {
        (p.skip(1), p.len() - 1)
    } else {
        (p, p.len() as int)
    }
}

/// True when the state `(h1, pos1)` is `(h0, pos0)` after recording an entry
/// for operation `op` taking `before` to `after`.
pub open spec fn recorded_with(
    h1: Seq<TextOperationHistory>,
    pos1: int,
    h0: Seq<TextOperationHistory>,
    pos0: int,
    max: int,
    op: TextEditOperation,
    before: Seq<char>,
    after: Seq<char>,
) -> bool {
    exists|e: TextOperationHistory|
        #[trigger] entry_is(e, op, before, after) && h1 == spec_record(h0, pos0, max, e).0 && pos1
            == spec_record(h0, pos0, max, e).1
}

/// What `undo` returns and where it leaves the cursor.
pub open spec fn spec_undo(h: Seq<TextOperationHistory>, pos: int) -> (Option<String>, int) {
    if pos == 0 {
        (None, 0int)
    } else {
        (Some(h[pos - 1].previous_text), pos - 1)
    }
}

/// What `redo` returns and where it leaves the cursor.
pub open spec fn spec_redo(h: Seq<TextOperationHistory>, pos: int) -> (Option<String>, int) {
    if pos >= h.len() {
        (None, pos)
    } else {
        (Some(h[pos].current_text), pos + 1)
    }
}

/// Text editor that applies voice-driven operations to a text buffer and
/// keeps a linear undo/redo history of bounded size.
pub struct VoiceTextEditor {
    /// Operation history for undo/redo.
    history: Vec<TextOperationHistory>,
    /// Current position in the history (for undo/redo).
    history_position: usize,
    /// Maximum history size.
    max_history: usize,
}

impl VoiceTextEditor {
    /// The recorded history entries, oldest first.
    pub closed spec fn entries(&self) -> Seq<TextOperationHistory> {
        self.history@
    }

    /// The history cursor: the number of entries that are not undone.
    pub closed spec fn cursor(&self) -> int {
        self.history_position as int
    }

    /// The bound on the history length.
    pub closed spec fn capacity(&self) -> int {
        self.max_history as int
    }

    /// The cursor stays within the history and the history within its bound.
    pub closed spec fn wf(&self) -> bool {
        self.history_position <= self.history@.len() && self.history@.len() <= self.max_history
            && self.max_history >= 1
    }

    /// Creates an editor with an empty history and the default bound.
    pub fn new() -> (r: Self)
        ensures
            r.wf(),
            r.entries().len() == 0,
            r.cursor() == 0,
            r.capacity() == 50,
    {
        VoiceTextEditor { history: Vec::new(), history_position: 0, max_history: 50 }
    }

    /// Changes the history bound; the history must already fit under it.
    pub fn set_max_history(&mut self, max: usize)
        requires
            old(self).wf(),
            max >= 1,
            old(self).entries().len() <= max,
        ensures
            final(self).wf(),
            final(self).capacity() == max,
            final(self).entries() == old(self).entries(),
            final(self).cursor() == old(self).cursor(),
    {
        self.max_history = max;
    }

    fn add_to_history(
        &mut self,
        operation: TextEditOperation,
        previous_text: String,
        current_text: String,
    )
        requires
            old(self).wf(),
        ensures
            final(self).wf(),
            final(self).capacity() == old(self).capacity(),
            final(self).cursor() == final(self).entries().len(),
            recorded_with(
                final(self).entries(),
                final(self).cursor(),
                old(self).entries(),
                old(self).cursor(),
                final(self).capacity(),
                operation,
                previous_text@,
                current_text@,
            ),
    {
        let ghost h0 = self.history@;
        let ghost pos0 = self.history_position as int;
        if self.history_position < self.history.len() {
            self.history.truncate(self.history_position);
        }
        proof {
            assert(self.history@ =~= h0.take(pos0));
        }
        let timestamp = now_timestamp_millis();
        let entry = TextOperationHistory { operation, previous_text, current_text, timestamp };
        let ghost ge = entry;
        self.history.push(entry);
        self.history_position = self.history.len();
        if self.history.len() > self.max_history {
            self.history.remove(0);
            self.history_position = self.history_position - 1;
        }
        proof {
            let p = h0.take(pos0).push(ge);
            if p.len() > self.max_history {
                assert(self.history@ =~= p.skip(1));
            }
            assert(entry_is(ge, operation, previous_text@, current_text@));
            assert(self.history@ == spec_record(h0, pos0, self.max_history as int, ge).0);
        }
    }

    /// Applies a delete operation to the given text, records it, and returns
    /// the new text; every scope succeeds.
    pub fn apply_delete(&mut self, text: &str, scope: DeleteScope) -> (r: Result<String, String>)
        requires
            old(self).wf(),
        ensures
            final(self).wf(),
            final(self).capacity() == old(self).capacity(),
            final(self).cursor() == final(self).entries().len(),
            r is Ok,
            r matches Ok(t) ==> t@ == delete_spec(text@, scope),
            recorded_with(
                final(self).entries(),
                final(self).cursor(),
                old(self).entries(),
                old(self).cursor(),
                final(self).capacity(),
                TextEditOperation::Delete(scope),
                text@,
                delete_spec(text@, scope),
            ),
    {
        let previous_text = String::from_str(text);
        let current_text = match &scope {
            DeleteScope::LastWord => delete_last_word(text),
            DeleteScope::LastSentence => delete_last_sentence(text),
            DeleteScope::LastParagraph => delete_last_paragraph(text),
            DeleteScope::Range(start, end) => delete_range(text, *start, *end),
            DeleteScope::Words(count) => delete_words(text, *count),
            DeleteScope::FromPosition(pos) => delete_from_position(text, *pos),
        };
        let result = current_text.clone();
        self.add_to_history(TextEditOperation::Delete(scope), previous_text, current_text);
        Ok(result)
    }

    /// Applies a format operation to the given text, records it, and returns
    /// the new text; every operation succeeds.
    pub fn apply_format(&mut self, text: &str, format_op: FormatOperation) -> (r: Result<
        String,
        String,
    >)
        requires
            old(self).wf(),
        ensures
            final(self).wf(),
            final(self).capacity() == old(self).capacity(),
            final(self).cursor() == final(self).entries().len(),
            r is Ok,
            r matches Ok(t) ==> t@ == format_spec(text@, format_op),
            recorded_with(
                final(self).entries(),
                final(self).cursor(),
                old(self).entries(),
                old(self).cursor(),
                final(self).capacity(),
                TextEditOperation::Format(format_op),
                text@,
                format_spec(text@, format_op),
            ),
    {
        let previous_text = String::from_str(text);
        let current_text = format_text(text, &format_op);
        let result = current_text.clone();
        self.add_to_history(TextEditOperation::Format(format_op), previous_text, current_text);
        Ok(result)
    }

    /// Steps the cursor back and returns the text from before the exited
    /// entry; `None` at the start of the history.
    pub fn undo(&mut self) -> (r: Option<String>)
        requires
            old(self).wf(),
        ensures
            final(self).wf(),
            final(self).entries() == old(self).entries(),
            final(self).capacity() == old(self).capacity(),
            r == spec_undo(old(self).entries(), old(self).cursor()).0,
            final(self).cursor() == spec_undo(old(self).entries(), old(self).cursor()).1,
    {
        if self.history_position == 0 {
            return None;
        }
        self.history_position = self.history_position - 1;
        Some(self.history[self.history_position].previous_text.clone())
    }

    /// Returns the text produced by the entry at the cursor and steps the
    /// cursor forward; `None` at the end of the history.
    pub fn redo(&mut self) -> (r: Option<String>)
        requires
            old(self).wf(),
        ensures
            final(self).wf(),
            final(self).entries() == old(self).entries(),
            final(self).capacity() == old(self).capacity(),
            r == spec_redo(old(self).entries(), old(self).cursor()).0,
            final(self).cursor() == spec_redo(old(self).entries(), old(self).cursor()).1,
    {
        if self.history_position >= self.history.len() {
            return None;
        }
        let text = self.history[self.history_position].current_text.clone();
        self.history_position = self.history_position + 1;
        Some(text)
    }

    /// The recorded history, oldest entry first.
    pub fn get_history(&self) -> (r: &[TextOperationHistory])
        ensures
            r@ == self.entries(),
    {
        self.history.as_slice()
    }

    /// The history cursor.
    pub fn get_history_position(&self) -> (r: usize)
        ensures
            r == self.cursor(),
    {
        self.history_position
    }

    /// Forgets the whole history.
    pub fn clear_history(&mut self)
        requires
            old(self).wf(),
        ensures
            final(self).wf(),
            final(self).entries().len() == 0,
            final(self).cursor() == 0,
            final(self).capacity() == old(self).capacity(),
    {
        self.history.clear();
        self.history_position = 0;
    }
}

/// What well-formedness guarantees about the editor's model: the cursor
/// stays within the history and the history within its bound.
pub proof fn lemma_editor_bounds(e: &VoiceTextEditor)
    requires
        e.wf(),
    ensures
        0 <= e.cursor() <= e.entries().len(),
        e.entries().len() <= e.capacity(),
        e.capacity() >= 1,
{
}

// ---------------------------------------------------------------------------
// Laws of the history.
// ---------------------------------------------------------------------------

/// After any operation is recorded, one `undo` returns exactly the text from
/// before the operation, and one `redo` after that returns exactly the text
/// from after it.
pub proof fn lemma_undo_redo_round_trip(
    h0: Seq<TextOperationHistory>,
    pos0: int,
    max: int,
    e: TextOperationHistory,
)
    requires
        0 <= pos0 <= h0.len(),
        max >= 1,
    ensures
        ({
            let (h1, pos1) = spec_record(h0, pos0, max, e);
            &&& pos1 >= 1
            &&& h1[pos1 - 1] == e
            &&& spec_undo(h1, pos1) == (Some(e.previous_text), pos1 - 1)
            &&& spec_redo(h1, pos1 - 1) == (Some(e.current_text), pos1)
        }),
{
    let p = h0.take(pos0).push(e);
    if p.len() > max {
        assert(p.skip(1)[p.len() - 2] == e);
    }
}

/// Once the history is full, recording one more operation keeps its length at
/// the bound, drops the oldest entry, and leaves the cursor at the end: the
/// dropped entry can no longer be reached by `undo`.
pub proof fn lemma_history_saturation(h0: Seq<TextOperationHistory>, max: int, e: TextOperationHistory)
    requires
        h0.len() == max,
        max >= 1,
    ensures
        ({
            let (h1, pos1) = spec_record(h0, h0.len() as int, max, e);
            &&& h1 =~= h0.skip(1).push(e)
            &&& h1.len() == max
            &&& pos1 == max
        }),
{
    assert(h0.take(h0.len() as int) =~= h0);
}

/// The delete scope a spoken scope name selects, if any.
pub open spec fn scope_for_name(name: Seq<char>) -> Option<DeleteScope> {
    if name == "word"@ {
        Some(DeleteScope::LastWord)
    } else if name == "sentence"@ {
        Some(DeleteScope::LastSentence)
    } else if name == "paragraph"@ {
        Some(DeleteScope::LastParagraph)
    } else {
        None
    }
}

/// Maps a spoken scope name to the delete scope it selects; unknown names are
/// rejected.
pub fn delete_scope_from_name(name: &str) -> (r: Result<DeleteScope, String>)
    ensures
        match r {
            Ok(scope) => scope_for_name(name@) == Some(scope),
            Err(_) => scope_for_name(name@) is None,
        },
{
    if str_eq(name, "word") {
        Ok(DeleteScope::LastWord)
    } else if str_eq(name, "sentence") {
        Ok(DeleteScope::LastSentence)
    } else if str_eq(name, "paragraph") {
        Ok(DeleteScope::LastParagraph)
    } else {
        Err(String::from_str("unknown delete scope"))
    }
}

} // verus!
