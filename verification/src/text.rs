//! Character-level text utilities shared by the editor and the command
//! interpreter: trimming, word splitting and joining, substring search,
//! and trusted wrappers for Unicode case mapping.

use vstd::prelude::*;

verus! {

/// The result of `str::to_lowercase`: a pure function of the characters alone.
pub uninterp spec fn lower_of(s: Seq<char>) -> Seq<char>;

/// The result of `str::to_uppercase`: a pure function of the characters alone.
pub uninterp spec fn upper_of(s: Seq<char>) -> Seq<char>;

/// Relies on str::to_lowercase: the Unicode lowercase mapping of the text,
/// which depends on the characters alone.
#[verifier::external_body]
pub fn lowercase_of(s: &str) -> (r: String)
    ensures
        r@ == lower_of(s@),
{
    s.to_lowercase()
}

/// Relies on str::to_uppercase: the Unicode uppercase mapping of the text,
/// which depends on the characters alone.
#[verifier::external_body]
pub fn uppercase_of(s: &str) -> (r: String)
    ensures
        r@ == upper_of(s@),
{
    s.to_uppercase()
}

/// True for the ASCII whitespace characters this library treats as word
/// separators: space, tab, newline and carriage return.
pub open spec fn is_space(c: char) -> bool {
    c == ' ' || c == '\t' || c == '\n' || c == '\r'
}

/// Executable test for [`is_space`].
pub fn is_space_char(c: char) -> (r: bool)
    ensures
        r == is_space(c),
{
    c == ' ' || c == '\t' || c == '\n' || c == '\r'
}

/// The text with trailing whitespace removed.
pub open spec fn trim_end_spec(s: Seq<char>) -> Seq<char>
    decreases s.len(),
{
    if s.len() > 0 && is_space(s.last()) {
        trim_end_spec(s.drop_last())
    } else {
        s
    }
}

/// The text with leading whitespace removed.
pub open spec fn trim_start_spec(s: Seq<char>) -> Seq<char>
    decreases s.len(),
{
    if s.len() > 0 && is_space(s.first()) {
        trim_start_spec(s.drop_first())
    } else {
        s
    }
}

/// The text with whitespace removed from both ends.
pub open spec fn trim_spec(s: Seq<char>) -> Seq<char> {
    trim_start_spec(trim_end_spec(s))
}

proof fn lemma_trim_end_take(s: Seq<char>, k: int)
    requires
        0 <= k <= s.len(),
        forall|i: int| k <= i < s.len() ==> is_space(s[i]),
        k > 0 ==> !is_space(s[k - 1]),
    ensures
        trim_end_spec(s) == s.take(k),
    decreases s.len(),
{
    if k == s.len() {
        assert(s.take(k) =~= s);
    } else {
        assert(is_space(s.last()));
        assert(s.drop_last().take(k) =~= s.take(k));
        lemma_trim_end_take(s.drop_last(), k);
    }
}

proof fn lemma_trim_start_skip(s: Seq<char>, k: int)
    requires
        0 <= k <= s.len(),
        forall|i: int| 0 <= i < k ==> is_space(s[i]),
        k < s.len() ==> !is_space(s[k]),
    ensures
        trim_start_spec(s) == s.skip(k),
    decreases k,
{
    if k == 0 {
        assert(s.skip(0) =~= s);
    } else {
        assert(is_space(s.first()));
        assert(s.drop_first().skip(k - 1) =~= s.skip(k));
        lemma_trim_start_skip(s.drop_first(), k - 1);
    }
}

/// Removes trailing whitespace.
pub fn trim_end_str<'a>(s: &'a str) -> (r: &'a str)
    ensures
        r@ == trim_end_spec(s@),
{
    let n = s.unicode_len();
    let mut k = n;
    while k > 0 && is_space_char(s.get_char(k - 1))
        invariant
            k <= n,
            n == s@.len(),
            forall|i: int| k <= i < n ==> is_space(s@[i]),
        decreases k,
    {
        k = k - 1;
    }
    proof {
        lemma_trim_end_take(s@, k as int);
    }
    s.substring_char(0, k)
}

/// Removes leading whitespace.
pub fn trim_start_str<'a>(s: &'a str) -> (r: &'a str)
    ensures
        r@ == trim_start_spec(s@),
{
    let n = s.unicode_len();
    let mut k: usize = 0;
    while k < n && is_space_char(s.get_char(k))
        invariant
            k <= n,
            n == s@.len(),
            forall|i: int| 0 <= i < k ==> is_space(s@[i]),
        decreases n - k,
    {
        k = k + 1;
    }
    proof {
        lemma_trim_start_skip(s@, k as int);
    }
    s.substring_char(k, n)
}

/// Removes whitespace from both ends.
pub fn trim_str<'a>(s: &'a str) -> (r: &'a str)
    ensures
        r@ == trim_spec(s@),
{
    trim_start_str(trim_end_str(s))
}

/// True when `p` occurs in `t` starting at position `i`.
pub open spec fn contains_at(t: Seq<char>, p: Seq<char>, i: int) -> bool {
    0 <= i && i + p.len() <= t.len() && t.subrange(i, i + p.len()) == p
}

/// True when `p` occurs somewhere in `t`.
pub open spec fn contains_seq(t: Seq<char>, p: Seq<char>) -> bool {
    exists|i: int| contains_at(t, p, i)
}

fn match_at(t: &str, p: &str, i: usize) -> (r: bool)
    requires
        i + p@.len() <= t@.len(),
    ensures
        r == contains_at(t@, p@, i as int),
{
    let n = t.unicode_len();
    let m = p.unicode_len();
    let mut j: usize = 0;
    while j < m
        invariant
            j <= m,
            n == t@.len(),
            m == p@.len(),
            i + m <= n,
            forall|x: int| 0 <= x < j ==> t@[i + x] == p@[x],
        decreases m - j,
    {
        if t.get_char(i + j) != p.get_char(j) {
            assert(t@.subrange(i as int, i + p@.len())[j as int] != p@[j as int]);
            return false;
        }
        j = j + 1;
    }
    assert(t@.subrange(i as int, i + p@.len()) =~= p@);
    true
}

/// Finds the first occurrence of `p` in `t`, if any.
pub fn find_str(t: &str, p: &str) -> (r: Option<usize>)
    ensures
        match r {
            Some(i) => contains_at(t@, p@, i as int) && forall|j: int|
                0 <= j < i ==> !contains_at(t@, p@, j),
            None => !contains_seq(t@, p@),
        },
{
    let n = t.unicode_len();
    let m = p.unicode_len();
    if m > n {
        assert(forall|i: int| !contains_at(t@, p@, i));
        return None;
    }
    if m == 0 {
        assert(t@.subrange(0, 0) =~= p@);
        return Some(0);
    }
    let mut i: usize = 0;
    while i <= n - m
        invariant
            i <= n - m + 1,
            1 <= m <= n,
            n == t@.len(),
            m == p@.len(),
            forall|j: int| 0 <= j < i ==> !contains_at(t@, p@, j),
        decreases n - i,
    {
        if match_at(t, p, i) {
            return Some(i);
        }
        i = i + 1;
    }
    assert(forall|j: int| j > n - m ==> !contains_at(t@, p@, j));
    None
}

/// True when `p` occurs somewhere in `t`.
pub fn contains_str(t: &str, p: &str) -> (r: bool)
    ensures
        r == contains_seq(t@, p@),
{
    match find_str(t, p) {
        Some(_) => true,
        None => false,
    }
}

/// True when `t` begins with `p`.
pub fn starts_with_str(t: &str, p: &str) -> (r: bool)
    ensures
        r == contains_at(t@, p@, 0),
{
    if p.unicode_len() > t.unicode_len() {
        return false;
    }
    match_at(t, p, 0)
}

/// True when the two texts hold the same characters.
pub fn str_eq(a: &str, b: &str) -> (r: bool)
    ensures
        r == (a@ == b@),
{
    let n = a.unicode_len();
    if n != b.unicode_len() {
        return false;
    }
    let r = match_at(a, b, 0);
    proof {
        if contains_at(a@, b@, 0) {
            assert(a@.subrange(0, a@.len() as int) =~= a@);
        } else {
            assert(a@ != b@) by {
                if a@ == b@ {
                    assert(a@.subrange(0, b@.len() as int) =~= b@);
                }
            }
        }
    }
    r
}

/// Copies the characters `from..to` of `s` into a fresh string.
pub fn substr_string(s: &str, from: usize, to: usize) -> (r: String)
    requires
        from <= to <= s@.len(),
    ensures
        r@ == s@.subrange(from as int, to as int),
{
    String::from_str(s.substring_char(from, to))
}

/// The longest whitespace-free prefix of the text.
pub open spec fn take_word(s: Seq<char>) -> Seq<char>
    decreases s.len(),
{
    if s.len() > 0 && !is_space(s.first()) {
        seq![s.first()] + take_word(s.drop_first())
    } else {
        Seq::empty()
    }
}

pub proof fn lemma_take_word_len(s: Seq<char>)
    ensures
        take_word(s).len() <= s.len(),
        s.len() > 0 && !is_space(s.first()) ==> take_word(s).len() >= 1,
    decreases s.len(),
{
    if s.len() > 0 && !is_space(s.first()) {
        lemma_take_word_len(s.drop_first());
    }
}

/// The whitespace-delimited words of the text, in order.
pub open spec fn word_seq(s: Seq<char>) -> Seq<Seq<char>>
    decreases s.len(),
    via word_seq_dec
{
    if s.len() == 0 {
        Seq::empty()
    } else if is_space(s.first()) {
        word_seq(s.drop_first())
    } else {
        seq![take_word(s)] + word_seq(s.skip(take_word(s).len() as int))
    }
}

#[via_fn]
proof fn word_seq_dec(s: Seq<char>) {
    if s.len() > 0 && !is_space(s.first()) {
        lemma_take_word_len(s);
        assert(take_word(s).len() >= 1);
    }
}

/// The views of a sequence of strings.
pub open spec fn str_views(v: Seq<String>) -> Seq<Seq<char>> {
    v.map_values(|w: String| w@)
}

proof fn lemma_word_seq_skip_spaces(s: Seq<char>, k: int)
    requires
        0 <= k <= s.len(),
        forall|i: int| 0 <= i < k ==> is_space(s[i]),
    ensures
        word_seq(s) == word_seq(s.skip(k)),
    decreases k,
{
    if k == 0 {
        assert(s.skip(0) =~= s);
    } else {
        assert(is_space(s.first()));
        assert(s.drop_first().skip(k - 1) =~= s.skip(k));
        lemma_word_seq_skip_spaces(s.drop_first(), k - 1);
    }
}

proof fn lemma_take_word_prefix(s: Seq<char>, j: int)
    requires
        0 <= j <= s.len(),
        forall|i: int| 0 <= i < j ==> !is_space(s[i]),
        j < s.len() ==> is_space(s[j]),
    ensures
        take_word(s) == s.take(j),
    decreases j,
{
    if j == 0 {
        assert(s.take(0) =~= Seq::<char>::empty());
    } else {
        assert(!is_space(s.first()));
        lemma_take_word_prefix(s.drop_first(), j - 1);
        assert(seq![s.first()] + s.drop_first().take(j - 1) =~= s.take(j));
    }
}

proof fn lemma_word_seq_first_word(s: Seq<char>, j: int)
    requires
        1 <= j <= s.len(),
        forall|i: int| 0 <= i < j ==> !is_space(s[i]),
        j < s.len() ==> is_space(s[j]),
    ensures
        word_seq(s) == seq![s.take(j)] + word_seq(s.skip(j)),
{
    lemma_take_word_prefix(s, j);
}

/// Splits the text into its whitespace-delimited words.
pub fn split_words(s: &str) -> (r: Vec<String>)
    ensures
        str_views(r@) == word_seq(s@),
    decreases s@.len(),
{
    let n = s.unicode_len();
    let mut i: usize = 0;
    while i < n && is_space_char(s.get_char(i))
        invariant
            i <= n,
            n == s@.len(),
            forall|x: int| 0 <= x < i ==> is_space(s@[x]),
        decreases n - i,
    {
        i = i + 1;
    }
    proof {
        lemma_word_seq_skip_spaces(s@, i as int);
    }
    if i == n {
        let r = Vec::<String>::new();
        proof {
            assert(str_views(r@) =~= word_seq(s@));
        }
        return r;
    }
    let mut j = i + 1;
    while j < n && !is_space_char(s.get_char(j))
        invariant
            i < j <= n,
            n == s@.len(),
            forall|x: int| i <= x < j ==> !is_space(s@[x]),
        decreases n - j,
    {
        j = j + 1;
    }
    let w = substr_string(s, i, j);
    let rest = s.substring_char(j, n);
    proof {
        assert(rest@ =~= s@.skip(j as int));
        let t = s@.skip(i as int);
        assert(forall|x: int| 0 <= x < j - i ==> !is_space(t[x]));
        lemma_word_seq_first_word(t, j - i);
        assert(t.take(j - i) =~= s@.subrange(i as int, j as int));
        assert(t.skip(j - i) =~= s@.skip(j as int));
    }
    let mut r = split_words(rest);
    r.insert(0, w);
    proof {
        assert(str_views(r@) =~= seq![w@] + word_seq(rest@));
        assert(seq![w@] + word_seq(rest@) =~= word_seq(s@));
    }
    r
}

/// The words joined by single spaces.
pub open spec fn join_sp(ws: Seq<Seq<char>>) -> Seq<char>
    decreases ws.len(),
{
    if ws.len() == 0 {
        Seq::empty()
    } else if ws.len() == 1 {
        ws[0]
    } else {
        join_sp(ws.drop_last()) + seq![' '] + ws.last()
    }
}

/// Joins the first `k` words with single spaces.
pub fn join_prefix(words: &Vec<String>, k: usize) -> (r: String)
    requires
        k <= words@.len(),
    ensures
        r@ == join_sp(str_views(words@).take(k as int)),
{
    let mut r = String::new();
    let mut i: usize = 0;
    while i < k
        invariant
            i <= k <= words@.len(),
            r@ == join_sp(str_views(words@).take(i as int)),
        decreases k - i,
    {
        if i > 0 {
            r.append(" ");
        }
        r.append(words[i].as_str());
        proof {
            reveal_strlit(" ");
            let ws = str_views(words@);
            assert(ws.take(i + 1).drop_last() =~= ws.take(i as int));
            assert(ws.take(i + 1).last() == words@[i as int]@);
            if i == 0 {
                assert(r@ =~= ws.take(1)[0]);
            } else {
                assert(r@ =~= join_sp(ws.take(i as int)) + seq![' '] + ws.take(i + 1).last());
            }
        }
        i = i + 1;
    }
    r
}

} // verus!
