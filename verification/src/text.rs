//! Character-level helpers: hex encoding, whitespace, string building.

use vstd::prelude::*;

verus! {

/// Calls `String::push`. The claim: the character is appended.
#[verifier::external_body]
pub(crate) fn push_char(s: &mut String, c: char)
    ensures
        final(s)@ == old(s)@.push(c),
{
    s.push(c);
}

/// The lowercase hex digit for a value below 16.
pub open spec fn hex_digit(v: int) -> char {
    if v < 10 {
        ((48 + v) as u32) as char
    } else {
        ((87 + v) as u32) as char
    }
}

/// High nibble first, then low nibble.
pub open spec fn nibble(b: u8, low: bool) -> int {
    if low {
        (b % 16) as int
    } else {
        (b / 16) as int
    }
}

/// Lowercase hex encoding, two digits per byte, high nibble first.
pub open spec fn hex_lower_spec(bytes: Seq<u8>) -> Seq<char> {
    Seq::new(2 * bytes.len(), |i: int| hex_digit(nibble(bytes[i / 2], i % 2 == 1)))
}

/// The number a hex digit stands for.
pub open spec fn hex_value(c: char) -> int {
    if '0' <= c && c <= '9' {
        (c as int) - ('0' as int)
    } else {
        (c as int) - ('a' as int) + 10
    }
}

/// Each byte is written as two lowercase hex digits, high nibble first:
/// both are in `0-9a-f`, and reading them back as numbers gives the byte.
pub proof fn lemma_hex_lower_reads_back(bytes: Seq<u8>, i: int)
    requires
        0 <= i < bytes.len(),
    ensures
        hex_lower_spec(bytes).len() == 2 * bytes.len(),
        ('0' <= hex_lower_spec(bytes)[2 * i] && hex_lower_spec(bytes)[2 * i] <= '9') || ('a' <= hex_lower_spec(
            bytes,
        )[2 * i] && hex_lower_spec(bytes)[2 * i] <= 'f'),
        ('0' <= hex_lower_spec(bytes)[2 * i + 1] && hex_lower_spec(bytes)[2 * i + 1] <= '9') || ('a'
            <= hex_lower_spec(bytes)[2 * i + 1] && hex_lower_spec(bytes)[2 * i + 1] <= 'f'),
        hex_value(hex_lower_spec(bytes)[2 * i]) * 16 + hex_value(hex_lower_spec(bytes)[2 * i + 1]) == bytes[i] as int,
{
    let h = hex_lower_spec(bytes);
    let b = bytes[i];
    assert((2 * i) / 2 == i && (2 * i + 1) / 2 == i && (2 * i) % 2 == 0 && (2 * i + 1) % 2 == 1);
    assert(h[2 * i] == hex_digit((b / 16) as int));
    assert(h[2 * i + 1] == hex_digit((b % 16) as int));
    assert((b / 16) * 16 + (b % 16) == b);
}

/// The lowercase hex digit for `v`.
pub fn hex_char(v: u8) -> (c: char)
    requires
        v < 16,
    ensures
        c == hex_digit(v as int),
{
    if v < 10 {
        ((48u8 + v) as char)
    } else {
        ((87u8 + v) as char)
    }
}

/// Lowercase hex encoding of a byte string.
pub fn hex_lower(bytes: &[u8]) -> (r: String)
    requires
        bytes@.len() * 2 <= usize::MAX,
    ensures
        r@ == hex_lower_spec(bytes@),
{
    let mut out = String::new();
    let mut i: usize = 0;
    while i < bytes.len()
        invariant
            i <= bytes@.len(),
            out@ == hex_lower_spec(bytes@.take(i as int)),
        decreases bytes@.len() - i,
    {
        let b = bytes[i];
        push_char(&mut out, hex_char(b / 16));
        push_char(&mut out, hex_char(b % 16));
        i = i + 1;
        assert(out@ =~= hex_lower_spec(bytes@.take(i as int))) by {
            let s = bytes@.take(i as int);
            assert forall|k: int| 0 <= k < 2 * s.len() implies out@[k] == hex_lower_spec(s)[k] by {
                assert(s[k / 2] == bytes@[k / 2]);
            }
        }
    }
    assert(bytes@.take(i as int) =~= bytes@);
    out
}

/// Unicode `White_Space` characters (what `char::is_whitespace` tests).
pub open spec fn is_whitespace_char(c: char) -> bool {
    ||| ('\u{9}' <= c && c <= '\u{d}')
    ||| c == ' '
    ||| c == '\u{85}'
    ||| c == '\u{a0}'
    ||| c == '\u{1680}'
    ||| ('\u{2000}' <= c && c <= '\u{200a}')
    ||| c == '\u{2028}'
    ||| c == '\u{2029}'
    ||| c == '\u{202f}'
    ||| c == '\u{205f}'
    ||| c == '\u{3000}'
}

/// Whether `c` has the Unicode `White_Space` property.
pub fn is_whitespace(c: char) -> (r: bool)
    ensures
        r == is_whitespace_char(c),
{
    ('\u{9}' <= c && c <= '\u{d}') || c == ' ' || c == '\u{85}' || c == '\u{a0}' || c == '\u{1680}'
        || ('\u{2000}' <= c && c <= '\u{200a}') || c == '\u{2028}' || c == '\u{2029}' || c == '\u{202f}'
        || c == '\u{205f}' || c == '\u{3000}'
}

/// Drop leading whitespace.
pub open spec fn skip_whitespace(s: Seq<char>) -> Seq<char>
    decreases s.len(),
{
    if s.len() > 0 && is_whitespace_char(s[0]) {
        skip_whitespace(s.drop_first())
    } else {
        s
    }
}

/// The leading run of non-whitespace characters.
pub open spec fn leading_word(s: Seq<char>) -> Seq<char>
    decreases s.len(),
{
    if s.len() > 0 && !is_whitespace_char(s[0]) {
        seq![s[0]] + leading_word(s.drop_first())
    } else {
        Seq::empty()
    }
}

/// The first whitespace-separated word, as `split_whitespace().next()`
/// yields it.
pub open spec fn first_word(s: Seq<char>) -> Option<Seq<char>> {
    let rest = skip_whitespace(s);
    if rest.len() == 0 {
        None
    } else {
        Some(leading_word(rest))
    }
}

proof fn lemma_skip_whitespace_head(s: Seq<char>)
    ensures
        skip_whitespace(s).len() > 0 ==> !is_whitespace_char(skip_whitespace(s)[0]),
    decreases s.len(),
{
    if s.len() > 0 && is_whitespace_char(s[0]) {
        lemma_skip_whitespace_head(s.drop_first());
    }
}

/// A first word is never empty.
pub proof fn lemma_first_word_nonempty(s: Seq<char>)
    ensures
        first_word(s) matches Some(w) ==> w.len() > 0,
{
    lemma_skip_whitespace_head(s);
    let rest = skip_whitespace(s);
    if rest.len() > 0 {
        assert(leading_word(rest) == seq![rest[0]] + leading_word(rest.drop_first()));
    }
}

proof fn lemma_skip_whitespace_props(s: Seq<char>)
    ensures
        skip_whitespace(s).len() <= s.len(),
        skip_whitespace(s) == s.skip(s.len() - skip_whitespace(s).len()),
        forall|j: int| 0 <= j < s.len() - skip_whitespace(s).len() ==> is_whitespace_char(#[trigger] s[j]),
        skip_whitespace(s).len() > 0 ==> !is_whitespace_char(s[s.len() - skip_whitespace(s).len()]),
    decreases s.len(),
{
    if s.len() > 0 && is_whitespace_char(s[0]) {
        lemma_skip_whitespace_props(s.drop_first());
        let t = s.drop_first();
        assert(t.skip(t.len() - skip_whitespace(t).len()) =~= s.skip(s.len() - skip_whitespace(s).len()));
        assert forall|j: int| 0 <= j < s.len() - skip_whitespace(s).len() implies is_whitespace_char(#[trigger] s[j]) by {
            if j > 0 {
                assert(s[j] == t[j - 1]);
            }
        }
        if skip_whitespace(s).len() > 0 {
            assert(s[s.len() - skip_whitespace(s).len()] == t[t.len() - skip_whitespace(t).len()]);
        }
    } else {
        assert(s.skip(0) =~= s);
    }
}

proof fn lemma_leading_word_props(t: Seq<char>)
    ensures
        leading_word(t).len() <= t.len(),
        leading_word(t) == t.take(leading_word(t).len() as int),
        forall|j: int| 0 <= j < leading_word(t).len() ==> !is_whitespace_char(#[trigger] leading_word(t)[j]),
        leading_word(t).len() < t.len() ==> is_whitespace_char(t[leading_word(t).len() as int]),
    decreases t.len(),
{
    if t.len() > 0 && !is_whitespace_char(t[0]) {
        let u = t.drop_first();
        lemma_leading_word_props(u);
        let w = leading_word(t);
        assert(w == seq![t[0]] + leading_word(u));
        assert(w =~= t.take(w.len() as int));
        assert forall|j: int| 0 <= j < w.len() implies !is_whitespace_char(#[trigger] w[j]) by {
            if j > 0 {
                assert(w[j] == leading_word(u)[j - 1]);
            }
        }
        if w.len() < t.len() {
            assert(t[w.len() as int] == u[leading_word(u).len() as int]);
        }
    } else {
        assert(t.take(0) =~= Seq::<char>::empty());
    }
}

/// Where the first word of `s` starts: the number of leading whitespace
/// characters.
pub open spec fn first_word_start(s: Seq<char>) -> int {
    s.len() - skip_whitespace(s).len()
}

/// The first word of `s` is the run of non-whitespace characters that
/// starts at the first non-whitespace character `s[i]` and ends at the
/// next whitespace character or the end; there is none when `s` is all
/// whitespace.
pub proof fn lemma_first_word_shape(s: Seq<char>)
    ensures
        first_word(s) is None <==> (forall|j: int| 0 <= j < s.len() ==> is_whitespace_char(#[trigger] s[j])),
        first_word(s) matches Some(w) ==> {
            let i = first_word_start(s);
            &&& 0 <= i && i + w.len() <= s.len() && w.len() > 0
            &&& forall|j: int| 0 <= j < i ==> is_whitespace_char(#[trigger] s[j])
            &&& w == s.subrange(i, i + w.len())
            &&& forall|j: int| 0 <= j < w.len() ==> !is_whitespace_char(#[trigger] w[j])
            &&& i + w.len() == s.len() || is_whitespace_char(s[i + w.len()])
        },
{
    lemma_skip_whitespace_props(s);
    let rest = skip_whitespace(s);
    let n = s.len() - rest.len();
    if rest.len() == 0 {
        assert forall|j: int| 0 <= j < s.len() implies is_whitespace_char(#[trigger] s[j]) by {}
    } else {
        assert(!is_whitespace_char(s[n]));
        lemma_leading_word_props(rest);
        lemma_first_word_nonempty(s);
        let w = leading_word(rest);
        assert(w =~= s.subrange(n, n + w.len()));
        if n + w.len() < s.len() {
            assert(s[n + w.len()] == rest[w.len() as int]);
        }
    }
}

proof fn lemma_skip_whitespace_from(s: Seq<char>, i: int)
    requires
        0 <= i <= s.len(),
        forall|j: int| 0 <= j < i ==> is_whitespace_char(#[trigger] s[j]),
    ensures
        skip_whitespace(s) == skip_whitespace(s.skip(i)),
    decreases i,
{
    if i > 0 {
        assert(s.drop_first().skip(i - 1) =~= s.skip(i));
        lemma_skip_whitespace_from(s.drop_first(), i - 1);
    } else {
        assert(s.skip(0) =~= s);
    }
}

proof fn lemma_leading_word_upto(s: Seq<char>, i: int)
    requires
        0 <= i <= s.len(),
        forall|j: int| 0 <= j < i ==> !is_whitespace_char(#[trigger] s[j]),
        i == s.len() || is_whitespace_char(s[i]),
    ensures
        leading_word(s) == s.take(i),
    decreases i,
{
    if i > 0 {
        lemma_leading_word_upto(s.drop_first(), i - 1);
        assert(seq![s[0]] + s.drop_first().take(i - 1) =~= s.take(i));
    } else {
        assert(s.take(0) =~= Seq::<char>::empty());
    }
}

/// The first whitespace-separated word of `s`, as a new string.
pub fn first_word_of(s: &str) -> (r: Option<String>)
    ensures
        match first_word(s@) {
            Some(w) => r is Some && r->Some_0@ == w,
            None => r is None,
        },
{
    let n = s.unicode_len();
    let mut start: usize = 0;
    while start < n && is_whitespace(s.get_char(start))
        invariant
            start <= n,
            n == s@.len(),
            forall|j: int| 0 <= j < start ==> is_whitespace_char(#[trigger] s@[j]),
        decreases n - start,
    {
        start = start + 1;
    }
    proof {
        lemma_skip_whitespace_from(s@, start as int);
        if start < n {
            assert(s@.skip(start as int).len() > 0 && !is_whitespace_char(s@.skip(start as int)[0]));
            assert(skip_whitespace(s@.skip(start as int)) == s@.skip(start as int));
        } else {
            assert(s@.skip(start as int).len() == 0);
        }
    }
    if start == n {
        return None;
    }
    let mut end: usize = start;
    let mut word = String::new();
    while end < n && !is_whitespace(s.get_char(end))
        invariant
            start <= end <= n,
            n == s@.len(),
            word@ == s@.subrange(start as int, end as int),
            forall|j: int| start <= j < end ==> !is_whitespace_char(#[trigger] s@[j]),
        decreases n - end,
    {
        push_char(&mut word, s.get_char(end));
        end = end + 1;
        assert(word@ =~= s@.subrange(start as int, end as int));
    }
    proof {
        let rest = s@.skip(start as int);
        assert forall|j: int| 0 <= j < end - start implies !is_whitespace_char(#[trigger] rest[j]) by {
            assert(rest[j] == s@[start + j]);
        }
        if end < n {
            assert(rest[end - start] == s@[end as int]);
        }
        lemma_leading_word_upto(rest, end - start);
        assert(rest.take(end - start) =~= s@.subrange(start as int, end as int));
    }
    Some(word)
}

/// The character sequences of a list of strings.
pub open spec fn string_views(v: Seq<String>) -> Seq<Seq<char>> {
    v.map_values(|s: String| s@)
}

/// Whether two strings hold the same characters.
pub fn str_eq(a: &str, b: &str) -> (r: bool)
    ensures
        r == (a@ == b@),
{
    let x = a.to_owned();
    let y = b.to_owned();
    x == y
}

} // verus!
