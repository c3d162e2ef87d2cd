//! Character-level text operations with exact specifications.
//!
//! Strings are viewed as `Seq<char>`. The executable functions work on a
//! `Vec<char>` and on half-open spans `[lo, hi)` into it, so that a caller can
//! cut the pieces out of the string the characters came from.

use vstd::prelude::*;
use vstd::string::StrSliceExecFns;
use vstd::string::StringExecFns;

verus! {

/// The lowercase form of a text, as `str::to_lowercase` computes it.
pub uninterp spec fn lowercase(text: Seq<char>) -> Seq<char>;

/// Calls `str::to_lowercase`. Nothing is proved of the conversion: the contract
/// only gives its result the name `lowercase`.
#[verifier::external_body]
pub(crate) fn to_lowercase(text: &str) -> (lowered: String)
    ensures
        lowered@ == lowercase(text@),
{
    text.to_lowercase()
}

/// Whether `c` is white space: one of the characters that have the property
/// White_Space in Unicode.
pub open spec fn is_white_space(c: char) -> bool {
    ||| '\u{9}' <= c <= '\u{d}'
    ||| c == ' '
    ||| c == '\u{85}'
    ||| c == '\u{a0}'
    ||| c == '\u{1680}'
    ||| '\u{2000}' <= c <= '\u{200a}'
    ||| c == '\u{2028}'
    ||| c == '\u{2029}'
    ||| c == '\u{202f}'
    ||| c == '\u{205f}'
    ||| c == '\u{3000}'
}

/// Tests whether `c` is white space.
pub fn white_space(c: char) -> (white: bool)
    ensures
        white == is_white_space(c),
{
    c == ' ' || ('\u{9}' <= c && c <= '\u{d}') || c == '\u{85}' || c == '\u{a0}' || c == '\u{1680}'
        || ('\u{2000}' <= c && c <= '\u{200a}') || c == '\u{2028}' || c == '\u{2029}' || c
        == '\u{202f}' || c == '\u{205f}' || c == '\u{3000}'
}

/// The characters of a string, in order.
pub fn chars_of(text: &str) -> (chars: Vec<char>)
    ensures
        chars@ == text@,
{
    let mut chars: Vec<char> = Vec::new();
    for c in it: text.chars()
        invariant
            chars@ == it.seq().take(it.index() as int),
            it.seq() == text@,
    {
        chars.push(c);
    }
    chars
}

/// The piece `[lo, hi)` of `text`, whose characters are `chars`, as a string.
pub fn cut(text: &str, chars: &Vec<char>, lo: usize, hi: usize) -> (piece: String)
    requires
        chars@ == text@,
        lo <= hi <= chars.len(),
    ensures
        piece@ == text@.subrange(lo as int, hi as int),
{
    String::from_str(text.substring_char(lo, hi))
}

/// The index of the first occurrence of `c` in `s`, or `s.len()` if there is none.
pub open spec fn first_index(s: Seq<char>, c: char) -> int
    decreases s.len(),
{
    if s.len() == 0 || s[0] == c {
        0
    } else {
        1 + first_index(s.drop_first(), c)
    }
}

/// `first_index` is the least position that holds `c`, and never beyond the end.
pub proof fn lemma_first_index(s: Seq<char>, c: char)
    ensures
        0 <= first_index(s, c) <= s.len(),
        first_index(s, c) < s.len() ==> s[first_index(s, c)] == c,
        forall|j: int| 0 <= j < first_index(s, c) ==> s[j] != c,
    decreases s.len(),
{
    if s.len() == 0 || s[0] == c {
    } else {
        let rest = s.drop_first();
        lemma_first_index(rest, c);
        assert forall|j: int| 0 <= j < first_index(s, c) implies s[j] != c by {
            if j > 0 {
                assert(s[j] == rest[j - 1]);
            }
        }
    }
}

/// A position that holds `c` with no `c` before it is the first index of `c`;
/// so is the length, when `c` does not occur at all.
pub proof fn lemma_first_index_is(s: Seq<char>, c: char, k: int)
    requires
        0 <= k <= s.len(),
        forall|j: int| 0 <= j < k ==> s[j] != c,
        k < s.len() ==> s[k] == c,
    ensures
        first_index(s, c) == k,
{
    lemma_first_index(s, c);
    let f = first_index(s, c);
    if f < k {
        assert(s[f] == c);
    } else if f > k {
        assert(s[k] != c);
    }
}

/// Finds the first `c` in the span `[lo, hi)` of `chars`.
pub fn find_char(chars: &Vec<char>, lo: usize, hi: usize, c: char) -> (at: usize)
    requires
        lo <= hi <= chars.len(),
    ensures
        lo <= at <= hi,
        at == lo + first_index(chars@.subrange(lo as int, hi as int), c),
{
    let mut at: usize = lo;
    while at < hi && chars[at] != c
        invariant
            lo <= at <= hi <= chars.len(),
            forall|j: int| lo <= j < at ==> chars@[j] != c,
        decreases hi - at,
    {
        at += 1;
    }
    proof {
        let span = chars@.subrange(lo as int, hi as int);
        assert forall|j: int| 0 <= j < at - lo implies span[j] != c by {
            assert(span[j] == chars@[lo + j]);
        }
        lemma_first_index_is(span, c, at - lo);
    }
    at
}

/// Which characters a trim removes from the two ends of a text.
#[derive(Clone, Copy, Debug)]
pub enum Strip {
    /// White space.
    WhiteSpace,
    /// The double quote `"`.
    Quotes,
}

impl Strip {
    /// Whether this trim removes `c`.
    pub open spec fn strips(self, c: char) -> bool {
        match self {
            Strip::WhiteSpace => is_white_space(c),
            Strip::Quotes => c == '"',
        }
    }

    /// Tests whether this trim removes `c`.
    pub fn removes(&self, c: char) -> (hit: bool)
        ensures
            hit == self.strips(c),
    {
        match self {
            Strip::WhiteSpace => white_space(c),
            Strip::Quotes => c == '"',
        }
    }
}

/// `s` without its longest prefix of stripped characters.
pub open spec fn trim_start(s: Seq<char>, strip: Strip) -> Seq<char>
    decreases s.len(),
{
    if s.len() > 0 && strip.strips(s[0]) {
        trim_start(s.drop_first(), strip)
    } else {
        s
    }
}

/// `s` without its longest suffix of stripped characters.
pub open spec fn trim_end(s: Seq<char>, strip: Strip) -> Seq<char>
    decreases s.len(),
{
    if s.len() > 0 && strip.strips(s.last()) {
        trim_end(s.drop_last(), strip)
    } else {
        s
    }
}

/// `s` without the stripped characters at both ends.
pub open spec fn trim(s: Seq<char>, strip: Strip) -> Seq<char> {
    trim_end(trim_start(s, strip), strip)
}

/// Trims the span `[lo, hi)` of `chars` and returns the span that is left.
pub fn trim_span(chars: &Vec<char>, lo: usize, hi: usize, strip: Strip) -> (span: (usize, usize))
    requires
        lo <= hi <= chars.len(),
    ensures
        lo <= span.0 <= span.1 <= hi,
        chars@.subrange(span.0 as int, span.1 as int) == trim(
            chars@.subrange(lo as int, hi as int),
            strip,
        ),
{
    let mut a: usize = lo;
    while a < hi && strip.removes(chars[a])
        invariant
            lo <= a <= hi <= chars.len(),
            trim_start(chars@.subrange(lo as int, hi as int), strip) == trim_start(
                chars@.subrange(a as int, hi as int),
                strip,
            ),
        decreases hi - a,
    {
        proof {
            let here = chars@.subrange(a as int, hi as int);
            assert(here[0] == chars@[a as int]);
            assert(here.drop_first() =~= chars@.subrange(a + 1, hi as int));
        }
        a += 1;
    }
    proof {
        let here = chars@.subrange(a as int, hi as int);
        if a < hi {
            assert(here[0] == chars@[a as int]);
        }
        assert(trim_start(here, strip) == here);
    }
    let mut b: usize = hi;
    while a < b && strip.removes(chars[b - 1])
        invariant
            lo <= a <= b <= hi <= chars.len(),
            trim_end(chars@.subrange(a as int, hi as int), strip) == trim_end(
                chars@.subrange(a as int, b as int),
                strip,
            ),
        decreases b - a,
    {
        proof {
            let here = chars@.subrange(a as int, b as int);
            assert(here.last() == chars@[b - 1]);
            assert(here.drop_last() =~= chars@.subrange(a as int, b - 1));
        }
        b -= 1;
    }
    proof {
        let here = chars@.subrange(a as int, b as int);
        if a < b {
            assert(here.last() == chars@[b - 1]);
        }
        assert(trim_end(here, strip) == here);
    }
    (a, b)
}

/// A text without the white space at its ends.
pub fn trimmed(text: &str) -> (inner: String)
    ensures
        inner@ == trim(text@, Strip::WhiteSpace),
{
    let chars = chars_of(text);
    assert(chars@.subrange(0, chars.len() as int) =~= chars@);
    let span = trim_span(&chars, 0, chars.len(), Strip::WhiteSpace);
    cut(text, &chars, span.0, span.1)
}

/// The pieces of `s` between occurrences of `sep`. There is always at least
/// one piece; a text without `sep` is its own single piece.
pub open spec fn split(s: Seq<char>, sep: char) -> Seq<Seq<char>>
    decreases s.len(),
{
    let at = first_index(s, sep);
    if 0 <= at < s.len() {
        seq![s.take(at)] + split(s.skip(at + 1), sep)
    } else {
        seq![s]
    }
}

/// The texts that a list of spans cuts out of `s`.
pub open spec fn pieces(s: Seq<char>, spans: Seq<(usize, usize)>) -> Seq<Seq<char>> {
    Seq::new(spans.len(), |k: int| s.subrange(spans[k].0 as int, spans[k].1 as int))
}

/// Splits the span `[lo, hi)` of `chars` at each `sep` and returns the spans
/// of the pieces, in order.
pub fn split_spans(chars: &Vec<char>, lo: usize, hi: usize, sep: char) -> (spans: Vec<
    (usize, usize),
>)
    requires
        lo <= hi <= chars.len(),
    ensures
        pieces(chars@, spans@) == split(chars@.subrange(lo as int, hi as int), sep),
        forall|k: int| 0 <= k < spans.len() ==> lo <= (#[trigger] spans[k]).0 <= spans[k].1 <= hi,
{
    let mut spans: Vec<(usize, usize)> = Vec::new();
    let mut start: usize = lo;
    let mut open: bool = true;
    while open
        invariant
            lo <= start <= hi <= chars.len(),
            forall|k: int| 0 <= k < spans.len() ==> lo <= (#[trigger] spans[k]).0 <= spans[k].1 <= hi,
            open ==> pieces(chars@, spans@) + split(chars@.subrange(start as int, hi as int), sep)
                == split(chars@.subrange(lo as int, hi as int), sep),
            !open ==> pieces(chars@, spans@) == split(chars@.subrange(lo as int, hi as int), sep),
        decreases hi - start + (if open { 1int } else { 0int }),
    {
        let at = find_char(chars, start, hi, sep);
        let ghost before = spans@;
        let ghost rest = chars@.subrange(start as int, hi as int);
        spans.push((start, at));
        proof {
            assert(pieces(chars@, spans@) =~= pieces(chars@, before) + seq![
                chars@.subrange(start as int, at as int),
            ]);
        }
        if at < hi {
            proof {
                assert(rest.take(at - start) =~= chars@.subrange(start as int, at as int));
                assert(rest.skip(at - start + 1) =~= chars@.subrange(at + 1, hi as int));
            }
            start = at + 1;
        } else {
            proof {
                assert(split(rest, sep) == seq![rest]);
            }
            open = false;
        }
    }
    spans
}

/// Whether `needle` stands in `hay` at position `at`.
pub open spec fn occurs_at(hay: Seq<char>, needle: Seq<char>, at: int) -> bool {
    &&& 0 <= at
    &&& at + needle.len() <= hay.len()
    &&& hay.subrange(at, at + needle.len()) == needle
}

/// Whether `needle` is a contiguous part of `hay`. The empty text is part of
/// every text.
pub open spec fn is_substring(hay: Seq<char>, needle: Seq<char>) -> bool {
    exists|at: int| occurs_at(hay, needle, at)
}

/// Tests whether `needle` stands in `hay` at position `at`.
pub fn matches_at(hay: &Vec<char>, needle: &Vec<char>, at: usize) -> (hit: bool)
    requires
        at + needle.len() <= hay.len(),
    ensures
        hit == occurs_at(hay@, needle@, at as int),
{
    let mut k: usize = 0;
    while k < needle.len()
        invariant
            k <= needle.len(),
            at + needle.len() <= hay.len(),
            forall|j: int| 0 <= j < k ==> hay@[at + j] == needle@[j],
        decreases needle.len() - k,
    {
        if hay[at + k] != needle[k] {
            proof {
                let part = hay@.subrange(at as int, at + needle.len());
                assert(part[k as int] == hay@[at + k]);
            }
            return false;
        }
        k += 1;
    }
    proof {
        assert(hay@.subrange(at as int, at + needle.len()) =~= needle@);
    }
    true
}

/// Tests whether `needle` is a contiguous part of `hay`.
pub fn contains(hay: &Vec<char>, needle: &Vec<char>) -> (found: bool)
    ensures
        found == is_substring(hay@, needle@),
{
    if needle.len() > hay.len() {
        return false;
    }
    let last: usize = hay.len() - needle.len();
    let mut at: usize = 0;
    loop
        invariant
            at <= last,
            last == hay.len() - needle.len(),
            forall|j: int| 0 <= j < at ==> !occurs_at(hay@, needle@, j),
        decreases last - at,
    {
        if matches_at(hay, needle, at) {
            return true;
        }
        if at == last {
            return false;
        }
        at += 1;
    }
}

/// The last `n` characters of `s`, or all of `s` if it has no more than `n`.
pub open spec fn tail(s: Seq<char>, n: nat) -> Seq<char> {
    if s.len() <= n {
        s
    } else {
        s.skip(s.len() - n)
    }
}

/// The last `n` characters of a text, or all of it if it has no more than `n`.
pub fn tail_of(text: &str, n: usize) -> (end: String)
    ensures
        end@ == tail(text@, n as nat),
{
    let chars = chars_of(text);
    let len = chars.len();
    let from: usize = if len <= n {
        0
    } else {
        len - n
    };
    let end = cut(text, &chars, from, len);
    assert(end@ =~= tail(text@, n as nat));
    end
}

/// The texts of `parts` in a row, with `between` between each two of them.
pub open spec fn join(parts: Seq<Seq<char>>, between: Seq<char>) -> Seq<char>
    decreases parts.len(),
{
    if parts.len() == 0 {
        Seq::empty()
    } else if parts.len() == 1 {
        parts[0]
    } else {
        join(parts.drop_last(), between) + between + parts.last()
    }
}

/// `s` with `with` in the place of each `c`.
pub open spec fn replaced(s: Seq<char>, c: char, with: Seq<char>) -> Seq<char> {
    join(split(s, c), with)
}

/// Puts `with` in the place of each `c` in a text.
pub fn replace_char(text: &str, c: char, with: &str) -> (out: String)
    ensures
        out@ == replaced(text@, c, with@),
{
    let chars = chars_of(text);
    assert(chars@.subrange(0, chars.len() as int) =~= chars@);
    let spans = split_spans(&chars, 0, chars.len(), c);
    let ghost parts = split(text@, c);
    let mut out = String::new();
    let mut k: usize = 0;
    proof {
        assert(parts.take(0) =~= Seq::empty());
    }
    while k < spans.len()
        invariant
            k <= spans.len(),
            chars@ == text@,
            parts == pieces(chars@, spans@),
            forall|j: int| 0 <= j < spans.len() ==> (#[trigger] spans[j]).0 <= spans[j].1 <= chars.len(),
            out@ == join(parts.take(k as int), with@),
        decreases spans.len() - k,
    {
        proof {
            assert(parts.take(k + 1).drop_last() =~= parts.take(k as int));
            assert(parts.take(k + 1).last() == chars@.subrange(spans[k as int].0 as int, spans[k as int].1 as int));
            if k == 0 {
                assert(parts.take(1)[0] == parts[0]);
            }
        }
        if k > 0 {
            out.append(with);
        }
        let piece = cut(text, &chars, spans[k].0, spans[k].1);
        out.append(piece.as_str());
        proof {
            if k == 0 {
                assert(out@ =~= parts[0]);
            }
        }
        k += 1;
    }
    proof {
        assert(parts.take(spans.len() as int) =~= parts);
    }
    out
}

} // verus!
