//! Reading the window manager's description of a window or a workspace: a
//! JSON object of strings where it is one, and a permissive reading of
//! `name: value` pairs where it is not.

use std::collections::BTreeMap;
use vstd::prelude::*;
use crate::fields::{pairs_map, FieldMap};
use crate::text::{
    chars_of, cut, find_char, first_index, pieces, split, split_spans, trim, trim_span, Strip,
};

verus! {

/// What `serde_json::from_str` makes of a text that is read as a map from
/// strings to strings: the pairs of the map in the order of their keys, or
/// `None` where the text is refused.
pub uninterp spec fn json_string_map(text: Seq<char>) -> Option<Seq<(Seq<char>, Seq<char>)>>;

/// Calls `serde_json::from_str` for a `BTreeMap<String, String>` and lists the
/// pairs of the map that comes back, which a `BTreeMap` hands out in the order
/// of its keys. Nothing is proved of the reading: the contract only gives its
/// result the name `json_string_map`.
#[verifier::external_body]
fn strict_pairs(info: &str) -> (pairs: Option<Vec<(String, String)>>)
    ensures
        pairs.deep_view() == json_string_map(info@),
{
    match serde_json::from_str::<BTreeMap<String, String>>(info) {
        Ok(map) => Some(Vec::from_iter(map)),
        Err(_) => None,
    }
}

/// `s` without one opening brace at its start and one closing brace at its
/// end, where it has them.
pub open spec fn strip_braces(s: Seq<char>) -> Seq<char> {
    let opened = if s.len() > 0 && s[0] == '{' {
        s.skip(1)
    } else {
        s
    };
    if opened.len() > 0 && opened.last() == '}' {
        opened.drop_last()
    } else {
        opened
    }
}

/// A name or a value as it is taken from its place in the text: without the
/// white space around it, and then without the quotes around what is left.
pub open spec fn clean(s: Seq<char>) -> Seq<char> {
    trim(trim(s, Strip::WhiteSpace), Strip::Quotes)
}

/// The pair that one segment of the text gives: what stands before its first
/// colon is the name, what stands after it the value. A segment without a
/// colon gives nothing.
pub open spec fn segment_pair(segment: Seq<char>) -> Option<(Seq<char>, Seq<char>)> {
    let colon = first_index(segment, ':');
    if 0 <= colon < segment.len() {
        Some((clean(segment.take(colon)), clean(segment.skip(colon + 1))))
    } else {
        None
    }
}

/// The pairs that a list of segments gives, in order.
pub open spec fn segment_pairs(segments: Seq<Seq<char>>) -> Seq<(Seq<char>, Seq<char>)>
    decreases segments.len(),
{
    if segments.len() == 0 {
        Seq::empty()
    } else {
        match segment_pair(segments.last()) {
            Some(pair) => segment_pairs(segments.drop_last()).push(pair),
            None => segment_pairs(segments.drop_last()),
        }
    }
}

/// The permissive reading of a text: one layer of braces is taken off, what
/// is left is cut at each comma, and each segment is cut at its first colon.
/// The reading knows nothing of quotes: a value that holds a comma of its
/// own ends there, and what follows the comma is read as the next segment.
pub open spec fn loose_pairs(text: Seq<char>) -> Seq<(Seq<char>, Seq<char>)> {
    segment_pairs(split(strip_braces(text), ','))
}

/// The pairs that a description is read as: those of the JSON object where
/// the text is one, those of the permissive reading where it is not.
pub open spec fn parsed_pairs(text: Seq<char>, strict: Option<Seq<(Seq<char>, Seq<char>)>>) -> Seq<
    (Seq<char>, Seq<char>),
> {
    match strict {
        Some(pairs) => pairs,
        None => loose_pairs(text),
    }
}

/// The mapping that a description is read as.
pub open spec fn parsed_fields(text: Seq<char>) -> Map<Seq<char>, Seq<char>> {
    pairs_map(parsed_pairs(text, json_string_map(text)))
}

/// Enters a list of pairs into a mapping, in order.
pub fn fields_from_pairs(pairs: Vec<(String, String)>) -> (fields: FieldMap)
    ensures
        fields@ == pairs_map(pairs.deep_view()),
{
    let ghost all = pairs.deep_view();
    let mut fields = FieldMap::new();
    let mut i: usize = 0;
    proof {
        assert(all.take(0) =~= Seq::empty());
    }
    while i < pairs.len()
        invariant
            i <= pairs.len(),
            all == pairs.deep_view(),
            fields@ == pairs_map(all.take(i as int)),
        decreases pairs.len() - i,
    {
        proof {
            assert(all.take(i + 1).drop_last() =~= all.take(i as int));
            assert(all.take(i + 1).last() == (pairs[i as int].0@, pairs[i as int].1@));
        }
        fields.insert(pairs[i].0.clone(), pairs[i].1.clone());
        i += 1;
    }
    proof {
        assert(all.take(pairs.len() as int) =~= all);
    }
    fields
}

/// Takes the white space, and then the quotes, off both ends of the span
/// `[lo, hi)` of `chars`.
pub fn clean_span(chars: &Vec<char>, lo: usize, hi: usize) -> (span: (usize, usize))
    requires
        lo <= hi <= chars.len(),
    ensures
        lo <= span.0 <= span.1 <= hi,
        chars@.subrange(span.0 as int, span.1 as int) == clean(chars@.subrange(lo as int, hi as int)),
{
    let inner = trim_span(chars, lo, hi, Strip::WhiteSpace);
    trim_span(chars, inner.0, inner.1, Strip::Quotes)
}

/// Takes one opening brace off the start and one closing brace off the end
/// of `chars`, where it has them, and returns the span that is left.
pub fn braces_span(chars: &Vec<char>) -> (span: (usize, usize))
    ensures
        span.0 <= span.1 <= chars.len(),
        chars@.subrange(span.0 as int, span.1 as int) == strip_braces(chars@),
{
    let n = chars.len();
    let lo: usize = if n > 0 && chars[0] == '{' {
        1
    } else {
        0
    };
    let hi: usize = if n > lo && chars[n - 1] == '}' {
        n - 1
    } else {
        n
    };
    proof {
        let opened = if n > 0 && chars@[0] == '{' {
            chars@.skip(1)
        } else {
            chars@
        };
        assert(opened =~= chars@.subrange(lo as int, n as int));
        if opened.len() > 0 {
            assert(opened.last() == chars@[n - 1]);
        }
        assert(chars@.subrange(lo as int, hi as int) =~= strip_braces(chars@));
    }
    (lo, hi)
}

/// Reads a text permissively, as `loose_pairs` describes. Every text can be
/// read; one without a colon gives the empty mapping.
pub fn parse_loose(info: &str) -> (fields: FieldMap)
    ensures
        fields@ == pairs_map(loose_pairs(info@)),
{
    let chars = chars_of(info);
    let content = braces_span(&chars);
    let spans = split_spans(&chars, content.0, content.1, ',');
    let ghost segments = split(strip_braces(info@), ',');
    let mut fields = FieldMap::new();
    let mut k: usize = 0;
    proof {
        assert(segments.take(0) =~= Seq::empty());
    }
    while k < spans.len()
        invariant
            k <= spans.len(),
            chars@ == info@,
            segments == pieces(chars@, spans@),
            forall|j: int| 0 <= j < spans.len() ==> (#[trigger] spans[j]).0 <= spans[j].1 <= chars.len(),
            fields@ == pairs_map(segment_pairs(segments.take(k as int))),
        decreases spans.len() - k,
    {
        let lo = spans[k].0;
        let hi = spans[k].1;
        let ghost segment = chars@.subrange(lo as int, hi as int);
        proof {
            assert(segments.take(k + 1).drop_last() =~= segments.take(k as int));
            assert(segments.take(k + 1).last() == segment);
        }
        let colon = find_char(&chars, lo, hi, ':');
        if colon < hi {
            proof {
                assert(segment.take(colon - lo) =~= chars@.subrange(lo as int, colon as int));
                assert(segment.skip(colon - lo + 1) =~= chars@.subrange(colon + 1, hi as int));
            }
            let name = clean_span(&chars, lo, colon);
            let value = clean_span(&chars, colon + 1, hi);
            let name_text = cut(info, &chars, name.0, name.1);
            let value_text = cut(info, &chars, value.0, value.1);
            proof {
                let so_far = segment_pairs(segments.take(k as int));
                let pair = (name_text@, value_text@);
                assert(segment_pair(segment) == Some(pair));
                assert(segment_pairs(segments.take(k + 1)) == so_far.push(pair));
                assert(so_far.push(pair).drop_last() =~= so_far);
            }
            fields.insert(name_text, value_text);
        } else {
            proof {
                assert(segment_pair(segment) is None);
            }
        }
        k += 1;
    }
    proof {
        assert(segments.take(spans.len() as int) =~= segments);
    }
    fields
}

/// Reads the description of a window or a workspace. A JSON object whose
/// values are all strings is read as that object. Any other text is read
/// permissively; see `parse_loose`.
pub fn parse_window_info(info: &str) -> (fields: FieldMap)
    ensures
        fields@ == parsed_fields(info@),
{
    match strict_pairs(info) {
        Some(pairs) => fields_from_pairs(pairs),
        None => parse_loose(info),
    }
}

} // verus!
