//! Finding the level collection in the text of a level file.

use vstd::prelude::*;
use vstd::string::StringSliceAdditionalSpecFns;

verus! {

/// Whether `pattern` stands in `text` from index `at` on.
pub open spec fn matches_at(text: Seq<u8>, pattern: Seq<u8>, at: int) -> bool {
    &&& 0 <= at
    &&& at + pattern.len() <= text.len()
    &&& forall|k: int| 0 <= k < pattern.len() ==> text[at + k] == pattern[k]
}

/// Whether `at` is the first index from which `pattern` stands in `text`.
pub open spec fn first_match(text: Seq<u8>, pattern: Seq<u8>, at: int) -> bool {
    &&& matches_at(text, pattern, at)
    &&& forall|j: int| 0 <= j < at ==> !matches_at(text, pattern, j)
}

/// Whether `at` is the last index from which `pattern` stands in `text`.
pub open spec fn last_match(text: Seq<u8>, pattern: Seq<u8>, at: int) -> bool {
    &&& matches_at(text, pattern, at)
    &&& forall|j: int| at < j ==> !matches_at(text, pattern, j)
}

/// Whether `pattern` stands anywhere in `text`.
pub open spec fn occurs(text: Seq<u8>, pattern: Seq<u8>) -> bool {
    exists|j: int| matches_at(text, pattern, j)
}

/// The bytes that open a level collection.
pub open spec fn opening() -> Seq<u8> {
    "<LevelCollection".spec_bytes()
}

/// The bytes that close a level collection.
pub open spec fn closing() -> Seq<u8> {
    "</LevelCollection>".spec_bytes()
}

/// Whether `pattern` stands in `text` from index `at` on.
fn matches_here(text: &[u8], pattern: &[u8], at: usize) -> (b: bool)
    requires
        at + pattern@.len() <= text@.len(),
    ensures
        b == matches_at(text@, pattern@, at as int),
{
    let length = text.len();
    let mut k: usize = 0;
    while k < pattern.len()
        invariant
            k <= pattern@.len(),
            at + pattern@.len() <= text@.len(),
            text@.len() == length,
            forall|i: int| 0 <= i < k ==> text@[at + i] == pattern@[i],
        decreases pattern.len() - k,
    {
        if text[at + k] != pattern[k] {
            return false;
        }
        k += 1;
    }
    true
}

/// The first index from which `pattern` stands in `text`, if it stands anywhere.
pub fn find_first(text: &[u8], pattern: &[u8]) -> (r: Option<usize>)
    ensures
        match r {
            Some(at) => first_match(text@, pattern@, at as int),
            None => !occurs(text@, pattern@),
        },
{
    if pattern.len() > text.len() {
        return None;
    }
    let last = text.len() - pattern.len();
    let mut at: usize = 0;
    loop
        invariant
            at <= last,
            last == text@.len() - pattern@.len(),
            forall|j: int| 0 <= j < at ==> !matches_at(text@, pattern@, j),
        decreases last - at,
    {
        if matches_here(text, pattern, at) {
            return Some(at);
        }
        if at == last {
            return None;
        }
        at += 1;
    }
}

/// The last index from which `pattern` stands in `text`, if it stands anywhere.
pub fn find_last(text: &[u8], pattern: &[u8]) -> (r: Option<usize>)
    ensures
        match r {
            Some(at) => last_match(text@, pattern@, at as int),
            None => !occurs(text@, pattern@),
        },
{
    if pattern.len() > text.len() {
        return None;
    }
    let last = text.len() - pattern.len();
    let mut at: usize = last;
    loop
        invariant
            at <= last,
            last == text@.len() - pattern@.len(),
            forall|j: int| at < j ==> !matches_at(text@, pattern@, j),
        decreases at,
    {
        if matches_here(text, pattern, at) {
            return Some(at);
        }
        if at == 0 {
            return None;
        }
        at -= 1;
    }
}

/// The span of the level collection in `text`, as a pair of byte indices: from the first
/// opening of a collection to the end of the last closing of one.
pub open spec fn span_of(text: Seq<u8>, span: (usize, usize)) -> bool {
    &&& first_match(text, opening(), span.0 as int)
    &&& last_match(text, closing(), span.1 - closing().len())
    &&& span.0 <= span.1
}

/// Finds the level collection in the text of a level file. There is none where the text
/// lacks the opening or the closing, or where the last closing ends before the first opening.
pub fn collection_span(text: &str) -> (r: Option<(usize, usize)>)
    ensures
        match r {
            Some(span) => span_of(text.spec_bytes(), span),
            None => forall|span: (usize, usize)| !span_of(text.spec_bytes(), span),
        },
{
    let bytes = text.as_bytes();
    let length = bytes.len();
    let open = "<LevelCollection".as_bytes();
    let close = "</LevelCollection>".as_bytes();
    match find_first(bytes, open) {
        None => None,
        Some(start) => match find_last(bytes, close) {
            None => None,
            Some(at) => {
                let end = at + close.len();
                if start <= end {
                    Some((start, end))
                } else {
                    assert forall|span: (usize, usize)| !span_of(bytes@, span) by {
                        if span_of(bytes@, span) {
                            assert(span.0 == start);
                            assert(span.1 - closing().len() == at);
                        }
                    }
                    None
                }
            },
        },
    }
}

} // verus!
