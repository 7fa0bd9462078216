//! Regular expressions, compiled and run by the `regex` crate.
//!
//! What an expression matches is not defined here: it is named. The names
//! stand for what the crate computes from a pattern's text and a haystack, and
//! every contract that depends on a match says so through them.

use crate::chars::{collect_string, to_chars};
use regex::Regex;
use vstd::prelude::*;

verus! {

/// `regex::Regex`, a compiled regular expression. Nothing of its inside is
/// visible to the proofs.
#[verifier::external_type_specification]
#[verifier::external_body]
pub struct ExRegex(regex::Regex);

/// What `Regex::new` makes of a pattern: the compiled expression, or nothing
/// where the crate rejects the pattern.
pub uninterp spec fn compiled(pattern: Seq<char>) -> Option<Regex>;

/// The successive non-overlapping matches that the expression compiled from
/// `pattern` has in `text`, as `Regex::find_iter` yields them. Each match is
/// the pair of the character positions at which it begins and ends.
pub uninterp spec fn match_spans(pattern: Seq<char>, text: Seq<char>) -> Seq<(int, int)>;

/// What `Regex::captures` finds for the expression compiled from `pattern`
/// in `text`: nothing where there is no match, else the text of each capture
/// group of the leftmost match, group 0 being the whole match, with nothing
/// for a group that took no part in it.
pub uninterp spec fn capture_groups(pattern: Seq<char>, text: Seq<char>) -> Option<
    Seq<Option<Seq<char>>>,
>;

/// The number of bytes that `c` takes in UTF-8.
pub open spec fn char_width(c: char) -> int {
    let u = c as u32;
    if u < 0x80 {
        1
    } else if u < 0x800 {
        2
    } else if u < 0x10000 {
        3
    } else {
        4
    }
}

/// The number of bytes that `s` takes in UTF-8.
pub open spec fn utf8_len(s: Seq<char>) -> int
    decreases s.len(),
{
    if s.len() == 0 {
        0
    } else {
        utf8_len(s.drop_last()) + char_width(s.last())
    }
}

/// The byte offset, in the UTF-8 form of `text`, of its character `k`.
pub open spec fn byte_offset(text: Seq<char>, k: int) -> int {
    utf8_len(text.take(k))
}

/// The spans lie within a text of `len` characters, one after another.
pub open spec fn spans_ordered(spans: Seq<(int, int)>, len: int) -> bool {
    forall|i: int|
        0 <= i < spans.len() ==> {
            &&& 0 <= (#[trigger] spans[i]).0 <= spans[i].1 <= len
            &&& i + 1 < spans.len() ==> spans[i].1 <= spans[i + 1].0
        }
}

/// `bytes` gives the spans `spans` of `text` by their byte offsets.
pub open spec fn byte_spans_of(
    text: Seq<char>,
    spans: Seq<(int, int)>,
    bytes: Seq<(usize, usize)>,
) -> bool {
    &&& spans_ordered(spans, text.len() as int)
    &&& bytes.len() == spans.len()
    &&& forall|i: int|
        0 <= i < bytes.len() ==> {
            &&& (#[trigger] bytes[i]).0 == byte_offset(text, spans[i].0)
            &&& bytes[i].1 == byte_offset(text, spans[i].1)
        }
}

/// `text` with each of the spans replaced by `rep`.
pub open spec fn spliced(text: Seq<char>, spans: Seq<(int, int)>, rep: Seq<char>) -> Seq<char>
    decreases spans.len(),
{
    if spans.len() == 0 {
        text
    } else {
        spliced(text.take(spans.last().0), spans.drop_last(), rep) + rep + text.skip(
            spans.last().1,
        )
    }
}

/// The text of each capture group.
pub open spec fn group_texts(groups: Seq<Option<String>>) -> Seq<Option<Seq<char>>> {
    groups.map_values(
        |g: Option<String>|
            match g {
                Some(s) => Some(s@),
                None => None,
            },
    )
}

/// `Regex::new`: compiles a pattern, or rejects it. The same pattern always
/// gives the same outcome.
#[verifier::external_body]
fn regex_new(pattern: &str) -> (r: Option<Regex>)
    ensures
        r == compiled(pattern@),
{
    Regex::new(pattern).ok()
}

/// `Regex::is_match`, on the expression that `p` holds, which is the one
/// compiled from its source: whether the expression has a match anywhere in
/// `text`, that is, whether `find_iter` would yield one.
#[verifier::external_body]
fn regex_is_match(p: &Pattern, text: &str) -> (r: bool)
    ensures
        r == (match_spans(p.source(), text@).len() > 0),
{
    p.re.is_match(text)
}

/// `Regex::find_iter`, on the expression that `p` holds: the successive
/// non-overlapping matches, each by the byte offsets of its two ends in the
/// UTF-8 form of `text`. The crate documents that a match begins no later
/// than it ends, that both ends fall on character boundaries of `text`, and
/// that the matches follow one another without overlap. So each offset is
/// the byte offset of a character position, and the character positions are
/// what [`match_spans`] names.
#[verifier::external_body]
fn regex_find_iter(p: &Pattern, text: &str) -> (r: Vec<(usize, usize)>)
    ensures
        byte_spans_of(text@, match_spans(p.source(), text@), r@),
{
    p.re.find_iter(text).map(|m| (m.start(), m.end())).collect()
}

/// `Regex::captures`, on the expression that `p` holds: the capture groups of
/// the leftmost match, each group handed out as the text it matched, or
/// nothing where there is no match.
#[verifier::external_body]
fn regex_captures(p: &Pattern, text: &str) -> (r: Option<Vec<Option<String>>>)
    ensures
        match r {
            Some(groups) => capture_groups(p.source(), text@) == Some(group_texts(groups@)),
            None => capture_groups(p.source(), text@) is None,
        },
{
    p.re.captures(text).map(|c| c.iter().map(|g| g.map(|m| m.as_str().to_string())).collect())
}

/// `Regex::replace_all`, on the expression that `p` holds, with a replacement
/// that holds no `$`: every match that `find_iter` yields is replaced by
/// `rep`, which is then taken literally, and the text between the matches is
/// kept.
#[verifier::external_body]
fn regex_replace_all(p: &Pattern, text: &str, rep: &str) -> (r: String)
    requires
        forall|i: int| 0 <= i < rep@.len() ==> rep@[i] != '$',
    ensures
        r@ == spliced(text@, match_spans(p.source(), text@), rep@),
{
    p.re.replace_all(text, rep).into_owned()
}

/// A regular expression together with the pattern it was compiled from.
pub struct Pattern {
    re: Regex,
    source: Ghost<Seq<char>>,
}

impl Pattern {
    #[verifier::type_invariant]
    spec fn compiled_from_source(self) -> bool {
        compiled(self.source@) == Some(self.re)
    }

    /// The text of the pattern.
    pub closed spec fn source(self) -> Seq<char> {
        self.source@
    }

    /// Compiles `source`. There is a result exactly where the pattern is one
    /// that the `regex` crate accepts.
    pub fn compile(source: &str) -> (r: Option<Pattern>)
        ensures
            r is Some <==> compiled(source@) is Some,
            r is Some ==> r.unwrap().source() == source@,
    {
        match regex_new(source) {
            Some(re) => Some(Pattern { re, source: Ghost(source@) }),
            None => None,
        }
    }

    /// Whether the expression matches anywhere in `text`.
    pub fn is_match(&self, text: &[char]) -> (r: bool)
        ensures
            r == (match_spans(self.source(), text@).len() > 0),
    {
        let s = collect_string(text);
        regex_is_match(self, s.as_str())
    }

    /// The capture groups of the leftmost match in `text`.
    pub fn captures(&self, text: &[char]) -> (r: Option<Vec<Option<String>>>)
        ensures
            match r {
                Some(groups) => capture_groups(self.source(), text@) == Some(
                    group_texts(groups@),
                ),
                None => capture_groups(self.source(), text@) is None,
            },
    {
        let s = collect_string(text);
        regex_captures(self, s.as_str())
    }

    /// `text` with every match taken out.
    pub fn remove_matches(&self, text: &[char]) -> (out: Vec<char>)
        ensures
            out@ == spliced(text@, match_spans(self.source(), text@), Seq::empty()),
    {
        let s = collect_string(text);
        proof {
            reveal_strlit("");
        }
        let replaced = regex_replace_all(self, s.as_str(), "");
        assert(""@ =~= Seq::<char>::empty());
        to_chars(replaced.as_str())
    }

    /// The matches in `text`, each by the character positions of its ends.
    pub fn find_all(&self, text: &[char]) -> (out: Vec<(usize, usize)>)
        ensures
            spans_ordered(match_spans(self.source(), text@), text@.len() as int),
            out@.len() == match_spans(self.source(), text@).len(),
            forall|i: int|
                0 <= i < out@.len() ==> (#[trigger] out@[i]).0 == match_spans(
                    self.source(),
                    text@,
                )[i].0 && out@[i].1 == match_spans(self.source(), text@)[i].1,
    {
        let s = collect_string(text);
        let bytes = regex_find_iter(self, s.as_str());
        let ghost spans = match_spans(self.source(), text@);
        let n: usize = text.len();
        let mut out: Vec<(usize, usize)> = Vec::new();
        let mut k: usize = 0;
        let mut pos: usize = 0;
        let mut i: usize = 0;
        proof {
            assert(text@.take(0) =~= Seq::<char>::empty());
        }
        while i < bytes.len()
            invariant
                byte_spans_of(text@, spans, bytes@),
                n == text@.len(),
                i <= bytes@.len(),
                k <= n,
                pos == byte_offset(text@, k as int),
                i < bytes@.len() ==> k <= spans[i as int].0,
                out@.len() == i,
                forall|j: int|
                    0 <= j < i ==> (#[trigger] out@[j]).0 == spans[j].0 && out@[j].1 == spans[j].1,
            decreases bytes@.len() - i,
        {
            let (a, b) = bytes[i];
            let ghost span = spans[i as int];
            while pos < a
                invariant
                    n == text@.len(),
                    k <= span.0 <= n,
                    pos == byte_offset(text@, k as int),
                    a == byte_offset(text@, span.0),
                decreases span.0 - k,
            {
                proof {
                    if k == span.0 {
                        assert(false);
                    }
                    lemma_offset_step(text@, k as int);
                    lemma_offset_monotone(text@, k + 1, span.0);
                }
                pos = pos + char_len(text[k]);
                k = k + 1;
            }
            proof {
                lemma_offset_monotone(text@, k as int, span.0);
                lemma_offset_injective(text@, k as int, span.0);
            }
            let start: usize = k;
            while pos < b
                invariant
                    n == text@.len(),
                    k <= span.1 <= n,
                    pos == byte_offset(text@, k as int),
                    b == byte_offset(text@, span.1),
                decreases span.1 - k,
            {
                proof {
                    if k == span.1 {
                        assert(false);
                    }
                    lemma_offset_step(text@, k as int);
                    lemma_offset_monotone(text@, k + 1, span.1);
                }
                pos = pos + char_len(text[k]);
                k = k + 1;
            }
            proof {
                lemma_offset_monotone(text@, k as int, span.1);
                lemma_offset_injective(text@, k as int, span.1);
            }
            out.push((start, k));
            i = i + 1;
        }
        out
    }
}

/// The number of bytes that `c` takes in UTF-8.
pub fn char_len(c: char) -> (w: usize)
    ensures
        w == char_width(c),
{
    let u: u32 = c as u32;
    if u < 0x80 {
        1
    } else if u < 0x800 {
        2
    } else if u < 0x10000 {
        3
    } else {
        4
    }
}

/// One character further, the byte offset grows by that character's width.
pub proof fn lemma_offset_step(text: Seq<char>, k: int)
    requires
        0 <= k < text.len(),
    ensures
        byte_offset(text, k + 1) == byte_offset(text, k) + char_width(text[k]),
{
    assert(text.take(k + 1).drop_last() =~= text.take(k));
}

/// A later character has no smaller byte offset.
pub proof fn lemma_offset_monotone(text: Seq<char>, i: int, j: int)
    requires
        0 <= i <= j <= text.len(),
    ensures
        byte_offset(text, i) <= byte_offset(text, j),
        i < j ==> byte_offset(text, i) < byte_offset(text, j),
    decreases j - i,
{
    if i < j {
        lemma_offset_monotone(text, i, j - 1);
        lemma_offset_step(text, j - 1);
    }
}

/// Two characters with the same byte offset are the same character.
pub proof fn lemma_offset_injective(text: Seq<char>, i: int, j: int)
    requires
        0 <= i <= text.len(),
        0 <= j <= text.len(),
        byte_offset(text, i) == byte_offset(text, j),
    ensures
        i == j,
{
    if i < j {
        lemma_offset_monotone(text, i, j);
    } else if j < i {
        lemma_offset_monotone(text, j, i);
    }
}

} // verus!
