//! The phrase-tag stripper: a line's text with every inline tag taken out.

use crate::chars::{
    is_space, is_space_char, occurs, occurs_at, has_prefix, remove_all, to_chars, trim, trimmed,
    trimmed_end, trimmed_start, without,
};
use crate::lexicon::{Lexicon, TAG_PATTERN};
use crate::pattern::{match_spans, spliced};
use crate::tags::{HEMI, HUKM, MATN, MILESTONE, ROUTE_DIST, ROUTE_FROM, ROUTE_TOWA};
use vstd::prelude::*;

verus! {

/// The number of white-space characters with which `s` begins.
pub open spec fn leading_spaces(s: Seq<char>) -> int
    decreases s.len(),
{
    if s.len() > 0 && is_space(s[0]) {
        1 + leading_spaces(s.drop_first())
    } else {
        0
    }
}

/// `s` with every run of two or more white-space characters replaced by one
/// space. A white-space character that stands alone is kept as it is.
pub open spec fn collapsed(s: Seq<char>) -> Seq<char>
    decreases s.len(),
{
    if s.len() == 0 {
        s
    } else if leading_spaces(s) >= 2 {
        proof {
            lemma_leading_spaces_bounds(s);
        }
        seq![' '] + collapsed(s.skip(leading_spaces(s)))
    } else {
        seq![s[0]] + collapsed(s.drop_first())
    }
}

/// `s` without the seven phrase markers, taken out one kind after another.
pub open spec fn without_phrase_marks(s: Seq<char>) -> Seq<char> {
    without(
        without(
            without(
                without(without(without(without(s, HEMI@), MILESTONE@), MATN@), HUKM@),
                ROUTE_FROM@,
            ),
            ROUTE_TOWA@,
        ),
        ROUTE_DIST@,
    )
}

/// The plain text of `line`: the phrase markers are taken out, then every
/// match of [`TAG_PATTERN`]; what is left is trimmed, and its runs of white
/// space are collapsed. The result may be empty.
pub open spec fn stripped(line: Seq<char>) -> Seq<char> {
    let marks_out = without_phrase_marks(line);
    collapsed(trimmed(spliced(marks_out, match_spans(TAG_PATTERN@, marks_out), Seq::empty())))
}

/// `s` holds nothing that stripping would take out: none of the phrase
/// markers, and no match of [`TAG_PATTERN`].
pub open spec fn tag_free(s: Seq<char>) -> bool {
    &&& !occurs(s, HEMI@)
    &&& !occurs(s, MILESTONE@)
    &&& !occurs(s, MATN@)
    &&& !occurs(s, HUKM@)
    &&& !occurs(s, ROUTE_FROM@)
    &&& !occurs(s, ROUTE_TOWA@)
    &&& !occurs(s, ROUTE_DIST@)
    &&& match_spans(TAG_PATTERN@, s).len() == 0
}

/// No two white-space characters stand side by side in `s`.
pub open spec fn single_spaced(s: Seq<char>) -> bool {
    forall|i: int| 0 <= i < s.len() - 1 ==> !(is_space(#[trigger] s[i]) && is_space(s[i + 1]))
}

/// `s` neither begins nor ends with white space.
pub open spec fn clean_edges(s: Seq<char>) -> bool {
    s.len() > 0 ==> !is_space(s[0]) && !is_space(s.last())
}

/// A text begins with `k` white-space characters where its first `k`
/// characters are white space and the next one, if there is one, is not.
pub proof fn lemma_leading_spaces_is(s: Seq<char>, k: int)
    requires
        0 <= k <= s.len(),
        forall|j: int| 0 <= j < k ==> is_space(s[j]),
        k < s.len() ==> !is_space(s[k]),
    ensures
        leading_spaces(s) == k,
    decreases k,
{
    if k > 0 {
        let t = s.drop_first();
        assert forall|j: int| 0 <= j < k - 1 implies is_space(t[j]) by {
            assert(t[j] == s[j + 1]);
        }
        if k - 1 < t.len() {
            assert(t[k - 1] == s[k]);
        }
        lemma_leading_spaces_is(t, k - 1);
    }
}

/// The white space with which a text begins lies within the text, and the
/// character after it, if there is one, is no white space.
pub proof fn lemma_leading_spaces_bounds(s: Seq<char>)
    ensures
        0 <= leading_spaces(s) <= s.len(),
        forall|j: int| 0 <= j < leading_spaces(s) ==> is_space(s[j]),
        leading_spaces(s) < s.len() ==> !is_space(s[leading_spaces(s)]),
    decreases s.len(),
{
    if s.len() > 0 && is_space(s[0]) {
        let t = s.drop_first();
        lemma_leading_spaces_bounds(t);
        assert forall|j: int| 0 <= j < leading_spaces(s) implies is_space(s[j]) by {
            if j > 0 {
                assert(s[j] == t[j - 1]);
            }
        }
        if leading_spaces(s) < s.len() {
            assert(s[leading_spaces(s)] == t[leading_spaces(t)]);
        }
    }
}

/// Collapsing leaves no two white-space characters side by side, keeps an
/// empty text empty, and begins with white space only where the text did.
pub proof fn lemma_collapsed_single_spaced(s: Seq<char>)
    ensures
        single_spaced(collapsed(s)),
        collapsed(s).len() == 0 <==> s.len() == 0,
        s.len() > 0 ==> (is_space(collapsed(s)[0]) <==> is_space(s[0])),
    decreases s.len(),
{
    if s.len() > 0 {
        lemma_leading_spaces_bounds(s);
        let k = leading_spaces(s);
        let (head, rest) = if k >= 2 {
            (' ', s.skip(k))
        } else {
            (s[0], s.drop_first())
        };
        lemma_collapsed_single_spaced(rest);
        let c = collapsed(rest);
        let out = collapsed(s);
        assert(out == seq![head] + c);
        if rest.len() > 0 && is_space(head) {
            if k >= 2 {
                assert(rest[0] == s[k]);
            } else {
                assert(rest[0] == s[1]);
                if is_space(s[1]) {
                    lemma_leading_spaces_bounds(rest);
                    assert(leading_spaces(rest) >= 1);
                }
            }
            assert(!is_space(c[0]));
        }
        assert forall|i: int| 0 <= i < out.len() - 1 implies !(is_space(#[trigger] out[i])
            && is_space(out[i + 1])) by {
            if i > 0 {
                assert(out[i] == c[i - 1]);
                assert(out[i + 1] == c[i]);
            } else {
                assert(out[1] == c[0]);
            }
        }
    }
}

/// Collapsing keeps a last character that is no white space.
pub proof fn lemma_collapsed_keeps_end(s: Seq<char>)
    requires
        s.len() > 0,
        !is_space(s.last()),
    ensures
        collapsed(s).len() > 0,
        !is_space(collapsed(s).last()),
    decreases s.len(),
{
    lemma_leading_spaces_bounds(s);
    let k = leading_spaces(s);
    let rest = if k >= 2 {
        s.skip(k)
    } else {
        s.drop_first()
    };
    if rest.len() > 0 {
        assert(rest.last() == s.last());
        lemma_collapsed_keeps_end(rest);
        let head = if k >= 2 {
            ' '
        } else {
            s[0]
        };
        assert(collapsed(s) == seq![head] + collapsed(rest));
        assert(collapsed(s).last() == collapsed(rest).last());
    } else {
        assert(k < 2) by {
            if k >= 2 {
                assert(k == s.len());
                assert(is_space(s[s.len() - 1]));
            }
        }
        assert(collapsed(rest) =~= Seq::<char>::empty());
        assert(collapsed(s) =~= seq![s[0]]);
    }
}

/// Collapsing changes nothing where no two white-space characters stand side
/// by side.
pub proof fn lemma_collapsed_fixed(s: Seq<char>)
    requires
        single_spaced(s),
    ensures
        collapsed(s) == s,
    decreases s.len(),
{
    if s.len() > 0 {
        lemma_leading_spaces_bounds(s);
        if leading_spaces(s) >= 2 {
            assert(is_space(s[0]) && is_space(s[1]));
        }
        let t = s.drop_first();
        assert forall|i: int| 0 <= i < t.len() - 1 implies !(is_space(#[trigger] t[i]) && is_space(
            t[i + 1],
        )) by {
            assert(t[i] == s[i + 1]);
            assert(t[i + 1] == s[i + 2]);
        }
        lemma_collapsed_fixed(t);
        assert(seq![s[0]] + t =~= s);
    }
}

/// What is left after trimming the end is the beginning of the text, and it
/// does not end with white space.
pub proof fn lemma_trimmed_end_is_prefix(s: Seq<char>)
    ensures
        trimmed_end(s).len() <= s.len(),
        trimmed_end(s) == s.take(trimmed_end(s).len() as int),
        trimmed_end(s).len() > 0 ==> !is_space(trimmed_end(s).last()),
    decreases s.len(),
{
    if s.len() > 0 && is_space(s.last()) {
        let t = s.drop_last();
        lemma_trimmed_end_is_prefix(t);
        assert(t.take(trimmed_end(t).len() as int) =~= s.take(trimmed_end(t).len() as int));
    } else {
        assert(s.take(s.len() as int) =~= s);
    }
}

/// What is left after trimming the start does not begin with white space.
pub proof fn lemma_trimmed_start_clean(s: Seq<char>)
    ensures
        trimmed_start(s).len() > 0 ==> !is_space(trimmed_start(s)[0]),
    decreases s.len(),
{
    if s.len() > 0 && is_space(s[0]) {
        lemma_trimmed_start_clean(s.drop_first());
    }
}

/// A trimmed text has clean edges.
pub proof fn lemma_trimmed_clean(s: Seq<char>)
    ensures
        clean_edges(trimmed(s)),
{
    let v = trimmed_start(s);
    lemma_trimmed_start_clean(s);
    lemma_trimmed_end_is_prefix(v);
    if trimmed(s).len() > 0 {
        assert(trimmed(s)[0] == v[0]);
    }
}

/// Trimming changes nothing where the edges are clean.
pub proof fn lemma_trimmed_fixed(s: Seq<char>)
    requires
        clean_edges(s),
    ensures
        trimmed(s) == s,
{
}

/// Taking out a marker changes nothing where the marker does not occur.
pub proof fn lemma_without_absent(s: Seq<char>, p: Seq<char>)
    requires
        !occurs(s, p),
    ensures
        without(s, p) == s,
    decreases s.len(),
{
    if p.len() > 0 && s.len() >= p.len() {
        assert(!occurs_at(s, p, 0));
        assert(!has_prefix(s, p));
        let t = s.drop_first();
        assert forall|i: int| !occurs_at(t, p, i) by {
            if occurs_at(t, p, i) {
                assert(t.subrange(i, i + p.len()) =~= s.subrange(i + 1, i + 1 + p.len()));
                assert(occurs_at(s, p, i + 1));
            }
        }
        lemma_without_absent(t, p);
        assert(seq![s[0]] + t =~= s);
    }
}

/// The plain text of a line is single-spaced and has clean edges.
pub proof fn lemma_stripped_is_tidy(line: Seq<char>)
    ensures
        single_spaced(stripped(line)),
        clean_edges(stripped(line)),
{
    let marks_out = without_phrase_marks(line);
    let u = trimmed(spliced(marks_out, match_spans(TAG_PATTERN@, marks_out), Seq::empty()));
    lemma_trimmed_clean(spliced(marks_out, match_spans(TAG_PATTERN@, marks_out), Seq::empty()));
    lemma_collapsed_single_spaced(u);
    if u.len() > 0 {
        lemma_collapsed_keeps_end(u);
    }
}

/// Stripping is idempotent, wherever the first stripping left no tag behind:
/// a plain text that holds none of the phrase markers and no match of
/// [`TAG_PATTERN`] is its own plain text.
///
/// Taking a tag out can bring the two halves of another tag together, so a
/// plain text may hold a tag again, and stripping it once more then makes it
/// shorter.
pub proof fn lemma_stripping_is_idempotent(line: Seq<char>)
    requires
        tag_free(stripped(line)),
    ensures
        stripped(stripped(line)) == stripped(line),
{
    let t = stripped(line);
    lemma_stripped_is_tidy(line);
    lemma_fixed_point(t);
}

/// A tidy text that holds no tag is its own plain text.
pub proof fn lemma_fixed_point(t: Seq<char>)
    requires
        tag_free(t),
        single_spaced(t),
        clean_edges(t),
    ensures
        stripped(t) == t,
{
    lemma_without_absent(t, HEMI@);
    lemma_without_absent(t, MILESTONE@);
    lemma_without_absent(t, MATN@);
    lemma_without_absent(t, HUKM@);
    lemma_without_absent(t, ROUTE_FROM@);
    lemma_without_absent(t, ROUTE_TOWA@);
    lemma_without_absent(t, ROUTE_DIST@);
    assert(without_phrase_marks(t) == t);
    lemma_trimmed_fixed(t);
    lemma_collapsed_fixed(t);
}

/// Replaces every run of two or more white-space characters by one space.
pub fn collapse_spaces(s: &[char]) -> (out: Vec<char>)
    ensures
        out@ == collapsed(s@),
{
    let n: usize = s.len();
    let mut out: Vec<char> = Vec::new();
    let mut i: usize = 0;
    proof {
        assert(s@.skip(0) =~= s@);
        assert(out@ + collapsed(s@) =~= collapsed(s@));
    }
    while i < n
        invariant
            i <= n == s@.len(),
            collapsed(s@) == out@ + collapsed(s@.skip(i as int)),
        decreases n - i,
    {
        let mut j: usize = i;
        while j < n && is_space_char(s[j])
            invariant
                i <= j <= n == s@.len(),
                forall|k: int| i <= k < j ==> is_space(s@[k]),
            decreases n - j,
        {
            j += 1;
        }
        proof {
            let rest = s@.skip(i as int);
            assert forall|k: int| 0 <= k < j - i implies is_space(rest[k]) by {
                assert(rest[k] == s@[i + k]);
            }
            if j < n {
                assert(rest[j - i] == s@[j as int]);
            }
            lemma_leading_spaces_is(rest, j - i);
        }
        if j - i >= 2 {
            proof {
                assert(s@.skip(i as int).skip(j - i) =~= s@.skip(j as int));
                assert(out@ + (seq![' '] + collapsed(s@.skip(j as int))) =~= out@.push(' ')
                    + collapsed(s@.skip(j as int)));
            }
            out.push(' ');
            i = j;
        } else {
            proof {
                assert(s@.skip(i as int).drop_first() =~= s@.skip(i + 1));
                assert(out@ + (seq![s@[i as int]] + collapsed(s@.skip(i + 1))) =~= out@.push(
                    s@[i as int],
                ) + collapsed(s@.skip(i + 1)));
            }
            out.push(s[i]);
            i += 1;
        }
    }
    proof {
        assert(s@.skip(n as int) =~= Seq::<char>::empty());
        assert(out@ + Seq::<char>::empty() =~= out@);
    }
    out
}

/// Takes the seven phrase markers out of `s`.
pub fn remove_phrase_marks(s: &[char]) -> (out: Vec<char>)
    ensures
        out@ == without_phrase_marks(s@),
{
    let a = remove_all(s, to_chars(HEMI).as_slice());
    let b = remove_all(a.as_slice(), to_chars(MILESTONE).as_slice());
    let c = remove_all(b.as_slice(), to_chars(MATN).as_slice());
    let d = remove_all(c.as_slice(), to_chars(HUKM).as_slice());
    let e = remove_all(d.as_slice(), to_chars(ROUTE_FROM).as_slice());
    let f = remove_all(e.as_slice(), to_chars(ROUTE_TOWA).as_slice());
    remove_all(f.as_slice(), to_chars(ROUTE_DIST).as_slice())
}

/// The plain text of `line`: the line without its inline tags.
pub fn remove_phrase_lv_tags(lex: &Lexicon, line: &[char]) -> (out: Vec<char>)
    ensures
        out@ == stripped(line@),
        single_spaced(out@),
        clean_edges(out@),
{
    let marks_out = remove_phrase_marks(line);
    let tags_out = lex.tags().remove_matches(marks_out.as_slice());
    let trimmed_text = trim(tags_out.as_slice());
    proof {
        lemma_stripped_is_tidy(line@);
    }
    collapse_spaces(trimmed_text.as_slice())
}

} // verus!
