//! The line tokenizer: a line's text as a sequence of typed fragments.

use crate::chars::{
    append, contains, copy_range, digit_value, has_prefix, occurs, pieces, split_on, starts_with,
    strip_leading, texts, to_chars, to_digit, trim, trimmed, without_leading, collect_string,
};
use crate::lexicon::{Lexicon, AUTO_TAG_PATTERN, PAGE_PATTERN, TOKEN_PATTERN, USER_TAG_PATTERN};
use crate::pattern::{capture_groups, group_texts, match_spans, spans_ordered, Pattern};
use crate::stripper::{remove_phrase_lv_tags, stripped};
use crate::structures::{
    entity_texts_marked, marks, parts_view, DateType, EntityType, Line, LinePart, LinePartView,
    LineType, LineView, PageNumber, PageNumberView,
};
use crate::tags::{
    AT, HEMI, HUKM, LINE, MATN, MILESTONE, PAGE, PER, PER_FULL, ROUTE_DIST, ROUTE_FROM,
    ROUTE_TOWA, SOC, SOC_FULL, SRC, TOP, TOP_FULL, YEAR_AGE, YEAR_BIRTH, YEAR_DEATH, YEAR_OTHER,
};
use vstd::prelude::*;

verus! {

/// The capture groups of a match, each by its text.
pub type Groups = Seq<Option<Seq<char>>>;

/// What the tokenizer carries from one token to the next.
#[derive(Clone, Copy, Debug, PartialEq, Eq)]
pub enum Lookahead {
    /// No named-entity marker is waiting for its words.
    Idle,
    /// A named-entity marker of kind `kind` claims the last `count` words of
    /// the next free-text token.
    Awaiting { count: u32, kind: EntityType },
}

/// `s` as a sequence of one piece, or of none where `s` is empty.
pub open spec fn unless_empty(s: Seq<char>) -> Seq<Seq<char>> {
    if s.len() > 0 {
        seq![s]
    } else {
        Seq::empty()
    }
}

/// Where the last of the spans ends, or 0 where there is none.
pub open spec fn end_of(spans: Seq<(int, int)>) -> int {
    if spans.len() == 0 {
        0
    } else {
        spans.last().1
    }
}

/// The pieces of `text` up to the end of the last span: before each span the
/// text since the span before it, unless that is empty, then the span's own
/// text.
pub open spec fn matched_pieces(text: Seq<char>, spans: Seq<(int, int)>) -> Seq<Seq<char>>
    decreases spans.len(),
{
    if spans.len() == 0 {
        Seq::empty()
    } else {
        matched_pieces(text, spans.drop_last()) + unless_empty(
            text.subrange(end_of(spans.drop_last()), spans.last().0),
        ) + seq![text.subrange(spans.last().0, spans.last().1)]
    }
}

/// `text` cut at the spans, the spans kept: the spans' texts and the texts
/// between them, in the order of the text. A text between two spans, before
/// the first or after the last is left out where it is empty.
pub open spec fn split_pieces(text: Seq<char>, spans: Seq<(int, int)>) -> Seq<Seq<char>> {
    matched_pieces(text, spans) + unless_empty(text.skip(end_of(spans)))
}

/// The words of `words` from the last to the first, each followed by a space.
pub open spec fn joined_reversed(words: Seq<Seq<char>>) -> Seq<char>
    decreases words.len(),
{
    if words.len() == 0 {
        Seq::empty()
    } else {
        joined_reversed(words.drop_first()) + words[0] + seq![' ']
    }
}

/// The number of words that a marker of extent `n` claims from `token`: `n`,
/// or all the words where there are fewer.
pub open spec fn claimed_count(token: Seq<char>, n: int) -> int {
    let m = pieces(token, ' ').len() as int;
    if n < 0 {
        0
    } else if n <= m {
        n
    } else {
        m
    }
}

/// The words of `token` that a marker of extent `n` claims: its last words.
pub open spec fn claimed_words(token: Seq<char>, n: int) -> Seq<Seq<char>> {
    let words = pieces(token, ' ');
    words.skip(words.len() - claimed_count(token, n))
}

/// The words of `token` that a marker of extent `n` leaves: its first words.
pub open spec fn left_words(token: Seq<char>, n: int) -> Seq<Seq<char>> {
    let words = pieces(token, ' ');
    words.take(words.len() - claimed_count(token, n))
}

/// The fragments that a free-text token gives after a marker of extent
/// `n >= 1`: the claimed words as the entity's text, then the words that are
/// left, if any, as plain text. Within each fragment the words stand in
/// reverse order.
pub open spec fn claimed_parts(token: Seq<char>, n: int, kind: EntityType) -> Seq<LinePartView> {
    let entity = LinePartView::NamedEntityText {
        text: trimmed(joined_reversed(claimed_words(token, n))),
        ne_type: kind,
    };
    if left_words(token, n).len() > 0 {
        seq![
            entity,
            LinePartView::TextPart { text: trimmed(joined_reversed(left_words(token, n))) },
        ]
    } else {
        seq![entity]
    }
}

/// The text of capture group `i`, or the empty text where the match has no
/// such group or the group took no part in it.
pub open spec fn group_text(groups: Groups, i: int) -> Seq<char> {
    if 0 <= i < groups.len() && groups[i] is Some {
        groups[i].unwrap()
    } else {
        Seq::empty()
    }
}

/// The capture groups that a search handed out.
pub open spec fn groups_of(found: Option<Vec<Option<String>>>) -> Option<Groups> {
    match found {
        Some(groups) => Some(group_texts(groups@)),
        None => None,
    }
}

/// The page number that the groups of a [`PAGE_PATTERN`] match hold.
pub open spec fn page_of(groups: Groups) -> PageNumberView {
    PageNumberView { vol: group_text(groups, 1), page: group_text(groups, 2) }
}

/// What a named-reference marker gives: `token` without the introducer
/// `intro` must begin with two decimal digits, the prefix and the extent.
/// Then the marker is a fragment, and it claims `extent` words of the next
/// free-text token. A marker without the two digits is dropped.
pub open spec fn marker_parts(
    token: Seq<char>,
    intro: Seq<char>,
    kind: EntityType,
    state: Lookahead,
) -> (Seq<LinePartView>, Lookahead) {
    let digits = without_leading(token, intro);
    if digits.len() >= 2 && digit_value(digits[0]) is Some && digit_value(digits[1]) is Some {
        let prefix = digit_value(digits[0]).unwrap();
        let extent = digit_value(digits[1]).unwrap();
        (
            seq![LinePartView::NamedEntity { prefix, extent, ne_type: kind }],
            Lookahead::Awaiting { count: extent, kind },
        )
    } else {
        (Seq::empty(), state)
    }
}

/// A date fragment: `token` without the introducer `intro` is its value.
pub open spec fn date_part(token: Seq<char>, intro: Seq<char>, date_type: DateType) -> Seq<
    LinePartView,
> {
    seq![LinePartView::Date { value: without_leading(token, intro), date_type }]
}

/// The introducer with which a named-reference marker is read, and the kind
/// of entity that it names. Where two introducers of a kind begin alike, the
/// longer one is looked for first.
pub open spec fn introducer_of(token: Seq<char>) -> Option<(Seq<char>, EntityType)> {
    if occurs(token, SRC@) {
        Some((SRC@, EntityType::Src))
    } else if has_prefix(token, SOC_FULL@) {
        Some((SOC_FULL@, EntityType::Soc))
    } else if has_prefix(token, SOC@) {
        Some((SOC@, EntityType::Soc))
    } else if has_prefix(token, TOP_FULL@) {
        Some((TOP_FULL@, EntityType::Top))
    } else if has_prefix(token, TOP@) {
        Some((TOP@, EntityType::Top))
    } else if has_prefix(token, PER_FULL@) {
        Some((PER_FULL@, EntityType::Per))
    } else if has_prefix(token, PER@) {
        Some((PER@, EntityType::Per))
    } else {
        None
    }
}

/// The fragments that one token gives, and the state it leaves.
///
/// `token` is trimmed and not empty. `page`, `user` and `auto` are what the
/// search for a page number, a user open tag and an automatic open tag found
/// in it. The tests are made in this order and the first that holds decides:
/// page number, user open tag, automatic open tag, the phrase markers, the
/// dated markers, the named-reference markers with the longer introducer of a
/// kind before the shorter, the claim of a waiting marker, plain text.
pub open spec fn token_parts(
    token: Seq<char>,
    page: Option<Groups>,
    user: Option<Groups>,
    auto: Option<Groups>,
    state: Lookahead,
) -> (Seq<LinePartView>, Lookahead) {
    if occurs(token, PAGE@) {
        match page {
            Some(groups) => (seq![LinePartView::PageNumber(page_of(groups))], state),
            None => (Seq::empty(), state),
        }
    } else if let Some(groups) = user {
        (
            seq![
                LinePartView::OpenTagUser {
                    user: group_text(groups, 1),
                    t_type: group_text(groups, 2),
                    t_subtype: group_text(groups, 3),
                    t_subsubtype: group_text(groups, 5),
                },
            ],
            state,
        )
    } else if let Some(groups) = auto {
        (
            seq![
                LinePartView::OpenTagAuto {
                    resp: group_text(groups, 1),
                    t_type: group_text(groups, 2),
                    category: group_text(groups, 3),
                    review: group_text(groups, 5),
                },
            ],
            state,
        )
    } else if occurs(token, HEMI@) {
        (seq![LinePartView::Hemistich { orig: token }], state)
    } else if occurs(token, MILESTONE@) {
        (seq![LinePartView::Milestone], state)
    } else if occurs(token, MATN@) {
        (seq![LinePartView::Matn], state)
    } else if occurs(token, HUKM@) {
        (seq![LinePartView::Hukm], state)
    } else if occurs(token, ROUTE_FROM@) {
        (seq![LinePartView::RouteFrom], state)
    } else if occurs(token, ROUTE_TOWA@) {
        (seq![LinePartView::RouteTowa], state)
    } else if occurs(token, ROUTE_DIST@) {
        (seq![LinePartView::RouteDist], state)
    } else if occurs(token, YEAR_BIRTH@) {
        (date_part(token, YEAR_BIRTH@, DateType::Birth), state)
    } else if occurs(token, YEAR_DEATH@) {
        (date_part(token, YEAR_DEATH@, DateType::Death), state)
    } else if occurs(token, YEAR_OTHER@) {
        (date_part(token, YEAR_OTHER@, DateType::Other), state)
    } else if occurs(token, YEAR_AGE@) {
        (seq![LinePartView::Age { value: without_leading(token, YEAR_AGE@) }], state)
    } else if let Some(found) = introducer_of(token) {
        marker_parts(token, found.0, found.1, state)
    } else {
        match state {
            Lookahead::Awaiting { count, kind } if count > 0 => (
                claimed_parts(token, count as int, kind),
                Lookahead::Idle,
            ),
            _ => (seq![LinePartView::TextPart { text: token }], state),
        }
    }
}

/// There is always at least one word.
pub proof fn lemma_pieces_nonempty(s: Seq<char>, c: char)
    ensures
        pieces(s, c).len() >= 1,
{
}

/// The lookahead rule shares out the words of a token. Of the `m` words of a
/// token that follows a marker of extent `n >= 1`, the last `n` go to the
/// entity's text and the first `m - n` to the plain text that follows it;
/// where the token has fewer than `n` words, all go to the entity's text and
/// no plain text follows.
pub proof fn lemma_lookahead_shares_words(token: Seq<char>, n: int, kind: EntityType)
    requires
        n >= 1,
    ensures
        left_words(token, n) + claimed_words(token, n) == pieces(token, ' '),
        pieces(token, ' ').len() >= n ==> claimed_words(token, n).len() == n && left_words(
            token,
            n,
        ).len() == pieces(token, ' ').len() - n,
        pieces(token, ' ').len() < n ==> claimed_words(token, n) == pieces(token, ' ')
            && left_words(token, n).len() == 0,
        claimed_parts(token, n, kind).len() == (if pieces(token, ' ').len() > n {
            2int
        } else {
            1int
        }),
        claimed_parts(token, n, kind)[0] is NamedEntityText,
        claimed_parts(token, n, kind).len() == 2 ==> claimed_parts(token, n, kind)[1] is TextPart,
{
    let words = pieces(token, ' ');
    lemma_pieces_nonempty(token, ' ');
    assert(left_words(token, n) + claimed_words(token, n) =~= words);
    if words.len() < n {
        assert(claimed_words(token, n) =~= words);
    }
}

/// Cuts `text` at the spans and keeps the spans.
pub fn split_at_spans(text: &[char], spans: &Vec<(usize, usize)>) -> (out: Vec<Vec<char>>)
    requires
        spans_ordered(span_values(spans@), text@.len() as int),
    ensures
        texts(out@) == split_pieces(text@, span_values(spans@)),
        joined(texts(out@)) == text@,
{
    let n: usize = text.len();
    let ghost all = span_values(spans@);
    proof {
        lemma_pieces_make_the_text(text@, all);
    }
    let mut out: Vec<Vec<char>> = Vec::new();
    let mut last: usize = 0;
    let mut i: usize = 0;
    proof {
        assert(all.take(0) =~= Seq::<(int, int)>::empty());
        assert(texts(out@) =~= matched_pieces(text@, all.take(0)));
    }
    while i < spans.len()
        invariant
            n == text@.len(),
            all == span_values(spans@),
            spans_ordered(all, n as int),
            i <= spans@.len(),
            last == end_of(all.take(i as int)),
            last <= n,
            texts(out@) == matched_pieces(text@, all.take(i as int)),
        decreases spans@.len() - i,
    {
        let (a, b) = spans[i];
        proof {
            let done = all.take(i as int);
            let next = all.take(i + 1);
            assert(next.drop_last() =~= done);
            assert(next.last() == all[i as int]);
            assert(all[i as int] == (a as int, b as int));
            if i > 0 {
                assert(done.last() == all[i - 1]);
            }
        }
        if last != a {
            let gap = copy_range(text, last, a);
            let ghost before = out@;
            out.push(gap);
            proof {
                assert(texts(out@) =~= texts(before).push(gap@));
            }
        }
        let piece = copy_range(text, a, b);
        let ghost before = out@;
        out.push(piece);
        proof {
            assert(texts(out@) =~= texts(before).push(piece@));
            assert(texts(out@) =~= matched_pieces(text@, all.take(i + 1)));
        }
        last = b;
        i += 1;
    }
    proof {
        assert(all.take(spans@.len() as int) =~= all);
    }
    if last < n {
        let rest = copy_range(text, last, n);
        let ghost before = out@;
        out.push(rest);
        proof {
            assert(text@.skip(last as int) =~= text@.subrange(last as int, n as int));
            assert(texts(out@) =~= texts(before).push(rest@));
        }
    } else {
        proof {
            assert(text@.skip(last as int).len() == 0);
            assert(texts(out@) + Seq::<Seq<char>>::empty() =~= texts(out@));
        }
    }
    out
}

/// The pieces put together, one after another.
pub open spec fn joined(pieces: Seq<Seq<char>>) -> Seq<char>
    decreases pieces.len(),
{
    if pieces.len() == 0 {
        Seq::empty()
    } else {
        joined(pieces.drop_last()) + pieces.last()
    }
}

/// Two runs of pieces put together are the first run put together, followed
/// by the second put together.
pub proof fn lemma_joined_runs(first: Seq<Seq<char>>, second: Seq<Seq<char>>)
    ensures
        joined(first + second) == joined(first) + joined(second),
    decreases second.len(),
{
    if second.len() == 0 {
        assert(first + second =~= first);
        assert(joined(first) + Seq::<char>::empty() =~= joined(first));
    } else {
        lemma_joined_runs(first, second.drop_last());
        assert((first + second).drop_last() =~= first + second.drop_last());
        assert((first + second).last() == second.last());
        assert(joined(first) + (joined(second.drop_last()) + second.last()) =~= (joined(first)
            + joined(second.drop_last())) + second.last());
    }
}

/// One piece put together is the piece, and so is a piece that is left out
/// where it is empty.
pub proof fn lemma_joined_one(piece: Seq<char>)
    ensures
        joined(seq![piece]) == piece,
        joined(unless_empty(piece)) == piece,
{
    let one = seq![piece];
    assert(one.drop_last() =~= Seq::<Seq<char>>::empty());
    assert(joined(Seq::<Seq<char>>::empty()) =~= Seq::<char>::empty());
    assert(joined(one) =~= joined(one.drop_last()) + piece);
    assert(joined(one) =~= piece);
    if piece.len() == 0 {
        assert(joined(unless_empty(piece)) =~= piece);
    }
}

/// Cutting a text loses nothing: the pieces, put together again, are the
/// text. This holds of the pieces up to the end of the last span, and of all
/// the pieces.
pub proof fn lemma_pieces_make_the_text(text: Seq<char>, spans: Seq<(int, int)>)
    requires
        spans_ordered(spans, text.len() as int),
    ensures
        0 <= end_of(spans) <= text.len(),
        joined(matched_pieces(text, spans)) == text.take(end_of(spans)),
        joined(split_pieces(text, spans)) == text,
    decreases spans.len(),
{
    if spans.len() == 0 {
        assert(text.take(0) =~= Seq::<char>::empty());
    } else {
        let init = spans.drop_last();
        let (a, b) = spans.last();
        assert(spans.last() == spans[spans.len() - 1]);
        assert forall|i: int| 0 <= i < init.len() implies {
            &&& 0 <= (#[trigger] init[i]).0 <= init[i].1 <= text.len()
            &&& i + 1 < init.len() ==> init[i].1 <= init[i + 1].0
        } by {
            assert(init[i] == spans[i]);
            if i + 1 < init.len() {
                assert(init[i + 1] == spans[i + 1]);
            }
        }
        lemma_pieces_make_the_text(text, init);
        if init.len() > 0 {
            assert(init.last() == spans[spans.len() - 2]);
        }
        let gap = text.subrange(end_of(init), a);
        let piece = text.subrange(a, b);
        lemma_joined_runs(matched_pieces(text, init) + unless_empty(gap), seq![piece]);
        lemma_joined_runs(matched_pieces(text, init), unless_empty(gap));
        lemma_joined_one(piece);
        lemma_joined_one(gap);
        assert(text.take(end_of(init)) + gap + piece =~= text.take(b));
    }
    let rest = text.skip(end_of(spans));
    lemma_joined_runs(matched_pieces(text, spans), unless_empty(rest));
    lemma_joined_one(rest);
    assert(text.take(end_of(spans)) + rest =~= text);
}

/// The spans as pairs of positions in the text.
pub open spec fn span_values(spans: Seq<(usize, usize)>) -> Seq<(int, int)> {
    spans.map_values(|s: (usize, usize)| (s.0 as int, s.1 as int))
}

/// Cuts `text` at the matches of `re` and keeps the matches.
pub fn split_keep(re: &Pattern, text: &[char]) -> (out: Vec<Vec<char>>)
    ensures
        texts(out@) == split_pieces(text@, match_spans(re.source(), text@)),
        joined(texts(out@)) == text@,
{
    let spans = re.find_all(text);
    proof {
        assert(span_values(spans@) =~= match_spans(re.source(), text@));
    }
    split_at_spans(text, &spans)
}

/// The text of capture group `i`.
pub fn group_string(groups: &Vec<Option<String>>, i: usize) -> (out: String)
    ensures
        out@ == group_text(group_texts(groups@), i as int),
{
    if i < groups.len() {
        match &groups[i] {
            Some(s) => s.clone(),
            None => String::new(),
        }
    } else {
        String::new()
    }
}

/// Shares out the words of `token` after a marker of extent `n` and kind
/// `kind`.
pub fn claim_words(token: &[char], n: u32, kind: EntityType) -> (out: Vec<LinePart>)
    requires
        n >= 1,
    ensures
        parts_view(out@) == claimed_parts(token@, n as int, kind),
{
    let words = split_on(token, ' ');
    let m: usize = words.len();
    let ghost all = pieces(token@, ' ');
    let mut entity: Vec<char> = Vec::new();
    let mut rest: Vec<char> = Vec::new();
    let mut seen: usize = 0;
    proof {
        lemma_pieces_nonempty(token@, ' ');
        assert(all.len() == m);
        assert(all.subrange(m as int, m as int) =~= Seq::<Seq<char>>::empty());
    }
    while seen < m
        invariant
            texts(words@) == all,
            m == all.len(),
            seen <= m,
            n >= 1,
            entity@ == joined_reversed(
                all.subrange(
                    m - (if seen <= n {
                        seen as int
                    } else {
                        n as int
                    }),
                    m as int,
                ),
            ),
            rest@ == joined_reversed(
                all.subrange(
                    m - seen,
                    m - (if seen <= n {
                        seen as int
                    } else {
                        n as int
                    }),
                ),
            ),
        decreases m - seen,
    {
        let word = &words[m - 1 - seen];
        proof {
            assert(word@ == all[m - 1 - seen]);
        }
        if seen < n as usize {
            proof {
                let grown = all.subrange(m - seen - 1, m as int);
                assert(grown.drop_first() =~= all.subrange(m - seen, m as int));
                assert(all.subrange(m - seen - 1, m - (seen + 1)) =~= all.subrange(
                    m - seen,
                    m - seen,
                ));
            }
            append(&mut entity, word.as_slice());
            entity.push(' ');
        } else {
            proof {
                let grown = all.subrange(m - seen - 1, m - n);
                assert(grown.drop_first() =~= all.subrange(m - seen, m - n));
            }
            append(&mut rest, word.as_slice());
            rest.push(' ');
        }
        seen += 1;
    }
    proof {
        let taken = claimed_count(token@, n as int);
        assert(all.subrange(m - taken, m as int) =~= claimed_words(token@, n as int));
        assert(all.subrange(0, m - taken) =~= left_words(token@, n as int));
        lemma_joined_length(left_words(token@, n as int));
    }
    let mut out: Vec<LinePart> = Vec::new();
    let entity_text = collect_string(trim(entity.as_slice()).as_slice());
    out.push(LinePart::NamedEntityText { text: entity_text, ne_type: kind });
    if rest.len() > 0 {
        let rest_text = collect_string(trim(rest.as_slice()).as_slice());
        out.push(LinePart::TextPart { text: rest_text });
    }
    proof {
        assert(parts_view(out@) =~= claimed_parts(token@, n as int, kind));
    }
    out
}

/// Words joined are empty only where there is no word.
pub proof fn lemma_joined_length(words: Seq<Seq<char>>)
    ensures
        joined_reversed(words).len() > 0 <==> words.len() > 0,
{
}

/// A sequence of one fragment.
fn one_part(part: LinePart) -> (out: Vec<LinePart>)
    ensures
        out@ == seq![part],
        parts_view(out@) == seq![part@],
{
    let mut out: Vec<LinePart> = Vec::new();
    out.push(part);
    proof {
        assert(out@ =~= seq![part]);
        assert(parts_view(out@) =~= seq![part@]);
    }
    out
}

/// No fragment.
fn no_part() -> (out: Vec<LinePart>)
    ensures
        parts_view(out@) == Seq::<LinePartView>::empty(),
{
    let out: Vec<LinePart> = Vec::new();
    proof {
        assert(parts_view(out@) =~= Seq::<LinePartView>::empty());
    }
    out
}

/// Reads a named-reference marker of kind `kind` whose introducer is `intro`.
pub fn read_marker(token: &[char], intro: &str, kind: EntityType, state: Lookahead) -> (out: (
    Vec<LinePart>,
    Lookahead,
))
    ensures
        (parts_view(out.0@), out.1) == marker_parts(token@, intro@, kind, state),
{
    let digits = strip_leading(token, to_chars(intro).as_slice());
    if digits.len() >= 2 {
        match (to_digit(digits[0]), to_digit(digits[1])) {
            (Some(prefix), Some(extent)) => {
                return (
                    one_part(LinePart::NamedEntity { prefix, extent, ne_type: kind }),
                    Lookahead::Awaiting { count: extent, kind },
                );
            },
            _ => {},
        }
    }
    (no_part(), state)
}

/// Reads a dated marker whose introducer is `intro`.
pub fn read_date(token: &[char], intro: &str, date_type: DateType) -> (out: Vec<LinePart>)
    ensures
        parts_view(out@) == date_part(token@, intro@, date_type),
{
    let value = collect_string(strip_leading(token, to_chars(intro).as_slice()).as_slice());
    one_part(LinePart::Date { value, date_type })
}

/// Whether the tag `tag` stands somewhere in `token`.
pub fn holds(token: &[char], tag: &str) -> (r: bool)
    ensures
        r == occurs(token@, tag@),
{
    contains(token, to_chars(tag).as_slice())
}

/// Whether `token` begins with the tag `tag`.
pub fn begins_with(token: &[char], tag: &str) -> (r: bool)
    ensures
        r == has_prefix(token@, tag@),
{
    starts_with(token, to_chars(tag).as_slice())
}

/// The introducer with which a named-reference marker is read.
pub fn find_introducer(token: &[char]) -> (r: Option<(&'static str, EntityType)>)
    ensures
        match r {
            Some(found) => introducer_of(token@) == Some((found.0@, found.1)),
            None => introducer_of(token@) is None,
        },
{
    if holds(token, SRC) {
        Some((SRC, EntityType::Src))
    } else if begins_with(token, SOC_FULL) {
        Some((SOC_FULL, EntityType::Soc))
    } else if begins_with(token, SOC) {
        Some((SOC, EntityType::Soc))
    } else if begins_with(token, TOP_FULL) {
        Some((TOP_FULL, EntityType::Top))
    } else if begins_with(token, TOP) {
        Some((TOP, EntityType::Top))
    } else if begins_with(token, PER_FULL) {
        Some((PER_FULL, EntityType::Per))
    } else if begins_with(token, PER) {
        Some((PER, EntityType::Per))
    } else {
        None
    }
}

/// Classifies one trimmed token, given what the searches for a page number,
/// a user open tag and an automatic open tag found in it, and the state that
/// the tokens before it left.
pub fn classify_token(
    token: &[char],
    page: &Option<Vec<Option<String>>>,
    user: &Option<Vec<Option<String>>>,
    auto: &Option<Vec<Option<String>>>,
    state: Lookahead,
) -> (out: (Vec<LinePart>, Lookahead))
    ensures
        (parts_view(out.0@), out.1) == token_parts(
            token@,
            groups_of(*page),
            groups_of(*user),
            groups_of(*auto),
            state,
        ),
{
    if holds(token, PAGE) {
        match page {
            Some(groups) => {
                let vol = group_string(groups, 1);
                let page = group_string(groups, 2);
                (one_part(LinePart::PageNumber(PageNumber { vol, page })), state)
            },
            None => (no_part(), state),
        }
    } else if let Some(groups) = user {
        let user = group_string(groups, 1);
        let t_type = group_string(groups, 2);
        let t_subtype = group_string(groups, 3);
        let t_subsubtype = group_string(groups, 5);
        (one_part(LinePart::OpenTagUser { user, t_type, t_subtype, t_subsubtype }), state)
    } else if let Some(groups) = auto {
        let resp = group_string(groups, 1);
        let t_type = group_string(groups, 2);
        let category = group_string(groups, 3);
        let review = group_string(groups, 5);
        (one_part(LinePart::OpenTagAuto { resp, t_type, category, review }), state)
    } else if holds(token, HEMI) {
        (one_part(LinePart::Hemistich { orig: collect_string(token) }), state)
    } else if holds(token, MILESTONE) {
        (one_part(LinePart::Milestone), state)
    } else if holds(token, MATN) {
        (one_part(LinePart::Matn), state)
    } else if holds(token, HUKM) {
        (one_part(LinePart::Hukm), state)
    } else if holds(token, ROUTE_FROM) {
        (one_part(LinePart::RouteFrom), state)
    } else if holds(token, ROUTE_TOWA) {
        (one_part(LinePart::RouteTowa), state)
    } else if holds(token, ROUTE_DIST) {
        (one_part(LinePart::RouteDist), state)
    } else if holds(token, YEAR_BIRTH) {
        (read_date(token, YEAR_BIRTH, DateType::Birth), state)
    } else if holds(token, YEAR_DEATH) {
        (read_date(token, YEAR_DEATH, DateType::Death), state)
    } else if holds(token, YEAR_OTHER) {
        (read_date(token, YEAR_OTHER, DateType::Other), state)
    } else if holds(token, YEAR_AGE) {
        let value = collect_string(strip_leading(token, to_chars(YEAR_AGE).as_slice()).as_slice());
        (one_part(LinePart::Age { value }), state)
    } else if let Some(found) = find_introducer(token) {
        read_marker(token, found.0, found.1, state)
    } else {
        match state {
            Lookahead::Awaiting { count, kind } if count > 0 => (
                claim_words(token, count, kind),
                Lookahead::Idle,
            ),
            _ => (one_part(LinePart::TextPart { text: collect_string(token) }), state),
        }
    }
}

/// What the search for a page number finds in a token: it is made only where
/// the token holds the page tag.
pub open spec fn page_groups(token: Seq<char>) -> Option<Groups> {
    if occurs(token, PAGE@) {
        capture_groups(PAGE_PATTERN@, token)
    } else {
        None
    }
}

/// What the search for a user open tag finds in a token: it is made only
/// where the token begins with `@`.
pub open spec fn user_groups(token: Seq<char>) -> Option<Groups> {
    if has_prefix(token, AT@) {
        capture_groups(USER_TAG_PATTERN@, token)
    } else {
        None
    }
}

/// What the search for an automatic open tag finds in a token: it is made
/// only where the token begins with `@`.
pub open spec fn auto_groups(token: Seq<char>) -> Option<Groups> {
    if has_prefix(token, AT@) {
        capture_groups(AUTO_TAG_PATTERN@, token)
    } else {
        None
    }
}

/// The fragments that one token of a line gives, and the state it leaves. The
/// token is trimmed first, and a token that is then empty gives nothing.
pub open spec fn token_step(token: Seq<char>, state: Lookahead) -> (Seq<LinePartView>, Lookahead) {
    let t = trimmed(token);
    if t.len() == 0 {
        (Seq::empty(), state)
    } else {
        token_parts(t, page_groups(t), user_groups(t), auto_groups(t), state)
    }
}

/// The fragments that a sequence of tokens gives, from the first token on and
/// from the idle state, and the state after the last token.
pub open spec fn run_tokens(tokens: Seq<Seq<char>>) -> (Seq<LinePartView>, Lookahead)
    decreases tokens.len(),
{
    if tokens.len() == 0 {
        (Seq::empty(), Lookahead::Idle)
    } else {
        let before = run_tokens(tokens.drop_last());
        let step = token_step(tokens.last(), before.1);
        (before.0 + step.0, step.1)
    }
}

/// The tokens of a line: the tags that [`TOKEN_PATTERN`] finds, and the free
/// text between them.
pub open spec fn line_tokens(line: Seq<char>) -> Seq<Seq<char>> {
    split_pieces(line, match_spans(TOKEN_PATTERN@, line))
}

/// The line that a tagged line's text gives, or nothing.
///
/// The leading line markers are taken off first. There is no line where the
/// plain text of what is left is empty and no page tag stands in it. Else the
/// line holds the plain text, unless this is empty; the narration-opening
/// fragment where `first_token` asks for it, then the fragments of the
/// tokens; and the kind `kind`, or normal where none is given.
pub open spec fn parsed_line(tagged_line: Seq<char>, kind: Option<LineType>, first_token: bool)
    -> Option<LineView> {
    let line = without_leading(tagged_line, LINE@);
    let text = stripped(line);
    if text.len() == 0 && !occurs(line, PAGE@) {
        None
    } else {
        Some(
            LineView {
                text_only: if text.len() > 0 {
                    Some(text)
                } else {
                    None
                },
                parts: (if first_token {
                    seq![LinePartView::Isnad]
                } else {
                    Seq::empty()
                }) + run_tokens(line_tokens(line)).0,
                line_type: match kind {
                    Some(k) => k,
                    None => LineType::Normal,
                },
            },
        )
    }
}

/// Classifies one token of a line: trims it, makes the searches that its text
/// calls for, and classifies what is left.
pub fn read_token(lex: &Lexicon, token: &[char], state: Lookahead) -> (out: (
    Vec<LinePart>,
    Lookahead,
))
    ensures
        (parts_view(out.0@), out.1) == token_step(token@, state),
{
    let t = trim(token);
    if t.len() == 0 {
        return (no_part(), state);
    }
    let mut user: Option<Vec<Option<String>>> = None;
    let mut auto: Option<Vec<Option<String>>> = None;
    if begins_with(t.as_slice(), AT) {
        user = lex.user_tag().captures(t.as_slice());
        auto = lex.auto_tag().captures(t.as_slice());
    }
    let page = if holds(t.as_slice(), PAGE) {
        lex.page().captures(t.as_slice())
    } else {
        None
    };
    classify_token(t.as_slice(), &page, &user, &auto, state)
}

/// Appends the fragments `more` to `parts`.
fn append_parts(parts: &mut Vec<LinePart>, more: Vec<LinePart>)
    ensures
        parts_view(final(parts)@) == parts_view(old(parts)@) + parts_view(more@),
{
    let mut more = more;
    let ghost added = more@;
    proof {
        assert(parts_view(parts@) =~= parts_view(old(parts)@));
    }
    parts.append(&mut more);
    proof {
        assert(parts_view(parts@) =~= parts_view(old(parts)@) + parts_view(added));
    }
}

/// Tokenizes the text of a line.
///
/// `tagged_line` is the line's text, `kind` the kind of line to make, or
/// nothing for a normal line, and `first_token` says whether the line opens
/// with a narration.
pub fn parse_line(lex: &Lexicon, tagged_line: &[char], kind: Option<LineType>, first_token: bool)
    -> (r: Option<Line>)
    ensures
        match r {
            Some(line) => parsed_line(tagged_line@, kind, first_token) == Some(line@)
                && line@.well_formed(),
            None => parsed_line(tagged_line@, kind, first_token) is None,
        },
{
    let line = strip_leading(tagged_line, to_chars(LINE).as_slice());
    let without_tags = remove_phrase_lv_tags(lex, line.as_slice());
    if without_tags.len() == 0 && !holds(line.as_slice(), PAGE) {
        return None;
    }
    let mut parts: Vec<LinePart> = Vec::new();
    if first_token {
        parts.push(LinePart::Isnad);
    }
    let ghost opening = parts_view(parts@);
    proof {
        assert(opening =~= (if first_token {
            seq![LinePartView::Isnad]
        } else {
            Seq::empty()
        }));
    }
    let tokens = split_keep(lex.tokens(), line.as_slice());
    let ghost all = line_tokens(line@);
    let mut state = Lookahead::Idle;
    let mut i: usize = 0;
    proof {
        assert(all.take(0) =~= Seq::<Seq<char>>::empty());
        assert(opening + run_tokens(all.take(0)).0 =~= opening);
    }
    while i < tokens.len()
        invariant
            texts(tokens@) == all,
            i <= tokens@.len(),
            parts_view(parts@) == opening + run_tokens(all.take(i as int)).0,
            state == run_tokens(all.take(i as int)).1,
        decreases tokens@.len() - i,
    {
        proof {
            assert(all.take(i + 1).drop_last() =~= all.take(i as int));
            assert(all.take(i + 1).last() == tokens@[i as int]@);
        }
        let (more, next) = read_token(lex, tokens[i].as_slice(), state);
        proof {
            let before = run_tokens(all.take(i as int));
            assert(opening + (before.0 + parts_view(more@)) =~= (opening + before.0) + parts_view(
                more@,
            ));
        }
        append_parts(&mut parts, more);
        state = next;
        i += 1;
    }
    proof {
        assert(all.take(tokens@.len() as int) =~= all);
    }
    let line_type = match kind {
        Some(specified) => specified,
        None => LineType::Normal,
    };
    let text_only = if without_tags.len() > 0 {
        Some(collect_string(without_tags.as_slice()))
    } else {
        None
    };
    proof {
        lemma_parsed_line_is_well_formed(tagged_line@, kind, first_token);
    }
    Some(Line { text_only, parts, line_type })
}

/// The marker that is waiting for its words stands among the fragments, and
/// only tags follow it.
pub open spec fn claim_stands(parts: Seq<LinePartView>, state: Lookahead) -> bool {
    match state {
        Lookahead::Awaiting { count, kind } if count > 0 => exists|i: int|
            waits_at(parts, i, count, kind),
        _ => true,
    }
}

/// The fragment at `i` is a marker of extent `count` and kind `kind`, and
/// only tags follow it.
pub open spec fn waits_at(parts: Seq<LinePartView>, i: int, count: u32, kind: EntityType) -> bool {
    &&& 0 <= i < parts.len()
    &&& parts[i] matches LinePartView::NamedEntity { extent, ne_type, .. }
    &&& extent == count
    &&& ne_type == kind
    &&& forall|k: int| i < k < parts.len() ==> (#[trigger] parts[k]).is_bystander()
}

/// What one token may add to the fragments, and how it may change the state:
/// nothing; or one tag; or one marker, which then waits; or, where a marker
/// waits, the entity's text, perhaps followed by plain text, after which no
/// marker waits; or, where none waits, plain text.
pub open spec fn is_step(more: Seq<LinePartView>, state: Lookahead, next: Lookahead) -> bool {
    ||| more.len() == 0 && next == state
    ||| more.len() == 1 && more[0].is_bystander() && next == state
    ||| {
        &&& more.len() == 1
        &&& more[0] matches LinePartView::NamedEntity { extent, ne_type, .. }
        &&& next == (Lookahead::Awaiting { count: extent, kind: ne_type })
    }
    ||| {
        &&& state matches Lookahead::Awaiting { count, kind }
        &&& count > 0
        &&& next == Lookahead::Idle
        &&& 1 <= more.len() <= 2
        &&& more[0] matches LinePartView::NamedEntityText { ne_type, .. }
        &&& ne_type == kind
        &&& more.len() == 2 ==> more[1] is TextPart
    }
    ||| {
        &&& more.len() == 1
        &&& more[0] is TextPart
        &&& next == state
        &&& !(state matches Lookahead::Awaiting { count, .. } && count > 0)
    }
}

/// Every token makes a step.
pub proof fn lemma_token_makes_a_step(
    token: Seq<char>,
    page: Option<Groups>,
    user: Option<Groups>,
    auto: Option<Groups>,
    state: Lookahead,
)
    ensures
        is_step(
            token_parts(token, page, user, auto, state).0,
            state,
            token_parts(token, page, user, auto, state).1,
        ),
{
    let out = token_parts(token, page, user, auto, state);
    if occurs(token, PAGE@) {
    } else if user is Some {
    } else if auto is Some {
    } else if occurs(token, HEMI@) || occurs(token, MILESTONE@) || occurs(token, MATN@) || occurs(
        token,
        HUKM@,
    ) || occurs(token, ROUTE_FROM@) || occurs(token, ROUTE_TOWA@) || occurs(token, ROUTE_DIST@) {
        assert(out.0.len() == 1 && out.0[0].is_bystander());
    } else if occurs(token, YEAR_BIRTH@) || occurs(token, YEAR_DEATH@) || occurs(
        token,
        YEAR_OTHER@,
    ) || occurs(token, YEAR_AGE@) {
        assert(out.0.len() == 1 && out.0[0].is_bystander());
    } else if introducer_of(token) is Some {
    } else {
        match state {
            Lookahead::Awaiting { count, kind } if count > 0 => {
                lemma_lookahead_shares_words(token, count as int, kind);
            },
            _ => {},
        }
    }
}

/// A step keeps every entity text marked, and keeps the waiting marker in
/// its place.
pub proof fn lemma_step_keeps_marks(
    parts: Seq<LinePartView>,
    state: Lookahead,
    more: Seq<LinePartView>,
    next: Lookahead,
)
    requires
        entity_texts_marked(parts),
        claim_stands(parts, state),
        is_step(more, state, next),
    ensures
        entity_texts_marked(parts + more),
        claim_stands(parts + more, next),
{
    let all = parts + more;
    let n = parts.len() as int;
    assert forall|j: int| 0 <= j < all.len() && (#[trigger] all[j]) is NamedEntityText implies exists|
        i: int,
    |
        marks(all, i, j) by {
        if j < n {
            assert(parts[j] is NamedEntityText);
            let i = choose|i: int| marks(parts, i, j);
            assert(marks(all, i, j)) by {
                assert forall|k: int| i < k < j implies (#[trigger] all[k]).is_bystander() by {
                    assert(parts[k].is_bystander());
                }
            }
        } else {
            assert(all[j] == more[j - n]);
            assert(j == n);
            let count = state->count;
            let kind = state->kind;
            let i = choose|i: int| waits_at(parts, i, count, kind);
            assert(marks(all, i, j)) by {
                assert forall|k: int| i < k < j implies (#[trigger] all[k]).is_bystander() by {
                    assert(parts[k].is_bystander());
                }
            }
        }
    }
    match next {
        Lookahead::Awaiting { count, kind } if count > 0 => {
            if more.len() == 1 && more[0] is NamedEntity {
                assert(all[n] == more[0]);
                assert(waits_at(all, n, count, kind));
            } else {
                let i = choose|i: int| waits_at(parts, i, count, kind);
                assert(waits_at(all, i, count, kind)) by {
                    assert forall|k: int| i < k < all.len() implies (#[trigger] all[k])
                        .is_bystander() by {
                        if k < n {
                            assert(parts[k].is_bystander());
                        } else {
                            assert(all[k] == more[k - n]);
                        }
                    }
                }
            }
        },
        _ => {},
    }
}

/// The tokens of a line keep every entity text marked: where the fragments
/// `opening` stand first and hold no entity text, every entity text among
/// the fragments of the line has its marker before it.
pub proof fn lemma_tokens_keep_marks(opening: Seq<LinePartView>, tokens: Seq<Seq<char>>)
    requires
        entity_texts_marked(opening),
    ensures
        entity_texts_marked(opening + run_tokens(tokens).0),
        claim_stands(opening + run_tokens(tokens).0, run_tokens(tokens).1),
    decreases tokens.len(),
{
    if tokens.len() == 0 {
        assert(opening + run_tokens(tokens).0 =~= opening);
    } else {
        let before = run_tokens(tokens.drop_last());
        lemma_tokens_keep_marks(opening, tokens.drop_last());
        let t = trimmed(tokens.last());
        let step = token_step(tokens.last(), before.1);
        if t.len() > 0 {
            lemma_token_makes_a_step(t, page_groups(t), user_groups(t), auto_groups(t), before.1);
        }
        lemma_step_keeps_marks(opening + before.0, before.1, step.0, step.1);
        assert(opening + (before.0 + step.0) =~= (opening + before.0) + step.0);
    }
}

/// Every line that the tokenizer makes is well formed: an entity's text is
/// preceded by the marker that claimed it, which is of the same kind, and
/// between the two stand only tags, never text.
pub proof fn lemma_parsed_line_is_well_formed(
    tagged_line: Seq<char>,
    kind: Option<LineType>,
    first_token: bool,
)
    ensures
        parsed_line(tagged_line, kind, first_token) matches Some(line) ==> line.well_formed(),
{
    let opening = if first_token {
        seq![LinePartView::Isnad]
    } else {
        Seq::empty()
    };
    lemma_tokens_keep_marks(opening, line_tokens(without_leading(tagged_line, LINE@)));
}

} // verus!
