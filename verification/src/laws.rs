//! What holds of every document and of every line: the magic value, the
//! metadata, and the precedence of the longer of two tags that begin alike.

use crate::chars::{has_prefix, lines_of, occurs, occurs_at, trimmed, without_leading};
use crate::classifier::{
    be_type_of, gathered, gathered_content, gathered_metadata, has_magic, header_level,
    is_recorded_metadata, line_content, line_kind, line_metadata, metadata_value, parsed_document,
    parser_result, LineKind, ParseError,
};
use crate::structures::{BeType, DocumentView, EntityType};
use crate::tags::{
    BIO, BIO_MAN, BIO_REF, BIO_WOM, DIC, DOX, EDITORIAL, EVENT, HEADER1, HEADER2, HEADER3,
    HEADER4, HEADER5, LIST_EVENTS, LIST_NAMES, MAGIC, META, PER, PER_FULL, SOC, SOC_FULL, SRC,
    TOP, TOP_FULL,
};
use crate::tokenizer::introducer_of;
use vstd::prelude::*;

verus! {

/// A text that does not open with the magic value is no document: parsing
/// fails with the one fatal error, whatever the text holds after its first
/// line, and there is no tree, not even a partial one.
pub proof fn lemma_missing_magic_is_fatal(input: Seq<char>)
    requires
        lines_of(input).len() == 0 || !has_prefix(trimmed(lines_of(input)[0]), MAGIC@),
    ensures
        parsed_document(input) == Err::<DocumentView, ParseError>(ParseError::MissingMagic),
        parser_result(input) is Err,
{
}

/// A text that opens with the magic value is a document, and the magic value
/// of the document is the first line of the text, trimmed and otherwise as
/// it was written.
pub proof fn lemma_magic_value_is_first_line(input: Seq<char>)
    requires
        has_magic(input),
    ensures
        parsed_document(input) is Ok,
        parsed_document(input)->Ok_0.magic_value == trimmed(lines_of(input)[0]),
        has_prefix(parsed_document(input)->Ok_0.magic_value, MAGIC@),
{
}

/// The metadata of a document are the values of its recorded metadata lines,
/// in the order of the lines, a line that occurs twice being recorded twice.
pub proof fn lemma_metadata_keeps_order(lines: Seq<Seq<char>>)
    ensures
        gathered_metadata(lines) == lines.filter(|raw: Seq<char>| is_recorded_metadata(raw))
            .map_values(|raw: Seq<char>| metadata_value(raw)),
    decreases lines.len(),
{
    reveal(Seq::filter);
    let keep = |raw: Seq<char>| is_recorded_metadata(raw);
    let value = |raw: Seq<char>| metadata_value(raw);
    if lines.len() > 0 {
        let init = lines.drop_last();
        lemma_metadata_keeps_order(init);
        if is_recorded_metadata(lines.last()) {
            assert(init.filter(keep).push(lines.last()).map_values(value) =~= init.filter(keep)
                .map_values(value) + seq![metadata_value(lines.last())]);
        } else {
            assert(gathered_metadata(init) + Seq::<Seq<char>>::empty() =~= gathered_metadata(
                init,
            ));
        }
    } else {
        assert(lines.filter(keep).map_values(value) =~= Seq::<Seq<char>>::empty());
    }
}

/// The metadata of two runs of lines, one after the other, are the metadata
/// of the first run followed by those of the second.
pub proof fn lemma_metadata_of_runs(first: Seq<Seq<char>>, second: Seq<Seq<char>>)
    ensures
        gathered_metadata(first + second) == gathered_metadata(first) + gathered_metadata(second),
{
    lemma_gathered_of_runs(first, second, |raw: Seq<char>| line_metadata(raw));
}

/// What two runs of lines give, one after the other, is what the first run
/// gives followed by what the second gives.
pub proof fn lemma_gathered_of_runs<A>(
    first: Seq<Seq<char>>,
    second: Seq<Seq<char>>,
    items: spec_fn(Seq<char>) -> Seq<A>,
)
    ensures
        gathered(first + second, items) == gathered(first, items) + gathered(second, items),
    decreases second.len(),
{
    if second.len() == 0 {
        assert(first + second =~= first);
        assert(gathered(first, items) + Seq::<A>::empty() =~= gathered(first, items));
    } else {
        lemma_gathered_of_runs(first, second.drop_last(), items);
        assert((first + second).drop_last() =~= first + second.drop_last());
        assert((first + second).last() == second.last());
        assert(gathered(first, items) + (gathered(second.drop_last(), items) + items(
            second.last(),
        )) =~= (gathered(first, items) + gathered(second.drop_last(), items)) + items(
            second.last(),
        ));
    }
}

/// A metadata line keeps all that follows its tag: where the line, once
/// trimmed, is the tag followed by `rest`, and `rest` does not begin with the
/// tag again, the entry is `rest`, trimmed, with every character that stands
/// within it.
pub proof fn lemma_metadata_keeps_content(raw: Seq<char>, rest: Seq<char>)
    requires
        trimmed(raw) == META@ + rest,
        !has_prefix(rest, META@),
    ensures
        metadata_value(raw) == trimmed(rest),
{
    reveal_strlit("#META#");
    let line = trimmed(raw);
    assert(line.subrange(0, META@.len() as int) =~= META@);
    assert(line.skip(META@.len() as int) =~= rest);
    assert(without_leading(line, META@) == without_leading(rest, META@));
}

/// A tag that begins with another tag stands only where the other stands
/// too. So the shorter of the two has to be looked for last.
pub proof fn lemma_longer_tag_holds_shorter(s: Seq<char>, long: Seq<char>, short: Seq<char>)
    requires
        has_prefix(long, short),
    ensures
        occurs(s, long) ==> occurs(s, short),
        has_prefix(s, long) ==> has_prefix(s, short),
{
    if occurs(s, long) {
        let i = choose|i: int| occurs_at(s, long, i);
        assert(s.subrange(i, i + short.len()) =~= s.subrange(i, i + long.len()).subrange(
            0,
            short.len() as int,
        ));
        assert(occurs_at(s, short, i));
    }
    if has_prefix(s, long) {
        assert(s.subrange(0, short.len() as int) =~= s.subrange(0, long.len() as int).subrange(
            0,
            short.len() as int,
        ));
    }
}

/// Each header marker begins with every shorter one.
pub proof fn lemma_header_markers_nest()
    ensures
        has_prefix(HEADER2@, HEADER1@),
        has_prefix(HEADER3@, HEADER2@),
        has_prefix(HEADER4@, HEADER3@),
        has_prefix(HEADER5@, HEADER4@),
{
    reveal_strlit("### |");
    reveal_strlit("### ||");
    reveal_strlit("### |||");
    reveal_strlit("### ||||");
    reveal_strlit("### |||||");
    assert(HEADER2@.subrange(0, 5) =~= HEADER1@);
    assert(HEADER3@.subrange(0, 6) =~= HEADER2@);
    assert(HEADER4@.subrange(0, 7) =~= HEADER3@);
    assert(HEADER5@.subrange(0, 8) =~= HEADER4@);
}

/// The level of a header is that of the longest header marker in the line:
/// a line that holds the marker of level `k` has level `k` at least, and it
/// has a level above 1 only where it holds the marker of that level. The
/// level lies between 1 and 5.
pub proof fn lemma_header_level_is_longest(line: Seq<char>)
    ensures
        1 <= header_level(line) <= 5,
        occurs(line, HEADER5@) <==> header_level(line) == 5,
        occurs(line, HEADER4@) <==> header_level(line) >= 4,
        occurs(line, HEADER3@) <==> header_level(line) >= 3,
        occurs(line, HEADER2@) <==> header_level(line) >= 2,
        has_prefix(line, HEADER5@) ==> header_level(line) == 5,
{
    lemma_header_markers_nest();
    lemma_longer_tag_holds_shorter(line, HEADER5@, HEADER4@);
    lemma_longer_tag_holds_shorter(line, HEADER4@, HEADER3@);
    lemma_longer_tag_holds_shorter(line, HEADER3@, HEADER2@);
    if has_prefix(line, HEADER5@) {
        assert(occurs_at(line, HEADER5@, 0));
    }
}

/// The line tags that begin like another line tag: the editorial marker
/// begins with the header marker, and the dictionary, doxography and
/// biography markers begin with the shortest biography marker.
pub proof fn lemma_line_tags_nest()
    ensures
        has_prefix(EDITORIAL@, HEADER1@),
        has_prefix(DIC@, BIO_MAN@),
        has_prefix(DOX@, BIO_MAN@),
        has_prefix(BIO@, BIO_MAN@),
{
    reveal_strlit("### |EDITOR|");
    reveal_strlit("### |");
    reveal_strlit("### $DIC_");
    reveal_strlit("### $DOX_");
    reveal_strlit("### $BIO_");
    reveal_strlit("### $");
    assert(EDITORIAL@.subrange(0, 5) =~= HEADER1@);
    assert(DIC@.subrange(0, 5) =~= BIO_MAN@);
    assert(DOX@.subrange(0, 5) =~= BIO_MAN@);
    assert(BIO@.subrange(0, 5) =~= BIO_MAN@);
}

/// A line that begins with the longer of two line tags is of the longer
/// tag's kind, never of the shorter's: an editorial line begins like a
/// header and is no header, and a dictionary or doxography line begins like
/// a biography and is no biography. This holds whatever the patterns find
/// in the line.
pub proof fn lemma_longer_line_tag_decides(
    line: Seq<char>,
    morpho: bool,
    para: bool,
    bio: bool,
    region: bool,
)
    ensures
        has_prefix(line, EDITORIAL@) ==> has_prefix(line, HEADER1@) && line_kind(
            line,
            morpho,
            para,
            bio,
            region,
        ) != LineKind::Header,
        has_prefix(line, DIC@) ==> has_prefix(line, BIO_MAN@) && line_kind(
            line,
            morpho,
            para,
            bio,
            region,
        ) != LineKind::Biography,
        has_prefix(line, DOX@) ==> has_prefix(line, BIO_MAN@) && line_kind(
            line,
            morpho,
            para,
            bio,
            region,
        ) != LineKind::Biography,
{
    lemma_line_tags_nest();
    lemma_longer_tag_holds_shorter(line, EDITORIAL@, HEADER1@);
    lemma_longer_tag_holds_shorter(line, DIC@, BIO_MAN@);
    lemma_longer_tag_holds_shorter(line, DOX@, BIO_MAN@);
}

/// Each short biography marker begins with every shorter one, and the marker
/// of a list of events begins with that of an event.
pub proof fn lemma_biography_markers_nest()
    ensures
        has_prefix(BIO_WOM@, BIO_MAN@),
        has_prefix(BIO_REF@, BIO_WOM@),
        has_prefix(LIST_NAMES@, BIO_REF@),
        has_prefix(LIST_EVENTS@, EVENT@),
{
    reveal_strlit("### $");
    reveal_strlit("### $$");
    reveal_strlit("### $$$");
    reveal_strlit("### $$$$");
    reveal_strlit("### @");
    reveal_strlit("### @ RAW");
    assert(BIO_WOM@.subrange(0, 5) =~= BIO_MAN@);
    assert(BIO_REF@.subrange(0, 6) =~= BIO_WOM@);
    assert(LIST_NAMES@.subrange(0, 7) =~= BIO_REF@);
    assert(LIST_EVENTS@.subrange(0, 5) =~= EVENT@);
}

/// A biography line is of the kind of the longest marker that it holds: with
/// the marker of a list of names it is a list of names; with the marker of a
/// reference it is a reference or a list of names, never a woman or a man;
/// with the marker of a woman it is never a man; and with the marker of a
/// list of events it is never a single event.
pub proof fn lemma_biography_kind_is_longest(line: Seq<char>)
    ensures
        occurs(line, LIST_NAMES@) ==> be_type_of(line) == BeType::Names,
        occurs(line, BIO_REF@) ==> be_type_of(line) == BeType::Names || be_type_of(line)
            == BeType::Ref,
        occurs(line, BIO_WOM@) ==> be_type_of(line) != BeType::Man && be_type_of(line)
            != BeType::Event && be_type_of(line) != BeType::Events,
        occurs(line, LIST_EVENTS@) ==> be_type_of(line) != BeType::Event && be_type_of(line)
            != BeType::Man,
        occurs(line, LIST_NAMES@) ==> occurs(line, BIO_REF@),
        occurs(line, BIO_REF@) ==> occurs(line, BIO_WOM@),
        occurs(line, BIO_WOM@) ==> occurs(line, BIO_MAN@),
        occurs(line, LIST_EVENTS@) ==> occurs(line, EVENT@),
{
    lemma_biography_markers_nest();
    lemma_longer_tag_holds_shorter(line, LIST_NAMES@, BIO_REF@);
    lemma_longer_tag_holds_shorter(line, BIO_REF@, BIO_WOM@);
    lemma_longer_tag_holds_shorter(line, BIO_WOM@, BIO_MAN@);
    lemma_longer_tag_holds_shorter(line, LIST_EVENTS@, EVENT@);
}

/// The full introducer of a named reference begins with the short one of its
/// kind, and the introducer of a source begins with the short one of a
/// social entity.
pub proof fn lemma_introducers_nest()
    ensures
        has_prefix(SOC_FULL@, SOC@),
        has_prefix(SRC@, SOC@),
        has_prefix(TOP_FULL@, TOP@),
        has_prefix(PER_FULL@, PER@),
        SOC_FULL@ != SOC@,
        TOP_FULL@ != TOP@,
        PER_FULL@ != PER@,
{
    reveal_strlit("@SRC");
    reveal_strlit("@SOC");
    reveal_strlit("@S");
    reveal_strlit("@TOP");
    reveal_strlit("@T");
    reveal_strlit("@PER");
    reveal_strlit("@P");
    assert(SOC_FULL@.subrange(0, 2) =~= SOC@);
    assert(SRC@.subrange(0, 2) =~= SOC@);
    assert(TOP_FULL@.subrange(0, 2) =~= TOP@);
    assert(PER_FULL@.subrange(0, 2) =~= PER@);
}

/// A named-reference marker is read with the longest introducer that it
/// begins with: a token that begins with the full introducer of a kind
/// begins with the short one too, and is never read with the short one; and
/// a token with the introducer of a source is a source, never a social
/// entity.
pub proof fn lemma_full_introducer_first(token: Seq<char>)
    ensures
        has_prefix(token, SOC_FULL@) ==> has_prefix(token, SOC@) && introducer_of(token) != Some(
            (SOC@, EntityType::Soc),
        ),
        has_prefix(token, TOP_FULL@) ==> has_prefix(token, TOP@) && introducer_of(token) != Some(
            (TOP@, EntityType::Top),
        ),
        has_prefix(token, PER_FULL@) ==> has_prefix(token, PER@) && introducer_of(token) != Some(
            (PER@, EntityType::Per),
        ),
        has_prefix(token, SRC@) ==> has_prefix(token, SOC@) && introducer_of(token) == Some(
            (SRC@, EntityType::Src),
        ),
{
    lemma_introducers_nest();
    lemma_longer_tag_holds_shorter(token, SOC_FULL@, SOC@);
    lemma_longer_tag_holds_shorter(token, TOP_FULL@, TOP@);
    lemma_longer_tag_holds_shorter(token, PER_FULL@, PER@);
    lemma_longer_tag_holds_shorter(token, SRC@, SOC@);
    if has_prefix(token, SRC@) {
        assert(occurs_at(token, SRC@, 0));
    }
}

/// The content of two runs of lines, one after the other, is the content of
/// the first run followed by that of the second: each line gives its items
/// by itself, and the items stand in the order of the lines.
pub proof fn lemma_content_of_runs(first: Seq<Seq<char>>, second: Seq<Seq<char>>)
    ensures
        gathered_content(first + second) == gathered_content(first) + gathered_content(second),
{
    lemma_gathered_of_runs(first, second, |raw: Seq<char>| line_content(raw));
}

} // verus!
