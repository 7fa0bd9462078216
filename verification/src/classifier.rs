//! The document classifier: a document's text, line by line, as a document
//! tree.

use crate::chars::{
    collect_string, copy_range, has_prefix, lines, lines_of, occurs, remove_all, strip_leading,
    texts, to_chars, trim, trimmed, without, without_leading,
};
use crate::lexicon::{
    lexicon_compiles, Lexicon, BIO_PATTERN, MORPHO_PATTERN, PAGE_PATTERN, PARA_PATTERN,
    REGION_PATTERN,
};
use crate::pattern::{capture_groups, match_spans};
use crate::stripper::{remove_phrase_lv_tags, stripped};
use crate::structures::{
    contents_view, strings_view, BeType, Content, ContentView, DicType, Document, DocumentView,
    DoxType, Line, LineType, LineView, PageNumber, ParaType,
};
use crate::tags::{
    BIO, BIO_MAN, BIO_MAN_FULL, BIO_REF, BIO_REF_FULL, BIO_WOM, BIO_WOM_FULL, DIC, DIC_BIB,
    DIC_LEX, DIC_NIS, DIC_TOP, DOX, DOX_POS, DOX_SEC, EDITORIAL, EVENT, EVENT_FULL, HEADER1,
    HEADER2, HEADER3, HEADER4, HEADER5, HEMI, LINE, LIST_EVENTS, LIST_EVENTS_FULL, LIST_NAMES,
    LIST_NAMES_FULL, MAGIC, META, META_END, PAGE, ROUTE_FROM, RWY,
};
use crate::tokenizer::{
    begins_with, group_string, group_text, groups_of, holds, lemma_parsed_line_is_well_formed,
    page_of, parse_line, parsed_line, Groups,
};
use vstd::prelude::*;

verus! {

/// Why a text is no document.
#[derive(Clone, Copy, Debug, PartialEq, Eq)]
pub enum ParseError {
    /// The first line does not begin with the magic value, or there is no
    /// first line.
    MissingMagic,
    /// The `regex` crate rejected one of the patterns of the format.
    PatternRejected,
}

/// What a line is, by the first of the tests that holds for it.
#[derive(Clone, Copy, Debug, PartialEq, Eq)]
pub enum LineKind {
    Metadata,
    PageNumber,
    Riwayat,
    Route,
    Morphological,
    Paragraph,
    TaggedLine,
    Editorial,
    Header,
    Dictionary,
    Doxography,
    Biography,
    Region,
    Other,
}

/// The kind of a trimmed line. `morpho`, `para`, `bio` and `region` say
/// whether the line holds a morphological pattern, begins a paragraph,
/// matches the biography pattern and matches the region pattern.
///
/// The tests are made in this order, and the first that holds decides. The
/// order matters wherever one tag begins with another: the editorial marker
/// and the dictionary, doxography and biography markers all begin like a
/// header or a short biography marker, and are looked for first.
pub open spec fn line_kind(line: Seq<char>, morpho: bool, para: bool, bio: bool, region: bool)
    -> LineKind {
    if has_prefix(line, META@) {
        LineKind::Metadata
    } else if has_prefix(line, PAGE@) {
        LineKind::PageNumber
    } else if has_prefix(line, RWY@) {
        LineKind::Riwayat
    } else if has_prefix(line, ROUTE_FROM@) {
        LineKind::Route
    } else if morpho {
        LineKind::Morphological
    } else if para {
        LineKind::Paragraph
    } else if has_prefix(line, LINE@) {
        LineKind::TaggedLine
    } else if has_prefix(line, EDITORIAL@) {
        LineKind::Editorial
    } else if has_prefix(line, HEADER1@) {
        LineKind::Header
    } else if has_prefix(line, DIC@) {
        LineKind::Dictionary
    } else if has_prefix(line, DOX@) {
        LineKind::Doxography
    } else if bio || has_prefix(line, BIO@) || has_prefix(line, EVENT@) {
        LineKind::Biography
    } else if region {
        LineKind::Region
    } else {
        LineKind::Other
    }
}

/// The kind of a trimmed line, with what the patterns find in it.
pub open spec fn kind_of(line: Seq<char>) -> LineKind {
    line_kind(
        line,
        capture_groups(MORPHO_PATTERN@, line) is Some,
        match_spans(PARA_PATTERN@, line).len() > 0,
        match_spans(BIO_PATTERN@, line).len() > 0,
        match_spans(REGION_PATTERN@, line).len() > 0,
    )
}

/// The level of a header line: the number of header glyphs of the longest
/// header marker that stands in it, from 5 down to 1.
pub open spec fn header_level(line: Seq<char>) -> u32 {
    if occurs(line, HEADER5@) {
        5
    } else if occurs(line, HEADER4@) {
        4
    } else if occurs(line, HEADER3@) {
        3
    } else if occurs(line, HEADER2@) {
        2
    } else {
        1
    }
}

/// A header line without its header markers, the longest taken out first.
pub open spec fn without_header_tags(line: Seq<char>) -> Seq<char> {
    without(
        without(without(without(without(line, HEADER5@), HEADER4@), HEADER3@), HEADER2@),
        HEADER1@,
    )
}

/// The kind of a dictionary line.
pub open spec fn dic_type_of(line: Seq<char>) -> DicType {
    if occurs(line, DIC_LEX@) {
        DicType::Lex
    } else if occurs(line, DIC_NIS@) {
        DicType::Nis
    } else if occurs(line, DIC_TOP@) {
        DicType::Top
    } else {
        DicType::Bib
    }
}

/// A dictionary line without its dictionary markers.
pub open spec fn without_dic_tags(line: Seq<char>) -> Seq<char> {
    without(without(without(without(line, DIC_NIS@), DIC_TOP@), DIC_LEX@), DIC_BIB@)
}

/// The kind of a doxographical line.
pub open spec fn dox_type_of(line: Seq<char>) -> DoxType {
    if occurs(line, DOX_SEC@) {
        DoxType::Sec
    } else {
        DoxType::Pos
    }
}

/// A doxographical line without its doxography markers.
pub open spec fn without_dox_tags(line: Seq<char>) -> Seq<char> {
    without(without(line, DOX_POS@), DOX_SEC@)
}

/// The kind of a biography or event line: a list of names, a reference, a
/// woman, a list of events, an event, and else a man. Of the short markers
/// the longer is looked for before the shorter that it begins with.
pub open spec fn be_type_of(line: Seq<char>) -> BeType {
    if occurs(line, LIST_NAMES_FULL@) || occurs(line, LIST_NAMES@) {
        BeType::Names
    } else if occurs(line, BIO_REF_FULL@) || occurs(line, BIO_REF@) {
        BeType::Ref
    } else if occurs(line, BIO_WOM_FULL@) || occurs(line, BIO_WOM@) {
        BeType::Wom
    } else if occurs(line, LIST_EVENTS@) {
        BeType::Events
    } else if occurs(line, EVENT@) {
        BeType::Event
    } else {
        BeType::Man
    }
}

/// A biography or event line without its markers, the longer of two markers
/// taken out before the shorter that it begins with.
pub open spec fn without_bio_tags(line: Seq<char>) -> Seq<char> {
    let a = without(without(line, LIST_NAMES_FULL@), LIST_NAMES@);
    let b = without(without(without(a, BIO_WOM_FULL@), BIO_MAN_FULL@), BIO_REF_FULL@);
    let c = without(without(b, LIST_EVENTS@), EVENT@);
    let d = without(without(without(c, BIO_REF@), BIO_WOM@), BIO_MAN@);
    without(without(d, EVENT_FULL@), LIST_EVENTS_FULL@)
}

/// `line` without its first character.
pub open spec fn after_first(line: Seq<char>) -> Seq<char> {
    if line.len() > 0 {
        line.drop_first()
    } else {
        line
    }
}

/// A tokenized line as content, where there is one.
pub open spec fn line_item(line: Option<LineView>) -> Seq<ContentView> {
    match line {
        Some(l) => seq![ContentView::Line(l)],
        None => Seq::empty(),
    }
}

/// The page number item of a line that begins with the page tag, given what
/// the search for a page number found in it. A line without volume and page
/// gives nothing.
pub open spec fn page_items(found: Option<Groups>) -> Seq<ContentView> {
    match found {
        Some(groups) => seq![ContentView::PageNumber(page_of(groups))],
        None => Seq::empty(),
    }
}

/// Whether a line, once trimmed, is a metadata line that is recorded: every
/// line that begins with the metadata tag, but for the one that ends the
/// metadata.
pub open spec fn is_recorded_metadata(raw: Seq<char>) -> bool {
    has_prefix(trimmed(raw), META@) && trimmed(raw) != META_END@
}

/// What a metadata line records: what follows the metadata tag, trimmed.
pub open spec fn metadata_value(raw: Seq<char>) -> Seq<char> {
    trimmed(without_leading(trimmed(raw), META@))
}

/// The metadata entries that a line gives: one or none.
pub open spec fn line_metadata(raw: Seq<char>) -> Seq<Seq<char>> {
    if is_recorded_metadata(raw) {
        seq![metadata_value(raw)]
    } else {
        Seq::empty()
    }
}

/// What a narration paragraph gives: the paragraph, then the line of what
/// follows the narration tag, which opens with a narration.
pub open spec fn riwayat_items(line: Seq<char>) -> Seq<ContentView> {
    seq![ContentView::Paragraph { orig: line, para_type: ParaType::Riwayat }] + line_item(
        parsed_line(without_leading(line, RWY@), None, true),
    )
}

/// What a line with a morphological pattern gives, given the capture groups
/// of the pattern: group 1 is the category.
pub open spec fn morpho_items(line: Seq<char>, found: Option<Groups>) -> Seq<ContentView> {
    seq![
        ContentView::MorphologicalPattern {
            orig: line,
            category: match found {
                Some(groups) => group_text(groups, 1),
                None => Seq::empty(),
            },
        },
    ]
}

/// What a paragraph gives. With a hemistich marker in it, it is a line of
/// verse; else it is a paragraph followed by a normal line. Either line is
/// made of the paragraph without its first character.
pub open spec fn paragraph_items(line: Seq<char>) -> Seq<ContentView> {
    if occurs(line, HEMI@) {
        line_item(parsed_line(after_first(line), Some(LineType::Verse), false))
    } else {
        seq![ContentView::Paragraph { orig: line, para_type: ParaType::Normal }] + line_item(
            parsed_line(after_first(line), None, false),
        )
    }
}

/// What a header line gives: a section header whose text is the line without
/// its header markers and without its inline tags.
pub open spec fn header_items(line: Seq<char>) -> Seq<ContentView> {
    seq![
        ContentView::SectionHeader {
            value: stripped(without_header_tags(line)),
            level: header_level(line),
        },
    ]
}

/// What a dictionary line gives: the dictionary unit, then the line of its
/// text.
pub open spec fn dictionary_items(line: Seq<char>) -> Seq<ContentView> {
    seq![ContentView::DictionaryUnit { orig: line, dic_type: dic_type_of(line) }] + line_item(
        parsed_line(without_dic_tags(line), None, false),
    )
}

/// What a doxographical line gives: the item, then the line of its text.
pub open spec fn doxography_items(line: Seq<char>) -> Seq<ContentView> {
    seq![ContentView::DoxographicalItem { orig: line, dox_type: dox_type_of(line) }] + line_item(
        parsed_line(without_dox_tags(line), None, false),
    )
}

/// What a biography or event line gives: the item, then the line of its
/// text.
pub open spec fn biography_items(line: Seq<char>) -> Seq<ContentView> {
    seq![ContentView::BioOrEvent { orig: line, be_type: be_type_of(line) }] + line_item(
        parsed_line(without_bio_tags(line), None, false),
    )
}

/// The content items that a trimmed line of kind `kind` gives: none, one, or
/// a structural item followed by the tokenized line of its text. `morpho` is
/// what the search for a morphological pattern found in the line.
pub open spec fn items_of_kind(line: Seq<char>, kind: LineKind, morpho: Option<Groups>) -> Seq<
    ContentView,
> {
    match kind {
        LineKind::Metadata => Seq::empty(),
        LineKind::PageNumber => page_items(capture_groups(PAGE_PATTERN@, line)),
        LineKind::Riwayat => riwayat_items(line),
        LineKind::Route => line_item(parsed_line(line, Some(LineType::RouteOrDistance), false)),
        LineKind::Morphological => morpho_items(line, morpho),
        LineKind::Paragraph => paragraph_items(line),
        LineKind::TaggedLine => line_item(parsed_line(line, None, false)),
        LineKind::Editorial => seq![ContentView::Editorial],
        LineKind::Header => header_items(line),
        LineKind::Dictionary => dictionary_items(line),
        LineKind::Doxography => doxography_items(line),
        LineKind::Biography => biography_items(line),
        LineKind::Region => seq![ContentView::AdministrativeRegion { orig: line }],
        LineKind::Other => Seq::empty(),
    }
}

/// The content items that a line gives.
pub open spec fn line_content(raw: Seq<char>) -> Seq<ContentView> {
    items_of_kind(
        trimmed(raw),
        kind_of(trimmed(raw)),
        capture_groups(MORPHO_PATTERN@, trimmed(raw)),
    )
}

/// What a sequence of lines gives, where each line gives `items` by itself:
/// the items of the first line, then those of the second, and so on.
pub open spec fn gathered<A>(lines: Seq<Seq<char>>, items: spec_fn(Seq<char>) -> Seq<A>) -> Seq<A>
    decreases lines.len(),
{
    if lines.len() == 0 {
        Seq::empty()
    } else {
        gathered(lines.drop_last(), items) + items(lines.last())
    }
}

/// The metadata entries of a sequence of lines, in the order of the lines.
pub open spec fn gathered_metadata(lines: Seq<Seq<char>>) -> Seq<Seq<char>> {
    gathered(lines, |raw: Seq<char>| line_metadata(raw))
}

/// The content items of a sequence of lines, in the order of the lines.
pub open spec fn gathered_content(lines: Seq<Seq<char>>) -> Seq<ContentView> {
    gathered(lines, |raw: Seq<char>| line_content(raw))
}

/// Whether a text opens as a document must: it has a first line, and that
/// line, once trimmed, begins with the magic value.
pub open spec fn has_magic(input: Seq<char>) -> bool {
    lines_of(input).len() > 0 && has_prefix(trimmed(lines_of(input)[0]), MAGIC@)
}

/// The document that a text is, or the reason why it is none.
///
/// A text that opens with the magic value is a document: its magic value is
/// its first line, trimmed, and the lines after the first give its metadata
/// and its content. Any other text is rejected as a whole.
pub open spec fn parsed_document(input: Seq<char>) -> Result<DocumentView, ParseError> {
    if has_magic(input) {
        Ok(
            DocumentView {
                magic_value: trimmed(lines_of(input)[0]),
                simple_metadata: gathered_metadata(lines_of(input).skip(1)),
                content: gathered_content(lines_of(input).skip(1)),
            },
        )
    } else {
        Err(ParseError::MissingMagic)
    }
}

/// What [`parser`] returns for a text: the document or the reason why it is
/// none, where the patterns of the format compile.
pub open spec fn parser_result(input: Seq<char>) -> Result<DocumentView, ParseError> {
    if lexicon_compiles() {
        parsed_document(input)
    } else {
        Err(ParseError::PatternRejected)
    }
}

impl ParseError {
    /// The error in words.
    pub fn message(&self) -> (out: String)
        ensures
            out@ == (match *self {
                ParseError::MissingMagic => "This does not appear to be an OpenITI mARkdown document"@,
                ParseError::PatternRejected => "A pattern of the tag lexicon was rejected"@,
            }),
    {
        match self {
            ParseError::MissingMagic => "This does not appear to be an OpenITI mARkdown document".to_owned(),
            ParseError::PatternRejected => "A pattern of the tag lexicon was rejected".to_owned(),
        }
    }
}

/// The kind of a trimmed line, given what the patterns found in it.
pub fn classify_line(line: &[char], morpho: bool, para: bool, bio: bool, region: bool) -> (kind:
    LineKind)
    ensures
        kind == line_kind(line@, morpho, para, bio, region),
{
    if begins_with(line, META) {
        LineKind::Metadata
    } else if begins_with(line, PAGE) {
        LineKind::PageNumber
    } else if begins_with(line, RWY) {
        LineKind::Riwayat
    } else if begins_with(line, ROUTE_FROM) {
        LineKind::Route
    } else if morpho {
        LineKind::Morphological
    } else if para {
        LineKind::Paragraph
    } else if begins_with(line, LINE) {
        LineKind::TaggedLine
    } else if begins_with(line, EDITORIAL) {
        LineKind::Editorial
    } else if begins_with(line, HEADER1) {
        LineKind::Header
    } else if begins_with(line, DIC) {
        LineKind::Dictionary
    } else if begins_with(line, DOX) {
        LineKind::Doxography
    } else if bio || begins_with(line, BIO) || begins_with(line, EVENT) {
        LineKind::Biography
    } else if region {
        LineKind::Region
    } else {
        LineKind::Other
    }
}

/// The level of a header line.
pub fn level_of(line: &[char]) -> (level: u32)
    ensures
        level == header_level(line@),
        1 <= level <= 5,
{
    if holds(line, HEADER5) {
        5
    } else if holds(line, HEADER4) {
        4
    } else if holds(line, HEADER3) {
        3
    } else if holds(line, HEADER2) {
        2
    } else {
        1
    }
}

/// The kind of a dictionary line.
pub fn dic_type(line: &[char]) -> (kind: DicType)
    ensures
        kind == dic_type_of(line@),
{
    if holds(line, DIC_LEX) {
        DicType::Lex
    } else if holds(line, DIC_NIS) {
        DicType::Nis
    } else if holds(line, DIC_TOP) {
        DicType::Top
    } else {
        DicType::Bib
    }
}

/// The kind of a doxographical line.
pub fn dox_type(line: &[char]) -> (kind: DoxType)
    ensures
        kind == dox_type_of(line@),
{
    if holds(line, DOX_SEC) {
        DoxType::Sec
    } else {
        DoxType::Pos
    }
}

/// The kind of a biography or event line.
pub fn be_type(line: &[char]) -> (kind: BeType)
    ensures
        kind == be_type_of(line@),
{
    if holds(line, LIST_NAMES_FULL) || holds(line, LIST_NAMES) {
        BeType::Names
    } else if holds(line, BIO_REF_FULL) || holds(line, BIO_REF) {
        BeType::Ref
    } else if holds(line, BIO_WOM_FULL) || holds(line, BIO_WOM) {
        BeType::Wom
    } else if holds(line, LIST_EVENTS) {
        BeType::Events
    } else if holds(line, EVENT) {
        BeType::Event
    } else {
        BeType::Man
    }
}

/// Takes every occurrence of the tag `tag` out of `text`.
fn remove_tag(text: &[char], tag: &str) -> (out: Vec<char>)
    ensures
        out@ == without(text@, tag@),
{
    remove_all(text, to_chars(tag).as_slice())
}

/// Takes the header markers out of a line.
pub fn remove_header_tags(line: &[char]) -> (out: Vec<char>)
    ensures
        out@ == without_header_tags(line@),
{
    let a = remove_tag(line, HEADER5);
    let b = remove_tag(a.as_slice(), HEADER4);
    let c = remove_tag(b.as_slice(), HEADER3);
    let d = remove_tag(c.as_slice(), HEADER2);
    remove_tag(d.as_slice(), HEADER1)
}

/// Takes the dictionary markers out of a line.
pub fn remove_dic_tags(line: &[char]) -> (out: Vec<char>)
    ensures
        out@ == without_dic_tags(line@),
{
    let a = remove_tag(line, DIC_NIS);
    let b = remove_tag(a.as_slice(), DIC_TOP);
    let c = remove_tag(b.as_slice(), DIC_LEX);
    remove_tag(c.as_slice(), DIC_BIB)
}

/// Takes the doxography markers out of a line.
pub fn remove_dox_tags(line: &[char]) -> (out: Vec<char>)
    ensures
        out@ == without_dox_tags(line@),
{
    let a = remove_tag(line, DOX_POS);
    remove_tag(a.as_slice(), DOX_SEC)
}

/// Takes the biography and event markers out of a line.
pub fn remove_bio_tags(line: &[char]) -> (out: Vec<char>)
    ensures
        out@ == without_bio_tags(line@),
{
    let a = remove_tag(line, LIST_NAMES_FULL);
    let b = remove_tag(a.as_slice(), LIST_NAMES);
    let c = remove_tag(b.as_slice(), BIO_WOM_FULL);
    let d = remove_tag(c.as_slice(), BIO_MAN_FULL);
    let e = remove_tag(d.as_slice(), BIO_REF_FULL);
    let f = remove_tag(e.as_slice(), LIST_EVENTS);
    let g = remove_tag(f.as_slice(), EVENT);
    let h = remove_tag(g.as_slice(), BIO_REF);
    let i = remove_tag(h.as_slice(), BIO_WOM);
    let j = remove_tag(i.as_slice(), BIO_MAN);
    let k = remove_tag(j.as_slice(), EVENT_FULL);
    remove_tag(k.as_slice(), LIST_EVENTS_FULL)
}

/// Appends `item` to `content`.
fn push_content(content: &mut Vec<Content>, item: Content)
    ensures
        contents_view(final(content)@) == contents_view(old(content)@) + seq![item@],
{
    content.push(item);
    proof {
        assert(contents_view(content@) =~= contents_view(old(content)@) + seq![item@]);
    }
}

/// Appends a tokenized line to `content`, where there is one.
fn push_line(content: &mut Vec<Content>, line: Option<Line>)
    ensures
        contents_view(final(content)@) == contents_view(old(content)@) + line_item(
            match line {
                Some(l) => Some(l@),
                None => None,
            },
        ),
{
    match line {
        Some(l) => {
            push_content(content, Content::Line(l));
        },
        None => {
            proof {
                assert(contents_view(content@) + Seq::<ContentView>::empty() =~= contents_view(
                    content@,
                ));
            }
        },
    }
}

/// Appends the page number item of a line that begins with the page tag,
/// given what the search for a page number found in it.
fn push_page(content: &mut Vec<Content>, found: &Option<Vec<Option<String>>>)
    ensures
        contents_view(final(content)@) == contents_view(old(content)@) + page_items(
            groups_of(*found),
        ),
{
    match found {
        Some(groups) => {
            let vol = group_string(groups, 1);
            let page = group_string(groups, 2);
            push_content(content, Content::PageNumber(PageNumber { vol, page }));
        },
        None => {
            proof {
                assert(contents_view(content@) + Seq::<ContentView>::empty() =~= contents_view(
                    content@,
                ));
            }
        },
    }
}

/// Records a metadata line.
pub fn read_metadata(line: &[char], metadata: &mut Vec<String>)
    ensures
        strings_view(final(metadata)@) == strings_view(old(metadata)@) + (if line@ != META_END@ {
            seq![trimmed(without_leading(line@, META@))]
        } else {
            Seq::empty()
        }),
{
    let end = to_chars(META_END);
    if !same_text(line, end.as_slice()) {
        let value = strip_leading(line, to_chars(META).as_slice());
        let entry = collect_string(trim(value.as_slice()).as_slice());
        metadata.push(entry);
        proof {
            assert(strings_view(metadata@) =~= strings_view(old(metadata)@) + seq![entry@]);
        }
    } else {
        proof {
            assert(strings_view(metadata@) + Seq::<Seq<char>>::empty() =~= strings_view(
                metadata@,
            ));
        }
    }
}

/// Reads a narration paragraph.
pub fn read_riwayat(lex: &Lexicon, line: &[char], content: &mut Vec<Content>)
    ensures
        contents_view(final(content)@) == contents_view(old(content)@) + riwayat_items(line@),
{
    push_content(
        content,
        Content::Paragraph { orig: collect_string(line), para_type: ParaType::Riwayat },
    );
    let rest = strip_leading(line, to_chars(RWY).as_slice());
    let first_line = parse_line(lex, rest.as_slice(), None, true);
    push_line(content, first_line);
    proof {
        assert(contents_view(content@) =~= contents_view(old(content)@) + riwayat_items(line@));
    }
}

/// Reads a line with a morphological pattern, given the capture groups of
/// the pattern.
pub fn read_morpho(line: &[char], found: &Option<Vec<Option<String>>>, content: &mut Vec<Content>)
    ensures
        contents_view(final(content)@) == contents_view(old(content)@) + morpho_items(
            line@,
            groups_of(*found),
        ),
{
    let category = match found {
        Some(groups) => group_string(groups, 1),
        None => String::new(),
    };
    push_content(content, Content::MorphologicalPattern { orig: collect_string(line), category });
}

/// Reads a paragraph.
pub fn read_paragraph(lex: &Lexicon, line: &[char], content: &mut Vec<Content>)
    ensures
        contents_view(final(content)@) == contents_view(old(content)@) + paragraph_items(line@),
{
    let no_marker = if line.len() > 0 {
        copy_range(line, 1, line.len())
    } else {
        copy_range(line, 0, 0)
    };
    proof {
        assert(no_marker@ =~= after_first(line@));
    }
    if holds(line, HEMI) {
        let verse = parse_line(lex, no_marker.as_slice(), Some(LineType::Verse), false);
        push_line(content, verse);
    } else {
        push_content(
            content,
            Content::Paragraph { orig: collect_string(line), para_type: ParaType::Normal },
        );
        let first_line = parse_line(lex, no_marker.as_slice(), None, false);
        push_line(content, first_line);
        proof {
            assert(contents_view(content@) =~= contents_view(old(content)@) + paragraph_items(
                line@,
            ));
        }
    }
}

/// Reads a header line.
pub fn read_header(lex: &Lexicon, line: &[char], content: &mut Vec<Content>)
    ensures
        contents_view(final(content)@) == contents_view(old(content)@) + header_items(line@),
{
    let bare = remove_header_tags(line);
    let value = collect_string(remove_phrase_lv_tags(lex, bare.as_slice()).as_slice());
    let level = level_of(line);
    push_content(content, Content::SectionHeader { value, level });
}

/// Reads a dictionary line.
pub fn read_dictionary(lex: &Lexicon, line: &[char], content: &mut Vec<Content>)
    ensures
        contents_view(final(content)@) == contents_view(old(content)@) + dictionary_items(line@),
{
    let no_tag = remove_dic_tags(line);
    let first_line = parse_line(lex, no_tag.as_slice(), None, false);
    push_content(
        content,
        Content::DictionaryUnit { orig: collect_string(line), dic_type: dic_type(line) },
    );
    push_line(content, first_line);
    proof {
        assert(contents_view(content@) =~= contents_view(old(content)@) + dictionary_items(
            line@,
        ));
    }
}

/// Reads a doxographical line.
pub fn read_doxography(lex: &Lexicon, line: &[char], content: &mut Vec<Content>)
    ensures
        contents_view(final(content)@) == contents_view(old(content)@) + doxography_items(line@),
{
    let no_tag = remove_dox_tags(line);
    let first_line = parse_line(lex, no_tag.as_slice(), None, false);
    push_content(
        content,
        Content::DoxographicalItem { orig: collect_string(line), dox_type: dox_type(line) },
    );
    push_line(content, first_line);
    proof {
        assert(contents_view(content@) =~= contents_view(old(content)@) + doxography_items(
            line@,
        ));
    }
}

/// Reads a biography or event line.
pub fn read_biography(lex: &Lexicon, line: &[char], content: &mut Vec<Content>)
    ensures
        contents_view(final(content)@) == contents_view(old(content)@) + biography_items(line@),
{
    let no_tag = remove_bio_tags(line);
    let first_line = parse_line(lex, no_tag.as_slice(), None, false);
    push_content(
        content,
        Content::BioOrEvent { orig: collect_string(line), be_type: be_type(line) },
    );
    push_line(content, first_line);
    proof {
        assert(contents_view(content@) =~= contents_view(old(content)@) + biography_items(
            line@,
        ));
    }
}

/// Appends to `content` what a trimmed line of kind `kind` gives. `morpho` is
/// what the search for a morphological pattern found in the line.
pub fn read_content(
    lex: &Lexicon,
    line: &[char],
    kind: LineKind,
    morpho: &Option<Vec<Option<String>>>,
    content: &mut Vec<Content>,
)
    ensures
        contents_view(final(content)@) == contents_view(old(content)@) + items_of_kind(
            line@,
            kind,
            groups_of(*morpho),
        ),
{
    match kind {
        LineKind::PageNumber => {
            let found = lex.page().captures(line);
            push_page(content, &found);
        },
        LineKind::Riwayat => read_riwayat(lex, line, content),
        LineKind::Route => {
            let parsed = parse_line(lex, line, Some(LineType::RouteOrDistance), false);
            push_line(content, parsed);
        },
        LineKind::Morphological => read_morpho(line, morpho, content),
        LineKind::Paragraph => read_paragraph(lex, line, content),
        LineKind::TaggedLine => {
            let parsed = parse_line(lex, line, None, false);
            push_line(content, parsed);
        },
        LineKind::Editorial => push_content(content, Content::Editorial),
        LineKind::Header => read_header(lex, line, content),
        LineKind::Dictionary => read_dictionary(lex, line, content),
        LineKind::Doxography => read_doxography(lex, line, content),
        LineKind::Biography => read_biography(lex, line, content),
        LineKind::Region => push_content(
            content,
            Content::AdministrativeRegion { orig: collect_string(line) },
        ),
        _ => {
            proof {
                assert(contents_view(content@) + Seq::<ContentView>::empty() =~= contents_view(
                    content@,
                ));
            }
        },
    }
}

/// Reads one line of a document after the first, and appends what it gives
/// to the metadata and to the content.
pub fn read_line(
    lex: &Lexicon,
    raw: &[char],
    metadata: &mut Vec<String>,
    content: &mut Vec<Content>,
)
    ensures
        strings_view(final(metadata)@) == strings_view(old(metadata)@) + line_metadata(raw@),
        contents_view(final(content)@) == contents_view(old(content)@) + line_content(raw@),
{
    let trimmed_line = trim(raw);
    let line = trimmed_line.as_slice();
    let morpho = lex.morpho().captures(line);
    let para = lex.para().is_match(line);
    let bio = lex.bio().is_match(line);
    let region = lex.region().is_match(line);
    let kind = classify_line(line, morpho.is_some(), para, bio, region);
    match kind {
        LineKind::Metadata => {
            read_metadata(line, metadata);
            proof {
                assert(contents_view(content@) + Seq::<ContentView>::empty() =~= contents_view(
                    content@,
                ));
            }
        },
        _ => {
            proof {
                assert(strings_view(metadata@) + Seq::<Seq<char>>::empty() =~= strings_view(
                    metadata@,
                ));
            }
            read_content(lex, line, kind, &morpho, content);
        },
    }
}

/// Whether two texts are the same.
pub fn same_text(a: &[char], b: &[char]) -> (r: bool)
    ensures
        r == (a@ == b@),
{
    if a.len() != b.len() {
        return false;
    }
    let mut i: usize = 0;
    while i < a.len()
        invariant
            a@.len() == b@.len(),
            i <= a@.len(),
            forall|k: int| 0 <= k < i ==> a@[k] == b@[k],
        decreases a@.len() - i,
    {
        if a[i] != b[i] {
            return false;
        }
        i += 1;
    }
    proof {
        assert(a@ =~= b@);
    }
    true
}

/// Parses a document with the compiled patterns `lex`.
///
/// A text that opens with the magic value always gives a document, and any
/// other text is rejected as a whole: what it holds after the first line is
/// not looked at.
pub fn parse_document(lex: &Lexicon, input: &str) -> (r: Result<Document, ParseError>)
    ensures
        match r {
            Ok(doc) => parsed_document(input@) == Ok::<DocumentView, ParseError>(doc@)
                && doc@.well_formed(),
            Err(e) => parsed_document(input@) == Err::<DocumentView, ParseError>(e),
        },
        r is Ok <==> has_magic(input@),
{
    proof {
        lemma_document_is_well_formed(input@);
    }
    let text = to_chars(input);
    let all_lines = lines(text.as_slice());
    if all_lines.len() == 0 {
        return Err(ParseError::MissingMagic);
    }
    let first = trim(all_lines[0].as_slice());
    if !begins_with(first.as_slice(), MAGIC) {
        return Err(ParseError::MissingMagic);
    }
    let magic_value = collect_string(first.as_slice());
    let mut simple_metadata: Vec<String> = Vec::new();
    let mut content: Vec<Content> = Vec::new();
    let ghost rest = lines_of(input@).skip(1);
    let mut i: usize = 1;
    proof {
        assert(rest.take(0) =~= Seq::<Seq<char>>::empty());
        assert(strings_view(simple_metadata@) =~= gathered_metadata(rest.take(0)));
        assert(contents_view(content@) =~= gathered_content(rest.take(0)));
    }
    while i < all_lines.len()
        invariant
            texts(all_lines@) == lines_of(input@),
            rest == lines_of(input@).skip(1),
            1 <= i <= all_lines@.len(),
            strings_view(simple_metadata@) == gathered_metadata(rest.take(i - 1)),
            contents_view(content@) == gathered_content(rest.take(i - 1)),
        decreases all_lines@.len() - i,
    {
        proof {
            assert(rest.take(i as int).drop_last() =~= rest.take(i - 1));
            assert(rest.take(i as int).last() == all_lines@[i as int]@);
        }
        read_line(lex, all_lines[i].as_slice(), &mut simple_metadata, &mut content);
        i += 1;
    }
    proof {
        assert(rest.take(all_lines@.len() - 1) =~= rest);
    }
    Ok(Document { magic_value, simple_metadata, content })
}

/// Parses a document.
///
/// The patterns of the format are compiled first. Where the `regex` crate
/// accepts them, the result is the document that the text is, or
/// [`ParseError::MissingMagic`] where the text does not open with the magic
/// value.
pub fn parser(input: String) -> (r: Result<Document, ParseError>)
    ensures
        match r {
            Ok(doc) => parser_result(input@) == Ok::<DocumentView, ParseError>(doc@)
                && doc@.well_formed(),
            Err(e) => parser_result(input@) == Err::<DocumentView, ParseError>(e),
        },
{
    match Lexicon::new() {
        Some(lex) => parse_document(&lex, input.as_str()),
        None => Err(ParseError::PatternRejected),
    }
}

/// Every one of the items is well formed.
pub open spec fn all_well_formed(items: Seq<ContentView>) -> bool {
    forall|k: int| 0 <= k < items.len() ==> (#[trigger] items[k]).well_formed()
}

/// A tokenized line as content is well formed.
pub proof fn lemma_line_item_is_well_formed(
    tagged_line: Seq<char>,
    kind: Option<LineType>,
    first_token: bool,
)
    ensures
        all_well_formed(line_item(parsed_line(tagged_line, kind, first_token))),
{
    lemma_parsed_line_is_well_formed(tagged_line, kind, first_token);
}

/// One well-formed item followed by well-formed items is a sequence of
/// well-formed items.
pub proof fn lemma_well_formed_after(first: ContentView, rest: Seq<ContentView>)
    requires
        first.well_formed(),
        all_well_formed(rest),
    ensures
        all_well_formed(seq![first] + rest),
{
    let items = seq![first] + rest;
    assert forall|k: int| 0 <= k < items.len() implies (#[trigger] items[k]).well_formed() by {
        if k > 0 {
            assert(items[k] == rest[k - 1]);
        }
    }
}

/// Whatever a line gives is well formed.
pub proof fn lemma_items_are_well_formed(line: Seq<char>, kind: LineKind, morpho: Option<Groups>)
    ensures
        all_well_formed(items_of_kind(line, kind, morpho)),
{
    match kind {
        LineKind::Riwayat => {
            lemma_line_item_is_well_formed(without_leading(line, RWY@), None, true);
            lemma_well_formed_after(
                ContentView::Paragraph { orig: line, para_type: ParaType::Riwayat },
                line_item(parsed_line(without_leading(line, RWY@), None, true)),
            );
        },
        LineKind::Route => {
            lemma_line_item_is_well_formed(line, Some(LineType::RouteOrDistance), false);
        },
        LineKind::Paragraph => {
            lemma_line_item_is_well_formed(after_first(line), Some(LineType::Verse), false);
            lemma_line_item_is_well_formed(after_first(line), None, false);
            lemma_well_formed_after(
                ContentView::Paragraph { orig: line, para_type: ParaType::Normal },
                line_item(parsed_line(after_first(line), None, false)),
            );
        },
        LineKind::TaggedLine => {
            lemma_line_item_is_well_formed(line, None, false);
        },
        LineKind::Dictionary => {
            lemma_line_item_is_well_formed(without_dic_tags(line), None, false);
            lemma_well_formed_after(
                ContentView::DictionaryUnit { orig: line, dic_type: dic_type_of(line) },
                line_item(parsed_line(without_dic_tags(line), None, false)),
            );
        },
        LineKind::Doxography => {
            lemma_line_item_is_well_formed(without_dox_tags(line), None, false);
            lemma_well_formed_after(
                ContentView::DoxographicalItem { orig: line, dox_type: dox_type_of(line) },
                line_item(parsed_line(without_dox_tags(line), None, false)),
            );
        },
        LineKind::Biography => {
            lemma_line_item_is_well_formed(without_bio_tags(line), None, false);
            lemma_well_formed_after(
                ContentView::BioOrEvent { orig: line, be_type: be_type_of(line) },
                line_item(parsed_line(without_bio_tags(line), None, false)),
            );
        },
        _ => {},
    }
}

/// Whatever a sequence of lines gives is well formed.
pub proof fn lemma_content_is_well_formed(lines: Seq<Seq<char>>)
    ensures
        all_well_formed(gathered_content(lines)),
    decreases lines.len(),
{
    if lines.len() > 0 {
        let before = gathered_content(lines.drop_last());
        let last = line_content(lines.last());
        lemma_content_is_well_formed(lines.drop_last());
        lemma_items_are_well_formed(
            trimmed(lines.last()),
            kind_of(trimmed(lines.last())),
            capture_groups(MORPHO_PATTERN@, trimmed(lines.last())),
        );
        let items = gathered_content(lines);
        assert(items == before + last);
        assert forall|k: int| 0 <= k < items.len() implies (#[trigger] items[k]).well_formed() by {
            if k < before.len() {
                assert(items[k] == before[k]);
            } else {
                assert(items[k] == last[k - before.len()]);
            }
        }
    }
}

/// Every document is well formed: its magic value begins with the magic
/// prefix, the level of each of its section headers lies between 1 and 5,
/// and in each of its lines every entity text has its marker before it.
pub proof fn lemma_document_is_well_formed(input: Seq<char>)
    ensures
        parsed_document(input) matches Ok(doc) ==> doc.well_formed(),
{
    lemma_content_is_well_formed(lines_of(input).skip(1));
}

} // verus!
