//! The document tree, and the mathematical value that each of its types
//! stands for.

use crate::chars::has_prefix;
use crate::tags::MAGIC;
use vstd::prelude::*;

verus! {

/// The kind of a biography or event item.
#[derive(Clone, Copy, Debug, PartialEq, Eq)]
pub enum BeType {
    Man,
    Wom,
    Ref,
    Names,
    Event,
    Events,
}

/// The kind of a dictionary unit.
#[derive(Clone, Copy, Debug, PartialEq, Eq)]
pub enum DicType {
    Nis,
    Top,
    Lex,
    Bib,
}

/// The kind of a doxographical item.
#[derive(Clone, Copy, Debug, PartialEq, Eq)]
pub enum DoxType {
    Pos,
    Sec,
}

/// The kind of a paragraph.
#[derive(Clone, Copy, Debug, PartialEq, Eq)]
pub enum ParaType {
    Normal,
    Riwayat,
}

/// The kind of a tokenized line.
#[derive(Clone, Copy, Debug, PartialEq, Eq)]
pub enum LineType {
    Normal,
    RouteOrDistance,
    Verse,
}

/// What a date marker dates.
#[derive(Clone, Copy, Debug, PartialEq, Eq)]
pub enum DateType {
    Birth,
    Death,
    Other,
}

/// The kind of a named entity.
#[derive(Clone, Copy, Debug, PartialEq, Eq)]
pub enum EntityType {
    Top,
    Per,
    Soc,
    Src,
}

/// A page marker: volume and page, as the digits that were written.
#[derive(Clone, Debug, PartialEq, Eq)]
pub struct PageNumber {
    pub vol: String,
    pub page: String,
}

/// The value of a [`PageNumber`].
pub struct PageNumberView {
    pub vol: Seq<char>,
    pub page: Seq<char>,
}

impl View for PageNumber {
    type V = PageNumberView;

    open spec fn view(&self) -> PageNumberView {
        PageNumberView { vol: self.vol@, page: self.page@ }
    }
}

/// One fragment of a tokenized line.
///
/// An open tag's last field, the sub-subtype of a user tag and the review
/// code of an automatic tag, is optional in the format: where the tag has
/// none, the field is empty.
#[derive(Clone, Debug, PartialEq, Eq)]
pub enum LinePart {
    Isnad,
    PageNumber(PageNumber),
    OpenTagUser { user: String, t_type: String, t_subtype: String, t_subsubtype: String },
    OpenTagAuto { resp: String, t_type: String, category: String, review: String },
    Hemistich { orig: String },
    Milestone,
    Matn,
    Hukm,
    RouteFrom,
    RouteTowa,
    RouteDist,
    Date { value: String, date_type: DateType },
    Age { value: String },
    NamedEntity { prefix: u32, extent: u32, ne_type: EntityType },
    TextPart { text: String },
    NamedEntityText { text: String, ne_type: EntityType },
}

/// The value of a [`LinePart`].
pub enum LinePartView {
    Isnad,
    PageNumber(PageNumberView),
    OpenTagUser {
        user: Seq<char>,
        t_type: Seq<char>,
        t_subtype: Seq<char>,
        t_subsubtype: Seq<char>,
    },
    OpenTagAuto { resp: Seq<char>, t_type: Seq<char>, category: Seq<char>, review: Seq<char> },
    Hemistich { orig: Seq<char> },
    Milestone,
    Matn,
    Hukm,
    RouteFrom,
    RouteTowa,
    RouteDist,
    Date { value: Seq<char>, date_type: DateType },
    Age { value: Seq<char> },
    NamedEntity { prefix: u32, extent: u32, ne_type: EntityType },
    TextPart { text: Seq<char> },
    NamedEntityText { text: Seq<char>, ne_type: EntityType },
}

impl View for LinePart {
    type V = LinePartView;

    open spec fn view(&self) -> LinePartView {
        match *self {
            LinePart::Isnad => LinePartView::Isnad,
            LinePart::PageNumber(p) => LinePartView::PageNumber(p@),
            LinePart::OpenTagUser { user, t_type, t_subtype, t_subsubtype } => {
                LinePartView::OpenTagUser {
                    user: user@,
                    t_type: t_type@,
                    t_subtype: t_subtype@,
                    t_subsubtype: t_subsubtype@,
                }
            },
            LinePart::OpenTagAuto { resp, t_type, category, review } => {
                LinePartView::OpenTagAuto {
                    resp: resp@,
                    t_type: t_type@,
                    category: category@,
                    review: review@,
                }
            },
            LinePart::Hemistich { orig } => LinePartView::Hemistich { orig: orig@ },
            LinePart::Milestone => LinePartView::Milestone,
            LinePart::Matn => LinePartView::Matn,
            LinePart::Hukm => LinePartView::Hukm,
            LinePart::RouteFrom => LinePartView::RouteFrom,
            LinePart::RouteTowa => LinePartView::RouteTowa,
            LinePart::RouteDist => LinePartView::RouteDist,
            LinePart::Date { value, date_type } => LinePartView::Date { value: value@, date_type },
            LinePart::Age { value } => LinePartView::Age { value: value@ },
            LinePart::NamedEntity { prefix, extent, ne_type } => {
                LinePartView::NamedEntity { prefix, extent, ne_type }
            },
            LinePart::TextPart { text } => LinePartView::TextPart { text: text@ },
            LinePart::NamedEntityText { text, ne_type } => {
                LinePartView::NamedEntityText { text: text@, ne_type }
            },
        }
    }
}

/// The values of a sequence of fragments.
pub open spec fn parts_view(parts: Seq<LinePart>) -> Seq<LinePartView> {
    parts.map_values(|p: LinePart| p@)
}

/// A tokenized line: its text without any inline tag, where any is left, its
/// fragments from left to right, and its kind.
#[derive(Clone, Debug, PartialEq, Eq)]
pub struct Line {
    pub text_only: Option<String>,
    pub parts: Vec<LinePart>,
    pub line_type: LineType,
}

/// The value of a [`Line`].
pub struct LineView {
    pub text_only: Option<Seq<char>>,
    pub parts: Seq<LinePartView>,
    pub line_type: LineType,
}

impl View for Line {
    type V = LineView;

    open spec fn view(&self) -> LineView {
        LineView {
            text_only: match self.text_only {
                Some(t) => Some(t@),
                None => None,
            },
            parts: parts_view(self.parts@),
            line_type: self.line_type,
        }
    }
}

/// One item of a document's content.
#[derive(Clone, Debug, PartialEq, Eq)]
pub enum Content {
    PageNumber(PageNumber),
    Paragraph { orig: String, para_type: ParaType },
    Line(Line),
    MorphologicalPattern { orig: String, category: String },
    Editorial,
    SectionHeader { value: String, level: u32 },
    DictionaryUnit { orig: String, dic_type: DicType },
    DoxographicalItem { orig: String, dox_type: DoxType },
    BioOrEvent { orig: String, be_type: BeType },
    AdministrativeRegion { orig: String },
}

/// The value of a [`Content`].
pub enum ContentView {
    PageNumber(PageNumberView),
    Paragraph { orig: Seq<char>, para_type: ParaType },
    Line(LineView),
    MorphologicalPattern { orig: Seq<char>, category: Seq<char> },
    Editorial,
    SectionHeader { value: Seq<char>, level: u32 },
    DictionaryUnit { orig: Seq<char>, dic_type: DicType },
    DoxographicalItem { orig: Seq<char>, dox_type: DoxType },
    BioOrEvent { orig: Seq<char>, be_type: BeType },
    AdministrativeRegion { orig: Seq<char> },
}

impl View for Content {
    type V = ContentView;

    open spec fn view(&self) -> ContentView {
        match *self {
            Content::PageNumber(p) => ContentView::PageNumber(p@),
            Content::Paragraph { orig, para_type } => ContentView::Paragraph {
                orig: orig@,
                para_type,
            },
            Content::Line(l) => ContentView::Line(l@),
            Content::MorphologicalPattern { orig, category } => {
                ContentView::MorphologicalPattern { orig: orig@, category: category@ }
            },
            Content::Editorial => ContentView::Editorial,
            Content::SectionHeader { value, level } => ContentView::SectionHeader {
                value: value@,
                level,
            },
            Content::DictionaryUnit { orig, dic_type } => ContentView::DictionaryUnit {
                orig: orig@,
                dic_type,
            },
            Content::DoxographicalItem { orig, dox_type } => ContentView::DoxographicalItem {
                orig: orig@,
                dox_type,
            },
            Content::BioOrEvent { orig, be_type } => ContentView::BioOrEvent {
                orig: orig@,
                be_type,
            },
            Content::AdministrativeRegion { orig } => ContentView::AdministrativeRegion {
                orig: orig@,
            },
        }
    }
}

/// The values of a sequence of content items.
pub open spec fn contents_view(items: Seq<Content>) -> Seq<ContentView> {
    items.map_values(|c: Content| c@)
}

/// The texts of a sequence of strings.
pub open spec fn strings_view(strings: Seq<String>) -> Seq<Seq<char>> {
    strings.map_values(|s: String| s@)
}

/// A parsed document: its first line, its metadata lines and its content,
/// each in the order of the input.
#[derive(Clone, Debug, PartialEq, Eq)]
pub struct Document {
    pub magic_value: String,
    pub simple_metadata: Vec<String>,
    pub content: Vec<Content>,
}

/// The value of a [`Document`].
pub struct DocumentView {
    pub magic_value: Seq<char>,
    pub simple_metadata: Seq<Seq<char>>,
    pub content: Seq<ContentView>,
}

impl View for Document {
    type V = DocumentView;

    open spec fn view(&self) -> DocumentView {
        DocumentView {
            magic_value: self.magic_value@,
            simple_metadata: strings_view(self.simple_metadata@),
            content: contents_view(self.content@),
        }
    }
}

impl LinePartView {
    /// Whether the fragment is a tag that neither announces an entity nor
    /// holds text: any fragment but a named-entity marker, an entity's text
    /// and plain text.
    pub open spec fn is_bystander(self) -> bool {
        !(self is NamedEntity) && !(self is NamedEntityText) && !(self is TextPart)
    }
}

/// The fragment at `i` is the marker of the entity text at `j`: it is a
/// named-entity marker of the text's kind and of an extent of one word at
/// least, it stands before the text, and between the two stand only tags
/// that neither announce an entity nor hold text.
pub open spec fn marks(parts: Seq<LinePartView>, i: int, j: int) -> bool {
    &&& 0 <= i < j < parts.len()
    &&& parts[i] matches LinePartView::NamedEntity { extent, ne_type: marker_kind, .. }
    &&& parts[j] matches LinePartView::NamedEntityText { ne_type: text_kind, .. }
    &&& marker_kind == text_kind
    &&& extent >= 1
    &&& forall|k: int| i < k < j ==> (#[trigger] parts[k]).is_bystander()
}

/// Every entity text among the fragments has its marker before it.
pub open spec fn entity_texts_marked(parts: Seq<LinePartView>) -> bool {
    forall|j: int|
        0 <= j < parts.len() && (#[trigger] parts[j]) is NamedEntityText ==> exists|i: int|
            marks(parts, i, j)
}

impl LineView {
    /// What holds of every line that the tokenizer makes: every entity text
    /// has its marker before it.
    pub open spec fn well_formed(self) -> bool {
        entity_texts_marked(self.parts)
    }
}

impl ContentView {
    /// What holds of every content item that the classifier makes: a line is
    /// well formed, and the level of a section header lies between 1 and 5.
    pub open spec fn well_formed(self) -> bool {
        match self {
            ContentView::Line(line) => line.well_formed(),
            ContentView::SectionHeader { level, .. } => 1 <= level <= 5,
            _ => true,
        }
    }
}

impl DocumentView {
    /// What holds of every document that the parser makes: the magic value
    /// begins with the magic prefix, and every content item is well formed.
    pub open spec fn well_formed(self) -> bool {
        &&& has_prefix(self.magic_value, MAGIC@)
        &&& forall|i: int| 0 <= i < self.content.len() ==> (#[trigger] self.content[i]).well_formed()
    }
}

} // verus!
