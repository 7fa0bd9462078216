//! Questions to the enums of the document tree: which variant a value is,
//! and what it holds.

use crate::structures::{
    BeType, Content, DateType, DicType, DoxType, EntityType, Line, LinePart, LineType, PageNumber,
    ParaType,
};
use vstd::prelude::*;

verus! {

impl BeType {
    /// Whether this is a `BeType::Man`.
    pub fn is_man(&self) -> (r: bool)
        ensures
            r == (*self is Man),
    {
        match self {
            BeType::Man => true,
            _ => false,
        }
    }

    /// Whether this is a `BeType::Wom`.
    pub fn is_wom(&self) -> (r: bool)
        ensures
            r == (*self is Wom),
    {
        match self {
            BeType::Wom => true,
            _ => false,
        }
    }

    /// Whether this is a `BeType::Ref`.
    pub fn is_ref(&self) -> (r: bool)
        ensures
            r == (*self is Ref),
    {
        match self {
            BeType::Ref => true,
            _ => false,
        }
    }

    /// Whether this is a `BeType::Names`.
    pub fn is_names(&self) -> (r: bool)
        ensures
            r == (*self is Names),
    {
        match self {
            BeType::Names => true,
            _ => false,
        }
    }

    /// Whether this is a `BeType::Event`.
    pub fn is_event(&self) -> (r: bool)
        ensures
            r == (*self is Event),
    {
        match self {
            BeType::Event => true,
            _ => false,
        }
    }

    /// Whether this is a `BeType::Events`.
    pub fn is_events(&self) -> (r: bool)
        ensures
            r == (*self is Events),
    {
        match self {
            BeType::Events => true,
            _ => false,
        }
    }
}

impl DicType {
    /// Whether this is a `DicType::Nis`.
    pub fn is_nis(&self) -> (r: bool)
        ensures
            r == (*self is Nis),
    {
        match self {
            DicType::Nis => true,
            _ => false,
        }
    }

    /// Whether this is a `DicType::Top`.
    pub fn is_top(&self) -> (r: bool)
        ensures
            r == (*self is Top),
    {
        match self {
            DicType::Top => true,
            _ => false,
        }
    }

    /// Whether this is a `DicType::Lex`.
    pub fn is_lex(&self) -> (r: bool)
        ensures
            r == (*self is Lex),
    {
        match self {
            DicType::Lex => true,
            _ => false,
        }
    }

    /// Whether this is a `DicType::Bib`.
    pub fn is_bib(&self) -> (r: bool)
        ensures
            r == (*self is Bib),
    {
        match self {
            DicType::Bib => true,
            _ => false,
        }
    }
}

impl DoxType {
    /// Whether this is a `DoxType::Pos`.
    pub fn is_pos(&self) -> (r: bool)
        ensures
            r == (*self is Pos),
    {
        match self {
            DoxType::Pos => true,
            _ => false,
        }
    }

    /// Whether this is a `DoxType::Sec`.
    pub fn is_sec(&self) -> (r: bool)
        ensures
            r == (*self is Sec),
    {
        match self {
            DoxType::Sec => true,
            _ => false,
        }
    }
}

impl ParaType {
    /// Whether this is a `ParaType::Normal`.
    pub fn is_normal(&self) -> (r: bool)
        ensures
            r == (*self is Normal),
    {
        match self {
            ParaType::Normal => true,
            _ => false,
        }
    }

    /// Whether this is a `ParaType::Riwayat`.
    pub fn is_riwayat(&self) -> (r: bool)
        ensures
            r == (*self is Riwayat),
    {
        match self {
            ParaType::Riwayat => true,
            _ => false,
        }
    }
}

impl LineType {
    /// Whether this is a `LineType::Normal`.
    pub fn is_normal(&self) -> (r: bool)
        ensures
            r == (*self is Normal),
    {
        match self {
            LineType::Normal => true,
            _ => false,
        }
    }

    /// Whether this is a `LineType::RouteOrDistance`.
    pub fn is_route_or_distance(&self) -> (r: bool)
        ensures
            r == (*self is RouteOrDistance),
    {
        match self {
            LineType::RouteOrDistance => true,
            _ => false,
        }
    }

    /// Whether this is a `LineType::Verse`.
    pub fn is_verse(&self) -> (r: bool)
        ensures
            r == (*self is Verse),
    {
        match self {
            LineType::Verse => true,
            _ => false,
        }
    }
}

impl DateType {
    /// Whether this is a `DateType::Birth`.
    pub fn is_birth(&self) -> (r: bool)
        ensures
            r == (*self is Birth),
    {
        match self {
            DateType::Birth => true,
            _ => false,
        }
    }

    /// Whether this is a `DateType::Death`.
    pub fn is_death(&self) -> (r: bool)
        ensures
            r == (*self is Death),
    {
        match self {
            DateType::Death => true,
            _ => false,
        }
    }

    /// Whether this is a `DateType::Other`.
    pub fn is_other(&self) -> (r: bool)
        ensures
            r == (*self is Other),
    {
        match self {
            DateType::Other => true,
            _ => false,
        }
    }
}

impl EntityType {
    /// Whether this is a `EntityType::Top`.
    pub fn is_top(&self) -> (r: bool)
        ensures
            r == (*self is Top),
    {
        match self {
            EntityType::Top => true,
            _ => false,
        }
    }

    /// Whether this is a `EntityType::Per`.
    pub fn is_per(&self) -> (r: bool)
        ensures
            r == (*self is Per),
    {
        match self {
            EntityType::Per => true,
            _ => false,
        }
    }

    /// Whether this is a `EntityType::Soc`.
    pub fn is_soc(&self) -> (r: bool)
        ensures
            r == (*self is Soc),
    {
        match self {
            EntityType::Soc => true,
            _ => false,
        }
    }

    /// Whether this is a `EntityType::Src`.
    pub fn is_src(&self) -> (r: bool)
        ensures
            r == (*self is Src),
    {
        match self {
            EntityType::Src => true,
            _ => false,
        }
    }
}

impl Content {
    /// Whether this is a `Content::PageNumber`.
    pub fn is_page_number(&self) -> (r: bool)
        ensures
            r == (*self is PageNumber),
    {
        match self {
            Content::PageNumber(_) => true,
            _ => false,
        }
    }

    /// What a `Content::PageNumber` holds, or nothing for another variant.
    pub fn as_page_number(&self) -> (r: Option<&PageNumber>)
        ensures
            match *self {
                Content::PageNumber(inner) => r == Some(&inner),
                _ => r is None,
            },
    {
        match self {
            Content::PageNumber(inner) => Some(inner),
            _ => None,
        }
    }

    /// Whether this is a `Content::Paragraph`.
    pub fn is_paragraph(&self) -> (r: bool)
        ensures
            r == (*self is Paragraph),
    {
        match self {
            Content::Paragraph { .. } => true,
            _ => false,
        }
    }

    /// What a `Content::Paragraph` holds, or nothing for another variant.
    pub fn as_paragraph(&self) -> (r: Option<(&String, &ParaType)>)
        ensures
            match *self {
                Content::Paragraph { orig, para_type } => r == Some((&orig, &para_type)),
                _ => r is None,
            },
    {
        match self {
            Content::Paragraph { orig, para_type } => Some((orig, para_type)),
            _ => None,
        }
    }

    /// Whether this is a `Content::Line`.
    pub fn is_line(&self) -> (r: bool)
        ensures
            r == (*self is Line),
    {
        match self {
            Content::Line(_) => true,
            _ => false,
        }
    }

    /// What a `Content::Line` holds, or nothing for another variant.
    pub fn as_line(&self) -> (r: Option<&Line>)
        ensures
            match *self {
                Content::Line(inner) => r == Some(&inner),
                _ => r is None,
            },
    {
        match self {
            Content::Line(inner) => Some(inner),
            _ => None,
        }
    }

    /// Whether this is a `Content::MorphologicalPattern`.
    pub fn is_morphological_pattern(&self) -> (r: bool)
        ensures
            r == (*self is MorphologicalPattern),
    {
        match self {
            Content::MorphologicalPattern { .. } => true,
            _ => false,
        }
    }

    /// What a `Content::MorphologicalPattern` holds, or nothing for another variant.
    pub fn as_morphological_pattern(&self) -> (r: Option<(&String, &String)>)
        ensures
            match *self {
                Content::MorphologicalPattern { orig, category } => r == Some((&orig, &category)),
                _ => r is None,
            },
    {
        match self {
            Content::MorphologicalPattern { orig, category } => Some((orig, category)),
            _ => None,
        }
    }

    /// Whether this is a `Content::Editorial`.
    pub fn is_editorial(&self) -> (r: bool)
        ensures
            r == (*self is Editorial),
    {
        match self {
            Content::Editorial => true,
            _ => false,
        }
    }

    /// Whether this is a `Content::SectionHeader`.
    pub fn is_section_header(&self) -> (r: bool)
        ensures
            r == (*self is SectionHeader),
    {
        match self {
            Content::SectionHeader { .. } => true,
            _ => false,
        }
    }

    /// What a `Content::SectionHeader` holds, or nothing for another variant.
    pub fn as_section_header(&self) -> (r: Option<(&String, &u32)>)
        ensures
            match *self {
                Content::SectionHeader { value, level } => r == Some((&value, &level)),
                _ => r is None,
            },
    {
        match self {
            Content::SectionHeader { value, level } => Some((value, level)),
            _ => None,
        }
    }

    /// Whether this is a `Content::DictionaryUnit`.
    pub fn is_dictionary_unit(&self) -> (r: bool)
        ensures
            r == (*self is DictionaryUnit),
    {
        match self {
            Content::DictionaryUnit { .. } => true,
            _ => false,
        }
    }

    /// What a `Content::DictionaryUnit` holds, or nothing for another variant.
    pub fn as_dictionary_unit(&self) -> (r: Option<(&String, &DicType)>)
        ensures
            match *self {
                Content::DictionaryUnit { orig, dic_type } => r == Some((&orig, &dic_type)),
                _ => r is None,
            },
    {
        match self {
            Content::DictionaryUnit { orig, dic_type } => Some((orig, dic_type)),
            _ => None,
        }
    }

    /// Whether this is a `Content::DoxographicalItem`.
    pub fn is_doxographical_item(&self) -> (r: bool)
        ensures
            r == (*self is DoxographicalItem),
    {
        match self {
            Content::DoxographicalItem { .. } => true,
            _ => false,
        }
    }

    /// What a `Content::DoxographicalItem` holds, or nothing for another variant.
    pub fn as_doxographical_item(&self) -> (r: Option<(&String, &DoxType)>)
        ensures
            match *self {
                Content::DoxographicalItem { orig, dox_type } => r == Some((&orig, &dox_type)),
                _ => r is None,
            },
    {
        match self {
            Content::DoxographicalItem { orig, dox_type } => Some((orig, dox_type)),
            _ => None,
        }
    }

    /// Whether this is a `Content::BioOrEvent`.
    pub fn is_bio_or_event(&self) -> (r: bool)
        ensures
            r == (*self is BioOrEvent),
    {
        match self {
            Content::BioOrEvent { .. } => true,
            _ => false,
        }
    }

    /// What a `Content::BioOrEvent` holds, or nothing for another variant.
    pub fn as_bio_or_event(&self) -> (r: Option<(&String, &BeType)>)
        ensures
            match *self {
                Content::BioOrEvent { orig, be_type } => r == Some((&orig, &be_type)),
                _ => r is None,
            },
    {
        match self {
            Content::BioOrEvent { orig, be_type } => Some((orig, be_type)),
            _ => None,
        }
    }

    /// Whether this is a `Content::AdministrativeRegion`.
    pub fn is_administrative_region(&self) -> (r: bool)
        ensures
            r == (*self is AdministrativeRegion),
    {
        match self {
            Content::AdministrativeRegion { .. } => true,
            _ => false,
        }
    }

    /// What a `Content::AdministrativeRegion` holds, or nothing for another variant.
    pub fn as_administrative_region(&self) -> (r: Option<&String>)
        ensures
            match *self {
                Content::AdministrativeRegion { orig } => r == Some(&orig),
                _ => r is None,
            },
    {
        match self {
            Content::AdministrativeRegion { orig } => Some(orig),
            _ => None,
        }
    }
}

impl LinePart {
    /// Whether this is a `LinePart::Isnad`.
    pub fn is_isnad(&self) -> (r: bool)
        ensures
            r == (*self is Isnad),
    {
        match self {
            LinePart::Isnad => true,
            _ => false,
        }
    }

    /// Whether this is a `LinePart::PageNumber`.
    pub fn is_page_number(&self) -> (r: bool)
        ensures
            r == (*self is PageNumber),
    {
        match self {
            LinePart::PageNumber(_) => true,
            _ => false,
        }
    }

    /// What a `LinePart::PageNumber` holds, or nothing for another variant.
    pub fn as_page_number(&self) -> (r: Option<&PageNumber>)
        ensures
            match *self {
                LinePart::PageNumber(inner) => r == Some(&inner),
                _ => r is None,
            },
    {
        match self {
            LinePart::PageNumber(inner) => Some(inner),
            _ => None,
        }
    }

    /// Whether this is a `LinePart::OpenTagUser`.
    pub fn is_open_tag_user(&self) -> (r: bool)
        ensures
            r == (*self is OpenTagUser),
    {
        match self {
            LinePart::OpenTagUser { .. } => true,
            _ => false,
        }
    }

    /// What a `LinePart::OpenTagUser` holds, or nothing for another variant.
    pub fn as_open_tag_user(&self) -> (r: Option<(&String, &String, &String, &String)>)
        ensures
            match *self {
                LinePart::OpenTagUser { user, t_type, t_subtype, t_subsubtype } => r == Some((&user, &t_type, &t_subtype, &t_subsubtype)),
                _ => r is None,
            },
    {
        match self {
            LinePart::OpenTagUser { user, t_type, t_subtype, t_subsubtype } => Some((user, t_type, t_subtype, t_subsubtype)),
            _ => None,
        }
    }

    /// Whether this is a `LinePart::OpenTagAuto`.
    pub fn is_open_tag_auto(&self) -> (r: bool)
        ensures
            r == (*self is OpenTagAuto),
    {
        match self {
            LinePart::OpenTagAuto { .. } => true,
            _ => false,
        }
    }

    /// What a `LinePart::OpenTagAuto` holds, or nothing for another variant.
    pub fn as_open_tag_auto(&self) -> (r: Option<(&String, &String, &String, &String)>)
        ensures
            match *self {
                LinePart::OpenTagAuto { resp, t_type, category, review } => r == Some((&resp, &t_type, &category, &review)),
                _ => r is None,
            },
    {
        match self {
            LinePart::OpenTagAuto { resp, t_type, category, review } => Some((resp, t_type, category, review)),
            _ => None,
        }
    }

    /// Whether this is a `LinePart::Hemistich`.
    pub fn is_hemistich(&self) -> (r: bool)
        ensures
            r == (*self is Hemistich),
    {
        match self {
            LinePart::Hemistich { .. } => true,
            _ => false,
        }
    }

    /// What a `LinePart::Hemistich` holds, or nothing for another variant.
    pub fn as_hemistich(&self) -> (r: Option<&String>)
        ensures
            match *self {
                LinePart::Hemistich { orig } => r == Some(&orig),
                _ => r is None,
            },
    {
        match self {
            LinePart::Hemistich { orig } => Some(orig),
            _ => None,
        }
    }

    /// Whether this is a `LinePart::Milestone`.
    pub fn is_milestone(&self) -> (r: bool)
        ensures
            r == (*self is Milestone),
    {
        match self {
            LinePart::Milestone => true,
            _ => false,
        }
    }

    /// Whether this is a `LinePart::Matn`.
    pub fn is_matn(&self) -> (r: bool)
        ensures
            r == (*self is Matn),
    {
        match self {
            LinePart::Matn => true,
            _ => false,
        }
    }

    /// Whether this is a `LinePart::Hukm`.
    pub fn is_hukm(&self) -> (r: bool)
        ensures
            r == (*self is Hukm),
    {
        match self {
            LinePart::Hukm => true,
            _ => false,
        }
    }

    /// Whether this is a `LinePart::RouteFrom`.
    pub fn is_route_from(&self) -> (r: bool)
        ensures
            r == (*self is RouteFrom),
    {
        match self {
            LinePart::RouteFrom => true,
            _ => false,
        }
    }

    /// Whether this is a `LinePart::RouteTowa`.
    pub fn is_route_towa(&self) -> (r: bool)
        ensures
            r == (*self is RouteTowa),
    {
        match self {
            LinePart::RouteTowa => true,
            _ => false,
        }
    }

    /// Whether this is a `LinePart::RouteDist`.
    pub fn is_route_dist(&self) -> (r: bool)
        ensures
            r == (*self is RouteDist),
    {
        match self {
            LinePart::RouteDist => true,
            _ => false,
        }
    }

    /// Whether this is a `LinePart::Date`.
    pub fn is_date(&self) -> (r: bool)
        ensures
            r == (*self is Date),
    {
        match self {
            LinePart::Date { .. } => true,
            _ => false,
        }
    }

    /// What a `LinePart::Date` holds, or nothing for another variant.
    pub fn as_date(&self) -> (r: Option<(&String, &DateType)>)
        ensures
            match *self {
                LinePart::Date { value, date_type } => r == Some((&value, &date_type)),
                _ => r is None,
            },
    {
        match self {
            LinePart::Date { value, date_type } => Some((value, date_type)),
            _ => None,
        }
    }

    /// Whether this is a `LinePart::Age`.
    pub fn is_age(&self) -> (r: bool)
        ensures
            r == (*self is Age),
    {
        match self {
            LinePart::Age { .. } => true,
            _ => false,
        }
    }

    /// What a `LinePart::Age` holds, or nothing for another variant.
    pub fn as_age(&self) -> (r: Option<&String>)
        ensures
            match *self {
                LinePart::Age { value } => r == Some(&value),
                _ => r is None,
            },
    {
        match self {
            LinePart::Age { value } => Some(value),
            _ => None,
        }
    }

    /// Whether this is a `LinePart::NamedEntity`.
    pub fn is_named_entity(&self) -> (r: bool)
        ensures
            r == (*self is NamedEntity),
    {
        match self {
            LinePart::NamedEntity { .. } => true,
            _ => false,
        }
    }

    /// What a `LinePart::NamedEntity` holds, or nothing for another variant.
    pub fn as_named_entity(&self) -> (r: Option<(&u32, &u32, &EntityType)>)
        ensures
            match *self {
                LinePart::NamedEntity { prefix, extent, ne_type } => r == Some((&prefix, &extent, &ne_type)),
                _ => r is None,
            },
    {
        match self {
            LinePart::NamedEntity { prefix, extent, ne_type } => Some((prefix, extent, ne_type)),
            _ => None,
        }
    }

    /// Whether this is a `LinePart::TextPart`.
    pub fn is_text_part(&self) -> (r: bool)
        ensures
            r == (*self is TextPart),
    {
        match self {
            LinePart::TextPart { .. } => true,
            _ => false,
        }
    }

    /// What a `LinePart::TextPart` holds, or nothing for another variant.
    pub fn as_text_part(&self) -> (r: Option<&String>)
        ensures
            match *self {
                LinePart::TextPart { text } => r == Some(&text),
                _ => r is None,
            },
    {
        match self {
            LinePart::TextPart { text } => Some(text),
            _ => None,
        }
    }

    /// Whether this is a `LinePart::NamedEntityText`.
    pub fn is_named_entity_text(&self) -> (r: bool)
        ensures
            r == (*self is NamedEntityText),
    {
        match self {
            LinePart::NamedEntityText { .. } => true,
            _ => false,
        }
    }

    /// What a `LinePart::NamedEntityText` holds, or nothing for another variant.
    pub fn as_named_entity_text(&self) -> (r: Option<(&String, &EntityType)>)
        ensures
            match *self {
                LinePart::NamedEntityText { text, ne_type } => r == Some((&text, &ne_type)),
                _ => r is None,
            },
    {
        match self {
            LinePart::NamedEntityText { text, ne_type } => Some((text, ne_type)),
            _ => None,
        }
    }
}

} // verus!
