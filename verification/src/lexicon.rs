//! The patterns of the format, and their compiled form.

use crate::pattern::{compiled, Pattern};
use vstd::prelude::*;

verus! {

/// Every inline tag, in the order in which the alternatives are tried: page
/// number, automatic open tag, user open tag, the phrase markers, the dated
/// markers, the named-reference markers. A named-reference introducer with
/// a single digit is cut out as a token too: the tokenizer then drops it,
/// since it lacks its second digit.
pub const TOKEN_PATTERN: &'static str = r"(?x)
        (
            PageV\d+P\d+ |
            @[A-Z]{3}@[A-Z]{3,}@[A-Za-z]+@(?:-@[0tf][ftalmr]@)? |
            @[^@]+?@[^_@]+?_[^_@]+?(?:_[^_@]+?)?@               |
            %~%          |
            Milestone300 |
            @MATN@       |
            @HUKM@       |
            \#\$\#FROM   |
            \#\$\#TOWA   |
            \#\$\#DIST   |
            @YA\d{1,4}   |
            @YD\d{1,4}   |
            @YB\d{1,4}   |
            @YY\d{1,4}   |
            @TOP\d{1,2}  |
            @T\d{1,2}    |
            @PER\d{1,2}  |
            @P\d{1,2}    |
            @SRC\d{1,2}  |
            @SOC\d{1,2}  |
            @S\d{1,2}
        )";

/// The tags that are taken out of a line's plain text, after the phrase
/// markers: dated markers, which are an introducer and one to four digits;
/// named-reference markers, which are an introducer and two digits; open
/// tags; page numbers.
pub const TAG_PATTERN: &'static str = r"(?x)
        (
            @YA\d{1,4}     |
            @YD\d{1,4}     |
            @YB\d{1,4}     |
            @YY\d{1,4}     |
            @TOP\d{2}      |
            @T\d{2}        |
            @PER\d{2}      |
            @P\d{2}        |
            @SRC\d{2}      |
            @SOC\d{2}      |
            @S\d{2}        |
            @([^@]+?)@([^_@]+?)_([^_@]+?)(_([^_@]+?))?@               |
            @([A-Z]{3})@([A-Z]{3,})@([A-Za-z]+)@(-@([0tf][ftalmr])@)? |
            PageV(\d+)P(\d+)
        )";

/// A page number: group 1 is the volume, group 2 the page.
pub const PAGE_PATTERN: &'static str = r"PageV(\d+)P(\d+)";

/// A user open tag at the start of a token: groups 1, 2 and 3 are the user,
/// the type and the subtype, group 5 the optional sub-subtype.
pub const USER_TAG_PATTERN: &'static str = "^@([^@]+?)@([^_@]+?)_([^_@]+?)(_([^_@]+?))?@";

/// An automatic open tag at the start of a token: groups 1, 2 and 3 are the
/// responsible party, the type and the category, group 5 the optional review
/// code.
pub const AUTO_TAG_PATTERN: &'static str =
    "^@([A-Z]{3})@([A-Z]{3,})@([A-Za-z]+)@(-@([0tf][ftalmr])@)?";

/// A morphological pattern: group 1 is its category.
pub const MORPHO_PATTERN: &'static str = "#~:([^:]+?):";

/// The start of a paragraph.
pub const PARA_PATTERN: &'static str = "^#($|[^#])";

/// A biography under one of the short markers: the shortest marker, and a
/// character after it that is no `#`.
pub const BIO_PATTERN: &'static str = r"### \$[^#]";

/// An administrative region.
pub const REGION_PATTERN: &'static str =
    r"(#$#PROV|#$#REG\d) .*? #$#TYPE .*? (#$#REG\d|#$#STTL) ([\w# ]+) $";

/// The `regex` crate accepts every pattern of the format.
pub open spec fn lexicon_compiles() -> bool {
    &&& compiled(TOKEN_PATTERN@) is Some
    &&& compiled(TAG_PATTERN@) is Some
    &&& compiled(PAGE_PATTERN@) is Some
    &&& compiled(USER_TAG_PATTERN@) is Some
    &&& compiled(AUTO_TAG_PATTERN@) is Some
    &&& compiled(MORPHO_PATTERN@) is Some
    &&& compiled(PARA_PATTERN@) is Some
    &&& compiled(BIO_PATTERN@) is Some
    &&& compiled(REGION_PATTERN@) is Some
}

/// The patterns of the format, compiled once.
pub struct Lexicon {
    tokens: Pattern,
    tags: Pattern,
    page: Pattern,
    user_tag: Pattern,
    auto_tag: Pattern,
    morpho: Pattern,
    para: Pattern,
    bio: Pattern,
    region: Pattern,
}

impl Lexicon {
    #[verifier::type_invariant]
    spec fn holds_the_patterns(self) -> bool {
        &&& self.tokens.source() == TOKEN_PATTERN@
        &&& self.tags.source() == TAG_PATTERN@
        &&& self.page.source() == PAGE_PATTERN@
        &&& self.user_tag.source() == USER_TAG_PATTERN@
        &&& self.auto_tag.source() == AUTO_TAG_PATTERN@
        &&& self.morpho.source() == MORPHO_PATTERN@
        &&& self.para.source() == PARA_PATTERN@
        &&& self.bio.source() == BIO_PATTERN@
        &&& self.region.source() == REGION_PATTERN@
    }

    /// Compiles the patterns. There is a lexicon exactly where the `regex`
    /// crate accepts them all.
    pub fn new() -> (r: Option<Lexicon>)
        ensures
            r is Some <==> lexicon_compiles(),
    {
        let tokens = Pattern::compile(TOKEN_PATTERN)?;
        let tags = Pattern::compile(TAG_PATTERN)?;
        let page = Pattern::compile(PAGE_PATTERN)?;
        let user_tag = Pattern::compile(USER_TAG_PATTERN)?;
        let auto_tag = Pattern::compile(AUTO_TAG_PATTERN)?;
        let morpho = Pattern::compile(MORPHO_PATTERN)?;
        let para = Pattern::compile(PARA_PATTERN)?;
        let bio = Pattern::compile(BIO_PATTERN)?;
        let region = Pattern::compile(REGION_PATTERN)?;
        Some(Lexicon { tokens, tags, page, user_tag, auto_tag, morpho, para, bio, region })
    }

    /// The compiled [`TOKEN_PATTERN`].
    pub fn tokens(&self) -> (p: &Pattern)
        ensures
            p.source() == TOKEN_PATTERN@,
    {
        proof {
            use_type_invariant(self);
        }
        &self.tokens
    }

    /// The compiled [`TAG_PATTERN`].
    pub fn tags(&self) -> (p: &Pattern)
        ensures
            p.source() == TAG_PATTERN@,
    {
        proof {
            use_type_invariant(self);
        }
        &self.tags
    }

    /// The compiled [`PAGE_PATTERN`].
    pub fn page(&self) -> (p: &Pattern)
        ensures
            p.source() == PAGE_PATTERN@,
    {
        proof {
            use_type_invariant(self);
        }
        &self.page
    }

    /// The compiled [`USER_TAG_PATTERN`].
    pub fn user_tag(&self) -> (p: &Pattern)
        ensures
            p.source() == USER_TAG_PATTERN@,
    {
        proof {
            use_type_invariant(self);
        }
        &self.user_tag
    }

    /// The compiled [`AUTO_TAG_PATTERN`].
    pub fn auto_tag(&self) -> (p: &Pattern)
        ensures
            p.source() == AUTO_TAG_PATTERN@,
    {
        proof {
            use_type_invariant(self);
        }
        &self.auto_tag
    }

    /// The compiled [`MORPHO_PATTERN`].
    pub fn morpho(&self) -> (p: &Pattern)
        ensures
            p.source() == MORPHO_PATTERN@,
    {
        proof {
            use_type_invariant(self);
        }
        &self.morpho
    }

    /// The compiled [`PARA_PATTERN`].
    pub fn para(&self) -> (p: &Pattern)
        ensures
            p.source() == PARA_PATTERN@,
    {
        proof {
            use_type_invariant(self);
        }
        &self.para
    }

    /// The compiled [`BIO_PATTERN`].
    pub fn bio(&self) -> (p: &Pattern)
        ensures
            p.source() == BIO_PATTERN@,
    {
        proof {
            use_type_invariant(self);
        }
        &self.bio
    }

    /// The compiled [`REGION_PATTERN`].
    pub fn region(&self) -> (p: &Pattern)
        ensures
            p.source() == REGION_PATTERN@,
    {
        proof {
            use_type_invariant(self);
        }
        &self.region
    }
}

} // verus!
