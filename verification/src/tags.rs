//! The tag lexicon: the literal markers of the format.
//!
//! Several tags begin with another, shorter tag: the header markers, the
//! short biography markers, the editorial marker and the header marker, the
//! full and the short introducer of a named reference. Wherever two such tags
//! are told apart, the longer one is looked for first.

use vstd::prelude::*;

verus! {

/// Opens the first line of every document.
pub const MAGIC: &'static str = "######OpenITI#";

/// Opens a metadata line.
pub const META: &'static str = "#META#";

/// The line that ends the metadata.
pub const META_END: &'static str = "#META#Header#End#";

/// Opens a page number.
pub const PAGE: &'static str = "PageV";

/// Opens a paragraph that holds a narration.
pub const RWY: &'static str = "# $RWY$";

/// Opens a line that continues a paragraph.
pub const LINE: &'static str = "~~";

/// Parts the two halves of a verse.
pub const HEMI: &'static str = "%~%";

/// Marks the end of a unit of three hundred words.
pub const MILESTONE: &'static str = "Milestone300";

/// Opens the body of a narration.
pub const MATN: &'static str = "@MATN@";

/// Opens the ruling on a narration.
pub const HUKM: &'static str = "@HUKM@";

/// Opens the place that a route leaves.
pub const ROUTE_FROM: &'static str = "#$#FROM";

/// Opens the place that a route leads to.
pub const ROUTE_TOWA: &'static str = "#$#TOWA";

/// Opens the length of a route.
pub const ROUTE_DIST: &'static str = "#$#DIST";

/// Introduces a year of birth.
pub const YEAR_BIRTH: &'static str = "@YB";

/// Introduces a year of death.
pub const YEAR_DEATH: &'static str = "@YD";

/// Introduces a year of another kind.
pub const YEAR_OTHER: &'static str = "@YY";

/// Introduces an age.
pub const YEAR_AGE: &'static str = "@YA";

/// Introduces a source.
pub const SRC: &'static str = "@SRC";

/// Introduces a social entity, in full.
pub const SOC_FULL: &'static str = "@SOC";

/// Introduces a social entity, in short.
pub const SOC: &'static str = "@S";

/// Introduces a place, in full.
pub const TOP_FULL: &'static str = "@TOP";

/// Introduces a place, in short.
pub const TOP: &'static str = "@T";

/// Introduces a person, in full.
pub const PER_FULL: &'static str = "@PER";

/// Introduces a person, in short.
pub const PER: &'static str = "@P";

/// Opens every open tag and every dated or named-reference marker.
pub const AT: &'static str = "@";

/// Opens an editorial section.
pub const EDITORIAL: &'static str = "### |EDITOR|";

/// Opens a header of level 1.
pub const HEADER1: &'static str = "### |";

/// Opens a header of level 2.
pub const HEADER2: &'static str = "### ||";

/// Opens a header of level 3.
pub const HEADER3: &'static str = "### |||";

/// Opens a header of level 4.
pub const HEADER4: &'static str = "### ||||";

/// Opens a header of level 5.
pub const HEADER5: &'static str = "### |||||";

/// Opens every dictionary unit.
pub const DIC: &'static str = "### $DIC_";

/// Opens a dictionary unit on a name of descent or origin.
pub const DIC_NIS: &'static str = "### $DIC_NIS$";

/// Opens a dictionary unit on a place.
pub const DIC_TOP: &'static str = "### $DIC_TOP$";

/// Opens a dictionary unit on a word.
pub const DIC_LEX: &'static str = "### $DIC_LEX$";

/// Opens a dictionary unit on a book.
pub const DIC_BIB: &'static str = "### $DIC_BIB$";

/// Opens every doxographical item.
pub const DOX: &'static str = "### $DOX_";

/// Opens a doxographical item on a position.
pub const DOX_POS: &'static str = "### $DOX_POS$";

/// Opens a doxographical item on a sect.
pub const DOX_SEC: &'static str = "### $DOX_SEC$";

/// Opens every biography under a full marker.
pub const BIO: &'static str = "### $BIO_";

/// Opens an event.
pub const EVENT: &'static str = "### @";

/// Opens a list of names, in short.
pub const LIST_NAMES: &'static str = "### $$$$";

/// Opens a list of names, in full.
pub const LIST_NAMES_FULL: &'static str = "### $BIO_NLI$";

/// Opens the biography of a man, in short.
pub const BIO_MAN: &'static str = "### $";

/// Opens the biography of a man, in full.
pub const BIO_MAN_FULL: &'static str = "### $BIO_MAN$";

/// Opens the biography of a woman, in short.
pub const BIO_WOM: &'static str = "### $$";

/// Opens the biography of a woman, in full.
pub const BIO_WOM_FULL: &'static str = "### $BIO_WOM$";

/// Opens a reference to a biography, in short.
pub const BIO_REF: &'static str = "### $$$";

/// Opens a reference to a biography, in full.
pub const BIO_REF_FULL: &'static str = "### $BIO_REF$";

/// Opens an event, in full.
pub const EVENT_FULL: &'static str = "### $CHR_EVE$";

/// Opens a list of events, in short.
pub const LIST_EVENTS: &'static str = "### @ RAW";

/// Opens a list of events, in full.
pub const LIST_EVENTS_FULL: &'static str = "### $CHR_RAW$";

} // verus!
