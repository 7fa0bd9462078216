use oimdp_rs::{parser, Content, Document, Line, LinePart};

/// A document with every kind of line. The comment after each group of lines
/// gives the positions in the content of the items that the group makes.
fn sample_text() -> String {
    let mut lines: Vec<String> = Vec::new();
    lines.push("######OpenITI#".to_string());
    lines.push("".to_string());
    lines.push("#META# 000.BookTITLE\t:: السيرة النبوية".to_string());
    lines.push("#META# 000.SortField\t:: Shamela_0023833".to_string());
    for n in 0..30 {
        lines.push(format!("#META# {:03}.Field{}\t:: value {}", n + 1, n, n));
    }
    lines.push("#META# 999.MiscINFO\t:: NODATA".to_string());
    lines.push("#META#Header#End#".to_string());
    lines.push("".to_string());
    // 0
    lines.push("### | مقدمة التحقيق".to_string());
    // 1 to 40: twenty paragraphs, each a paragraph and its line
    for n in 0..20 {
        lines.push(format!("# فقرة رقم {} من المقدمة", n + 1));
    }
    // 41
    lines.push("PageV01P001".to_string());
    // 42
    lines.push("~~ تتمة الكلام في السطر التالي".to_string());
    // 43
    lines.push("### |EDITOR|".to_string());
    // dropped: no kind of line
    lines.push("نص بلا علامة".to_string());
    // dropped: a page tag without numbers
    lines.push("PageVxxPyy".to_string());
    // 44
    lines.push("### || الباب الأول".to_string());
    // 45
    lines.push("#~:category:".to_string());
    // 46, 47
    lines.push(
        "# $RWY$ this section contains isnād @MATN@ this section contains matn @HUKM@ this section contains ḥukm"
            .to_string(),
    );
    // 48
    lines.push("PageV01P002".to_string());
    // 49
    lines.push("#$#FROM fromtoponym #$#TOWA totoponym #$#DIST distance_as_recorded".to_string());
    // 50
    lines.push(
        "### | ذكر سرد النسب الزكي من محمد صلى الله عليه وآله وسلم، إلى آدم عليه السلام"
            .to_string(),
    );
    // 51, 52
    lines.push("# قال ابن هشام".to_string());
    // 53
    lines.push("PageV01P003".to_string());
    // 54
    lines.push("### ||||| (نهج ابن هشام في هذا الكتاب) :".to_string());
    // 55
    lines.push(
        "# وجمع العرب تحت لواء الرسول محمد عليه الصلاة %~% والسلام، وما يضاف إلى ذلك من"
            .to_string(),
    );
    // 56, 57
    lines.push("### $DIC_NIS$ نسبة إلى واسط".to_string());
    // 58, 59
    lines.push("### $DOX_SEC$ قسم في العقائد".to_string());
    // 60, 61
    lines.push("### $BIO_MAN$ ترجمة رجل".to_string());
    // 62
    lines.push("### |EDITOR|".to_string());
    // 63
    lines.push("~~ أخبرنا @SOC02 نزيل: 1\"018: واسط.. شيخ: معمر".to_string());
    // 64, 65
    lines.push("### $BIO_WOM$ ترجمة امرأة".to_string());
    // 66, 67
    lines.push("### @ حادثة في سنة @YY597".to_string());
    // 68
    lines.push("~~ولد سنة @YB0310 وتوفي سنة @YD0380 وله @YA070 سنة".to_string());
    // 69
    lines.push("~~ نزل @T02 مدينة السلام ثم @P01 المنصور".to_string());
    // 70
    lines.push("~~ Milestone300 PageV02P004".to_string());
    // 71
    lines.push("~~ text before @USER@CAT_SUBCAT_SUBSUBCAT@ text after".to_string());
    // 72
    lines.push("### ||| فصل".to_string());
    // 73
    lines.push("~~ text before @RES@TYPE@Category@-@fr@ text after".to_string());
    // 74, 75
    lines.push("### $DIC_LEX$ مادة لغوية".to_string());
    lines.join("\n")
}

fn parsed() -> Document {
    parser(sample_text()).unwrap()
}

#[test]
fn heading_five() {
    let doc = parsed();
    let content = &doc.content;

    assert_eq!(
        content[54].as_section_header().unwrap(),
        (&"(نهج ابن هشام في هذا الكتاب) :".to_string(), &5u32)
    );
}

#[test]
fn heading_one() {
    let doc = parsed();
    let content = &doc.content;

    assert_eq!(
        content[50].as_section_header().unwrap(),
        (
            &"ذكر سرد النسب الزكي من محمد صلى الله عليه وآله وسلم، إلى آدم عليه السلام"
                .to_string(),
            &1u32
        )
    );
}

#[test]
fn isnad_matn() {
    let doc = parsed();
    let content = &doc.content;

    if let Content::Line(Line {
        text_only: _,
        parts,
        line_type,
    }) = &content[47]
    {
        assert!(line_type.is_normal());
        assert!(parts[0].is_isnad());

        assert_eq!(
            parts[1].as_text_part().unwrap(),
            "this section contains isnād"
        );
    } else {
        panic!("Not a Line");
    }
}

#[test]
fn metadata() {
    let text_parsed = parsed();
    let simple_metadata = &text_parsed.simple_metadata;

    assert_eq!(simple_metadata.len(), 33);
    assert_eq!(simple_metadata[1], "000.SortField	:: Shamela_0023833");
    assert_eq!(
        simple_metadata[simple_metadata.len() - 1],
        "999.MiscINFO	:: NODATA"
    );
}

#[test]
fn named_entity_soc() {
    let doc = parsed();
    let content = &doc.content;

    if let Content::Line(Line {
        text_only: _,
        parts,
        line_type,
    }) = &content[63]
    {
        assert!(line_type.is_normal());

        if let LinePart::NamedEntity {
            prefix,
            extent,
            ne_type,
        } = &parts[1]
        {
            assert_eq!(*prefix, 0);
            assert_eq!(*extent, 2);
            assert!(ne_type.is_soc());
        } else {
            panic!("Not a NamedEntity");
        }

        if let LinePart::NamedEntityText { text, ne_type } = &parts[2] {
            assert_eq!(text, "معمر شيخ:");
            assert!(ne_type.is_soc());
        } else {
            panic!("Not NamedEntityText");
        }

        assert_eq!(parts[3].as_text_part().unwrap(), r#"واسط.. 1"018: نزيل:"#);
    } else {
        panic!("Not a Line");
    }
}

#[test]
fn open_tag_auto() {
    let doc = parsed();
    let content = &doc.content;

    if let Content::Line(Line {
        text_only: _,
        parts,
        line_type,
    }) = &content[73]
    {
        assert!(line_type.is_normal());

        assert_eq!(
            parts[1].as_open_tag_auto().unwrap(),
            (
                &"RES".to_string(),
                &"TYPE".to_string(),
                &"Category".to_string(),
                &"fr".to_string()
            )
        );
    } else {
        panic!("Not a Line");
    }
}

#[test]
fn open_tag_user() {
    let doc = parsed();
    let content = &doc.content;

    if let Content::Line(Line {
        text_only: _,
        parts,
        line_type,
    }) = &content[71]
    {
        assert!(line_type.is_normal());

        assert_eq!(
            parts[1].as_open_tag_user().unwrap(),
            (
                &"USER".to_string(),
                &"CAT".to_string(),
                &"SUBCAT".to_string(),
                &"SUBSUBCAT".to_string()
            )
        );
    } else {
        panic!("Not a Line");
    }
}

#[test]
fn poetry() {
    let doc = parsed();
    let content = &doc.content;

    if let Content::Line(Line {
        text_only: _,
        parts,
        line_type,
    }) = &content[55]
    {
        assert!(line_type.is_verse());

        assert_eq!(
            parts[0].as_text_part().unwrap(),
            "وجمع العرب تحت لواء الرسول محمد عليه الصلاة"
        );

        assert_eq!(parts[1].as_hemistich().unwrap(), "%~%");

        assert_eq!(
            parts[2].as_text_part().unwrap(),
            "والسلام، وما يضاف إلى ذلك من"
        );
    } else {
        panic!("Not a Line");
    }
}

#[test]
fn riwayat() {
    let doc = parsed();
    let content = &doc.content;

    if let Content::Paragraph { orig: _, para_type } = &content[46] {
        assert!(para_type.is_riwayat());
    } else {
        panic!("Not a Paragraph");
    }
}

#[test]
fn route_or_distance() {
    let doc = parsed();
    let content = &doc.content;

    if let Content::Line(Line {
        text_only: _,
        parts,
        line_type,
    }) = &content[49]
    {
        assert!(line_type.is_route_or_distance());
        assert!(parts[0].is_route_from());
        assert!(parts[2].is_route_towa());

        assert_eq!(parts[5].as_text_part().unwrap(), "distance_as_recorded");
    } else {
        panic!("Not a Line");
    }
}

#[test]
fn long_document() {
    let mut text = String::from("######OpenITI#\n");
    for n in 0..3000 {
        text.push_str(&format!("#META# {:04}.Field :: value {}\n", n, n));
    }
    for n in 0..3000 {
        text.push_str(&format!("### || باب {}\n", n));
        text.push_str(&format!("# فقرة {} @SOC02 نزيل واسط PageV01P{:04} @YD0380 تتمة\n", n, n));
        text.push_str("~~ وجمع العرب %~% تحت لواء الرسول\n");
    }
    let doc = parser(text).unwrap();
    assert_eq!(doc.simple_metadata.len(), 3000);
    assert_eq!(doc.simple_metadata[2999], "2999.Field :: value 2999");
    assert_eq!(doc.content.len(), 4 * 3000);
    let line = doc.content[11998].as_line().unwrap();
    assert_eq!(line.parts.len(), 6);
    assert_eq!(
        line.parts[2],
        LinePart::NamedEntityText {
            text: "واسط نزيل".to_string(),
            ne_type: oimdp_rs::EntityType::Soc
        }
    );
    assert_eq!(
        line.parts[3],
        LinePart::PageNumber(oimdp_rs::PageNumber {
            vol: "01".to_string(),
            page: "2999".to_string()
        })
    );
}

#[test]
fn sample_has_all_its_items() {
    let doc = parsed();
    assert_eq!(doc.magic_value, "######OpenITI#");
    assert_eq!(doc.content.len(), 76);
    assert!(doc.content[0].is_section_header());
    assert!(doc.content[41].is_page_number());
    assert!(doc.content[43].is_editorial());
    assert_eq!(
        doc.content[45].as_morphological_pattern().unwrap(),
        (&"#~:category:".to_string(), &"category".to_string())
    );
    assert!(doc.content[56].as_dictionary_unit().unwrap().1.is_nis());
    assert!(doc.content[58].as_doxographical_item().unwrap().1.is_sec());
    assert!(doc.content[60].as_bio_or_event().unwrap().1.is_man());
    assert!(doc.content[64].as_bio_or_event().unwrap().1.is_wom());
    assert!(doc.content[66].as_bio_or_event().unwrap().1.is_event());
    assert!(doc.content[74].as_dictionary_unit().unwrap().1.is_lex());
}
