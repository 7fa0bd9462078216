use oimdp_rs::pattern::Pattern;
use oimdp_rs::tokenizer::{
    claim_words, classify_token, find_introducer, group_string, read_marker, read_token,
    split_at_spans, split_keep, Lookahead,
};
use oimdp_rs::{DateType, EntityType, Lexicon, LinePart, PageNumber};

fn chars(s: &str) -> Vec<char> {
    s.chars().collect()
}

fn strings(pieces: &[Vec<char>]) -> Vec<String> {
    pieces.iter().map(|p| p.iter().collect()).collect()
}

fn text(s: &str) -> LinePart {
    LinePart::TextPart { text: s.to_string() }
}

fn entity_text(s: &str, kind: EntityType) -> LinePart {
    LinePart::NamedEntityText { text: s.to_string(), ne_type: kind }
}

fn groups(found: &[Option<&str>]) -> Option<Vec<Option<String>>> {
    Some(found.iter().map(|g| g.map(|s| s.to_string())).collect())
}

fn classify(token: &str, state: Lookahead) -> (Vec<LinePart>, Lookahead) {
    classify_token(&chars(token), &None, &None, &None, state)
}

#[test]
fn pattern_compiles_or_not() {
    assert!(Pattern::compile("a+").is_some());
    assert!(Pattern::compile("(").is_none());
    assert!(Pattern::compile(r"\w{1000}").is_none());
}

#[test]
fn pattern_is_match() {
    let re = Pattern::compile(r"\d+").unwrap();
    assert!(re.is_match(&chars("abc 12")));
    assert!(!re.is_match(&chars("abc")));
    assert!(!re.is_match(&chars("")));
}

#[test]
fn pattern_find_all_counts_characters() {
    let re = Pattern::compile("ب+").unwrap();
    assert_eq!(re.find_all(&chars("aببc ب")), vec![(1, 3), (5, 6)]);
    let re = Pattern::compile("x").unwrap();
    assert_eq!(re.find_all(&chars("é𝄞x€x")), vec![(2, 3), (4, 5)]);
    assert_eq!(re.find_all(&chars("abc")), Vec::<(usize, usize)>::new());
    let re = Pattern::compile("^").unwrap();
    assert_eq!(re.find_all(&chars("éa")), vec![(0, 0)]);
    let re = Pattern::compile("$").unwrap();
    assert_eq!(re.find_all(&chars("éa")), vec![(2, 2)]);
}

#[test]
fn pattern_captures() {
    let re = Pattern::compile("(a)(b)?(c)").unwrap();
    assert_eq!(re.captures(&chars("xac")), groups(&[Some("ac"), Some("a"), None, Some("c")]));
    assert_eq!(re.captures(&chars("xyz")), None);
}

#[test]
fn pattern_remove_matches() {
    let re = Pattern::compile(r"\d+").unwrap();
    let out: String = re.remove_matches(&chars("a1b22c333")).iter().collect();
    assert_eq!(out, "abc");
    let out: String = re.remove_matches(&chars("سنة ١٢ هجرية")).iter().collect();
    assert_eq!(out, "سنة  هجرية");
    let out: String = re.remove_matches(&chars("abc")).iter().collect();
    assert_eq!(out, "abc");
}

#[test]
fn split_keep_keeps_the_matches() {
    let re = Pattern::compile("X").unwrap();
    assert_eq!(
        strings(&split_keep(&re, &chars("aXbXXc"))),
        vec!["a", "X", "b", "X", "X", "c"]
    );
    assert_eq!(strings(&split_keep(&re, &chars("XaX"))), vec!["X", "a", "X"]);
    assert_eq!(strings(&split_keep(&re, &chars("abc"))), vec!["abc"]);
    assert_eq!(strings(&split_keep(&re, &chars(""))), Vec::<String>::new());
    assert_eq!(strings(&split_keep(&re, &chars("X"))), vec!["X"]);
}

#[test]
fn split_keep_on_the_tokens_of_a_line() {
    let lex = Lexicon::new().unwrap();
    assert_eq!(
        strings(&split_keep(lex.tokens(), &chars("وجمع %~% العرب PageV01P002@YB12"))),
        vec!["وجمع ", "%~%", " العرب ", "PageV01P002", "@YB12"]
    );
}

#[test]
fn split_keep_loses_nothing() {
    let lex = Lexicon::new().unwrap();
    for s in [
        "",
        "plain",
        "وجمع %~% العرب PageV01P002@YB12",
        "@SOC02@T01@P12",
        "  a  @MATN@  b  ",
        "x @USER@CAT_SUBCAT_SUBSUBCAT@ y @RES@TYPE@Category@-@fr@ z",
    ] {
        let pieces = split_keep(lex.tokens(), &chars(s));
        assert_eq!(strings(&pieces).concat(), s);
        assert!(pieces.iter().all(|p| !p.is_empty()));
    }
}

#[test]
fn split_at_given_spans() {
    assert_eq!(
        strings(&split_at_spans(&chars("hello"), &vec![(1, 2), (2, 4)])),
        vec!["h", "e", "ll", "o"]
    );
    assert_eq!(strings(&split_at_spans(&chars("hello"), &vec![(0, 5)])), vec!["hello"]);
    assert_eq!(strings(&split_at_spans(&chars("hello"), &vec![(2, 2)])), vec!["he", "", "llo"]);
    assert_eq!(strings(&split_at_spans(&chars("hello"), &vec![])), vec!["hello"]);
}

#[test]
fn group_string_of_missing_group_is_empty() {
    let found = groups(&[Some("ab"), Some("a"), None]).unwrap();
    assert_eq!(group_string(&found, 1), "a");
    assert_eq!(group_string(&found, 2), "");
    assert_eq!(group_string(&found, 3), "");
}

#[test]
fn claim_words_shares_out_the_words() {
    assert_eq!(
        claim_words(&chars("a b c"), 2, EntityType::Soc),
        vec![entity_text("c b", EntityType::Soc), text("a")]
    );
    assert_eq!(
        claim_words(&chars("a b c"), 1, EntityType::Top),
        vec![entity_text("c", EntityType::Top), text("b a")]
    );
    assert_eq!(
        claim_words(&chars("a b c"), 3, EntityType::Per),
        vec![entity_text("c b a", EntityType::Per)]
    );
    assert_eq!(
        claim_words(&chars("a b c"), 9, EntityType::Src),
        vec![entity_text("c b a", EntityType::Src)]
    );
    assert_eq!(
        claim_words(&chars("word"), 1, EntityType::Src),
        vec![entity_text("word", EntityType::Src)]
    );
}

#[test]
fn claim_words_counts_empty_words() {
    assert_eq!(
        claim_words(&chars("a  b"), 2, EntityType::Soc),
        vec![entity_text("b", EntityType::Soc), text("a")]
    );
    assert_eq!(
        claim_words(&chars("a  b"), 1, EntityType::Soc),
        vec![entity_text("b", EntityType::Soc), text("a")]
    );
    assert_eq!(
        claim_words(&chars("a\tb c"), 1, EntityType::Soc),
        vec![entity_text("c", EntityType::Soc), text("a\tb")]
    );
}

#[test]
fn classify_page_number_with_given_groups() {
    let found = groups(&[Some("PageV1P2"), Some("1"), Some("2")]);
    assert_eq!(
        classify_token(&chars("PageV1P2"), &found, &None, &None, Lookahead::Idle),
        (
            vec![LinePart::PageNumber(PageNumber { vol: "1".to_string(), page: "2".to_string() })],
            Lookahead::Idle
        )
    );
    assert_eq!(classify("PageV1P2", Lookahead::Idle), (vec![], Lookahead::Idle));
    let waiting = Lookahead::Awaiting { count: 2, kind: EntityType::Per };
    assert_eq!(classify("PageV1P2", waiting), (vec![], waiting));
}

#[test]
fn classify_page_before_open_tag() {
    let page = groups(&[Some("PageV1P2"), Some("1"), Some("2")]);
    let user = groups(&[Some("@a@b_c@"), Some("a"), Some("b"), Some("c"), None, None]);
    let (parts, _) =
        classify_token(&chars("@a@b_c@PageV1P2"), &page, &user, &None, Lookahead::Idle);
    assert!(parts[0].is_page_number());
}

#[test]
fn classify_user_tag_before_auto_tag() {
    let user = groups(&[Some("@a@b_c_d@"), Some("a"), Some("b"), Some("c"), Some("_d"), Some("d")]);
    let auto = groups(&[Some("@AAA@BBB@c@"), Some("AAA"), Some("BBB"), Some("c"), None, None]);
    let (parts, state) = classify_token(&chars("@a@b_c_d@"), &None, &user, &auto, Lookahead::Idle);
    assert_eq!(
        parts,
        vec![LinePart::OpenTagUser {
            user: "a".to_string(),
            t_type: "b".to_string(),
            t_subtype: "c".to_string(),
            t_subsubtype: "d".to_string(),
        }]
    );
    assert_eq!(state, Lookahead::Idle);
    let (parts, _) = classify_token(&chars("@a@b_c_d@"), &None, &None, &auto, Lookahead::Idle);
    assert_eq!(
        parts,
        vec![LinePart::OpenTagAuto {
            resp: "AAA".to_string(),
            t_type: "BBB".to_string(),
            category: "c".to_string(),
            review: String::new(),
        }]
    );
}

#[test]
fn classify_phrase_markers_and_dates() {
    let idle = Lookahead::Idle;
    assert_eq!(classify("%~%", idle).0, vec![LinePart::Hemistich { orig: "%~%".to_string() }]);
    assert_eq!(
        classify("a %~% b", idle).0,
        vec![LinePart::Hemistich { orig: "a %~% b".to_string() }]
    );
    assert_eq!(classify("Milestone300", idle).0, vec![LinePart::Milestone]);
    assert_eq!(classify("@MATN@", idle).0, vec![LinePart::Matn]);
    assert_eq!(classify("@HUKM@", idle).0, vec![LinePart::Hukm]);
    assert_eq!(classify("#$#FROM", idle).0, vec![LinePart::RouteFrom]);
    assert_eq!(classify("#$#TOWA", idle).0, vec![LinePart::RouteTowa]);
    assert_eq!(classify("#$#DIST", idle).0, vec![LinePart::RouteDist]);
    assert_eq!(
        classify("@YB0310", idle).0,
        vec![LinePart::Date { value: "0310".to_string(), date_type: DateType::Birth }]
    );
    assert_eq!(
        classify("@YD1", idle).0,
        vec![LinePart::Date { value: "1".to_string(), date_type: DateType::Death }]
    );
    assert_eq!(
        classify("@YY22", idle).0,
        vec![LinePart::Date { value: "22".to_string(), date_type: DateType::Other }]
    );
    assert_eq!(classify("@YA070", idle).0, vec![LinePart::Age { value: "070".to_string() }]);
    assert_eq!(
        classify("x@YB1", idle).0,
        vec![LinePart::Date { value: "x@YB1".to_string(), date_type: DateType::Birth }]
    );
    assert_eq!(
        classify("@YB@YB1", idle).0,
        vec![LinePart::Date { value: "1".to_string(), date_type: DateType::Birth }]
    );
}

#[test]
fn classify_markers_leave_a_claim() {
    let (parts, state) = classify("@SOC02", Lookahead::Idle);
    assert_eq!(
        parts,
        vec![LinePart::NamedEntity { prefix: 0, extent: 2, ne_type: EntityType::Soc }]
    );
    assert_eq!(state, Lookahead::Awaiting { count: 2, kind: EntityType::Soc });
    let (parts, state) = classify("@SRC91", Lookahead::Awaiting { count: 5, kind: EntityType::Per });
    assert_eq!(
        parts,
        vec![LinePart::NamedEntity { prefix: 9, extent: 1, ne_type: EntityType::Src }]
    );
    assert_eq!(state, Lookahead::Awaiting { count: 1, kind: EntityType::Src });
}

#[test]
fn classify_malformed_markers_are_dropped() {
    let waiting = Lookahead::Awaiting { count: 1, kind: EntityType::Per };
    for token in ["@SOC", "@SOC5", "@SOCxy", "@S1x", "@T", "@PER٣٤", "@P 12", "x@SRC12"] {
        assert_eq!(classify(token, waiting), (vec![], waiting), "{}", token);
    }
}

#[test]
fn classify_free_text() {
    assert_eq!(classify("one two", Lookahead::Idle), (vec![text("one two")], Lookahead::Idle));
    let none_wanted = Lookahead::Awaiting { count: 0, kind: EntityType::Top };
    assert_eq!(classify("one two", none_wanted), (vec![text("one two")], none_wanted));
    assert_eq!(
        classify("one two", Lookahead::Awaiting { count: 1, kind: EntityType::Top }),
        (vec![entity_text("two", EntityType::Top), text("one")], Lookahead::Idle)
    );
}

#[test]
fn introducers_longest_first() {
    assert_eq!(find_introducer(&chars("@SOC02")), Some(("@SOC", EntityType::Soc)));
    assert_eq!(find_introducer(&chars("@S02")), Some(("@S", EntityType::Soc)));
    assert_eq!(find_introducer(&chars("@SRC02")), Some(("@SRC", EntityType::Src)));
    assert_eq!(find_introducer(&chars("@TOP02")), Some(("@TOP", EntityType::Top)));
    assert_eq!(find_introducer(&chars("@T02")), Some(("@T", EntityType::Top)));
    assert_eq!(find_introducer(&chars("@PER02")), Some(("@PER", EntityType::Per)));
    assert_eq!(find_introducer(&chars("@P02")), Some(("@P", EntityType::Per)));
    assert_eq!(find_introducer(&chars("@X02")), None);
    assert_eq!(find_introducer(&chars("x@SOC02")), None);
    assert_eq!(find_introducer(&chars("x@SRC02")), Some(("@SRC", EntityType::Src)));
}

#[test]
fn read_marker_takes_repeated_introducers_off() {
    assert_eq!(
        read_marker(&chars("@S@S47"), "@S", EntityType::Soc, Lookahead::Idle),
        (
            vec![LinePart::NamedEntity { prefix: 4, extent: 7, ne_type: EntityType::Soc }],
            Lookahead::Awaiting { count: 7, kind: EntityType::Soc }
        )
    );
}

#[test]
fn read_token_trims_and_searches() {
    let lex = Lexicon::new().unwrap();
    assert_eq!(read_token(&lex, &chars("   "), Lookahead::Idle), (vec![], Lookahead::Idle));
    assert_eq!(
        read_token(&lex, &chars("  one two "), Lookahead::Idle),
        (vec![text("one two")], Lookahead::Idle)
    );
    assert_eq!(
        read_token(&lex, &chars(" PageV12P345 "), Lookahead::Idle),
        (
            vec![LinePart::PageNumber(PageNumber {
                vol: "12".to_string(),
                page: "345".to_string()
            })],
            Lookahead::Idle
        )
    );
    assert_eq!(
        read_token(&lex, &chars("@RES@TYPE@Category@-@0l@"), Lookahead::Idle).0,
        vec![LinePart::OpenTagAuto {
            resp: "RES".to_string(),
            t_type: "TYPE".to_string(),
            category: "Category".to_string(),
            review: "0l".to_string(),
        }]
    );
}
