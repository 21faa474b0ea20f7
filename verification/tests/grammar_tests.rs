use accent_dict::accent::parse_accent_round;
use accent_dict::accent::parse_accent_text;
use accent_dict::accent::parse_round_brackets2;
use accent_dict::ast::AccentText;
use accent_dict::body::parse_bodyref;
use accent_dict::body::parse_ref;
use accent_dict::entry::parse_head_g;
use accent_dict::entry::parse_page_head;
use accent_dict::entry::parse_xml;
use accent_dict::error::Error;
use accent_dict::head::parse_dic_head;
use accent_dict::head::parse_hw;
use accent_dict::josushi::parse_josuhi;
use accent_dict::rules::parse_ruby;
use accent_dict::rules::parse_sound;
use accent_dict::rules::parse_symbol_macron;
use accent_dict::xml::kanji;
use accent_dict::xml::ref_text;
use accent_dict::xml::xml_tag;
use accent_dict::xml::attr_of;

fn chars(s: &str) -> Vec<char> {
    s.chars().collect()
}

fn text_of(v: &[char]) -> String {
    v.iter().collect()
}

#[test]
fn head() {
    let s = "<head><meta http-equiv=\"Content-Type\" content=\"text/html;charset=utf-8\"/><meta name=\"viewport\" content=\"width=device-width, initial-scale = 1.0, user-scalable = yes, minimum-scale=0.333, maximum-scale=3.0\"/><link rel=\"stylesheet\" href=\"nhk_accent.css\" media=\"all\"/></head>";
    let cs = chars(s);
    let rem = parse_page_head(&cs, 0).unwrap();
    assert!(rem == cs.len());
}

#[test]
fn sound() {
    let s = "<span class=\"sound\"><a href=\"20170630130152.aac\"><img alt=\"音声\" src=\"HMDicAudio.png\"/></a></span>";
    let cs = chars(s);
    let (rem, sound) = parse_sound(&cs, 0).unwrap();
    assert!(rem == cs.len());
    assert_eq!(text_of(&sound), "20170630130152.aac")
}

#[test]
fn symbol_macron() {
    let s = "<span class=\"symbol_macron\">▔</span>";
    let cs = chars(s);
    let (rem, _) = parse_symbol_macron(&cs, 0).unwrap();
    assert!(rem == cs.len());
}

#[test]
fn accent() {
    let s = "<span class=\"accent_text\"><span class=\"symbol_macron\">▔</span><span class=\"sound\"><a href=\"20170630130152.aac\"><img alt=\"音声\" src=\"HMDicAudio.png\"/></a></span></span>";
    let cs = chars(s);
    let (_rem, _acc) = parse_accent_text(&cs, 0).unwrap();
}

#[test]
fn accent2() {
    let s = "<span class=\"accent_text\"><span class=\"symbol_macron\">▔</span><span class=\"sound\"><a href=\"20170630130152.aac\"><img alt=\"音声\" src=\"HMDicAudio.png\"/></a></span></span>";
    let cs = chars(s);
    let (_rem, _acc) = parse_accent_text(&cs, 0).unwrap();
}

#[test]
fn round_brackets2() {
    let s = "<span class=\"round_brackets\">（現在の「オ<span class=\"round_box\">シ</span>フィエ<span class=\"symbol_backslash\">＼</span>ンチム」）</span><span class=\"sound\"><a href=\"20170630141404.aac\"><img alt=\"音声\" src=\"HMDicAudio.png\"/></a></span>";
    let cs = chars(s);
    let (_rem, _r) = parse_round_brackets2(&cs, 0).unwrap();
}

#[test]
fn acccent_round() {
    let s = "<span class=\"accent accent_round\"><span class=\"round_brackets\">（現在の「オ<span class=\"round_box\">シ</span>フィエ<span class=\"symbol_backslash\">＼</span>ンチム」）</span><span class=\"sound\"><a href=\"20170630141404.aac\"><img alt=\"音声\" src=\"HMDicAudio.png\"/></a></span></span>";
    let cs = chars(s);
    let (_rem, _r) = parse_accent_round(&cs, 0).unwrap();
}

#[test]
fn head_g_2() {
    let s = "<span class=\"head-g\"><div class=\"head\"><span class=\"h\"><span class=\"subheadword \"><a name=\"01611-0001\" class=\"anchor\">あぶらげ</a></span><span class=\"d_angle_brackets\">《×油揚》</span></span></div><div class=\"body\"><span class=\"accent\"><span class=\"accent_text\">アブラ<span class=\"symbol_backslash\">＼</span>ケ゚<span class=\"sound\"><a href=\"20170714114529.aac\"><img alt=\"音声\" src=\"HMDicAudio.png\"/></a></span></span></span></div></span></span>";
    let cs = chars(s);
    let (_rem, _res) = parse_head_g(&cs, 0).unwrap();
}

#[test]
fn head_2() {
    let s = "<div class=\"head\"><span class=\"h\"><span class=\"subheadword \"><a name=\"01611-0001\" class=\"anchor\">あぶらげ</a></span><span class=\"d_angle_brackets\">《×油揚》</span></span></div>";
    let cs = chars(s);
    let (_rem, _res) = parse_dic_head(&cs, 0).unwrap();
}

#[test]
fn hw_2() {
    let s = "<span class=\"hw\">【<span>葛</span>城】</span>";
    let cs = chars(s);
    let (_rem, _res) = parse_hw(&cs, 0).unwrap();
}

#[test]
fn kanji_1() {
    let cs = chars("城!");
    kanji(&cs, 0).unwrap();
}

#[test]
fn ref_text_1() {
    let cs = chars("☞クァルテット");
    let (_rem, res) = ref_text(&cs, 0).unwrap();
    assert_eq!(text_of(&res), "☞クァルテット");
}

#[test]
fn ref_text_2() {
    let cs = chars("棟［ムネ］");
    let (_rem, res) = ref_text(&cs, 0).unwrap();
    assert_eq!(text_of(&res), "棟［ムネ］");
}

#[test]
fn ref_2() {
    let s = "<a href=\"55030\"><text>☞</text>ばぬし</a></span></div></span></span></body></html>\n";
    let cs = chars(s);
    parse_ref(&cs, 0).unwrap();
}

#[test]
fn ref_3() {
    let s = "<span class=\"ref\"><a href=\"appendix/furoku_02_01.html#furoku_p44\" title=\"Ⅰ\u{3000}複合名詞の発音とアクセント\"><text>☞ 個人名＋肩書きなどのアクセント</text></a></span>";
    let cs = chars(s);
    parse_bodyref(&cs, 0).unwrap();
}

#[test]
fn josushi_1() {
    let s = "<div class=\"josushi\"><span class=\"subheadword josushi\"><a name=\"75733-0001\" class=\"anchor\">1</a></span><span class=\"accent\"><span class=\"accent_text\">イチア<span class=\"symbol_backslash\">＼</span>ール<span class=\"sound\"><a href=\"20180411131924.aac\"><img alt=\"音声\" src=\"HMDicAudio.png\"/></a></span></span></span></div>";
    let cs = chars(s);
    parse_josuhi(&cs, 0).unwrap();
}

#[test]
fn ruby() {
    let s = "<span class=\"hw\">【<ruby><rb>悪</rb><rt>あく</rt></ruby><ruby><rb>辣</rb><rt>らつ</rt></ruby>】</span>";
    let cs = chars(s);
    let (_rem, _res) = parse_hw(&cs, 0).unwrap();
}

#[test]
fn rub2() {
    let s = "<ruby><rb>悪</rb><rt>あく</rt></ruby>";
    let cs = chars(s);
    let (_rem, _res) = parse_ruby(&cs, 0).unwrap();
}

#[test]
fn attr() {
    let s = "h_g=\"aあ\"";
    let cs = chars(s);
    let (rem, (a, b)) = accent_dict::xml::attr(&cs, 0).unwrap();
    assert!(rem == cs.len());
    assert_eq!(text_of(&a), "h_g");
    assert_eq!(text_of(&b), "aあ");
}

#[test]
fn html() {
    let s = "<html class=\"a\" b=\"c_c\">Hello</html>";
    let cs = chars(s);
    let (rem, (attrs, inner)) = xml_tag(&cs, 0, &chars("html")).unwrap();
    assert!(rem == cs.len());
    assert_eq!(text_of(&inner), "Hello");
    assert_eq!(attr_of(&attrs, &chars("class")).map(|v| text_of(v)), Some("a".to_string()));
    assert_eq!(attr_of(&attrs, &chars("b")).map(|v| text_of(v)), Some("c_c".to_string()));
}

#[test]
fn mismatched_close_tag_fails() {
    let cs = chars("<a>hello</b>");
    assert!(xml_tag(&cs, 0, &chars("a")).is_none());
    let balanced = chars("<a>hello</a>");
    assert!(xml_tag(&balanced, 0, &chars("a")).is_some());
}

fn sample_page() -> String {
    let mut page = String::from("<?xml version=\"1.0\" encoding=\"utf-8\"?>\n");
    page.push_str("<html><head><meta charset=\"utf-8\"/></head><body>");
    page.push_str("<span class=\"dic-item\" id=\"123\">");
    page.push_str("<span class=\"head-g\">");
    page.push_str("<div class=\"head\"><span class=\"h\"><span class=\"headword\">あい</span></span></div>");
    page.push_str("<div class=\"body\"><span class=\"accent\"><span class=\"accent_text\">ア<span class=\"symbol_backslash\">＼</span>イ<span class=\"sound\"><a href=\"x1.aac\"><img alt=\"音声\" src=\"a.png\"/></a></span></span></span></div>");
    page.push_str("</span></span></body></html>\n");
    page
}

#[test]
fn whole_page_decodes() {
    let page = sample_page();
    let item = parse_xml(&page).unwrap();
    assert_eq!(item.0 .0, "123");
    assert_eq!(item.1.len(), 1);
    assert_eq!(item.2.len(), 0);
}

#[test]
fn audio_reference_is_kept_without_extension() {
    let page = sample_page();
    let item = parse_xml(&page).unwrap();
    let body = &item.1[0].1;
    match &body.0[0] {
        accent_dict::ast::BodyContent::Accent(accents) => {
            let sound = accents[0]
                .1
                .iter()
                .find_map(|t| match t {
                    AccentText::Sound(s) => Some(s.clone()),
                    _ => None,
                })
                .unwrap();
            assert_eq!(sound, "x1");
        },
        other => panic!("unexpected body content: {other:?}"),
    }
}

#[test]
fn parse_and_project_twice_identically() {
    let page = sample_page();
    let a = parse_xml(&page).unwrap();
    let b = parse_xml(&page).unwrap();
    let ua = accent_dict::unpack::unpack_dic_item(a);
    let ub = accent_dict::unpack::unpack_dic_item(b);
    assert_eq!(ua, ub);
    assert_eq!(ua[0].head, "あい ");
    assert_eq!(ua[0].pron[0].accent, "ア＼イ");
    assert_eq!(ua[0].pron[0].sound_file, "x1");
}

#[test]
fn missing_prefix_is_a_grammar_mismatch() {
    match parse_xml("<html></html>") {
        Err(Error::GrammarMismatch(rem)) => assert_eq!(rem, "<html></html>"),
        other => panic!("expected a grammar mismatch, got {other:?}"),
    }
}

#[test]
fn marker_spans_hold_only_their_glyph() {
    let bad_macron = chars("<span class=\"symbol_macron\">x</span>");
    assert!(parse_symbol_macron(&bad_macron, 0).is_none());
    let bad_backslash = chars("<span class=\"symbol_backslash\">▔</span>");
    assert!(accent_dict::rules::parse_symbol_backslash(&bad_backslash, 0).is_none());
    let good_backslash = chars("<span class=\"symbol_backslash\">＼</span>");
    assert!(accent_dict::rules::parse_symbol_backslash(&good_backslash, 0).is_some());
}

#[test]
fn trailing_garbage_is_a_grammar_mismatch() {
    let mut page = sample_page();
    page.push_str("junk");
    match parse_xml(&page) {
        Err(Error::GrammarMismatch(rem)) => assert_eq!(rem, "\njunk"),
        other => panic!("expected a grammar mismatch, got {other:?}"),
    }
}

#[test]
fn decode_error_carries_the_unconsumed_suffix() {
    let page = sample_page().replace("</html>", "</div>");
    match parse_xml(&page) {
        Err(Error::GrammarMismatch(rem)) => {
            // the whole page after the declaration failed to match
            assert!(page.ends_with(&format!("{rem}")));
            assert!(rem.starts_with("<html>"));
        },
        other => panic!("expected a grammar mismatch, got {other:?}"),
    }
}

#[test]
fn unbalanced_page_is_a_grammar_mismatch() {
    let page = sample_page().replace("</html>", "</div>");
    match parse_xml(&page) {
        Err(Error::GrammarMismatch(_)) => {},
        other => panic!("expected a grammar mismatch, got {other:?}"),
    }
}

fn rich_page() -> String {
    let mut page = String::from("<?xml version=\"1.0\" encoding=\"utf-8\"?>\n");
    page.push_str("<html><head><link rel=\"x\"/></head><body>");
    page.push_str("<span class=\"dic-item\" id=\"77\">");
    // a group with a fragment head and a varied body
    page.push_str("<span class=\"head-g\">");
    page.push_str("<div class=\"head\"><span class=\"h\"><span class=\"headword\">かく</span><span class=\"hw\">【書く】</span></span></div>");
    page.push_str("<div class=\"body\">");
    page.push_str("<span class=\"con_table\"><span class=\"accent\"><span class=\"accent_text\">カ<span class=\"symbol_backslash\">＼</span>ク</span></span></span>");
    page.push_str("<span class=\"square_box\">名</span>");
    page.push_str("<span class=\"ref\"><a href=\"55030\"><text>☞</text>ばぬし</a></span>");
    page.push_str("<span class=\"example\"><span class=\"ex_head\"><a name=\"e1\" class=\"anchor\">例</a></span><span class=\"accent accent_example\">レ<span class=\"symbol_backslash\">＼</span>イ</span></span>");
    page.push_str("</div></span>");
    // a group with a suppressed head and an empty body
    page.push_str("<span class=\"head-g\"><div class=\"head\"/><div class=\"body\"/></span>");
    // a counter-word table with an indented run and a note
    page.push_str("<div class=\"josushi\"><span class=\"subheadword josushi\"><a name=\"75733-0001\" class=\"anchor\">1</a></span>");
    page.push_str("<span class=\"accent\"><span class=\"accent_text\">イチ<span class=\"symbol_macron\">▔</span></span></span>");
    page.push_str("<span class=\"indent\"><span class=\"accent_text\">ニ<span class=\"symbol_macron\">▔</span></span></span>");
    page.push_str("<span class=\"note\"><span class=\"note_num\">1</span>ことば</span>");
    page.push_str("</div>");
    page.push_str("</span></body></html>");
    page
}

#[test]
fn rich_page_decodes() {
    let page = rich_page();
    let item = parse_xml(&page).unwrap();
    assert_eq!(item.0 .0, "77");
    assert_eq!(item.1.len(), 2);
    assert_eq!(item.2.len(), 1);
    // the varied body holds its four blocks in order
    let body = &item.1[0].1 .0;
    assert_eq!(body.len(), 4);
    assert!(matches!(body[0], accent_dict::ast::BodyContent::ConTable(_)));
    assert!(matches!(body[1], accent_dict::ast::BodyContent::SquareBox(_)));
    assert!(matches!(body[2], accent_dict::ast::BodyContent::Ref(..)));
    assert!(matches!(body[3], accent_dict::ast::BodyContent::Example(_)));
    // the suppressed group
    assert!(matches!(item.1[1].0, accent_dict::ast::Head::Empty));
    assert_eq!(item.1[1].1 .0.len(), 0);
    // the counter-word table
    let josushi = &item.2[0];
    assert_eq!(josushi.1.len(), 1);
    assert_eq!(josushi.2.len(), 1);
    let notes = josushi.3.as_ref().unwrap();
    assert_eq!(notes.0.len(), 1);
    assert_eq!(notes.0[0].0.as_ref().unwrap().0, "1");
}

#[test]
fn rich_page_unpacks_with_kanji() {
    let page = rich_page();
    let item = parse_xml(&page).unwrap();
    let got = accent_dict::unpack::unpack_dic_item(item);
    // only the group with a visible head is kept
    assert_eq!(got.len(), 1);
    assert_eq!(got[0].head, "かく 【書く】 ");
    assert_eq!(got[0].kanji.as_deref(), Some("書く"));
    // the conjugation table's accent carries no audio, so no record remains
    assert_eq!(got[0].pron.len(), 0);
}
