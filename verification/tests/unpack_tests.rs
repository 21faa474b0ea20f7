use accent_dict::ast::Accent;
use accent_dict::ast::AccentText;
use accent_dict::ast::Audio;
use accent_dict::ast::Body;
use accent_dict::ast::BodyContent;
use accent_dict::ast::DicItem;
use accent_dict::ast::H;
use accent_dict::ast::Head;
use accent_dict::ast::HeadG;
use accent_dict::ast::Id;
use accent_dict::ast::RoundBrackets;
use accent_dict::unpack::accent_round_sound;
use accent_dict::unpack::get_sound_id;
use accent_dict::unpack::unpack_dic_item;

fn accent(text: &str, sound: &str) -> Accent {
    Accent(
        None,
        vec![
            AccentText::Text(text.to_string()),
            AccentText::Sound(sound.to_string()),
        ],
    )
}

fn item_with_accents(accents: Vec<Accent>) -> DicItem {
    DicItem(
        Id("7".to_string()),
        vec![HeadG(
            Head::H(vec![H::Headword("あ".to_string())]),
            Body(vec![BodyContent::Accent(accents)]),
        )],
        vec![],
    )
}

#[test]
fn first_of_two_identical_prons_is_dropped() {
    let item = item_with_accents(vec![accent("ア", "x1"), accent("ア", "x1")]);
    let got = unpack_dic_item(item);
    assert_eq!(got.len(), 1);
    assert_eq!(got[0].pron.len(), 1);
    assert_eq!(got[0].pron[0].accent, "ア");
    assert_eq!(got[0].pron[0].sound_file, "x1");
}

#[test]
fn later_duplicates_are_kept() {
    let item = item_with_accents(vec![
        accent("イ", "y1"),
        accent("ア", "x1"),
        accent("ア", "x1"),
    ]);
    let got = unpack_dic_item(item);
    assert_eq!(got[0].pron.len(), 3);
}

#[test]
fn differing_first_two_prons_are_kept() {
    let item = item_with_accents(vec![accent("ア", "x1"), accent("ア", "x2")]);
    let got = unpack_dic_item(item);
    assert_eq!(got[0].pron.len(), 2);
}

#[test]
fn groups_without_visible_head_are_skipped() {
    let item = DicItem(
        Id("7".to_string()),
        vec![HeadG(Head::Empty, Body(vec![]))],
        vec![],
    );
    assert_eq!(unpack_dic_item(item).len(), 0);
}

#[test]
fn kanji_comes_from_the_last_plain_bracketed_headword() {
    let item = DicItem(
        Id("9".to_string()),
        vec![HeadG(
            Head::H(vec![
                H::Headword("かつらぎ".to_string()),
                H::HW("【葛城】".to_string(), None),
            ]),
            Body(vec![]),
        )],
        vec![],
    );
    let got = unpack_dic_item(item);
    assert_eq!(got[0].kanji.as_deref(), Some("葛城"));
    assert_eq!(got[0].head, "かつらぎ 【葛城】 ");
}

#[test]
fn sound_id_is_the_first_audio_reference() {
    let a = Accent(
        None,
        vec![
            AccentText::Text("ア".to_string()),
            AccentText::Sound("s1".to_string()),
            AccentText::Sound("s2".to_string()),
        ],
    );
    assert_eq!(get_sound_id(&a), Some("s1".to_string()));
    let none = Accent(None, vec![AccentText::Text("ア".to_string())]);
    assert_eq!(get_sound_id(&none), None);
}

#[test]
fn explicit_audio_overrides_inferred() {
    let rb = RoundBrackets(vec![
        AccentText::Text("ア".to_string()),
        AccentText::Sound("inferred".to_string()),
    ]);
    assert_eq!(
        accent_round_sound(&rb, &Some(Audio("explicit".to_string()))),
        Some("explicit".to_string())
    );
    assert_eq!(accent_round_sound(&rb, &None), Some("inferred".to_string()));
}

#[test]
fn projection_shows_circled_round_box() {
    let a = Accent(
        None,
        vec![
            AccentText::Text("オ".to_string()),
            AccentText::RoundBox("シ".to_string()),
            AccentText::SymbolBackslash("＼".to_string()),
        ],
    );
    assert_eq!(a.to_text(), "オ㋛＼");
}

#[test]
fn bracketed_headword_projects_with_inner_runs() {
    let cs: Vec<char> = "<span class=\"hw\">【<span>葛</span>城】</span>".chars().collect();
    let (_rem, (start, inner)) = accent_dict::head::parse_hw(&cs, 0).unwrap();
    let h = H::HW(start, inner);
    assert_eq!(h.to_text(), "【葛城】");
}

#[test]
fn ruby_projects_to_base_text_only() {
    let cs: Vec<char> =
        "<span class=\"hw\">【<ruby><rb>悪</rb><rt>あく</rt></ruby><ruby><rb>辣</rb><rt>らつ</rt></ruby>】</span>"
            .chars()
            .collect();
    let (_rem, (start, inner)) = accent_dict::head::parse_hw(&cs, 0).unwrap();
    let h = H::HW(start, inner);
    assert_eq!(h.to_text(), "【悪辣】");
}

#[test]
fn non_fragment_heads_project_to_the_none_word() {
    assert_eq!(Head::Empty.to_text(), "none");
}
