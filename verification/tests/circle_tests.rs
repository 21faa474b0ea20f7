use accent_dict::circle::to_circle;

#[test]
fn katakana() {
    assert_eq!(to_circle("アイオキノソルワ"), "㋐㋑㋔㋖㋨㋞㋸㋻")
}

#[test]
fn hiragana() {
    assert_eq!(to_circle("あいおきのそるわ"), "あ⃝い⃝お⃝き⃝の⃝そ⃝る⃝わ⃝")
}

#[test]
fn pi() {
    assert_eq!(to_circle("ピピ"), "㋪ﾟ㋪ﾟ")
}

#[test]
fn voiced_expand_to_base_and_diacritic() {
    assert_eq!(to_circle("ガ"), "㋕ﾞ");
    assert_eq!(to_circle("ポ"), "㋭ﾟ");
}

#[test]
fn unmapped_characters_get_enclosing_circle() {
    assert_eq!(to_circle("x"), "x⃝");
    assert_eq!(to_circle(""), "");
}
