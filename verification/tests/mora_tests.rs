use accent_dict::mora::str_to_mora;
use accent_dict::mora::split_words;
use accent_dict::mora::classify;
use accent_dict::mora::PitchShape;

#[test]
fn mora() {
    assert_eq!(
        str_to_mora("きく"),
        vec!["き".to_string(), "く".to_string()]
    );
    assert_eq!(
        str_to_mora("キク"),
        vec!["キ".to_string(), "ク".to_string()]
    );
    assert_eq!(
        str_to_mora("㋖ク"),
        vec!["㋖".to_string(), "ク".to_string()]
    );
    assert_eq!(
        str_to_mora("き⃝く"),
        vec!["き⃝".to_string(), "く".to_string()]
    );
    assert_eq!(
        str_to_mora("きょく"),
        vec!["きょ".to_string(), "く".to_string()]
    );
    assert_eq!(
        str_to_mora("キョク"),
        vec!["キョ".to_string(), "ク".to_string()]
    );
}

#[test]
fn small_i_joins_the_preceding_mora() {
    assert_eq!(
        str_to_mora("ティ"),
        vec!["ティ".to_string()]
    );
    assert_eq!(
        str_to_mora("きぃく"),
        vec!["きぃ".to_string(), "く".to_string()]
    );
}

#[test]
fn leading_combining_mark_starts_a_mora() {
    assert_eq!(str_to_mora("ょあ"), vec!["ょ".to_string(), "あ".to_string()]);
    assert_eq!(str_to_mora(""), Vec::<String>::new());
}

#[test]
fn words_split_at_middle_dot() {
    let words = split_words(str_to_mora("ジュ＼ー・ゴ＼ニチ"));
    assert_eq!(
        words,
        vec![
            vec!["ジュ".to_string(), "＼".to_string(), "ー".to_string()],
            vec![
                "ゴ".to_string(),
                "＼".to_string(),
                "ニ".to_string(),
                "チ".to_string()
            ],
        ]
    );
}

#[test]
fn word_without_dot_stays_whole() {
    let words = split_words(str_to_mora("きょく"));
    assert_eq!(words, vec![vec!["きょ".to_string(), "く".to_string()]]);
}

#[test]
fn classify_priority() {
    assert_eq!(classify(&str_to_mora("きょく▔")), PitchShape::Heiban);
    assert_eq!(classify(&str_to_mora("き＼く")), PitchShape::Atamadaka);
    assert_eq!(classify(&str_to_mora("きく＼")), PitchShape::Odaka);
    assert_eq!(classify(&str_to_mora("きく＼と")), PitchShape::Nakadaka);
    // the single-marker edge: a lone drop marker is odaka, not atamadaka
    assert_eq!(classify(&str_to_mora("＼")), PitchShape::Odaka);
    // unmarked words fall through to nakadaka
    assert_eq!(classify(&str_to_mora("きく")), PitchShape::Nakadaka);
}
