use accent_dict::gen_svg::gen_svg;
use accent_dict::gen_svg::render_pitch_diagram;

#[test]
fn same_word_renders_identically() {
    let a = gen_svg("きょ＼く");
    let b = gen_svg("きょ＼く");
    assert_eq!(a, b);
}

#[test]
fn document_frame_is_sized_from_the_mora_count() {
    // morae: き, ▔ — two morae, so width is (2 - 1) * 35 + 32
    let doc = gen_svg("き▔");
    assert!(doc.contains("width=\"67\""));
    assert!(doc.contains("height=\"90\""));
    assert!(doc.contains("viewBox=\"0 0 67 90\""));
}

#[test]
fn element_counts_are_stable() {
    let a = gen_svg("ア＼メ");
    let b = gen_svg("ア＼メ");
    assert_eq!(a.matches("<circle").count(), b.matches("<circle").count());
    assert_eq!(a.matches("<path").count(), b.matches("<path").count());
    assert_eq!(a.matches("<text").count(), b.matches("<text").count());
    assert!(a.matches("<circle").count() > 0);
    assert!(a.matches("<path").count() > 0);
    // two spoken morae are drawn
    assert_eq!(a.matches("<text").count(), 2);
}

#[test]
fn each_shape_renders() {
    for word in ["きょく▔", "き＼く", "きく＼", "きく＼と", "き"] {
        let doc = gen_svg(word);
        assert!(doc.starts_with("<svg"));
        assert!(doc.contains("</svg>"));
    }
}

#[test]
fn small_kana_labels_are_split() {
    // きょ is drawn as a primary glyph plus a trailing small glyph
    let doc = gen_svg("きょ＼く");
    assert_eq!(doc.matches("<text").count(), 3);
}

#[test]
fn renderer_declines_what_it_cannot_draw() {
    assert_eq!(render_pitch_diagram(""), None);
    // a mora of nothing but combining marks has no drawable glyph
    assert_eq!(render_pitch_diagram("\u{20dd}\u{20dd}"), None);
    let drawn = render_pitch_diagram("きょ＼く").unwrap();
    assert_eq!(drawn, gen_svg("きょ＼く"));
}
