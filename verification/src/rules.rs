//! The leaf rules of the entry grammar: single role-tagged text spans,
//! anchors, audio links, ruby pairs, and void tags.
//!
//! Each rule has a specification twin over `Seq<char>`; the executable rule
//! is proved to return exactly what the twin describes (`res_of`).
use vstd::prelude::*;

use crate::ast::Name;
use crate::ast::Rb;
use crate::ast::Rt;
use crate::ast::Ruby;
use crate::strutil::chars_to_string;
use crate::strutil::str_to_chars;
use crate::xml::attrs_view;
use crate::xml::res_of;
use crate::xml::spec_attr_of;
use crate::xml::spec_class_ok;
use crate::xml::spec_class_text;
use crate::xml::spec_close_tag;
use crate::xml::spec_empty_tag;
use crate::xml::spec_open_tag;
use crate::xml::spec_text_run;
use crate::xml::class_ok;
use crate::xml::class_text;
use crate::xml::close_tag;
use crate::xml::empty_xml_tag;
use crate::xml::open_tag;
use crate::xml::text_run;
use crate::xml::attr_of;

verus! {

/// Plain headword text: `<span class="headword">`.
pub open spec fn spec_parse_headword(s: Seq<char>, pos: int) -> Option<(int, Seq<char>)> {
    spec_class_text(s, pos, "span"@, "headword"@)
}

pub fn parse_headword(s: &[char], pos: usize) -> (r: Option<(usize, Vec<char>)>)
    requires
        pos <= s@.len(),
    ensures
        res_of(r, spec_parse_headword(s@, pos as int), pos as int, s@.len() as int),
{
    let tag = str_to_chars("span");
    let cls = str_to_chars("headword");
    class_text(s, pos, tag.as_slice(), cls.as_slice())
}

/// Double-angle-bracketed text: `<span class="d_angle_brackets">`.
pub open spec fn spec_parse_d_angle_brackets(s: Seq<char>, pos: int) -> Option<(int, Seq<char>)> {
    spec_class_text(s, pos, "span"@, "d_angle_brackets"@)
}

pub fn parse_d_angle_brackets(s: &[char], pos: usize) -> (r: Option<(usize, Vec<char>)>)
    requires
        pos <= s@.len(),
    ensures
        res_of(r, spec_parse_d_angle_brackets(s@, pos as int), pos as int, s@.len() as int),
{
    let tag = str_to_chars("span");
    let cls = str_to_chars("d_angle_brackets");
    class_text(s, pos, tag.as_slice(), cls.as_slice())
}

/// Angle-bracketed text: `<span class="angle_brackets">`.
pub open spec fn spec_parse_angle_brackets(s: Seq<char>, pos: int) -> Option<(int, Seq<char>)> {
    spec_class_text(s, pos, "span"@, "angle_brackets"@)
}

pub fn parse_angle_brackets(s: &[char], pos: usize) -> (r: Option<(usize, Vec<char>)>)
    requires
        pos <= s@.len(),
    ensures
        res_of(r, spec_parse_angle_brackets(s@, pos as int), pos as int, s@.len() as int),
{
    let tag = str_to_chars("span");
    let cls = str_to_chars("angle_brackets");
    class_text(s, pos, tag.as_slice(), cls.as_slice())
}

/// A "dia" marker fragment: `<span class="dia">`.
pub open spec fn spec_parse_dia(s: Seq<char>, pos: int) -> Option<(int, Seq<char>)> {
    spec_class_text(s, pos, "span"@, "dia"@)
}

pub fn parse_dia(s: &[char], pos: usize) -> (r: Option<(usize, Vec<char>)>)
    requires
        pos <= s@.len(),
    ensures
        res_of(r, spec_parse_dia(s@, pos as int), pos as int, s@.len() as int),
{
    let tag = str_to_chars("span");
    let cls = str_to_chars("dia");
    class_text(s, pos, tag.as_slice(), cls.as_slice())
}

/// Square-bracketed aside: `<span class="square_brackets">`.
pub open spec fn spec_parse_square_brackets(s: Seq<char>, pos: int) -> Option<(int, Seq<char>)> {
    spec_class_text(s, pos, "span"@, "square_brackets"@)
}

pub fn parse_square_brackets(s: &[char], pos: usize) -> (r: Option<(usize, Vec<char>)>)
    requires
        pos <= s@.len(),
    ensures
        res_of(r, spec_parse_square_brackets(s@, pos as int), pos as int, s@.len() as int),
{
    let tag = str_to_chars("span");
    let cls = str_to_chars("square_brackets");
    class_text(s, pos, tag.as_slice(), cls.as_slice())
}

/// A square "box" label: `<span class="square_box">`.
pub open spec fn spec_parse_square_box(s: Seq<char>, pos: int) -> Option<(int, Seq<char>)> {
    spec_class_text(s, pos, "span"@, "square_box"@)
}

pub fn parse_square_box(s: &[char], pos: usize) -> (r: Option<(usize, Vec<char>)>)
    requires
        pos <= s@.len(),
    ensures
        res_of(r, spec_parse_square_box(s@, pos as int), pos as int, s@.len() as int),
{
    let tag = str_to_chars("span");
    let cls = str_to_chars("square_box");
    class_text(s, pos, tag.as_slice(), cls.as_slice())
}

/// Round-bracketed aside: `<span class="round_brackets">`.
pub open spec fn spec_parse_round_brackets(s: Seq<char>, pos: int) -> Option<(int, Seq<char>)> {
    spec_class_text(s, pos, "span"@, "round_brackets"@)
}

pub fn parse_round_brackets(s: &[char], pos: usize) -> (r: Option<(usize, Vec<char>)>)
    requires
        pos <= s@.len(),
    ensures
        res_of(r, spec_parse_round_brackets(s@, pos as int), pos as int, s@.len() as int),
{
    let tag = str_to_chars("span");
    let cls = str_to_chars("round_brackets");
    class_text(s, pos, tag.as_slice(), cls.as_slice())
}

/// A cross-reference headword: `<span class="refheadword">`.
pub open spec fn spec_parse_refheadword(s: Seq<char>, pos: int) -> Option<(int, Seq<char>)> {
    spec_class_text(s, pos, "span"@, "refheadword"@)
}

pub fn parse_refheadword(s: &[char], pos: usize) -> (r: Option<(usize, Vec<char>)>)
    requires
        pos <= s@.len(),
    ensures
        res_of(r, spec_parse_refheadword(s@, pos as int), pos as int, s@.len() as int),
{
    let tag = str_to_chars("span");
    let cls = str_to_chars("refheadword");
    class_text(s, pos, tag.as_slice(), cls.as_slice())
}

/// A footnote reference: `<span class="note_ref">`.
pub open spec fn spec_parse_note_ref(s: Seq<char>, pos: int) -> Option<(int, Seq<char>)> {
    spec_class_text(s, pos, "span"@, "note_ref"@)
}

pub fn parse_note_ref(s: &[char], pos: usize) -> (r: Option<(usize, Vec<char>)>)
    requires
        pos <= s@.len(),
    ensures
        res_of(r, spec_parse_note_ref(s@, pos as int), pos as int, s@.len() as int),
{
    let tag = str_to_chars("span");
    let cls = str_to_chars("note_ref");
    class_text(s, pos, tag.as_slice(), cls.as_slice())
}

/// The pitch-rise marker span: `<span class="symbol_macron">`, whose
/// content must be exactly the rise marker glyph.
pub open spec fn spec_parse_symbol_macron(s: Seq<char>, pos: int) -> Option<(int, Seq<char>)> {
    match spec_class_text(s, pos, "span"@, "symbol_macron"@) {
        Some((e, v)) => if v == seq!['▔'] {
            Some((e, v))
        } else {
            None
        },
        None => None,
    }
}

pub fn parse_symbol_macron(s: &[char], pos: usize) -> (r: Option<(usize, Vec<char>)>)
    requires
        pos <= s@.len(),
    ensures
        res_of(r, spec_parse_symbol_macron(s@, pos as int), pos as int, s@.len() as int),
{
    let tag = str_to_chars("span");
    let cls = str_to_chars("symbol_macron");
    match class_text(s, pos, tag.as_slice(), cls.as_slice()) {
        Some((e, v)) => {
            let glyph = str_to_chars("▔");
            proof {
                reveal_strlit("▔");
                assert(glyph@ =~= seq!['▔']);
            }
            if crate::strutil::chars_eq(v.as_slice(), glyph.as_slice()) {
                Some((e, v))
            } else {
                None
            }
        },
        None => None,
    }
}

/// The pitch-drop marker span: `<span class="symbol_backslash">`, whose
/// content must be exactly the drop marker glyph.
pub open spec fn spec_parse_symbol_backslash(s: Seq<char>, pos: int) -> Option<(int, Seq<char>)> {
    match spec_class_text(s, pos, "span"@, "symbol_backslash"@) {
        Some((e, v)) => if v == seq!['＼'] {
            Some((e, v))
        } else {
            None
        },
        None => None,
    }
}

pub fn parse_symbol_backslash(s: &[char], pos: usize) -> (r: Option<(usize, Vec<char>)>)
    requires
        pos <= s@.len(),
    ensures
        res_of(r, spec_parse_symbol_backslash(s@, pos as int), pos as int, s@.len() as int),
{
    let tag = str_to_chars("span");
    let cls = str_to_chars("symbol_backslash");
    match class_text(s, pos, tag.as_slice(), cls.as_slice()) {
        Some((e, v)) => {
            let glyph = str_to_chars("＼");
            proof {
                reveal_strlit("＼");
                assert(glyph@ =~= seq!['＼']);
            }
            if crate::strutil::chars_eq(v.as_slice(), glyph.as_slice()) {
                Some((e, v))
            } else {
                None
            }
        },
        None => None,
    }
}

/// A "round box"-highlighted kana run: `<span class="round_box">`.
pub open spec fn spec_parse_round_box(s: Seq<char>, pos: int) -> Option<(int, Seq<char>)> {
    spec_class_text(s, pos, "span"@, "round_box"@)
}

pub fn parse_round_box(s: &[char], pos: usize) -> (r: Option<(usize, Vec<char>)>)
    requires
        pos <= s@.len(),
    ensures
        res_of(r, spec_parse_round_box(s@, pos as int), pos as int, s@.len() as int),
{
    let tag = str_to_chars("span");
    let cls = str_to_chars("round_box");
    class_text(s, pos, tag.as_slice(), cls.as_slice())
}

/// A note number: `<span class="note_num">`.
pub open spec fn spec_parse_note_num(s: Seq<char>, pos: int) -> Option<(int, Seq<char>)> {
    spec_class_text(s, pos, "span"@, "note_num"@)
}

pub fn parse_note_num(s: &[char], pos: usize) -> (r: Option<(usize, Vec<char>)>)
    requires
        pos <= s@.len(),
    ensures
        res_of(r, spec_parse_note_num(s@, pos as int), pos as int, s@.len() as int),
{
    let tag = str_to_chars("span");
    let cls = str_to_chars("note_num");
    class_text(s, pos, tag.as_slice(), cls.as_slice())
}

/// A bare span: `<span>` with no attributes at all, holding raw text.
pub open spec fn spec_parse_span(s: Seq<char>, pos: int) -> Option<(int, Seq<char>)> {
    match spec_open_tag(s, pos, "span"@) {
        Some((p1, al)) => match spec_text_run(s, p1) {
            Some((te, v)) => match spec_close_tag(s, te, "span"@) {
                Some(p2) => if al.len() == 0 {
                    Some((p2, v))
                } else {
                    None
                },
                None => None,
            },
            None => None,
        },
        None => None,
    }
}

pub fn parse_span(s: &[char], pos: usize) -> (r: Option<(usize, Vec<char>)>)
    requires
        pos <= s@.len(),
    ensures
        res_of(r, spec_parse_span(s@, pos as int), pos as int, s@.len() as int),
{
    let tag = str_to_chars("span");
    match open_tag(s, pos, tag.as_slice()) {
        Some((p1, al)) => match text_run(s, p1) {
            Some((te, v)) => match close_tag(s, te, tag.as_slice()) {
                Some(p2) => if al.len() == 0 {
                    proof {
                        assert(attrs_view(al).len() == 0);
                    }
                    Some((p2, v))
                } else {
                    proof {
                        assert(attrs_view(al).len() != 0);
                    }
                    None
                },
                None => None,
            },
            None => None,
        },
        None => None,
    }
}

/// A `<text>` wrapper with raw text content; its attributes are ignored.
pub open spec fn spec_parse_text(s: Seq<char>, pos: int) -> Option<(int, Seq<char>)> {
    match spec_open_tag(s, pos, "text"@) {
        Some((p1, _al)) => match spec_text_run(s, p1) {
            Some((te, v)) => match spec_close_tag(s, te, "text"@) {
                Some(p2) => Some((p2, v)),
                None => None,
            },
            None => None,
        },
        None => None,
    }
}

pub fn parse_text(s: &[char], pos: usize) -> (r: Option<(usize, Vec<char>)>)
    requires
        pos <= s@.len(),
    ensures
        res_of(r, spec_parse_text(s@, pos as int), pos as int, s@.len() as int),
{
    let tag = str_to_chars("text");
    match open_tag(s, pos, tag.as_slice()) {
        Some((p1, _al)) => match text_run(s, p1) {
            Some((te, v)) => match close_tag(s, te, tag.as_slice()) {
                Some(p2) => Some((p2, v)),
                None => None,
            },
            None => None,
        },
        None => None,
    }
}

/// The base text of a ruby pair: `<rb>`.
pub open spec fn spec_parse_rb(s: Seq<char>, pos: int) -> Option<(int, Seq<char>)> {
    match spec_open_tag(s, pos, "rb"@) {
        Some((p1, _al)) => match spec_text_run(s, p1) {
            Some((te, v)) => match spec_close_tag(s, te, "rb"@) {
                Some(p2) => Some((p2, v)),
                None => None,
            },
            None => None,
        },
        None => None,
    }
}

fn parse_rb(s: &[char], pos: usize) -> (r: Option<(usize, Vec<char>)>)
    requires
        pos <= s@.len(),
    ensures
        res_of(r, spec_parse_rb(s@, pos as int), pos as int, s@.len() as int),
{
    let tag = str_to_chars("rb");
    match open_tag(s, pos, tag.as_slice()) {
        Some((p1, _al)) => match text_run(s, p1) {
            Some((te, v)) => match close_tag(s, te, tag.as_slice()) {
                Some(p2) => Some((p2, v)),
                None => None,
            },
            None => None,
        },
        None => None,
    }
}

/// The reading of a ruby pair: `<rt>`.
pub open spec fn spec_parse_rt(s: Seq<char>, pos: int) -> Option<(int, Seq<char>)> {
    match spec_open_tag(s, pos, "rt"@) {
        Some((p1, _al)) => match spec_text_run(s, p1) {
            Some((te, v)) => match spec_close_tag(s, te, "rt"@) {
                Some(p2) => Some((p2, v)),
                None => None,
            },
            None => None,
        },
        None => None,
    }
}

fn parse_rt(s: &[char], pos: usize) -> (r: Option<(usize, Vec<char>)>)
    requires
        pos <= s@.len(),
    ensures
        res_of(r, spec_parse_rt(s@, pos as int), pos as int, s@.len() as int),
{
    let tag = str_to_chars("rt");
    match open_tag(s, pos, tag.as_slice()) {
        Some((p1, _al)) => match text_run(s, p1) {
            Some((te, v)) => match close_tag(s, te, tag.as_slice()) {
                Some(p2) => Some((p2, v)),
                None => None,
            },
            None => None,
        },
        None => None,
    }
}

/// One ruby annotation: `<ruby><rb>..</rb><rt>..</rt></ruby>`.
pub open spec fn spec_parse_ruby(s: Seq<char>, pos: int) -> Option<(int, (Seq<char>, Seq<char>))> {
    match spec_open_tag(s, pos, "ruby"@) {
        Some((p1, _al)) => match spec_parse_rb(s, p1) {
            Some((p2, rb)) => match spec_parse_rt(s, p2) {
                Some((p3, rt)) => match spec_close_tag(s, p3, "ruby"@) {
                    Some(p4) => Some((p4, (rb, rt))),
                    None => None,
                },
                None => None,
            },
            None => None,
        },
        None => None,
    }
}

pub fn parse_ruby(s: &[char], pos: usize) -> (r: Option<(usize, Ruby)>)
    requires
        pos <= s@.len(),
    ensures
        res_of(r, spec_parse_ruby(s@, pos as int), pos as int, s@.len() as int),
{
    let tag = str_to_chars("ruby");
    match open_tag(s, pos, tag.as_slice()) {
        Some((p1, _al)) => match parse_rb(s, p1) {
            Some((p2, rb)) => match parse_rt(s, p2) {
                Some((p3, rt)) => match close_tag(s, p3, tag.as_slice()) {
                    Some(p4) => Some(
                        (
                            p4,
                            Ruby(
                                Rb(chars_to_string(rb.as_slice())),
                                Rt(chars_to_string(rt.as_slice())),
                            ),
                        ),
                    ),
                    None => None,
                },
                None => None,
            },
            None => None,
        },
        None => None,
    }
}

/// The audio icon: a void `<img .../>` whose `alt` attribute must equal the
/// audio marker word.
pub open spec fn spec_parse_img(s: Seq<char>, pos: int) -> Option<int> {
    match spec_empty_tag(s, pos, "img"@) {
        Some((e, al)) => if spec_attr_of(al, "alt"@) == Some("音声"@) {
            Some(e)
        } else {
            None
        },
        None => None,
    }
}

pub fn parse_img(s: &[char], pos: usize) -> (r: Option<usize>)
    requires
        pos <= s@.len(),
    ensures
        match r {
            Some(e) => spec_parse_img(s@, pos as int) == Some(e as int) && pos < e <= s@.len(),
            None => spec_parse_img(s@, pos as int) is None,
        },
{
    let tag = str_to_chars("img");
    match empty_xml_tag(s, pos, tag.as_slice()) {
        Some((e, al)) => {
            let key = str_to_chars("alt");
            let val = str_to_chars("音声");
            match attr_of(&al, key.as_slice()) {
                Some(v) => {
                    if crate::strutil::chars_eq(v.as_slice(), val.as_slice()) {
                        Some(e)
                    } else {
                        None
                    }
                },
                None => None,
            }
        },
        None => None,
    }
}

/// A line break: a void `<br/>`.
pub open spec fn spec_parse_br(s: Seq<char>, pos: int) -> Option<int> {
    match spec_empty_tag(s, pos, "br"@) {
        Some((e, _al)) => Some(e),
        None => None,
    }
}

pub fn parse_br(s: &[char], pos: usize) -> (r: Option<usize>)
    requires
        pos <= s@.len(),
    ensures
        match r {
            Some(e) => spec_parse_br(s@, pos as int) == Some(e as int) && pos < e <= s@.len(),
            None => spec_parse_br(s@, pos as int) is None,
        },
{
    let tag = str_to_chars("br");
    match empty_xml_tag(s, pos, tag.as_slice()) {
        Some((e, _al)) => Some(e),
        None => None,
    }
}

/// An audio link: `<a href="..."><img alt="音声" .../></a>`, yielding the
/// `href` value.
pub open spec fn spec_parse_sound_link(s: Seq<char>, pos: int) -> Option<(int, Seq<char>)> {
    match spec_open_tag(s, pos, "a"@) {
        Some((p1, al)) => match spec_parse_img(s, p1) {
            Some(p2) => match spec_close_tag(s, p2, "a"@) {
                Some(p3) => match spec_attr_of(al, "href"@) {
                    Some(href) => Some((p3, href)),
                    None => None,
                },
                None => None,
            },
            None => None,
        },
        None => None,
    }
}

pub fn parse_sound_link(s: &[char], pos: usize) -> (r: Option<(usize, Vec<char>)>)
    requires
        pos <= s@.len(),
    ensures
        res_of(r, spec_parse_sound_link(s@, pos as int), pos as int, s@.len() as int),
{
    let tag = str_to_chars("a");
    match open_tag(s, pos, tag.as_slice()) {
        Some((p1, al)) => match parse_img(s, p1) {
            Some(p2) => match close_tag(s, p2, tag.as_slice()) {
                Some(p3) => {
                    let key = str_to_chars("href");
                    match attr_of(&al, key.as_slice()) {
                        Some(href) => {
                            let out = crate::strutil::chars_range(href.as_slice(), 0, href.len());
                            proof {
                                assert(out@ =~= href@);
                            }
                            Some((p3, out))
                        },
                        None => None,
                    }
                },
                None => None,
            },
            None => None,
        },
        None => None,
    }
}

/// An audio reference: `<span class="sound">` around an audio link,
/// yielding the linked file name.
pub open spec fn spec_parse_sound(s: Seq<char>, pos: int) -> Option<(int, Seq<char>)> {
    match spec_open_tag(s, pos, "span"@) {
        Some((p1, al)) => match spec_parse_sound_link(s, p1) {
            Some((p2, href)) => match spec_close_tag(s, p2, "span"@) {
                Some(p3) => if spec_class_ok(al, "sound"@) {
                    Some((p3, href))
                } else {
                    None
                },
                None => None,
            },
            None => None,
        },
        None => None,
    }
}

pub fn parse_sound(s: &[char], pos: usize) -> (r: Option<(usize, Vec<char>)>)
    requires
        pos <= s@.len(),
    ensures
        res_of(r, spec_parse_sound(s@, pos as int), pos as int, s@.len() as int),
{
    let tag = str_to_chars("span");
    let cls = str_to_chars("sound");
    match open_tag(s, pos, tag.as_slice()) {
        Some((p1, al)) => match parse_sound_link(s, p1) {
            Some((p2, href)) => match close_tag(s, p2, tag.as_slice()) {
                Some(p3) => if class_ok(&al, cls.as_slice()) {
                    Some((p3, href))
                } else {
                    None
                },
                None => None,
            },
            None => None,
        },
        None => None,
    }
}

/// An anchored word: `<a name=".." class="anchor">text</a>`, yielding the
/// anchor name and the word.
pub open spec fn spec_parse_named_word(s: Seq<char>, pos: int) -> Option<
    (int, (Seq<char>, Seq<char>)),
> {
    match spec_open_tag(s, pos, "a"@) {
        Some((p1, al)) => match spec_text_run(s, p1) {
            Some((te, w)) => match spec_close_tag(s, te, "a"@) {
                Some(p2) => match spec_attr_of(al, "name"@) {
                    Some(n) => if spec_class_ok(al, "anchor"@) {
                        Some((p2, (n, w)))
                    } else {
                        None
                    },
                    None => None,
                },
                None => None,
            },
            None => None,
        },
        None => None,
    }
}

pub fn parse_named_word(s: &[char], pos: usize) -> (r: Option<(usize, (Name, String))>)
    requires
        pos <= s@.len(),
    ensures
        match r {
            Some((e, nw)) => {
                &&& spec_parse_named_word(s@, pos as int) == Some((e as int, (nw.0@, nw.1@)))
                &&& pos < e <= s@.len()
            },
            None => spec_parse_named_word(s@, pos as int) is None,
        },
{
    let tag = str_to_chars("a");
    let cls = str_to_chars("anchor");
    match open_tag(s, pos, tag.as_slice()) {
        Some((p1, al)) => match text_run(s, p1) {
            Some((te, w)) => match close_tag(s, te, tag.as_slice()) {
                Some(p2) => {
                    let key = str_to_chars("name");
                    match attr_of(&al, key.as_slice()) {
                        Some(n) => if class_ok(&al, cls.as_slice()) {
                            let name = chars_to_string(n.as_slice());
                            let word = chars_to_string(w.as_slice());
                            Some((p2, (Name(name), word)))
                        } else {
                            None
                        },
                        None => None,
                    }
                },
                None => None,
            },
            None => None,
        },
        None => None,
    }
}

} // verus!
