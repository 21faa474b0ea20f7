//! The accent rules of the entry grammar: accent text runs, labelled accent
//! variants, parenthesized accent forms, and conjugation tables.
use vstd::prelude::*;

use crate::ast::Accent;
use crate::ast::AccentHead;
use crate::ast::AccentText;
use crate::ast::AccentTextV;
use crate::ast::Audio;
use crate::ast::ConTableContent;
use crate::ast::ConTableContentV;
use crate::ast::RoundBrackets;
use crate::ast::SquareBox;
use crate::ast::seq_view;
use crate::rules::parse_note_ref;
use crate::rules::parse_round_box;
use crate::rules::parse_sound;
use crate::rules::parse_square_box;
use crate::rules::parse_symbol_backslash;
use crate::rules::parse_symbol_macron;
use crate::rules::spec_parse_note_ref;
use crate::rules::spec_parse_round_box;
use crate::rules::spec_parse_sound;
use crate::rules::spec_parse_square_box;
use crate::rules::spec_parse_symbol_backslash;
use crate::rules::spec_parse_symbol_macron;
use crate::strutil::chars_to_string;
use crate::strutil::str_to_chars;
use crate::xml::res_of;
use crate::xml::spec_class_ok;
use crate::xml::spec_close_tag;
use crate::xml::spec_open_tag;
use crate::xml::spec_text_run;
use crate::xml::class_ok;
use crate::xml::close_tag;
use crate::xml::open_tag;
use crate::xml::text_run;

verus! {

/// An audio file name with any `.aac` suffix removed: the base identifier
/// kept in `AccentText::Sound` and `Audio`.
pub open spec fn spec_strip_aac(h: Seq<char>) -> Seq<char> {
    if h.len() >= 4 && h.subrange(h.len() - 4, h.len() as int) == ".aac"@ {
        h.subrange(0, h.len() - 4)
    } else {
        h
    }
}

pub fn strip_aac(h: &[char]) -> (r: Vec<char>)
    ensures
        r@ == spec_strip_aac(h@),
{
    let suffix = str_to_chars(".aac");
    if h.len() >= 4 && crate::xml::range_eq(h, h.len() - 4, h.len(), suffix.as_slice()) {
        crate::strutil::chars_range(h, 0, h.len() - 4)
    } else {
        crate::strutil::chars_range(h, 0, h.len())
    }
}

/// One piece of plain accent content: the five-way alternative shared by
/// unlabelled accents, parenthesized forms and worked examples, in the
/// grammar's fixed order.
pub open spec fn spec_accent_piece5(s: Seq<char>, pos: int) -> Option<(int, AccentTextV)> {
    match spec_parse_symbol_macron(s, pos) {
        Some((e, v)) => Some((e, AccentTextV::SymbolMacron(v))),
        None => match spec_parse_symbol_backslash(s, pos) {
            Some((e, v)) => Some((e, AccentTextV::SymbolBackslash(v))),
            None => match spec_parse_round_box(s, pos) {
                Some((e, v)) => Some((e, AccentTextV::RoundBox(v))),
                None => match spec_parse_sound(s, pos) {
                    Some((e, v)) => Some((e, AccentTextV::Sound(spec_strip_aac(v)))),
                    None => match spec_text_run(s, pos) {
                        Some((e, v)) => Some((e, AccentTextV::Text(v))),
                        None => None,
                    },
                },
            },
        },
    }
}

pub fn accent_piece5(s: &[char], pos: usize) -> (r: Option<(usize, AccentText)>)
    requires
        pos <= s@.len(),
    ensures
        res_of(r, spec_accent_piece5(s@, pos as int), pos as int, s@.len() as int),
{
    match parse_symbol_macron(s, pos) {
        Some((e, v)) => {
            return Some((e, AccentText::SymbolMacron(chars_to_string(v.as_slice()))));
        },
        None => {},
    }
    match parse_symbol_backslash(s, pos) {
        Some((e, v)) => {
            return Some((e, AccentText::SymbolBackslash(chars_to_string(v.as_slice()))));
        },
        None => {},
    }
    match parse_round_box(s, pos) {
        Some((e, v)) => {
            return Some((e, AccentText::RoundBox(chars_to_string(v.as_slice()))));
        },
        None => {},
    }
    match parse_sound(s, pos) {
        Some((e, v)) => {
            let base = strip_aac(v.as_slice());
            return Some((e, AccentText::Sound(chars_to_string(base.as_slice()))));
        },
        None => {},
    }
    match text_run(s, pos) {
        Some((e, v)) => {
            return Some((e, AccentText::Text(chars_to_string(v.as_slice()))));
        },
        None => {},
    }
    None
}

/// One piece of full accent text: the plain five plus square-box labels and
/// footnote references.
pub open spec fn spec_accent_piece7(s: Seq<char>, pos: int) -> Option<(int, AccentTextV)> {
    match spec_accent_piece5(s, pos) {
        Some(r) => Some(r),
        None => match spec_parse_square_box(s, pos) {
            Some((e, v)) => Some((e, AccentTextV::SquareBox(v))),
            None => match spec_parse_note_ref(s, pos) {
                Some((e, v)) => Some((e, AccentTextV::NoteRef(v))),
                None => None,
            },
        },
    }
}

pub fn accent_piece7(s: &[char], pos: usize) -> (r: Option<(usize, AccentText)>)
    requires
        pos <= s@.len(),
    ensures
        res_of(r, spec_accent_piece7(s@, pos as int), pos as int, s@.len() as int),
{
    match accent_piece5(s, pos) {
        Some(r) => {
            return Some(r);
        },
        None => {},
    }
    match parse_square_box(s, pos) {
        Some((e, v)) => {
            return Some((e, AccentText::SquareBox(chars_to_string(v.as_slice()))));
        },
        None => {},
    }
    match parse_note_ref(s, pos) {
        Some((e, v)) => {
            return Some((e, AccentText::NoteRef(chars_to_string(v.as_slice()))));
        },
        None => {},
    }
    None
}

/// The longest run of five-way accent pieces from `pos`.
pub open spec fn spec_accent_list5(s: Seq<char>, pos: int) -> (int, Seq<AccentTextV>)
    decreases s.len() - pos,
{
    match spec_accent_piece5(s, pos) {
        Some((e, x)) => if pos < e <= s.len() {
            let (e2, rest) = spec_accent_list5(s, e);
            (e2, seq![x] + rest)
        } else {
            (pos, Seq::empty())
        },
        None => (pos, Seq::empty()),
    }
}

pub fn accent_list5(s: &[char], pos: usize) -> (r: (usize, Vec<AccentText>))
    requires
        pos <= s@.len(),
    ensures
        ({
            let (e, l) = spec_accent_list5(s@, pos as int);
            &&& r.0 == e
            &&& seq_view(r.1@) == l
            &&& pos <= r.0 <= s@.len()
        }),
{
    let mut cur: usize = pos;
    let mut acc: Vec<AccentText> = Vec::new();
    proof {
        assert(seq_view(acc@) =~= Seq::<AccentTextV>::empty());
    }
    loop
        invariant
            pos <= cur <= s@.len(),
            ({
                let (e, l) = spec_accent_list5(s@, cur as int);
                spec_accent_list5(s@, pos as int) == (e, seq_view(acc@) + l)
            }),
        decreases s@.len() - cur,
    {
        match accent_piece5(s, cur) {
            Some((e, x)) => {
                let ghost prev = seq_view(acc@);
                let ghost xv = x@;
                proof {
                    let (e2, rest) = spec_accent_list5(s@, e as int);
                    assert(spec_accent_list5(s@, cur as int) == (e2, seq![xv] + rest));
                    assert(prev + (seq![xv] + rest) =~= (prev + seq![xv]) + rest);
                }
                acc.push(x);
                proof {
                    assert(seq_view(acc@) =~= prev + seq![xv]);
                }
                cur = e;
            },
            None => {
                proof {
                    let (e, l) = spec_accent_list5(s@, cur as int);
                    assert(e == cur && l =~= Seq::<AccentTextV>::empty());
                    assert(seq_view(acc@) + l =~= seq_view(acc@));
                }
                return (cur, acc);
            },
        }
    }
}

/// The longest run of seven-way accent pieces from `pos`.
pub open spec fn spec_accent_list7(s: Seq<char>, pos: int) -> (int, Seq<AccentTextV>)
    decreases s.len() - pos,
{
    match spec_accent_piece7(s, pos) {
        Some((e, x)) => if pos < e <= s.len() {
            let (e2, rest) = spec_accent_list7(s, e);
            (e2, seq![x] + rest)
        } else {
            (pos, Seq::empty())
        },
        None => (pos, Seq::empty()),
    }
}

pub fn accent_list7(s: &[char], pos: usize) -> (r: (usize, Vec<AccentText>))
    requires
        pos <= s@.len(),
    ensures
        ({
            let (e, l) = spec_accent_list7(s@, pos as int);
            &&& r.0 == e
            &&& seq_view(r.1@) == l
            &&& pos <= r.0 <= s@.len()
        }),
{
    let mut cur: usize = pos;
    let mut acc: Vec<AccentText> = Vec::new();
    proof {
        assert(seq_view(acc@) =~= Seq::<AccentTextV>::empty());
    }
    loop
        invariant
            pos <= cur <= s@.len(),
            ({
                let (e, l) = spec_accent_list7(s@, cur as int);
                spec_accent_list7(s@, pos as int) == (e, seq_view(acc@) + l)
            }),
        decreases s@.len() - cur,
    {
        match accent_piece7(s, cur) {
            Some((e, x)) => {
                let ghost prev = seq_view(acc@);
                let ghost xv = x@;
                proof {
                    let (e2, rest) = spec_accent_list7(s@, e as int);
                    assert(spec_accent_list7(s@, cur as int) == (e2, seq![xv] + rest));
                    assert(prev + (seq![xv] + rest) =~= (prev + seq![xv]) + rest);
                }
                acc.push(x);
                proof {
                    assert(seq_view(acc@) =~= prev + seq![xv]);
                }
                cur = e;
            },
            None => {
                proof {
                    let (e, l) = spec_accent_list7(s@, cur as int);
                    assert(e == cur && l =~= Seq::<AccentTextV>::empty());
                    assert(seq_view(acc@) + l =~= seq_view(acc@));
                }
                return (cur, acc);
            },
        }
    }
}

/// Full accent text: `<span class="accent_text">` around a possibly-empty
/// run of seven-way pieces.
pub open spec fn spec_parse_accent_text(s: Seq<char>, pos: int) -> Option<
    (int, Seq<AccentTextV>),
> {
    match spec_open_tag(s, pos, "span"@) {
        Some((p1, al)) => {
            let (te, l) = spec_accent_list7(s, p1);
            match spec_close_tag(s, te, "span"@) {
                Some(p2) => if spec_class_ok(al, "accent_text"@) {
                    Some((p2, l))
                } else {
                    None
                },
                None => None,
            }
        },
        None => None,
    }
}

pub fn parse_accent_text(s: &[char], pos: usize) -> (r: Option<(usize, Vec<AccentText>)>)
    requires
        pos <= s@.len(),
    ensures
        match r {
            Some((e, l)) => {
                &&& spec_parse_accent_text(s@, pos as int) == Some((e as int, seq_view(l@)))
                &&& pos < e <= s@.len()
            },
            None => spec_parse_accent_text(s@, pos as int) is None,
        },
{
    let tag = str_to_chars("span");
    let cls = str_to_chars("accent_text");
    match open_tag(s, pos, tag.as_slice()) {
        Some((p1, al)) => {
            let (te, l) = accent_list7(s, p1);
            match close_tag(s, te, tag.as_slice()) {
                Some(p2) => if class_ok(&al, cls.as_slice()) {
                    Some((p2, l))
                } else {
                    None
                },
                None => None,
            }
        },
        None => None,
    }
}

/// An optional square-boxed label preceding accent text:
/// `<accent_head>` around a square box.
pub open spec fn spec_parse_accent_head(s: Seq<char>, pos: int) -> Option<(int, Seq<char>)> {
    match spec_open_tag(s, pos, "accent_head"@) {
        Some((p1, _al)) => match spec_parse_square_box(s, p1) {
            Some((p2, v)) => match spec_close_tag(s, p2, "accent_head"@) {
                Some(p3) => Some((p3, v)),
                None => None,
            },
            None => None,
        },
        None => None,
    }
}

pub fn parse_accent_head(s: &[char], pos: usize) -> (r: Option<(usize, AccentHead)>)
    requires
        pos <= s@.len(),
    ensures
        res_of(r, spec_parse_accent_head(s@, pos as int), pos as int, s@.len() as int),
{
    let tag = str_to_chars("accent_head");
    match open_tag(s, pos, tag.as_slice()) {
        Some((p1, _al)) => match parse_square_box(s, p1) {
            Some((p2, v)) => match close_tag(s, p2, tag.as_slice()) {
                Some(p3) => Some((p3, AccentHead(SquareBox(chars_to_string(v.as_slice()))))),
                None => None,
            },
            None => None,
        },
        None => None,
    }
}


/// A labelled pronunciation variant: `<span class="accent">` around an
/// optional accent head and full accent text.
pub open spec fn spec_parse_accent(s: Seq<char>, pos: int) -> Option<
    (int, (Option<Seq<char>>, Seq<AccentTextV>)),
> {
    match spec_open_tag(s, pos, "span"@) {
        Some((p1, al)) => {
            let (p2, h) = match spec_parse_accent_head(s, p1) {
                Some((e, v)) => (e, Some(v)),
                None => (p1, None),
            };
            match spec_parse_accent_text(s, p2) {
                Some((p3, l)) => match spec_close_tag(s, p3, "span"@) {
                    Some(p4) => if spec_class_ok(al, "accent"@) {
                        Some((p4, (h, l)))
                    } else {
                        None
                    },
                    None => None,
                },
                None => None,
            }
        },
        None => None,
    }
}

pub fn parse_accent(s: &[char], pos: usize) -> (r: Option<(usize, Accent)>)
    requires
        pos <= s@.len(),
    ensures
        res_of(r, spec_parse_accent(s@, pos as int), pos as int, s@.len() as int),
{
    let tag = str_to_chars("span");
    let cls = str_to_chars("accent");
    match open_tag(s, pos, tag.as_slice()) {
        Some((p1, al)) => {
            let (p2, h) = match parse_accent_head(s, p1) {
                Some((e, v)) => (e, Some(v)),
                None => (p1, None),
            };
            match parse_accent_text(s, p2) {
                Some((p3, l)) => match close_tag(s, p3, tag.as_slice()) {
                    Some(p4) => if class_ok(&al, cls.as_slice()) {
                        Some((p4, Accent(h, l)))
                    } else {
                        None
                    },
                    None => None,
                },
                None => None,
            }
        },
        None => None,
    }
}

/// An unlabelled accent, as conjugation tables also accept it:
/// `<span class="accent">` directly around plain accent pieces.
pub open spec fn spec_parse_accent2(s: Seq<char>, pos: int) -> Option<
    (int, (Option<Seq<char>>, Seq<AccentTextV>)),
> {
    match spec_open_tag(s, pos, "span"@) {
        Some((p1, al)) => {
            let (te, l) = spec_accent_list5(s, p1);
            match spec_close_tag(s, te, "span"@) {
                Some(p2) => if spec_class_ok(al, "accent"@) {
                    Some((p2, (None, l)))
                } else {
                    None
                },
                None => None,
            }
        },
        None => None,
    }
}

pub fn parse_accent2(s: &[char], pos: usize) -> (r: Option<(usize, Accent)>)
    requires
        pos <= s@.len(),
    ensures
        res_of(r, spec_parse_accent2(s@, pos as int), pos as int, s@.len() as int),
{
    let tag = str_to_chars("span");
    let cls = str_to_chars("accent");
    match open_tag(s, pos, tag.as_slice()) {
        Some((p1, al)) => {
            let (te, l) = accent_list5(s, p1);
            match close_tag(s, te, tag.as_slice()) {
                Some(p2) => if class_ok(&al, cls.as_slice()) {
                    Some((p2, Accent(None, l)))
                } else {
                    None
                },
                None => None,
            }
        },
        None => None,
    }
}

/// A parenthesized accent form: `<span class="round_brackets">` around a
/// non-empty run of plain accent pieces.
pub open spec fn spec_parse_round_brackets2(s: Seq<char>, pos: int) -> Option<
    (int, Seq<AccentTextV>),
> {
    match spec_open_tag(s, pos, "span"@) {
        Some((p1, al)) => {
            let (te, l) = spec_accent_list5(s, p1);
            if l.len() >= 1 {
                match spec_close_tag(s, te, "span"@) {
                    Some(p2) => if spec_class_ok(al, "round_brackets"@) {
                        Some((p2, l))
                    } else {
                        None
                    },
                    None => None,
                }
            } else {
                None
            }
        },
        None => None,
    }
}

pub fn parse_round_brackets2(s: &[char], pos: usize) -> (r: Option<(usize, RoundBrackets)>)
    requires
        pos <= s@.len(),
    ensures
        res_of(r, spec_parse_round_brackets2(s@, pos as int), pos as int, s@.len() as int),
{
    let tag = str_to_chars("span");
    let cls = str_to_chars("round_brackets");
    match open_tag(s, pos, tag.as_slice()) {
        Some((p1, al)) => {
            let (te, l) = accent_list5(s, p1);
            if l.len() >= 1 {
                match close_tag(s, te, tag.as_slice()) {
                    Some(p2) => if class_ok(&al, cls.as_slice()) {
                        Some((p2, RoundBrackets(l)))
                    } else {
                        None
                    },
                    None => None,
                }
            } else {
                None
            }
        },
        None => None,
    }
}

/// A parenthesized accent form with an optional trailing audio reference:
/// `<span class="accent accent_round">`.
pub open spec fn spec_parse_accent_round(s: Seq<char>, pos: int) -> Option<
    (int, (Seq<AccentTextV>, Option<Seq<char>>)),
> {
    match spec_open_tag(s, pos, "span"@) {
        Some((p1, al)) => match spec_parse_round_brackets2(s, p1) {
            Some((p2, rb)) => {
                let (p3, au) = match spec_parse_sound(s, p2) {
                    Some((e, h)) => (e, Some(spec_strip_aac(h))),
                    None => (p2, None),
                };
                match spec_close_tag(s, p3, "span"@) {
                    Some(p4) => if spec_class_ok(al, "accent accent_round"@) {
                        Some((p4, (rb, au)))
                    } else {
                        None
                    },
                    None => None,
                }
            },
            None => None,
        },
        None => None,
    }
}

pub fn parse_accent_round(s: &[char], pos: usize) -> (r: Option<
    (usize, (RoundBrackets, Option<Audio>)),
>)
    requires
        pos <= s@.len(),
    ensures
        match r {
            Some((e, ra)) => {
                &&& spec_parse_accent_round(s@, pos as int) == Some(
                    (
                        e as int,
                        (
                            ra.0@,
                            match ra.1 {
                                Some(a) => Some(a@),
                                None => None,
                            },
                        ),
                    ),
                )
                &&& pos < e <= s@.len()
            },
            None => spec_parse_accent_round(s@, pos as int) is None,
        },
{
    let tag = str_to_chars("span");
    let cls = str_to_chars("accent accent_round");
    match open_tag(s, pos, tag.as_slice()) {
        Some((p1, al)) => match parse_round_brackets2(s, p1) {
            Some((p2, rb)) => {
                let (p3, au) = match parse_sound(s, p2) {
                    Some((e, h)) => {
                        let base = strip_aac(h.as_slice());
                        (e, Some(Audio(chars_to_string(base.as_slice()))))
                    },
                    None => (p2, None),
                };
                match close_tag(s, p3, tag.as_slice()) {
                    Some(p4) => if class_ok(&al, cls.as_slice()) {
                        Some((p4, (rb, au)))
                    } else {
                        None
                    },
                    None => None,
                }
            },
            None => None,
        },
        None => None,
    }
}

/// One labelled-or-plain accent, as conjugation tables accept both.
pub open spec fn spec_accent12(s: Seq<char>, pos: int) -> Option<
    (int, (Option<Seq<char>>, Seq<AccentTextV>)),
> {
    match spec_parse_accent(s, pos) {
        Some(r) => Some(r),
        None => spec_parse_accent2(s, pos),
    }
}

pub fn accent12(s: &[char], pos: usize) -> (r: Option<(usize, Accent)>)
    requires
        pos <= s@.len(),
    ensures
        res_of(r, spec_accent12(s@, pos as int), pos as int, s@.len() as int),
{
    match parse_accent(s, pos) {
        Some(r) => Some(r),
        None => parse_accent2(s, pos),
    }
}

/// The longest run of labelled-or-plain accents from `pos`.
pub open spec fn spec_accent12_list(s: Seq<char>, pos: int) -> (
    int,
    Seq<(Option<Seq<char>>, Seq<AccentTextV>)>,
)
    decreases s.len() - pos,
{
    match spec_accent12(s, pos) {
        Some((e, x)) => if pos < e <= s.len() {
            let (e2, rest) = spec_accent12_list(s, e);
            (e2, seq![x] + rest)
        } else {
            (pos, Seq::empty())
        },
        None => (pos, Seq::empty()),
    }
}

pub fn accent12_list(s: &[char], pos: usize) -> (r: (usize, Vec<Accent>))
    requires
        pos <= s@.len(),
    ensures
        ({
            let (e, l) = spec_accent12_list(s@, pos as int);
            &&& r.0 == e
            &&& seq_view(r.1@) == l
            &&& pos <= r.0 <= s@.len()
        }),
{
    let mut cur: usize = pos;
    let mut acc: Vec<Accent> = Vec::new();
    proof {
        assert(seq_view(acc@) =~= Seq::<(Option<Seq<char>>, Seq<AccentTextV>)>::empty());
    }
    loop
        invariant
            pos <= cur <= s@.len(),
            ({
                let (e, l) = spec_accent12_list(s@, cur as int);
                spec_accent12_list(s@, pos as int) == (e, seq_view(acc@) + l)
            }),
        decreases s@.len() - cur,
    {
        match accent12(s, cur) {
            Some((e, x)) => {
                let ghost prev = seq_view(acc@);
                let ghost xv = x@;
                proof {
                    let (e2, rest) = spec_accent12_list(s@, e as int);
                    assert(spec_accent12_list(s@, cur as int) == (e2, seq![xv] + rest));
                    assert(prev + (seq![xv] + rest) =~= (prev + seq![xv]) + rest);
                }
                acc.push(x);
                proof {
                    assert(seq_view(acc@) =~= prev + seq![xv]);
                }
                cur = e;
            },
            None => {
                proof {
                    let (e, l) = spec_accent12_list(s@, cur as int);
                    assert(e == cur && l =~= Seq::<(Option<Seq<char>>, Seq<AccentTextV>)>::empty());
                    assert(seq_view(acc@) + l =~= seq_view(acc@));
                }
                return (cur, acc);
            },
        }
    }
}

/// One conjugation-table block: a non-empty accent run, or a parenthesized
/// accent form.
pub open spec fn spec_ct_piece(s: Seq<char>, pos: int) -> Option<(int, ConTableContentV)> {
    let (e, l) = spec_accent12_list(s, pos);
    if l.len() >= 1 {
        Some((e, ConTableContentV::Accent(l)))
    } else {
        match spec_parse_accent_round(s, pos) {
            Some((e2, (rb, au))) => Some((e2, ConTableContentV::AccentRound(rb, au))),
            None => None,
        }
    }
}

pub proof fn lemma_accent12_list_bounds(s: Seq<char>, pos: int)
    requires
        0 <= pos <= s.len(),
    ensures
        pos <= spec_accent12_list(s, pos).0 <= s.len(),
        spec_accent12_list(s, pos).1.len() >= 1 ==> spec_accent12_list(s, pos).0 > pos,
    decreases s.len() - pos,
{
    match spec_accent12(s, pos) {
        Some((e, x)) => {
            if pos < e <= s.len() {
                lemma_accent12_list_bounds(s, e);
            }
        },
        None => {},
    }
}

pub fn ct_piece(s: &[char], pos: usize) -> (r: Option<(usize, ConTableContent)>)
    requires
        pos <= s@.len(),
    ensures
        res_of(r, spec_ct_piece(s@, pos as int), pos as int, s@.len() as int),
{
    let (e, l) = accent12_list(s, pos);
    if l.len() >= 1 {
        proof {
            lemma_accent12_list_bounds(s@, pos as int);
        }
        Some((e, ConTableContent::Accent(l)))
    } else {
        match parse_accent_round(s, pos) {
            Some((e2, (rb, au))) => Some((e2, ConTableContent::AccentRound(rb, au))),
            None => None,
        }
    }
}

/// The longest run of conjugation-table blocks from `pos`.
pub open spec fn spec_ct_list(s: Seq<char>, pos: int) -> (int, Seq<ConTableContentV>)
    decreases s.len() - pos,
{
    match spec_ct_piece(s, pos) {
        Some((e, x)) => if pos < e <= s.len() {
            let (e2, rest) = spec_ct_list(s, e);
            (e2, seq![x] + rest)
        } else {
            (pos, Seq::empty())
        },
        None => (pos, Seq::empty()),
    }
}

pub fn ct_list(s: &[char], pos: usize) -> (r: (usize, Vec<ConTableContent>))
    requires
        pos <= s@.len(),
    ensures
        ({
            let (e, l) = spec_ct_list(s@, pos as int);
            &&& r.0 == e
            &&& seq_view(r.1@) == l
            &&& pos <= r.0 <= s@.len()
        }),
{
    let mut cur: usize = pos;
    let mut acc: Vec<ConTableContent> = Vec::new();
    proof {
        assert(seq_view(acc@) =~= Seq::<ConTableContentV>::empty());
    }
    loop
        invariant
            pos <= cur <= s@.len(),
            ({
                let (e, l) = spec_ct_list(s@, cur as int);
                spec_ct_list(s@, pos as int) == (e, seq_view(acc@) + l)
            }),
        decreases s@.len() - cur,
    {
        match ct_piece(s, cur) {
            Some((e, x)) => {
                let ghost prev = seq_view(acc@);
                let ghost xv = x@;
                proof {
                    let (e2, rest) = spec_ct_list(s@, e as int);
                    assert(spec_ct_list(s@, cur as int) == (e2, seq![xv] + rest));
                    assert(prev + (seq![xv] + rest) =~= (prev + seq![xv]) + rest);
                }
                acc.push(x);
                proof {
                    assert(seq_view(acc@) =~= prev + seq![xv]);
                }
                cur = e;
            },
            None => {
                proof {
                    let (e, l) = spec_ct_list(s@, cur as int);
                    assert(e == cur && l =~= Seq::<ConTableContentV>::empty());
                    assert(seq_view(acc@) + l =~= seq_view(acc@));
                }
                return (cur, acc);
            },
        }
    }
}

/// A conjugation/declension table: `<span class="con_table">` around a
/// non-empty run of table blocks.
pub open spec fn spec_parse_con_table(s: Seq<char>, pos: int) -> Option<
    (int, Seq<ConTableContentV>),
> {
    match spec_open_tag(s, pos, "span"@) {
        Some((p1, al)) => {
            let (te, l) = spec_ct_list(s, p1);
            if l.len() >= 1 {
                match spec_close_tag(s, te, "span"@) {
                    Some(p2) => if spec_class_ok(al, "con_table"@) {
                        Some((p2, l))
                    } else {
                        None
                    },
                    None => None,
                }
            } else {
                None
            }
        },
        None => None,
    }
}

pub fn parse_con_table(s: &[char], pos: usize) -> (r: Option<(usize, Vec<ConTableContent>)>)
    requires
        pos <= s@.len(),
    ensures
        match r {
            Some((e, l)) => {
                &&& spec_parse_con_table(s@, pos as int) == Some((e as int, seq_view(l@)))
                &&& pos < e <= s@.len()
            },
            None => spec_parse_con_table(s@, pos as int) is None,
        },
{
    let tag = str_to_chars("span");
    let cls = str_to_chars("con_table");
    match open_tag(s, pos, tag.as_slice()) {
        Some((p1, al)) => {
            let (te, l) = ct_list(s, p1);
            if l.len() >= 1 {
                match close_tag(s, te, tag.as_slice()) {
                    Some(p2) => if class_ok(&al, cls.as_slice()) {
                        Some((p2, l))
                    } else {
                        None
                    },
                    None => None,
                }
            } else {
                None
            }
        },
        None => None,
    }
}

/// A worked example's accent run: `<span class="accent accent_example">`
/// around plain accent pieces.
pub open spec fn spec_parse_accent_example(s: Seq<char>, pos: int) -> Option<
    (int, Seq<AccentTextV>),
> {
    match spec_open_tag(s, pos, "span"@) {
        Some((p1, al)) => {
            let (te, l) = spec_accent_list5(s, p1);
            match spec_close_tag(s, te, "span"@) {
                Some(p2) => if spec_class_ok(al, "accent accent_example"@) {
                    Some((p2, l))
                } else {
                    None
                },
                None => None,
            }
        },
        None => None,
    }
}

pub fn parse_accent_example(s: &[char], pos: usize) -> (r: Option<(usize, Vec<AccentText>)>)
    requires
        pos <= s@.len(),
    ensures
        match r {
            Some((e, l)) => {
                &&& spec_parse_accent_example(s@, pos as int) == Some((e as int, seq_view(l@)))
                &&& pos < e <= s@.len()
            },
            None => spec_parse_accent_example(s@, pos as int) is None,
        },
{
    let tag = str_to_chars("span");
    let cls = str_to_chars("accent accent_example");
    match open_tag(s, pos, tag.as_slice()) {
        Some((p1, al)) => {
            let (te, l) = accent_list5(s, p1);
            match close_tag(s, te, tag.as_slice()) {
                Some(p2) => if class_ok(&al, cls.as_slice()) {
                    Some((p2, l))
                } else {
                    None
                },
                None => None,
            }
        },
        None => None,
    }
}

} // verus!
