//! The counter-word rules of the entry grammar: numbered subheads, indented
//! accent runs, and note blocks.
use vstd::prelude::*;

use crate::accent::parse_accent;
use crate::accent::parse_accent_text;
use crate::accent::spec_parse_accent;
use crate::accent::spec_parse_accent_text;
use crate::ast::AccentTextV;
use crate::ast::Indent;
use crate::ast::Josushi;
use crate::ast::JosushiNumber;
use crate::ast::NoteContent;
use crate::ast::NoteContentV;
use crate::ast::Notes;
use crate::ast::Num;
use crate::ast::note_seg_view;
use crate::ast::seq_view;
use crate::body::accent1_list;
use crate::body::lemma_accent1_list_bounds;
use crate::body::parse_bodyref;
use crate::body::spec_accent1_list;
use crate::body::spec_parse_bodyref;
use crate::rules::parse_br;
use crate::rules::parse_named_word;
use crate::rules::parse_note_num;
use crate::rules::parse_round_box;
use crate::rules::parse_symbol_backslash;
use crate::rules::parse_symbol_macron;
use crate::rules::spec_parse_br;
use crate::rules::spec_parse_named_word;
use crate::rules::spec_parse_note_num;
use crate::rules::spec_parse_round_box;
use crate::rules::spec_parse_symbol_backslash;
use crate::rules::spec_parse_symbol_macron;
use crate::strutil::chars_to_string;
use crate::strutil::str_to_chars;
use crate::xml::res_of;
use crate::xml::class_ok;
use crate::xml::close_tag;
use crate::xml::open_tag;
use crate::xml::spec_class_ok;
use crate::xml::spec_close_tag;
use crate::xml::spec_open_tag;
use crate::xml::spec_text_run;
use crate::xml::text_run;

verus! {

/// A numbered counter-word subhead: `<span class="subheadword number">`.
pub open spec fn spec_parse_subhead_number(s: Seq<char>, pos: int) -> Option<
    (int, (Seq<char>, Seq<char>)),
> {
    match spec_open_tag(s, pos, "span"@) {
        Some((p1, al)) => match spec_parse_named_word(s, p1) {
            Some((p2, nw)) => match spec_close_tag(s, p2, "span"@) {
                Some(p3) => if spec_class_ok(al, "subheadword number"@) {
                    Some((p3, nw))
                } else {
                    None
                },
                None => None,
            },
            None => None,
        },
        None => None,
    }
}

pub fn parse_subhead_number(s: &[char], pos: usize) -> (r: Option<(usize, JosushiNumber)>)
    requires
        pos <= s@.len(),
    ensures
        res_of(r, spec_parse_subhead_number(s@, pos as int), pos as int, s@.len() as int),
{
    let tag = str_to_chars("span");
    let cls = str_to_chars("subheadword number");
    match open_tag(s, pos, tag.as_slice()) {
        Some((p1, al)) => match parse_named_word(s, p1) {
            Some((p2, (n, w))) => match close_tag(s, p2, tag.as_slice()) {
                Some(p3) => if class_ok(&al, cls.as_slice()) {
                    Some((p3, JosushiNumber(n, w)))
                } else {
                    None
                },
                None => None,
            },
            None => None,
        },
        None => None,
    }
}

/// A counter-word subhead: `<span class="subheadword josushi">`.
pub open spec fn spec_parse_subheadword_josushi(s: Seq<char>, pos: int) -> Option<
    (int, (Seq<char>, Seq<char>)),
> {
    match spec_open_tag(s, pos, "span"@) {
        Some((p1, al)) => match spec_parse_named_word(s, p1) {
            Some((p2, nw)) => match spec_close_tag(s, p2, "span"@) {
                Some(p3) => if spec_class_ok(al, "subheadword josushi"@) {
                    Some((p3, nw))
                } else {
                    None
                },
                None => None,
            },
            None => None,
        },
        None => None,
    }
}

pub fn parse_subheadword_josushi(s: &[char], pos: usize) -> (r: Option<(usize, JosushiNumber)>)
    requires
        pos <= s@.len(),
    ensures
        res_of(r, spec_parse_subheadword_josushi(s@, pos as int), pos as int, s@.len() as int),
{
    let tag = str_to_chars("span");
    let cls = str_to_chars("subheadword josushi");
    match open_tag(s, pos, tag.as_slice()) {
        Some((p1, al)) => match parse_named_word(s, p1) {
            Some((p2, (n, w))) => match close_tag(s, p2, tag.as_slice()) {
                Some(p3) => if class_ok(&al, cls.as_slice()) {
                    Some((p3, JosushiNumber(n, w)))
                } else {
                    None
                },
                None => None,
            },
            None => None,
        },
        None => None,
    }
}

/// An indented accent run: `<span class="indent">` around full accent text.
pub open spec fn spec_parse_indet(s: Seq<char>, pos: int) -> Option<(int, Seq<AccentTextV>)> {
    match spec_open_tag(s, pos, "span"@) {
        Some((p1, al)) => match spec_parse_accent_text(s, p1) {
            Some((p2, l)) => match spec_close_tag(s, p2, "span"@) {
                Some(p3) => if spec_class_ok(al, "indent"@) {
                    Some((p3, l))
                } else {
                    None
                },
                None => None,
            },
            None => None,
        },
        None => None,
    }
}

pub fn parse_indet(s: &[char], pos: usize) -> (r: Option<(usize, Indent)>)
    requires
        pos <= s@.len(),
    ensures
        res_of(r, spec_parse_indet(s@, pos as int), pos as int, s@.len() as int),
{
    let tag = str_to_chars("span");
    let cls = str_to_chars("indent");
    match open_tag(s, pos, tag.as_slice()) {
        Some((p1, al)) => match parse_accent_text(s, p1) {
            Some((p2, l)) => match close_tag(s, p2, tag.as_slice()) {
                Some(p3) => if class_ok(&al, cls.as_slice()) {
                    Some((p3, Indent(l)))
                } else {
                    None
                },
                None => None,
            },
            None => None,
        },
        None => None,
    }
}

/// The longest run of indented accent runs from `pos`.
pub open spec fn spec_indent_list(s: Seq<char>, pos: int) -> (int, Seq<Seq<AccentTextV>>)
    decreases s.len() - pos,
{
    match spec_parse_indet(s, pos) {
        Some((e, x)) => if pos < e <= s.len() {
            let (e2, rest) = spec_indent_list(s, e);
            (e2, seq![x] + rest)
        } else {
            (pos, Seq::empty())
        },
        None => (pos, Seq::empty()),
    }
}

pub fn indent_list(s: &[char], pos: usize) -> (r: (usize, Vec<Indent>))
    requires
        pos <= s@.len(),
    ensures
        ({
            let (e, l) = spec_indent_list(s@, pos as int);
            &&& r.0 == e
            &&& seq_view(r.1@) == l
            &&& pos <= r.0 <= s@.len()
        }),
{
    let mut cur: usize = pos;
    let mut acc: Vec<Indent> = Vec::new();
    proof {
        assert(seq_view(acc@) =~= Seq::<Seq<AccentTextV>>::empty());
    }
    loop
        invariant
            pos <= cur <= s@.len(),
            ({
                let (e, l) = spec_indent_list(s@, cur as int);
                spec_indent_list(s@, pos as int) == (e, seq_view(acc@) + l)
            }),
        decreases s@.len() - cur,
    {
        match parse_indet(s, cur) {
            Some((e, x)) => {
                let ghost prev = seq_view(acc@);
                let ghost xv = x@;
                proof {
                    let (e2, rest) = spec_indent_list(s@, e as int);
                    assert(spec_indent_list(s@, cur as int) == (e2, seq![xv] + rest));
                    assert(prev + (seq![xv] + rest) =~= (prev + seq![xv]) + rest);
                }
                acc.push(x);
                proof {
                    assert(seq_view(acc@) =~= prev + seq![xv]);
                }
                cur = e;
            },
            None => {
                proof {
                    let (e, l) = spec_indent_list(s@, cur as int);
                    assert(e == cur && l =~= Seq::<Seq<AccentTextV>>::empty());
                    assert(seq_view(acc@) + l =~= seq_view(acc@));
                }
                return (cur, acc);
            },
        }
    }
}

/// One piece of a note segment: raw text, a labelled accent, a marker span,
/// a highlighted run, or a cross-reference — in the grammar's order.
pub open spec fn spec_note_piece(s: Seq<char>, pos: int) -> Option<(int, NoteContentV)> {
    match spec_text_run(s, pos) {
        Some((e, v)) => Some((e, NoteContentV::Text(v))),
        None => match spec_parse_accent(s, pos) {
            Some((e, a)) => Some((e, NoteContentV::Accent(a))),
            None => match spec_parse_symbol_backslash(s, pos) {
                Some((e, v)) => Some((e, NoteContentV::SymbolBackslash(v))),
                None => match spec_parse_round_box(s, pos) {
                    Some((e, v)) => Some((e, NoteContentV::RoundBox(v))),
                    None => match spec_parse_symbol_macron(s, pos) {
                        Some((e, v)) => Some((e, NoteContentV::SymbolMacron(v))),
                        None => match spec_parse_bodyref(s, pos) {
                            Some((e, ic)) => Some((e, NoteContentV::Ref(ic.0, ic.1))),
                            None => None,
                        },
                    },
                },
            },
        },
    }
}

pub fn note_piece(s: &[char], pos: usize) -> (r: Option<(usize, NoteContent)>)
    requires
        pos <= s@.len(),
    ensures
        res_of(r, spec_note_piece(s@, pos as int), pos as int, s@.len() as int),
{
    match text_run(s, pos) {
        Some((e, v)) => {
            return Some((e, NoteContent::Text(chars_to_string(v.as_slice()))));
        },
        None => {},
    }
    match parse_accent(s, pos) {
        Some((e, a)) => {
            return Some((e, NoteContent::Accent(a)));
        },
        None => {},
    }
    match parse_symbol_backslash(s, pos) {
        Some((e, v)) => {
            return Some((e, NoteContent::SymbolBackslash(chars_to_string(v.as_slice()))));
        },
        None => {},
    }
    match parse_round_box(s, pos) {
        Some((e, v)) => {
            return Some((e, NoteContent::RoundBox(chars_to_string(v.as_slice()))));
        },
        None => {},
    }
    match parse_symbol_macron(s, pos) {
        Some((e, v)) => {
            return Some((e, NoteContent::SymbolMacron(chars_to_string(v.as_slice()))));
        },
        None => {},
    }
    match parse_bodyref(s, pos) {
        Some((e, ic)) => {
            return Some((e, NoteContent::Ref(ic.0, ic.1)));
        },
        None => {},
    }
    None
}

/// The longest run of note pieces from `pos`.
pub open spec fn spec_note_piece_list(s: Seq<char>, pos: int) -> (int, Seq<NoteContentV>)
    decreases s.len() - pos,
{
    match spec_note_piece(s, pos) {
        Some((e, x)) => if pos < e <= s.len() {
            let (e2, rest) = spec_note_piece_list(s, e);
            (e2, seq![x] + rest)
        } else {
            (pos, Seq::empty())
        },
        None => (pos, Seq::empty()),
    }
}

pub proof fn lemma_note_piece_list_bounds(s: Seq<char>, pos: int)
    requires
        0 <= pos <= s.len(),
    ensures
        pos <= spec_note_piece_list(s, pos).0 <= s.len(),
        spec_note_piece_list(s, pos).1.len() >= 1 ==> spec_note_piece_list(s, pos).0 > pos,
    decreases s.len() - pos,
{
    match spec_note_piece(s, pos) {
        Some((e, x)) => {
            if pos < e <= s.len() {
                lemma_note_piece_list_bounds(s, e);
            }
        },
        None => {},
    }
}

pub fn note_piece_list(s: &[char], pos: usize) -> (r: (usize, Vec<NoteContent>))
    requires
        pos <= s@.len(),
    ensures
        ({
            let (e, l) = spec_note_piece_list(s@, pos as int);
            &&& r.0 == e
            &&& seq_view(r.1@) == l
            &&& pos <= r.0 <= s@.len()
        }),
{
    let mut cur: usize = pos;
    let mut acc: Vec<NoteContent> = Vec::new();
    proof {
        assert(seq_view(acc@) =~= Seq::<NoteContentV>::empty());
    }
    loop
        invariant
            pos <= cur <= s@.len(),
            ({
                let (e, l) = spec_note_piece_list(s@, cur as int);
                spec_note_piece_list(s@, pos as int) == (e, seq_view(acc@) + l)
            }),
        decreases s@.len() - cur,
    {
        match note_piece(s, cur) {
            Some((e, x)) => {
                let ghost prev = seq_view(acc@);
                let ghost xv = x@;
                proof {
                    let (e2, rest) = spec_note_piece_list(s@, e as int);
                    assert(spec_note_piece_list(s@, cur as int) == (e2, seq![xv] + rest));
                    assert(prev + (seq![xv] + rest) =~= (prev + seq![xv]) + rest);
                }
                acc.push(x);
                proof {
                    assert(seq_view(acc@) =~= prev + seq![xv]);
                }
                cur = e;
            },
            None => {
                proof {
                    let (e, l) = spec_note_piece_list(s@, cur as int);
                    assert(e == cur && l =~= Seq::<NoteContentV>::empty());
                    assert(seq_view(acc@) + l =~= seq_view(acc@));
                }
                return (cur, acc);
            },
        }
    }
}

/// One note segment: an optional line break, an optional number, and a
/// non-empty run of note pieces.
pub open spec fn spec_note_seg(s: Seq<char>, pos: int) -> Option<
    (int, (Option<Seq<char>>, Seq<NoteContentV>)),
> {
    let p = match spec_parse_br(s, pos) {
        Some(e) => e,
        None => pos,
    };
    let (p2, n) = match spec_parse_note_num(s, p) {
        Some((e, v)) => (e, Some(v)),
        None => (p, None),
    };
    let (e2, l) = spec_note_piece_list(s, p2);
    if l.len() >= 1 {
        Some((e2, (n, l)))
    } else {
        None
    }
}

pub fn note_seg(s: &[char], pos: usize) -> (r: Option<(usize, (Option<Num>, Vec<NoteContent>))>)
    requires
        pos <= s@.len(),
    ensures
        match r {
            Some((e, seg)) => {
                &&& spec_note_seg(s@, pos as int) == Some((e as int, note_seg_view(seg)))
                &&& pos < e <= s@.len()
            },
            None => spec_note_seg(s@, pos as int) is None,
        },
{
    let p = match parse_br(s, pos) {
        Some(e) => e,
        None => pos,
    };
    let (p2, n) = match parse_note_num(s, p) {
        Some((e, v)) => (e, Some(Num(chars_to_string(v.as_slice())))),
        None => (p, None),
    };
    let (e2, l) = note_piece_list(s, p2);
    if l.len() >= 1 {
        proof {
            lemma_note_piece_list_bounds(s@, p2 as int);
        }
        Some((e2, (n, l)))
    } else {
        None
    }
}

/// The view of a note-segment list.
pub open spec fn note_seg_list_view(l: Seq<(Option<Num>, Vec<NoteContent>)>) -> Seq<
    (Option<Seq<char>>, Seq<NoteContentV>),
> {
    Seq::new(l.len(), |i: int| note_seg_view(l[i]))
}

/// The longest run of note segments from `pos`.
pub open spec fn spec_note_seg_list(s: Seq<char>, pos: int) -> (
    int,
    Seq<(Option<Seq<char>>, Seq<NoteContentV>)>,
)
    decreases s.len() - pos,
{
    match spec_note_seg(s, pos) {
        Some((e, x)) => if pos < e <= s.len() {
            let (e2, rest) = spec_note_seg_list(s, e);
            (e2, seq![x] + rest)
        } else {
            (pos, Seq::empty())
        },
        None => (pos, Seq::empty()),
    }
}

pub fn note_seg_list(s: &[char], pos: usize) -> (r: (usize, Vec<(Option<Num>, Vec<NoteContent>)>))
    requires
        pos <= s@.len(),
    ensures
        ({
            let (e, l) = spec_note_seg_list(s@, pos as int);
            &&& r.0 == e
            &&& note_seg_list_view(r.1@) == l
            &&& pos <= r.0 <= s@.len()
        }),
{
    let mut cur: usize = pos;
    let mut acc: Vec<(Option<Num>, Vec<NoteContent>)> = Vec::new();
    proof {
        assert(note_seg_list_view(acc@) =~= Seq::<
            (Option<Seq<char>>, Seq<NoteContentV>),
        >::empty());
    }
    loop
        invariant
            pos <= cur <= s@.len(),
            ({
                let (e, l) = spec_note_seg_list(s@, cur as int);
                spec_note_seg_list(s@, pos as int) == (e, note_seg_list_view(acc@) + l)
            }),
        decreases s@.len() - cur,
    {
        match note_seg(s, cur) {
            Some((e, x)) => {
                let ghost prev = note_seg_list_view(acc@);
                let ghost xv = note_seg_view(x);
                proof {
                    let (e2, rest) = spec_note_seg_list(s@, e as int);
                    assert(spec_note_seg_list(s@, cur as int) == (e2, seq![xv] + rest));
                    assert(prev + (seq![xv] + rest) =~= (prev + seq![xv]) + rest);
                }
                acc.push(x);
                proof {
                    assert(note_seg_list_view(acc@) =~= prev + seq![xv]);
                }
                cur = e;
            },
            None => {
                proof {
                    let (e, l) = spec_note_seg_list(s@, cur as int);
                    assert(e == cur && l =~= Seq::<
                        (Option<Seq<char>>, Seq<NoteContentV>),
                    >::empty());
                    assert(note_seg_list_view(acc@) + l =~= note_seg_list_view(acc@));
                }
                return (cur, acc);
            },
        }
    }
}

/// A note block: `<span class="note">` around a non-empty run of segments.
pub open spec fn spec_parse_note(s: Seq<char>, pos: int) -> Option<
    (int, Seq<(Option<Seq<char>>, Seq<NoteContentV>)>),
> {
    match spec_open_tag(s, pos, "span"@) {
        Some((p1, al)) => {
            let (te, l) = spec_note_seg_list(s, p1);
            if l.len() >= 1 {
                match spec_close_tag(s, te, "span"@) {
                    Some(p2) => if spec_class_ok(al, "note"@) {
                        Some((p2, l))
                    } else {
                        None
                    },
                    None => None,
                }
            } else {
                None
            }
        },
        None => None,
    }
}

pub fn parse_note(s: &[char], pos: usize) -> (r: Option<(usize, Notes)>)
    requires
        pos <= s@.len(),
    ensures
        res_of(r, spec_parse_note(s@, pos as int), pos as int, s@.len() as int),
{
    let tag = str_to_chars("span");
    let cls = str_to_chars("note");
    match open_tag(s, pos, tag.as_slice()) {
        Some((p1, al)) => {
            let (te, l) = note_seg_list(s, p1);
            if l.len() >= 1 {
                match close_tag(s, te, tag.as_slice()) {
                    Some(p2) => if class_ok(&al, cls.as_slice()) {
                        Some((p2, Notes(l)))
                    } else {
                        None
                    },
                    None => None,
                }
            } else {
                None
            }
        },
        None => None,
    }
}

/// A counter-word table: `<div class="josushi">` around a numbered subhead,
/// a non-empty accent run, indented runs, and an optional note block.
pub open spec fn spec_parse_josuhi(s: Seq<char>, pos: int) -> Option<(int, crate::ast::JosushiV)> {
    match spec_open_tag(s, pos, "div"@) {
        Some((p1, al)) => {
            let num = match spec_parse_subhead_number(s, p1) {
                Some(r) => Some(r),
                None => spec_parse_subheadword_josushi(s, p1),
            };
            match num {
                Some((p2, n)) => {
                    let (p3, accents) = spec_accent1_list(s, p2);
                    if accents.len() >= 1 {
                        let (p4, indents) = spec_indent_list(s, p3);
                        let (p5, notes) = match spec_parse_note(s, p4) {
                            Some((e, ns)) => (e, Some(ns)),
                            None => (p4, None),
                        };
                        match spec_close_tag(s, p5, "div"@) {
                            Some(p6) => if spec_class_ok(al, "josushi"@) {
                                Some((p6, (n, accents, indents, notes)))
                            } else {
                                None
                            },
                            None => None,
                        }
                    } else {
                        None
                    }
                },
                None => None,
            }
        },
        None => None,
    }
}

pub fn parse_josuhi(s: &[char], pos: usize) -> (r: Option<(usize, Josushi)>)
    requires
        pos <= s@.len(),
    ensures
        res_of(r, spec_parse_josuhi(s@, pos as int), pos as int, s@.len() as int),
{
    let tag = str_to_chars("div");
    let cls = str_to_chars("josushi");
    match open_tag(s, pos, tag.as_slice()) {
        Some((p1, al)) => {
            let num = match parse_subhead_number(s, p1) {
                Some(r) => Some(r),
                None => parse_subheadword_josushi(s, p1),
            };
            match num {
                Some((p2, n)) => {
                    let (p3, accents) = accent1_list(s, p2);
                    if accents.len() >= 1 {
                        proof {
                            lemma_accent1_list_bounds(s@, p2 as int);
                        }
                        let (p4, indents) = indent_list(s, p3);
                        let (p5, notes) = match parse_note(s, p4) {
                            Some((e, ns)) => (e, Some(ns)),
                            None => (p4, None),
                        };
                        match close_tag(s, p5, tag.as_slice()) {
                            Some(p6) => if class_ok(&al, cls.as_slice()) {
                                Some((p6, Josushi(n, accents, indents, notes)))
                            } else {
                                None
                            },
                            None => None,
                        }
                    } else {
                        None
                    }
                },
                None => None,
            }
        },
        None => None,
    }
}

} // verus!
