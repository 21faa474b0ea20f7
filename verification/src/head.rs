//! The headword rules of the entry grammar: headword fragments, bracketed
//! forms with inner annotation runs, cross-reference heads, and the head of
//! a head+body group.
use vstd::prelude::*;

use crate::ast::DAngleBrackets;
use crate::ast::H;
use crate::ast::HV;
use crate::ast::Head;
use crate::ast::HeadV;
use crate::ast::Inner;
use crate::ast::InnerV;
use crate::ast::Joshiword;
use crate::ast::RefHead;
use crate::ast::RefHeadV;
use crate::ast::Ruby;
use crate::ast::ruby_pair_view;
use crate::ast::seq_view;
use crate::rules::parse_d_angle_brackets;
use crate::rules::parse_dia;
use crate::rules::parse_angle_brackets;
use crate::rules::parse_headword;
use crate::rules::parse_named_word;
use crate::rules::parse_refheadword;
use crate::rules::parse_round_brackets;
use crate::rules::parse_ruby;
use crate::rules::parse_span;
use crate::rules::parse_square_box;
use crate::rules::parse_square_brackets;
use crate::rules::spec_parse_angle_brackets;
use crate::rules::spec_parse_d_angle_brackets;
use crate::rules::spec_parse_dia;
use crate::rules::spec_parse_headword;
use crate::rules::spec_parse_named_word;
use crate::rules::spec_parse_refheadword;
use crate::rules::spec_parse_round_brackets;
use crate::rules::spec_parse_ruby;
use crate::rules::spec_parse_span;
use crate::rules::spec_parse_square_box;
use crate::rules::spec_parse_square_brackets;
use crate::strutil::chars_to_string;
use crate::strutil::str_to_chars;
use crate::xml::res_of;
use crate::xml::spec_class_ok;
use crate::xml::spec_close_tag;
use crate::xml::spec_empty_tag;
use crate::xml::spec_h_text;
use crate::xml::spec_kana;
use crate::xml::spec_lit;
use crate::xml::spec_open_tag;
use crate::xml::spec_text_run;
use crate::xml::class_ok;
use crate::xml::close_tag;
use crate::xml::empty_xml_tag;
use crate::xml::h_text;
use crate::xml::kana;
use crate::xml::lit;
use crate::xml::open_tag;
use crate::xml::text_run;

verus! {

/// One ruby annotation with an optional trailing kana run.
pub open spec fn spec_ruby_pair(s: Seq<char>, pos: int) -> Option<
    (int, ((Seq<char>, Seq<char>), Option<Seq<char>>)),
> {
    match spec_parse_ruby(s, pos) {
        Some((p1, rb)) => {
            let (p2, k) = match spec_kana(s, p1) {
                Some((e, v)) => (e, Some(v)),
                None => (p1, None),
            };
            Some((p2, (rb, k)))
        },
        None => None,
    }
}

pub fn ruby_pair(s: &[char], pos: usize) -> (r: Option<(usize, (Ruby, Option<String>))>)
    requires
        pos <= s@.len(),
    ensures
        match r {
            Some((e, p)) => {
                &&& spec_ruby_pair(s@, pos as int) == Some((e as int, ruby_pair_view(p)))
                &&& pos < e <= s@.len()
            },
            None => spec_ruby_pair(s@, pos as int) is None,
        },
{
    match parse_ruby(s, pos) {
        Some((p1, rb)) => {
            let (p2, k) = match kana(s, p1) {
                Some((e, v)) => (e, Some(chars_to_string(v.as_slice()))),
                None => (p1, None),
            };
            Some((p2, (rb, k)))
        },
        None => None,
    }
}

/// The view of a ruby-pair list.
pub open spec fn ruby_list_view(l: Seq<(Ruby, Option<String>)>) -> Seq<
    ((Seq<char>, Seq<char>), Option<Seq<char>>),
> {
    Seq::new(l.len(), |i: int| ruby_pair_view(l[i]))
}

/// The longest run of ruby pairs from `pos`.
pub open spec fn spec_ruby_list(s: Seq<char>, pos: int) -> (
    int,
    Seq<((Seq<char>, Seq<char>), Option<Seq<char>>)>,
)
    decreases s.len() - pos,
{
    match spec_ruby_pair(s, pos) {
        Some((e, x)) => if pos < e <= s.len() {
            let (e2, rest) = spec_ruby_list(s, e);
            (e2, seq![x] + rest)
        } else {
            (pos, Seq::empty())
        },
        None => (pos, Seq::empty()),
    }
}

pub proof fn lemma_ruby_list_bounds(s: Seq<char>, pos: int)
    requires
        0 <= pos <= s.len(),
    ensures
        pos <= spec_ruby_list(s, pos).0 <= s.len(),
        spec_ruby_list(s, pos).1.len() >= 1 ==> spec_ruby_list(s, pos).0 > pos,
    decreases s.len() - pos,
{
    match spec_ruby_pair(s, pos) {
        Some((e, x)) => {
            if pos < e <= s.len() {
                lemma_ruby_list_bounds(s, e);
            }
        },
        None => {},
    }
}

pub fn ruby_list(s: &[char], pos: usize) -> (r: (usize, Vec<(Ruby, Option<String>)>))
    requires
        pos <= s@.len(),
    ensures
        ({
            let (e, l) = spec_ruby_list(s@, pos as int);
            &&& r.0 == e
            &&& ruby_list_view(r.1@) == l
            &&& pos <= r.0 <= s@.len()
        }),
{
    let mut cur: usize = pos;
    let mut acc: Vec<(Ruby, Option<String>)> = Vec::new();
    proof {
        assert(ruby_list_view(acc@) =~= Seq::<
            ((Seq<char>, Seq<char>), Option<Seq<char>>),
        >::empty());
    }
    loop
        invariant
            pos <= cur <= s@.len(),
            ({
                let (e, l) = spec_ruby_list(s@, cur as int);
                spec_ruby_list(s@, pos as int) == (e, ruby_list_view(acc@) + l)
            }),
        decreases s@.len() - cur,
    {
        match ruby_pair(s, cur) {
            Some((e, x)) => {
                let ghost prev = ruby_list_view(acc@);
                let ghost xv = ruby_pair_view(x);
                proof {
                    let (e2, rest) = spec_ruby_list(s@, e as int);
                    assert(spec_ruby_list(s@, cur as int) == (e2, seq![xv] + rest));
                    assert(prev + (seq![xv] + rest) =~= (prev + seq![xv]) + rest);
                }
                acc.push(x);
                proof {
                    assert(ruby_list_view(acc@) =~= prev + seq![xv]);
                }
                cur = e;
            },
            None => {
                proof {
                    let (e, l) = spec_ruby_list(s@, cur as int);
                    assert(e == cur && l =~= Seq::<
                        ((Seq<char>, Seq<char>), Option<Seq<char>>),
                    >::empty());
                    assert(ruby_list_view(acc@) + l =~= ruby_list_view(acc@));
                }
                return (cur, acc);
            },
        }
    }
}

/// One inner annotation alternative, as the annotated headword form accepts
/// it: double-angle text, a non-empty ruby run, round brackets, annotation
/// text, or a bare span — in that order.
pub open spec fn spec_inner5(s: Seq<char>, pos: int) -> Option<(int, InnerV)> {
    match spec_parse_d_angle_brackets(s, pos) {
        Some((e, v)) => Some((e, InnerV::DAngleBrackets(v))),
        None => {
            let (e, l) = spec_ruby_list(s, pos);
            if l.len() >= 1 {
                Some((e, InnerV::Ruby(l)))
            } else {
                match spec_parse_round_brackets(s, pos) {
                    Some((e2, v)) => Some((e2, InnerV::RoundBrackets(v))),
                    None => match spec_h_text(s, pos) {
                        Some((e2, v)) => Some((e2, InnerV::Text(v))),
                        None => match spec_parse_span(s, pos) {
                            Some((e2, v)) => Some((e2, InnerV::Span(v))),
                            None => None,
                        },
                    },
                }
            }
        },
    }
}

pub fn inner5(s: &[char], pos: usize) -> (r: Option<(usize, Inner)>)
    requires
        pos <= s@.len(),
    ensures
        res_of(r, spec_inner5(s@, pos as int), pos as int, s@.len() as int),
{
    match parse_d_angle_brackets(s, pos) {
        Some((e, v)) => {
            return Some(
                (e, Inner::DAngleBrackets(DAngleBrackets(chars_to_string(v.as_slice())))),
            );
        },
        None => {},
    }
    let (e, l) = ruby_list(s, pos);
    if l.len() >= 1 {
        proof {
            lemma_ruby_list_bounds(s@, pos as int);
        }
        return Some((e, Inner::Ruby(l)));
    }
    match parse_round_brackets(s, pos) {
        Some((e2, v)) => {
            return Some((e2, Inner::RoundBrackets(chars_to_string(v.as_slice()))));
        },
        None => {},
    }
    match h_text(s, pos) {
        Some((e2, v)) => {
            return Some((e2, Inner::Text(chars_to_string(v.as_slice()))));
        },
        None => {},
    }
    match parse_span(s, pos) {
        Some((e2, v)) => {
            return Some((e2, Inner::Span(chars_to_string(v.as_slice()))));
        },
        None => {},
    }
    None
}

/// The longest run of inner annotation alternatives from `pos`.
pub open spec fn spec_inner5_list(s: Seq<char>, pos: int) -> (int, Seq<InnerV>)
    decreases s.len() - pos,
{
    match spec_inner5(s, pos) {
        Some((e, x)) => if pos < e <= s.len() {
            let (e2, rest) = spec_inner5_list(s, e);
            (e2, seq![x] + rest)
        } else {
            (pos, Seq::empty())
        },
        None => (pos, Seq::empty()),
    }
}

pub fn inner5_list(s: &[char], pos: usize) -> (r: (usize, Vec<Inner>))
    requires
        pos <= s@.len(),
    ensures
        ({
            let (e, l) = spec_inner5_list(s@, pos as int);
            &&& r.0 == e
            &&& seq_view(r.1@) == l
            &&& pos <= r.0 <= s@.len()
        }),
{
    let mut cur: usize = pos;
    let mut acc: Vec<Inner> = Vec::new();
    proof {
        assert(seq_view(acc@) =~= Seq::<InnerV>::empty());
    }
    loop
        invariant
            pos <= cur <= s@.len(),
            ({
                let (e, l) = spec_inner5_list(s@, cur as int);
                spec_inner5_list(s@, pos as int) == (e, seq_view(acc@) + l)
            }),
        decreases s@.len() - cur,
    {
        match inner5(s, cur) {
            Some((e, x)) => {
                let ghost prev = seq_view(acc@);
                let ghost xv = x@;
                proof {
                    let (e2, rest) = spec_inner5_list(s@, e as int);
                    assert(spec_inner5_list(s@, cur as int) == (e2, seq![xv] + rest));
                    assert(prev + (seq![xv] + rest) =~= (prev + seq![xv]) + rest);
                }
                acc.push(x);
                proof {
                    assert(seq_view(acc@) =~= prev + seq![xv]);
                }
                cur = e;
            },
            None => {
                proof {
                    let (e, l) = spec_inner5_list(s@, cur as int);
                    assert(e == cur && l =~= Seq::<InnerV>::empty());
                    assert(seq_view(acc@) + l =~= seq_view(acc@));
                }
                return (cur, acc);
            },
        }
    }
}

/// One inner annotation alternative, as the black-brackets form accepts it:
/// double-angle text, a non-empty ruby run, or round brackets.
pub open spec fn spec_inner3(s: Seq<char>, pos: int) -> Option<(int, InnerV)> {
    match spec_parse_d_angle_brackets(s, pos) {
        Some((e, v)) => Some((e, InnerV::DAngleBrackets(v))),
        None => {
            let (e, l) = spec_ruby_list(s, pos);
            if l.len() >= 1 {
                Some((e, InnerV::Ruby(l)))
            } else {
                match spec_parse_round_brackets(s, pos) {
                    Some((e2, v)) => Some((e2, InnerV::RoundBrackets(v))),
                    None => None,
                }
            }
        },
    }
}

pub fn inner3(s: &[char], pos: usize) -> (r: Option<(usize, Inner)>)
    requires
        pos <= s@.len(),
    ensures
        res_of(r, spec_inner3(s@, pos as int), pos as int, s@.len() as int),
{
    match parse_d_angle_brackets(s, pos) {
        Some((e, v)) => {
            return Some(
                (e, Inner::DAngleBrackets(DAngleBrackets(chars_to_string(v.as_slice())))),
            );
        },
        None => {},
    }
    let (e, l) = ruby_list(s, pos);
    if l.len() >= 1 {
        proof {
            lemma_ruby_list_bounds(s@, pos as int);
        }
        return Some((e, Inner::Ruby(l)));
    }
    match parse_round_brackets(s, pos) {
        Some((e2, v)) => {
            return Some((e2, Inner::RoundBrackets(chars_to_string(v.as_slice()))));
        },
        None => {},
    }
    None
}

/// A bracketed headword with an optional inner annotation run closed by a
/// full-width closing bracket: `<span class="hw">`.
pub open spec fn spec_parse_hw(s: Seq<char>, pos: int) -> Option<
    (int, (Seq<char>, Option<(Seq<InnerV>, char)>)),
> {
    match spec_open_tag(s, pos, "span"@) {
        Some((p1, al)) => match spec_text_run(s, p1) {
            Some((te, t)) => {
                let (p2, o) = ({
                    let (e1, items) = spec_inner5_list(s, te);
                    if items.len() >= 1 {
                        match spec_lit(s, e1, '】') {
                            Some(e2) => (e2, Some((items, '】'))),
                            None => (te, None),
                        }
                    } else {
                        (te, None)
                    }
                });
                match spec_close_tag(s, p2, "span"@) {
                    Some(p3) => if spec_class_ok(al, "hw"@) {
                        Some((p3, (t, o)))
                    } else {
                        None
                    },
                    None => None,
                }
            },
            None => None,
        },
        None => None,
    }
}

pub fn parse_hw(s: &[char], pos: usize) -> (r: Option<
    (usize, (String, Option<(Vec<Inner>, char)>)),
>)
    requires
        pos <= s@.len(),
    ensures
        match r {
            Some((e, hw)) => {
                &&& spec_parse_hw(s@, pos as int) == Some(
                    (
                        e as int,
                        (
                            hw.0@,
                            match hw.1 {
                                Some((v, c)) => Some((seq_view(v@), c)),
                                None => None,
                            },
                        ),
                    ),
                )
                &&& pos < e <= s@.len()
            },
            None => spec_parse_hw(s@, pos as int) is None,
        },
{
    let tag = str_to_chars("span");
    let cls = str_to_chars("hw");
    match open_tag(s, pos, tag.as_slice()) {
        Some((p1, al)) => match text_run(s, p1) {
            Some((te, t)) => {
                let (p2, o) = ({
                    let (e1, items) = inner5_list(s, te);
                    if items.len() >= 1 {
                        match lit(s, e1, '】') {
                            Some(e2) => (e2, Some((items, '】'))),
                            None => (te, None),
                        }
                    } else {
                        (te, None)
                    }
                });
                match close_tag(s, p2, tag.as_slice()) {
                    Some(p3) => if class_ok(&al, cls.as_slice()) {
                        Some((p3, (chars_to_string(t.as_slice()), o)))
                    } else {
                        None
                    },
                    None => None,
                }
            },
            None => None,
        },
        None => None,
    }
}

/// A black-bracketed headword with an optional single inner annotation
/// closed by a full-width closing bracket: `<span class="black_branckets">`.
pub open spec fn spec_parse_black_branckets(s: Seq<char>, pos: int) -> Option<
    (int, (Seq<char>, Option<(InnerV, char)>)),
> {
    match spec_open_tag(s, pos, "span"@) {
        Some((p1, al)) => match spec_text_run(s, p1) {
            Some((te, t)) => {
                let (p2, o) = ({
                    match spec_inner3(s, te) {
                        Some((e1, item)) => match spec_lit(s, e1, '】') {
                            Some(e2) => (e2, Some((item, '】'))),
                            None => (te, None),
                        },
                        None => (te, None),
                    }
                });
                match spec_close_tag(s, p2, "span"@) {
                    Some(p3) => if spec_class_ok(al, "black_branckets"@) {
                        Some((p3, (t, o)))
                    } else {
                        None
                    },
                    None => None,
                }
            },
            None => None,
        },
        None => None,
    }
}

pub fn parse_black_branckets(s: &[char], pos: usize) -> (r: Option<
    (usize, (String, Option<(Inner, char)>)),
>)
    requires
        pos <= s@.len(),
    ensures
        match r {
            Some((e, bb)) => {
                &&& spec_parse_black_branckets(s@, pos as int) == Some(
                    (
                        e as int,
                        (
                            bb.0@,
                            match bb.1 {
                                Some((i, c)) => Some((i@, c)),
                                None => None,
                            },
                        ),
                    ),
                )
                &&& pos < e <= s@.len()
            },
            None => spec_parse_black_branckets(s@, pos as int) is None,
        },
{
    let tag = str_to_chars("span");
    let cls = str_to_chars("black_branckets");
    match open_tag(s, pos, tag.as_slice()) {
        Some((p1, al)) => match text_run(s, p1) {
            Some((te, t)) => {
                let (p2, o) = ({
                    match inner3(s, te) {
                        Some((e1, item)) => match lit(s, e1, '】') {
                            Some(e2) => (e2, Some((item, '】'))),
                            None => (te, None),
                        },
                        None => (te, None),
                    }
                });
                match close_tag(s, p2, tag.as_slice()) {
                    Some(p3) => if class_ok(&al, cls.as_slice()) {
                        Some((p3, (chars_to_string(t.as_slice()), o)))
                    } else {
                        None
                    },
                    None => None,
                }
            },
            None => None,
        },
        None => None,
    }
}

/// A named (anchored) subheadword: `<span class="subheadword ">` — the
/// role string carries a trailing blank in the markup.
pub open spec fn spec_parse_subheadword(s: Seq<char>, pos: int) -> Option<
    (int, (Seq<char>, Seq<char>)),
> {
    match spec_open_tag(s, pos, "span"@) {
        Some((p1, al)) => match spec_parse_named_word(s, p1) {
            Some((p2, nw)) => match spec_close_tag(s, p2, "span"@) {
                Some(p3) => if spec_class_ok(al, "subheadword "@) {
                    Some((p3, nw))
                } else {
                    None
                },
                None => None,
            },
            None => None,
        },
        None => None,
    }
}

pub fn parse_subheadword(s: &[char], pos: usize) -> (r: Option<(usize, H)>)
    requires
        pos <= s@.len(),
    ensures
        match r {
            Some((e, h)) => {
                &&& h is Subheadword
                &&& spec_parse_subheadword(s@, pos as int) == Some(
                    (e as int, (h->Subheadword_0@, h->Subheadword_1@)),
                )
                &&& pos < e <= s@.len()
            },
            None => spec_parse_subheadword(s@, pos as int) is None,
        },
{
    let tag = str_to_chars("span");
    let cls = str_to_chars("subheadword ");
    match open_tag(s, pos, tag.as_slice()) {
        Some((p1, al)) => match parse_named_word(s, p1) {
            Some((p2, (n, w))) => match close_tag(s, p2, tag.as_slice()) {
                Some(p3) => if class_ok(&al, cls.as_slice()) {
                    Some((p3, H::Subheadword(n, w)))
                } else {
                    None
                },
                None => None,
            },
            None => None,
        },
        None => None,
    }
}

/// A "counter word"-style headword: `<span class="joshiword">`.
pub open spec fn spec_parse_joshi_word(s: Seq<char>, pos: int) -> Option<
    (int, (Seq<char>, Seq<char>)),
> {
    match spec_open_tag(s, pos, "span"@) {
        Some((p1, al)) => match spec_parse_named_word(s, p1) {
            Some((p2, nw)) => match spec_close_tag(s, p2, "span"@) {
                Some(p3) => if spec_class_ok(al, "joshiword"@) {
                    Some((p3, nw))
                } else {
                    None
                },
                None => None,
            },
            None => None,
        },
        None => None,
    }
}

pub fn parse_joshi_word(s: &[char], pos: usize) -> (r: Option<(usize, Joshiword)>)
    requires
        pos <= s@.len(),
    ensures
        res_of(r, spec_parse_joshi_word(s@, pos as int), pos as int, s@.len() as int),
{
    let tag = str_to_chars("span");
    let cls = str_to_chars("joshiword");
    match open_tag(s, pos, tag.as_slice()) {
        Some((p1, al)) => match parse_named_word(s, p1) {
            Some((p2, (n, w))) => match close_tag(s, p2, tag.as_slice()) {
                Some(p3) => if class_ok(&al, cls.as_slice()) {
                    Some((p3, Joshiword(n, w)))
                } else {
                    None
                },
                None => None,
            },
            None => None,
        },
        None => None,
    }
}

/// One headword fragment: the ten-way alternative in the grammar's fixed
/// priority order.
pub open spec fn spec_h_piece(s: Seq<char>, pos: int) -> Option<(int, HV)> {
    match spec_parse_headword(s, pos) {
        Some((e, v)) => Some((e, HV::Headword(v))),
        None => match spec_parse_hw(s, pos) {
            Some((e, (t, o))) => Some((e, HV::HW(t, o))),
            None => match spec_parse_round_brackets(s, pos) {
                Some((e, v)) => Some((e, HV::RoundBrackets(v))),
                None => match spec_parse_square_brackets(s, pos) {
                    Some((e, v)) => Some((e, HV::SquareBrackets(v))),
                    None => match spec_parse_square_box(s, pos) {
                        Some((e, v)) => Some((e, HV::SquareBox(v))),
                        None => match spec_parse_subheadword(s, pos) {
                            Some((e, (n, w))) => Some((e, HV::Subheadword(n, w))),
                            None => match spec_parse_black_branckets(s, pos) {
                                Some((e, (t, o))) => Some((e, HV::BlackBranckets(t, o))),
                                None => match spec_parse_d_angle_brackets(s, pos) {
                                    Some((e, v)) => Some((e, HV::DAngleBrackets(v))),
                                    None => match spec_parse_angle_brackets(s, pos) {
                                        Some((e, v)) => Some((e, HV::AngleBrackets(v))),
                                        None => match spec_parse_dia(s, pos) {
                                            Some((e, v)) => Some((e, HV::Dia(v))),
                                            None => None,
                                        },
                                    },
                                },
                            },
                        },
                    },
                },
            },
        },
    }
}

pub fn h_piece(s: &[char], pos: usize) -> (r: Option<(usize, H)>)
    requires
        pos <= s@.len(),
    ensures
        res_of(r, spec_h_piece(s@, pos as int), pos as int, s@.len() as int),
{
    match parse_headword(s, pos) {
        Some((e, v)) => {
            return Some((e, H::Headword(chars_to_string(v.as_slice()))));
        },
        None => {},
    }
    match parse_hw(s, pos) {
        Some((e, (t, o))) => {
            return Some((e, H::HW(t, o)));
        },
        None => {},
    }
    match parse_round_brackets(s, pos) {
        Some((e, v)) => {
            return Some((e, H::RoundBrackets(chars_to_string(v.as_slice()))));
        },
        None => {},
    }
    match parse_square_brackets(s, pos) {
        Some((e, v)) => {
            return Some((e, H::SquareBrackets(chars_to_string(v.as_slice()))));
        },
        None => {},
    }
    match parse_square_box(s, pos) {
        Some((e, v)) => {
            return Some((e, H::SquareBox(chars_to_string(v.as_slice()))));
        },
        None => {},
    }
    match parse_subheadword(s, pos) {
        Some((e, h)) => {
            return Some((e, h));
        },
        None => {},
    }
    match parse_black_branckets(s, pos) {
        Some((e, (t, o))) => {
            return Some((e, H::BlackBranckets(t, o)));
        },
        None => {},
    }
    match parse_d_angle_brackets(s, pos) {
        Some((e, v)) => {
            return Some((e, H::DAngleBrackets(chars_to_string(v.as_slice()))));
        },
        None => {},
    }
    match parse_angle_brackets(s, pos) {
        Some((e, v)) => {
            return Some((e, H::AngleBrackets(chars_to_string(v.as_slice()))));
        },
        None => {},
    }
    match parse_dia(s, pos) {
        Some((e, v)) => {
            return Some((e, H::Dia(chars_to_string(v.as_slice()))));
        },
        None => {},
    }
    None
}

/// The longest run of headword fragments from `pos`.
pub open spec fn spec_h_list(s: Seq<char>, pos: int) -> (int, Seq<HV>)
    decreases s.len() - pos,
{
    match spec_h_piece(s, pos) {
        Some((e, x)) => if pos < e <= s.len() {
            let (e2, rest) = spec_h_list(s, e);
            (e2, seq![x] + rest)
        } else {
            (pos, Seq::empty())
        },
        None => (pos, Seq::empty()),
    }
}

pub fn h_list(s: &[char], pos: usize) -> (r: (usize, Vec<H>))
    requires
        pos <= s@.len(),
    ensures
        ({
            let (e, l) = spec_h_list(s@, pos as int);
            &&& r.0 == e
            &&& seq_view(r.1@) == l
            &&& pos <= r.0 <= s@.len()
        }),
{
    let mut cur: usize = pos;
    let mut acc: Vec<H> = Vec::new();
    proof {
        assert(seq_view(acc@) =~= Seq::<HV>::empty());
    }
    loop
        invariant
            pos <= cur <= s@.len(),
            ({
                let (e, l) = spec_h_list(s@, cur as int);
                spec_h_list(s@, pos as int) == (e, seq_view(acc@) + l)
            }),
        decreases s@.len() - cur,
    {
        match h_piece(s, cur) {
            Some((e, x)) => {
                let ghost prev = seq_view(acc@);
                let ghost xv = x@;
                proof {
                    let (e2, rest) = spec_h_list(s@, e as int);
                    assert(spec_h_list(s@, cur as int) == (e2, seq![xv] + rest));
                    assert(prev + (seq![xv] + rest) =~= (prev + seq![xv]) + rest);
                }
                acc.push(x);
                proof {
                    assert(seq_view(acc@) =~= prev + seq![xv]);
                }
                cur = e;
            },
            None => {
                proof {
                    let (e, l) = spec_h_list(s@, cur as int);
                    assert(e == cur && l =~= Seq::<HV>::empty());
                    assert(seq_view(acc@) + l =~= seq_view(acc@));
                }
                return (cur, acc);
            },
        }
    }
}

/// A full headword fragment sequence: `<span class="h">` around a
/// possibly-empty run of fragments.
pub open spec fn spec_parse_h(s: Seq<char>, pos: int) -> Option<(int, Seq<HV>)> {
    match spec_open_tag(s, pos, "span"@) {
        Some((p1, al)) => {
            let (te, l) = spec_h_list(s, p1);
            match spec_close_tag(s, te, "span"@) {
                Some(p2) => if spec_class_ok(al, "h"@) {
                    Some((p2, l))
                } else {
                    None
                },
                None => None,
            }
        },
        None => None,
    }
}

pub fn parse_h(s: &[char], pos: usize) -> (r: Option<(usize, Vec<H>)>)
    requires
        pos <= s@.len(),
    ensures
        match r {
            Some((e, l)) => {
                &&& spec_parse_h(s@, pos as int) == Some((e as int, seq_view(l@)))
                &&& pos < e <= s@.len()
            },
            None => spec_parse_h(s@, pos as int) is None,
        },
{
    let tag = str_to_chars("span");
    let cls = str_to_chars("h");
    match open_tag(s, pos, tag.as_slice()) {
        Some((p1, al)) => {
            let (te, l) = h_list(s, p1);
            match close_tag(s, te, tag.as_slice()) {
                Some(p2) => if class_ok(&al, cls.as_slice()) {
                    Some((p2, l))
                } else {
                    None
                },
                None => None,
            }
        },
        None => None,
    }
}

/// One cross-reference headword fragment: the five-way alternative in the
/// grammar's fixed order.
pub open spec fn spec_refhead_piece(s: Seq<char>, pos: int) -> Option<(int, RefHeadV)> {
    match spec_parse_refheadword(s, pos) {
        Some((e, v)) => Some((e, RefHeadV::Refheadword(v))),
        None => match spec_parse_black_branckets(s, pos) {
            Some((e, (t, o))) => Some((e, RefHeadV::BlackBranckets(t, o))),
            None => match spec_parse_d_angle_brackets(s, pos) {
                Some((e, v)) => Some((e, RefHeadV::DAngleBrackets(v))),
                None => match spec_parse_round_brackets(s, pos) {
                    Some((e, v)) => Some((e, RefHeadV::RoundBrackets(v))),
                    None => match spec_parse_square_brackets(s, pos) {
                        Some((e, v)) => Some((e, RefHeadV::SquareBrackets(v))),
                        None => None,
                    },
                },
            },
        },
    }
}

pub fn refhead_piece(s: &[char], pos: usize) -> (r: Option<(usize, RefHead)>)
    requires
        pos <= s@.len(),
    ensures
        res_of(r, spec_refhead_piece(s@, pos as int), pos as int, s@.len() as int),
{
    match parse_refheadword(s, pos) {
        Some((e, v)) => {
            return Some((e, RefHead::Refheadword(chars_to_string(v.as_slice()))));
        },
        None => {},
    }
    match parse_black_branckets(s, pos) {
        Some((e, (t, o))) => {
            return Some((e, RefHead::BlackBranckets(t, o)));
        },
        None => {},
    }
    match parse_d_angle_brackets(s, pos) {
        Some((e, v)) => {
            return Some((e, RefHead::DAngleBrackets(chars_to_string(v.as_slice()))));
        },
        None => {},
    }
    match parse_round_brackets(s, pos) {
        Some((e, v)) => {
            return Some((e, RefHead::RoundBrackets(chars_to_string(v.as_slice()))));
        },
        None => {},
    }
    match parse_square_brackets(s, pos) {
        Some((e, v)) => {
            return Some((e, RefHead::SquareBrackets(chars_to_string(v.as_slice()))));
        },
        None => {},
    }
    None
}

/// The longest run of cross-reference headword fragments from `pos`.
pub open spec fn spec_refhead_list(s: Seq<char>, pos: int) -> (int, Seq<RefHeadV>)
    decreases s.len() - pos,
{
    match spec_refhead_piece(s, pos) {
        Some((e, x)) => if pos < e <= s.len() {
            let (e2, rest) = spec_refhead_list(s, e);
            (e2, seq![x] + rest)
        } else {
            (pos, Seq::empty())
        },
        None => (pos, Seq::empty()),
    }
}

pub fn refhead_list(s: &[char], pos: usize) -> (r: (usize, Vec<RefHead>))
    requires
        pos <= s@.len(),
    ensures
        ({
            let (e, l) = spec_refhead_list(s@, pos as int);
            &&& r.0 == e
            &&& seq_view(r.1@) == l
            &&& pos <= r.0 <= s@.len()
        }),
{
    let mut cur: usize = pos;
    let mut acc: Vec<RefHead> = Vec::new();
    proof {
        assert(seq_view(acc@) =~= Seq::<RefHeadV>::empty());
    }
    loop
        invariant
            pos <= cur <= s@.len(),
            ({
                let (e, l) = spec_refhead_list(s@, cur as int);
                spec_refhead_list(s@, pos as int) == (e, seq_view(acc@) + l)
            }),
        decreases s@.len() - cur,
    {
        match refhead_piece(s, cur) {
            Some((e, x)) => {
                let ghost prev = seq_view(acc@);
                let ghost xv = x@;
                proof {
                    let (e2, rest) = spec_refhead_list(s@, e as int);
                    assert(spec_refhead_list(s@, cur as int) == (e2, seq![xv] + rest));
                    assert(prev + (seq![xv] + rest) =~= (prev + seq![xv]) + rest);
                }
                acc.push(x);
                proof {
                    assert(seq_view(acc@) =~= prev + seq![xv]);
                }
                cur = e;
            },
            None => {
                proof {
                    let (e, l) = spec_refhead_list(s@, cur as int);
                    assert(e == cur && l =~= Seq::<RefHeadV>::empty());
                    assert(seq_view(acc@) + l =~= seq_view(acc@));
                }
                return (cur, acc);
            },
        }
    }
}

/// A cross-reference head: `<span class="ref">` around a non-empty fragment
/// run.
pub open spec fn spec_parse_refhead(s: Seq<char>, pos: int) -> Option<(int, Seq<RefHeadV>)> {
    match spec_open_tag(s, pos, "span"@) {
        Some((p1, al)) => {
            let (te, l) = spec_refhead_list(s, p1);
            if l.len() >= 1 {
                match spec_close_tag(s, te, "span"@) {
                    Some(p2) => if spec_class_ok(al, "ref"@) {
                        Some((p2, l))
                    } else {
                        None
                    },
                    None => None,
                }
            } else {
                None
            }
        },
        None => None,
    }
}

pub fn parse_refhead(s: &[char], pos: usize) -> (r: Option<(usize, Vec<RefHead>)>)
    requires
        pos <= s@.len(),
    ensures
        match r {
            Some((e, l)) => {
                &&& spec_parse_refhead(s@, pos as int) == Some((e as int, seq_view(l@)))
                &&& pos < e <= s@.len()
            },
            None => spec_parse_refhead(s@, pos as int) is None,
        },
{
    let tag = str_to_chars("span");
    let cls = str_to_chars("ref");
    match open_tag(s, pos, tag.as_slice()) {
        Some((p1, al)) => {
            let (te, l) = refhead_list(s, p1);
            if l.len() >= 1 {
                match close_tag(s, te, tag.as_slice()) {
                    Some(p2) => if class_ok(&al, cls.as_slice()) {
                        Some((p2, l))
                    } else {
                        None
                    },
                    None => None,
                }
            } else {
                None
            }
        },
        None => None,
    }
}

/// A filled head: `<div class="head">` around a fragment sequence, a
/// counter-word-style headword, or a cross-reference head — in that order.
pub open spec fn spec_parse_dic_head(s: Seq<char>, pos: int) -> Option<(int, HeadV)> {
    match spec_open_tag(s, pos, "div"@) {
        Some((p1, al)) => {
            let inner = ({
                match spec_parse_h(s, p1) {
                    Some((e, l)) => Some((e, HeadV::H(l))),
                    None => match spec_parse_joshi_word(s, p1) {
                        Some((e, j)) => Some((e, HeadV::Joshiword(j))),
                        None => match spec_parse_refhead(s, p1) {
                            Some((e, l)) => Some((e, HeadV::Ref(l))),
                            None => None,
                        },
                    },
                }
            });
            match inner {
                Some((p2, h)) => match spec_close_tag(s, p2, "div"@) {
                    Some(p3) => if spec_class_ok(al, "head"@) {
                        Some((p3, h))
                    } else {
                        None
                    },
                    None => None,
                },
                None => None,
            }
        },
        None => None,
    }
}

pub fn parse_dic_head(s: &[char], pos: usize) -> (r: Option<(usize, Head)>)
    requires
        pos <= s@.len(),
    ensures
        res_of(r, spec_parse_dic_head(s@, pos as int), pos as int, s@.len() as int),
{
    let tag = str_to_chars("div");
    let cls = str_to_chars("head");
    match open_tag(s, pos, tag.as_slice()) {
        Some((p1, al)) => {
            let inner = ({
                match parse_h(s, p1) {
                    Some((e, l)) => Some((e, Head::H(l))),
                    None => match parse_joshi_word(s, p1) {
                        Some((e, j)) => Some((e, Head::Joshiword(j))),
                        None => match parse_refhead(s, p1) {
                            Some((e, l)) => Some((e, Head::Ref(l))),
                            None => None,
                        },
                    },
                }
            });
            match inner {
                Some((p2, h)) => match close_tag(s, p2, tag.as_slice()) {
                    Some(p3) => if class_ok(&al, cls.as_slice()) {
                        Some((p3, h))
                    } else {
                        None
                    },
                    None => None,
                },
                None => None,
            }
        },
        None => None,
    }
}

/// A suppressed head: a void `<div class="head"/>`.
pub open spec fn spec_parse_dic_head_empty(s: Seq<char>, pos: int) -> Option<int> {
    match spec_empty_tag(s, pos, "div"@) {
        Some((e, al)) => if spec_class_ok(al, "head"@) {
            Some(e)
        } else {
            None
        },
        None => None,
    }
}

pub fn parse_dic_head_empty(s: &[char], pos: usize) -> (r: Option<usize>)
    requires
        pos <= s@.len(),
    ensures
        match r {
            Some(e) => {
                &&& spec_parse_dic_head_empty(s@, pos as int) == Some(e as int)
                &&& pos < e <= s@.len()
            },
            None => spec_parse_dic_head_empty(s@, pos as int) is None,
        },
{
    let tag = str_to_chars("div");
    let cls = str_to_chars("head");
    match empty_xml_tag(s, pos, tag.as_slice()) {
        Some((e, al)) => if class_ok(&al, cls.as_slice()) {
            Some(e)
        } else {
            None
        },
        None => None,
    }
}

} // verus!
