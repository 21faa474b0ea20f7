//! The body rules of the entry grammar: cross-references, worked examples,
//! and the pronunciation/usage blocks of a head+body group.
use vstd::prelude::*;

use crate::accent::parse_accent;
use crate::accent::parse_accent_example;
use crate::accent::parse_accent_round;
use crate::accent::parse_con_table;
use crate::accent::spec_parse_accent;
use crate::accent::spec_parse_accent_example;
use crate::accent::spec_parse_accent_round;
use crate::accent::spec_parse_con_table;
use crate::ast::Accent;
use crate::ast::AccentTextV;
use crate::ast::Body;
use crate::ast::BodyContent;
use crate::ast::BodyContentV;
use crate::ast::Example;
use crate::ast::ExampleContent;
use crate::ast::ExampleContentV;
use crate::ast::ExampleHead;
use crate::ast::Id;
use crate::ast::RefContent;
use crate::ast::RefContentV;
use crate::ast::seq_view;
use crate::rules::parse_named_word;
use crate::rules::parse_square_box;
use crate::rules::parse_square_brackets;
use crate::rules::parse_round_brackets;
use crate::rules::parse_text;
use crate::rules::spec_parse_named_word;
use crate::rules::spec_parse_round_brackets;
use crate::rules::spec_parse_square_box;
use crate::rules::spec_parse_square_brackets;
use crate::rules::spec_parse_text;
use crate::strutil::chars_to_string;
use crate::strutil::str_to_chars;
use crate::xml::attr_of;
use crate::xml::res_of;
use crate::xml::class_ok;
use crate::xml::close_tag;
use crate::xml::lit;
use crate::xml::open_tag;
use crate::xml::ref_text;
use crate::xml::spec_attr_of;
use crate::xml::spec_class_ok;
use crate::xml::spec_close_tag;
use crate::xml::spec_lit;
use crate::xml::spec_open_tag;
use crate::xml::spec_ref_text;

verus! {

/// One piece of cross-reference content: round brackets, a `<text>` span,
/// or raw reference text — in that order.
pub open spec fn spec_refc_piece(s: Seq<char>, pos: int) -> Option<(int, RefContentV)> {
    match spec_parse_round_brackets(s, pos) {
        Some((e, v)) => Some((e, RefContentV::RoundBrackets(v))),
        None => match spec_parse_text(s, pos) {
            Some((e, v)) => Some((e, RefContentV::TextSpan(v))),
            None => match spec_ref_text(s, pos) {
                Some((e, v)) => Some((e, RefContentV::Text(v))),
                None => None,
            },
        },
    }
}

pub fn refc_piece(s: &[char], pos: usize) -> (r: Option<(usize, RefContent)>)
    requires
        pos <= s@.len(),
    ensures
        res_of(r, spec_refc_piece(s@, pos as int), pos as int, s@.len() as int),
{
    match parse_round_brackets(s, pos) {
        Some((e, v)) => {
            return Some((e, RefContent::RoundBrackets(chars_to_string(v.as_slice()))));
        },
        None => {},
    }
    match parse_text(s, pos) {
        Some((e, v)) => {
            return Some((e, RefContent::TextSpan(chars_to_string(v.as_slice()))));
        },
        None => {},
    }
    match ref_text(s, pos) {
        Some((e, v)) => {
            return Some((e, RefContent::Text(chars_to_string(v.as_slice()))));
        },
        None => {},
    }
    None
}

/// The longest run of cross-reference content pieces from `pos`.
pub open spec fn spec_refc_list(s: Seq<char>, pos: int) -> (int, Seq<RefContentV>)
    decreases s.len() - pos,
{
    match spec_refc_piece(s, pos) {
        Some((e, x)) => if pos < e <= s.len() {
            let (e2, rest) = spec_refc_list(s, e);
            (e2, seq![x] + rest)
        } else {
            (pos, Seq::empty())
        },
        None => (pos, Seq::empty()),
    }
}

pub fn refc_list(s: &[char], pos: usize) -> (r: (usize, Vec<RefContent>))
    requires
        pos <= s@.len(),
    ensures
        ({
            let (e, l) = spec_refc_list(s@, pos as int);
            &&& r.0 == e
            &&& seq_view(r.1@) == l
            &&& pos <= r.0 <= s@.len()
        }),
{
    let mut cur: usize = pos;
    let mut acc: Vec<RefContent> = Vec::new();
    proof {
        assert(seq_view(acc@) =~= Seq::<RefContentV>::empty());
    }
    loop
        invariant
            pos <= cur <= s@.len(),
            ({
                let (e, l) = spec_refc_list(s@, cur as int);
                spec_refc_list(s@, pos as int) == (e, seq_view(acc@) + l)
            }),
        decreases s@.len() - cur,
    {
        match refc_piece(s, cur) {
            Some((e, x)) => {
                let ghost prev = seq_view(acc@);
                let ghost xv = x@;
                proof {
                    let (e2, rest) = spec_refc_list(s@, e as int);
                    assert(spec_refc_list(s@, cur as int) == (e2, seq![xv] + rest));
                    assert(prev + (seq![xv] + rest) =~= (prev + seq![xv]) + rest);
                }
                acc.push(x);
                proof {
                    assert(seq_view(acc@) =~= prev + seq![xv]);
                }
                cur = e;
            },
            None => {
                proof {
                    let (e, l) = spec_refc_list(s@, cur as int);
                    assert(e == cur && l =~= Seq::<RefContentV>::empty());
                    assert(seq_view(acc@) + l =~= seq_view(acc@));
                }
                return (cur, acc);
            },
        }
    }
}

/// A cross-reference link: `<a href="..">` around a non-empty content run,
/// yielding the target identifier and the content.
pub open spec fn spec_parse_ref(s: Seq<char>, pos: int) -> Option<
    (int, (Seq<char>, Seq<RefContentV>)),
> {
    match spec_open_tag(s, pos, "a"@) {
        Some((p1, al)) => {
            let (te, l) = spec_refc_list(s, p1);
            if l.len() >= 1 {
                match spec_close_tag(s, te, "a"@) {
                    Some(p2) => match spec_attr_of(al, "href"@) {
                        Some(href) => Some((p2, (href, l))),
                        None => None,
                    },
                    None => None,
                }
            } else {
                None
            }
        },
        None => None,
    }
}

pub fn parse_ref(s: &[char], pos: usize) -> (r: Option<(usize, (Id, Vec<RefContent>))>)
    requires
        pos <= s@.len(),
    ensures
        match r {
            Some((e, ic)) => {
                &&& spec_parse_ref(s@, pos as int) == Some((e as int, (ic.0@, seq_view(ic.1@))))
                &&& pos < e <= s@.len()
            },
            None => spec_parse_ref(s@, pos as int) is None,
        },
{
    let tag = str_to_chars("a");
    match open_tag(s, pos, tag.as_slice()) {
        Some((p1, al)) => {
            let (te, l) = refc_list(s, p1);
            if l.len() >= 1 {
                match close_tag(s, te, tag.as_slice()) {
                    Some(p2) => {
                        let key = str_to_chars("href");
                        match attr_of(&al, key.as_slice()) {
                            Some(href) => Some(
                                (p2, (Id(chars_to_string(href.as_slice())), l)),
                            ),
                            None => None,
                        }
                    },
                    None => None,
                }
            } else {
                None
            }
        },
        None => None,
    }
}

/// A cross-reference block: `<span class="ref">` around a reference link.
pub open spec fn spec_parse_bodyref(s: Seq<char>, pos: int) -> Option<
    (int, (Seq<char>, Seq<RefContentV>)),
> {
    match spec_open_tag(s, pos, "span"@) {
        Some((p1, al)) => match spec_parse_ref(s, p1) {
            Some((p2, ic)) => match spec_close_tag(s, p2, "span"@) {
                Some(p3) => if spec_class_ok(al, "ref"@) {
                    Some((p3, ic))
                } else {
                    None
                },
                None => None,
            },
            None => None,
        },
        None => None,
    }
}

pub fn parse_bodyref(s: &[char], pos: usize) -> (r: Option<(usize, (Id, Vec<RefContent>))>)
    requires
        pos <= s@.len(),
    ensures
        match r {
            Some((e, ic)) => {
                &&& spec_parse_bodyref(s@, pos as int) == Some((e as int, (ic.0@, seq_view(ic.1@))))
                &&& pos < e <= s@.len()
            },
            None => spec_parse_bodyref(s@, pos as int) is None,
        },
{
    let tag = str_to_chars("span");
    let cls = str_to_chars("ref");
    match open_tag(s, pos, tag.as_slice()) {
        Some((p1, al)) => match parse_ref(s, p1) {
            Some((p2, ic)) => match close_tag(s, p2, tag.as_slice()) {
                Some(p3) => if class_ok(&al, cls.as_slice()) {
                    Some((p3, ic))
                } else {
                    None
                },
                None => None,
            },
            None => None,
        },
        None => None,
    }
}

/// A worked example's head: `<span class="ex_head">` around an anchored
/// word.
pub open spec fn spec_parse_example_head(s: Seq<char>, pos: int) -> Option<
    (int, (Seq<char>, Seq<char>)),
> {
    match spec_open_tag(s, pos, "span"@) {
        Some((p1, al)) => match spec_parse_named_word(s, p1) {
            Some((p2, nw)) => match spec_close_tag(s, p2, "span"@) {
                Some(p3) => if spec_class_ok(al, "ex_head"@) {
                    Some((p3, nw))
                } else {
                    None
                },
                None => None,
            },
            None => None,
        },
        None => None,
    }
}

pub fn parse_example_head(s: &[char], pos: usize) -> (r: Option<(usize, ExampleHead)>)
    requires
        pos <= s@.len(),
    ensures
        res_of(r, spec_parse_example_head(s@, pos as int), pos as int, s@.len() as int),
{
    let tag = str_to_chars("span");
    let cls = str_to_chars("ex_head");
    match open_tag(s, pos, tag.as_slice()) {
        Some((p1, al)) => match parse_named_word(s, p1) {
            Some((p2, (n, w))) => match close_tag(s, p2, tag.as_slice()) {
                Some(p3) => if class_ok(&al, cls.as_slice()) {
                    Some((p3, ExampleHead(n, w)))
                } else {
                    None
                },
                None => None,
            },
            None => None,
        },
        None => None,
    }
}

/// One piece of worked-example content, optionally preceded by a full-width
/// blank: an example accent run, a cross-reference, or square brackets.
pub open spec fn spec_exc_piece(s: Seq<char>, pos: int) -> Option<(int, ExampleContentV)> {
    let p = match spec_lit(s, pos, '　') {
        Some(e) => e,
        None => pos,
    };
    match spec_parse_accent_example(s, p) {
        Some((e, l)) => Some((e, ExampleContentV::AccentExample(l))),
        None => match spec_parse_bodyref(s, p) {
            Some((e, ic)) => Some((e, ExampleContentV::Ref(ic.0, ic.1))),
            None => match spec_parse_square_brackets(s, p) {
                Some((e, v)) => Some((e, ExampleContentV::SquareBrackets(v))),
                None => None,
            },
        },
    }
}

pub fn exc_piece(s: &[char], pos: usize) -> (r: Option<(usize, ExampleContent)>)
    requires
        pos <= s@.len(),
    ensures
        res_of(r, spec_exc_piece(s@, pos as int), pos as int, s@.len() as int),
{
    let p = match lit(s, pos, '　') {
        Some(e) => e,
        None => pos,
    };
    match parse_accent_example(s, p) {
        Some((e, l)) => {
            return Some((e, ExampleContent::AccentExample(l)));
        },
        None => {},
    }
    match parse_bodyref(s, p) {
        Some((e, ic)) => {
            return Some((e, ExampleContent::Ref(ic.0, ic.1)));
        },
        None => {},
    }
    match parse_square_brackets(s, p) {
        Some((e, v)) => {
            return Some((e, ExampleContent::SquareBrackets(chars_to_string(v.as_slice()))));
        },
        None => {},
    }
    None
}

/// The longest run of worked-example content pieces from `pos`.
pub open spec fn spec_exc_list(s: Seq<char>, pos: int) -> (int, Seq<ExampleContentV>)
    decreases s.len() - pos,
{
    match spec_exc_piece(s, pos) {
        Some((e, x)) => if pos < e <= s.len() {
            let (e2, rest) = spec_exc_list(s, e);
            (e2, seq![x] + rest)
        } else {
            (pos, Seq::empty())
        },
        None => (pos, Seq::empty()),
    }
}

pub fn exc_list(s: &[char], pos: usize) -> (r: (usize, Vec<ExampleContent>))
    requires
        pos <= s@.len(),
    ensures
        ({
            let (e, l) = spec_exc_list(s@, pos as int);
            &&& r.0 == e
            &&& seq_view(r.1@) == l
            &&& pos <= r.0 <= s@.len()
        }),
{
    let mut cur: usize = pos;
    let mut acc: Vec<ExampleContent> = Vec::new();
    proof {
        assert(seq_view(acc@) =~= Seq::<ExampleContentV>::empty());
    }
    loop
        invariant
            pos <= cur <= s@.len(),
            ({
                let (e, l) = spec_exc_list(s@, cur as int);
                spec_exc_list(s@, pos as int) == (e, seq_view(acc@) + l)
            }),
        decreases s@.len() - cur,
    {
        match exc_piece(s, cur) {
            Some((e, x)) => {
                let ghost prev = seq_view(acc@);
                let ghost xv = x@;
                proof {
                    let (e2, rest) = spec_exc_list(s@, e as int);
                    assert(spec_exc_list(s@, cur as int) == (e2, seq![xv] + rest));
                    assert(prev + (seq![xv] + rest) =~= (prev + seq![xv]) + rest);
                }
                acc.push(x);
                proof {
                    assert(seq_view(acc@) =~= prev + seq![xv]);
                }
                cur = e;
            },
            None => {
                proof {
                    let (e, l) = spec_exc_list(s@, cur as int);
                    assert(e == cur && l =~= Seq::<ExampleContentV>::empty());
                    assert(seq_view(acc@) + l =~= seq_view(acc@));
                }
                return (cur, acc);
            },
        }
    }
}

/// A worked example: `<span class="example">` around a head and a non-empty
/// content run.
pub open spec fn spec_parse_example(s: Seq<char>, pos: int) -> Option<
    (int, ((Seq<char>, Seq<char>), Seq<ExampleContentV>)),
> {
    match spec_open_tag(s, pos, "span"@) {
        Some((p1, al)) => match spec_parse_example_head(s, p1) {
            Some((p2, h)) => {
                let (te, l) = spec_exc_list(s, p2);
                if l.len() >= 1 {
                    match spec_close_tag(s, te, "span"@) {
                        Some(p3) => if spec_class_ok(al, "example"@) {
                            Some((p3, (h, l)))
                        } else {
                            None
                        },
                        None => None,
                    }
                } else {
                    None
                }
            },
            None => None,
        },
        None => None,
    }
}

pub fn parse_example(s: &[char], pos: usize) -> (r: Option<(usize, Example)>)
    requires
        pos <= s@.len(),
    ensures
        res_of(r, spec_parse_example(s@, pos as int), pos as int, s@.len() as int),
{
    let tag = str_to_chars("span");
    let cls = str_to_chars("example");
    match open_tag(s, pos, tag.as_slice()) {
        Some((p1, al)) => match parse_example_head(s, p1) {
            Some((p2, h)) => {
                let (te, l) = exc_list(s, p2);
                if l.len() >= 1 {
                    match close_tag(s, te, tag.as_slice()) {
                        Some(p3) => if class_ok(&al, cls.as_slice()) {
                            Some((p3, Example(h, l)))
                        } else {
                            None
                        },
                        None => None,
                    }
                } else {
                    None
                }
            },
            None => None,
        },
        None => None,
    }
}

/// The longest run of labelled accents from `pos`.
pub open spec fn spec_accent1_list(s: Seq<char>, pos: int) -> (
    int,
    Seq<(Option<Seq<char>>, Seq<AccentTextV>)>,
)
    decreases s.len() - pos,
{
    match spec_parse_accent(s, pos) {
        Some((e, x)) => if pos < e <= s.len() {
            let (e2, rest) = spec_accent1_list(s, e);
            (e2, seq![x] + rest)
        } else {
            (pos, Seq::empty())
        },
        None => (pos, Seq::empty()),
    }
}

pub proof fn lemma_accent1_list_bounds(s: Seq<char>, pos: int)
    requires
        0 <= pos <= s.len(),
    ensures
        pos <= spec_accent1_list(s, pos).0 <= s.len(),
        spec_accent1_list(s, pos).1.len() >= 1 ==> spec_accent1_list(s, pos).0 > pos,
    decreases s.len() - pos,
{
    match spec_parse_accent(s, pos) {
        Some((e, x)) => {
            if pos < e <= s.len() {
                lemma_accent1_list_bounds(s, e);
            }
        },
        None => {},
    }
}

pub fn accent1_list(s: &[char], pos: usize) -> (r: (usize, Vec<Accent>))
    requires
        pos <= s@.len(),
    ensures
        ({
            let (e, l) = spec_accent1_list(s@, pos as int);
            &&& r.0 == e
            &&& seq_view(r.1@) == l
            &&& pos <= r.0 <= s@.len()
        }),
{
    let mut cur: usize = pos;
    let mut acc: Vec<Accent> = Vec::new();
    proof {
        assert(seq_view(acc@) =~= Seq::<(Option<Seq<char>>, Seq<AccentTextV>)>::empty());
    }
    loop
        invariant
            pos <= cur <= s@.len(),
            ({
                let (e, l) = spec_accent1_list(s@, cur as int);
                spec_accent1_list(s@, pos as int) == (e, seq_view(acc@) + l)
            }),
        decreases s@.len() - cur,
    {
        match parse_accent(s, cur) {
            Some((e, x)) => {
                let ghost prev = seq_view(acc@);
                let ghost xv = x@;
                proof {
                    let (e2, rest) = spec_accent1_list(s@, e as int);
                    assert(spec_accent1_list(s@, cur as int) == (e2, seq![xv] + rest));
                    assert(prev + (seq![xv] + rest) =~= (prev + seq![xv]) + rest);
                }
                acc.push(x);
                proof {
                    assert(seq_view(acc@) =~= prev + seq![xv]);
                }
                cur = e;
            },
            None => {
                proof {
                    let (e, l) = spec_accent1_list(s@, cur as int);
                    assert(e == cur && l =~= Seq::<(Option<Seq<char>>, Seq<AccentTextV>)>::empty());
                    assert(seq_view(acc@) + l =~= seq_view(acc@));
                }
                return (cur, acc);
            },
        }
    }
}

/// One pronunciation/usage block: a conjugation table, a non-empty accent
/// run, a cross-reference, a parenthesized accent form, a square-box label,
/// or a worked example — in that order.
pub open spec fn spec_body_piece(s: Seq<char>, pos: int) -> Option<(int, BodyContentV)> {
    match spec_parse_con_table(s, pos) {
        Some((e, l)) => Some((e, BodyContentV::ConTable(l))),
        None => {
            let (e, l) = spec_accent1_list(s, pos);
            if l.len() >= 1 {
                Some((e, BodyContentV::Accent(l)))
            } else {
                match spec_parse_bodyref(s, pos) {
                    Some((e2, ic)) => Some((e2, BodyContentV::Ref(ic.0, ic.1))),
                    None => match spec_parse_accent_round(s, pos) {
                        Some((e2, (rb, au))) => Some((e2, BodyContentV::AccentRound(rb, au))),
                        None => match spec_parse_square_box(s, pos) {
                            Some((e2, v)) => Some((e2, BodyContentV::SquareBox(v))),
                            None => match spec_parse_example(s, pos) {
                                Some((e2, ex)) => Some((e2, BodyContentV::Example(ex))),
                                None => None,
                            },
                        },
                    },
                }
            }
        },
    }
}

pub fn body_piece(s: &[char], pos: usize) -> (r: Option<(usize, BodyContent)>)
    requires
        pos <= s@.len(),
    ensures
        res_of(r, spec_body_piece(s@, pos as int), pos as int, s@.len() as int),
{
    match parse_con_table(s, pos) {
        Some((e, l)) => {
            return Some((e, BodyContent::ConTable(l)));
        },
        None => {},
    }
    let (e, l) = accent1_list(s, pos);
    if l.len() >= 1 {
        proof {
            lemma_accent1_list_bounds(s@, pos as int);
        }
        return Some((e, BodyContent::Accent(l)));
    }
    match parse_bodyref(s, pos) {
        Some((e2, ic)) => {
            return Some((e2, BodyContent::Ref(ic.0, ic.1)));
        },
        None => {},
    }
    match parse_accent_round(s, pos) {
        Some((e2, (rb, au))) => {
            return Some((e2, BodyContent::AccentRound(rb, au)));
        },
        None => {},
    }
    match parse_square_box(s, pos) {
        Some((e2, v)) => {
            return Some((e2, BodyContent::SquareBox(chars_to_string(v.as_slice()))));
        },
        None => {},
    }
    match parse_example(s, pos) {
        Some((e2, ex)) => {
            return Some((e2, BodyContent::Example(ex)));
        },
        None => {},
    }
    None
}

/// The longest run of pronunciation/usage blocks from `pos`.
pub open spec fn spec_body_list(s: Seq<char>, pos: int) -> (int, Seq<BodyContentV>)
    decreases s.len() - pos,
{
    match spec_body_piece(s, pos) {
        Some((e, x)) => if pos < e <= s.len() {
            let (e2, rest) = spec_body_list(s, e);
            (e2, seq![x] + rest)
        } else {
            (pos, Seq::empty())
        },
        None => (pos, Seq::empty()),
    }
}

pub fn body_list(s: &[char], pos: usize) -> (r: (usize, Vec<BodyContent>))
    requires
        pos <= s@.len(),
    ensures
        ({
            let (e, l) = spec_body_list(s@, pos as int);
            &&& r.0 == e
            &&& seq_view(r.1@) == l
            &&& pos <= r.0 <= s@.len()
        }),
{
    let mut cur: usize = pos;
    let mut acc: Vec<BodyContent> = Vec::new();
    proof {
        assert(seq_view(acc@) =~= Seq::<BodyContentV>::empty());
    }
    loop
        invariant
            pos <= cur <= s@.len(),
            ({
                let (e, l) = spec_body_list(s@, cur as int);
                spec_body_list(s@, pos as int) == (e, seq_view(acc@) + l)
            }),
        decreases s@.len() - cur,
    {
        match body_piece(s, cur) {
            Some((e, x)) => {
                let ghost prev = seq_view(acc@);
                let ghost xv = x@;
                proof {
                    let (e2, rest) = spec_body_list(s@, e as int);
                    assert(spec_body_list(s@, cur as int) == (e2, seq![xv] + rest));
                    assert(prev + (seq![xv] + rest) =~= (prev + seq![xv]) + rest);
                }
                acc.push(x);
                proof {
                    assert(seq_view(acc@) =~= prev + seq![xv]);
                }
                cur = e;
            },
            None => {
                proof {
                    let (e, l) = spec_body_list(s@, cur as int);
                    assert(e == cur && l =~= Seq::<BodyContentV>::empty());
                    assert(seq_view(acc@) + l =~= seq_view(acc@));
                }
                return (cur, acc);
            },
        }
    }
}

/// A filled body: `<div class="body">` around a non-empty run of blocks.
pub open spec fn spec_parse_dic_body(s: Seq<char>, pos: int) -> Option<(int, Seq<BodyContentV>)> {
    match spec_open_tag(s, pos, "div"@) {
        Some((p1, al)) => {
            let (te, l) = spec_body_list(s, p1);
            if l.len() >= 1 {
                match spec_close_tag(s, te, "div"@) {
                    Some(p2) => if spec_class_ok(al, "body"@) {
                        Some((p2, l))
                    } else {
                        None
                    },
                    None => None,
                }
            } else {
                None
            }
        },
        None => None,
    }
}

pub fn parse_dic_body(s: &[char], pos: usize) -> (r: Option<(usize, Body)>)
    requires
        pos <= s@.len(),
    ensures
        res_of(r, spec_parse_dic_body(s@, pos as int), pos as int, s@.len() as int),
{
    let tag = str_to_chars("div");
    let cls = str_to_chars("body");
    match open_tag(s, pos, tag.as_slice()) {
        Some((p1, al)) => {
            let (te, l) = body_list(s, p1);
            if l.len() >= 1 {
                match close_tag(s, te, tag.as_slice()) {
                    Some(p2) => if class_ok(&al, cls.as_slice()) {
                        Some((p2, Body(l)))
                    } else {
                        None
                    },
                    None => None,
                }
            } else {
                None
            }
        },
        None => None,
    }
}

/// An empty body: a void `<div class="body"/>`.
pub open spec fn spec_parse_dic_body_empty(s: Seq<char>, pos: int) -> Option<int> {
    match crate::xml::spec_empty_tag(s, pos, "div"@) {
        Some((e, al)) => if spec_class_ok(al, "body"@) {
            Some(e)
        } else {
            None
        },
        None => None,
    }
}

pub fn parse_dic_body_empty(s: &[char], pos: usize) -> (r: Option<usize>)
    requires
        pos <= s@.len(),
    ensures
        match r {
            Some(e) => {
                &&& spec_parse_dic_body_empty(s@, pos as int) == Some(e as int)
                &&& pos < e <= s@.len()
            },
            None => spec_parse_dic_body_empty(s@, pos as int) is None,
        },
{
    let tag = str_to_chars("div");
    let cls = str_to_chars("body");
    match crate::xml::empty_xml_tag(s, pos, tag.as_slice()) {
        Some((e, al)) => if class_ok(&al, cls.as_slice()) {
            Some(e)
        } else {
            None
        },
        None => None,
    }
}

} // verus!
