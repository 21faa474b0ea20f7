//! The top of the entry grammar: head+body groups, the dictionary-item
//! container, the page wrapper, and the public page decoder.
use vstd::prelude::*;

use crate::ast::Body;
use crate::ast::DicItem;
use crate::ast::DicItemV;
use crate::ast::Head;
use crate::ast::HeadG;
use crate::ast::HeadV;
use crate::ast::BodyContentV;
use crate::ast::Id;
use crate::ast::JosushiV;
use crate::ast::Josushi;
use crate::ast::seq_view;
use crate::body::parse_dic_body;
use crate::body::parse_dic_body_empty;
use crate::body::spec_parse_dic_body;
use crate::body::spec_parse_dic_body_empty;
use crate::error::Error;
use crate::head::parse_dic_head;
use crate::head::parse_dic_head_empty;
use crate::head::spec_parse_dic_head;
use crate::head::spec_parse_dic_head_empty;
use crate::josushi::parse_josuhi;
use crate::josushi::spec_parse_josuhi;
use crate::strutil::chars_to_string;
use crate::strutil::str_to_chars;
use crate::xml::attr_of;
use crate::xml::all_white;
use crate::xml::class_ok;
use crate::xml::close_tag;
use crate::xml::find_sub;
use crate::xml::open_tag;
use crate::xml::range_eq;
use crate::xml::res_of;
use crate::xml::spec_all_white;
use crate::xml::spec_attr_of;
use crate::xml::spec_class_ok;
use crate::xml::spec_close_tag;
use crate::xml::spec_find;
use crate::xml::spec_open_tag;

verus! {

/// One head+body group: `<span class="head-g">` around a filled-or-empty
/// head and a filled-or-empty body.
pub open spec fn spec_parse_head_g(s: Seq<char>, pos: int) -> Option<
    (int, (HeadV, Seq<BodyContentV>)),
> {
    match spec_open_tag(s, pos, "span"@) {
        Some((p1, al)) => {
            let hd = match spec_parse_dic_head(s, p1) {
                Some((e, h)) => Some((e, h)),
                None => match spec_parse_dic_head_empty(s, p1) {
                    Some(e) => Some((e, HeadV::Empty)),
                    None => None,
                },
            };
            match hd {
                Some((p2, h)) => {
                    let bd = match spec_parse_dic_body(s, p2) {
                        Some((e, b)) => Some((e, b)),
                        None => match spec_parse_dic_body_empty(s, p2) {
                            Some(e) => Some((e, Seq::<BodyContentV>::empty())),
                            None => None,
                        },
                    };
                    match bd {
                        Some((p3, b)) => match spec_close_tag(s, p3, "span"@) {
                            Some(p4) => if spec_class_ok(al, "head-g"@) {
                                Some((p4, (h, b)))
                            } else {
                                None
                            },
                            None => None,
                        },
                        None => None,
                    }
                },
                None => None,
            }
        },
        None => None,
    }
}

pub fn parse_head_g(s: &[char], pos: usize) -> (r: Option<(usize, HeadG)>)
    requires
        pos <= s@.len(),
    ensures
        res_of(r, spec_parse_head_g(s@, pos as int), pos as int, s@.len() as int),
{
    let tag = str_to_chars("span");
    let cls = str_to_chars("head-g");
    match open_tag(s, pos, tag.as_slice()) {
        Some((p1, al)) => {
            let hd = match parse_dic_head(s, p1) {
                Some((e, h)) => Some((e, h)),
                None => match parse_dic_head_empty(s, p1) {
                    Some(e) => Some((e, Head::Empty)),
                    None => None,
                },
            };
            match hd {
                Some((p2, h)) => {
                    let bd = match parse_dic_body(s, p2) {
                        Some((e, b)) => Some((e, b)),
                        None => match parse_dic_body_empty(s, p2) {
                            Some(e) => {
                                let b = Body(Vec::new());
                                proof {
                                    assert(b@ =~= Seq::<BodyContentV>::empty());
                                }
                                Some((e, b))
                            },
                            None => None,
                        },
                    };
                    match bd {
                        Some((p3, b)) => match close_tag(s, p3, tag.as_slice()) {
                            Some(p4) => if class_ok(&al, cls.as_slice()) {
                                Some((p4, HeadG(h, b)))
                            } else {
                                None
                            },
                            None => None,
                        },
                        None => None,
                    }
                },
                None => None,
            }
        },
        None => None,
    }
}

/// The longest run of head+body groups from `pos`.
pub open spec fn spec_head_g_list(s: Seq<char>, pos: int) -> (
    int,
    Seq<(HeadV, Seq<BodyContentV>)>,
)
    decreases s.len() - pos,
{
    match spec_parse_head_g(s, pos) {
        Some((e, x)) => if pos < e <= s.len() {
            let (e2, rest) = spec_head_g_list(s, e);
            (e2, seq![x] + rest)
        } else {
            (pos, Seq::empty())
        },
        None => (pos, Seq::empty()),
    }
}

pub proof fn lemma_head_g_list_bounds(s: Seq<char>, pos: int)
    requires
        0 <= pos <= s.len(),
    ensures
        pos <= spec_head_g_list(s, pos).0 <= s.len(),
        spec_head_g_list(s, pos).1.len() >= 1 ==> spec_head_g_list(s, pos).0 > pos,
    decreases s.len() - pos,
{
    match spec_parse_head_g(s, pos) {
        Some((e, x)) => {
            if pos < e <= s.len() {
                lemma_head_g_list_bounds(s, e);
            }
        },
        None => {},
    }
}

pub fn head_g_list(s: &[char], pos: usize) -> (r: (usize, Vec<HeadG>))
    requires
        pos <= s@.len(),
    ensures
        ({
            let (e, l) = spec_head_g_list(s@, pos as int);
            &&& r.0 == e
            &&& seq_view(r.1@) == l
            &&& pos <= r.0 <= s@.len()
        }),
{
    let mut cur: usize = pos;
    let mut acc: Vec<HeadG> = Vec::new();
    proof {
        assert(seq_view(acc@) =~= Seq::<(HeadV, Seq<BodyContentV>)>::empty());
    }
    loop
        invariant
            pos <= cur <= s@.len(),
            ({
                let (e, l) = spec_head_g_list(s@, cur as int);
                spec_head_g_list(s@, pos as int) == (e, seq_view(acc@) + l)
            }),
        decreases s@.len() - cur,
    {
        match parse_head_g(s, cur) {
            Some((e, x)) => {
                let ghost prev = seq_view(acc@);
                let ghost xv = x@;
                proof {
                    let (e2, rest) = spec_head_g_list(s@, e as int);
                    assert(spec_head_g_list(s@, cur as int) == (e2, seq![xv] + rest));
                    assert(prev + (seq![xv] + rest) =~= (prev + seq![xv]) + rest);
                }
                acc.push(x);
                proof {
                    assert(seq_view(acc@) =~= prev + seq![xv]);
                }
                cur = e;
            },
            None => {
                proof {
                    let (e, l) = spec_head_g_list(s@, cur as int);
                    assert(e == cur && l =~= Seq::<(HeadV, Seq<BodyContentV>)>::empty());
                    assert(seq_view(acc@) + l =~= seq_view(acc@));
                }
                return (cur, acc);
            },
        }
    }
}

/// The longest run of counter-word tables from `pos`.
pub open spec fn spec_josushi_list(s: Seq<char>, pos: int) -> (int, Seq<JosushiV>)
    decreases s.len() - pos,
{
    match spec_parse_josuhi(s, pos) {
        Some((e, x)) => if pos < e <= s.len() {
            let (e2, rest) = spec_josushi_list(s, e);
            (e2, seq![x] + rest)
        } else {
            (pos, Seq::empty())
        },
        None => (pos, Seq::empty()),
    }
}

pub fn josushi_list(s: &[char], pos: usize) -> (r: (usize, Vec<Josushi>))
    requires
        pos <= s@.len(),
    ensures
        ({
            let (e, l) = spec_josushi_list(s@, pos as int);
            &&& r.0 == e
            &&& seq_view(r.1@) == l
            &&& pos <= r.0 <= s@.len()
        }),
{
    let mut cur: usize = pos;
    let mut acc: Vec<Josushi> = Vec::new();
    proof {
        assert(seq_view(acc@) =~= Seq::<JosushiV>::empty());
    }
    loop
        invariant
            pos <= cur <= s@.len(),
            ({
                let (e, l) = spec_josushi_list(s@, cur as int);
                spec_josushi_list(s@, pos as int) == (e, seq_view(acc@) + l)
            }),
        decreases s@.len() - cur,
    {
        match parse_josuhi(s, cur) {
            Some((e, x)) => {
                let ghost prev = seq_view(acc@);
                let ghost xv = x@;
                proof {
                    let (e2, rest) = spec_josushi_list(s@, e as int);
                    assert(spec_josushi_list(s@, cur as int) == (e2, seq![xv] + rest));
                    assert(prev + (seq![xv] + rest) =~= (prev + seq![xv]) + rest);
                }
                acc.push(x);
                proof {
                    assert(seq_view(acc@) =~= prev + seq![xv]);
                }
                cur = e;
            },
            None => {
                proof {
                    let (e, l) = spec_josushi_list(s@, cur as int);
                    assert(e == cur && l =~= Seq::<JosushiV>::empty());
                    assert(seq_view(acc@) + l =~= seq_view(acc@));
                }
                return (cur, acc);
            },
        }
    }
}

/// One dictionary entry: `<span class="dic-item" id="..">` around one or
/// more head+body groups and any counter-word tables; the `id` attribute
/// supplies the entry identifier.
pub open spec fn spec_parse_dic_item(s: Seq<char>, pos: int) -> Option<(int, DicItemV)> {
    match spec_open_tag(s, pos, "span"@) {
        Some((p1, al)) => {
            let (p2, gs) = spec_head_g_list(s, p1);
            if gs.len() >= 1 {
                let (p3, js) = spec_josushi_list(s, p2);
                match spec_close_tag(s, p3, "span"@) {
                    Some(p4) => if spec_class_ok(al, "dic-item"@) {
                        match spec_attr_of(al, "id"@) {
                            Some(id) => Some((p4, (id, gs, js))),
                            None => None,
                        }
                    } else {
                        None
                    },
                    None => None,
                }
            } else {
                None
            }
        },
        None => None,
    }
}

pub fn parse_dic_item(s: &[char], pos: usize) -> (r: Option<(usize, DicItem)>)
    requires
        pos <= s@.len(),
    ensures
        res_of(r, spec_parse_dic_item(s@, pos as int), pos as int, s@.len() as int),
{
    let tag = str_to_chars("span");
    let cls = str_to_chars("dic-item");
    match open_tag(s, pos, tag.as_slice()) {
        Some((p1, al)) => {
            let (p2, gs) = head_g_list(s, p1);
            if gs.len() >= 1 {
                proof {
                    lemma_head_g_list_bounds(s@, p1 as int);
                }
                let (p3, js) = josushi_list(s, p2);
                match close_tag(s, p3, tag.as_slice()) {
                    Some(p4) => if class_ok(&al, cls.as_slice()) {
                        let key = str_to_chars("id");
                        match attr_of(&al, key.as_slice()) {
                            Some(id) => Some(
                                (p4, DicItem(Id(chars_to_string(id.as_slice())), gs, js)),
                            ),
                            None => None,
                        }
                    } else {
                        None
                    },
                    None => None,
                }
            } else {
                None
            }
        },
        None => None,
    }
}

/// The `<head>` wrapper of a page, skipped verbatim: everything up to the
/// first `</head>` is consumed without interpretation.
pub open spec fn spec_parse_page_head(s: Seq<char>, pos: int) -> Option<int> {
    match spec_open_tag(s, pos, "head"@) {
        Some((p1, _al)) => match spec_find(s, p1, "</head>"@) {
            Some(f) => match spec_close_tag(s, f, "head"@) {
                Some(e) => Some(e),
                None => None,
            },
            None => None,
        },
        None => None,
    }
}

pub fn parse_page_head(s: &[char], pos: usize) -> (r: Option<usize>)
    requires
        pos <= s@.len(),
    ensures
        match r {
            Some(e) => {
                &&& spec_parse_page_head(s@, pos as int) == Some(e as int)
                &&& pos < e <= s@.len()
            },
            None => spec_parse_page_head(s@, pos as int) is None,
        },
{
    let tag = str_to_chars("head");
    let pat = str_to_chars("</head>");
    proof {
        reveal_strlit("</head>");
    }
    match open_tag(s, pos, tag.as_slice()) {
        Some((p1, _al)) => match find_sub(s, p1, pat.as_slice()) {
            Some(f) => match close_tag(s, f, tag.as_slice()) {
                Some(e) => Some(e),
                None => None,
            },
            None => None,
        },
        None => None,
    }
}

/// The `<body>` wrapper: one dictionary entry.
pub open spec fn spec_parse_page_body(s: Seq<char>, pos: int) -> Option<(int, DicItemV)> {
    match spec_open_tag(s, pos, "body"@) {
        Some((p1, _al)) => match spec_parse_dic_item(s, p1) {
            Some((p2, d)) => match spec_close_tag(s, p2, "body"@) {
                Some(p3) => Some((p3, d)),
                None => None,
            },
            None => None,
        },
        None => None,
    }
}

pub fn parse_page_body(s: &[char], pos: usize) -> (r: Option<(usize, DicItem)>)
    requires
        pos <= s@.len(),
    ensures
        res_of(r, spec_parse_page_body(s@, pos as int), pos as int, s@.len() as int),
{
    let tag = str_to_chars("body");
    match open_tag(s, pos, tag.as_slice()) {
        Some((p1, _al)) => match parse_dic_item(s, p1) {
            Some((p2, d)) => match close_tag(s, p2, tag.as_slice()) {
                Some(p3) => Some((p3, d)),
                None => None,
            },
            None => None,
        },
        None => None,
    }
}

/// The `<html>` wrapper: a skipped head, then the body's entry.
pub open spec fn spec_parse_html(s: Seq<char>, pos: int) -> Option<(int, DicItemV)> {
    match spec_open_tag(s, pos, "html"@) {
        Some((p1, _al)) => match spec_parse_page_head(s, p1) {
            Some(p2) => match spec_parse_page_body(s, p2) {
                Some((p3, d)) => match spec_close_tag(s, p3, "html"@) {
                    Some(p4) => Some((p4, d)),
                    None => None,
                },
                None => None,
            },
            None => None,
        },
        None => None,
    }
}

pub fn parse_html(s: &[char], pos: usize) -> (r: Option<(usize, DicItem)>)
    requires
        pos <= s@.len(),
    ensures
        res_of(r, spec_parse_html(s@, pos as int), pos as int, s@.len() as int),
{
    let tag = str_to_chars("html");
    match open_tag(s, pos, tag.as_slice()) {
        Some((p1, _al)) => match parse_page_head(s, p1) {
            Some(p2) => match parse_page_body(s, p2) {
                Some((p3, d)) => match close_tag(s, p3, tag.as_slice()) {
                    Some(p4) => Some((p4, d)),
                    None => None,
                },
                None => None,
            },
            None => None,
        },
        None => None,
    }
}

/// The fixed declaration every page starts with.
pub open spec fn spec_page_prefix() -> Seq<char> {
    "<?xml version=\"1.0\" encoding=\"utf-8\"?>\n"@
}

/// What decoding a whole page buffer yields, if anything: the declaration
/// prefix, the `<html>` wrapper, and nothing but whitespace after it.
pub open spec fn spec_parse_xml(s: Seq<char>) -> Option<DicItemV> {
    if s.len() >= spec_page_prefix().len() && s.subrange(0, spec_page_prefix().len() as int)
        == spec_page_prefix() {
        match spec_parse_html(s, spec_page_prefix().len() as int) {
            Some((e, d)) => if spec_all_white(s, e) {
                Some(d)
            } else {
                None
            },
            None => None,
        }
    } else {
        None
    }
}

/// The unmatched remainder a failed decode reports: the whole buffer when
/// the declaration prefix is missing, otherwise the input from the point
/// the match ended.
pub open spec fn spec_parse_remainder(s: Seq<char>) -> Seq<char> {
    if s.len() >= spec_page_prefix().len() && s.subrange(0, spec_page_prefix().len() as int)
        == spec_page_prefix() {
        match spec_parse_html(s, spec_page_prefix().len() as int) {
            Some((e, _d)) => s.skip(e),
            None => s.skip(spec_page_prefix().len() as int),
        }
    } else {
        s
    }
}

/// Decode one page buffer into its dictionary entry.
///
/// Any grammar mismatch — including a missing declaration prefix and
/// trailing non-whitespace input — is a fatal decode failure for the page:
/// no partial entry is returned, and the error carries the unmatched
/// remainder.
pub fn parse_xml(xml: &str) -> (r: Result<DicItem, Error>)
    ensures
        match r {
            Ok(d) => spec_parse_xml(xml@) == Some(d@),
            Err(e) => {
                &&& spec_parse_xml(xml@) is None
                &&& e is GrammarMismatch
                &&& e->GrammarMismatch_0@ == spec_parse_remainder(xml@)
            },
        },
{
    let s = str_to_chars(xml);
    let prefix = str_to_chars("<?xml version=\"1.0\" encoding=\"utf-8\"?>\n");
    if prefix.len() > s.len() || !range_eq(s.as_slice(), 0, prefix.len(), prefix.as_slice()) {
        return Err(Error::GrammarMismatch(crate::strutil::chars_to_string(s.as_slice())));
    }
    match parse_html(s.as_slice(), prefix.len()) {
        Some((e, d)) => {
            if all_white(s.as_slice(), e) {
                Ok(d)
            } else {
                let rem = crate::strutil::string_range(s.as_slice(), e, s.len());
                proof {
                    assert(rem@ =~= xml@.skip(e as int));
                }
                Err(Error::GrammarMismatch(rem))
            }
        },
        None => {
            let rem = crate::strutil::string_range(s.as_slice(), prefix.len(), s.len());
            proof {
                assert(rem@ =~= xml@.skip(prefix@.len() as int));
            }
            Err(Error::GrammarMismatch(rem))
        },
    }
}

} // verus!
