//! The tag scaffolding of the markup dialect: identifiers, attribute lists,
//! opening, closing and void tags, raw text runs, and attribute lookup.
//!
//! Every operation is a function over a character slice and a position; each
//! has a specification twin (`spec_*`) over `Seq<char>`, and the executable
//! form is proved to return exactly what the twin describes.
use vstd::prelude::*;

use crate::chars::alphabetic_of;
use crate::chars::is_alphabetic_char;
use crate::chars::spec_is_kana;
use crate::chars::spec_is_kanji;
use crate::chars::is_kana;
use crate::chars::is_kanji;

verus! {

/// An attribute list, as parsed from a tag: `(name, value)` pairs in source
/// order.
pub type AttrList = Vec<(Vec<char>, Vec<char>)>;

/// The mathematical value of an attribute list.
pub open spec fn attrs_view(l: AttrList) -> Seq<(Seq<char>, Seq<char>)> {
    Seq::new(l@.len(), |i: int| (l@[i].0@, l@[i].1@))
}

/// The character classes whose maximal runs the grammar consumes.
#[derive(Clone, Copy, PartialEq, Eq, Debug)]
pub enum CharClass {
    /// Any character but `<`: the content of a tag.
    Text,
    /// The kana ranges.
    Kana,
    /// The ideographic range.
    Kanji,
    /// Kanji, kana, or the full-width comma: headword annotation text.
    HText,
    /// Kanji, kana, or cross-reference punctuation.
    RefText,
    /// Tag and attribute identifiers.
    Ident,
    /// Blanks between attributes.
    Space,
    /// The body of a quoted attribute value: any character but `"`.
    StrBody,
}

pub open spec fn class_pred(k: CharClass, c: char) -> bool {
    match k {
        CharClass::Text => c != '<',
        CharClass::Kana => spec_is_kana(c),
        CharClass::Kanji => spec_is_kanji(c),
        CharClass::HText => spec_is_kanji(c) || spec_is_kana(c) || c == '，',
        CharClass::RefText => spec_is_kanji(c) || spec_is_kana(c) || c == '☞' || c == '［'
            || c == '］' || c == '「' || c == '」',
        CharClass::Ident => alphabetic_of(c) || c == '_' || c == '-',
        CharClass::Space => c == ' ' || c == '\t',
        CharClass::StrBody => c != '"',
    }
}

fn class_check(k: CharClass, c: char) -> (r: bool)
    ensures
        r == class_pred(k, c),
{
    match k {
        CharClass::Text => c != '<',
        CharClass::Kana => is_kana(c),
        CharClass::Kanji => is_kanji(c),
        CharClass::HText => is_kanji(c) || is_kana(c) || c == '，',
        CharClass::RefText => is_kanji(c) || is_kana(c) || c == '☞' || c == '［' || c == '］'
            || c == '「' || c == '」',
        CharClass::Ident => is_alphabetic_char(c) || c == '_' || c == '-',
        CharClass::Space => c == ' ' || c == '\t',
        CharClass::StrBody => c != '"',
    }
}

/// The end of the maximal run of class `k` starting at `pos`.
pub open spec fn spec_run_end(s: Seq<char>, pos: int, k: CharClass) -> int
    decreases s.len() - pos,
{
    if pos < s.len() && class_pred(k, s[pos]) {
        spec_run_end(s, pos + 1, k)
    } else {
        pos
    }
}

pub proof fn lemma_run_end_bounds(s: Seq<char>, pos: int, k: CharClass)
    requires
        0 <= pos <= s.len(),
    ensures
        pos <= spec_run_end(s, pos, k) <= s.len(),
    decreases s.len() - pos,
{
    if pos < s.len() && class_pred(k, s[pos]) {
        lemma_run_end_bounds(s, pos + 1, k);
    }
}

pub fn run_end(s: &[char], pos: usize, k: CharClass) -> (r: usize)
    requires
        pos <= s@.len(),
    ensures
        r == spec_run_end(s@, pos as int, k),
        pos <= r <= s@.len(),
{
    let mut i: usize = pos;
    while i < s.len() && class_check(k, s[i])
        invariant
            pos <= i <= s@.len(),
            spec_run_end(s@, pos as int, k) == spec_run_end(s@, i as int, k),
        decreases s@.len() - i,
    {
        i += 1;
    }
    i
}

/// A quoted attribute value: `"` content `"`.
pub open spec fn spec_str_lit(s: Seq<char>, pos: int) -> Option<(int, Seq<char>)> {
    if pos < s.len() && s[pos] == '"' {
        let e = spec_run_end(s, pos + 1, CharClass::StrBody);
        if e < s.len() && s[e] == '"' {
            Some((e + 1, s.subrange(pos + 1, e)))
        } else {
            None
        }
    } else {
        None
    }
}

pub proof fn lemma_str_lit_bounds(s: Seq<char>, pos: int)
    requires
        0 <= pos <= s.len(),
        spec_str_lit(s, pos) is Some,
    ensures
        pos < spec_str_lit(s, pos)->Some_0.0 <= s.len(),
{
    lemma_run_end_bounds(s, pos + 1, CharClass::StrBody);
}

pub fn str_lit(s: &[char], pos: usize) -> (r: Option<(usize, Vec<char>)>)
    requires
        pos <= s@.len(),
    ensures
        match r {
            Some((e, v)) => {
                &&& spec_str_lit(s@, pos as int) == Some((e as int, v@))
                &&& pos < e <= s@.len()
            },
            None => spec_str_lit(s@, pos as int) is None,
        },
{
    if pos < s.len() && s[pos] == '"' {
        let e = run_end(s, pos + 1, CharClass::StrBody);
        if e < s.len() && s[e] == '"' {
            let v = crate::strutil::chars_range(s, pos + 1, e);
            Some((e + 1, v))
        } else {
            None
        }
    } else {
        None
    }
}

/// One attribute: an identifier, `=`, and a quoted value.
pub open spec fn spec_attr(s: Seq<char>, pos: int) -> Option<(int, (Seq<char>, Seq<char>))> {
    let ie = spec_run_end(s, pos, CharClass::Ident);
    if ie < s.len() && s[ie] == '=' {
        match spec_str_lit(s, ie + 1) {
            Some((e, v)) => Some((e, (s.subrange(pos, ie), v))),
            None => None,
        }
    } else {
        None
    }
}

pub proof fn lemma_attr_bounds(s: Seq<char>, pos: int)
    requires
        0 <= pos <= s.len(),
        spec_attr(s, pos) is Some,
    ensures
        pos < spec_attr(s, pos)->Some_0.0 <= s.len(),
{
    lemma_run_end_bounds(s, pos, CharClass::Ident);
    let ie = spec_run_end(s, pos, CharClass::Ident);
    lemma_str_lit_bounds(s, ie + 1);
}

pub fn attr(s: &[char], pos: usize) -> (r: Option<(usize, (Vec<char>, Vec<char>))>)
    requires
        pos <= s@.len(),
    ensures
        match r {
            Some((e, kv)) => {
                &&& spec_attr(s@, pos as int) == Some((e as int, (kv.0@, kv.1@)))
                &&& pos < e <= s@.len()
            },
            None => spec_attr(s@, pos as int) is None,
        },
{
    let ie = run_end(s, pos, CharClass::Ident);
    if ie < s.len() && s[ie] == '=' {
        match str_lit(s, ie + 1) {
            Some((e, v)) => {
                let k = crate::strutil::chars_range(s, pos, ie);
                Some((e, (k, v)))
            },
            None => None,
        }
    } else {
        None
    }
}

/// A run of attributes, each preceded by optional blanks; never fails, and
/// leaves untouched any trailing blanks not followed by an attribute.
pub open spec fn spec_attrs(s: Seq<char>, pos: int) -> (int, Seq<(Seq<char>, Seq<char>)>)
    decreases s.len() - pos,
{
    let sp = spec_run_end(s, pos, CharClass::Space);
    match spec_attr(s, sp) {
        Some((e, kv)) => if pos < e <= s.len() {
            let (e2, rest) = spec_attrs(s, e);
            (e2, seq![kv] + rest)
        } else {
            (pos, Seq::empty())
        },
        None => (pos, Seq::empty()),
    }
}

pub proof fn lemma_attrs_bounds(s: Seq<char>, pos: int)
    requires
        0 <= pos <= s.len(),
    ensures
        pos <= spec_attrs(s, pos).0 <= s.len(),
    decreases s.len() - pos,
{
    let sp = spec_run_end(s, pos, CharClass::Space);
    lemma_run_end_bounds(s, pos, CharClass::Space);
    match spec_attr(s, sp) {
        Some((e, kv)) => {
            if pos < e <= s.len() {
                lemma_attrs_bounds(s, e);
            }
        },
        None => {},
    }
}

pub fn attrs(s: &[char], pos: usize) -> (r: (usize, AttrList))
    requires
        pos <= s@.len(),
    ensures
        ({
            let (e, l) = spec_attrs(s@, pos as int);
            &&& r.0 == e
            &&& attrs_view(r.1) == l
            &&& pos <= r.0 <= s@.len()
        }),
{
    let mut cur: usize = pos;
    let mut acc: AttrList = Vec::new();
    proof {
        assert(attrs_view(acc) =~= Seq::<(Seq<char>, Seq<char>)>::empty());
    }
    loop
        invariant
            pos <= cur <= s@.len(),
            ({
                let (e, l) = spec_attrs(s@, cur as int);
                spec_attrs(s@, pos as int) == (e, attrs_view(acc) + l)
            }),
        decreases s@.len() - cur,
    {
        let sp = run_end(s, cur, CharClass::Space);
        match attr(s, sp) {
            Some((e, kv)) => {
                proof {
                    lemma_attr_bounds(s@, sp as int);
                }
                let ghost prev = attrs_view(acc);
                let ghost kvv = (kv.0@, kv.1@);
                proof {
                    let (e2, rest) = spec_attrs(s@, e as int);
                    assert(spec_attrs(s@, cur as int) == (e2, seq![kvv] + rest));
                    assert(prev + (seq![kvv] + rest) =~= (prev + seq![kvv]) + rest);
                }
                acc.push((kv.0, kv.1));
                proof {
                    assert(attrs_view(acc) =~= prev + seq![kvv]);
                }
                cur = e;
            },
            None => {
                proof {
                    let (e, l) = spec_attrs(s@, cur as int);
                    assert(e == cur && l =~= Seq::<(Seq<char>, Seq<char>)>::empty());
                    assert(attrs_view(acc) + l =~= attrs_view(acc));
                }
                return (cur, acc);
            },
        }
    }
}

/// The first value bound to `key` in an attribute list, if any.
pub open spec fn spec_attr_of(attrs: Seq<(Seq<char>, Seq<char>)>, key: Seq<char>) -> Option<
    Seq<char>,
>
    decreases attrs.len(),
{
    if attrs.len() == 0 {
        None
    } else if attrs[0].0 == key {
        Some(attrs[0].1)
    } else {
        spec_attr_of(attrs.drop_first(), key)
    }
}

/// First-match attribute lookup on a parsed attribute list.
pub trait Attr {
    /// The value of the first attribute named `key`, if any.
    fn attr(&self, key: &[char]) -> (r: Option<&Vec<char>>);
}

impl Attr for AttrList {
    fn attr(&self, key: &[char]) -> (r: Option<&Vec<char>>) {
        attr_of(self, key)
    }
}

pub fn attr_of<'a>(attrs: &'a AttrList, key: &[char]) -> (r: Option<&'a Vec<char>>)
    ensures
        match r {
            Some(v) => spec_attr_of(attrs_view(*attrs), key@) == Some(v@),
            None => spec_attr_of(attrs_view(*attrs), key@) is None,
        },
{
    let mut i: usize = 0;
    proof {
        assert(attrs_view(*attrs).skip(0) =~= attrs_view(*attrs));
    }
    while i < attrs.len()
        invariant
            0 <= i <= attrs@.len(),
            spec_attr_of(attrs_view(*attrs), key@) == spec_attr_of(
                attrs_view(*attrs).skip(i as int),
                key@,
            ),
        decreases attrs@.len() - i,
    {
        proof {
            assert(attrs_view(*attrs).skip(i as int)[0] == (attrs@[i as int].0@,
            attrs@[i as int].1@));
            assert(attrs_view(*attrs).skip(i as int).drop_first() =~= attrs_view(*attrs).skip(
                i + 1 as int,
            ));
        }
        if crate::strutil::chars_eq(attrs[i].0.as_slice(), key) {
            return Some(&attrs[i].1);
        }
        i += 1;
    }
    proof {
        assert(attrs_view(*attrs).skip(i as int).len() == 0);
    }
    None
}

/// Whether the attribute list binds `class` exactly to the expected role
/// string; space-separated class lists must match whole.
pub open spec fn spec_class_ok(attrs: Seq<(Seq<char>, Seq<char>)>, class: Seq<char>) -> bool {
    spec_attr_of(attrs, seq!['c', 'l', 'a', 's', 's']) == Some(class)
}

pub fn class_ok(attrs: &AttrList, class: &[char]) -> (r: bool)
    ensures
        r == spec_class_ok(attrs_view(*attrs), class@),
{
    let key: [char; 5] = ['c', 'l', 'a', 's', 's'];
    proof {
        assert(key@ =~= seq!['c', 'l', 'a', 's', 's']);
    }
    match attr_of(attrs, key.as_slice()) {
        Some(v) => crate::strutil::chars_eq(v.as_slice(), class),
        None => false,
    }
}

/// An opening tag `<name attr="val" ...>` whose name must equal `tag`.
pub open spec fn spec_open_tag(s: Seq<char>, pos: int, tag: Seq<char>) -> Option<
    (int, Seq<(Seq<char>, Seq<char>)>),
> {
    if pos < s.len() && s[pos] == '<' {
        let ie = spec_run_end(s, pos + 1, CharClass::Ident);
        let (ae, al) = spec_attrs(s, ie);
        if ae < s.len() && s[ae] == '>' && s.subrange(pos + 1, ie) == tag {
            Some((ae + 1, al))
        } else {
            None
        }
    } else {
        None
    }
}

pub fn open_tag(s: &[char], pos: usize, tag: &[char]) -> (r: Option<(usize, AttrList)>)
    requires
        pos <= s@.len(),
    ensures
        match r {
            Some((e, al)) => {
                &&& spec_open_tag(s@, pos as int, tag@) == Some((e as int, attrs_view(al)))
                &&& pos < e <= s@.len()
            },
            None => spec_open_tag(s@, pos as int, tag@) is None,
        },
{
    if pos < s.len() && s[pos] == '<' {
        let ie = run_end(s, pos + 1, CharClass::Ident);
        let (ae, al) = attrs(s, ie);
        if ae < s.len() && s[ae] == '>' && range_eq(s, pos + 1, ie, tag) {
            Some((ae + 1, al))
        } else {
            None
        }
    } else {
        None
    }
}

/// A closing tag `</name>` whose name must equal `tag`.
pub open spec fn spec_close_tag(s: Seq<char>, pos: int, tag: Seq<char>) -> Option<int> {
    if pos + 1 < s.len() && s[pos] == '<' && s[pos + 1] == '/' {
        let ie = spec_run_end(s, pos + 2, CharClass::Ident);
        if ie < s.len() && s[ie] == '>' && s.subrange(pos + 2, ie) == tag {
            Some(ie + 1)
        } else {
            None
        }
    } else {
        None
    }
}

pub fn close_tag(s: &[char], pos: usize, tag: &[char]) -> (r: Option<usize>)
    requires
        pos <= s@.len(),
    ensures
        match r {
            Some(e) => {
                &&& spec_close_tag(s@, pos as int, tag@) == Some(e as int)
                &&& pos < e <= s@.len()
            },
            None => spec_close_tag(s@, pos as int, tag@) is None,
        },
{
    if pos < s.len() && s[pos] == '<' && pos + 1 < s.len() && s[pos + 1] == '/' {
        let ie = run_end(s, pos + 2, CharClass::Ident);
        if ie < s.len() && s[ie] == '>' && range_eq(s, pos + 2, ie, tag) {
            Some(ie + 1)
        } else {
            None
        }
    } else {
        None
    }
}

/// A void tag `<name attr="val" .../>` whose name must equal `tag`.
pub open spec fn spec_empty_tag(s: Seq<char>, pos: int, tag: Seq<char>) -> Option<
    (int, Seq<(Seq<char>, Seq<char>)>),
> {
    if pos < s.len() && s[pos] == '<' {
        let ie = spec_run_end(s, pos + 1, CharClass::Ident);
        let (ae, al) = spec_attrs(s, ie);
        if ae + 1 < s.len() && s[ae] == '/' && s[ae + 1] == '>' && s.subrange(pos + 1, ie) == tag {
            Some((ae + 2, al))
        } else {
            None
        }
    } else {
        None
    }
}

pub fn empty_xml_tag(s: &[char], pos: usize, tag: &[char]) -> (r: Option<(usize, AttrList)>)
    requires
        pos <= s@.len(),
    ensures
        match r {
            Some((e, al)) => {
                &&& spec_empty_tag(s@, pos as int, tag@) == Some((e as int, attrs_view(al)))
                &&& pos < e <= s@.len()
            },
            None => spec_empty_tag(s@, pos as int, tag@) is None,
        },
{
    if pos < s.len() && s[pos] == '<' {
        let ie = run_end(s, pos + 1, CharClass::Ident);
        let (ae, al) = attrs(s, ie);
        if ae < s.len() && s[ae] == '/' && ae + 1 < s.len() && s[ae + 1] == '>' && range_eq(
            s,
            pos + 1,
            ie,
            tag,
        ) {
            Some((ae + 2, al))
        } else {
            None
        }
    } else {
        None
    }
}

/// How an executable rule result relates to its specification twin: equal
/// values, and on success an end position past `pos` and within bounds.
pub open spec fn res_of<T: View>(
    r: Option<(usize, T)>,
    m: Option<(int, T::V)>,
    pos: int,
    hi: int,
) -> bool {
    match r {
        Some((e, x)) => m == Some((e as int, x@)) && pos < e <= hi,
        None => m is None,
    }
}

/// A non-empty maximal run of class `k`.
pub open spec fn spec_take1(s: Seq<char>, pos: int, k: CharClass) -> Option<(int, Seq<char>)> {
    let e = spec_run_end(s, pos, k);
    if e > pos {
        Some((e, s.subrange(pos, e)))
    } else {
        None
    }
}

pub fn take1(s: &[char], pos: usize, k: CharClass) -> (r: Option<(usize, Vec<char>)>)
    requires
        pos <= s@.len(),
    ensures
        res_of(r, spec_take1(s@, pos as int, k), pos as int, s@.len() as int),
{
    let e = run_end(s, pos, k);
    if e > pos {
        Some((e, crate::strutil::chars_range(s, pos, e)))
    } else {
        None
    }
}

/// A run of one-or-more characters other than `<`: raw tag content.
pub open spec fn spec_text_run(s: Seq<char>, pos: int) -> Option<(int, Seq<char>)> {
    spec_take1(s, pos, CharClass::Text)
}

pub fn text_run(s: &[char], pos: usize) -> (r: Option<(usize, Vec<char>)>)
    requires
        pos <= s@.len(),
    ensures
        res_of(r, spec_text_run(s@, pos as int), pos as int, s@.len() as int),
{
    take1(s, pos, CharClass::Text)
}

/// A run of one-or-more kana.
pub open spec fn spec_kana(s: Seq<char>, pos: int) -> Option<(int, Seq<char>)> {
    spec_take1(s, pos, CharClass::Kana)
}

pub fn kana(s: &[char], pos: usize) -> (r: Option<(usize, Vec<char>)>)
    requires
        pos <= s@.len(),
    ensures
        res_of(r, spec_kana(s@, pos as int), pos as int, s@.len() as int),
{
    take1(s, pos, CharClass::Kana)
}

/// A run of one-or-more kanji.
pub open spec fn spec_kanji(s: Seq<char>, pos: int) -> Option<(int, Seq<char>)> {
    spec_take1(s, pos, CharClass::Kanji)
}

pub fn kanji(s: &[char], pos: usize) -> (r: Option<(usize, Vec<char>)>)
    requires
        pos <= s@.len(),
    ensures
        res_of(r, spec_kanji(s@, pos as int), pos as int, s@.len() as int),
{
    take1(s, pos, CharClass::Kanji)
}

/// A run of one-or-more headword annotation characters.
pub open spec fn spec_h_text(s: Seq<char>, pos: int) -> Option<(int, Seq<char>)> {
    spec_take1(s, pos, CharClass::HText)
}

pub fn h_text(s: &[char], pos: usize) -> (r: Option<(usize, Vec<char>)>)
    requires
        pos <= s@.len(),
    ensures
        res_of(r, spec_h_text(s@, pos as int), pos as int, s@.len() as int),
{
    take1(s, pos, CharClass::HText)
}

/// A run of one-or-more cross-reference text characters.
pub open spec fn spec_ref_text(s: Seq<char>, pos: int) -> Option<(int, Seq<char>)> {
    spec_take1(s, pos, CharClass::RefText)
}

pub fn ref_text(s: &[char], pos: usize) -> (r: Option<(usize, Vec<char>)>)
    requires
        pos <= s@.len(),
    ensures
        res_of(r, spec_ref_text(s@, pos as int), pos as int, s@.len() as int),
{
    take1(s, pos, CharClass::RefText)
}

/// One expected literal character.
pub open spec fn spec_lit(s: Seq<char>, pos: int, c: char) -> Option<int> {
    if pos < s.len() && s[pos] == c {
        Some(pos + 1)
    } else {
        None
    }
}

pub fn lit(s: &[char], pos: usize, c: char) -> (r: Option<usize>)
    requires
        pos <= s@.len(),
    ensures
        match r {
            Some(e) => spec_lit(s@, pos as int, c) == Some(e as int) && pos < e <= s@.len(),
            None => spec_lit(s@, pos as int, c) is None,
        },
{
    if pos < s.len() && s[pos] == c {
        Some(pos + 1)
    } else {
        None
    }
}

/// The first position at or after `pos` where `pat` occurs, if any.
pub open spec fn spec_find(s: Seq<char>, pos: int, pat: Seq<char>) -> Option<int>
    decreases s.len() - pos,
{
    if pat.len() >= 1 && pos + pat.len() <= s.len() {
        if s.subrange(pos, pos + pat.len()) == pat {
            Some(pos)
        } else {
            spec_find(s, pos + 1, pat)
        }
    } else {
        None
    }
}

pub fn find_sub(s: &[char], pos: usize, pat: &[char]) -> (r: Option<usize>)
    requires
        pos <= s@.len(),
        pat@.len() >= 1,
    ensures
        match r {
            Some(e) => {
                &&& spec_find(s@, pos as int, pat@) == Some(e as int)
                &&& pos <= e
                &&& e + pat@.len() <= s@.len()
            },
            None => spec_find(s@, pos as int, pat@) is None,
        },
{
    if pat.len() > s.len() {
        return None;
    }
    let limit: usize = s.len() - pat.len();
    if pos > limit {
        return None;
    }
    let mut i: usize = pos;
    while i <= limit
        invariant
            pos <= i,
            i <= limit + 1,
            limit == s@.len() - pat@.len(),
            pat@.len() >= 1,
            s@.len() <= usize::MAX,
            spec_find(s@, pos as int, pat@) == spec_find(s@, i as int, pat@),
        decreases limit + 1 - i,
    {
        if range_eq(s, i, i + pat.len(), pat) {
            return Some(i);
        }
        i += 1;
    }
    None
}

/// A Unicode whitespace character, as `char::is_whitespace` recognizes it.
pub open spec fn spec_is_white(c: char) -> bool {
    let u = c as u32;
    (0x9 <= u && u <= 0xd) || u == 0x20 || u == 0x85 || u == 0xa0 || u == 0x1680 || (0x2000 <= u
        && u <= 0x200a) || u == 0x2028 || u == 0x2029 || u == 0x202f || u == 0x205f || u == 0x3000
}

pub fn is_white(c: char) -> (r: bool)
    ensures
        r == spec_is_white(c),
{
    let u = c as u32;
    (0x9 <= u && u <= 0xd) || u == 0x20 || u == 0x85 || u == 0xa0 || u == 0x1680 || (0x2000 <= u
        && u <= 0x200a) || u == 0x2028 || u == 0x2029 || u == 0x202f || u == 0x205f || u == 0x3000
}

/// Whether everything from `pos` on is whitespace.
pub open spec fn spec_all_white(s: Seq<char>, pos: int) -> bool {
    forall|i: int| pos <= i < s.len() ==> spec_is_white(s[i])
}

pub fn all_white(s: &[char], pos: usize) -> (r: bool)
    requires
        pos <= s@.len(),
    ensures
        r == spec_all_white(s@, pos as int),
{
    let mut i: usize = pos;
    while i < s.len()
        invariant
            pos <= i <= s@.len(),
            forall|j: int| pos <= j < i ==> spec_is_white(s@[j]),
        decreases s@.len() - i,
    {
        if !is_white(s[i]) {
            return false;
        }
        i += 1;
    }
    true
}

/// A tag with the expected name whose whole content is raw text (possibly
/// empty), with its attribute list: `<tag a="v" ...>text</tag>`.
pub open spec fn spec_xml_tag(s: Seq<char>, pos: int, tag: Seq<char>) -> Option<
    (int, (Seq<(Seq<char>, Seq<char>)>, Seq<char>)),
> {
    match spec_open_tag(s, pos, tag) {
        Some((p1, al)) => {
            let te = spec_run_end(s, p1, CharClass::Text);
            match spec_close_tag(s, te, tag) {
                Some(p2) => Some((p2, (al, s.subrange(p1, te)))),
                None => None,
            }
        },
        None => None,
    }
}

pub fn xml_tag(s: &[char], pos: usize, tag: &[char]) -> (r: Option<(usize, (AttrList, Vec<char>))>)
    requires
        pos <= s@.len(),
    ensures
        match r {
            Some((e, av)) => {
                &&& spec_xml_tag(s@, pos as int, tag@) == Some(
                    (e as int, (attrs_view(av.0), av.1@)),
                )
                &&& pos < e <= s@.len()
            },
            None => spec_xml_tag(s@, pos as int, tag@) is None,
        },
{
    match open_tag(s, pos, tag) {
        Some((p1, al)) => {
            let te = run_end(s, p1, CharClass::Text);
            match close_tag(s, te, tag) {
                Some(p2) => {
                    let v = crate::strutil::chars_range(s, p1, te);
                    Some((p2, (al, v)))
                },
                None => None,
            }
        },
        None => None,
    }
}

/// A tag with the expected name and role: non-empty raw text content inside
/// `<tag ...>`, whose `class` attribute must equal `class` exactly.
pub open spec fn spec_class_text(s: Seq<char>, pos: int, tag: Seq<char>, class: Seq<char>) -> Option<
    (int, Seq<char>),
> {
    match spec_open_tag(s, pos, tag) {
        Some((p1, al)) => {
            let te = spec_run_end(s, p1, CharClass::Text);
            if te > p1 {
                match spec_close_tag(s, te, tag) {
                    Some(p2) => if spec_class_ok(al, class) {
                        Some((p2, s.subrange(p1, te)))
                    } else {
                        None
                    },
                    None => None,
                }
            } else {
                None
            }
        },
        None => None,
    }
}

pub fn class_text(s: &[char], pos: usize, tag: &[char], class: &[char]) -> (r: Option<
    (usize, Vec<char>),
>)
    requires
        pos <= s@.len(),
    ensures
        res_of(r, spec_class_text(s@, pos as int, tag@, class@), pos as int, s@.len() as int),
{
    match open_tag(s, pos, tag) {
        Some((p1, al)) => {
            let te = run_end(s, p1, CharClass::Text);
            if te > p1 {
                match close_tag(s, te, tag) {
                    Some(p2) => {
                        if class_ok(&al, class) {
                            let v = crate::strutil::chars_range(s, p1, te);
                            Some((p2, v))
                        } else {
                            None
                        }
                    },
                    None => None,
                }
            } else {
                None
            }
        },
        None => None,
    }
}

/// Character-wise equality of `s[from..to]` with `b`.
pub fn range_eq(s: &[char], from: usize, to: usize, b: &[char]) -> (r: bool)
    requires
        from <= to <= s@.len(),
    ensures
        r == (s@.subrange(from as int, to as int) == b@),
{
    if to - from != b.len() {
        assert(s@.subrange(from as int, to as int).len() != b@.len());
        return false;
    }
    let mut i: usize = 0;
    while i < b.len()
        invariant
            from <= to <= s@.len(),
            i <= b@.len(),
            to - from == b@.len(),
            forall|j: int| 0 <= j < i ==> s@.subrange(from as int, to as int)[j] == b@[j],
        decreases b@.len() - i,
    {
        if s[from + i] != b[i] {
            assert(s@.subrange(from as int, to as int)[i as int] != b@[i as int]);
            return false;
        }
        i += 1;
    }
    assert(s@.subrange(from as int, to as int) =~= b@);
    true
}

} // verus!
