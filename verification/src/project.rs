//! The text projection of the entry tree: each node rendered back to its
//! plain annotated form. Highlighted kana runs are rewritten through the
//! katakana-circling table; ruby pairs project to their base text only, the
//! reading being dropped; audio references, boxed labels and footnote marks
//! project to nothing.
use vstd::prelude::*;

use crate::ast::Accent;
use crate::ast::AccentText;
use crate::ast::AccentTextV;
use crate::ast::H;
use crate::ast::HV;
use crate::ast::Head;
use crate::ast::HeadV;
use crate::ast::Inner;
use crate::ast::InnerV;
use crate::ast::Ruby;
use crate::ast::seq_view;
use crate::circle::spec_circle;
use crate::circle::to_circle;

verus! {

/// What one accent text piece shows.
pub open spec fn spec_accent_piece_text(t: AccentTextV) -> Seq<char> {
    match t {
        AccentTextV::Text(s) => s,
        AccentTextV::SymbolMacron(s) => s,
        AccentTextV::SymbolBackslash(s) => s,
        AccentTextV::RoundBox(s) => spec_circle(s),
        AccentTextV::Sound(_) => Seq::empty(),
        AccentTextV::SquareBox(_) => Seq::empty(),
        AccentTextV::NoteRef(_) => Seq::empty(),
    }
}

/// What a run of accent text pieces shows.
pub open spec fn spec_accent_run_text(l: Seq<AccentTextV>) -> Seq<char>
    decreases l.len(),
{
    if l.len() == 0 {
        Seq::empty()
    } else {
        spec_accent_run_text(l.drop_last()) + spec_accent_piece_text(l.last())
    }
}

impl AccentText {
    /// The plain text of this piece.
    pub fn to_text(&self) -> (r: String)
        ensures
            r@ == spec_accent_piece_text(self@),
    {
        match self {
            AccentText::Text(s) => s.clone(),
            AccentText::SymbolMacron(s) => s.clone(),
            AccentText::SymbolBackslash(s) => s.clone(),
            AccentText::RoundBox(s) => to_circle(s.as_str()),
            AccentText::Sound(_) => String::new(),
            AccentText::SquareBox(_) => String::new(),
            AccentText::NoteRef(_) => String::new(),
        }
    }
}

/// The plain text of a run of accent pieces.
pub fn accent_run_text(l: &Vec<AccentText>) -> (r: String)
    ensures
        r@ == spec_accent_run_text(seq_view(l@)),
{
    let mut out = String::new();
    let mut i: usize = 0;
    proof {
        assert(seq_view(l@).subrange(0, 0) =~= Seq::<AccentTextV>::empty());
    }
    while i < l.len()
        invariant
            i <= l@.len(),
            out@ == spec_accent_run_text(seq_view(l@).subrange(0, i as int)),
        decreases l@.len() - i,
    {
        let piece = l[i].to_text();
        out.append(piece.as_str());
        proof {
            let cur = seq_view(l@).subrange(0, i + 1 as int);
            assert(cur.drop_last() =~= seq_view(l@).subrange(0, i as int));
            assert(cur.last() == seq_view(l@)[i as int]);
        }
        i += 1;
    }
    proof {
        assert(seq_view(l@).subrange(0, l@.len() as int) =~= seq_view(l@));
    }
    out
}

impl Accent {
    /// The plain text of this pronunciation variant: its accent pieces in
    /// order, the optional label not shown.
    pub fn to_text(&self) -> (r: String)
        ensures
            r@ == spec_accent_run_text(self@.1),
    {
        accent_run_text(&self.1)
    }
}

/// What one ruby-with-kana element shows: the base text, the reading
/// dropped, any trailing kana kept.
pub open spec fn spec_ruby_elem_text(p: ((Seq<char>, Seq<char>), Option<Seq<char>>)) -> Seq<
    char,
> {
    match p.1 {
        Some(k) => p.0.0 + k,
        None => p.0.0,
    }
}

/// What a ruby run shows.
pub open spec fn spec_ruby_run_text(l: Seq<((Seq<char>, Seq<char>), Option<Seq<char>>)>) -> Seq<
    char,
>
    decreases l.len(),
{
    if l.len() == 0 {
        Seq::empty()
    } else {
        spec_ruby_run_text(l.drop_last()) + spec_ruby_elem_text(l.last())
    }
}

/// What one inner annotation shows.
pub open spec fn spec_inner_text(iv: InnerV) -> Seq<char> {
    match iv {
        InnerV::DAngleBrackets(s) => s,
        InnerV::Ruby(l) => spec_ruby_run_text(l),
        InnerV::RoundBrackets(s) => s,
        InnerV::Text(s) => s,
        InnerV::Span(s) => s,
    }
}

impl Ruby {
    /// The projected text of a ruby pair: its base text only.
    pub fn to_text(&self) -> (r: String)
        ensures
            r@ == self@.0,
    {
        self.0.0.clone()
    }
}

impl Inner {
    /// The plain text of this inner annotation.
    pub fn to_text(&self) -> (r: String)
        ensures
            r@ == spec_inner_text(self@),
    {
        match self {
            Inner::DAngleBrackets(d) => d.0.clone(),
            Inner::RoundBrackets(s) => s.clone(),
            Inner::Text(s) => s.clone(),
            Inner::Span(s) => s.clone(),
            Inner::Ruby(l) => {
                let mut out = String::new();
                let mut i: usize = 0;
                proof {
                    assert(crate::ast::Inner::Ruby(*l)@ == InnerV::Ruby(
                        Seq::new(l@.len(), |j: int| crate::ast::ruby_pair_view(l@[j])),
                    ));
                    assert(crate::head::ruby_list_view(l@).subrange(0, 0) =~= Seq::<
                        ((Seq<char>, Seq<char>), Option<Seq<char>>),
                    >::empty());
                }
                while i < l.len()
                    invariant
                        i <= l@.len(),
                        out@ == spec_ruby_run_text(
                            crate::head::ruby_list_view(l@).subrange(0, i as int),
                        ),
                    decreases l@.len() - i,
                {
                    let rb = l[i].0.to_text();
                    out.append(rb.as_str());
                    match &l[i].1 {
                        Some(k) => out.append(k.as_str()),
                        None => {},
                    }
                    proof {
                        let lv = crate::head::ruby_list_view(l@);
                        let cur = lv.subrange(0, i + 1 as int);
                        assert(cur.drop_last() =~= lv.subrange(0, i as int));
                        assert(cur.last() == lv[i as int]);
                    }
                    i += 1;
                }
                proof {
                    let lv = crate::head::ruby_list_view(l@);
                    assert(lv.subrange(0, l@.len() as int) =~= lv);
                    assert(InnerV::Ruby(lv) == self@);
                }
                out
            },
        }
    }
}

/// What one headword fragment shows: its matched substring, a bracketed
/// form followed by its inner annotations and closing glyph, or — for an
/// anchored subheadword — its anchor name.
pub open spec fn spec_h_frag_text(h: HV) -> Seq<char> {
    match h {
        HV::Headword(s) => s,
        HV::SquareBrackets(s) => s,
        HV::RoundBrackets(s) => s,
        HV::SquareBox(s) => s,
        HV::DAngleBrackets(s) => s,
        HV::AngleBrackets(s) => s,
        HV::Dia(s) => s,
        HV::HW(start, o) => match o {
            Some((inners, end)) => start + spec_inner_run_text(inners) + seq![end],
            None => start,
        },
        HV::BlackBranckets(start, o) => match o {
            Some((inner, end)) => start + spec_inner_text(inner) + seq![end],
            None => start,
        },
        HV::Subheadword(n, _s) => n,
    }
}

/// What a run of inner annotations shows.
pub open spec fn spec_inner_run_text(l: Seq<InnerV>) -> Seq<char>
    decreases l.len(),
{
    if l.len() == 0 {
        Seq::empty()
    } else {
        spec_inner_run_text(l.drop_last()) + spec_inner_text(l.last())
    }
}

impl H {
    /// The plain text of this headword fragment.
    pub fn to_text(&self) -> (r: String)
        ensures
            r@ == spec_h_frag_text(self@),
    {
        match self {
            H::Headword(s) => s.clone(),
            H::SquareBrackets(s) => s.clone(),
            H::RoundBrackets(s) => s.clone(),
            H::SquareBox(s) => s.clone(),
            H::DAngleBrackets(s) => s.clone(),
            H::AngleBrackets(s) => s.clone(),
            H::Dia(s) => s.clone(),
            H::Subheadword(n, _s) => n.0.clone(),
            H::HW(start, o) => {
                let mut out = start.clone();
                match o {
                    Some((inners, end)) => {
                        let mut i: usize = 0;
                        proof {
                            assert(seq_view(inners@).subrange(0, 0) =~= Seq::<InnerV>::empty());
                            assert(out@ + spec_inner_run_text(
                                seq_view(inners@).subrange(0, 0),
                            ) =~= out@);
                        }
                        let ghost start_v = out@;
                        while i < inners.len()
                            invariant
                                i <= inners@.len(),
                                out@ == start_v + spec_inner_run_text(
                                    seq_view(inners@).subrange(0, i as int),
                                ),
                            decreases inners@.len() - i,
                        {
                            let t = inners[i].to_text();
                            out.append(t.as_str());
                            proof {
                                let lv = seq_view(inners@);
                                let cur = lv.subrange(0, i + 1 as int);
                                assert(cur.drop_last() =~= lv.subrange(0, i as int));
                                assert(cur.last() == lv[i as int]);
                                assert(out@ =~= start_v + spec_inner_run_text(cur));
                            }
                            i += 1;
                        }
                        proof {
                            assert(seq_view(inners@).subrange(0, inners@.len() as int) =~= seq_view(
                                inners@,
                            ));
                        }
                        let endv = vec![*end];
                        proof {
                            assert(endv@ =~= seq![*end]);
                        }
                        let endstr = crate::strutil::chars_to_string(endv.as_slice());
                        out.append(endstr.as_str());
                        out
                    },
                    None => out,
                }
            },
            H::BlackBranckets(start, o) => {
                let mut out = start.clone();
                match o {
                    Some((inner, end)) => {
                        let t = inner.to_text();
                        out.append(t.as_str());
                        let endv = vec![*end];
                        proof {
                            assert(endv@ =~= seq![*end]);
                        }
                        let endstr = crate::strutil::chars_to_string(endv.as_slice());
                        out.append(endstr.as_str());
                        out
                    },
                    None => out,
                }
            },
        }
    }
}

/// What a headword fragment list shows: each fragment followed by a blank.
pub open spec fn spec_h_run_text(l: Seq<HV>) -> Seq<char>
    decreases l.len(),
{
    if l.len() == 0 {
        Seq::empty()
    } else {
        spec_h_run_text(l.drop_last()) + spec_h_frag_text(l.last()) + seq![' ']
    }
}

/// The plain text of a headword fragment list.
pub fn h_run_text(l: &Vec<H>) -> (r: String)
    ensures
        r@ == spec_h_run_text(seq_view(l@)),
{
    let mut out = String::new();
    let mut i: usize = 0;
    proof {
        assert(seq_view(l@).subrange(0, 0) =~= Seq::<HV>::empty());
    }
    while i < l.len()
        invariant
            i <= l@.len(),
            out@ == spec_h_run_text(seq_view(l@).subrange(0, i as int)),
        decreases l@.len() - i,
    {
        let t = l[i].to_text();
        out.append(t.as_str());
        out.append(" ");
        proof {
            let lv = seq_view(l@);
            let cur = lv.subrange(0, i + 1 as int);
            assert(cur.drop_last() =~= lv.subrange(0, i as int));
            assert(cur.last() == lv[i as int]);
            reveal_strlit(" ");
            assert(" "@ =~= seq![' ']);
        }
        i += 1;
    }
    proof {
        assert(seq_view(l@).subrange(0, l@.len() as int) =~= seq_view(l@));
    }
    out
}

/// What a whole headword shows: its fragments each followed by a blank, or
/// the word `none` for every other kind of head.
pub open spec fn spec_head_text(h: HeadV) -> Seq<char> {
    match h {
        HeadV::H(l) => spec_h_run_text(l),
        _ => seq!['n', 'o', 'n', 'e'],
    }
}

impl Head {
    /// The plain text of this headword.
    pub fn to_text(&self) -> (r: String)
        ensures
            r@ == spec_head_text(self@),
    {
        match self {
            Head::H(l) => h_run_text(l),
            _ => {
                let nv = vec!['n', 'o', 'n', 'e'];
                proof {
                    assert(nv@ =~= seq!['n', 'o', 'n', 'e']);
                }
                crate::strutil::chars_to_string(nv.as_slice())
            },
        }
    }
}

} // verus!
