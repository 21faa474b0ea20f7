//! The stated laws of the library, each proved from the specifications the
//! executable functions are bound to.
use vstd::prelude::*;

use crate::ast::DicItemV;
use crate::entry::spec_parse_xml;
use crate::gen_svg::spec_gen_steps;
use crate::gen_svg::svg_text_of;
use crate::mora::PitchShape;
use crate::mora::spec_classify;
use crate::unpack::spec_dedup_first;
use crate::unpack::spec_unpack;
use crate::xml::CharClass;
use crate::xml::spec_open_tag;
use crate::xml::spec_run_end;
use crate::xml::spec_xml_tag;
use crate::xml::lemma_run_end_bounds;
use crate::xml::lemma_attrs_bounds;

verus! {

/// Law: decoding a page and unpacking the result is deterministic. The
/// decoded entry is a function of the page buffer alone, and every
/// unpacking of equal entries is identical — repeated calls can never
/// yield different output.
pub proof fn lemma_parse_unpack_deterministic(page: Seq<char>, d1: DicItemV, d2: DicItemV)
    requires
        spec_parse_xml(page) == Some(d1),
        spec_parse_xml(page) == Some(d2),
    ensures
        d1 == d2,
        spec_unpack(d1) == spec_unpack(d2),
{
}

/// Law: the diagram synthesizer is deterministic — equal accent strings
/// build equal step histories and so render to identical documents.
pub proof fn lemma_diagram_deterministic(w1: Seq<char>, w2: Seq<char>)
    requires
        w1 == w2,
    ensures
        spec_gen_steps(w1) == spec_gen_steps(w2),
        svg_text_of(spec_gen_steps(w1)) == svg_text_of(spec_gen_steps(w2)),
{
}

/// Law: tag balance is required, never inferred. Where an opening tag of
/// the expected name matches but the name inside the closing tag differs
/// from it, the tag rule fails, whatever text stands between them.
pub proof fn lemma_tag_balance(s: Seq<char>, pos: int, tag: Seq<char>)
    requires
        0 <= pos <= s.len(),
        spec_open_tag(s, pos, tag) is Some,
        ({
            let (p1, _al) = spec_open_tag(s, pos, tag)->Some_0;
            let te = spec_run_end(s, p1, CharClass::Text);
            s.subrange(te + 2, spec_run_end(s, te + 2, CharClass::Ident)) != tag
        }),
    ensures
        spec_xml_tag(s, pos, tag) is None,
{
    let (p1, _al) = spec_open_tag(s, pos, tag)->Some_0;
    let te = spec_run_end(s, p1, CharClass::Text);
    assert(spec_open_tag(s, pos, tag) is Some ==> 0 <= p1 <= s.len()) by {
        if pos < s.len() && s[pos] == '<' {
            lemma_run_end_bounds(s, pos + 1, CharClass::Ident);
            lemma_attrs_bounds(s, spec_run_end(s, pos + 1, CharClass::Ident));
        }
    }
    lemma_run_end_bounds(s, p1, CharClass::Text);
}

/// Law: the classifier decides the four pitch shapes in priority order — a
/// word ending in the rise marker is heiban; otherwise a word whose second
/// mora is the drop marker is atamadaka; otherwise a word ending in the
/// drop marker is odaka; everything else is nakadaka.
pub proof fn lemma_classifier(ms: Seq<Seq<char>>)
    ensures
        ms.len() >= 1 && ms.last() == seq!['▔'] ==> spec_classify(ms) == PitchShape::Heiban,
        spec_classify(ms) != PitchShape::Heiban && ms.len() >= 2 && ms[1] == seq!['＼']
            ==> spec_classify(ms) == PitchShape::Atamadaka,
        spec_classify(ms) != PitchShape::Heiban && spec_classify(ms) != PitchShape::Atamadaka
            && ms.len() >= 1 && ms.last() == seq!['＼'] ==> spec_classify(ms)
            == PitchShape::Odaka,
        !(ms.len() >= 1 && ms.last() == seq!['▔']) && !(ms.len() >= 2 && ms[1] == seq!['＼']) && !(
        ms.len() >= 1 && ms.last() == seq!['＼']) ==> spec_classify(ms) == PitchShape::Nakadaka,
{
}

/// Law: the pronunciation de-duplication rule removes exactly the first
/// record when the first two are identical, and otherwise — identical
/// records elsewhere in the list included — removes nothing.
pub proof fn lemma_dedup_first(l: Seq<(Seq<char>, Seq<char>)>)
    ensures
        l.len() >= 2 && l[0] == l[1] ==> spec_dedup_first(l) == l.drop_first(),
        !(l.len() >= 2 && l[0] == l[1]) ==> spec_dedup_first(l) == l,
{
}

} // verus!
