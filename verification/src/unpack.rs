//! Unpacking a decoded entry into flat headword/pronunciation records: the
//! projection consumers read, including the verb-entry de-duplication rule.
use vstd::prelude::*;

use crate::ast::Accent;
use crate::ast::AccentText;
use crate::ast::AccentTextV;
use crate::ast::Audio;
use crate::ast::BodyContent;
use crate::ast::BodyContentV;
use crate::ast::ConTableContent;
use crate::ast::ConTableContentV;
use crate::ast::DicItem;
use crate::ast::DicItemV;
use crate::ast::H;
use crate::ast::HV;
use crate::ast::Head;
use crate::ast::HeadV;
use crate::ast::RoundBrackets;
use crate::ast::seq_view;
use crate::project::spec_accent_run_text;
use crate::project::spec_h_run_text;
use crate::project::h_run_text;

verus! {

/// One flat pronunciation record: the projected accent text and its audio
/// file identifier.
#[derive(Debug, Clone, PartialEq)]
pub struct Pron {
    pub accent: String,
    pub sound_file: String,
}

impl View for Pron {
    type V = (Seq<char>, Seq<char>);

    open spec fn view(&self) -> (Seq<char>, Seq<char>) {
        (self.accent@, self.sound_file@)
    }
}

/// One flat headword record of an entry: its identifier, projected head
/// text, the bare kanji of its last plain bracketed headword if any, and
/// its pronunciations.
#[derive(Debug, Clone, PartialEq)]
pub struct Unpacked {
    pub id: String,
    pub head: String,
    pub kanji: Option<String>,
    pub pron: Vec<Pron>,
}

/// The view of one flat record.
pub type UnpackedV = (Seq<char>, Seq<char>, Option<Seq<char>>, Seq<(Seq<char>, Seq<char>)>);

impl View for Unpacked {
    type V = UnpackedV;

    open spec fn view(&self) -> UnpackedV {
        (
            self.id@,
            self.head@,
            match self.kanji {
                Some(ref k) => Some(k@),
                None => None,
            },
            seq_view(self.pron@),
        )
    }
}

/// The first audio reference among a run of accent pieces, if any.
pub open spec fn spec_sound_id(l: Seq<AccentTextV>) -> Option<Seq<char>>
    decreases l.len(),
{
    if l.len() == 0 {
        None
    } else {
        match l.first() {
            AccentTextV::Sound(s) => Some(s),
            _ => spec_sound_id(l.drop_first()),
        }
    }
}

/// The first audio reference among a run of accent pieces, if any.
pub fn sound_id_of(l: &Vec<AccentText>) -> (r: Option<String>)
    ensures
        match r {
            Some(s) => spec_sound_id(seq_view(l@)) == Some(s@),
            None => spec_sound_id(seq_view(l@)) is None,
        },
{
    let mut i: usize = 0;
    proof {
        assert(seq_view(l@).skip(0) =~= seq_view(l@));
    }
    while i < l.len()
        invariant
            i <= l@.len(),
            spec_sound_id(seq_view(l@)) == spec_sound_id(seq_view(l@).skip(i as int)),
        decreases l@.len() - i,
    {
        proof {
            assert(seq_view(l@).skip(i as int).first() == seq_view(l@)[i as int]);
            assert(seq_view(l@).skip(i as int).drop_first() =~= seq_view(l@).skip(i + 1 as int));
        }
        match &l[i] {
            AccentText::Sound(s) => {
                proof {
                    assert(seq_view(l@)[i as int] == AccentTextV::Sound(s@));
                    assert(spec_sound_id(seq_view(l@).skip(i as int)) == Some(s@));
                }
                return Some(s.clone());
            },
            _ => {},
        }
        i += 1;
    }
    proof {
        assert(seq_view(l@).skip(i as int).len() == 0);
    }
    None
}

/// The audio reference of a pronunciation variant: the first `Sound` piece
/// in its accent text, if any.
pub fn get_sound_id(accent: &Accent) -> (r: Option<String>)
    ensures
        match r {
            Some(s) => spec_sound_id(accent@.1) == Some(s@),
            None => spec_sound_id(accent@.1) is None,
        },
{
    sound_id_of(&accent.1)
}

/// The audio reference of a parenthesized accent form: an explicit trailing
/// reference overrides any reference inferred from the accent text itself.
pub open spec fn spec_accent_round_sound(rb: Seq<AccentTextV>, ex: Option<Seq<char>>) -> Option<
    Seq<char>,
> {
    match ex {
        Some(a) => Some(a),
        None => spec_sound_id(rb),
    }
}

/// The effective audio reference of a parenthesized accent form with its
/// optional explicit reference.
pub fn accent_round_sound(rb: &RoundBrackets, ex: &Option<Audio>) -> (r: Option<String>)
    ensures
        match r {
            Some(s) => spec_accent_round_sound(
                rb@,
                match ex {
                    Some(a) => Some(a@),
                    None => None,
                },
            ) == Some(s@),
            None => spec_accent_round_sound(
                rb@,
                match ex {
                    Some(a) => Some(a@),
                    None => None,
                },
            ) is None,
        },
{
    match ex {
        Some(a) => Some(a.0.clone()),
        None => sound_id_of(&rb.0),
    }
}

/// The pronunciation records a run of accents contributes: one per accent
/// that carries an audio reference.
pub open spec fn spec_prons_of_accents(l: Seq<(Option<Seq<char>>, Seq<AccentTextV>)>) -> Seq<
    (Seq<char>, Seq<char>),
>
    decreases l.len(),
{
    if l.len() == 0 {
        Seq::empty()
    } else {
        let prev = spec_prons_of_accents(l.drop_last());
        match spec_sound_id(l.last().1) {
            Some(sid) => prev.push((spec_accent_run_text(l.last().1), sid)),
            None => prev,
        }
    }
}

/// Append the pronunciation records of an accent run.
fn push_prons_of_accents(out: &mut Vec<Pron>, l: &Vec<Accent>)
    ensures
        seq_view(final (out)@) == seq_view(old(out)@) + spec_prons_of_accents(seq_view(l@)),
{
    let mut i: usize = 0;
    proof {
        assert(seq_view(l@).subrange(0, 0) =~= Seq::<(Option<Seq<char>>, Seq<AccentTextV>)>::empty());
        assert(seq_view(out@) =~= seq_view(out@) + spec_prons_of_accents(
            seq_view(l@).subrange(0, 0),
        ));
    }
    while i < l.len()
        invariant
            i <= l@.len(),
            seq_view(out@) == seq_view(old(out)@) + spec_prons_of_accents(
                seq_view(l@).subrange(0, i as int),
            ),
        decreases l@.len() - i,
    {
        let ghost lv = seq_view(l@);
        proof {
            assert(lv.subrange(0, i + 1 as int).drop_last() =~= lv.subrange(0, i as int));
            assert(lv.subrange(0, i + 1 as int).last() == lv[i as int]);
        }
        let a = &l[i];
        match get_sound_id(a) {
            Some(sid) => {
                let accent = a.to_text();
                let ghost prev = seq_view(out@);
                out.push(Pron { accent, sound_file: sid });
                proof {
                    assert(seq_view(out@) =~= prev.push((
                        spec_accent_run_text(lv[i as int].1),
                        spec_sound_id(lv[i as int].1)->Some_0,
                    )));
                }
            },
            None => {},
        }
        i += 1;
    }
    proof {
        assert(seq_view(l@).subrange(0, l@.len() as int) =~= seq_view(l@));
    }
}

/// The pronunciation records a conjugation table contributes.
pub open spec fn spec_prons_of_ct(l: Seq<ConTableContentV>) -> Seq<(Seq<char>, Seq<char>)>
    decreases l.len(),
{
    if l.len() == 0 {
        Seq::empty()
    } else {
        let prev = spec_prons_of_ct(l.drop_last());
        match l.last() {
            ConTableContentV::Accent(al) => prev + spec_prons_of_accents(al),
            _ => prev,
        }
    }
}

/// Append the pronunciation records of a conjugation table.
fn push_prons_of_ct(out: &mut Vec<Pron>, l: &Vec<ConTableContent>)
    ensures
        seq_view(final (out)@) == seq_view(old(out)@) + spec_prons_of_ct(seq_view(l@)),
{
    let mut i: usize = 0;
    proof {
        assert(seq_view(l@).subrange(0, 0) =~= Seq::<ConTableContentV>::empty());
        assert(seq_view(out@) =~= seq_view(out@) + spec_prons_of_ct(seq_view(l@).subrange(0, 0)));
    }
    while i < l.len()
        invariant
            i <= l@.len(),
            seq_view(out@) == seq_view(old(out)@) + spec_prons_of_ct(
                seq_view(l@).subrange(0, i as int),
            ),
        decreases l@.len() - i,
    {
        let ghost lv = seq_view(l@);
        proof {
            assert(lv.subrange(0, i + 1 as int).drop_last() =~= lv.subrange(0, i as int));
            assert(lv.subrange(0, i + 1 as int).last() == lv[i as int]);
        }
        match &l[i] {
            ConTableContent::Accent(al) => {
                push_prons_of_accents(out, al);
            },
            _ => {},
        }
        i += 1;
    }
    proof {
        assert(seq_view(l@).subrange(0, l@.len() as int) =~= seq_view(l@));
    }
}

/// The pronunciation records of a whole body: accents and conjugation
/// tables contribute, everything else does not.
pub open spec fn spec_prons_of_body(l: Seq<BodyContentV>) -> Seq<(Seq<char>, Seq<char>)>
    decreases l.len(),
{
    if l.len() == 0 {
        Seq::empty()
    } else {
        let prev = spec_prons_of_body(l.drop_last());
        match l.last() {
            BodyContentV::Accent(al) => prev + spec_prons_of_accents(al),
            BodyContentV::ConTable(cl) => prev + spec_prons_of_ct(cl),
            _ => prev,
        }
    }
}

/// Collect the pronunciation records of a body.
fn prons_of_body(l: &Vec<BodyContent>) -> (r: Vec<Pron>)
    ensures
        seq_view(r@) == spec_prons_of_body(seq_view(l@)),
{
    let mut out: Vec<Pron> = Vec::new();
    let mut i: usize = 0;
    proof {
        assert(seq_view(l@).subrange(0, 0) =~= Seq::<BodyContentV>::empty());
        assert(seq_view(out@) =~= spec_prons_of_body(seq_view(l@).subrange(0, 0)));
    }
    while i < l.len()
        invariant
            i <= l@.len(),
            seq_view(out@) == spec_prons_of_body(seq_view(l@).subrange(0, i as int)),
        decreases l@.len() - i,
    {
        let ghost lv = seq_view(l@);
        proof {
            assert(lv.subrange(0, i + 1 as int).drop_last() =~= lv.subrange(0, i as int));
            assert(lv.subrange(0, i + 1 as int).last() == lv[i as int]);
        }
        match &l[i] {
            BodyContent::Accent(al) => {
                push_prons_of_accents(&mut out, al);
            },
            BodyContent::ConTable(cl) => {
                push_prons_of_ct(&mut out, cl);
            },
            _ => {},
        }
        i += 1;
    }
    proof {
        assert(seq_view(l@).subrange(0, l@.len() as int) =~= seq_view(l@));
    }
    out
}

/// The verb-entry de-duplication rule: if the first two records are
/// identical, the first is dropped; nothing else is ever collapsed.
pub open spec fn spec_dedup_first(l: Seq<(Seq<char>, Seq<char>)>) -> Seq<(Seq<char>, Seq<char>)> {
    if l.len() >= 2 && l[0] == l[1] {
        l.drop_first()
    } else {
        l
    }
}

/// Whether two pronunciation records are identical.
fn pron_eq(a: &Pron, b: &Pron) -> (r: bool)
    ensures
        r == (a@ == b@),
{
    let acc_eq = a.accent.eq(&b.accent);
    let snd_eq = a.sound_file.eq(&b.sound_file);
    acc_eq && snd_eq
}

/// Apply the de-duplication rule to a pronunciation list.
pub fn dedup_first_pron(pron: &mut Vec<Pron>)
    ensures
        seq_view(final (pron)@) == spec_dedup_first(seq_view(old(pron)@)),
{
    if pron.len() >= 2 {
        let equal = ({
            let a = &pron[0];
            let b = &pron[1];
            pron_eq(a, b)
        });
        if equal {
            let ghost prev = seq_view(pron@);
            pron.remove(0);
            proof {
                assert(seq_view(pron@) =~= prev.drop_first());
            }
            return ;
        }
    }
}

/// The text the unpacking stage derives from a head: the fragments each
/// followed by a blank for a fragment head, nothing for any other head.
pub open spec fn spec_head_str(h: HeadV) -> Seq<char> {
    match h {
        HeadV::H(l) => spec_h_run_text(l),
        _ => Seq::empty(),
    }
}

/// The bare text between a bracketed headword's first and last characters.
pub open spec fn spec_strip_ends(s: Seq<char>) -> Seq<char> {
    if s.len() >= 2 {
        s.subrange(1, s.len() - 1)
    } else {
        Seq::empty()
    }
}

/// The kanji of a fragment list: from its last plain bracketed headword —
/// one with no inner annotation — the text with the surrounding bracket
/// glyphs removed.
pub open spec fn spec_kanji_of(l: Seq<HV>) -> Option<Seq<char>>
    decreases l.len(),
{
    if l.len() == 0 {
        None
    } else {
        match l.last() {
            HV::HW(t, o) => if o is None {
                Some(spec_strip_ends(t))
            } else {
                spec_kanji_of(l.drop_last())
            },
            _ => spec_kanji_of(l.drop_last()),
        }
    }
}

/// The kanji a head contributes: only a fragment head can carry one.
pub open spec fn spec_kanji_opt(h: HeadV) -> Option<Seq<char>> {
    match h {
        HeadV::H(l) => spec_kanji_of(l),
        _ => None,
    }
}

/// The text between the first and last characters of a headword string.
fn strip_ends(t: &String) -> (r: String)
    ensures
        r@ == spec_strip_ends(t@),
{
    let s = crate::strutil::str_to_chars(t.as_str());
    if s.len() >= 2 {
        crate::strutil::string_range(s.as_slice(), 1, s.len() - 1)
    } else {
        String::new()
    }
}

/// The kanji of a fragment list, searched from its end.
fn kanji_of(l: &Vec<H>) -> (r: Option<String>)
    ensures
        match r {
            Some(k) => spec_kanji_of(seq_view(l@)) == Some(k@),
            None => spec_kanji_of(seq_view(l@)) is None,
        },
{
    let mut i: usize = l.len();
    proof {
        assert(seq_view(l@).subrange(0, l@.len() as int) =~= seq_view(l@));
    }
    while i > 0
        invariant
            i <= l@.len(),
            spec_kanji_of(seq_view(l@)) == spec_kanji_of(seq_view(l@).subrange(0, i as int)),
        decreases i,
    {
        let j = i - 1;
        let ghost lv = seq_view(l@);
        proof {
            assert(lv.subrange(0, i as int).last() == lv[j as int]);
            assert(lv.subrange(0, i as int).drop_last() =~= lv.subrange(0, j as int));
        }
        match &l[j] {
            H::HW(t, o) => {
                if o.is_none() {
                    return Some(strip_ends(t));
                }
            },
            _ => {},
        }
        i = j;
    }
    proof {
        assert(seq_view(l@).subrange(0, 0) =~= Seq::<HV>::empty());
    }
    None
}

/// The view of a flat record list.
pub open spec fn unpacked_view(l: Seq<Unpacked>) -> Seq<UnpackedV> {
    Seq::new(l.len(), |i: int| l[i]@)
}

/// The flat record of one head+body group, if its head shows any text.
pub open spec fn spec_unpack_one(id: Seq<char>, hg: (HeadV, Seq<BodyContentV>)) -> Option<
    UnpackedV,
> {
    let head = spec_head_str(hg.0);
    if head.len() > 0 {
        Some((id, head, spec_kanji_opt(hg.0), spec_dedup_first(spec_prons_of_body(hg.1))))
    } else {
        None
    }
}

/// The flat records of a whole entry, one per head+body group whose head
/// shows text.
pub open spec fn spec_unpack(d: DicItemV) -> Seq<UnpackedV>
    decreases d.1.len(),
{
    spec_unpack_groups(d.0, d.1)
}

pub open spec fn spec_unpack_groups(
    id: Seq<char>,
    gs: Seq<(HeadV, Seq<BodyContentV>)>,
) -> Seq<UnpackedV>
    decreases gs.len(),
{
    if gs.len() == 0 {
        Seq::empty()
    } else {
        let prev = spec_unpack_groups(id, gs.drop_last());
        match spec_unpack_one(id, gs.last()) {
            Some(u) => prev.push(u),
            None => prev,
        }
    }
}

/// Unpack a decoded entry into its flat headword/pronunciation records:
/// one record per head+body group with a visible fragment head, carrying
/// the projected head text, the bare kanji if any, and the group's
/// pronunciations after the de-duplication rule.
pub fn unpack_dic_item(dic_item: DicItem) -> (r: Vec<Unpacked>)
    ensures
        unpacked_view(r@) == spec_unpack(dic_item@),
{
    let DicItem(id, head_gs, _josushi) = dic_item;
    let mut out: Vec<Unpacked> = Vec::new();
    let mut i: usize = 0;
    proof {
        assert(seq_view(head_gs@).subrange(0, 0) =~= Seq::<(HeadV, Seq<BodyContentV>)>::empty());
        assert(unpacked_view(out@) =~~= spec_unpack_groups(
            id@,
            seq_view(head_gs@).subrange(0, 0),
        ));
    }
    while i < head_gs.len()
        invariant
            i <= head_gs@.len(),
            unpacked_view(out@) == spec_unpack_groups(
                id@,
                seq_view(head_gs@).subrange(0, i as int),
            ),
        decreases head_gs@.len() - i,
    {
        let ghost gv = seq_view(head_gs@);
        proof {
            assert(gv.subrange(0, i + 1 as int).drop_last() =~= gv.subrange(0, i as int));
            assert(gv.subrange(0, i + 1 as int).last() == gv[i as int]);
        }
        let hg = &head_gs[i];
        let head = ({
            match &hg.0 {
                Head::H(l) => h_run_text(l),
                _ => String::new(),
            }
        });
        if !head.as_str().is_empty() {
            let kanji = ({
                match &hg.0 {
                    Head::H(l) => kanji_of(l),
                    _ => None,
                }
            });
            let mut pron = prons_of_body(&hg.1.0);
            dedup_first_pron(&mut pron);
            let ghost prev = unpacked_view(out@);
            let u = Unpacked { id: id.0.clone(), head, kanji, pron };
            let ghost uv = u@;
            out.push(u);
            proof {
                assert(unpacked_view(out@) =~~= prev.push(uv));
                assert(Some(uv) == spec_unpack_one(id@, gv[i as int]));
            }
        } else {
            proof {
                assert(spec_unpack_one(id@, gv[i as int]) is None);
            }
        }
        i += 1;
    }
    proof {
        assert(seq_view(head_gs@).subrange(0, head_gs@.len() as int) =~= seq_view(head_gs@));
    }
    out
}

} // verus!
