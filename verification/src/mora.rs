//! The mora tokenizer, word splitting, and the pitch-shape classifier.
use vstd::prelude::*;

use crate::ast::seq_view;
use crate::chars::is_combining;
use crate::chars::is_little;
use crate::chars::spec_is_combining;
use crate::chars::spec_is_little;
use crate::strutil::chars_to_string;
use crate::strutil::str_to_chars;

verus! {

/// The morae of an annotated accent string: a small kana or a combining
/// mark joins the preceding mora (an empty placeholder is begun if there is
/// none yet); every other character starts a new mora.
pub open spec fn spec_mora(s: Seq<char>) -> Seq<Seq<char>>
    decreases s.len(),
{
    if s.len() == 0 {
        Seq::empty()
    } else {
        let prev = spec_mora(s.drop_last());
        let c = s.last();
        if spec_is_little(c) || spec_is_combining(c) {
            if prev.len() == 0 {
                seq![seq![c]]
            } else {
                prev.update(prev.len() - 1, prev.last().push(c))
            }
        } else {
            prev.push(seq![c])
        }
    }
}

/// The morae of `word`, each as a character vector.
pub fn mora_chars(s: &[char]) -> (r: Vec<Vec<char>>)
    ensures
        seq_view(r@) == spec_mora(s@),
{
    let mut out: Vec<Vec<char>> = Vec::new();
    let mut i: usize = 0;
    proof {
        assert(s@.subrange(0, 0) =~= Seq::<char>::empty());
        assert(seq_view(out@) =~= spec_mora(s@.subrange(0, 0)));
    }
    while i < s.len()
        invariant
            i <= s@.len(),
            seq_view(out@) == spec_mora(s@.subrange(0, i as int)),
        decreases s@.len() - i,
    {
        let c = s[i];
        let ghost pre = s@.subrange(0, i as int);
        let ghost prev = seq_view(out@);
        if is_little(c) || is_combining(c) {
            if out.len() == 0 {
                let mut m: Vec<char> = Vec::new();
                m.push(c);
                out.push(m);
                proof {
                    assert(seq_view(out@) =~= seq![seq![c]]);
                }
            } else {
                let mut m = out.pop().unwrap();
                m.push(c);
                out.push(m);
                proof {
                    assert(seq_view(out@) =~= prev.update(
                        prev.len() - 1,
                        prev.last().push(c),
                    ));
                }
            }
        } else {
            let mut m: Vec<char> = Vec::new();
            m.push(c);
            out.push(m);
            proof {
                assert(seq_view(out@) =~= prev.push(seq![c]));
            }
        }
        proof {
            let cur = s@.subrange(0, i + 1 as int);
            assert(cur.drop_last() =~= pre);
            assert(cur.last() == s@[i as int]);
        }
        i += 1;
    }
    proof {
        assert(s@.subrange(0, s@.len() as int) =~= s@);
    }
    out
}

/// The morae of an annotated accent string.
pub fn str_to_mora(word: &str) -> (r: Vec<String>)
    ensures
        seq_view(r@) == spec_mora(word@),
{
    let s = str_to_chars(word);
    let ms = mora_chars(s.as_slice());
    let mut out: Vec<String> = Vec::new();
    let mut i: usize = 0;
    while i < ms.len()
        invariant
            i <= ms@.len(),
            seq_view(ms@) == spec_mora(word@),
            seq_view(out@) =~~= seq_view(ms@).subrange(0, i as int),
        decreases ms@.len() - i,
    {
        let ghost prev = seq_view(out@);
        out.push(chars_to_string(ms[i].as_slice()));
        proof {
            assert(out@.last()@ == ms@[i as int]@);
            assert(seq_view(out@) =~~= prev.push(ms@[i as int]@));
            assert(prev.push(ms@[i as int]@) =~~= seq_view(ms@).subrange(0, i + 1 as int));
        }
        i += 1;
    }
    proof {
        assert(seq_view(ms@).subrange(0, ms@.len() as int) =~= seq_view(ms@));
        assert(seq_view(out@) =~= seq_view(ms@));
    }
    out
}

/// The words of a mora sequence: a middle-dot mora separates words and is
/// dropped; a sequence without dots is a single word.
pub open spec fn spec_split_words(ms: Seq<Seq<char>>) -> Seq<Seq<Seq<char>>>
    decreases ms.len(),
{
    if ms.len() == 0 {
        seq![Seq::empty()]
    } else {
        let prev = spec_split_words(ms.drop_last());
        if ms.last() == seq!['・'] {
            prev.push(Seq::empty())
        } else {
            prev.update(prev.len() - 1, prev.last().push(ms.last()))
        }
    }
}

/// The view of a word list: each word as a sequence of mora views.
pub open spec fn words_view(ws: Seq<Vec<String>>) -> Seq<Seq<Seq<char>>> {
    Seq::new(ws.len(), |i: int| seq_view(ws[i]@))
}

/// Split a mora sequence into independently-accented words at each
/// middle-dot mora, dropping the dot itself.
pub fn split_words(morae: Vec<String>) -> (r: Vec<Vec<String>>)
    ensures
        words_view(r@) == spec_split_words(seq_view(morae@)),
{
    let sep = str_to_chars("・");
    proof {
        reveal_strlit("・");
        assert(sep@ =~= seq!['・']);
    }
    let mut out: Vec<Vec<String>> = Vec::new();
    out.push(Vec::new());
    let mut i: usize = 0;
    proof {
        assert(seq_view(morae@).subrange(0, 0) =~= Seq::<Seq<char>>::empty());
        assert(words_view(out@) =~~= seq![Seq::<Seq<char>>::empty()]);
    }
    while i < morae.len()
        invariant
            i <= morae@.len(),
            out@.len() >= 1,
            words_view(out@) == spec_split_words(seq_view(morae@).subrange(0, i as int)),
            sep@ == seq!['・'],
        decreases morae@.len() - i,
    {
        let ghost pre = seq_view(morae@).subrange(0, i as int);
        let ghost prev = words_view(out@);
        proof {
            assert(seq_view(morae@).subrange(0, i + 1 as int).drop_last() =~= pre);
            assert(seq_view(morae@).subrange(0, i + 1 as int).last() == morae@[i as int]@);
        }
        let m = str_to_chars(morae[i].as_str());
        if crate::strutil::chars_eq(m.as_slice(), sep.as_slice()) {
            out.push(Vec::new());
            proof {
                assert(words_view(out@) =~~= prev.push(Seq::<Seq<char>>::empty()));
            }
        } else {
            let mut last = out.pop().unwrap();
            let w = chars_to_string(m.as_slice());
            last.push(w);
            out.push(last);
            proof {
                assert(words_view(out@) =~~= prev.update(
                    prev.len() - 1,
                    prev.last().push(morae@[i as int]@),
                ));
            }
        }
        i += 1;
    }
    proof {
        assert(seq_view(morae@).subrange(0, morae@.len() as int) =~= seq_view(morae@));
    }
    out
}

/// The four pitch-accent shapes.
#[derive(Clone, Copy, Debug, PartialEq, Eq, Structural)]
pub enum PitchShape {
    Heiban,
    Atamadaka,
    Odaka,
    Nakadaka,
}

/// The shape of a tokenized word, checked in priority order: a word ending
/// in the rise marker is heiban; else a word whose second mora is the drop
/// marker is atamadaka; else a word ending in the drop marker is odaka; all
/// else is nakadaka.
pub open spec fn spec_classify(ms: Seq<Seq<char>>) -> PitchShape {
    if ms.len() >= 1 && ms.last() == seq!['▔'] {
        PitchShape::Heiban
    } else if ms.len() >= 2 && ms[1] == seq!['＼'] {
        PitchShape::Atamadaka
    } else if ms.len() >= 1 && ms.last() == seq!['＼'] {
        PitchShape::Odaka
    } else {
        PitchShape::Nakadaka
    }
}

/// Classify a tokenized word into its pitch-accent shape.
pub fn classify(morae: &Vec<String>) -> (r: PitchShape)
    ensures
        r == spec_classify(seq_view(morae@)),
{
    let macron = str_to_chars("▔");
    let bslash = str_to_chars("＼");
    proof {
        reveal_strlit("▔");
        reveal_strlit("＼");
        assert(macron@ =~= seq!['▔']);
        assert(bslash@ =~= seq!['＼']);
    }
    let n = morae.len();
    if n >= 1 {
        let last = str_to_chars(morae[n - 1].as_str());
        if crate::strutil::chars_eq(last.as_slice(), macron.as_slice()) {
            return PitchShape::Heiban;
        }
        if n >= 2 {
            let second = str_to_chars(morae[1].as_str());
            if crate::strutil::chars_eq(second.as_slice(), bslash.as_slice()) {
                return PitchShape::Atamadaka;
            }
        }
        if crate::strutil::chars_eq(last.as_slice(), bslash.as_slice()) {
            return PitchShape::Odaka;
        }
    }
    PitchShape::Nakadaka
}

} // verus!
