//! The katakana-circling substitution: plain katakana map to their circled
//! Unicode forms; voiced and semivoiced katakana expand to a base circled
//! glyph plus a trailing half-width diacritic; anything else is kept and
//! wrapped with a combining enclosing circle.
use vstd::prelude::*;

use crate::chars::COMBINING_CIRCLE;
use crate::chars::HALF_WIDTH_DAKUTEN;
use crate::chars::HALF_WIDTH_HANDAKUTEN;

verus! {

/// What one character becomes: a substitute glyph and an optional trailing
/// diacritic or overlay mark.
pub open spec fn spec_circle_pair(c: char) -> (char, Option<char>) {
    match c {
        'ア' => ('㋐', None),
        'イ' => ('㋑', None),
        'ウ' => ('㋒', None),
        'エ' => ('㋓', None),
        'オ' => ('㋔', None),
        'カ' => ('㋕', None),
        'キ' => ('㋖', None),
        'ク' => ('㋗', None),
        'ケ' => ('㋘', None),
        'コ' => ('㋙', None),
        'サ' => ('㋚', None),
        'シ' => ('㋛', None),
        'ス' => ('㋜', None),
        'セ' => ('㋝', None),
        'ソ' => ('㋞', None),
        'タ' => ('㋟', None),
        'チ' => ('㋠', None),
        'ツ' => ('㋡', None),
        'テ' => ('㋢', None),
        'ト' => ('㋣', None),
        'ナ' => ('㋤', None),
        'ニ' => ('㋥', None),
        'ヌ' => ('㋦', None),
        'ネ' => ('㋧', None),
        'ノ' => ('㋨', None),
        'ハ' => ('㋩', None),
        'ヒ' => ('㋪', None),
        'フ' => ('㋫', None),
        'ヘ' => ('㋬', None),
        'ホ' => ('㋭', None),
        'マ' => ('㋮', None),
        'ミ' => ('㋯', None),
        'ム' => ('㋰', None),
        'メ' => ('㋱', None),
        'モ' => ('㋲', None),
        'ヤ' => ('㋳', None),
        'ユ' => ('㋴', None),
        'ヨ' => ('㋵', None),
        'ラ' => ('㋶', None),
        'リ' => ('㋷', None),
        'ル' => ('㋸', None),
        'レ' => ('㋹', None),
        'ロ' => ('㋺', None),
        'ワ' => ('㋻', None),
        'ガ' => ('㋕', Some(HALF_WIDTH_DAKUTEN)),
        'ギ' => ('㋖', Some(HALF_WIDTH_DAKUTEN)),
        'グ' => ('㋗', Some(HALF_WIDTH_DAKUTEN)),
        'ゲ' => ('㋘', Some(HALF_WIDTH_DAKUTEN)),
        'ゴ' => ('㋙', Some(HALF_WIDTH_DAKUTEN)),
        'ザ' => ('㋚', Some(HALF_WIDTH_DAKUTEN)),
        'ジ' => ('㋛', Some(HALF_WIDTH_DAKUTEN)),
        'ズ' => ('㋜', Some(HALF_WIDTH_DAKUTEN)),
        'ゼ' => ('㋝', Some(HALF_WIDTH_DAKUTEN)),
        'ゾ' => ('㋞', Some(HALF_WIDTH_DAKUTEN)),
        'ダ' => ('㋟', Some(HALF_WIDTH_DAKUTEN)),
        'ヂ' => ('㋠', Some(HALF_WIDTH_DAKUTEN)),
        'ヅ' => ('㋡', Some(HALF_WIDTH_DAKUTEN)),
        'デ' => ('㋢', Some(HALF_WIDTH_DAKUTEN)),
        'ド' => ('㋣', Some(HALF_WIDTH_DAKUTEN)),
        'バ' => ('㋩', Some(HALF_WIDTH_DAKUTEN)),
        'ビ' => ('㋪', Some(HALF_WIDTH_DAKUTEN)),
        'ブ' => ('㋫', Some(HALF_WIDTH_DAKUTEN)),
        'ベ' => ('㋬', Some(HALF_WIDTH_DAKUTEN)),
        'ボ' => ('㋭', Some(HALF_WIDTH_DAKUTEN)),
        'パ' => ('㋩', Some(HALF_WIDTH_HANDAKUTEN)),
        'ピ' => ('㋪', Some(HALF_WIDTH_HANDAKUTEN)),
        'プ' => ('㋫', Some(HALF_WIDTH_HANDAKUTEN)),
        'ペ' => ('㋬', Some(HALF_WIDTH_HANDAKUTEN)),
        'ポ' => ('㋭', Some(HALF_WIDTH_HANDAKUTEN)),
        _ => (c, Some(COMBINING_CIRCLE)),
    }
}

/// The characters one input character contributes to the output.
pub open spec fn spec_circle_char(c: char) -> Seq<char> {
    match spec_circle_pair(c) {
        (b, Some(m)) => seq![b, m],
        (b, None) => seq![b],
    }
}

/// The circled form of a whole string.
pub open spec fn spec_circle(s: Seq<char>) -> Seq<char>
    decreases s.len(),
{
    if s.len() == 0 {
        Seq::empty()
    } else {
        spec_circle(s.drop_last()) + spec_circle_char(s.last())
    }
}

/// The substitution table as an executable function: the circled glyph for
/// one character and its optional trailing mark.
pub fn circle_pair(c: char) -> (r: (char, Option<char>))
    ensures
        r == spec_circle_pair(c),
{
    match c {
        'ア' => ('㋐', None),
        'イ' => ('㋑', None),
        'ウ' => ('㋒', None),
        'エ' => ('㋓', None),
        'オ' => ('㋔', None),
        'カ' => ('㋕', None),
        'キ' => ('㋖', None),
        'ク' => ('㋗', None),
        'ケ' => ('㋘', None),
        'コ' => ('㋙', None),
        'サ' => ('㋚', None),
        'シ' => ('㋛', None),
        'ス' => ('㋜', None),
        'セ' => ('㋝', None),
        'ソ' => ('㋞', None),
        'タ' => ('㋟', None),
        'チ' => ('㋠', None),
        'ツ' => ('㋡', None),
        'テ' => ('㋢', None),
        'ト' => ('㋣', None),
        'ナ' => ('㋤', None),
        'ニ' => ('㋥', None),
        'ヌ' => ('㋦', None),
        'ネ' => ('㋧', None),
        'ノ' => ('㋨', None),
        'ハ' => ('㋩', None),
        'ヒ' => ('㋪', None),
        'フ' => ('㋫', None),
        'ヘ' => ('㋬', None),
        'ホ' => ('㋭', None),
        'マ' => ('㋮', None),
        'ミ' => ('㋯', None),
        'ム' => ('㋰', None),
        'メ' => ('㋱', None),
        'モ' => ('㋲', None),
        'ヤ' => ('㋳', None),
        'ユ' => ('㋴', None),
        'ヨ' => ('㋵', None),
        'ラ' => ('㋶', None),
        'リ' => ('㋷', None),
        'ル' => ('㋸', None),
        'レ' => ('㋹', None),
        'ロ' => ('㋺', None),
        'ワ' => ('㋻', None),
        'ガ' => ('㋕', Some(HALF_WIDTH_DAKUTEN)),
        'ギ' => ('㋖', Some(HALF_WIDTH_DAKUTEN)),
        'グ' => ('㋗', Some(HALF_WIDTH_DAKUTEN)),
        'ゲ' => ('㋘', Some(HALF_WIDTH_DAKUTEN)),
        'ゴ' => ('㋙', Some(HALF_WIDTH_DAKUTEN)),
        'ザ' => ('㋚', Some(HALF_WIDTH_DAKUTEN)),
        'ジ' => ('㋛', Some(HALF_WIDTH_DAKUTEN)),
        'ズ' => ('㋜', Some(HALF_WIDTH_DAKUTEN)),
        'ゼ' => ('㋝', Some(HALF_WIDTH_DAKUTEN)),
        'ゾ' => ('㋞', Some(HALF_WIDTH_DAKUTEN)),
        'ダ' => ('㋟', Some(HALF_WIDTH_DAKUTEN)),
        'ヂ' => ('㋠', Some(HALF_WIDTH_DAKUTEN)),
        'ヅ' => ('㋡', Some(HALF_WIDTH_DAKUTEN)),
        'デ' => ('㋢', Some(HALF_WIDTH_DAKUTEN)),
        'ド' => ('㋣', Some(HALF_WIDTH_DAKUTEN)),
        'バ' => ('㋩', Some(HALF_WIDTH_DAKUTEN)),
        'ビ' => ('㋪', Some(HALF_WIDTH_DAKUTEN)),
        'ブ' => ('㋫', Some(HALF_WIDTH_DAKUTEN)),
        'ベ' => ('㋬', Some(HALF_WIDTH_DAKUTEN)),
        'ボ' => ('㋭', Some(HALF_WIDTH_DAKUTEN)),
        'パ' => ('㋩', Some(HALF_WIDTH_HANDAKUTEN)),
        'ピ' => ('㋪', Some(HALF_WIDTH_HANDAKUTEN)),
        'プ' => ('㋫', Some(HALF_WIDTH_HANDAKUTEN)),
        'ペ' => ('㋬', Some(HALF_WIDTH_HANDAKUTEN)),
        'ポ' => ('㋭', Some(HALF_WIDTH_HANDAKUTEN)),
        _ => (c, Some(COMBINING_CIRCLE)),
    }
}

/// The circled form of `input`, character by character.
pub fn to_circle(input: &str) -> (r: String)
    ensures
        r@ == spec_circle(input@),
{
    let s = crate::strutil::str_to_chars(input);
    let mut out: Vec<char> = Vec::new();
    let mut i: usize = 0;
    proof {
        assert(s@.subrange(0, 0) =~= Seq::<char>::empty());
    }
    while i < s.len()
        invariant
            i <= s@.len(),
            s@ == input@,
            out@ == spec_circle(s@.subrange(0, i as int)),
        decreases s@.len() - i,
    {
        let (b, m) = circle_pair(s[i]);
        out.push(b);
        match m {
            Some(mk) => out.push(mk),
            None => {},
        }
        proof {
            let pre = s@.subrange(0, i as int);
            let cur = s@.subrange(0, i + 1 as int);
            assert(cur.drop_last() =~= pre);
            assert(cur.last() == s@[i as int]);
            assert(out@ =~= spec_circle(pre) + spec_circle_char(s@[i as int]));
        }
        i += 1;
    }
    proof {
        assert(s@.subrange(0, s@.len() as int) =~= s@);
    }
    crate::strutil::chars_to_string(out.as_slice())
}

} // verus!
