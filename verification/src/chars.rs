//! Character classes of the markup dialect and of Japanese accent text.
use vstd::prelude::*;

verus! {

/// The eight small vowel / palatalization kana, in both kana scripts, that
/// never begin a mora of their own.
pub open spec fn spec_is_little(c: char) -> bool {
    c == 'ぁ' || c == 'ぃ' || c == 'ぅ' || c == 'ぇ' || c == 'ぉ' || c == 'ゃ' || c == 'ゅ'
        || c == 'ょ' || c == 'ァ' || c == 'ィ' || c == 'ゥ' || c == 'ェ' || c == 'ォ' || c == 'ャ'
        || c == 'ュ' || c == 'ョ'
}

/// Combining enclosing circle, used as a "round box" overlay on a kana.
pub const COMBINING_CIRCLE: char = '\u{20dd}';

/// Combining semivoiced sound mark.
pub const COMBINING_SEMIVOICED: char = '\u{309a}';

/// Half-width voiced sound mark.
pub const HALF_WIDTH_DAKUTEN: char = 'ﾞ';

/// Half-width semivoiced sound mark.
pub const HALF_WIDTH_HANDAKUTEN: char = 'ﾟ';

/// The four combining marks that attach to the preceding mora.
pub open spec fn spec_is_combining(c: char) -> bool {
    c == COMBINING_CIRCLE || c == COMBINING_SEMIVOICED || c == HALF_WIDTH_DAKUTEN
        || c == HALF_WIDTH_HANDAKUTEN
}

#[verifier::when_used_as_spec(spec_is_little)]
pub fn is_little(c: char) -> (r: bool)
    ensures
        r == spec_is_little(c),
{
    c == 'ぁ' || c == 'ぃ' || c == 'ぅ' || c == 'ぇ' || c == 'ぉ' || c == 'ゃ' || c == 'ゅ'
        || c == 'ょ' || c == 'ァ' || c == 'ィ' || c == 'ゥ' || c == 'ェ' || c == 'ォ' || c == 'ャ'
        || c == 'ュ' || c == 'ョ'
}

#[verifier::when_used_as_spec(spec_is_combining)]
pub fn is_combining(c: char) -> (r: bool)
    ensures
        r == spec_is_combining(c),
{
    c == COMBINING_CIRCLE || c == COMBINING_SEMIVOICED || c == HALF_WIDTH_DAKUTEN
        || c == HALF_WIDTH_HANDAKUTEN
}

/// Whether a character has the Unicode Alphabetic property; named, since
/// the property takes pages to state and depends on the character alone.
pub uninterp spec fn alphabetic_of(c: char) -> bool;

/// Relies on `char::is_alphabetic`: the Unicode Alphabetic property, a
/// pure function of the character.
#[verifier::external_body]
pub fn is_alphabetic_char(c: char) -> (r: bool)
    ensures
        r == alphabetic_of(c),
{
    c.is_alphabetic()
}

/// Kana range used by the grammar's raw kana runs.
pub open spec fn spec_is_kana(c: char) -> bool {
    ('あ' <= c && c <= '゜') || ('ァ' <= c && c <= 'ー')
}

#[verifier::when_used_as_spec(spec_is_kana)]
pub fn is_kana(c: char) -> (r: bool)
    ensures
        r == spec_is_kana(c),
{
    ('あ' <= c && c <= '゜') || ('ァ' <= c && c <= 'ー')
}

/// Ideographic range used by the grammar's kanji runs.
pub open spec fn spec_is_kanji(c: char) -> bool {
    '一' <= c && c <= '龜'
}

#[verifier::when_used_as_spec(spec_is_kanji)]
pub fn is_kanji(c: char) -> (r: bool)
    ensures
        r == spec_is_kanji(c),
{
    '一' <= c && c <= '龜'
}

} // verus!
