//! The audio resource store, modelled in memory: two keyed variants behind
//! one interface — numeric keys and string keys — selected once and cached.
//! Loading the backing container from disk is the caller's concern; this
//! module holds the lookup and key-handling logic.
use vstd::prelude::*;

use crate::ast::seq_view;
use crate::error::Error;

verus! {

/// Whether a character is a decimal digit.
pub open spec fn spec_is_digit(c: char) -> bool {
    '0' <= c && c <= '9'
}

/// The value of one decimal digit.
pub open spec fn spec_digit_val(c: char) -> int {
    c as int - '0' as int
}

/// The value of a digit string.
pub open spec fn spec_digits_val(s: Seq<char>) -> int
    decreases s.len(),
{
    if s.len() == 0 {
        0
    } else {
        spec_digits_val(s.drop_last()) * 10 + spec_digit_val(s.last())
    }
}

pub open spec fn spec_all_digits(s: Seq<char>) -> bool {
    forall|i: int| 0 <= i < s.len() ==> spec_is_digit(#[trigger] s[i])
}

pub proof fn lemma_digits_val_nonneg(s: Seq<char>)
    requires
        spec_all_digits(s),
    ensures
        spec_digits_val(s) >= 0,
    decreases s.len(),
{
    if s.len() > 0 {
        assert(spec_all_digits(s.drop_last())) by {
            assert(forall|i: int|
                0 <= i < s.len() - 1 ==> spec_is_digit(#[trigger] s.drop_last()[i]) == spec_is_digit(
                    s[i],
                ));
        }
        lemma_digits_val_nonneg(s.drop_last());
        assert(spec_is_digit(s.last()));
    }
}

/// A longer digit prefix never has a smaller value.
pub proof fn lemma_digits_val_mono(s: Seq<char>, i: int, j: int)
    requires
        0 <= i <= j <= s.len(),
        spec_all_digits(s.subrange(0, j)),
    ensures
        spec_digits_val(s.subrange(0, i)) <= spec_digits_val(s.subrange(0, j)),
    decreases j - i,
{
    if i < j {
        let p = s.subrange(0, j - 1);
        let q = s.subrange(0, j);
        assert(q.drop_last() =~= p);
        assert(spec_all_digits(p)) by {
            assert(forall|k: int| 0 <= k < p.len() ==> p[k] == q[k]);
        }
        lemma_digits_val_nonneg(p);
        assert(spec_digits_val(q) == spec_digits_val(p) * 10 + spec_digit_val(q.last()));
        assert(spec_digits_val(p) * 10 >= spec_digits_val(p)) by (nonlinear_arith)
            requires
                spec_digits_val(p) >= 0,
        ;
        assert(spec_digit_val(q.last()) >= 0);
        lemma_digits_val_mono(s, i, j - 1);
    }
}

/// What parsing a numeric key accepts: an optional leading plus sign, then
/// one or more digits whose value fits the key type.
pub open spec fn spec_parse_u32(s: Seq<char>) -> Option<u32> {
    let body = if s.len() >= 1 && s[0] == '+' {
        s.drop_first()
    } else {
        s
    };
    if body.len() >= 1 && spec_all_digits(body) && spec_digits_val(body) <= u32::MAX {
        Some(spec_digits_val(body) as u32)
    } else {
        None
    }
}

/// Parse a numeric resource key, exactly as the standard decimal parse of
/// an unsigned 32-bit number accepts it.
pub fn parse_u32(s: &[char]) -> (r: Option<u32>)
    ensures
        r == spec_parse_u32(s@),
{
    let start: usize = if s.len() >= 1 && s[0] == '+' {
        1
    } else {
        0
    };
    let ghost body = if s@.len() >= 1 && s@[0] == '+' {
        s@.drop_first()
    } else {
        s@
    };
    proof {
        assert(body =~= s@.subrange(start as int, s@.len() as int));
    }
    if s.len() == start {
        return None;
    }
    let mut i: usize = start;
    let mut acc: u64 = 0;
    while i < s.len()
        invariant
            start <= i <= s@.len(),
            start + body.len() == s@.len(),
            body =~= s@.subrange(start as int, s@.len() as int),
            body == (if s@.len() >= 1 && s@[0] == '+' {
                s@.drop_first()
            } else {
                s@
            }),
            spec_all_digits(body.subrange(0, i - start)),
            acc == spec_digits_val(body.subrange(0, i - start)),
            acc <= u32::MAX,
        decreases s@.len() - i,
    {
        let c = s[i];
        if !('0' <= c && c <= '9') {
            proof {
                assert(body[i - start] == s@[i as int]);
                assert(!spec_is_digit(body[i - start]));
                assert(!spec_all_digits(body));
                assert(spec_parse_u32(s@) is None);
            }
            return None;
        }
        let d: u64 = (c as u32 as u64) - 48;
        let next: u64 = acc * 10 + d;
        proof {
            let pre = body.subrange(0, i - start);
            let cur = body.subrange(0, i + 1 - start);
            assert(cur.drop_last() =~= pre);
            assert(cur.last() == body[i - start] == s@[i as int]);
            assert(spec_all_digits(cur)) by {
                assert(forall|k: int| 0 <= k < cur.len() - 1 ==> cur[k] == pre[k]);
            }
            assert(spec_digit_val(cur.last()) == d);
        }
        if next > 0xffff_ffff {
            proof {
                if spec_all_digits(body) {
                    assert(body.subrange(0, body.len() as int) =~= body);
                    lemma_digits_val_mono(body, i + 1 - start, body.len() as int);
                }
            }
            return None;
        }
        acc = next;
        i += 1;
    }
    proof {
        assert(body.subrange(0, body.len() as int) =~= body);
    }
    Some(acc as u32)
}

/// The decimal digit glyph of one value below ten.
pub open spec fn spec_digit_char(d: int) -> char {
    ((d + 48) as u8) as char
}

/// The decimal text of an unsigned number.
pub open spec fn spec_u32_dec(n: int) -> Seq<char>
    decreases n,
{
    if n < 10 {
        seq![spec_digit_char(n)]
    } else {
        spec_u32_dec(n / 10).push(spec_digit_char(n % 10))
    }
}

/// The decimal text of an unsigned number, left-padded with zeros to ten
/// places.
pub open spec fn spec_pad10(s: Seq<char>) -> Seq<char>
    decreases 10 - s.len(),
{
    if s.len() >= 10 {
        s
    } else {
        spec_pad10(seq!['0'] + s)
    }
}

fn u32_dec(n: u32) -> (r: Vec<char>)
    ensures
        r@ == spec_u32_dec(n as int),
        1 <= r@.len() <= 10,
    decreases n,
{
    if n < 10 {
        let c = ((n + 48) as u8) as char;
        let v = vec![c];
        proof {
            assert(v@ =~= seq![spec_digit_char(n as int)]);
        }
        v
    } else {
        let mut v = u32_dec(n / 10);
        let c = ((n % 10 + 48) as u8) as char;
        v.push(c);
        proof {
            assert(v@ =~= spec_u32_dec(n as int / 10).push(spec_digit_char(n as int % 10)));
            lemma_u32_dec_len(n as int);
        }
        v
    }
}

/// Powers of ten.
pub open spec fn spec_pow10(k: nat) -> int
    decreases k,
{
    if k == 0 {
        1
    } else {
        10 * spec_pow10((k - 1) as nat)
    }
}

/// A number below the k-th power of ten has at most k decimal digits.
proof fn lemma_u32_dec_len_lt(n: int, k: nat)
    requires
        0 <= n,
        k >= 1,
        n < spec_pow10(k),
    ensures
        spec_u32_dec(n).len() <= k,
    decreases k,
{
    if n >= 10 {
        assert(spec_pow10(k) == 10 * spec_pow10((k - 1) as nat));
        lemma_pow10_pos((k - 1) as nat);
        lemma_u32_dec_len_lt(n / 10, (k - 1) as nat);
    }
}

proof fn lemma_pow10_pos(k: nat)
    ensures
        spec_pow10(k) >= 1,
    decreases k,
{
    if k > 0 {
        lemma_pow10_pos((k - 1) as nat);
    }
}

/// A 32-bit value has at most ten decimal digits.
proof fn lemma_u32_dec_len(n: int)
    requires
        0 <= n <= u32::MAX,
    ensures
        1 <= spec_u32_dec(n).len() <= 10,
{
    assert(spec_pow10(0) == 1);
    assert(spec_pow10(1) == 10);
    assert(spec_pow10(2) == 100);
    assert(spec_pow10(3) == 1000);
    assert(spec_pow10(4) == 10000);
    assert(spec_pow10(5) == 100000);
    assert(spec_pow10(6) == 1000000);
    assert(spec_pow10(7) == 10000000);
    assert(spec_pow10(8) == 100000000);
    assert(spec_pow10(9) == 1000000000);
    assert(spec_pow10(10) == 10000000000);
    lemma_u32_dec_len_lt(n, 10);
    if n >= 10 {
        assert(spec_u32_dec(n).len() >= 1);
    }
}

/// One audio key: a string for the string-keyed store, a number for the
/// numeric store.
#[derive(Debug, Clone)]
pub enum AudioId {
    Str(String),
    Num(u32),
}

/// The view of an audio key.
pub enum AudioIdV {
    Str(Seq<char>),
    Num(u32),
}

impl View for AudioId {
    type V = AudioIdV;

    open spec fn view(&self) -> AudioIdV {
        match self {
            AudioId::Str(s) => AudioIdV::Str(s@),
            AudioId::Num(n) => AudioIdV::Num(*n),
        }
    }
}

/// The display text of an audio key: the string itself, or the number
/// left-padded with zeros to ten places.
pub open spec fn spec_audio_id_text(v: AudioIdV) -> Seq<char> {
    match v {
        AudioIdV::Str(s) => s,
        AudioIdV::Num(n) => spec_pad10(spec_u32_dec(n as int)),
    }
}

impl AudioId {
    /// The display text of this key.
    pub fn id_string(&self) -> (r: String)
        ensures
            r@ == spec_audio_id_text(self@),
    {
        match self {
            AudioId::Str(s) => s.clone(),
            AudioId::Num(n) => {
                let mut v = u32_dec(*n);
                while v.len() < 10
                    invariant
                        spec_pad10(v@) == spec_pad10(spec_u32_dec(*n as int)),
                        v@.len() >= 1,
                    decreases 10 - v@.len(),
                {
                    let ghost prev = v@;
                    v.insert(0, '0');
                    proof {
                        assert(v@ =~= seq!['0'] + prev);
                    }
                }
                crate::strutil::chars_to_string(v.as_slice())
            },
        }
    }
}

/// The first payload bound to a numeric key.
pub open spec fn spec_rsc_get(entries: Seq<(u32, Seq<u8>)>, id: u32) -> Option<Seq<u8>>
    decreases entries.len(),
{
    if entries.len() == 0 {
        None
    } else if entries.first().0 == id {
        Some(entries.first().1)
    } else {
        spec_rsc_get(entries.drop_first(), id)
    }
}

/// The numeric-keyed resource store, as loaded in memory: key/payload
/// pairs in container order.
#[derive(Debug)]
pub struct Rsc {
    pub entries: Vec<(u32, Vec<u8>)>,
}

impl View for Rsc {
    type V = Seq<(u32, Seq<u8>)>;

    open spec fn view(&self) -> Seq<(u32, Seq<u8>)> {
        seq_view(self.entries@)
    }
}

impl Rsc {
    /// Wrap loaded entries as a numeric-keyed store.
    pub fn new(entries: Vec<(u32, Vec<u8>)>) -> (r: Rsc)
        ensures
            r@ == seq_view(entries@),
    {
        Rsc { entries }
    }

    /// The payload of a numeric key, if the store holds it.
    pub fn get(&self, id: u32) -> (r: Result<&Vec<u8>, Error>)
        ensures
            match r {
                Ok(b) => spec_rsc_get(self@, id) == Some(b@),
                Err(e) => spec_rsc_get(self@, id) is None && e is NotFound,
            },
    {
        let mut i: usize = 0;
        proof {
            assert(self@.skip(0) =~= self@);
        }
        while i < self.entries.len()
            invariant
                i <= self.entries@.len(),
                spec_rsc_get(self@, id) == spec_rsc_get(self@.skip(i as int), id),
                self@.len() == self.entries@.len(),
            decreases self.entries@.len() - i,
        {
            proof {
                assert(self@.skip(i as int).first() == self@[i as int]);
                assert(self@.skip(i as int).drop_first() =~= self@.skip(i + 1 as int));
            }
            if self.entries[i].0 == id {
                return Ok(&self.entries[i].1);
            }
            i += 1;
        }
        proof {
            assert(self@.skip(i as int).len() == 0);
        }
        Err(Error::NotFound)
    }

    /// The number of stored entries.
    pub fn len(&self) -> (r: usize)
        ensures
            r == self@.len(),
    {
        self.entries.len()
    }

    /// The key and payload at a container position.
    pub fn get_by_idx(&self, idx: usize) -> (r: Result<(u32, &Vec<u8>), Error>)
        ensures
            match r {
                Ok((id, b)) => idx < self@.len() && self@[idx as int] == (id, b@),
                Err(e) => idx >= self@.len() && e is NotFound,
            },
    {
        if idx < self.entries.len() {
            Ok((self.entries[idx].0, &self.entries[idx].1))
        } else {
            Err(Error::NotFound)
        }
    }
}

/// The first payload bound to a string key.
pub open spec fn spec_nrsc_get(entries: Seq<(Seq<char>, Seq<u8>)>, id: Seq<char>) -> Option<
    Seq<u8>,
>
    decreases entries.len(),
{
    if entries.len() == 0 {
        None
    } else if entries.first().0 == id {
        Some(entries.first().1)
    } else {
        spec_nrsc_get(entries.drop_first(), id)
    }
}

/// The string-keyed resource store, as loaded in memory.
#[derive(Debug)]
pub struct Nrsc {
    pub entries: Vec<(String, Vec<u8>)>,
}

impl View for Nrsc {
    type V = Seq<(Seq<char>, Seq<u8>)>;

    open spec fn view(&self) -> Seq<(Seq<char>, Seq<u8>)> {
        seq_view(self.entries@)
    }
}

impl Nrsc {
    /// Wrap loaded entries as a string-keyed store.
    pub fn new(entries: Vec<(String, Vec<u8>)>) -> (r: Nrsc)
        ensures
            r@ == seq_view(entries@),
    {
        Nrsc { entries }
    }

    /// The payload of a string key, if the store holds it.
    pub fn get(&self, id: &str) -> (r: Result<&Vec<u8>, Error>)
        ensures
            match r {
                Ok(b) => spec_nrsc_get(self@, id@) == Some(b@),
                Err(e) => spec_nrsc_get(self@, id@) is None && e is NotFound,
            },
    {
        let idc = crate::strutil::str_to_chars(id);
        let mut i: usize = 0;
        proof {
            assert(self@.skip(0) =~= self@);
        }
        while i < self.entries.len()
            invariant
                i <= self.entries@.len(),
                spec_nrsc_get(self@, id@) == spec_nrsc_get(self@.skip(i as int), id@),
                self@.len() == self.entries@.len(),
                idc@ == id@,
            decreases self.entries@.len() - i,
        {
            proof {
                assert(self@.skip(i as int).first() == self@[i as int]);
                assert(self@.skip(i as int).drop_first() =~= self@.skip(i + 1 as int));
            }
            let key = crate::strutil::str_to_chars(self.entries[i].0.as_str());
            if crate::strutil::chars_eq(key.as_slice(), idc.as_slice()) {
                return Ok(&self.entries[i].1);
            }
            i += 1;
        }
        proof {
            assert(self@.skip(i as int).len() == 0);
        }
        Err(Error::NotFound)
    }

    /// The number of stored entries.
    pub fn len(&self) -> (r: usize)
        ensures
            r == self@.len(),
    {
        self.entries.len()
    }

    /// The key and payload at a container position.
    pub fn get_by_idx(&self, idx: usize) -> (r: Result<(&String, &Vec<u8>), Error>)
        ensures
            match r {
                Ok((id, b)) => idx < self@.len() && self@[idx as int] == (id@, b@),
                Err(e) => idx >= self@.len() && e is NotFound,
            },
    {
        if idx < self.entries.len() {
            Ok((&self.entries[idx].0, &self.entries[idx].1))
        } else {
            Err(Error::NotFound)
        }
    }
}

/// One of the two container variants.
#[derive(Debug)]
pub enum AudioResource {
    Rsc(Rsc),
    Nrsc(Nrsc),
}

/// The view of a selected container variant.
pub enum AudioResourceV {
    Rsc(Seq<(u32, Seq<u8>)>),
    Nrsc(Seq<(Seq<char>, Seq<u8>)>),
}

impl View for AudioResource {
    type V = AudioResourceV;

    open spec fn view(&self) -> AudioResourceV {
        match self {
            AudioResource::Rsc(r) => AudioResourceV::Rsc(r@),
            AudioResource::Nrsc(n) => AudioResourceV::Nrsc(n@),
        }
    }
}

/// What looking a string key up in a selected variant yields: the numeric
/// store first parses the key as a number.
pub open spec fn spec_audio_get(res: AudioResourceV, id: Seq<char>) -> Result<Seq<u8>, Error> {
    match res {
        AudioResourceV::Rsc(entries) => match spec_parse_u32(id) {
            Some(n) => match spec_rsc_get(entries, n) {
                Some(b) => Ok(b),
                None => Err(Error::NotFound),
            },
            None => Err(Error::InvalidIndex),
        },
        AudioResourceV::Nrsc(entries) => match spec_nrsc_get(entries, id) {
            Some(b) => Ok(b),
            None => Err(Error::NotFound),
        },
    }
}

/// The audio store: a container variant, selected once and kept.
#[derive(Debug)]
pub struct Audio {
    res: Option<AudioResource>,
}

impl View for Audio {
    type V = Option<AudioResourceV>;

    closed spec fn view(&self) -> Option<AudioResourceV> {
        match self.res {
            Some(ref r) => Some(r@),
            None => None,
        }
    }
}

impl Audio {
    /// A store with no variant selected yet.
    pub fn new() -> (a: Audio)
        ensures
            a@ is None,
    {
        Audio { res: None }
    }

    /// Select the backing variant, once: a second call changes nothing.
    pub fn init(&mut self, res: AudioResource)
        ensures
            final (self)@ == match old(self)@ {
                None => Some(res@),
                Some(r) => Some(r),
            },
    {
        if self.res.is_none() {
            self.res = Some(res);
        }
    }

    /// The payload of an audio key: numeric stores parse the key as a
    /// number first; an unselected store reports it.
    pub fn get(&self, id: &str) -> (r: Result<&Vec<u8>, Error>)
        ensures
            match self@ {
                None => r is Err && r->Err_0 is NotInitialized,
                Some(res) => match r {
                    Ok(b) => spec_audio_get(res, id@) == Ok::<Seq<u8>, Error>(b@),
                    Err(e) => spec_audio_get(res, id@) == Err::<Seq<u8>, Error>(e),
                },
            },
    {
        match &self.res {
            None => Err(Error::NotInitialized),
            Some(AudioResource::Rsc(r)) => {
                let idc = crate::strutil::str_to_chars(id);
                match parse_u32(idc.as_slice()) {
                    Some(n) => r.get(n),
                    None => Err(Error::InvalidIndex),
                }
            },
            Some(AudioResource::Nrsc(n)) => n.get(id),
        }
    }

    /// The key and payload at a container position.
    pub fn get_by_idx(&self, idx: usize) -> (r: Result<(AudioId, &Vec<u8>), Error>)
        ensures
            match self@ {
                None => r is Err && r->Err_0 is NotInitialized,
                Some(res) => match r {
                    Ok((aid, b)) => match res {
                        AudioResourceV::Rsc(entries) => idx < entries.len() && aid@
                            == AudioIdV::Num(entries[idx as int].0) && entries[idx as int].1 == b@,
                        AudioResourceV::Nrsc(entries) => idx < entries.len() && aid@
                            == AudioIdV::Str(entries[idx as int].0) && entries[idx as int].1 == b@,
                    },
                    Err(e) => e is NotFound && match res {
                        AudioResourceV::Rsc(entries) => idx >= entries.len(),
                        AudioResourceV::Nrsc(entries) => idx >= entries.len(),
                    },
                },
            },
    {
        match &self.res {
            None => Err(Error::NotInitialized),
            Some(AudioResource::Rsc(r)) => match r.get_by_idx(idx) {
                Ok((id, b)) => Ok((AudioId::Num(id), b)),
                Err(e) => Err(e),
            },
            Some(AudioResource::Nrsc(n)) => match n.get_by_idx(idx) {
                Ok((id, b)) => Ok((AudioId::Str(id.clone()), b)),
                Err(e) => Err(e),
            },
        }
    }

    /// The positions the store can be walked over: `0..len`.
    pub fn idx_iter(&self) -> (r: Result<core::ops::Range<usize>, Error>)
        ensures
            match self@ {
                None => r is Err && r->Err_0 is NotInitialized,
                Some(res) => match r {
                    Ok(rg) => rg.start == 0 && rg.end == match res {
                        AudioResourceV::Rsc(entries) => entries.len(),
                        AudioResourceV::Nrsc(entries) => entries.len(),
                    },
                    Err(_) => false,
                },
            },
    {
        match &self.res {
            None => Err(Error::NotInitialized),
            Some(AudioResource::Rsc(r)) => Ok(0..r.len()),
            Some(AudioResource::Nrsc(n)) => Ok(0..n.len()),
        }
    }
}

} // verus!
