//! The typed tree of one dictionary entry, as decoded from a page's markup.
//!
//! Every node type carries a mathematical view: payload strings become
//! `Seq<char>`, node lists become `Seq` of the element views, so contracts
//! can speak of parsed values without mentioning the executable
//! representation.
use vstd::prelude::*;

verus! {

/// The view of a sequence of viewable values, element by element.
pub open spec fn seq_view<T: View>(s: Seq<T>) -> Seq<T::V> {
    Seq::new(s.len(), |i: int| s[i]@)
}

/// An entry identifier, from an `id` or `href` attribute.
#[derive(Debug, Clone)]
pub struct Id(pub String);

impl View for Id {
    type V = Seq<char>;

    open spec fn view(&self) -> Seq<char> {
        self.0@
    }
}

/// An anchor name, from a `name` attribute.
#[derive(Debug, Clone)]
pub struct Name(pub String);

impl View for Name {
    type V = Seq<char>;

    open spec fn view(&self) -> Seq<char> {
        self.0@
    }
}

/// Double-angle-bracketed kanji variant notation.
#[derive(Debug, Clone)]
pub struct DAngleBrackets(pub String);

impl View for DAngleBrackets {
    type V = Seq<char>;

    open spec fn view(&self) -> Seq<char> {
        self.0@
    }
}

/// A square "box" label.
#[derive(Debug, Clone)]
pub struct SquareBox(pub String);

impl View for SquareBox {
    type V = Seq<char>;

    open spec fn view(&self) -> Seq<char> {
        self.0@
    }
}

/// An audio reference: the referenced file's identifier.
#[derive(Debug, Clone)]
pub struct Audio(pub String);

impl View for Audio {
    type V = Seq<char>;

    open spec fn view(&self) -> Seq<char> {
        self.0@
    }
}

/// A note number within a counter-word note block.
#[derive(Debug, Clone)]
pub struct Num(pub String);

impl View for Num {
    type V = Seq<char>;

    open spec fn view(&self) -> Seq<char> {
        self.0@
    }
}

/// The base (kanji) text of a ruby pair.
#[derive(Debug, Clone)]
pub struct Rb(pub String);

impl View for Rb {
    type V = Seq<char>;

    open spec fn view(&self) -> Seq<char> {
        self.0@
    }
}

/// The reading (phonetic) text of a ruby pair.
#[derive(Debug, Clone)]
pub struct Rt(pub String);

impl View for Rt {
    type V = Seq<char>;

    open spec fn view(&self) -> Seq<char> {
        self.0@
    }
}

/// A ruby annotation: base text and its reading.
#[derive(Debug, Clone)]
pub struct Ruby(pub Rb, pub Rt);

impl View for Ruby {
    type V = (Seq<char>, Seq<char>);

    open spec fn view(&self) -> (Seq<char>, Seq<char>) {
        (self.0@, self.1@)
    }
}

/// The view of an inner annotation run.
pub enum InnerV {
    DAngleBrackets(Seq<char>),
    Ruby(Seq<((Seq<char>, Seq<char>), Option<Seq<char>>)>),
    RoundBrackets(Seq<char>),
    Text(Seq<char>),
    Span(Seq<char>),
}

/// An inner annotation run within a bracketed headword.
#[derive(Debug, Clone)]
pub enum Inner {
    DAngleBrackets(DAngleBrackets),
    Ruby(Vec<(Ruby, Option<String>)>),
    RoundBrackets(String),
    Text(String),
    Span(String),
}

/// The view of one ruby-with-trailing-kana element.
pub open spec fn ruby_pair_view(p: (Ruby, Option<String>)) -> (
    (Seq<char>, Seq<char>),
    Option<Seq<char>>,
) {
    (
        p.0@,
        match p.1 {
            Some(s) => Some(s@),
            None => None,
        },
    )
}

impl View for Inner {
    type V = InnerV;

    open spec fn view(&self) -> InnerV {
        match self {
            Inner::DAngleBrackets(d) => InnerV::DAngleBrackets(d@),
            Inner::Ruby(v) => InnerV::Ruby(Seq::new(v@.len(), |i: int| ruby_pair_view(v@[i]))),
            Inner::RoundBrackets(s) => InnerV::RoundBrackets(s@),
            Inner::Text(s) => InnerV::Text(s@),
            Inner::Span(s) => InnerV::Span(s@),
        }
    }
}

/// The view of a headword fragment.
pub enum HV {
    Headword(Seq<char>),
    HW(Seq<char>, Option<(Seq<InnerV>, char)>),
    SquareBrackets(Seq<char>),
    RoundBrackets(Seq<char>),
    SquareBox(Seq<char>),
    Subheadword(Seq<char>, Seq<char>),
    BlackBranckets(Seq<char>, Option<(InnerV, char)>),
    DAngleBrackets(Seq<char>),
    AngleBrackets(Seq<char>),
    Dia(Seq<char>),
}

/// One headword fragment; the variants are tried in this order by the
/// grammar, and each carries the exact substring matched.
#[derive(Debug, Clone)]
pub enum H {
    Headword(String),
    HW(String, Option<(Vec<Inner>, char)>),
    SquareBrackets(String),
    RoundBrackets(String),
    SquareBox(String),
    Subheadword(Name, String),
    BlackBranckets(String, Option<(Inner, char)>),
    DAngleBrackets(String),
    AngleBrackets(String),
    Dia(String),
}

impl View for H {
    type V = HV;

    open spec fn view(&self) -> HV {
        match self {
            H::Headword(s) => HV::Headword(s@),
            H::HW(s, o) => HV::HW(
                s@,
                match o {
                    Some((v, c)) => Some((seq_view(v@), *c)),
                    None => None,
                },
            ),
            H::SquareBrackets(s) => HV::SquareBrackets(s@),
            H::RoundBrackets(s) => HV::RoundBrackets(s@),
            H::SquareBox(s) => HV::SquareBox(s@),
            H::Subheadword(n, s) => HV::Subheadword(n@, s@),
            H::BlackBranckets(s, o) => HV::BlackBranckets(
                s@,
                match o {
                    Some((i, c)) => Some((i@, *c)),
                    None => None,
                },
            ),
            H::DAngleBrackets(s) => HV::DAngleBrackets(s@),
            H::AngleBrackets(s) => HV::AngleBrackets(s@),
            H::Dia(s) => HV::Dia(s@),
        }
    }
}

/// The view of a cross-reference headword fragment.
pub enum RefHeadV {
    Refheadword(Seq<char>),
    BlackBranckets(Seq<char>, Option<(InnerV, char)>),
    DAngleBrackets(Seq<char>),
    RoundBrackets(Seq<char>),
    SquareBrackets(Seq<char>),
}

/// One cross-reference headword fragment.
#[derive(Debug, Clone)]
pub enum RefHead {
    Refheadword(String),
    BlackBranckets(String, Option<(Inner, char)>),
    DAngleBrackets(String),
    RoundBrackets(String),
    SquareBrackets(String),
}

impl View for RefHead {
    type V = RefHeadV;

    open spec fn view(&self) -> RefHeadV {
        match self {
            RefHead::Refheadword(s) => RefHeadV::Refheadword(s@),
            RefHead::BlackBranckets(s, o) => RefHeadV::BlackBranckets(
                s@,
                match o {
                    Some((i, c)) => Some((i@, *c)),
                    None => None,
                },
            ),
            RefHead::DAngleBrackets(s) => RefHeadV::DAngleBrackets(s@),
            RefHead::RoundBrackets(s) => RefHeadV::RoundBrackets(s@),
            RefHead::SquareBrackets(s) => RefHeadV::SquareBrackets(s@),
        }
    }
}

/// A "counter word"-style headword.
#[derive(Debug, Clone)]
pub struct Joshiword(pub Name, pub String);

impl View for Joshiword {
    type V = (Seq<char>, Seq<char>);

    open spec fn view(&self) -> (Seq<char>, Seq<char>) {
        (self.0@, self.1@)
    }
}

/// The view of a headword.
pub enum HeadV {
    H(Seq<HV>),
    Joshiword((Seq<char>, Seq<char>)),
    Ref(Seq<RefHeadV>),
    Empty,
}

/// The headword of a head+body group; `Empty` stands for a suppressed head.
#[derive(Debug, Clone)]
pub enum Head {
    H(Vec<H>),
    Joshiword(Joshiword),
    Ref(Vec<RefHead>),
    Empty,
}

impl View for Head {
    type V = HeadV;

    open spec fn view(&self) -> HeadV {
        match self {
            Head::H(v) => HeadV::H(seq_view(v@)),
            Head::Joshiword(j) => HeadV::Joshiword(j@),
            Head::Ref(v) => HeadV::Ref(seq_view(v@)),
            Head::Empty => HeadV::Empty,
        }
    }
}

/// The view of one accent text piece.
pub enum AccentTextV {
    Text(Seq<char>),
    SymbolMacron(Seq<char>),
    SymbolBackslash(Seq<char>),
    RoundBox(Seq<char>),
    Sound(Seq<char>),
    SquareBox(Seq<char>),
    NoteRef(Seq<char>),
}

/// One piece of accent text: plain text, a marker glyph, a highlighted kana
/// run, an audio reference (the file's base identifier, without extension),
/// a boxed label, or a footnote reference.
#[derive(Debug, Clone)]
pub enum AccentText {
    Text(String),
    SymbolMacron(String),
    SymbolBackslash(String),
    RoundBox(String),
    Sound(String),
    SquareBox(String),
    NoteRef(String),
}

impl View for AccentText {
    type V = AccentTextV;

    open spec fn view(&self) -> AccentTextV {
        match self {
            AccentText::Text(s) => AccentTextV::Text(s@),
            AccentText::SymbolMacron(s) => AccentTextV::SymbolMacron(s@),
            AccentText::SymbolBackslash(s) => AccentTextV::SymbolBackslash(s@),
            AccentText::RoundBox(s) => AccentTextV::RoundBox(s@),
            AccentText::Sound(s) => AccentTextV::Sound(s@),
            AccentText::SquareBox(s) => AccentTextV::SquareBox(s@),
            AccentText::NoteRef(s) => AccentTextV::NoteRef(s@),
        }
    }
}

/// An optional square-boxed label preceding accent text.
#[derive(Debug, Clone)]
pub struct AccentHead(pub SquareBox);

impl View for AccentHead {
    type V = Seq<char>;

    open spec fn view(&self) -> Seq<char> {
        self.0@
    }
}

/// One pronunciation variant: an optional label and its accent text pieces.
#[derive(Debug, Clone)]
pub struct Accent(pub Option<AccentHead>, pub Vec<AccentText>);

impl View for Accent {
    type V = (Option<Seq<char>>, Seq<AccentTextV>);

    open spec fn view(&self) -> (Option<Seq<char>>, Seq<AccentTextV>) {
        (
            match self.0 {
                Some(h) => Some(h@),
                None => None,
            },
            seq_view(self.1@),
        )
    }
}

/// A parenthesized accent form.
#[derive(Debug, Clone)]
pub struct RoundBrackets(pub Vec<AccentText>);

impl View for RoundBrackets {
    type V = Seq<AccentTextV>;

    open spec fn view(&self) -> Seq<AccentTextV> {
        seq_view(self.0@)
    }
}

/// The view of one piece of cross-reference content.
pub enum RefContentV {
    Text(Seq<char>),
    RoundBrackets(Seq<char>),
    TextSpan(Seq<char>),
}

/// One piece of cross-reference content.
#[derive(Debug, Clone)]
pub enum RefContent {
    Text(String),
    RoundBrackets(String),
    TextSpan(String),
}

impl View for RefContent {
    type V = RefContentV;

    open spec fn view(&self) -> RefContentV {
        match self {
            RefContent::Text(s) => RefContentV::Text(s@),
            RefContent::RoundBrackets(s) => RefContentV::RoundBrackets(s@),
            RefContent::TextSpan(s) => RefContentV::TextSpan(s@),
        }
    }
}

/// The head of a worked example.
#[derive(Debug, Clone)]
pub struct ExampleHead(pub Name, pub String);

impl View for ExampleHead {
    type V = (Seq<char>, Seq<char>);

    open spec fn view(&self) -> (Seq<char>, Seq<char>) {
        (self.0@, self.1@)
    }
}

/// The view of one piece of worked-example content.
pub enum ExampleContentV {
    AccentExample(Seq<AccentTextV>),
    SquareBrackets(Seq<char>),
    Ref(Seq<char>, Seq<RefContentV>),
}

/// One piece of worked-example content.
#[derive(Debug, Clone)]
pub enum ExampleContent {
    AccentExample(Vec<AccentText>),
    SquareBrackets(String),
    Ref(Id, Vec<RefContent>),
}

impl View for ExampleContent {
    type V = ExampleContentV;

    open spec fn view(&self) -> ExampleContentV {
        match self {
            ExampleContent::AccentExample(v) => ExampleContentV::AccentExample(seq_view(v@)),
            ExampleContent::SquareBrackets(s) => ExampleContentV::SquareBrackets(s@),
            ExampleContent::Ref(i, v) => ExampleContentV::Ref(i@, seq_view(v@)),
        }
    }
}

/// A worked example: its head and its content pieces.
#[derive(Debug, Clone)]
pub struct Example(pub ExampleHead, pub Vec<ExampleContent>);

impl View for Example {
    type V = ((Seq<char>, Seq<char>), Seq<ExampleContentV>);

    open spec fn view(&self) -> ((Seq<char>, Seq<char>), Seq<ExampleContentV>) {
        (self.0@, seq_view(self.1@))
    }
}

/// The view of one conjugation-table piece.
pub enum ConTableContentV {
    Accent(Seq<(Option<Seq<char>>, Seq<AccentTextV>)>),
    AccentRound(Seq<AccentTextV>, Option<Seq<char>>),
}

/// One piece of a conjugation/declension table.
#[derive(Debug, Clone)]
pub enum ConTableContent {
    Accent(Vec<Accent>),
    AccentRound(RoundBrackets, Option<Audio>),
}

impl View for ConTableContent {
    type V = ConTableContentV;

    open spec fn view(&self) -> ConTableContentV {
        match self {
            ConTableContent::Accent(v) => ConTableContentV::Accent(seq_view(v@)),
            ConTableContent::AccentRound(r, o) => ConTableContentV::AccentRound(
                r@,
                match o {
                    Some(a) => Some(a@),
                    None => None,
                },
            ),
        }
    }
}

/// The view of one body block.
pub enum BodyContentV {
    Accent(Seq<(Option<Seq<char>>, Seq<AccentTextV>)>),
    AccentRound(Seq<AccentTextV>, Option<Seq<char>>),
    Ref(Seq<char>, Seq<RefContentV>),
    ConTable(Seq<ConTableContentV>),
    SquareBox(Seq<char>),
    Example(((Seq<char>, Seq<char>), Seq<ExampleContentV>)),
}

/// One pronunciation/usage block of a head+body group.
#[derive(Debug, Clone)]
pub enum BodyContent {
    Accent(Vec<Accent>),
    AccentRound(RoundBrackets, Option<Audio>),
    Ref(Id, Vec<RefContent>),
    ConTable(Vec<ConTableContent>),
    SquareBox(String),
    Example(Example),
}

impl View for BodyContent {
    type V = BodyContentV;

    open spec fn view(&self) -> BodyContentV {
        match self {
            BodyContent::Accent(v) => BodyContentV::Accent(seq_view(v@)),
            BodyContent::AccentRound(r, o) => BodyContentV::AccentRound(
                r@,
                match o {
                    Some(a) => Some(a@),
                    None => None,
                },
            ),
            BodyContent::Ref(i, v) => BodyContentV::Ref(i@, seq_view(v@)),
            BodyContent::ConTable(v) => BodyContentV::ConTable(seq_view(v@)),
            BodyContent::SquareBox(s) => BodyContentV::SquareBox(s@),
            BodyContent::Example(e) => BodyContentV::Example(e@),
        }
    }
}

/// The ordered pronunciation/usage blocks of a head+body group.
#[derive(Debug, Clone)]
pub struct Body(pub Vec<BodyContent>);

impl View for Body {
    type V = Seq<BodyContentV>;

    open spec fn view(&self) -> Seq<BodyContentV> {
        seq_view(self.0@)
    }
}

/// One headword+pronunciation group within an entry.
#[derive(Debug, Clone)]
pub struct HeadG(pub Head, pub Body);

impl View for HeadG {
    type V = (HeadV, Seq<BodyContentV>);

    open spec fn view(&self) -> (HeadV, Seq<BodyContentV>) {
        (self.0@, self.1@)
    }
}

/// The view of one note piece.
pub enum NoteContentV {
    Text(Seq<char>),
    Accent((Option<Seq<char>>, Seq<AccentTextV>)),
    SymbolBackslash(Seq<char>),
    RoundBox(Seq<char>),
    SymbolMacron(Seq<char>),
    Ref(Seq<char>, Seq<RefContentV>),
}

/// One piece of a counter-word note segment.
#[derive(Debug, Clone)]
pub enum NoteContent {
    Text(String),
    Accent(Accent),
    SymbolBackslash(String),
    RoundBox(String),
    SymbolMacron(String),
    Ref(Id, Vec<RefContent>),
}

impl View for NoteContent {
    type V = NoteContentV;

    open spec fn view(&self) -> NoteContentV {
        match self {
            NoteContent::Text(s) => NoteContentV::Text(s@),
            NoteContent::Accent(a) => NoteContentV::Accent(a@),
            NoteContent::SymbolBackslash(s) => NoteContentV::SymbolBackslash(s@),
            NoteContent::RoundBox(s) => NoteContentV::RoundBox(s@),
            NoteContent::SymbolMacron(s) => NoteContentV::SymbolMacron(s@),
            NoteContent::Ref(i, v) => NoteContentV::Ref(i@, seq_view(v@)),
        }
    }
}

/// The view of one note segment: an optional number and its pieces.
pub open spec fn note_seg_view(p: (Option<Num>, Vec<NoteContent>)) -> (
    Option<Seq<char>>,
    Seq<NoteContentV>,
) {
    (
        match p.0 {
            Some(n) => Some(n@),
            None => None,
        },
        seq_view(p.1@),
    )
}

/// The notes of a counter-word table: numbered or unnumbered segments.
#[derive(Debug, Clone)]
pub struct Notes(pub Vec<(Option<Num>, Vec<NoteContent>)>);

impl View for Notes {
    type V = Seq<(Option<Seq<char>>, Seq<NoteContentV>)>;

    open spec fn view(&self) -> Seq<(Option<Seq<char>>, Seq<NoteContentV>)> {
        Seq::new(self.0@.len(), |i: int| note_seg_view(self.0@[i]))
    }
}

/// An indented accent run within a counter-word table.
#[derive(Debug, Clone)]
pub struct Indent(pub Vec<AccentText>);

impl View for Indent {
    type V = Seq<AccentTextV>;

    open spec fn view(&self) -> Seq<AccentTextV> {
        seq_view(self.0@)
    }
}

/// The numbered head of a counter-word table.
#[derive(Debug, Clone)]
pub struct JosushiNumber(pub Name, pub String);

impl View for JosushiNumber {
    type V = (Seq<char>, Seq<char>);

    open spec fn view(&self) -> (Seq<char>, Seq<char>) {
        (self.0@, self.1@)
    }
}

/// The view of a counter-word table.
pub type JosushiV = (
    (Seq<char>, Seq<char>),
    Seq<(Option<Seq<char>>, Seq<AccentTextV>)>,
    Seq<Seq<AccentTextV>>,
    Option<Seq<(Option<Seq<char>>, Seq<NoteContentV>)>>,
);

/// One counter-word table: its number, accents, indented runs and notes.
#[derive(Debug, Clone)]
pub struct Josushi(
    pub JosushiNumber,
    pub Vec<Accent>,
    pub Vec<Indent>,
    pub Option<Notes>,
);

impl View for Josushi {
    type V = JosushiV;

    open spec fn view(&self) -> JosushiV {
        (
            self.0@,
            seq_view(self.1@),
            seq_view(self.2@),
            match self.3 {
                Some(n) => Some(n@),
                None => None,
            },
        )
    }
}

/// The view of one dictionary entry.
pub type DicItemV = (Seq<char>, Seq<(HeadV, Seq<BodyContentV>)>, Seq<JosushiV>);

/// One dictionary entry: its identifier, its head+body groups, and its
/// counter-word tables.
#[derive(Debug, Clone)]
pub struct DicItem(pub Id, pub Vec<HeadG>, pub Vec<Josushi>);

impl View for DicItem {
    type V = DicItemV;

    open spec fn view(&self) -> DicItemV {
        (self.0@, seq_view(self.1@), seq_view(self.2@))
    }
}

} // verus!
