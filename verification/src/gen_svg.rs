//! The pitch-accent diagram synthesizer: a tokenized accent word is
//! classified and drawn as a self-contained vector document through the
//! `svg` crate.
//!
//! The document is modelled by its build history: a fresh document has no
//! steps, and every attribute set and every added element appends one step.
//! The rendered text is a function of that history alone — the `svg` crate
//! writes attributes sorted by name — so the whole rendering is pinned to a
//! single specification function of the input word.
use vstd::prelude::*;

use crate::chars::COMBINING_CIRCLE;
use crate::chars::COMBINING_SEMIVOICED;
use crate::chars::HALF_WIDTH_DAKUTEN;
use crate::chars::HALF_WIDTH_HANDAKUTEN;
use crate::chars::is_little;
use crate::chars::spec_is_little;
use crate::ast::seq_view;
use crate::mora::PitchShape;
use crate::mora::mora_chars;
use crate::mora::spec_classify;
use crate::mora::spec_mora;
use crate::strutil::str_to_chars;

verus! {

/// One step of a document's build history.
pub enum DocStep {
    /// A numeric attribute was set.
    SetNum(Seq<char>, nat),
    /// A four-number attribute was set.
    SetQuad(Seq<char>, nat, nat, nat, nat),
    /// A two-stroke line segment's path element was added: start point,
    /// horizontal extent, vertical delta, and style.
    AddPath { x: nat, y: nat, w: nat, dy: int, style: Seq<char> },
    /// A circle element was added: radius text, center, and style.
    AddCircle { r: Seq<char>, cx: nat, cy: nat, style: Seq<char> },
    /// A text element was added: content, position, and style.
    AddText { content: Seq<char>, x: nat, y: Seq<char>, style: Seq<char> },
}

#[verifier::external_type_specification]
#[verifier::external_body]
pub struct ExSVG(svg::node::element::SVG);

/// The build history of a document: what was set and added on it, in order,
/// since `Document::new`.
pub uninterp spec fn doc_steps(d: svg::Document) -> Seq<DocStep>;

/// The serialized text of a document built by the given steps; it depends
/// on the steps alone, because the `svg` crate writes each element's
/// attributes sorted by name.
pub uninterp spec fn svg_text_of(steps: Seq<DocStep>) -> Seq<char>;

/// Relies on `svg::Document::new`: a fresh document, nothing set or added
/// on it yet.
#[verifier::external_body]
fn new_document() -> (d: svg::Document)
    ensures
        doc_steps(d) == Seq::<DocStep>::empty(),
{
    svg::Document::new()
}

/// Relies on `svg`'s `SVG::set`: assigns a numeric attribute and returns
/// the document, one more step in its history.
#[verifier::external_body]
fn doc_set_num(d: svg::Document, key: &str, val: usize) -> (r: svg::Document)
    ensures
        doc_steps(r) == doc_steps(d).push(DocStep::SetNum(key@, val as nat)),
{
    d.set(key, val)
}

/// Relies on `svg`'s `SVG::set`: assigns a four-number attribute (written
/// space-separated) and returns the document.
#[verifier::external_body]
fn doc_set_quad(d: svg::Document, key: &str, a: usize, b: usize, c: usize, e: usize) -> (r:
    svg::Document)
    ensures
        doc_steps(r) == doc_steps(d).push(DocStep::SetQuad(key@, a as nat, b as nat, c as nat, e as nat)),
{
    d.set(key, (a, b, c, e))
}

/// Relies on `svg`'s path `Data` (`move_to`, `line_by`), `Path::set` and
/// `SVG::add`: appends one path element drawn from `(x, y)` extending `w`
/// units right and `dy` units down, with the given style.
#[verifier::external_body]
fn doc_add_path(d: svg::Document, x: usize, y: usize, w: usize, dy: i64, style: &str) -> (r:
    svg::Document)
    ensures
        doc_steps(r) == doc_steps(d).push(
            DocStep::AddPath { x: x as nat, y: y as nat, w: w as nat, dy: dy as int, style: style@ },
        ),
{
    let data = svg::node::element::path::Data::new().move_to((x, y)).line_by((w, dy as isize));
    let path = svg::node::element::Path::new().set("d", data).set("style", style);
    d.add(path)
}

/// Relies on `svg`'s `Circle::set` and `SVG::add`: appends one circle
/// element with the given radius text, center and style.
#[verifier::external_body]
fn doc_add_circle(d: svg::Document, r: &str, cx: usize, cy: usize, style: &str) -> (res:
    svg::Document)
    ensures
        doc_steps(res) == doc_steps(d).push(
            DocStep::AddCircle { r: r@, cx: cx as nat, cy: cy as nat, style: style@ },
        ),
{
    let c = svg::node::element::Circle::new().set("r", r).set("cx", cx).set("cy", cy).set(
        "style",
        style,
    );
    d.add(c)
}

/// Relies on `svg`'s `Text::new`, `Text::set` and `SVG::add`: appends one
/// text element with the given content, position and style.
#[verifier::external_body]
fn doc_add_text(d: svg::Document, content: &str, x: usize, y: &str, style: &str) -> (r:
    svg::Document)
    ensures
        doc_steps(r) == doc_steps(d).push(
            DocStep::AddText { content: content@, x: x as nat, y: y@, style: style@ },
        ),
{
    let t = svg::node::element::Text::new(content).set("x", x).set("y", y).set("style", style);
    d.add(t)
}

/// Relies on `SVG`'s `Display`: serializes the document; the output is a
/// function of the build history alone, attributes being written in sorted
/// order.
#[verifier::external_body]
fn doc_to_string(d: &svg::Document) -> (r: String)
    ensures
        r@ == svg_text_of(doc_steps(*d)),
{
    d.to_string()
}

/// The vertical movement of a line segment.
#[derive(Debug, PartialEq, Clone, Copy)]
pub enum PathType {
    /// Level pitch: no vertical delta.
    Straight,
    /// Rising pitch: 25 units up.
    Up,
    /// Falling pitch: 25 units down.
    Down,
}

/// The vertical delta a path type draws.
pub open spec fn spec_path_delta(t: PathType) -> int {
    match t {
        PathType::Straight => 0,
        PathType::Up => -25,
        PathType::Down => 25,
    }
}

/// The two strokes of one line segment: a wide dark outer stroke under a
/// narrow light inner stroke, for contrast against any background.
pub open spec fn spec_path2(x: int, y: int, dy: int, w: int) -> Seq<DocStep> {
    seq![
        DocStep::AddPath {
            x: x as nat,
            y: y as nat,
            w: w as nat,
            dy: dy,
            style: "fill:none;stroke:#000;stroke-width:4.7;"@,
        },
        DocStep::AddPath {
            x: x as nat,
            y: y as nat,
            w: w as nat,
            dy: dy,
            style: "fill:none;stroke:#fff;stroke-width:2.5;"@,
        },
    ]
}

/// Draw one two-stroke line segment.
fn draw_path(document: svg::Document, xpos: usize, ypos: usize, typ: PathType, width: usize) -> (r:
    svg::Document)
    ensures
        doc_steps(r) == doc_steps(document) + spec_path2(
            xpos as int,
            ypos as int,
            spec_path_delta(typ),
            width as int,
        ),
{
    let dy: i64 = match typ {
        PathType::Straight => 0,
        PathType::Up => -25,
        PathType::Down => 25,
    };
    let d1 = doc_add_path(document, xpos, ypos, width, dy, "fill:none;stroke:#000;stroke-width:4.7;");
    let d2 = doc_add_path(d1, xpos, ypos, width, dy, "fill:none;stroke:#fff;stroke-width:2.5;");
    proof {
        assert(doc_steps(d2) =~= doc_steps(document) + spec_path2(
            xpos as int,
            ypos as int,
            spec_path_delta(typ),
            width as int,
        ));
    }
    d2
}

/// The two-layer dot marker at a mora position, with a small center dot on
/// the mora right after a drop, for the devoiced-next-mora convention.
pub open spec fn spec_circle2(x: int, y: int, is_next: bool) -> Seq<DocStep> {
    let base = seq![
        DocStep::AddCircle {
            r: "7.2"@,
            cx: x as nat,
            cy: y as nat,
            style: "opacity:1;fill:#000;"@,
        },
        DocStep::AddCircle { r: "5"@, cx: x as nat, cy: y as nat, style: "opacity:1;fill:#fff;"@ },
    ];
    if is_next {
        base.push(
            DocStep::AddCircle {
                r: "3.25"@,
                cx: x as nat,
                cy: y as nat,
                style: "opacity:1;fill:#000;"@,
            },
        )
    } else {
        base
    }
}

/// Draw one dot marker.
fn draw_circle(doc: svg::Document, xpos: usize, ypos: usize, is_next: bool) -> (r: svg::Document)
    ensures
        doc_steps(r) == doc_steps(doc) + spec_circle2(xpos as int, ypos as int, is_next),
{
    let d1 = doc_add_circle(doc, "7.2", xpos, ypos, "opacity:1;fill:#000;");
    let d2 = doc_add_circle(d1, "5", xpos, ypos, "opacity:1;fill:#fff;");
    if is_next {
        let d3 = doc_add_circle(d2, "3.25", xpos, ypos, "opacity:1;fill:#000;");
        proof {
            assert(doc_steps(d3) =~= doc_steps(doc) + spec_circle2(
                xpos as int,
                ypos as int,
                is_next,
            ));
        }
        d3
    } else {
        proof {
            assert(doc_steps(d2) =~= doc_steps(doc) + spec_circle2(
                xpos as int,
                ypos as int,
                is_next,
            ));
        }
        d2
    }
}

/// Whether a character is one of the four combining marks excluded from a
/// mora's drawn length.
pub open spec fn spec_is_mark(c: char) -> bool {
    c == COMBINING_CIRCLE || c == COMBINING_SEMIVOICED || c == HALF_WIDTH_DAKUTEN
        || c == HALF_WIDTH_HANDAKUTEN
}

/// How many characters of a mora count for its text layout.
pub open spec fn spec_drawn_len(m: Seq<char>) -> int
    decreases m.len(),
{
    if m.len() == 0 {
        0
    } else {
        spec_drawn_len(m.drop_last()) + if spec_is_mark(m.last()) {
            0int
        } else {
            1int
        }
    }
}

/// The first small-kana position in a mora, if any.
pub open spec fn spec_first_little(m: Seq<char>) -> Option<int>
    decreases m.len(),
{
    if m.len() == 0 {
        None
    } else if spec_is_little(m.first()) {
        Some(0)
    } else {
        match spec_first_little(m.drop_first()) {
            Some(i) => Some(i + 1),
            None => None,
        }
    }
}

/// A mora the text renderer can draw: a single counted glyph, or a small
/// kana to split at.
pub open spec fn spec_drawable(m: Seq<char>) -> bool {
    spec_drawn_len(m) == 1 || spec_first_little(m) is Some
}

/// The style every mora label is drawn with.
pub open spec fn spec_text_style() -> Seq<char> {
    "font-size:25px;font-family:sans-serif;fill:#fff;stroke:#000;stroke-width:2.2px;paint-order:stroke;"@
}

/// The text steps of one mora label: a single centered glyph, or a primary
/// glyph with the small-kana suffix offset to its lower right.
pub open spec fn spec_mora_text(m: Seq<char>, xpos: int) -> Seq<DocStep> {
    if spec_drawn_len(m) == 1 {
        seq![
            DocStep::AddText { content: m, x: xpos as nat, y: "77.5"@, style: spec_text_style() },
        ]
    } else {
        let li = spec_first_little(m)->Some_0;
        seq![
            DocStep::AddText {
                content: m.subrange(0, li),
                x: (if xpos >= 5 {
                    xpos - 5
                } else {
                    0
                }) as nat,
                y: "77.5"@,
                style: spec_text_style(),
            },
            DocStep::AddText {
                content: m.skip(li),
                x: (xpos + 12) as nat,
                y: "77.5"@,
                style: spec_text_style(),
            },
        ]
    }
}

fn drawn_len(m: &[char]) -> (r: usize)
    ensures
        r == spec_drawn_len(m@),
        r <= m@.len(),
{
    let mut i: usize = 0;
    let mut n: usize = 0;
    proof {
        assert(m@.subrange(0, 0) =~= Seq::<char>::empty());
    }
    while i < m.len()
        invariant
            i <= m@.len(),
            n == spec_drawn_len(m@.subrange(0, i as int)),
            n <= i,
        decreases m@.len() - i,
    {
        let c = m[i];
        proof {
            assert(m@.subrange(0, i + 1 as int).drop_last() =~= m@.subrange(0, i as int));
            assert(m@.subrange(0, i + 1 as int).last() == m@[i as int]);
        }
        if !(c == COMBINING_CIRCLE || c == COMBINING_SEMIVOICED || c == HALF_WIDTH_DAKUTEN || c
            == HALF_WIDTH_HANDAKUTEN) {
            n += 1;
        }
        i += 1;
    }
    proof {
        assert(m@.subrange(0, m@.len() as int) =~= m@);
    }
    n
}

fn first_little(m: &[char]) -> (r: Option<usize>)
    ensures
        match r {
            Some(i) => spec_first_little(m@) == Some(i as int) && i < m@.len(),
            None => spec_first_little(m@) is None,
        },
{
    let mut i: usize = 0;
    while i < m.len() && !is_little(m[i])
        invariant
            i <= m@.len(),
            forall|j: int| 0 <= j < i ==> !spec_is_little(m@[j]),
        decreases m@.len() - i,
    {
        i += 1;
    }
    proof {
        lemma_first_little_at(m@, i as int);
    }
    if i < m.len() {
        Some(i)
    } else {
        None
    }
}

/// A scan that stopped at `i` pins down the first small-kana position.
proof fn lemma_first_little_at(m: Seq<char>, i: int)
    requires
        0 <= i <= m.len(),
        forall|j: int| 0 <= j < i ==> !spec_is_little(m[j]),
        i < m.len() ==> spec_is_little(m[i]),
    ensures
        i < m.len() ==> spec_first_little(m) == Some(i),
        i == m.len() ==> spec_first_little(m) is None,
    decreases m.len(),
{
    if m.len() == 0 {
    } else if spec_is_little(m.first()) {
        if i > 0 {
            assert(!spec_is_little(m[0]));
        }
    } else {
        assert(i >= 1) by {
            if i == 0 {
                assert(spec_is_little(m[0]));
            }
        }
        assert(forall|j: int| 0 <= j < i - 1 ==> !spec_is_little(m.drop_first()[j]));
        assert(i - 1 < m.drop_first().len() ==> spec_is_little(m.drop_first()[i - 1]));
        lemma_first_little_at(m.drop_first(), i - 1);
    }
}

/// Draw one mora's text label at `xpos`.
pub fn draw_mora(doc: svg::Document, mora: &str, xpos: usize) -> (r: svg::Document)
    requires
        spec_drawable(mora@),
        xpos + 12 <= usize::MAX,
    ensures
        doc_steps(r) == doc_steps(doc) + spec_mora_text(mora@, xpos as int),
{
    let m = str_to_chars(mora);
    let n = drawn_len(m.as_slice());
    if n == 1 {
        let d = doc_add_text(
            doc,
            mora,
            xpos,
            "77.5",
            "font-size:25px;font-family:sans-serif;fill:#fff;stroke:#000;stroke-width:2.2px;paint-order:stroke;",
        );
        proof {
            assert(doc_steps(d) =~= doc_steps(doc) + spec_mora_text(mora@, xpos as int));
        }
        d
    } else {
        let li = match first_little(m.as_slice()) {
            Some(i) => i,
            None => {
                proof {
                    assert(false);
                }
                0
            },
        };
        let first_part = crate::strutil::string_range(m.as_slice(), 0, li);
        let second_part = crate::strutil::string_range(m.as_slice(), li, m.len());
        let x1 = if xpos >= 5 {
            xpos - 5
        } else {
            0
        };
        let d1 = doc_add_text(
            doc,
            first_part.as_str(),
            x1,
            "77.5",
            "font-size:25px;font-family:sans-serif;fill:#fff;stroke:#000;stroke-width:2.2px;paint-order:stroke;",
        );
        let d2 = doc_add_text(
            d1,
            second_part.as_str(),
            xpos + 12,
            "77.5",
            "font-size:25px;font-family:sans-serif;fill:#fff;stroke:#000;stroke-width:2.2px;paint-order:stroke;",
        );
        proof {
            assert(m@.skip(li as int) =~= m@.subrange(li as int, m@.len() as int));
            assert(doc_steps(d2) =~= doc_steps(doc) + spec_mora_text(mora@, xpos as int));
        }
        d2
    }
}

/// Whether a mora is drawn as text: the bare marker morae are not.
pub open spec fn spec_is_drawn(m: Seq<char>) -> bool {
    m != seq!['＼'] && m != seq![COMBINING_CIRCLE] && m != seq!['▔']
}

/// How many drawn morae precede the end of a mora list.
pub open spec fn spec_drawn_count(ms: Seq<Seq<char>>) -> int
    decreases ms.len(),
{
    if ms.len() == 0 {
        0
    } else {
        spec_drawn_count(ms.drop_last()) + if spec_is_drawn(ms.last()) {
            1int
        } else {
            0int
        }
    }
}

/// The text steps of a whole mora list: each drawn mora at its position
/// among the drawn morae, 35 units apart with a 16-unit margin, 11 units
/// left of its dot.
pub open spec fn spec_text_steps(ms: Seq<Seq<char>>) -> Seq<DocStep>
    decreases ms.len(),
{
    if ms.len() == 0 {
        Seq::empty()
    } else {
        spec_text_steps(ms.drop_last()) + if spec_is_drawn(ms.last()) {
            spec_mora_text(ms.last(), 16 + spec_drawn_count(ms.drop_last()) * 35 - 11)
        } else {
            Seq::empty()
        }
    }
}

/// A word the renderer accepts: every drawn mora can be drawn.
pub open spec fn spec_renderable(word: Seq<char>) -> bool {
    forall|i: int|
        0 <= i < spec_mora(word).len() && spec_is_drawn(#[trigger] spec_mora(word)[i])
            ==> spec_drawable(spec_mora(word)[i])
}

/// The index of the first drop-marker mora, or the word's length if none.
pub open spec fn spec_first_bs(ms: Seq<Seq<char>>) -> int
    decreases ms.len(),
{
    if ms.len() == 0 {
        0
    } else if ms.first() == seq!['＼'] {
        0
    } else {
        1 + spec_first_bs(ms.drop_first())
    }
}

/// The level stretch of a contour: a straight segment and a plain dot at
/// each position `from <= i < upto`, drawn at height `y` with the given
/// position offset.
pub open spec fn spec_level_run(from: int, upto: int, offset: int, y: int) -> Seq<DocStep>
    decreases upto - from,
{
    if from >= upto {
        Seq::empty()
    } else {
        spec_path2(16 + (from + offset) * 35, y, 0, 35) + spec_circle2(
            16 + (from + offset) * 35,
            y,
            false,
        ) + spec_level_run(from + 1, upto, offset, y)
    }
}

/// Draw a level stretch.
fn level_run(doc: svg::Document, from: usize, upto: usize, offset: usize, y: usize) -> (r:
    svg::Document)
    requires
        upto + offset <= usize::MAX / 35,
    ensures
        doc_steps(r) == doc_steps(doc) + spec_level_run(from as int, upto as int, offset as int, y as int),
{
    let mut d = doc;
    let mut i: usize = from;
    if i >= upto {
        proof {
            assert(doc_steps(d) =~= doc_steps(d) + spec_level_run(
                from as int,
                upto as int,
                offset as int,
                y as int,
            ));
        }
        return d;
    }
    while i < upto
        invariant
            from <= i <= upto,
            upto + offset <= usize::MAX / 35,
            doc_steps(d) + spec_level_run(i as int, upto as int, offset as int, y as int)
                == doc_steps(doc) + spec_level_run(
                from as int,
                upto as int,
                offset as int,
                y as int,
            ),
        decreases upto - i,
    {
        let x = 16 + (i + offset) * 35;
        let ghost before = doc_steps(d);
        d = draw_path(d, x, y, PathType::Straight, 35);
        d = draw_circle(d, x, y, false);
        proof {
            assert((before + (spec_path2(x as int, y as int, 0, 35) + spec_circle2(
                x as int,
                y as int,
                false,
            ))) =~= (before + spec_path2(x as int, y as int, 0, 35)) + spec_circle2(
                x as int,
                y as int,
                false,
            ));
            assert(doc_steps(d) + spec_level_run(
                i + 1 as int,
                upto as int,
                offset as int,
                y as int,
            ) =~= doc_steps(doc) + spec_level_run(
                from as int,
                upto as int,
                offset as int,
                y as int,
            ));
        }
        i += 1;
    }
    d
}

/// The heiban contour after its first rise: level dots high, the rise
/// marker's position drawn as the distinguishing ringed dot.
pub open spec fn spec_heiban_tail(ms: Seq<Seq<char>>, i: int) -> Seq<DocStep>
    decreases ms.len() - i,
{
    if i >= ms.len() {
        Seq::empty()
    } else {
        (if ms[i] == seq!['▔'] {
            spec_circle2(16 + i * 35, 15, true)
        } else {
            spec_path2(16 + i * 35, 15, 0, 35) + spec_circle2(16 + i * 35, 15, false)
        }) + spec_heiban_tail(ms, i + 1)
    }
}

/// The pitch-contour steps of a classified word.
pub open spec fn spec_accent_steps(ms: Seq<Seq<char>>) -> Seq<DocStep> {
    let n = ms.len() as int;
    match spec_classify(ms) {
        PitchShape::Heiban => spec_path2(16, 40, -25, 35) + spec_circle2(16, 40, false)
            + spec_heiban_tail(ms, 1),
        PitchShape::Atamadaka => {
            let fcount = spec_non_bs_count(ms);
            let last_i = if fcount >= 2 {
                fcount - 1
            } else {
                0
            };
            spec_path2(16, 15, 25, 35) + spec_circle2(16, 15, false) + spec_level_run(
                1,
                fcount,
                0,
                40,
            ) + spec_circle2(16 + (last_i + 1) * 35, 40, true)
        },
        PitchShape::Odaka => {
            let last_i = if n >= 4 {
                n - 3
            } else {
                0
            };
            spec_path2(16, 40, -25, 35) + spec_circle2(16, 40, false) + spec_level_run(
                1,
                n - 2,
                0,
                15,
            ) + spec_path2(16 + (last_i + 1) * 35, 15, 25, 35) + spec_circle2(
                16 + (last_i + 1) * 35,
                15,
                false,
            ) + spec_circle2(16 + (last_i + 2) * 35, 40, true)
        },
        PitchShape::Nakadaka => {
            let t = spec_first_bs(ms);
            let last_i = (if t >= 3 {
                t - 2
            } else {
                0
            }) + 1;
            let last_i2 = if n - t >= 3 {
                n - t - 2
            } else {
                0
            };
            spec_path2(16, 40, -25, 35) + spec_circle2(16, 40, false) + spec_level_run(
                1,
                t - 1,
                0,
                15,
            ) + spec_path2(16 + last_i * 35, 15, 25, 35) + spec_circle2(16 + last_i * 35, 15, false)
                + spec_level_run(1, n - t - 1, last_i, 40) + spec_path2(
                16 + (last_i + last_i2 + 1) * 35,
                40,
                0,
                35,
            ) + spec_circle2(16 + (last_i + last_i2 + 1) * 35, 40, false) + spec_circle2(
                16 + (last_i + last_i2 + 2) * 35,
                40,
                true,
            )
        },
    }
}

/// The whole build history of a word's diagram: the document frame, the
/// mora labels, and the pitch contour.
pub open spec fn spec_gen_steps(word: Seq<char>) -> Seq<DocStep> {
    let ms = spec_mora(word);
    let w = ((ms.len() - 1) * 35 + 32) as nat;
    seq![
        DocStep::SetNum("width"@, w),
        DocStep::SetNum("height"@, 90nat),
        DocStep::SetQuad("viewBox"@, 0nat, 0nat, w, 90nat),
    ] + spec_text_steps(ms) + spec_accent_steps(ms)
}

/// How many morae of a prefix are not the drop marker.
pub open spec fn spec_non_bs_count(ms: Seq<Seq<char>>) -> int
    decreases ms.len(),
{
    if ms.len() == 0 {
        0
    } else {
        spec_non_bs_count(ms.drop_last()) + if ms.last() == seq!['＼'] {
            0int
        } else {
            1int
        }
    }
}

pub proof fn lemma_mora_len(s: Seq<char>)
    ensures
        spec_mora(s).len() <= s.len(),
        s.len() >= 1 ==> spec_mora(s).len() >= 1,
    decreases s.len(),
{
    if s.len() > 0 {
        lemma_mora_len(s.drop_last());
    }
}

/// Render the pitch-accent diagram of an accent word, declining the inputs
/// the synthesizer does not accept: the empty word, a word beyond the size
/// bound, and a word with an undrawable mora.
pub fn render_pitch_diagram(accent_word: &str) -> (r: Option<String>)
    ensures
        match r {
            Some(text) => {
                &&& 1 <= accent_word@.len() <= usize::MAX / 70
                &&& spec_renderable(accent_word@)
                &&& text@ == svg_text_of(spec_gen_steps(accent_word@))
            },
            None => !(1 <= accent_word@.len() <= usize::MAX / 70 && spec_renderable(accent_word@)),
        },
{
    let chars = str_to_chars(accent_word);
    if chars.len() < 1 || chars.len() > usize::MAX / 70 {
        return None;
    }
    let morae = mora_chars(chars.as_slice());
    let ghost ms = spec_mora(accent_word@);
    let mut i: usize = 0;
    while i < morae.len()
        invariant
            i <= morae@.len(),
            seq_view(morae@) == ms,
            ms == spec_mora(accent_word@),
            forall|j: int| 0 <= j < i && spec_is_drawn(#[trigger] ms[j]) ==> spec_drawable(ms[j]),
        decreases morae@.len() - i,
    {
        if is_drawn(morae[i].as_slice()) {
            let n = drawn_len(morae[i].as_slice());
            if n != 1 && first_little(morae[i].as_slice()).is_none() {
                proof {
                    assert(spec_is_drawn(ms[i as int]) && !spec_drawable(ms[i as int]));
                }
                return None;
            }
        }
        i += 1;
    }
    Some(gen_svg(accent_word))
}

/// Whether a mora is drawn as a text label.
fn is_drawn(m: &[char]) -> (r: bool)
    ensures
        r == spec_is_drawn(m@),
{
    let bs = str_to_chars("＼");
    let mac = str_to_chars("▔");
    proof {
        reveal_strlit("＼");
        reveal_strlit("▔");
        assert(bs@ =~= seq!['＼']);
        assert(mac@ =~= seq!['▔']);
    }
    let circ = [COMBINING_CIRCLE];
    proof {
        assert(circ@ =~= seq![COMBINING_CIRCLE]);
    }
    !(crate::strutil::chars_eq(m, bs.as_slice()) || crate::strutil::chars_eq(m, circ.as_slice())
        || crate::strutil::chars_eq(m, mac.as_slice()))
}

/// Draw the heiban contour: a rise onto the second mora, sustained high,
/// the rise marker's position ringed.
fn draw_heiban(doc: svg::Document, morae: &Vec<Vec<char>>) -> (r: svg::Document)
    requires
        1 <= morae@.len() <= usize::MAX / 70,
        spec_classify(seq_view(morae@)) == PitchShape::Heiban,
    ensures
        doc_steps(r) == doc_steps(doc) + spec_accent_steps(seq_view(morae@)),
{
    let ghost ms = seq_view(morae@);
    let ghost base = doc_steps(doc);
    let n = morae.len();
    let mac = str_to_chars("▔");
    proof {
        reveal_strlit("▔");
        assert(mac@ =~= seq!['▔']);
    }
    let mut d = draw_path(doc, 16, 40, PathType::Up, 35);
    d = draw_circle(d, 16, 40, false);
    let ghost hb = base + spec_path2(16, 40, -25, 35) + spec_circle2(16, 40, false);
    proof {
        assert(doc_steps(d) =~= hb);
    }
    let mut j: usize = 1;
    while j < n
        invariant
            1 <= j <= n,
            n == ms.len(),
            n == morae@.len(),
            n <= usize::MAX / 70,
            ms == seq_view(morae@),
            mac@ == seq!['▔'],
            doc_steps(d) + spec_heiban_tail(ms, j as int) == hb + spec_heiban_tail(ms, 1),
        decreases n - j,
    {
        let x = 16 + j * 35;
        let ghost before = doc_steps(d);
        if crate::strutil::chars_eq(morae[j].as_slice(), mac.as_slice()) {
            d = draw_circle(d, x, 15, true);
            proof {
                assert(doc_steps(d) + spec_heiban_tail(ms, j + 1 as int) =~= hb
                    + spec_heiban_tail(ms, 1));
            }
        } else {
            d = draw_path(d, x, 15, PathType::Straight, 35);
            d = draw_circle(d, x, 15, false);
            proof {
                assert(before + (spec_path2(x as int, 15, 0, 35) + spec_circle2(
                    x as int,
                    15,
                    false,
                )) =~= (before + spec_path2(x as int, 15, 0, 35)) + spec_circle2(
                    x as int,
                    15,
                    false,
                ));
                assert(doc_steps(d) + spec_heiban_tail(ms, j + 1 as int) =~= hb
                    + spec_heiban_tail(ms, 1));
            }
        }
        j += 1;
    }
    proof {
        assert(spec_heiban_tail(ms, n as int) =~= Seq::<DocStep>::empty());
        assert(doc_steps(d) =~= doc_steps(d) + spec_heiban_tail(ms, n as int));
        assert(doc_steps(d) =~= base + spec_accent_steps(ms));
    }
    d
}

/// Draw the atamadaka contour: high on the first mora only, an immediate
/// drop, low sustained, a ringed dot after the last spoken mora.
fn draw_atamadaka(doc: svg::Document, morae: &Vec<Vec<char>>) -> (r: svg::Document)
    requires
        1 <= morae@.len() <= usize::MAX / 70,
        spec_classify(seq_view(morae@)) == PitchShape::Atamadaka,
    ensures
        doc_steps(r) == doc_steps(doc) + spec_accent_steps(seq_view(morae@)),
{
    let ghost ms = seq_view(morae@);
    let ghost base = doc_steps(doc);
    let n = morae.len();
    let bs = str_to_chars("＼");
    proof {
        reveal_strlit("＼");
        assert(bs@ =~= seq!['＼']);
    }
    let mut d = draw_path(doc, 16, 15, PathType::Down, 35);
    d = draw_circle(d, 16, 15, false);
    // count the morae that are not the drop marker
    let mut fcount: usize = 0;
    let mut k: usize = 0;
    proof {
        assert(ms.subrange(0, 0) =~= Seq::<Seq<char>>::empty());
    }
    while k < n
        invariant
            k <= n,
            n == ms.len(),
            n == morae@.len(),
            ms == seq_view(morae@),
            bs@ == seq!['＼'],
            fcount == spec_non_bs_count(ms.subrange(0, k as int)),
            fcount <= k,
        decreases n - k,
    {
        proof {
            assert(ms.subrange(0, k + 1 as int).drop_last() =~= ms.subrange(0, k as int));
            assert(ms.subrange(0, k + 1 as int).last() == ms[k as int]);
        }
        if !crate::strutil::chars_eq(morae[k].as_slice(), bs.as_slice()) {
            fcount += 1;
        }
        k += 1;
    }
    proof {
        assert(ms.subrange(0, n as int) =~= ms);
    }
    let last_i = if fcount >= 2 {
        fcount - 1
    } else {
        0
    };
    d = level_run(d, 1, fcount, 0, 40);
    d = draw_circle(d, 16 + (last_i + 1) * 35, 40, true);
    proof {
        assert(doc_steps(d) =~= base + spec_accent_steps(ms));
    }
    d
}

/// Draw the odaka contour: a rise onto the second mora, sustained high, a
/// drop after the last spoken mora, a ringed dot past it.
fn draw_odaka(doc: svg::Document, morae: &Vec<Vec<char>>) -> (r: svg::Document)
    requires
        1 <= morae@.len() <= usize::MAX / 70,
        spec_classify(seq_view(morae@)) == PitchShape::Odaka,
    ensures
        doc_steps(r) == doc_steps(doc) + spec_accent_steps(seq_view(morae@)),
{
    let ghost ms = seq_view(morae@);
    let ghost base = doc_steps(doc);
    let n = morae.len();
    let mut d = draw_path(doc, 16, 40, PathType::Up, 35);
    d = draw_circle(d, 16, 40, false);
    let upto = if n >= 2 {
        n - 2
    } else {
        0
    };
    d = level_run(d, 1, upto, 0, 15);
    let last_i = if n >= 4 {
        n - 3
    } else {
        0
    };
    d = draw_path(d, 16 + (last_i + 1) * 35, 15, PathType::Down, 35);
    d = draw_circle(d, 16 + (last_i + 1) * 35, 15, false);
    d = draw_circle(d, 16 + (last_i + 2) * 35, 40, true);
    proof {
        assert(spec_level_run(1, upto as int, 0, 15) =~= spec_level_run(1, n - 2 as int, 0, 15));
        assert(doc_steps(d) =~= base + spec_accent_steps(ms));
    }
    d
}

/// Draw the nakadaka contour: a rise onto the second mora, high until the
/// drop marker's position, then low for the remainder.
#[verifier::rlimit(100)]
fn draw_nakadaka(doc: svg::Document, morae: &Vec<Vec<char>>) -> (r: svg::Document)
    requires
        1 <= morae@.len() <= usize::MAX / 70,
        spec_classify(seq_view(morae@)) == PitchShape::Nakadaka,
    ensures
        doc_steps(r) == doc_steps(doc) + spec_accent_steps(seq_view(morae@)),
{
    let ghost ms = seq_view(morae@);
    let ghost base = doc_steps(doc);
    let n = morae.len();
    let bs = str_to_chars("＼");
    proof {
        reveal_strlit("＼");
        assert(bs@ =~= seq!['＼']);
    }
    let mut d = draw_path(doc, 16, 40, PathType::Up, 35);
    d = draw_circle(d, 16, 40, false);
    // the first drop marker's position, or the word's length
    let mut t: usize = 0;
    while t < n && !crate::strutil::chars_eq(morae[t].as_slice(), bs.as_slice())
        invariant
            t <= n,
            n == ms.len(),
            n == morae@.len(),
            ms == seq_view(morae@),
            bs@ == seq!['＼'],
            forall|j: int| 0 <= j < t ==> ms[j] != seq!['＼'],
        decreases n - t,
    {
        t += 1;
    }
    proof {
        lemma_first_bs_at(ms, t as int);
    }
    let upto1 = if t >= 1 {
        t - 1
    } else {
        0
    };
    d = level_run(d, 1, upto1, 0, 15);
    let last_i = (if t >= 3 {
        t - 2
    } else {
        0
    }) + 1;
    d = draw_path(d, 16 + last_i * 35, 15, PathType::Down, 35);
    d = draw_circle(d, 16 + last_i * 35, 15, false);
    let upto2 = if n >= t + 1 {
        n - t - 1
    } else {
        0
    };
    d = level_run(d, 1, upto2, last_i, 40);
    let last_i2 = if n >= t + 3 {
        n - t - 2
    } else {
        0
    };
    d = draw_path(d, 16 + (last_i + last_i2 + 1) * 35, 40, PathType::Straight, 35);
    d = draw_circle(d, 16 + (last_i + last_i2 + 1) * 35, 40, false);
    d = draw_circle(d, 16 + (last_i + last_i2 + 2) * 35, 40, true);
    proof {
        let tt = spec_first_bs(ms);
        assert(spec_level_run(1, upto1 as int, 0, 15) =~= spec_level_run(1, tt - 1, 0, 15));
        assert(spec_level_run(1, upto2 as int, last_i as int, 40) =~= spec_level_run(
            1,
            n - tt - 1,
            last_i as int,
            40,
        ));
        assert(doc_steps(d) =~= base + spec_accent_steps(ms));
    }
    d
}

/// Synthesize the pitch-accent diagram of one tokenized accent word: the
/// document frame sized from the mora count, each drawn mora's label, and
/// the contour of the word's pitch shape, all as one self-contained vector
/// document.
#[verifier::rlimit(100)]
pub fn gen_svg(accent_word: &str) -> (r: String)
    requires
        1 <= accent_word@.len() <= usize::MAX / 70,
        spec_renderable(accent_word@),
    ensures
        r@ == svg_text_of(spec_gen_steps(accent_word@)),
{
    let chars = str_to_chars(accent_word);
    let morae = mora_chars(chars.as_slice());
    proof {
        lemma_mora_len(accent_word@);
        assert(seq_view(morae@).len() == morae@.len());
    }
    let n = morae.len();
    let ghost ms = seq_view(morae@);
    let svg_width = (n - 1) * 35 + 32;
    let mut doc = new_document();
    doc = doc_set_num(doc, "width", svg_width);
    doc = doc_set_num(doc, "height", 90);
    doc = doc_set_quad(doc, "viewBox", 0, 0, svg_width, 90);
    let ghost header = seq![
        DocStep::SetNum("width"@, svg_width as nat),
        DocStep::SetNum("height"@, 90nat),
        DocStep::SetQuad("viewBox"@, 0nat, 0nat, svg_width as nat, 90nat),
    ];
    proof {
        assert(doc_steps(doc) =~= header);
    }

    // the text labels of the drawn morae
    let mut i: usize = 0;
    let mut pos: usize = 0;
    proof {
        assert(ms.subrange(0, 0) =~= Seq::<Seq<char>>::empty());
        assert(doc_steps(doc) =~= header + spec_text_steps(ms.subrange(0, 0)));
    }
    while i < n
        invariant
            i <= n,
            n == ms.len(),
            n == morae@.len(),
            n <= usize::MAX / 70,
            ms == seq_view(morae@),
            ms == spec_mora(accent_word@),
            spec_renderable(accent_word@),
            pos == spec_drawn_count(ms.subrange(0, i as int)),
            pos <= i,
            doc_steps(doc) == header + spec_text_steps(ms.subrange(0, i as int)),
        decreases n - i,
    {
        proof {
            assert(ms.subrange(0, i + 1 as int).drop_last() =~= ms.subrange(0, i as int));
            assert(ms.subrange(0, i + 1 as int).last() == ms[i as int]);
        }
        if is_drawn(morae[i].as_slice()) {
            let x = 16 + pos * 35;
            let ghost before = doc_steps(doc);
            let label = crate::strutil::chars_to_string(morae[i].as_slice());
            doc = draw_mora(doc, label.as_str(), x - 11);
            proof {
                assert(before + spec_mora_text(ms[i as int], x - 11 as int) =~= header
                    + spec_text_steps(ms.subrange(0, i + 1 as int)));
            }
            pos = pos + 1;
        } else {
            proof {
                assert(spec_text_steps(ms.subrange(0, i + 1 as int)) =~= spec_text_steps(
                    ms.subrange(0, i as int),
                ));
            }
        }
        i += 1;
    }
    proof {
        assert(ms.subrange(0, n as int) =~= ms);
    }

    // the pitch contour of the word's shape
    let bs = str_to_chars("＼");
    let mac = str_to_chars("▔");
    proof {
        reveal_strlit("＼");
        reveal_strlit("▔");
        assert(bs@ =~= seq!['＼']);
        assert(mac@ =~= seq!['▔']);
    }
    if crate::strutil::chars_eq(morae[n - 1].as_slice(), mac.as_slice()) {
        proof {
            assert(ms.last() == ms[n - 1]);
            assert(spec_classify(ms) == PitchShape::Heiban);
        }
        doc = draw_heiban(doc, &morae);
    } else if n >= 2 && crate::strutil::chars_eq(morae[1].as_slice(), bs.as_slice()) {
        proof {
            assert(ms.last() == ms[n - 1]);
            assert(spec_classify(ms) == PitchShape::Atamadaka);
        }
        doc = draw_atamadaka(doc, &morae);
    } else if crate::strutil::chars_eq(morae[n - 1].as_slice(), bs.as_slice()) {
        proof {
            assert(ms.last() == ms[n - 1]);
            assert(spec_classify(ms) == PitchShape::Odaka);
        }
        doc = draw_odaka(doc, &morae);
    } else {
        proof {
            assert(ms.last() == ms[n - 1]);
            assert(spec_classify(ms) == PitchShape::Nakadaka);
        }
        doc = draw_nakadaka(doc, &morae);
    }
    proof {
        assert(doc_steps(doc) =~= spec_gen_steps(accent_word@));
    }
    doc_to_string(&doc)
}


/// A scan that stopped at `t` pins down the first drop marker's position.
proof fn lemma_first_bs_at(ms: Seq<Seq<char>>, t: int)
    requires
        0 <= t <= ms.len(),
        forall|j: int| 0 <= j < t ==> ms[j] != seq!['＼'],
        t < ms.len() ==> ms[t] == seq!['＼'],
    ensures
        spec_first_bs(ms) == t,
    decreases ms.len(),
{
    if ms.len() == 0 {
    } else if ms.first() == seq!['＼'] {
        assert(t == 0) by {
            if t > 0 {
                assert(ms[0] != seq!['＼']);
            }
        }
    } else {
        assert(t >= 1) by {
            if t == 0 {
                assert(ms[0] == seq!['＼']);
            }
        }
        assert(forall|j: int| 0 <= j < t - 1 ==> ms.drop_first()[j] != seq!['＼']);
        assert(t - 1 < ms.drop_first().len() ==> ms.drop_first()[t - 1] == seq!['＼']);
        lemma_first_bs_at(ms.drop_first(), t - 1);
    }
}

} // verus!
