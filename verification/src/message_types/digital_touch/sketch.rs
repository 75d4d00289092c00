//! Sketches: strokes drawn on the screen, each in one color.

use vstd::prelude::*;

use crate::error::digital_touch::DigitalTouchError;
use crate::message_types::digital_touch::models::{
    decode_points, le_u16_at, spec_decode_colors, spec_points, Color, Point,
};
use crate::message_types::digital_touch::models::color_at;
use crate::message_types::digital_touch::render::{rgba, rgba_text};
use crate::util::svg_canvas::{attrs_view, elem_text, SVGCanvas, SVGCanvasView};
use crate::util::text::{digits, join, joined, number_text};

verus! {

/// A Digital Touch sketch message: the strokes that were drawn
#[derive(Debug, Clone, PartialEq, Eq)]
pub struct DigitalTouchSketch {
    pub id: String,
    pub strokes: Vec<Vec<Point<Color>>>,
}

/// The value of a [`DigitalTouchSketch`].
pub struct DigitalTouchSketchView {
    pub id: Seq<char>,
    pub strokes: Seq<Seq<Point<Color>>>,
}

/// The values of a sequence of strokes.
pub open spec fn strokes_view(strokes: Seq<Vec<Point<Color>>>) -> Seq<Seq<Point<Color>>> {
    strokes.map_values(|s: Vec<Point<Color>>| s@)
}

impl View for DigitalTouchSketch {
    type V = DigitalTouchSketchView;

    open spec fn view(&self) -> DigitalTouchSketchView {
        DigitalTouchSketchView { id: self.id@, strokes: strokes_view(self.strokes@) }
    }
}

/// Whether strokes `k` to `count` can be read from `strokes` starting at byte `index`: each
/// is two bytes, a two-byte point count, then four bytes per point, and has a color.
pub open spec fn sketch_readable(
    strokes: Seq<u8>,
    n_colors: nat,
    count: nat,
    k: nat,
    index: nat,
) -> bool
    decreases count - k,
{
    if k >= count {
        true
    } else {
        let end = index + 4 + 4 * le_u16_at(strokes, (index + 2) as int);
        &&& index + 4 <= strokes.len()
        &&& k < n_colors
        &&& end <= strokes.len()
        &&& sketch_readable(strokes, n_colors, count, k + 1, end as nat)
    }
}

/// Strokes `k` to `count` read from `strokes` starting at byte `index`, each in its color.
pub open spec fn spec_strokes(
    strokes: Seq<u8>,
    colors: Seq<Color>,
    count: nat,
    k: nat,
    index: nat,
) -> Seq<Seq<Point<Color>>>
    decreases count - k,
{
    if k >= count {
        seq![]
    } else {
        let n = le_u16_at(strokes, (index + 2) as int);
        let start = index + 4;
        let end = start + 4 * n;
        seq![
            spec_points(
                strokes.subrange(start as int, end as int),
                Seq::new(n as nat, |i: int| colors[k as int]),
            ),
        ] + spec_strokes(strokes, colors, count, k + 1, end as nat)
    }
}

/// Strokes `k` on are each drawn in their own color: the `m`-th of them in color `k + m`.
proof fn lemma_strokes_colors_from(strokes: Seq<u8>, colors: Seq<Color>, count: nat, k: nat, index: nat)
    requires
        sketch_readable(strokes, colors.len(), count, k, index),
        k <= count,
    ensures
        spec_strokes(strokes, colors, count, k, index).len() == count - k,
        forall|m: int, j: int|
            0 <= m < count - k && 0 <= j < spec_strokes(strokes, colors, count, k, index)[m].len()
                ==> #[trigger] spec_strokes(strokes, colors, count, k, index)[m][j].extra == colors[k
                + m],
    decreases count - k,
{
    if k < count {
        let n = le_u16_at(strokes, (index + 2) as int);
        let end = index + 4 + 4 * n;
        let first = spec_points(
            strokes.subrange((index + 4) as int, end as int),
            Seq::new(n as nat, |i: int| colors[k as int]),
        );
        let rest = spec_strokes(strokes, colors, count, k + 1, end as nat);
        lemma_strokes_colors_from(strokes, colors, count, k + 1, end as nat);
        let all = spec_strokes(strokes, colors, count, k, index);
        assert(all == seq![first] + rest);
        assert forall|m: int, j: int|
            0 <= m < count - k && 0 <= j < all[m].len() implies #[trigger] all[m][j].extra
            == colors[k + m] by {
            if m > 0 {
                assert(all[m] == rest[m - 1]);
            }
        }
    }
}

/// Every point of stroke `k` of a decoded sketch carries the `k`-th color of the color bytes:
/// the four bytes `4k` to `4k + 3`, as red, green, blue and alpha. There is one stroke per
/// stroke counted.
pub proof fn lemma_stroke_colors(strokes: Seq<u8>, colors: Seq<u8>, count: nat)
    requires
        sketch_readable(strokes, spec_decode_colors(colors).len(), count, 0, 0),
    ensures
        spec_strokes(strokes, spec_decode_colors(colors), count, 0, 0).len() == count,
        forall|k: int, j: int|
            0 <= k < count && 0 <= j < spec_strokes(strokes, spec_decode_colors(colors), count, 0, 0)[k].len()
                ==> #[trigger] spec_strokes(strokes, spec_decode_colors(colors), count, 0, 0)[k][j].extra
                == (Color { r: colors[4 * k], g: colors[4 * k + 1], b: colors[4 * k + 2], a: colors[4 * k + 3] }),
{
    let c = spec_decode_colors(colors);
    lemma_strokes_colors_from(strokes, c, count, 0, 0);
    lemma_sketch_readable_colors(strokes, c.len(), count, 0, 0);
    assert forall|k: int, j: int|
        0 <= k < count && 0 <= j < spec_strokes(strokes, c, count, 0, 0)[k].len() implies #[trigger] spec_strokes(
        strokes,
        c,
        count,
        0,
        0,
    )[k][j].extra == (Color { r: colors[4 * k], g: colors[4 * k + 1], b: colors[4 * k + 2], a: colors[4 * k + 3] }) by {
        assert(k < c.len());
        assert(c[k] == color_at(colors, 4 * k));
    }
}

/// The first stroke of a decoded sketch has as many points as the little-endian count in
/// bytes 2 and 3 of the stroke bytes says, and its `j`-th point is at the little-endian `x`
/// in bytes `4 + 4j` and `5 + 4j` and `y` in bytes `6 + 4j` and `7 + 4j`.
pub proof fn lemma_first_stroke_points(strokes: Seq<u8>, colors: Seq<u8>, count: nat)
    requires
        count > 0,
        sketch_readable(strokes, spec_decode_colors(colors).len(), count, 0, 0),
    ensures
        ({
            let first = spec_strokes(strokes, spec_decode_colors(colors), count, 0, 0)[0];
            &&& first.len() == strokes[2] + 256 * strokes[3]
            &&& forall|j: int|
                0 <= j < first.len() ==> (#[trigger] first[j]).x == (strokes[4 + 4 * j] + 256
                    * strokes[5 + 4 * j]) as u16 && first[j].y == (strokes[6 + 4 * j] + 256
                    * strokes[7 + 4 * j]) as u16
        }),
{
    let c = spec_decode_colors(colors);
    let n = le_u16_at(strokes, 2);
    let raw = strokes.subrange(4, 4 + 4 * n);
    let first = spec_points(raw, Seq::new(n as nat, |i: int| c[0]));
    assert(spec_strokes(strokes, c, count, 0, 0)[0] == first);
    assert(n == strokes[2] + 256 * strokes[3]);
    assert forall|j: int| 0 <= j < first.len() implies (#[trigger] first[j]).x == (strokes[4 + 4
        * j] + 256 * strokes[5 + 4 * j]) as u16 && first[j].y == (strokes[6 + 4 * j] + 256
        * strokes[7 + 4 * j]) as u16 by {
        assert(raw[4 * j] == strokes[4 + 4 * j]);
        assert(raw[4 * j + 1] == strokes[5 + 4 * j]);
        assert(raw[4 * j + 2] == strokes[6 + 4 * j]);
        assert(raw[4 * j + 3] == strokes[7 + 4 * j]);
    }
}

/// A readable sketch has a color for each of its strokes.
proof fn lemma_sketch_readable_colors(strokes: Seq<u8>, n_colors: nat, count: nat, k: nat, index: nat)
    requires
        sketch_readable(strokes, n_colors, count, k, index),
    ensures
        k < count ==> count <= n_colors,
    decreases count - k,
{
    if k < count {
        let end = index + 4 + 4 * le_u16_at(strokes, (index + 2) as int);
        lemma_sketch_readable_colors(strokes, n_colors, count, k + 1, end as nat);
    }
}

/// `n` copies of a color.
fn repeat_color(color: Color, n: usize) -> (colors: Vec<Color>)
    ensures
        colors@ == Seq::new(n as nat, |i: int| color),
{
    let mut colors: Vec<Color> = Vec::new();
    let mut i: usize = 0;
    while i < n
        invariant
            i <= n,
            colors@ == Seq::new(i as nat, |j: int| color),
        decreases n - i,
    {
        colors.push(color);
        i += 1;
        proof {
            assert(colors@ =~= Seq::new(i as nat, |j: int| color));
        }
    }
    colors
}

impl DigitalTouchSketch {
    /// Builds a sketch message from the decoded fields of its payload: the number of strokes,
    /// the stroke bytes and the colors (four bytes each, one per stroke).
    pub fn from_payload(id: &str, strokes_count: usize, strokes: &[u8], colors: &[u8]) -> (sketch:
        Result<DigitalTouchSketch, DigitalTouchError>)
        requires
            colors@.len() % 4 == 0,
            sketch_readable(
                strokes@,
                spec_decode_colors(colors@).len(),
                strokes_count as nat,
                0,
                0,
            ),
        ensures
            sketch matches Ok(s) && s@ == (DigitalTouchSketchView {
                id: id@,
                strokes: spec_strokes(
                    strokes@,
                    spec_decode_colors(colors@),
                    strokes_count as nat,
                    0,
                    0,
                ),
            }),
    {
        let ghost c = spec_decode_colors(colors@);
        let colors = Color::decode_all(colors);
        let mut out: Vec<Vec<Point<Color>>> = Vec::new();
        let mut index: usize = 0;
        let mut stroke: usize = 0;
        let total = strokes.len();
        proof {
            assert(strokes_view(out@) =~= seq![]);
        }
        while stroke < strokes_count
            invariant
                colors@ == c,
                total == strokes@.len(),
                stroke <= strokes_count,
                sketch_readable(strokes@, c.len(), strokes_count as nat, stroke as nat, index as nat),
                spec_strokes(strokes@, c, strokes_count as nat, 0, 0) == strokes_view(out@)
                    + spec_strokes(strokes@, c, strokes_count as nat, stroke as nat, index as nat),
            decreases strokes_count - stroke,
        {
            let ghost rest = spec_strokes(strokes@, c, strokes_count as nat, (stroke + 1) as nat, 0);
            assert(index + 4 <= total);
            index += 2;
            let point_count = (strokes[index] as u16 + 256 * (strokes[index + 1] as u16)) as usize;
            index += 2;
            let num_bytes = point_count * 4;
            let stroke_color = repeat_color(colors[stroke], point_count);
            let part = &strokes[index..index + num_bytes];
            let points = decode_points(part, stroke_color)?;
            let ghost before = strokes_view(out@);
            out.push(points);
            proof {
                assert(part@ =~= strokes@.subrange(index as int, (index + num_bytes) as int));
                assert(strokes_view(out@) =~= before.push(points@));
                assert(Seq::new(point_count as nat, |i: int| colors@[stroke as int]) =~= Seq::new(
                    point_count as nat,
                    |i: int| c[stroke as int],
                ));
            }
            index += num_bytes;
            stroke += 1;
        }
        proof {
            assert(strokes_view(out@) + seq![] =~= strokes_view(out@));
        }
        Ok(DigitalTouchSketch { id: id.to_owned(), strokes: out })
    }
}

/// The text of a place on the canvas: `x,y`.
pub open spec fn place_text(p: (usize, usize)) -> Seq<char> {
    digits(p.0 as nat, 10) + ","@ + digits(p.1 as nat, 10)
}

/// The polyline of one stroke, through its places, in the color of its first point.
pub open spec fn stroke_elem(stroke: Seq<Point<Color>>, places: Seq<(usize, usize)>) -> Seq<char> {
    elem_text(
        "polyline"@,
        seq![
            ("points"@, joined(places.map_values(|p: (usize, usize)| place_text(p)), " "@)),
            ("stroke-width"@, "10px"@),
            ("fill"@, "none"@),
            ("stroke"@, rgba_text(stroke[0].extra)),
        ],
        None,
    )
}

/// The polylines of the first `n` strokes.
pub open spec fn strokes_text(
    strokes: Seq<Seq<Point<Color>>>,
    places: Seq<Seq<(usize, usize)>>,
    n: int,
) -> Seq<char>
    decreases n,
{
    if n <= 0 || n > strokes.len() {
        seq![]
    } else {
        strokes_text(strokes, places, n - 1) + stroke_elem(strokes[n - 1], places[n - 1])
    }
}

/// The values of the places of the strokes.
pub open spec fn places_view(places: Seq<Vec<(usize, usize)>>) -> Seq<Seq<(usize, usize)>> {
    places.map_values(|p: Vec<(usize, usize)>| p@)
}

impl DigitalTouchSketch {
    /// Draws each stroke as a line through its places, which are its points fitted to the
    /// canvas; every stroke must have a point
    pub fn render_svg(&self, canvas: &mut SVGCanvas, places: &[Vec<(usize, usize)>])
        requires
            old(canvas).wf(),
            places@.len() == self.strokes@.len(),
            forall|k: int|
                0 <= k < self.strokes@.len() ==> (#[trigger] self.strokes@[k])@.len() > 0,
        ensures
            final(canvas).wf(),
            final(canvas)@ == (SVGCanvasView {
                canvas: old(canvas)@.canvas + strokes_text(
                    strokes_view(self.strokes@),
                    places_view(places@),
                    self.strokes@.len() as int,
                ),
                ..old(canvas)@
            }),
    {
        let ghost start = canvas@;
        let ghost all = strokes_view(self.strokes@);
        let mut i: usize = 0;
        while i < self.strokes.len()
            invariant
                i <= self.strokes@.len(),
                places@.len() == self.strokes@.len(),
                all == strokes_view(self.strokes@),
                forall|k: int|
                    0 <= k < self.strokes@.len() ==> (#[trigger] self.strokes@[k])@.len() > 0,
                canvas.wf(),
                canvas@ == (SVGCanvasView {
                    canvas: start.canvas + strokes_text(all, places_view(places@), i as int),
                    ..start
                }),
            decreases self.strokes@.len() - i,
        {
            let stroke = &self.strokes[i];
            let stroke_places = &places[i];
            let mut texts: Vec<String> = Vec::new();
            let mut k: usize = 0;
            while k < stroke_places.len()
                invariant
                    k <= stroke_places@.len(),
                    texts@.len() == k,
                    texts@.map_values(|t: String| t@) == stroke_places@.map_values(
                        |p: (usize, usize)| place_text(p),
                    ).take(k as int),
                decreases stroke_places@.len() - k,
            {
                let (x, y) = stroke_places[k];
                let mut text = number_text(x as u64, 10);
                text.append(",");
                text.append(number_text(y as u64, 10).as_str());
                let ghost before = texts@;
                texts.push(text);
                proof {
                    assert(texts@ == before.push(texts@[k as int]));
                    assert(texts@.map_values(|t: String| t@) =~= stroke_places@.map_values(
                        |p: (usize, usize)| place_text(p),
                    ).take(k + 1));
                }
                k += 1;
            }
            proof {
                assert(stroke_places@.map_values(|p: (usize, usize)| place_text(p)).take(
                    stroke_places@.len() as int,
                ) =~= stroke_places@.map_values(|p: (usize, usize)| place_text(p)));
                assert(stroke@.len() > 0);
            }
            let attrs: Vec<(&str, String)> = vec![
                ("points", join(texts.as_slice(), " ")),
                ("stroke-width", "10px".to_owned()),
                ("fill", "none".to_owned()),
                ("stroke", rgba(&stroke[0].extra)),
            ];
            proof {
                assert(attrs_view(attrs@) =~= seq![
                    (
                        "points"@,
                        joined(stroke_places@.map_values(|p: (usize, usize)| place_text(p)), " "@),
                    ),
                    ("stroke-width"@, "10px"@),
                    ("fill"@, "none"@),
                    ("stroke"@, rgba_text(stroke@[0].extra)),
                ]);
            }
            canvas.write_elem("polyline", attrs, None);
            proof {
                assert(all[i as int] == stroke@);
                assert(places_view(places@)[i as int] == stroke_places@);
                assert(start.canvas + strokes_text(all, places_view(places@), i + 1) =~= start.canvas
                    + strokes_text(all, places_view(places@), i as int) + stroke_elem(
                    stroke@,
                    stroke_places@,
                ));
            }
            i += 1;
        }
    }
}

} // verus!
