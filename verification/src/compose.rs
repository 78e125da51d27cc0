//! The composer: given only a canvas size, computes the scene — three
//! corners of a rounded equilateral triangle, three gradient badges, a
//! diagonal highlight band — and emits the complete markup document.
//!
//! The scene is driven by one immutable configuration value holding the
//! fixed constant table; re-running the composer on the same canvas size
//! yields byte-identical output, which its contract states exactly.

use vstd::prelude::*;

verus! {

use crate::num::{rdiv, lerp, rdiv_i64};
use crate::geom::{
    Point,
    place_spec,
    place_on_circle,
    sqrt2_half,
    sqrt2_half_i64,
    sqrt3_half,
    intersect_spec,
    intersect,
    lemma_intersect_translate,
    iabs,
};
use crate::path::{
    PathBuilder,
    move_str,
    line_str,
    cubic_str,
    path_grammar_ok,
    lemma_move_str_chars,
    lemma_line_str_chars,
    lemma_cubic_str_chars,
    lemma_append_path_chars,
};
use crate::decimal::fmt_millis;
use crate::num::{millis_of, millis_i64};
use crate::decimal::append_millis;
use crate::markup::{
    Writer,
    AttrVal,
    attr_str,
    tag_open,
    tag_empty,
    tag_close,
    header_str,
    lemma_attrs0,
    lemma_attrs1,
    lemma_attrs2,
    lemma_attrs4,
    lemma_attrs5,
};

/// The fixed constant table of the scene, as one immutable configuration
/// value: triangle radius, badge placement, rounding fractions (in
/// thousandths of an edge), all lengths in micro-units.
pub struct Config {
    /// Radius of the circle on which the three corners lie.
    pub radius: i64,
    /// Distance of each badge center from the canvas center.
    pub badge_distance: i64,
    /// Radius of each badge circle.
    pub badge_radius: i64,
    /// Where along an edge the rounded corner ends, in thousandths.
    pub round_start: i64,
    /// Where along an edge the rounded corner begins, in thousandths.
    pub round_end: i64,
}

impl Config {
    /// The configuration invariant: rounding fractions lie strictly inside
    /// the edge and leave room for the control-point offset of 125
    /// thousandths; lengths are positive and bounded.
    pub open spec fn wf(self) -> bool {
        125 <= self.round_start < self.round_end <= 875 && self.round_end == 1000
            - self.round_start && 0 < self.radius <= 100_000_000_000 && 0 < self.badge_distance
            <= 100_000_000_000 && 0 < self.badge_radius <= 1_000_000_000
    }

    /// The standard brand-mark configuration.
    pub fn standard() -> (c: Config)
        ensures
            c.wf(),
            c.radius == 690_000_000,
            c.badge_distance == 240_000_000,
            c.badge_radius == 170_000_000,
            c.round_start == 300,
            c.round_end == 700,
    {
        Config {
            radius: 690_000_000,
            badge_distance: 240_000_000,
            badge_radius: 170_000_000,
            round_start: 300,
            round_end: 700,
        }
    }
}

/// Linear interpolation between two spec points, parameter in thousandths.
pub open spec fn pl(a: (int, int), b: (int, int), t: int) -> (int, int) {
    (lerp(a.0, b.0, t), lerp(a.1, b.1, t))
}

/// The spec view of an executable point.
pub open spec fn pv(p: Point) -> (int, int) {
    (p.x as int, p.y as int)
}

/// Corner `i` of the triangle around center `(cx, cy)`.
pub open spec fn corner_s(cx: int, cy: int, i: int) -> (int, int) {
    place_spec(cx, cy, 690_000_000, i)
}

/// Center of badge `i` around center `(cx, cy)`.
pub open spec fn badge_s(cx: int, cy: int, i: int) -> (int, int) {
    place_spec(cx, cy, 240_000_000, i)
}

/// The magnitude of both components of the diagonal band direction: the
/// badge radius scaled by `sqrt(2) / 2`.
pub open spec fn diag_s() -> int {
    sqrt2_half(170_000_000)
}

/// The path text of the rounded triangle through corners `c0, c1, c2`:
/// a move to the rounding start of the first edge, then for each corner a
/// cubic whose control points sit 125 thousandths outside the rounding
/// points, with a straight line along each edge except the closing one.
pub open spec fn tri_path_spec(c0: (int, int), c1: (int, int), c2: (int, int), rs: int, re: int) -> Seq<char> {
    move_str(pl(c2, c0, re).0, pl(c2, c0, re).1) + cubic_str(
        pl(c2, c0, re + 125).0,
        pl(c2, c0, re + 125).1,
        pl(c0, c1, rs - 125).0,
        pl(c0, c1, rs - 125).1,
        pl(c0, c1, rs).0,
        pl(c0, c1, rs).1,
    ) + line_str(pl(c0, c1, re).0, pl(c0, c1, re).1) + cubic_str(
        pl(c0, c1, re + 125).0,
        pl(c0, c1, re + 125).1,
        pl(c1, c2, rs - 125).0,
        pl(c1, c2, rs - 125).1,
        pl(c1, c2, rs).0,
        pl(c1, c2, rs).1,
    ) + line_str(pl(c1, c2, re).0, pl(c1, c2, re).1) + cubic_str(
        pl(c1, c2, re + 125).0,
        pl(c1, c2, re + 125).1,
        pl(c2, c0, rs - 125).0,
        pl(c2, c0, rs - 125).1,
        pl(c2, c0, rs).0,
        pl(c2, c0, rs).1,
    ) + seq!['Z']
}

/// Whether a point is within the scene's working range.
pub open spec fn scene_range(p: Point) -> bool {
    -100_000_000_000 <= p.x <= 100_000_000_000 && -100_000_000_000 <= p.y <= 100_000_000_000
}

/// Builds the rounded-triangle path text.
pub fn rounded_triangle_path(c0: Point, c1: Point, c2: Point, rs: i64, re: i64) -> (s: String)
    requires
        scene_range(c0),
        scene_range(c1),
        scene_range(c2),
        125 <= rs <= 500,
        re == 1000 - rs,
    ensures
        s@ == tri_path_spec(pv(c0), pv(c1), pv(c2), rs as int, re as int),
{
    let mut b = PathBuilder::new();
    b.move_to(crate::geom::lerp_point(c2, c0, re));
    b.cubic_to(
        crate::geom::lerp_point(c2, c0, re + 125),
        crate::geom::lerp_point(c0, c1, rs - 125),
        crate::geom::lerp_point(c0, c1, rs),
    );
    b.line_to(crate::geom::lerp_point(c0, c1, re));
    b.cubic_to(
        crate::geom::lerp_point(c0, c1, re + 125),
        crate::geom::lerp_point(c1, c2, rs - 125),
        crate::geom::lerp_point(c1, c2, rs),
    );
    b.line_to(crate::geom::lerp_point(c1, c2, re));
    b.cubic_to(
        crate::geom::lerp_point(c1, c2, re + 125),
        crate::geom::lerp_point(c2, c0, rs - 125),
        crate::geom::lerp_point(c2, c0, rs),
    );
    b.close();
    let s = b.finish();
    proof {
        assert(s@ =~= tri_path_spec(pv(c0), pv(c1), pv(c2), rs as int, re as int));
    }
    s
}

/// The upper intersection of the highlight band's edge with the first
/// triangle edge.
pub open spec fn shadow_top_spec(c0: (int, int), c1: (int, int), red: (int, int), dg: int) -> Option<(int, int)> {
    intersect_spec(red.0 + dg, red.1 - dg, red.0 + 2 * dg, red.1, c0.0, c0.1, c1.0, c1.1)
}

/// The lower intersection of the highlight band's edge with the second
/// triangle edge.
pub open spec fn shadow_bottom_spec(c1: (int, int), c2: (int, int), blue: (int, int), dg: int) -> Option<(int, int)> {
    intersect_spec(blue.0 - dg, blue.1 + dg, blue.0, blue.1 + 2 * dg, c1.0, c1.1, c2.0, c2.1)
}

/// An option's point, or the origin; only applied where the option is
/// proven to hold a point.
pub open spec fn uw(o: Option<(int, int)>) -> (int, int) {
    match o {
        Option::Some(p) => p,
        Option::None => (0, 0),
    }
}

/// The path text of the diagonal highlight band: from the upper edge
/// intersection around the two end badges to the lower edge intersection,
/// closed by the rounded corner of the lower-left vertex.
pub open spec fn shadow_path_text(
    c0: (int, int),
    c1: (int, int),
    c2: (int, int),
    red: (int, int),
    blue: (int, int),
    dg: int,
    rs: int,
    re: int,
) -> Seq<char> {
    let top = uw(shadow_top_spec(c0, c1, red, dg));
    let bottom = uw(shadow_bottom_spec(c1, c2, blue, dg));
    let h3 = rdiv(3 * dg, 2);
    move_str(top.0, top.1) + line_str(red.0 + dg, red.1 - dg) + line_str(red.0 - dg, red.1 + dg)
        + line_str(red.0 + dg, red.1 + 3 * dg) + line_str(blue.0 + dg + h3, blue.1 - dg + h3)
        + line_str(blue.0 + dg, blue.1 - dg) + line_str(blue.0 - dg, blue.1 + dg) + line_str(
        bottom.0,
        bottom.1,
    ) + line_str(pl(c2, c1, re).0, pl(c2, c1, re).1) + cubic_str(
        pl(c2, c1, re + 125).0,
        pl(c2, c1, re + 125).1,
        pl(c1, c0, rs - 125).0,
        pl(c1, c0, rs - 125).1,
        pl(c1, c0, rs).0,
        pl(c1, c0, rs).1,
    ) + seq!['Z']
}

/// Builds the highlight-band path text.  The caller must have established
/// that neither edge intersection is degenerate and that both lie within
/// the builder's coordinate range; the composer proves this for every
/// canvas size.
pub fn shadow_path(
    c0: Point,
    c1: Point,
    c2: Point,
    red: Point,
    blue: Point,
    dg: i64,
    rs: i64,
    re: i64,
) -> (s: String)
    requires
        scene_range(c0),
        scene_range(c1),
        scene_range(c2),
        scene_range(red),
        scene_range(blue),
        0 <= dg <= 1_000_000_000,
        125 <= rs <= 500,
        re == 1000 - rs,
        match shadow_top_spec(pv(c0), pv(c1), pv(red), dg as int) {
            Option::Some(p) => -1_000_000_000_000_000 <= p.0 <= 1_000_000_000_000_000
                && -1_000_000_000_000_000 <= p.1 <= 1_000_000_000_000_000,
            Option::None => false,
        },
        match shadow_bottom_spec(pv(c1), pv(c2), pv(blue), dg as int) {
            Option::Some(p) => -1_000_000_000_000_000 <= p.0 <= 1_000_000_000_000_000
                && -1_000_000_000_000_000 <= p.1 <= 1_000_000_000_000_000,
            Option::None => false,
        },
    ensures
        s@ == shadow_path_text(pv(c0), pv(c1), pv(c2), pv(red), pv(blue), dg as int, rs as int, re as int),
{
    let a1 = Point { x: red.x + dg, y: red.y - dg };
    let a2 = Point { x: red.x + 2 * dg, y: red.y };
    let top = match intersect(a1, a2, c0, c1) {
        Option::Some(t) => t,
        Option::None => {
            proof {
                assert(false);
            }
            Point { x: 0, y: 0 }
        },
    };
    let b1 = Point { x: blue.x - dg, y: blue.y + dg };
    let b2 = Point { x: blue.x, y: blue.y + 2 * dg };
    let bottom = match intersect(b1, b2, c1, c2) {
        Option::Some(t) => t,
        Option::None => {
            proof {
                assert(false);
            }
            Point { x: 0, y: 0 }
        },
    };
    let h3 = rdiv_i64(3 * dg, 2);
    let mut b = PathBuilder::new();
    b.move_to(top);
    b.line_to(Point { x: red.x + dg, y: red.y - dg });
    b.line_to(Point { x: red.x - dg, y: red.y + dg });
    b.line_to(Point { x: red.x + dg, y: red.y + 3 * dg });
    b.line_to(Point { x: blue.x + dg + h3, y: blue.y - dg + h3 });
    b.line_to(Point { x: blue.x + dg, y: blue.y - dg });
    b.line_to(Point { x: blue.x - dg, y: blue.y + dg });
    b.line_to(bottom);
    b.line_to(crate::geom::lerp_point(c2, c1, re));
    b.cubic_to(
        crate::geom::lerp_point(c2, c1, re + 125),
        crate::geom::lerp_point(c1, c0, rs - 125),
        crate::geom::lerp_point(c1, c0, rs),
    );
    b.close();
    let s = b.finish();
    proof {
        assert(s@ =~= shadow_path_text(
            pv(c0),
            pv(c1),
            pv(c2),
            pv(red),
            pv(blue),
            dg as int,
            rs as int,
            re as int,
        ));
    }
    s
}

/// For every canvas center, the upper band edge meets the first triangle
/// edge in a well-conditioned intersection close to the center.
pub proof fn lemma_shadow_top_ok(cx: int, cy: int)
    ensures
        match shadow_top_spec(corner_s(cx, cy, 0), corner_s(cx, cy, 1), badge_s(cx, cy, 0), diag_s()) {
            Option::Some(p) => cx - 10_000_000_000 <= p.0 <= cx + 10_000_000_000 && cy
                - 10_000_000_000 <= p.1 <= cy + 10_000_000_000,
            Option::None => false,
        },
{
    assert(diag_s() == 120208153) by {
        assert(170000000int * 1414213562373 == 240416305603410000000);
        assert((2 * 240416305603410000000int + 2000000000000) / (2int * 2000000000000)
            == 120208153);
    }
    assert(sqrt3_half(690_000_000) == 597557529) by {
        assert(690000000int * 1732050807569 == 1195115057222610000000);
        assert((2 * 1195115057222610000000int + 2000000000000) / (2int * 2000000000000)
            == 597557529);
    }
    assert(rdiv(690_000_000, 2) == 345_000_000) by {
        assert((2 * 690000000int + 2) / (2int * 2) == 345000000);
    }
    lemma_intersect_translate(
        cx,
        cy,
        120208153,
        -360208153,
        240416306,
        -240000000,
        0,
        -690000000,
        597557529,
        345000000,
    );
    assert(intersect_spec(
        120208153,
        -360208153,
        240416306,
        -240000000,
        0,
        -690000000,
        597557529,
        345000000,
    ) == Option::Some((286296651int, -194119655int))) by {
        assert((-120208153int) * (-1035000000) == 124415438355000000);
        assert((-120208153int) * (-597557529) == 71831286872333937);
        assert(crate::geom::det_spec(
            120208153,
            -360208153,
            240416306,
            -240000000,
            0,
            -690000000,
            597557529,
            345000000,
        ) == 52584151482666063);
        assert(120208153int * (-1035000000) == -124415438355000000);
        assert(329791847int * (-597557529) == -197069601177666063);
        assert((120208153int - 0) * ((-690000000int) - 345000000) - ((-360208153int)
            - (-690000000)) * (0int - 597557529) == 72654162822666063);
        assert(72654162822666063int * 120208153 == 8733622720673953969011639);
        assert((2 * 8733622720673953969011639int + 52584151482666063) / (2int
            * 52584151482666063) == 166088498);
        assert(crate::num::rdiv_s(8733622720673953969011639, 52584151482666063) == 166088498);
    }
}

/// For every canvas center, the lower band edge meets the second triangle
/// edge in a well-conditioned intersection close to the center.
pub proof fn lemma_shadow_bottom_ok(cx: int, cy: int)
    ensures
        match shadow_bottom_spec(corner_s(cx, cy, 1), corner_s(cx, cy, 2), badge_s(cx, cy, 2), diag_s()) {
            Option::Some(p) => cx - 10_000_000_000 <= p.0 <= cx + 10_000_000_000 && cy
                - 10_000_000_000 <= p.1 <= cy + 10_000_000_000,
            Option::None => false,
        },
{
    assert(diag_s() == 120208153) by {
        assert(170000000int * 1414213562373 == 240416305603410000000);
        assert((2 * 240416305603410000000int + 2000000000000) / (2int * 2000000000000)
            == 120208153);
    }
    assert(sqrt3_half(690_000_000) == 597557529) by {
        assert(690000000int * 1732050807569 == 1195115057222610000000);
        assert((2 * 1195115057222610000000int + 2000000000000) / (2int * 2000000000000)
            == 597557529);
    }
    assert(sqrt3_half(240_000_000) == 207846097) by {
        assert(240000000int * 1732050807569 == 415692193816560000000);
        assert((2 * 415692193816560000000int + 2000000000000) / (2int * 2000000000000)
            == 207846097);
    }
    assert(rdiv(690_000_000, 2) == 345_000_000) by {
        assert((2 * 690000000int + 2) / (2int * 2) == 345000000);
    }
    assert(rdiv(240_000_000, 2) == 120_000_000) by {
        assert((2 * 240000000int + 2) / (2int * 2) == 120000000);
    }
    lemma_intersect_translate(
        cx,
        cy,
        -328054250,
        240208153,
        -207846097,
        360416306,
        597557529,
        345000000,
        -597557529,
        345000000,
    );
    assert(intersect_spec(
        -328054250,
        240208153,
        -207846097,
        360416306,
        597557529,
        345000000,
        -597557529,
        345000000,
    ) == Option::Some((-223262403int, 345000000int))) by {
        assert((-120208153int) * (345000000int - 345000000) == 0);
        assert((-120208153int) * (597557529int - (-597557529)) == -143662573744667874);
        assert(crate::geom::det_spec(
            -328054250,
            240208153,
            -207846097,
            360416306,
            597557529,
            345000000,
            -597557529,
            345000000,
        ) == 143662573744667874);
        assert(((-328054250int) - 597557529) * (345000000int - 345000000) == 0);
        assert((240208153int - 345000000) * (597557529int - (-597557529)) ==
            -125238314305332126);
        assert(((-328054250int) - 597557529) * (345000000int - 345000000) - (240208153int
            - 345000000) * (597557529int - (-597557529)) == 125238314305332126);
        assert(125238314305332126int * 120208153 == 15054666447477452918023278);
        assert((2 * 15054666447477452918023278int + 143662573744667874) / (2int
            * 143662573744667874) == 104791847);
        assert(crate::num::rdiv_s(15054666447477452918023278, 143662573744667874) == 104791847);
    }
}

/// The value of the root element's `viewBox` attribute.
pub open spec fn viewbox_val(w: int, h: int) -> Seq<char> {
    "0 0 "@ + fmt_millis(w) + " "@ + fmt_millis(h)
}

/// The opening root element with its view box and namespace.
pub open spec fn svg_open_text(w: int, h: int) -> Seq<char> {
    tag_open(
        "svg"@,
        attr_str("viewBox"@, viewbox_val(w, h)) + attr_str("xmlns"@, "http://www.w3.org/2000/svg"@),
    )
}

/// One two-stop linear gradient definition with a quarter-turn transform.
pub open spec fn gradient_text(id: Seq<char>, top: Seq<char>, bottom: Seq<char>) -> Seq<char> {
    tag_open("linearGradient"@, attr_str("id"@, id) + attr_str("gradientTransform"@, "rotate(90)"@))
        + tag_empty("stop"@, attr_str("stop-color"@, top)) + tag_empty(
        "stop"@,
        attr_str("offset"@, "1"@) + attr_str("stop-color"@, bottom),
    ) + tag_close("linearGradient"@)
}

/// The drop-shadow filter definition: offset, blur into a named result,
/// flood, composite against the blur, composite against the source.
pub open spec fn filter_text() -> Seq<char> {
    tag_open("filter"@, attr_str("id"@, "s"@)) + tag_empty("feOffset"@, attr_str("dy"@, "10"@))
        + tag_empty(
        "feGaussianBlur"@,
        attr_str("result"@, "b"@) + attr_str("stdDeviation"@, "20"@),
    ) + tag_empty("feFlood"@, attr_str("flood-opacity"@, ".8"@)) + tag_empty(
        "feComposite"@,
        attr_str("in2"@, "b"@) + attr_str("operator"@, "in"@),
    ) + tag_empty("feComposite"@, attr_str("in"@, "SourceGraphic"@)) + tag_close("filter"@)
}

/// The outline path of the standard scene around center `(cx, cy)`.
pub open spec fn tri_text(cx: int, cy: int) -> Seq<char> {
    tri_path_spec(corner_s(cx, cy, 0), corner_s(cx, cy, 1), corner_s(cx, cy, 2), 300, 700)
}

/// The highlight-band path of the standard scene around center `(cx, cy)`.
pub open spec fn shadow_text(cx: int, cy: int) -> Seq<char> {
    shadow_path_text(
        corner_s(cx, cy, 0),
        corner_s(cx, cy, 1),
        corner_s(cx, cy, 2),
        badge_s(cx, cy, 0),
        badge_s(cx, cy, 2),
        diag_s(),
        300,
        700,
    )
}

/// The definitions block: three gradients, the filter, and the reusable
/// outline path with path text `d`.
pub open spec fn defs_text(d: Seq<char>) -> Seq<char> {
    tag_open("defs"@, Seq::empty()) + gradient_text("r"@, "#D73F4A"@, "#C22B36"@) + gradient_text(
        "g"@,
        "#3FCD46"@,
        "#27BB2E"@,
    ) + gradient_text("b"@, "#3F5CD7"@, "#2B48C2"@) + filter_text() + tag_empty(
        "path"@,
        attr_str("id"@, "t"@) + attr_str("d"@, d),
    ) + tag_close("defs"@)
}

/// The base silhouette: a solid dark reference-use of the outline.
pub open spec fn use_fill_text() -> Seq<char> {
    tag_empty("use"@, attr_str("href"@, "#t"@) + attr_str("fill"@, "#404040"@))
}

/// The highlight band element with path text `d` and low fill opacity.
pub open spec fn shadow_elem_text(d: Seq<char>) -> Seq<char> {
    tag_empty("path"@, attr_str("d"@, d) + attr_str("fill-opacity"@, ".125"@))
}

/// One badge circle at `p`, filled by a gradient reference.
pub open spec fn circle_text(p: (int, int), url: Seq<char>) -> Seq<char> {
    tag_empty(
        "circle"@,
        attr_str("cx"@, fmt_millis(millis_of(p.0))) + attr_str("cy"@, fmt_millis(millis_of(p.1)))
            + attr_str("r"@, "170"@) + attr_str("fill"@, url),
    )
}

/// The highlighted rim: a stroked, shadow-filtered reference-use of the
/// outline.
pub open spec fn rim_text() -> Seq<char> {
    tag_empty(
        "use"@,
        attr_str("href"@, "#t"@) + attr_str("fill"@, "none"@) + attr_str("stroke"@, "#FFF"@)
            + attr_str("stroke-width"@, "40"@) + attr_str("filter"@, "url(#s)"@),
    )
}

/// The complete document for a canvas of `w` by `h` milli-units: the
/// preamble, the root element, the definitions, the silhouette, the
/// highlight band, the three badges and the rim, fully closed.
pub open spec fn document_text(w: int, h: int) -> Seq<char> {
    let cx = w * 500;
    let cy = h * 500 + 55_000_000;
    header_str() + svg_open_text(w, h) + defs_text(tri_text(cx, cy)) + use_fill_text()
        + shadow_elem_text(shadow_text(cx, cy)) + circle_text(badge_s(cx, cy, 0), "url(#r)"@)
        + circle_text(badge_s(cx, cy, 1), "url(#g)"@) + circle_text(badge_s(cx, cy, 2), "url(#b)"@)
        + rim_text() + tag_close("svg"@)
}

/// Writes one gradient definition.
fn write_gradient(wr: &mut Writer, id: &str, top: &str, bottom: &str)
    ensures
        final(wr).text() == old(wr).text() + gradient_text(id@, top@, bottom@),
        final(wr).open_tags() == old(wr).open_tags(),
{
    let mut a: Vec<(&str, AttrVal)> = Vec::new();
    a.push(("id", AttrVal::Pre(id)));
    a.push(("gradientTransform", AttrVal::Pre("rotate(90)")));
    wr.open_tag("linearGradient", a.as_slice());
    proof {
        lemma_attrs2(a@);
    }
    let mut b: Vec<(&str, AttrVal)> = Vec::new();
    b.push(("stop-color", AttrVal::Pre(top)));
    wr.empty_tag("stop", b.as_slice());
    proof {
        lemma_attrs1(b@);
    }
    let mut c: Vec<(&str, AttrVal)> = Vec::new();
    c.push(("offset", AttrVal::Pre("1")));
    c.push(("stop-color", AttrVal::Pre(bottom)));
    wr.empty_tag("stop", c.as_slice());
    proof {
        lemma_attrs2(c@);
    }
    wr.close_tag();
    proof {
        assert(wr.text() =~= old(wr).text() + gradient_text(id@, top@, bottom@));
        assert(wr.open_tags() =~= old(wr).open_tags());
    }
}

/// Writes the drop-shadow filter definition.
#[verifier::rlimit(100)]
fn write_filter(wr: &mut Writer)
    ensures
        final(wr).text() == old(wr).text() + filter_text(),
        final(wr).open_tags() == old(wr).open_tags(),
{
    let mut a: Vec<(&str, AttrVal)> = Vec::new();
    a.push(("id", AttrVal::Pre("s")));
    wr.open_tag("filter", a.as_slice());
    proof {
        lemma_attrs1(a@);
    }
    let mut b: Vec<(&str, AttrVal)> = Vec::new();
    b.push(("dy", AttrVal::Pre("10")));
    wr.empty_tag("feOffset", b.as_slice());
    proof {
        lemma_attrs1(b@);
    }
    let mut c: Vec<(&str, AttrVal)> = Vec::new();
    c.push(("result", AttrVal::Pre("b")));
    c.push(("stdDeviation", AttrVal::Pre("20")));
    wr.empty_tag("feGaussianBlur", c.as_slice());
    proof {
        lemma_attrs2(c@);
    }
    let mut d: Vec<(&str, AttrVal)> = Vec::new();
    d.push(("flood-opacity", AttrVal::Pre(".8")));
    wr.empty_tag("feFlood", d.as_slice());
    proof {
        lemma_attrs1(d@);
    }
    let mut e: Vec<(&str, AttrVal)> = Vec::new();
    e.push(("in2", AttrVal::Pre("b")));
    e.push(("operator", AttrVal::Pre("in")));
    wr.empty_tag("feComposite", e.as_slice());
    proof {
        lemma_attrs2(e@);
    }
    let mut f: Vec<(&str, AttrVal)> = Vec::new();
    f.push(("in", AttrVal::Pre("SourceGraphic")));
    wr.empty_tag("feComposite", f.as_slice());
    proof {
        lemma_attrs1(f@);
    }
    wr.close_tag();
    proof {
        assert(wr.text() =~= old(wr).text() + filter_text());
        assert(wr.open_tags() =~= old(wr).open_tags());
    }
}

/// Writes the definitions block around the given outline path text.
#[verifier::rlimit(100)]
fn write_defs(wr: &mut Writer, tri_d: &str)
    ensures
        final(wr).text() == old(wr).text() + defs_text(tri_d@),
        final(wr).open_tags() == old(wr).open_tags(),
{
    let none: Vec<(&str, AttrVal)> = Vec::new();
    wr.open_tag("defs", none.as_slice());
    proof {
        lemma_attrs0(none@);
    }
    write_gradient(wr, "r", "#D73F4A", "#C22B36");
    write_gradient(wr, "g", "#3FCD46", "#27BB2E");
    write_gradient(wr, "b", "#3F5CD7", "#2B48C2");
    write_filter(wr);
    let mut a: Vec<(&str, AttrVal)> = Vec::new();
    a.push(("id", AttrVal::Pre("t")));
    a.push(("d", AttrVal::Pre(tri_d)));
    wr.empty_tag("path", a.as_slice());
    proof {
        lemma_attrs2(a@);
    }
    wr.close_tag();
    proof {
        assert(wr.text() =~= old(wr).text() + defs_text(tri_d@));
        assert(wr.open_tags() =~= old(wr).open_tags());
    }
}

/// Writes one badge circle.
fn write_circle(wr: &mut Writer, p: Point, url: &str)
    requires
        scene_range(p),
    ensures
        final(wr).text() == old(wr).text() + circle_text(pv(p), url@),
        final(wr).open_tags() == old(wr).open_tags(),
{
    let mut cxs = String::new();
    append_millis(&mut cxs, millis_i64(p.x));
    let mut cys = String::new();
    append_millis(&mut cys, millis_i64(p.y));
    proof {
        assert(cxs@ =~= fmt_millis(millis_of(p.x as int)));
        assert(cys@ =~= fmt_millis(millis_of(p.y as int)));
    }
    let mut a: Vec<(&str, AttrVal)> = Vec::new();
    a.push(("cx", AttrVal::Pre(cxs.as_str())));
    a.push(("cy", AttrVal::Pre(cys.as_str())));
    a.push(("r", AttrVal::Pre("170")));
    a.push(("fill", AttrVal::Pre(url)));
    wr.empty_tag("circle", a.as_slice());
    proof {
        lemma_attrs4(a@);
        assert(wr.text() =~= old(wr).text() + circle_text(pv(p), url@));
    }
}

/// Composes the whole document for a canvas of `width_mil` by `height_mil`
/// milli-units.  All geometry is driven by the standard configuration; the
/// output is a pure function of the canvas size, so two runs on the same
/// size yield byte-identical text.  The two edge intersections of the
/// highlight band are proven non-degenerate for every canvas size, so no
/// failure path remains.
#[verifier::rlimit(100)]
pub fn compose(width_mil: i64, height_mil: i64) -> (doc: String)
    requires
        1 <= width_mil <= 100_000_000,
        1 <= height_mil <= 100_000_000,
    ensures
        doc@ == document_text(width_mil as int, height_mil as int),
{
    let cfg = Config::standard();
    let cx = width_mil * 500;
    let cy = height_mil * 500 + 55_000_000;
    let center = Point { x: cx, y: cy };
    let mut wr = Writer::new();
    let mut vb = String::new();
    vb.append("0 0 ");
    append_millis(&mut vb, width_mil);
    vb.append(" ");
    append_millis(&mut vb, height_mil);
    proof {
        assert(vb@ =~= viewbox_val(width_mil as int, height_mil as int));
    }
    let mut a: Vec<(&str, AttrVal)> = Vec::new();
    a.push(("viewBox", AttrVal::Pre(vb.as_str())));
    a.push(("xmlns", AttrVal::Pre("http://www.w3.org/2000/svg")));
    wr.open_tag("svg", a.as_slice());
    proof {
        lemma_attrs2(a@);
    }
    let c0 = place_on_circle(center, cfg.radius, 0);
    let c1 = place_on_circle(center, cfg.radius, 1);
    let c2 = place_on_circle(center, cfg.radius, 2);
    let tri = rounded_triangle_path(c0, c1, c2, cfg.round_start, cfg.round_end);
    write_defs(&mut wr, tri.as_str());
    let mut u: Vec<(&str, AttrVal)> = Vec::new();
    u.push(("href", AttrVal::Pre("#t")));
    u.push(("fill", AttrVal::Pre("#404040")));
    wr.empty_tag("use", u.as_slice());
    proof {
        lemma_attrs2(u@);
    }
    let red = place_on_circle(center, cfg.badge_distance, 0);
    let green = place_on_circle(center, cfg.badge_distance, 1);
    let blue = place_on_circle(center, cfg.badge_distance, 2);
    let dg = sqrt2_half_i64(cfg.badge_radius);
    proof {
        lemma_shadow_top_ok(cx as int, cy as int);
        lemma_shadow_bottom_ok(cx as int, cy as int);
    }
    let sp = shadow_path(c0, c1, c2, red, blue, dg, cfg.round_start, cfg.round_end);
    let mut sa: Vec<(&str, AttrVal)> = Vec::new();
    sa.push(("d", AttrVal::Pre(sp.as_str())));
    sa.push(("fill-opacity", AttrVal::Pre(".125")));
    wr.empty_tag("path", sa.as_slice());
    proof {
        lemma_attrs2(sa@);
    }
    write_circle(&mut wr, red, "url(#r)");
    write_circle(&mut wr, green, "url(#g)");
    write_circle(&mut wr, blue, "url(#b)");
    let mut v: Vec<(&str, AttrVal)> = Vec::new();
    v.push(("href", AttrVal::Pre("#t")));
    v.push(("fill", AttrVal::Pre("none")));
    v.push(("stroke", AttrVal::Pre("#FFF")));
    v.push(("stroke-width", AttrVal::Pre("40")));
    v.push(("filter", AttrVal::Pre("url(#s)")));
    wr.empty_tag("use", v.as_slice());
    proof {
        lemma_attrs5(v@);
    }
    wr.close_tag();
    let doc = wr.finish();
    proof {
        assert(doc@ =~= document_text(width_mil as int, height_mil as int));
    }
    doc
}

/// The squared distance between two points.
pub open spec fn dist_sq(p: (int, int), q: (int, int)) -> int {
    (p.0 - q.0) * (p.0 - q.0) + (p.1 - q.1) * (p.1 - q.1)
}

/// For every canvas center, the three corners lie on the circle of the
/// standard radius around it — corner 0 exactly, the other two to within
/// the fixed-point quantisation of `sqrt(3)/2` (squared distances within
/// twice the radius of the radius squared) — and they are mutually
/// separated by a third of a turn: all three pairwise squared distances
/// agree to within four times the radius.
pub proof fn lemma_corners_equidistant(cx: int, cy: int)
    ensures
        dist_sq(corner_s(cx, cy, 0), (cx, cy)) == 690_000_000 * 690_000_000,
        iabs(dist_sq(corner_s(cx, cy, 1), (cx, cy)) - 690_000_000 * 690_000_000) <= 2
            * 690_000_000,
        iabs(dist_sq(corner_s(cx, cy, 2), (cx, cy)) - 690_000_000 * 690_000_000) <= 2
            * 690_000_000,
        dist_sq(corner_s(cx, cy, 0), corner_s(cx, cy, 1)) == dist_sq(
            corner_s(cx, cy, 0),
            corner_s(cx, cy, 2),
        ),
        iabs(
            dist_sq(corner_s(cx, cy, 1), corner_s(cx, cy, 2)) - dist_sq(
                corner_s(cx, cy, 0),
                corner_s(cx, cy, 1),
            ),
        ) <= 4 * 690_000_000,
{
    assert(sqrt3_half(690_000_000) == 597557529) by {
        assert(690000000int * 1732050807569 == 1195115057222610000000);
        assert((2 * 1195115057222610000000int + 2000000000000) / (2int * 2000000000000)
            == 597557529);
    }
    assert(rdiv(690_000_000, 2) == 345_000_000) by {
        assert((2 * 690000000int + 2) / (2int * 2) == 345000000);
    }
    assert((-690000000int) * (-690000000) == 476100000000000000);
    assert(597557529int * 597557529 == 357075000464585841);
    assert(345000000int * 345000000 == 119025000000000000);
    assert((-597557529int) * (-597557529) == 357075000464585841);
    assert((-1035000000int) * (-1035000000) == 1071225000000000000);
    assert(1195115058int * 1195115058 == 1428300001858343364);
    assert(0int * 0 == 0);
    let cc = (cx, cy);
    let c0 = corner_s(cx, cy, 0);
    let c1 = corner_s(cx, cy, 1);
    let c2 = corner_s(cx, cy, 2);
    assert(c0.0 - cx == 0 && c0.1 - cy == -690000000);
    assert(dist_sq(c0, cc) == 0int * 0 + (-690000000int) * (-690000000));
    assert(c1.0 - cx == 597557529 && c1.1 - cy == 345000000);
    assert(dist_sq(c1, cc) == 597557529int * 597557529 + 345000000int * 345000000);
    assert(c2.0 - cx == -597557529 && c2.1 - cy == 345000000);
    assert(dist_sq(c2, cc) == (-597557529int) * (-597557529) + 345000000int * 345000000);
    assert(c0.0 - c1.0 == -597557529 && c0.1 - c1.1 == -1035000000);
    assert(dist_sq(c0, c1) == (-597557529int) * (-597557529) + (-1035000000int) * (-1035000000));
    assert(c0.0 - c2.0 == 597557529 && c0.1 - c2.1 == -1035000000);
    assert(dist_sq(c0, c2) == 597557529int * 597557529 + (-1035000000int) * (-1035000000));
    assert(c1.0 - c2.0 == 1195115058 && c1.1 - c2.1 == 0);
    assert(dist_sq(c1, c2) == 1195115058int * 1195115058 + 0int * 0);
}

/// The rounding construction never yields a degenerate first segment, and
/// the path's start and end points differ: the initial move point is
/// distinct from the first cubic's endpoint and from the last cubic's
/// endpoint, for every canvas center.
pub proof fn lemma_tri_path_nondegenerate(cx: int, cy: int)
    ensures
        pl(corner_s(cx, cy, 2), corner_s(cx, cy, 0), 700) != pl(
            corner_s(cx, cy, 0),
            corner_s(cx, cy, 1),
            300,
        ),
        pl(corner_s(cx, cy, 2), corner_s(cx, cy, 0), 700) != pl(
            corner_s(cx, cy, 2),
            corner_s(cx, cy, 0),
            300,
        ),
{
    assert(sqrt3_half(690_000_000) == 597557529) by {
        assert(690000000int * 1732050807569 == 1195115057222610000000);
        assert((2 * 1195115057222610000000int + 2000000000000) / (2int * 2000000000000)
            == 597557529);
    }
    assert(rdiv(690_000_000, 2) == 345_000_000) by {
        assert((2 * 690000000int + 2) / (2int * 2) == 345000000);
    }
    assert(rdiv(597557529int * 700, 1000) == 418290270) by {
        assert(597557529int * 700 == 418290270300);
        assert((2 * 418290270300int + 1000) / (2int * 1000) == 418290270);
    }
    assert(rdiv(597557529int * 300, 1000) == 179267259) by {
        assert(597557529int * 300 == 179267258700);
        assert((2 * 179267258700int + 1000) / (2int * 1000) == 179267259);
    }
    let start = pl(corner_s(cx, cy, 2), corner_s(cx, cy, 0), 700);
    assert(start.0 == cx - 597557529 + 418290270);
    let first_end = pl(corner_s(cx, cy, 0), corner_s(cx, cy, 1), 300);
    assert(first_end.0 == cx + 179267259);
    let last_end = pl(corner_s(cx, cy, 2), corner_s(cx, cy, 0), 300);
    assert(last_end.0 == cx - 597557529 + 179267259);
}

/// Every rounded-triangle path string matches the path grammar: it starts
/// with `M`, ends with `Z`, and contains only command letters, digits,
/// signs, points, commas and spaces.
pub proof fn lemma_tri_path_grammar(c0: (int, int), c1: (int, int), c2: (int, int), rs: int, re: int)
    ensures
        path_grammar_ok(tri_path_spec(c0, c1, c2, rs, re)),
{
    let m = move_str(pl(c2, c0, re).0, pl(c2, c0, re).1);
    let cu1 = cubic_str(
        pl(c2, c0, re + 125).0,
        pl(c2, c0, re + 125).1,
        pl(c0, c1, rs - 125).0,
        pl(c0, c1, rs - 125).1,
        pl(c0, c1, rs).0,
        pl(c0, c1, rs).1,
    );
    let l1 = line_str(pl(c0, c1, re).0, pl(c0, c1, re).1);
    let cu2 = cubic_str(
        pl(c0, c1, re + 125).0,
        pl(c0, c1, re + 125).1,
        pl(c1, c2, rs - 125).0,
        pl(c1, c2, rs - 125).1,
        pl(c1, c2, rs).0,
        pl(c1, c2, rs).1,
    );
    let l2 = line_str(pl(c1, c2, re).0, pl(c1, c2, re).1);
    let cu3 = cubic_str(
        pl(c1, c2, re + 125).0,
        pl(c1, c2, re + 125).1,
        pl(c2, c0, rs - 125).0,
        pl(c2, c0, rs - 125).1,
        pl(c2, c0, rs).0,
        pl(c2, c0, rs).1,
    );
    lemma_move_str_chars(pl(c2, c0, re).0, pl(c2, c0, re).1);
    lemma_cubic_str_chars(
        pl(c2, c0, re + 125).0,
        pl(c2, c0, re + 125).1,
        pl(c0, c1, rs - 125).0,
        pl(c0, c1, rs - 125).1,
        pl(c0, c1, rs).0,
        pl(c0, c1, rs).1,
    );
    lemma_line_str_chars(pl(c0, c1, re).0, pl(c0, c1, re).1);
    lemma_cubic_str_chars(
        pl(c0, c1, re + 125).0,
        pl(c0, c1, re + 125).1,
        pl(c1, c2, rs - 125).0,
        pl(c1, c2, rs - 125).1,
        pl(c1, c2, rs).0,
        pl(c1, c2, rs).1,
    );
    lemma_line_str_chars(pl(c1, c2, re).0, pl(c1, c2, re).1);
    lemma_cubic_str_chars(
        pl(c1, c2, re + 125).0,
        pl(c1, c2, re + 125).1,
        pl(c2, c0, rs - 125).0,
        pl(c2, c0, rs - 125).1,
        pl(c2, c0, rs).0,
        pl(c2, c0, rs).1,
    );
    lemma_append_path_chars(m, cu1);
    lemma_append_path_chars(m + cu1, l1);
    lemma_append_path_chars(m + cu1 + l1, cu2);
    lemma_append_path_chars(m + cu1 + l1 + cu2, l2);
    lemma_append_path_chars(m + cu1 + l1 + cu2 + l2, cu3);
    lemma_append_path_chars(m + cu1 + l1 + cu2 + l2 + cu3, seq!['Z']);
    let s = tri_path_spec(c0, c1, c2, rs, re);
    assert(s[0] == m[0]);
    assert(s.last() == 'Z');
}

/// Every highlight-band path string matches the path grammar.
pub proof fn lemma_shadow_path_grammar(
    c0: (int, int),
    c1: (int, int),
    c2: (int, int),
    red: (int, int),
    blue: (int, int),
    dg: int,
    rs: int,
    re: int,
)
    ensures
        path_grammar_ok(shadow_path_text(c0, c1, c2, red, blue, dg, rs, re)),
{
    let top = uw(shadow_top_spec(c0, c1, red, dg));
    let bottom = uw(shadow_bottom_spec(c1, c2, blue, dg));
    let h3 = rdiv(3 * dg, 2);
    let m = move_str(top.0, top.1);
    let l1 = line_str(red.0 + dg, red.1 - dg);
    let l2 = line_str(red.0 - dg, red.1 + dg);
    let l3 = line_str(red.0 + dg, red.1 + 3 * dg);
    let l4 = line_str(blue.0 + dg + h3, blue.1 - dg + h3);
    let l5 = line_str(blue.0 + dg, blue.1 - dg);
    let l6 = line_str(blue.0 - dg, blue.1 + dg);
    let l7 = line_str(bottom.0, bottom.1);
    let l8 = line_str(pl(c2, c1, re).0, pl(c2, c1, re).1);
    let cu = cubic_str(
        pl(c2, c1, re + 125).0,
        pl(c2, c1, re + 125).1,
        pl(c1, c0, rs - 125).0,
        pl(c1, c0, rs - 125).1,
        pl(c1, c0, rs).0,
        pl(c1, c0, rs).1,
    );
    lemma_move_str_chars(top.0, top.1);
    lemma_line_str_chars(red.0 + dg, red.1 - dg);
    lemma_line_str_chars(red.0 - dg, red.1 + dg);
    lemma_line_str_chars(red.0 + dg, red.1 + 3 * dg);
    lemma_line_str_chars(blue.0 + dg + h3, blue.1 - dg + h3);
    lemma_line_str_chars(blue.0 + dg, blue.1 - dg);
    lemma_line_str_chars(blue.0 - dg, blue.1 + dg);
    lemma_line_str_chars(bottom.0, bottom.1);
    lemma_line_str_chars(pl(c2, c1, re).0, pl(c2, c1, re).1);
    lemma_cubic_str_chars(
        pl(c2, c1, re + 125).0,
        pl(c2, c1, re + 125).1,
        pl(c1, c0, rs - 125).0,
        pl(c1, c0, rs - 125).1,
        pl(c1, c0, rs).0,
        pl(c1, c0, rs).1,
    );
    lemma_append_path_chars(m, l1);
    lemma_append_path_chars(m + l1, l2);
    lemma_append_path_chars(m + l1 + l2, l3);
    lemma_append_path_chars(m + l1 + l2 + l3, l4);
    lemma_append_path_chars(m + l1 + l2 + l3 + l4, l5);
    lemma_append_path_chars(m + l1 + l2 + l3 + l4 + l5, l6);
    lemma_append_path_chars(m + l1 + l2 + l3 + l4 + l5 + l6, l7);
    lemma_append_path_chars(m + l1 + l2 + l3 + l4 + l5 + l6 + l7, l8);
    lemma_append_path_chars(m + l1 + l2 + l3 + l4 + l5 + l6 + l7 + l8, cu);
    lemma_append_path_chars(m + l1 + l2 + l3 + l4 + l5 + l6 + l7 + l8 + cu, seq!['Z']);
    let s = shadow_path_text(c0, c1, c2, red, blue, dg, rs, re);
    assert(s[0] == m[0]);
    assert(s.last() == 'Z');
}

/// Whether a text is safe to stand raw inside a quoted attribute value: it
/// holds no `<`, `>`, `"` and no `&` at all (so in particular no bare `&`).
pub open spec fn attr_value_safe(s: Seq<char>) -> bool {
    forall|i: int|
        0 <= i < s.len() ==> {
            let c = #[trigger] s[i];
            c != '<' && c != '>' && c != '"' && c != '&'
        }
}

/// Safety is closed under concatenation.
proof fn lemma_safe_append(a: Seq<char>, b: Seq<char>)
    requires
        attr_value_safe(a),
        attr_value_safe(b),
    ensures
        attr_value_safe(a + b),
{
    assert forall|i: int|
        0 <= i < (a + b).len() implies {
            let c = #[trigger] (a + b)[i];
            c != '<' && c != '>' && c != '"' && c != '&'
        } by {
        if i < a.len() {
            assert((a + b)[i] == a[i]);
        } else {
            assert((a + b)[i] == b[i - a.len()]);
        }
    }
}

/// A rendered number is a safe attribute value.
proof fn lemma_fmt_millis_safe(m: int)
    ensures
        attr_value_safe(fmt_millis(m)),
{
    crate::decimal::lemma_fmt_millis_chars(m);
    assert forall|i: int|
        0 <= i < fmt_millis(m).len() implies {
            let c = #[trigger] fmt_millis(m)[i];
            c != '<' && c != '>' && c != '"' && c != '&'
        } by {
        assert(crate::decimal::is_num_char(fmt_millis(m)[i]));
    }
}

/// A text of path characters is a safe attribute value.
proof fn lemma_path_text_safe(s: Seq<char>)
    requires
        crate::path::all_path_chars(s),
    ensures
        attr_value_safe(s),
{
    assert forall|i: int|
        0 <= i < s.len() implies {
            let c = #[trigger] s[i];
            c != '<' && c != '>' && c != '"' && c != '&'
        } by {
        assert(crate::path::is_path_char(s[i]));
    }
}

/// Whether every attribute value the composed document carries is safe: the
/// view box, the two path texts, the six badge coordinates, and each of the
/// fixed constant values the composer marks pre-escaped.
pub open spec fn document_values_safe(w: int, h: int) -> bool {
    let cx = w * 500;
    let cy = h * 500 + 55_000_000;
    attr_value_safe(viewbox_val(w, h)) && attr_value_safe(tri_text(cx, cy)) && attr_value_safe(
        shadow_text(cx, cy),
    ) && attr_value_safe(fmt_millis(millis_of(badge_s(cx, cy, 0).0))) && attr_value_safe(
        fmt_millis(millis_of(badge_s(cx, cy, 0).1)),
    ) && attr_value_safe(fmt_millis(millis_of(badge_s(cx, cy, 1).0))) && attr_value_safe(
        fmt_millis(millis_of(badge_s(cx, cy, 1).1)),
    ) && attr_value_safe(fmt_millis(millis_of(badge_s(cx, cy, 2).0))) && attr_value_safe(
        fmt_millis(millis_of(badge_s(cx, cy, 2).1)),
    ) && attr_value_safe("http://www.w3.org/2000/svg"@) && attr_value_safe("r"@)
        && attr_value_safe("g"@) && attr_value_safe("b"@) && attr_value_safe("rotate(90)"@)
        && attr_value_safe("#D73F4A"@) && attr_value_safe("#C22B36"@) && attr_value_safe("#3FCD46"@)
        && attr_value_safe("#27BB2E"@) && attr_value_safe("#3F5CD7"@) && attr_value_safe("#2B48C2"@)
        && attr_value_safe("1"@) && attr_value_safe("s"@) && attr_value_safe("10"@)
        && attr_value_safe("20"@) && attr_value_safe(".8"@) && attr_value_safe("in"@)
        && attr_value_safe("SourceGraphic"@) && attr_value_safe("t"@) && attr_value_safe("#t"@)
        && attr_value_safe("#404040"@) && attr_value_safe(".125"@) && attr_value_safe("170"@)
        && attr_value_safe("url(#r)"@) && attr_value_safe("url(#g)"@) && attr_value_safe("url(#b)"@)
        && attr_value_safe("none"@) && attr_value_safe("#FFF"@) && attr_value_safe("40"@)
        && attr_value_safe("url(#s)"@)
}

/// The gradient and filter constant values are safe attribute values.
#[verifier::rlimit(100)]
proof fn lemma_literal_values_safe_defs()
    ensures
        attr_value_safe("http://www.w3.org/2000/svg"@),
        attr_value_safe("r"@),
        attr_value_safe("g"@),
        attr_value_safe("b"@),
        attr_value_safe("rotate(90)"@),
        attr_value_safe("#D73F4A"@),
        attr_value_safe("#C22B36"@),
        attr_value_safe("#3FCD46"@),
        attr_value_safe("#27BB2E"@),
        attr_value_safe("#3F5CD7"@),
        attr_value_safe("#2B48C2"@),
        attr_value_safe("1"@),
        attr_value_safe("s"@),
        attr_value_safe("10"@),
        attr_value_safe("20"@),
        attr_value_safe(".8"@),
        attr_value_safe("in"@),
        attr_value_safe("SourceGraphic"@),
{
    reveal_strlit("http://www.w3.org/2000/svg");
    reveal_strlit("r");
    reveal_strlit("g");
    reveal_strlit("b");
    reveal_strlit("rotate(90)");
    reveal_strlit("#D73F4A");
    reveal_strlit("#C22B36");
    reveal_strlit("#3FCD46");
    reveal_strlit("#27BB2E");
    reveal_strlit("#3F5CD7");
    reveal_strlit("#2B48C2");
    reveal_strlit("1");
    reveal_strlit("s");
    reveal_strlit("10");
    reveal_strlit("20");
    reveal_strlit(".8");
    reveal_strlit("in");
    reveal_strlit("SourceGraphic");
}

/// The body constant values are safe attribute values.
#[verifier::rlimit(100)]
proof fn lemma_literal_values_safe_body()
    ensures
        attr_value_safe("t"@),
        attr_value_safe("#t"@),
        attr_value_safe("#404040"@),
        attr_value_safe(".125"@),
        attr_value_safe("170"@),
        attr_value_safe("url(#r)"@),
        attr_value_safe("url(#g)"@),
        attr_value_safe("url(#b)"@),
        attr_value_safe("none"@),
        attr_value_safe("#FFF"@),
        attr_value_safe("40"@),
        attr_value_safe("url(#s)"@),
{
    reveal_strlit("t");
    reveal_strlit("#t");
    reveal_strlit("#404040");
    reveal_strlit(".125");
    reveal_strlit("170");
    reveal_strlit("url(#r)");
    reveal_strlit("url(#g)");
    reveal_strlit("url(#b)");
    reveal_strlit("none");
    reveal_strlit("#FFF");
    reveal_strlit("40");
    reveal_strlit("url(#s)");
}

/// The composed document never carries an unescaped `<`, `>`, `"` or a bare
/// `&` inside an attribute value: every value the composer marks
/// pre-escaped is free of all four characters, for every canvas size.
/// Values not marked pre-escaped are entity-escaped by the writer
/// (`crate::markup::lemma_escape_no_specials`,
/// `crate::markup::lemma_escape_roundtrip`); the composer itself uses only
/// the values listed here.
#[verifier::rlimit(100)]
pub proof fn lemma_document_values_safe(w: int, h: int)
    ensures
        document_values_safe(w, h),
{
    let cx = w * 500;
    let cy = h * 500 + 55_000_000;
    lemma_fmt_millis_safe(w);
    lemma_fmt_millis_safe(h);
    reveal_strlit("0 0 ");
    reveal_strlit(" ");
    assert(attr_value_safe("0 0 "@));
    assert(attr_value_safe(" "@));
    lemma_safe_append("0 0 "@, fmt_millis(w));
    lemma_safe_append("0 0 "@ + fmt_millis(w), " "@);
    lemma_safe_append("0 0 "@ + fmt_millis(w) + " "@, fmt_millis(h));
    lemma_tri_path_grammar(corner_s(cx, cy, 0), corner_s(cx, cy, 1), corner_s(cx, cy, 2), 300, 700);
    lemma_path_text_safe(tri_text(cx, cy));
    lemma_shadow_path_grammar(
        corner_s(cx, cy, 0),
        corner_s(cx, cy, 1),
        corner_s(cx, cy, 2),
        badge_s(cx, cy, 0),
        badge_s(cx, cy, 2),
        diag_s(),
        300,
        700,
    );
    lemma_path_text_safe(shadow_text(cx, cy));
    lemma_fmt_millis_safe(millis_of(badge_s(cx, cy, 0).0));
    lemma_fmt_millis_safe(millis_of(badge_s(cx, cy, 0).1));
    lemma_fmt_millis_safe(millis_of(badge_s(cx, cy, 1).0));
    lemma_fmt_millis_safe(millis_of(badge_s(cx, cy, 1).1));
    lemma_fmt_millis_safe(millis_of(badge_s(cx, cy, 2).0));
    lemma_fmt_millis_safe(millis_of(badge_s(cx, cy, 2).1));
    lemma_literal_values_safe_defs();
    lemma_literal_values_safe_body();
}

/// The composer is deterministic: any two documents composed for the same
/// canvas size are byte-identical.
pub proof fn lemma_compose_deterministic(s1: Seq<char>, s2: Seq<char>, w: int, h: int)
    requires
        s1 == document_text(w, h),
        s2 == document_text(w, h),
    ensures
        s1 == s2,
{
}

} // verus!
