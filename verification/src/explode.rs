//! Replacing block references by what they stand for: the plane
//! transforms that place a block, the images of DXF entities under them,
//! and the walk through nested definitions that stops at cycles, at
//! missing definitions and at the depth limit.

use vstd::prelude::*;
use std::collections::HashMap;
use crate::binary64::{
    is_arctangent, is_ceiling, is_cosine, is_count, is_difference, is_product, is_quotient,
    is_root, is_sine, is_sum, Arithmetic, Binary64, MICRO_BITS, NANO_BITS, NINETY_SIX_BITS, ONE_BITS, ONE_EIGHTY_BITS,
    ONE_TENTH_BITS, ONE_TWENTY_EIGHT_BITS, PICO_BITS, PI_BITS, THREE_SIXTY_BITS, TWO_BITS,
    TWO_PI_BITS, ZERO_BITS,
};
use crate::dxf::{
    axis, b64, block_name_map, block_names_of, block_views, blocks_converted, convert_blocks,
    convert_entities, convert_entity, convert_layers, converted, converts_to, dxf_views,
    is_axis, is_degrees, layers_of, names_view, rad_to_deg, style_view, text_views, ConvertOptions,
    DxfArc, DxfBlock, DxfBlockView, DxfCircle, DxfDocument, DxfDocumentView, DxfEllipse,
    DxfEntity, DxfEntityView, DxfInsert, DxfKind, DxfLine, DxfPoint, DxfSolid, DxfText, Style,
};
use crate::header::JwwHeaderView;
use crate::model::{
    block_def_views, entity_views, Block, BlockDef, BlockDefView, Entity, EntityView,
    JwwDocument, JwwDocumentView,
};
use crate::text::{decimal_text, owned, push_decimal};

verus! {

broadcast use vstd::std_specs::hash::group_hash_axioms;

/// A map of the plane onto itself that keeps lines straight: the point
/// `(x, y)` goes to `(a x + c y + tx, b x + d y + ty)`.
#[derive(Debug, Clone, Copy, PartialEq)]
pub struct Transform2D {
    pub a: Binary64,
    pub b: Binary64,
    pub c: Binary64,
    pub d: Binary64,
    pub tx: Binary64,
    pub ty: Binary64,
}

/// The map that leaves every point where it is.
pub open spec fn identity_transform() -> Transform2D {
    Transform2D {
        a: b64(ONE_BITS),
        b: b64(ZERO_BITS),
        c: b64(ZERO_BITS),
        d: b64(ONE_BITS),
        tx: b64(ZERO_BITS),
        ty: b64(ZERO_BITS),
    }
}

/// Whether `r` is the map that `ops` gives for placing a block: its
/// columns are the cosine and sine of the rotation times the first scale,
/// and the sine negated and the cosine times the second scale; its shift
/// is the reference point.
pub open spec fn is_placement<A: Arithmetic>(ops: &A, block: Block, r: Transform2D) -> bool {
    &&& r.tx == block.ref_x
    &&& r.ty == block.ref_y
    &&& exists|c: Binary64, s: Binary64|
        #[trigger] is_cosine(ops, block.rotation, c) && #[trigger] is_sine(ops, block.rotation, s)
            && is_product(ops, c, block.scale_x, r.a) && is_product(ops, s, block.scale_x, r.b)
            && is_product(ops, s.neg_spec(), block.scale_y, r.c) && is_product(
            ops,
            c,
            block.scale_y,
            r.d,
        )
}

impl Transform2D {
    /// The map that leaves every point where it is.
    pub fn identity() -> (r: Transform2D)
        ensures
            r == identity_transform(),
    {
        Transform2D {
            a: Binary64 { bits: ONE_BITS },
            b: Binary64 { bits: ZERO_BITS },
            c: Binary64 { bits: ZERO_BITS },
            d: Binary64 { bits: ONE_BITS },
            tx: Binary64 { bits: ZERO_BITS },
            ty: Binary64 { bits: ZERO_BITS },
        }
    }

    /// The map that places a block: scale, then rotate, then move to the
    /// reference point.
    pub fn from_insert<A: Arithmetic>(block: &Block, ops: &A) -> (r: Transform2D)
        ensures
            is_placement(ops, *block, r),
    {
        let cos = ops.cos(block.rotation);
        let sin = ops.sin(block.rotation);
        assert(is_cosine(ops, block.rotation, cos) && is_sine(ops, block.rotation, sin));
        Transform2D {
            a: ops.mul(cos, block.scale_x),
            b: ops.mul(sin, block.scale_x),
            c: ops.mul(sin.neg(), block.scale_y),
            d: ops.mul(cos, block.scale_y),
            tx: block.ref_x,
            ty: block.ref_y,
        }
    }

    /// Whether `r` is where `ops` has the transform send the direction
    /// `(x, y)`: to `(a x + c y, b x + d y)`.
    pub open spec fn sends_vector<A: Arithmetic>(
        self,
        ops: &A,
        x: Binary64,
        y: Binary64,
        r: (Binary64, Binary64),
    ) -> bool {
        &&& is_dot(ops, self.a, x, self.c, y, r.0)
        &&& is_dot(ops, self.b, x, self.d, y, r.1)
    }

    /// Whether `r` is where `ops` has the transform send the point
    /// `(x, y)`: to `(a x + c y + tx, b x + d y + ty)`.
    pub open spec fn sends_point<A: Arithmetic>(
        self,
        ops: &A,
        x: Binary64,
        y: Binary64,
        r: (Binary64, Binary64),
    ) -> bool {
        &&& is_affine(ops, self.a, x, self.c, y, self.tx, r.0)
        &&& is_affine(ops, self.b, x, self.d, y, self.ty, r.1)
    }

    /// Whether `r` is what `ops` gives for `rhs` followed by the
    /// transform: its columns are where the transform sends the columns
    /// of `rhs` as directions, its shift is where the transform sends the
    /// shift of `rhs` as a point.
    pub open spec fn composes<A: Arithmetic>(self, ops: &A, rhs: Transform2D, r: Transform2D) -> bool {
        &&& self.sends_vector(ops, rhs.a, rhs.b, (r.a, r.b))
        &&& self.sends_vector(ops, rhs.c, rhs.d, (r.c, r.d))
        &&& self.sends_point(ops, rhs.tx, rhs.ty, (r.tx, r.ty))
    }

    /// Whether `r` is what `ops` gives for the mean of the lengths of the
    /// two columns: the sum of the two lengths, divided by 2.
    pub open spec fn has_average_scale<A: Arithmetic>(self, ops: &A, r: Binary64) -> bool {
        exists|sx: Binary64, sy: Binary64, s: Binary64|
            #[trigger] is_length(ops, self.a, self.b, sx) && #[trigger] is_length(
                ops,
                self.c,
                self.d,
                sy,
            ) && #[trigger] is_sum(ops, sx, sy, s) && is_quotient(ops, s, b64(TWO_BITS), r)
    }

    /// Whether `r` is what `ops` gives for the angle of the first column
    /// in degrees: the arctangent of `b / a`, turned into degrees.
    pub open spec fn has_rotation_deg<A: Arithmetic>(self, ops: &A, r: Binary64) -> bool {
        exists|t: Binary64| #[trigger] is_arctangent(ops, self.b, self.a, t) && is_degrees(ops, t, r)
    }

    /// The map that applies `rhs` first and `self` second.
    pub(crate) fn compose<A: Arithmetic>(&self, rhs: &Transform2D, ops: &A) -> (r: Transform2D)
        ensures
            self.composes(ops, *rhs, r),
    {
        Transform2D {
            a: dot(ops, self.a, rhs.a, self.c, rhs.b),
            b: dot(ops, self.b, rhs.a, self.d, rhs.b),
            c: dot(ops, self.a, rhs.c, self.c, rhs.d),
            d: dot(ops, self.b, rhs.c, self.d, rhs.d),
            tx: affine(ops, self.a, rhs.tx, self.c, rhs.ty, self.tx),
            ty: affine(ops, self.b, rhs.tx, self.d, rhs.ty, self.ty),
        }
    }

    /// Where a point goes.
    pub(crate) fn apply_point<A: Arithmetic>(&self, x: Binary64, y: Binary64, ops: &A) -> (r: (
        Binary64,
        Binary64,
    ))
        ensures
            self.sends_point(ops, x, y, r),
    {
        (
            affine(ops, self.a, x, self.c, y, self.tx),
            affine(ops, self.b, x, self.d, y, self.ty),
        )
    }

    /// Where a direction goes: as a point, without the shift.
    pub(crate) fn apply_vector<A: Arithmetic>(&self, x: Binary64, y: Binary64, ops: &A) -> (r: (
        Binary64,
        Binary64,
    ))
        ensures
            self.sends_vector(ops, x, y, r),
    {
        (dot(ops, self.a, x, self.c, y), dot(ops, self.b, x, self.d, y))
    }

    /// The mean of the lengths to which the two unit directions grow.
    pub(crate) fn average_scale<A: Arithmetic>(&self, ops: &A) -> (r: Binary64)
        ensures
            self.has_average_scale(ops, r),
    {
        let sx = length(ops, self.a, self.b);
        let sy = length(ops, self.c, self.d);
        let s = ops.add(sx, sy);
        let r = ops.div(s, Binary64 { bits: TWO_BITS });
        assert(is_sum(ops, sx, sy, s));
        r
    }

    /// The angle, in degrees, by which the first unit direction turns.
    pub(crate) fn rotation_deg<A: Arithmetic>(&self, ops: &A) -> (r: Binary64)
        ensures
            self.has_rotation_deg(ops, r),
    {
        let t = ops.atan2(self.b, self.a);
        let r = rad_to_deg(t, ops);
        assert(is_arctangent(ops, self.b, self.a, t));
        r
    }
}

/// Whether `r` is what `ops` gives for `a x + c y`: the sum of the two
/// products.
pub open spec fn is_dot<A: Arithmetic>(
    ops: &A,
    a: Binary64,
    x: Binary64,
    c: Binary64,
    y: Binary64,
    r: Binary64,
) -> bool {
    exists|p: Binary64, q: Binary64|
        #[trigger] is_product(ops, a, x, p) && #[trigger] is_product(ops, c, y, q) && is_sum(
            ops,
            p,
            q,
            r,
        )
}

/// Whether `r` is what `ops` gives for `a x + c y + t`: the shift added
/// to the sum of the two products.
pub open spec fn is_affine<A: Arithmetic>(
    ops: &A,
    a: Binary64,
    x: Binary64,
    c: Binary64,
    y: Binary64,
    t: Binary64,
    r: Binary64,
) -> bool {
    exists|s: Binary64| #[trigger] is_dot(ops, a, x, c, y, s) && is_sum(ops, s, t, r)
}

/// Whether `r` is what `ops` gives for the length of `(x, y)`: the square
/// root of `x x + y y`.
pub open spec fn is_length<A: Arithmetic>(ops: &A, x: Binary64, y: Binary64, r: Binary64) -> bool {
    exists|n: Binary64| #[trigger] is_dot(ops, x, x, y, y, n) && is_root(ops, n, r)
}

/// The scale by which the tolerance of [`nearly_equal`] goes: the larger
/// of the two magnitudes, and at least 1.
pub open spec fn tolerance_scale(a: Binary64, b: Binary64) -> Binary64 {
    a.abs_spec().max_spec(b.abs_spec()).max_spec(b64(ONE_BITS))
}

/// Whether `r` says that `ops` finds `a` and `b` nearly equal: that the
/// magnitude of their difference is no more than a billionth of
/// [`tolerance_scale`].
pub open spec fn is_nearly_equal<A: Arithmetic>(ops: &A, a: Binary64, b: Binary64, r: bool) -> bool {
    exists|gap: Binary64, bound: Binary64|
        #[trigger] is_difference(ops, a, b, gap) && #[trigger] is_product(
            ops,
            b64(NANO_BITS),
            tolerance_scale(a, b),
            bound,
        ) && r == gap.abs_spec().le_spec(bound)
}

fn dot<A: Arithmetic>(ops: &A, a: Binary64, x: Binary64, c: Binary64, y: Binary64) -> (r: Binary64)
    ensures
        is_dot(ops, a, x, c, y, r),
{
    let p = ops.mul(a, x);
    let q = ops.mul(c, y);
    let r = ops.add(p, q);
    assert(is_product(ops, a, x, p) && is_product(ops, c, y, q));
    r
}

fn affine<A: Arithmetic>(
    ops: &A,
    a: Binary64,
    x: Binary64,
    c: Binary64,
    y: Binary64,
    t: Binary64,
) -> (r: Binary64)
    ensures
        is_affine(ops, a, x, c, y, t, r),
{
    let s = dot(ops, a, x, c, y);
    ops.add(s, t)
}

fn length<A: Arithmetic>(ops: &A, x: Binary64, y: Binary64) -> (r: Binary64)
    ensures
        is_length(ops, x, y, r),
{
    let n = dot(ops, x, x, y, y);
    ops.sqrt(n)
}

/// Whether two lengths differ by no more than a billionth of the larger,
/// or of 1 where both are smaller.
pub(crate) fn nearly_equal<A: Arithmetic>(a: Binary64, b: Binary64, ops: &A) -> (r: bool)
    ensures
        is_nearly_equal(ops, a, b, r),
{
    let gap = ops.sub(a, b);
    let scale = a.abs().max(b.abs()).max(Binary64 { bits: ONE_BITS });
    let bound = ops.mul(Binary64 { bits: NANO_BITS }, scale);
    assert(is_difference(ops, a, b, gap));
    assert(is_product(ops, b64(NANO_BITS), tolerance_scale(a, b), bound));
    gap.abs().le(bound)
}

/// The number of segments into which an arc is cut: what its sweep asks
/// for, but at least 8 and at most 192.
pub open spec fn arc_segments_of(wanted: usize) -> usize {
    if wanted < 8 {
        8
    } else if wanted > 192 {
        192
    } else {
        wanted
    }
}

/// The number of segments into which an ellipse is cut: what its span
/// asks for, but at least 12 and at most 256.
pub open spec fn ellipse_segments_of(wanted: usize) -> usize {
    if wanted < 12 {
        12
    } else if wanted > 256 {
        256
    } else {
        wanted
    }
}

/// The number of segments into which an arc is cut: what its sweep asks
/// for, but at least 8 and at most 192.
pub fn arc_segments(wanted: usize) -> (r: usize)
    ensures
        r == arc_segments_of(wanted),
{
    if wanted < 8 {
        8
    } else if wanted > 192 {
        192
    } else {
        wanted
    }
}

/// The number of segments into which an ellipse is cut: what its span
/// asks for, but at least 12 and at most 256.
pub fn ellipse_segments(wanted: usize) -> (r: usize)
    ensures
        r == ellipse_segments_of(wanted),
{
    if wanted < 12 {
        12
    } else if wanted > 256 {
        256
    } else {
        wanted
    }
}

/// The lines that join each point of a row to the next, all in one style.
pub open spec fn lines_through(points: Seq<(Binary64, Binary64)>, style: Style) -> Seq<
    DxfEntityView,
> {
    if points.len() < 2 {
        Seq::empty()
    } else {
        Seq::new(
            (points.len() - 1) as nat,
            |i: int|
                DxfEntityView::Line {
                    style,
                    x1: points[i].0,
                    y1: points[i].1,
                    x2: points[i + 1].0,
                    y2: points[i + 1].1,
                },
        )
    }
}

pub fn points_to_lines(
    points: Vec<(Binary64, Binary64)>,
    layer: String,
    color: i32,
    line_type: String,
) -> (r: Vec<DxfEntity>)
    ensures
        dxf_views(r@) == lines_through(points@, style_view(layer, color, line_type)),
{
    let mut out: Vec<DxfEntity> = Vec::new();
    if points.len() < 2 {
        assert(dxf_views(out@) =~= Seq::<DxfEntityView>::empty());
        return out;
    }
    let ghost style = style_view(layer, color, line_type);
    let mut i: usize = 0;
    while i + 1 < points.len()
        invariant
            points.len() >= 2,
            i + 1 <= points.len(),
            out@.len() == i,
            style == style_view(layer, color, line_type),
            forall|k: int|
                0 <= k < i ==> (#[trigger] out@[k])@ == (DxfEntityView::Line {
                    style,
                    x1: points@[k].0,
                    y1: points@[k].1,
                    x2: points@[k + 1].0,
                    y2: points@[k + 1].1,
                }),
        decreases points.len() - i,
    {
        let p = points[i];
        let q = points[i + 1];
        out.push(
            DxfEntity::Line(
                DxfLine {
                    layer: layer.clone(),
                    color,
                    line_type: line_type.clone(),
                    x1: p.0,
                    y1: p.1,
                    x2: q.0,
                    y2: q.1,
                },
            ),
        );
        i += 1;
    }
    assert(dxf_views(out@) =~= lines_through(points@, style));
    out
}

/// Whether `out` is a chain of `n` lines in the given style, each
/// starting where the one before ends.
pub open spec fn is_chain(out: Seq<DxfEntityView>, style: Style, n: int) -> bool {
    &&& out.len() == n
    &&& forall|i: int| 0 <= i < out.len() ==> (#[trigger] out[i]).kind() == DxfKind::Line
    &&& forall|i: int| 0 <= i < out.len() ==> (#[trigger] out[i]).style() == style
    &&& forall|i: int|
        0 <= i < out.len() - 1 ==> line_end(#[trigger] out[i]) == line_start(out[i + 1])
}

pub open spec fn line_start(e: DxfEntityView) -> (Binary64, Binary64) {
    match e {
        DxfEntityView::Line { x1, y1, .. } => (x1, y1),
        _ => (b64(0), b64(0)),
    }
}

pub open spec fn line_end(e: DxfEntityView) -> (Binary64, Binary64) {
    match e {
        DxfEntityView::Line { x2, y2, .. } => (x2, y2),
        _ => (b64(0), b64(0)),
    }
}

/// Whether `r` is what `ops` gives for the mean of `a` and `b`: their sum,
/// divided by 2.
pub open spec fn is_mean<A: Arithmetic>(ops: &A, a: Binary64, b: Binary64, r: Binary64) -> bool {
    exists|s: Binary64| #[trigger] is_sum(ops, a, b, s) && is_quotient(ops, s, b64(TWO_BITS), r)
}

/// Whether `r` is the ratio of the shorter to the longer of two lengths as
/// `ops` gives it: their quotient, and 1 where the longer is no more than
/// 1e-12.
pub open spec fn is_ratio<A: Arithmetic>(ops: &A, short: Binary64, long: Binary64, r: Binary64) -> bool {
    if long.le_spec(b64(PICO_BITS)) {
        r == b64(ONE_BITS)
    } else {
        is_quotient(ops, short, long, r)
    }
}

/// Whether `r` is what `ops` gives for the cosine of the angle between the
/// directions `u` and `v` of lengths `lu` and `lv`: `u.0 v.0 + u.1 v.1`
/// divided by the product of the lengths, and 0 where that product is no
/// more than 1e-12.
pub open spec fn is_cosine_between<A: Arithmetic>(
    ops: &A,
    u: (Binary64, Binary64),
    v: (Binary64, Binary64),
    lu: Binary64,
    lv: Binary64,
    r: Binary64,
) -> bool {
    exists|denom: Binary64|
        #[trigger] is_product(ops, lu, lv, denom) && if denom.le_spec(b64(PICO_BITS)) {
            r == b64(ZERO_BITS)
        } else {
            exists|n: Binary64|
                #[trigger] is_dot(ops, u.0, v.0, u.1, v.1, n) && is_quotient(ops, n, denom, r)
        }
}

/// What is measured of a circle under a transform: where its centre goes,
/// where two of its radii at right angles go, how long their images are,
/// whether these lengths are alike, and the cosine of the angle between
/// the images.
pub struct CircleMeasures {
    pub center: (Binary64, Binary64),
    pub u: (Binary64, Binary64),
    pub v: (Binary64, Binary64),
    pub lu: Binary64,
    pub lv: Binary64,
    pub alike: bool,
    pub dot: Binary64,
}

/// Whether `m` holds what `ops` measures of the circle about `(cx, cy)`
/// with the given radius under the transform `t`. The two radii are the
/// one along the first axis and the one along the second.
pub open spec fn is_circle_measures<A: Arithmetic>(
    ops: &A,
    t: Transform2D,
    cx: Binary64,
    cy: Binary64,
    radius: Binary64,
    m: CircleMeasures,
) -> bool {
    &&& t.sends_point(ops, cx, cy, m.center)
    &&& t.sends_vector(ops, radius, b64(ZERO_BITS), m.u)
    &&& t.sends_vector(ops, b64(ZERO_BITS), radius, m.v)
    &&& is_length(ops, m.u.0, m.u.1, m.lu)
    &&& is_length(ops, m.v.0, m.v.1, m.lv)
    &&& is_nearly_equal(ops, m.lu, m.lv, m.alike)
    &&& is_cosine_between(ops, m.u, m.v, m.lu, m.lv, m.dot)
}

/// Whether `out` is what is drawn for a circle of which `m` was measured,
/// as [`circle_image_of`] decides.
///
/// A point lies at the image of the centre. A circle lies about it and
/// has the mean of the two lengths as its radius. An ellipse lies about it,
/// has the longer image as its major axis and the ratio of the shorter to
/// the longer as its ratio, and runs from 0 to 2 pi.
pub open spec fn circle_drawn_as<A: Arithmetic>(
    ops: &A,
    style: Style,
    m: CircleMeasures,
    out: DxfEntityView,
) -> bool {
    match circle_image_of(m.lu, m.lv, m.alike, m.dot) {
        CircleImage::Point => out == (DxfEntityView::Point { style, x: m.center.0, y: m.center.1 }),
        CircleImage::Circle => match out {
            DxfEntityView::Circle { style: s, center_x, center_y, radius } => {
                &&& s == style
                &&& (center_x, center_y) == m.center
                &&& is_mean(ops, m.lu, m.lv, radius)
            },
            _ => false,
        },
        CircleImage::EllipseAlongFirst => match out {
            DxfEntityView::Ellipse {
                style: s,
                center_x,
                center_y,
                major_axis_x,
                major_axis_y,
                minor_ratio,
                start_param,
                end_param,
            } => {
                &&& s == style
                &&& (center_x, center_y) == m.center
                &&& (major_axis_x, major_axis_y) == m.u
                &&& is_ratio(ops, m.lv, m.lu, minor_ratio)
                &&& start_param == b64(ZERO_BITS)
                &&& end_param == b64(TWO_PI_BITS)
            },
            _ => false,
        },
        CircleImage::EllipseAlongSecond => match out {
            DxfEntityView::Ellipse {
                style: s,
                center_x,
                center_y,
                major_axis_x,
                major_axis_y,
                minor_ratio,
                start_param,
                end_param,
            } => {
                &&& s == style
                &&& (center_x, center_y) == m.center
                &&& (major_axis_x, major_axis_y) == m.v
                &&& is_ratio(ops, m.lu, m.lv, minor_ratio)
                &&& start_param == b64(ZERO_BITS)
                &&& end_param == b64(TWO_PI_BITS)
            },
            _ => false,
        },
    }
}

/// Whether `out` is the image of the circle about `(cx, cy)` with the
/// given radius under `t`: one entity, drawn as [`circle_drawn_as`] says
/// of what `ops` measures of the circle.
pub open spec fn circle_image_is<A: Arithmetic>(
    ops: &A,
    t: Transform2D,
    style: Style,
    cx: Binary64,
    cy: Binary64,
    radius: Binary64,
    out: Seq<DxfEntityView>,
) -> bool {
    &&& out.len() == 1
    &&& exists|m: CircleMeasures|
        #[trigger] is_circle_measures(ops, t, cx, cy, radius, m) && circle_drawn_as(
            ops,
            style,
            m,
            out[0],
        )
}

/// Whether an end angle falls short of the start angle: is below it, or,
/// where `or_equal` holds, is not above it.
pub open spec fn falls_short(end: Binary64, start: Binary64, or_equal: bool) -> bool {
    if or_equal {
        end.le_spec(start)
    } else {
        end.lt_spec(start)
    }
}

/// Whether `r` is the end angle as `ops` raises it past the start angle.
///
/// An end that does not fall short stays. Else the difference of start
/// and end is divided by the full turn and rounded up to a count; the end
/// is raised by that count times the full turn, and by one full turn more
/// if it still falls short.
pub open spec fn is_raised_end<A: Arithmetic>(
    ops: &A,
    start: Binary64,
    end: Binary64,
    turn: Binary64,
    or_equal: bool,
    r: Binary64,
) -> bool {
    if !falls_short(end, start, or_equal) {
        r == end
    } else {
        exists|gap: Binary64, part: Binary64, turns: usize, n: Binary64, rise: Binary64, once: Binary64|
            #[trigger] is_difference(ops, start, end, gap) && #[trigger] is_quotient(
                ops,
                gap,
                turn,
                part,
            ) && #[trigger] is_ceiling(ops, part, turns) && #[trigger] is_count(ops, turns, n)
                && #[trigger] is_product(ops, n, turn, rise) && #[trigger] is_sum(
                ops,
                end,
                rise,
                once,
            ) && if falls_short(once, start, or_equal) {
                is_sum(ops, once, turn, r)
            } else {
                r == once
            }
    }
}

/// Whether `n` is the number of steps that `ops` asks for between two
/// angles: the magnitude of their difference, divided by the full turn,
/// times the steps to a full turn, rounded up to a count.
pub open spec fn is_wanted_count<A: Arithmetic>(
    ops: &A,
    start: Binary64,
    end: Binary64,
    turn: Binary64,
    per_turn: Binary64,
    n: usize,
) -> bool {
    exists|d: Binary64, part: Binary64, scaled: Binary64|
        #[trigger] is_difference(ops, end, start, d) && #[trigger] is_quotient(
            ops,
            d.abs_spec(),
            turn,
            part,
        ) && #[trigger] is_product(ops, part, per_turn, scaled) && is_ceiling(ops, scaled, n)
}

/// Whether `r` is the angle of cut `i` of `n` between two angles as `ops`
/// gives it: the start, and added to it the difference of end and start
/// times the count `i` divided by the count `n`.
pub open spec fn is_step_angle<A: Arithmetic>(
    ops: &A,
    start: Binary64,
    end: Binary64,
    i: usize,
    n: usize,
    r: Binary64,
) -> bool {
    exists|d: Binary64, ci: Binary64, m: Binary64, cn: Binary64, q: Binary64|
        #[trigger] is_difference(ops, end, start, d) && #[trigger] is_count(ops, i, ci)
            && #[trigger] is_product(ops, d, ci, m) && #[trigger] is_count(ops, n, cn)
            && #[trigger] is_quotient(ops, m, cn, q) && is_sum(ops, start, q, r)
}

/// Whether `r` is what `ops` gives for an angle in degrees turned into
/// radians: the angle times pi, and that product divided by 180.
pub open spec fn is_radians<A: Arithmetic>(ops: &A, deg: Binary64, r: Binary64) -> bool {
    exists|m: Binary64|
        #[trigger] is_product(ops, deg, b64(PI_BITS), m) && is_quotient(
            ops,
            m,
            b64(ONE_EIGHTY_BITS),
            r,
        )
}

/// Whether `p` is the point of the circle about `(cx, cy)` at the given
/// angle as `ops` gives it: the centre, and added to it the radius times
/// the cosine and the radius times the sine.
pub open spec fn is_on_circle<A: Arithmetic>(
    ops: &A,
    cx: Binary64,
    cy: Binary64,
    radius: Binary64,
    angle: Binary64,
    p: (Binary64, Binary64),
) -> bool {
    exists|d: (Binary64, Binary64)|
        #[trigger] is_axis(ops, radius, angle, d.0, d.1) && is_sum(ops, cx, d.0, p.0) && is_sum(
            ops,
            cy,
            d.1,
            p.1,
        )
}

/// Whether `p` is where `ops` has cut `i` of `n` of an arc go under `t`:
/// the angle of the cut in degrees, turned into radians, gives a point of
/// the arc's circle, and `t` sends that point to `p`.
pub open spec fn is_arc_cut<A: Arithmetic>(
    ops: &A,
    t: Transform2D,
    cx: Binary64,
    cy: Binary64,
    radius: Binary64,
    start: Binary64,
    end: Binary64,
    i: usize,
    n: usize,
    p: (Binary64, Binary64),
) -> bool {
    exists|deg: Binary64, rad: Binary64, at: (Binary64, Binary64)|
        #[trigger] is_step_angle(ops, start, end, i, n, deg) && #[trigger] is_radians(
            ops,
            deg,
            rad,
        ) && #[trigger] is_on_circle(ops, cx, cy, radius, rad, at) && t.sends_point(
            ops,
            at.0,
            at.1,
            p,
        )
}

/// Whether `points` are the `n + 1` cuts of an arc under `t`, from the
/// start angle to the end angle in `n` equal steps.
pub open spec fn is_arc_cuts<A: Arithmetic>(
    ops: &A,
    t: Transform2D,
    cx: Binary64,
    cy: Binary64,
    radius: Binary64,
    start: Binary64,
    end: Binary64,
    n: usize,
    points: Seq<(Binary64, Binary64)>,
) -> bool {
    &&& points.len() == n + 1
    &&& forall|i: int|
        0 <= i <= n ==> is_arc_cut(
            ops,
            t,
            cx,
            cy,
            radius,
            start,
            end,
            i as usize,
            n,
            #[trigger] points[i],
        )
}

/// Whether `out` is the image of an arc under `t`: the lines through its
/// cuts. The end angle is first raised past the start angle by full turns
/// of 360 degrees; the number of steps is [`arc_segments_of`] what `ops`
/// asks for at 96 steps to the full turn.
pub open spec fn arc_image_is<A: Arithmetic>(
    ops: &A,
    t: Transform2D,
    style: Style,
    cx: Binary64,
    cy: Binary64,
    radius: Binary64,
    start: Binary64,
    end: Binary64,
    out: Seq<DxfEntityView>,
) -> bool {
    exists|raised: Binary64, wanted: usize, points: Seq<(Binary64, Binary64)>|
        #[trigger] is_raised_end(ops, start, end, b64(THREE_SIXTY_BITS), false, raised)
            && #[trigger] is_wanted_count(
            ops,
            start,
            raised,
            b64(THREE_SIXTY_BITS),
            b64(NINETY_SIX_BITS),
            wanted,
        ) && #[trigger] is_arc_cuts(
            ops,
            t,
            cx,
            cy,
            radius,
            start,
            raised,
            arc_segments_of(wanted),
            points,
        ) && out == lines_through(points, style)
}

/// Whether `minor` is the minor axis that `ops` gives an ellipse: the
/// major axis turned by a right angle, times the ratio.
pub open spec fn is_minor_axis<A: Arithmetic>(
    ops: &A,
    major: (Binary64, Binary64),
    ratio: Binary64,
    minor: (Binary64, Binary64),
) -> bool {
    &&& is_product(ops, major.1.neg_spec(), ratio, minor.0)
    &&& is_product(ops, major.0, ratio, minor.1)
}

/// Whether `r` is what `ops` gives for `o + a c + b s`, added up from the
/// left.
pub open spec fn is_swung<A: Arithmetic>(
    ops: &A,
    o: Binary64,
    a: Binary64,
    c: Binary64,
    b: Binary64,
    s: Binary64,
    r: Binary64,
) -> bool {
    exists|p: Binary64, m: Binary64, q: Binary64|
        #[trigger] is_product(ops, a, c, p) && #[trigger] is_sum(ops, o, p, m)
            && #[trigger] is_product(ops, b, s, q) && is_sum(ops, m, q, r)
}

/// Whether `p` is the point of an ellipse at the given parameter as `ops`
/// gives it: the centre, and added to it the major axis times the cosine
/// and the minor axis times the sine.
pub open spec fn is_on_ellipse<A: Arithmetic>(
    ops: &A,
    cx: Binary64,
    cy: Binary64,
    major: (Binary64, Binary64),
    minor: (Binary64, Binary64),
    angle: Binary64,
    p: (Binary64, Binary64),
) -> bool {
    exists|c: Binary64, s: Binary64|
        #[trigger] is_cosine(ops, angle, c) && #[trigger] is_sine(ops, angle, s) && is_swung(
            ops,
            cx,
            major.0,
            c,
            minor.0,
            s,
            p.0,
        ) && is_swung(ops, cy, major.1, c, minor.1, s, p.1)
}

/// Whether `p` is where `ops` has cut `i` of `n` of an ellipse go under
/// `t`: the parameter of the cut gives a point of the ellipse, and `t`
/// sends that point to `p`.
pub open spec fn is_ellipse_cut<A: Arithmetic>(
    ops: &A,
    t: Transform2D,
    cx: Binary64,
    cy: Binary64,
    major: (Binary64, Binary64),
    minor: (Binary64, Binary64),
    start: Binary64,
    end: Binary64,
    i: usize,
    n: usize,
    p: (Binary64, Binary64),
) -> bool {
    exists|angle: Binary64, at: (Binary64, Binary64)|
        #[trigger] is_step_angle(ops, start, end, i, n, angle) && #[trigger] is_on_ellipse(
            ops,
            cx,
            cy,
            major,
            minor,
            angle,
            at,
        ) && t.sends_point(ops, at.0, at.1, p)
}

/// Whether `points` are the `n + 1` cuts of an ellipse under `t`, from
/// the start parameter to the end parameter in `n` equal steps.
pub open spec fn is_ellipse_cuts<A: Arithmetic>(
    ops: &A,
    t: Transform2D,
    cx: Binary64,
    cy: Binary64,
    major: (Binary64, Binary64),
    minor: (Binary64, Binary64),
    start: Binary64,
    end: Binary64,
    n: usize,
    points: Seq<(Binary64, Binary64)>,
) -> bool {
    &&& points.len() == n + 1
    &&& forall|i: int|
        0 <= i <= n ==> is_ellipse_cut(
            ops,
            t,
            cx,
            cy,
            major,
            minor,
            start,
            end,
            i as usize,
            n,
            #[trigger] points[i],
        )
}

/// Whether `out` is the image of an ellipse under `t`: the lines through
/// its cuts. The end parameter is first raised above the start parameter
/// by full turns of 2 pi; the number of steps is [`ellipse_segments_of`]
/// what `ops` asks for at 128 steps to the full turn.
pub open spec fn ellipse_image_is<A: Arithmetic>(
    ops: &A,
    t: Transform2D,
    style: Style,
    cx: Binary64,
    cy: Binary64,
    major: (Binary64, Binary64),
    ratio: Binary64,
    start: Binary64,
    end: Binary64,
    out: Seq<DxfEntityView>,
) -> bool {
    exists|raised: Binary64, wanted: usize, minor: (Binary64, Binary64), points: Seq<
        (Binary64, Binary64),
    >|
        #[trigger] is_raised_end(ops, start, end, b64(TWO_PI_BITS), true, raised)
            && #[trigger] is_wanted_count(
            ops,
            start,
            raised,
            b64(TWO_PI_BITS),
            b64(ONE_TWENTY_EIGHT_BITS),
            wanted,
        ) && #[trigger] is_minor_axis(ops, major, ratio, minor) && #[trigger] is_ellipse_cuts(
            ops,
            t,
            cx,
            cy,
            major,
            minor,
            start,
            raised,
            ellipse_segments_of(wanted),
            points,
        ) && out == lines_through(points, style)
}

/// Whether `r` is the height that `ops` gives a text under `t`: its
/// height times the magnitude of the average scale of `t`, and 0.1 where
/// that is less.
pub open spec fn is_scaled_height<A: Arithmetic>(
    ops: &A,
    t: Transform2D,
    height: Binary64,
    r: Binary64,
) -> bool {
    exists|s: Binary64, m: Binary64|
        #[trigger] t.has_average_scale(ops, s) && #[trigger] is_product(
            ops,
            height,
            s.abs_spec(),
            m,
        ) && r == m.max_spec(b64(ONE_TENTH_BITS))
}

/// Whether `r` is the rotation that `ops` gives under `t` to what was
/// turned by `rotation` degrees: the sum of that and the rotation of `t`.
pub open spec fn is_turned<A: Arithmetic>(
    ops: &A,
    t: Transform2D,
    rotation: Binary64,
    r: Binary64,
) -> bool {
    exists|by: Binary64| #[trigger] t.has_rotation_deg(ops, by) && is_sum(ops, rotation, by, r)
}

/// Whether `out` is the image of the DXF entity `src` under the transform
/// `t`, with the numbers that `ops` gives.
///
/// A line, a point, a solid, a text and an insert stay one entity of
/// their kind and keep their style; ends, corners and places go where `t`
/// sends them. A text keeps content and text style, has the height of
/// [`is_scaled_height`], at least 0.1, and the rotation of [`is_turned`].
/// An insert keeps its block name and scales and has the rotation of
/// [`is_turned`]. A circle becomes a point, a circle or an ellipse as
/// [`circle_image_is`] says; an arc and an ellipse become the lines
/// through their cuts as [`arc_image_is`] and [`ellipse_image_is`] say.
pub open spec fn image_of<A: Arithmetic>(
    ops: &A,
    t: Transform2D,
    src: DxfEntityView,
    out: Seq<DxfEntityView>,
) -> bool {
    match src {
        DxfEntityView::Line { style, x1, y1, x2, y2 } => out.len() == 1 && match out[0] {
            DxfEntityView::Line { style: s, x1: a1, y1: b1, x2: a2, y2: b2 } => {
                &&& s == style
                &&& t.sends_point(ops, x1, y1, (a1, b1))
                &&& t.sends_point(ops, x2, y2, (a2, b2))
            },
            _ => false,
        },
        DxfEntityView::Circle { style, center_x, center_y, radius } => circle_image_is(
            ops,
            t,
            style,
            center_x,
            center_y,
            radius,
            out,
        ),
        DxfEntityView::Arc { style, center_x, center_y, radius, start_angle, end_angle } => arc_image_is(
            ops,
            t,
            style,
            center_x,
            center_y,
            radius,
            start_angle,
            end_angle,
            out,
        ),
        DxfEntityView::Ellipse {
            style,
            center_x,
            center_y,
            major_axis_x,
            major_axis_y,
            minor_ratio,
            start_param,
            end_param,
        } => ellipse_image_is(
            ops,
            t,
            style,
            center_x,
            center_y,
            (major_axis_x, major_axis_y),
            minor_ratio,
            start_param,
            end_param,
            out,
        ),
        DxfEntityView::Point { style, x, y } => out.len() == 1 && match out[0] {
            DxfEntityView::Point { style: s, x: a, y: b } => s == style && t.sends_point(
                ops,
                x,
                y,
                (a, b),
            ),
            _ => false,
        },
        DxfEntityView::Text { style, x, y, height, rotation, content, text_style } => out.len() == 1
            && match out[0] {
            DxfEntityView::Text {
                style: s,
                x: a,
                y: b,
                height: h,
                rotation: r,
                content: c,
                text_style: ts,
            } => {
                &&& s == style
                &&& c == content
                &&& ts == text_style
                &&& t.sends_point(ops, x, y, (a, b))
                &&& is_scaled_height(ops, t, height, h)
                &&& b64(ONE_TENTH_BITS).le_spec(h)
                &&& is_turned(ops, t, rotation, r)
            },
            _ => false,
        },
        DxfEntityView::Solid { style, x1, y1, x2, y2, x3, y3, x4, y4 } => out.len() == 1
            && match out[0] {
            DxfEntityView::Solid {
                style: s,
                x1: a1,
                y1: b1,
                x2: a2,
                y2: b2,
                x3: a3,
                y3: b3,
                x4: a4,
                y4: b4,
            } => {
                &&& s == style
                &&& t.sends_point(ops, x1, y1, (a1, b1))
                &&& t.sends_point(ops, x2, y2, (a2, b2))
                &&& t.sends_point(ops, x3, y3, (a3, b3))
                &&& t.sends_point(ops, x4, y4, (a4, b4))
            },
            _ => false,
        },
        DxfEntityView::Insert { style, block_name, x, y, scale_x, scale_y, rotation } => out.len()
            == 1 && match out[0] {
            DxfEntityView::Insert {
                style: s,
                block_name: n,
                x: a,
                y: b,
                scale_x: sx,
                scale_y: sy,
                rotation: r,
            } => {
                &&& s == style
                &&& n == block_name
                &&& sx == scale_x
                &&& sy == scale_y
                &&& t.sends_point(ops, x, y, (a, b))
                &&& is_turned(ops, t, rotation, r)
            },
            _ => false,
        },
    }
}

proof fn lemma_lines_chain(points: Seq<(Binary64, Binary64)>, style: Style)
    requires
        points.len() >= 2,
    ensures
        is_chain(lines_through(points, style), style, points.len() - 1),
{
}

/// What a circle becomes under a transform.
#[derive(Debug, Clone, Copy, PartialEq, Eq, Structural)]
pub enum CircleImage {
    /// A point: the circle shrinks to nothing.
    Point,
    /// A circle.
    Circle,
    /// An ellipse whose major axis is the image of the circle's first
    /// radius.
    EllipseAlongFirst,
    /// An ellipse whose major axis is the image of the circle's second
    /// radius.
    EllipseAlongSecond,
}

/// What a circle becomes, from the lengths `lu` and `lv` of the images of
/// two of its radii at right angles, whether these lengths are alike, and
/// the cosine `dot` of the angle between the images.
///
/// Where neither length is above 1e-12 it is a point. Else, where the
/// lengths are alike and the cosine is below 1e-6 either way, it is a
/// circle. Else it is an ellipse along the longer image, along the first
/// where neither is longer.
pub open spec fn circle_image_of(lu: Binary64, lv: Binary64, alike: bool, dot: Binary64) -> CircleImage {
    if lu.le_spec(b64(PICO_BITS)) && lv.le_spec(b64(PICO_BITS)) {
        CircleImage::Point
    } else if alike && dot.abs_spec().lt_spec(b64(MICRO_BITS)) {
        CircleImage::Circle
    } else if lv.le_spec(lu) {
        CircleImage::EllipseAlongFirst
    } else {
        CircleImage::EllipseAlongSecond
    }
}

pub fn circle_image(lu: Binary64, lv: Binary64, alike: bool, dot: Binary64) -> (r: CircleImage)
    ensures
        r == circle_image_of(lu, lv, alike, dot),
{
    let tiny = Binary64 { bits: PICO_BITS };
    if lu.le(tiny) && lv.le(tiny) {
        CircleImage::Point
    } else if alike && dot.abs().lt(Binary64 { bits: MICRO_BITS }) {
        CircleImage::Circle
    } else if lv.le(lu) {
        CircleImage::EllipseAlongFirst
    } else {
        CircleImage::EllipseAlongSecond
    }
}

/// A transform that does not scale alike in all directions turns a circle
/// into an ellipse, not into a circle: where the images of the radii are
/// not alike in length, and not both next to nothing, the image is an
/// ellipse.
pub proof fn unlike_radii_give_an_ellipse(lu: Binary64, lv: Binary64, dot: Binary64)
    requires
        !(lu.le_spec(b64(PICO_BITS)) && lv.le_spec(b64(PICO_BITS))),
    ensures
        circle_image_of(lu, lv, false, dot) == CircleImage::EllipseAlongFirst || circle_image_of(
            lu,
            lv,
            false,
            dot,
        ) == CircleImage::EllipseAlongSecond,
{
}

/// Where the images of a circle's radii are not alike in length, and not
/// both next to nothing, the circle is drawn as an ellipse about the image
/// of the centre, in the circle's style, from 0 to 2 pi. Its major axis
/// is the longer image, the first where neither is longer, and its ratio
/// is that of the shorter length to the longer.
pub proof fn unlike_radii_are_drawn_as_an_ellipse<A: Arithmetic>(
    ops: &A,
    style: Style,
    m: CircleMeasures,
    out: DxfEntityView,
)
    requires
        circle_drawn_as(ops, style, m, out),
        !m.alike,
        !(m.lu.le_spec(b64(PICO_BITS)) && m.lv.le_spec(b64(PICO_BITS))),
    ensures
        out is Ellipse,
        out.style() == style,
        (out->Ellipse_center_x, out->Ellipse_center_y) == m.center,
        out->Ellipse_start_param == b64(ZERO_BITS),
        out->Ellipse_end_param == b64(TWO_PI_BITS),
        m.lv.le_spec(m.lu) ==> (out->Ellipse_major_axis_x, out->Ellipse_major_axis_y) == m.u
            && is_ratio(ops, m.lv, m.lu, out->Ellipse_minor_ratio),
        !m.lv.le_spec(m.lu) ==> (out->Ellipse_major_axis_x, out->Ellipse_major_axis_y) == m.v
            && is_ratio(ops, m.lu, m.lv, out->Ellipse_minor_ratio),
{
}

/// Where the images of a circle's radii are alike in length, not both
/// next to nothing, and at right angles but for a cosine below 1e-6, the
/// circle is drawn as a circle about the image of the centre, in the
/// circle's style, with the mean of the two lengths as its radius.
pub proof fn alike_radii_are_drawn_as_a_circle<A: Arithmetic>(
    ops: &A,
    style: Style,
    m: CircleMeasures,
    out: DxfEntityView,
)
    requires
        circle_drawn_as(ops, style, m, out),
        m.alike,
        m.dot.abs_spec().lt_spec(b64(MICRO_BITS)),
        !(m.lu.le_spec(b64(PICO_BITS)) && m.lv.le_spec(b64(PICO_BITS))),
    ensures
        out is Circle,
        out.style() == style,
        (out->Circle_center_x, out->Circle_center_y) == m.center,
        is_mean(ops, m.lu, m.lv, out->Circle_radius),
{
}

/// The middle of what a circle is drawn as: the place of a point, the
/// centre of a circle or an ellipse.
pub open spec fn middle_of(e: DxfEntityView) -> (Binary64, Binary64) {
    match e {
        DxfEntityView::Point { x, y, .. } => (x, y),
        DxfEntityView::Circle { center_x, center_y, .. } => (center_x, center_y),
        DxfEntityView::Ellipse { center_x, center_y, .. } => (center_x, center_y),
        _ => (b64(0), b64(0)),
    }
}

/// Whatever a circle becomes under a transform, it is one point, circle
/// or ellipse in the circle's style, and its middle is where the
/// transform sends the circle's centre.
pub proof fn circle_image_lies_where_the_centre_goes<A: Arithmetic>(
    ops: &A,
    t: Transform2D,
    style: Style,
    cx: Binary64,
    cy: Binary64,
    radius: Binary64,
    out: Seq<DxfEntityView>,
)
    requires
        circle_image_is(ops, t, style, cx, cy, radius, out),
    ensures
        out.len() == 1,
        out[0] is Point || out[0] is Circle || out[0] is Ellipse,
        out[0].style() == style,
        t.sends_point(ops, cx, cy, middle_of(out[0])),
{
    let m = choose|m: CircleMeasures|
        #[trigger] is_circle_measures(ops, t, cx, cy, radius, m) && circle_drawn_as(
            ops,
            style,
            m,
            out[0],
        );
    assert(middle_of(out[0]) == m.center);
}

/// An arc becomes as many lines as [`arc_segments_of`] gives for a count
/// that `ops` asked for: at least 8 and at most 192, each in the arc's
/// style and each starting where the one before ends.
pub proof fn arc_image_is_a_chain<A: Arithmetic>(
    ops: &A,
    t: Transform2D,
    style: Style,
    cx: Binary64,
    cy: Binary64,
    radius: Binary64,
    start: Binary64,
    end: Binary64,
    out: Seq<DxfEntityView>,
)
    requires
        arc_image_is(ops, t, style, cx, cy, radius, start, end, out),
    ensures
        8 <= out.len() <= 192,
        exists|wanted: usize| out.len() == #[trigger] arc_segments_of(wanted),
        is_chain(out, style, out.len() as int),
{
    let (raised, wanted, points) = choose|
        raised: Binary64,
        wanted: usize,
        points: Seq<(Binary64, Binary64)>,
    |
        #[trigger] is_raised_end(ops, start, end, b64(THREE_SIXTY_BITS), false, raised)
            && #[trigger] is_wanted_count(
            ops,
            start,
            raised,
            b64(THREE_SIXTY_BITS),
            b64(NINETY_SIX_BITS),
            wanted,
        ) && #[trigger] is_arc_cuts(
            ops,
            t,
            cx,
            cy,
            radius,
            start,
            raised,
            arc_segments_of(wanted),
            points,
        ) && out == lines_through(points, style);
    lemma_lines_chain(points, style);
    assert(out.len() == arc_segments_of(wanted));
}

/// An ellipse becomes as many lines as [`ellipse_segments_of`] gives for
/// a count that `ops` asked for: at least 12 and at most 256, each in the
/// ellipse's style and each starting where the one before ends.
pub proof fn ellipse_image_is_a_chain<A: Arithmetic>(
    ops: &A,
    t: Transform2D,
    style: Style,
    cx: Binary64,
    cy: Binary64,
    major: (Binary64, Binary64),
    ratio: Binary64,
    start: Binary64,
    end: Binary64,
    out: Seq<DxfEntityView>,
)
    requires
        ellipse_image_is(ops, t, style, cx, cy, major, ratio, start, end, out),
    ensures
        12 <= out.len() <= 256,
        exists|wanted: usize| out.len() == #[trigger] ellipse_segments_of(wanted),
        is_chain(out, style, out.len() as int),
{
    let (raised, wanted, minor, points) = choose|
        raised: Binary64,
        wanted: usize,
        minor: (Binary64, Binary64),
        points: Seq<(Binary64, Binary64)>,
    |
        #[trigger] is_raised_end(ops, start, end, b64(TWO_PI_BITS), true, raised)
            && #[trigger] is_wanted_count(
            ops,
            start,
            raised,
            b64(TWO_PI_BITS),
            b64(ONE_TWENTY_EIGHT_BITS),
            wanted,
        ) && #[trigger] is_minor_axis(ops, major, ratio, minor) && #[trigger] is_ellipse_cuts(
            ops,
            t,
            cx,
            cy,
            major,
            minor,
            start,
            raised,
            ellipse_segments_of(wanted),
            points,
        ) && out == lines_through(points, style);
    lemma_lines_chain(points, style);
    assert(out.len() == ellipse_segments_of(wanted));
}

fn mean<A: Arithmetic>(ops: &A, a: Binary64, b: Binary64) -> (r: Binary64)
    ensures
        is_mean(ops, a, b, r),
{
    let s = ops.add(a, b);
    let r = ops.div(s, Binary64 { bits: TWO_BITS });
    assert(is_sum(ops, a, b, s));
    r
}

fn ratio<A: Arithmetic>(ops: &A, short: Binary64, long: Binary64) -> (r: Binary64)
    ensures
        is_ratio(ops, short, long, r),
{
    if long.le(Binary64 { bits: PICO_BITS }) {
        Binary64 { bits: ONE_BITS }
    } else {
        ops.div(short, long)
    }
}

fn cosine_between<A: Arithmetic>(
    ops: &A,
    u: (Binary64, Binary64),
    v: (Binary64, Binary64),
    lu: Binary64,
    lv: Binary64,
) -> (r: Binary64)
    ensures
        is_cosine_between(ops, u, v, lu, lv, r),
{
    let denom = ops.mul(lu, lv);
    assert(is_product(ops, lu, lv, denom));
    if denom.le(Binary64 { bits: PICO_BITS }) {
        Binary64 { bits: ZERO_BITS }
    } else {
        let n = dot(ops, u.0, v.0, u.1, v.1);
        ops.div(n, denom)
    }
}

/// What `ops` measures of a circle under a transform.
fn circle_measures<A: Arithmetic>(circle: &DxfCircle, transform: &Transform2D, ops: &A) -> (m:
    CircleMeasures)
    ensures
        is_circle_measures(ops, *transform, circle.center_x, circle.center_y, circle.radius, m),
{
    let zero = Binary64 { bits: ZERO_BITS };
    let center = transform.apply_point(circle.center_x, circle.center_y, ops);
    let u = transform.apply_vector(circle.radius, zero, ops);
    let v = transform.apply_vector(zero, circle.radius, ops);
    let lu = length(ops, u.0, u.1);
    let lv = length(ops, v.0, v.1);
    let dot = cosine_between(ops, u, v, lu, lv);
    let alike = nearly_equal(lu, lv, ops);
    CircleMeasures { center, u, v, lu, lv, alike, dot }
}

/// The image of a circle: a point, a circle or an ellipse, as
/// [`circle_image_of`] says of the images of its radii.
///
/// A point lies at the image of the centre. A circle has the mean of the
/// two lengths as its radius. An ellipse has the longer image as its major
/// axis and the ratio of the shorter to the longer as its ratio, and runs
/// from 0 to 2 pi.
pub fn transform_circle_for_explode<A: Arithmetic>(
    circle: &DxfCircle,
    transform: &Transform2D,
    ops: &A,
) -> (r: Vec<DxfEntity>)
    ensures
        image_of(ops, *transform, DxfEntity::Circle(*circle)@, dxf_views(r@)),
        circle_image_is(
            ops,
            *transform,
            style_view(circle.layer, circle.color, circle.line_type),
            circle.center_x,
            circle.center_y,
            circle.radius,
            dxf_views(r@),
        ),
{
    let zero = Binary64 { bits: ZERO_BITS };
    let m = circle_measures(circle, transform, ops);
    let center = m.center;
    let mut out: Vec<DxfEntity> = Vec::new();
    match circle_image(m.lu, m.lv, m.alike, m.dot) {
        CircleImage::Point => {
            out.push(
                DxfEntity::Point(
                    DxfPoint {
                        layer: circle.layer.clone(),
                        color: circle.color,
                        line_type: circle.line_type.clone(),
                        x: center.0,
                        y: center.1,
                    },
                ),
            );
        },
        CircleImage::Circle => {
            out.push(
                DxfEntity::Circle(
                    DxfCircle {
                        layer: circle.layer.clone(),
                        color: circle.color,
                        line_type: circle.line_type.clone(),
                        center_x: center.0,
                        center_y: center.1,
                        radius: mean(ops, m.lu, m.lv),
                    },
                ),
            );
        },
        CircleImage::EllipseAlongFirst => {
            out.push(
                DxfEntity::Ellipse(
                    DxfEllipse {
                        layer: circle.layer.clone(),
                        color: circle.color,
                        line_type: circle.line_type.clone(),
                        center_x: center.0,
                        center_y: center.1,
                        major_axis_x: m.u.0,
                        major_axis_y: m.u.1,
                        minor_ratio: ratio(ops, m.lv, m.lu),
                        start_param: zero,
                        end_param: Binary64 { bits: TWO_PI_BITS },
                    },
                ),
            );
        },
        CircleImage::EllipseAlongSecond => {
            out.push(
                DxfEntity::Ellipse(
                    DxfEllipse {
                        layer: circle.layer.clone(),
                        color: circle.color,
                        line_type: circle.line_type.clone(),
                        center_x: center.0,
                        center_y: center.1,
                        major_axis_x: m.v.0,
                        major_axis_y: m.v.1,
                        minor_ratio: ratio(ops, m.lu, m.lv),
                        start_param: zero,
                        end_param: Binary64 { bits: TWO_PI_BITS },
                    },
                ),
            );
        },
    }
    assert(circle_drawn_as(
        ops,
        style_view(circle.layer, circle.color, circle.line_type),
        m,
        dxf_views(out@)[0],
    ));
    out
}

fn below(end: Binary64, start: Binary64, or_equal: bool) -> (r: bool)
    ensures
        r == falls_short(end, start, or_equal),
{
    if or_equal {
        end.le(start)
    } else {
        end.lt(start)
    }
}

fn raised_end<A: Arithmetic>(
    ops: &A,
    start: Binary64,
    end: Binary64,
    turn: Binary64,
    or_equal: bool,
) -> (r: Binary64)
    ensures
        is_raised_end(ops, start, end, turn, or_equal, r),
{
    if !below(end, start, or_equal) {
        return end;
    }
    let gap = ops.sub(start, end);
    let part = ops.div(gap, turn);
    let turns = ops.ceil_to_count(part);
    let n = ops.from_count(turns);
    let rise = ops.mul(n, turn);
    let once = ops.add(end, rise);
    assert(is_difference(ops, start, end, gap) && is_quotient(ops, gap, turn, part) && is_ceiling(
        ops,
        part,
        turns,
    ) && is_count(ops, turns, n) && is_product(ops, n, turn, rise) && is_sum(ops, end, rise, once));
    if below(once, start, or_equal) {
        ops.add(once, turn)
    } else {
        once
    }
}

fn wanted_count<A: Arithmetic>(
    ops: &A,
    start: Binary64,
    end: Binary64,
    turn: Binary64,
    per_turn: Binary64,
) -> (n: usize)
    ensures
        is_wanted_count(ops, start, end, turn, per_turn, n),
{
    let d = ops.sub(end, start);
    let part = ops.div(d.abs(), turn);
    let scaled = ops.mul(part, per_turn);
    let n = ops.ceil_to_count(scaled);
    assert(is_difference(ops, end, start, d) && is_quotient(ops, d.abs_spec(), turn, part)
        && is_product(ops, part, per_turn, scaled));
    n
}

fn step_angle<A: Arithmetic>(ops: &A, start: Binary64, end: Binary64, i: usize, n: usize) -> (r:
    Binary64)
    ensures
        is_step_angle(ops, start, end, i, n, r),
{
    let d = ops.sub(end, start);
    let ci = ops.from_count(i);
    let m = ops.mul(d, ci);
    let cn = ops.from_count(n);
    let q = ops.div(m, cn);
    let r = ops.add(start, q);
    assert(is_difference(ops, end, start, d) && is_count(ops, i, ci) && is_product(ops, d, ci, m)
        && is_count(ops, n, cn) && is_quotient(ops, m, cn, q));
    r
}

fn radians<A: Arithmetic>(ops: &A, deg: Binary64) -> (r: Binary64)
    ensures
        is_radians(ops, deg, r),
{
    let m = ops.mul(deg, Binary64 { bits: PI_BITS });
    let r = ops.div(m, Binary64 { bits: ONE_EIGHTY_BITS });
    assert(is_product(ops, deg, b64(PI_BITS), m));
    r
}

fn on_circle<A: Arithmetic>(
    ops: &A,
    cx: Binary64,
    cy: Binary64,
    radius: Binary64,
    angle: Binary64,
) -> (p: (Binary64, Binary64))
    ensures
        is_on_circle(ops, cx, cy, radius, angle, p),
{
    let d = axis(radius, angle, ops);
    let p = (ops.add(cx, d.0), ops.add(cy, d.1));
    assert(is_axis(ops, radius, angle, d.0, d.1));
    p
}

fn arc_cut<A: Arithmetic>(
    ops: &A,
    transform: &Transform2D,
    arc: &DxfArc,
    end: Binary64,
    i: usize,
    n: usize,
) -> (p: (Binary64, Binary64))
    ensures
        is_arc_cut(
            ops,
            *transform,
            arc.center_x,
            arc.center_y,
            arc.radius,
            arc.start_angle,
            end,
            i,
            n,
            p,
        ),
{
    let deg = step_angle(ops, arc.start_angle, end, i, n);
    let rad = radians(ops, deg);
    let at = on_circle(ops, arc.center_x, arc.center_y, arc.radius, rad);
    let p = transform.apply_point(at.0, at.1, ops);
    assert(is_step_angle(ops, arc.start_angle, end, i, n, deg) && is_radians(ops, deg, rad)
        && is_on_circle(ops, arc.center_x, arc.center_y, arc.radius, rad, at));
    p
}

/// The image of an arc: it is cut into equal steps of its angle, 96 to the
/// full turn, and the images of the cut points are joined by lines.
///
/// An end angle below the start angle is first raised by as many full
/// turns as lie between the two, and by one more if that was not enough.
pub fn transform_arc_for_explode<A: Arithmetic>(arc: &DxfArc, transform: &Transform2D, ops: &A) -> (r:
    Vec<DxfEntity>)
    ensures
        image_of(ops, *transform, DxfEntity::Arc(*arc)@, dxf_views(r@)),
        arc_image_is(
            ops,
            *transform,
            style_view(arc.layer, arc.color, arc.line_type),
            arc.center_x,
            arc.center_y,
            arc.radius,
            arc.start_angle,
            arc.end_angle,
            dxf_views(r@),
        ),
        8 <= r@.len() <= 192,
        is_chain(dxf_views(r@), style_view(arc.layer, arc.color, arc.line_type), r@.len() as int),
{
    let full_turn = Binary64 { bits: THREE_SIXTY_BITS };
    let start = arc.start_angle;
    let end = raised_end(ops, start, arc.end_angle, full_turn, false);
    let wanted = wanted_count(ops, start, end, full_turn, Binary64 { bits: NINETY_SIX_BITS });
    let segments = arc_segments(wanted);
    let mut points: Vec<(Binary64, Binary64)> = Vec::new();
    let mut i: usize = 0;
    while i <= segments
        invariant
            i <= segments + 1,
            8 <= segments <= 192,
            points@.len() == i,
            forall|k: int|
                0 <= k < i ==> is_arc_cut(
                    ops,
                    *transform,
                    arc.center_x,
                    arc.center_y,
                    arc.radius,
                    arc.start_angle,
                    end,
                    k as usize,
                    segments,
                    #[trigger] points@[k],
                ),
        decreases segments + 1 - i,
    {
        let p = arc_cut(ops, transform, arc, end, i, segments);
        points.push(p);
        i += 1;
    }
    let ghost style = style_view(arc.layer, arc.color, arc.line_type);
    let ghost cuts = points@;
    proof {
        lemma_lines_chain(points@, style);
        assert(is_raised_end(ops, start, arc.end_angle, b64(THREE_SIXTY_BITS), false, end));
        assert(is_wanted_count(
            ops,
            start,
            end,
            b64(THREE_SIXTY_BITS),
            b64(NINETY_SIX_BITS),
            wanted,
        ));
        assert(is_arc_cuts(
            ops,
            *transform,
            arc.center_x,
            arc.center_y,
            arc.radius,
            start,
            end,
            arc_segments_of(wanted),
            points@,
        ));
    }
    let out = points_to_lines(points, arc.layer.clone(), arc.color, arc.line_type.clone());
    assert(dxf_views(out@) == lines_through(cuts, style));
    assert(dxf_views(out@).len() == segments);
    out
}

fn minor_axis<A: Arithmetic>(ops: &A, major: (Binary64, Binary64), ratio: Binary64) -> (r: (
    Binary64,
    Binary64,
))
    ensures
        is_minor_axis(ops, major, ratio, r),
{
    (ops.mul(major.1.neg(), ratio), ops.mul(major.0, ratio))
}

fn swung<A: Arithmetic>(
    ops: &A,
    o: Binary64,
    a: Binary64,
    c: Binary64,
    b: Binary64,
    s: Binary64,
) -> (r: Binary64)
    ensures
        is_swung(ops, o, a, c, b, s, r),
{
    let p = ops.mul(a, c);
    let m = ops.add(o, p);
    let q = ops.mul(b, s);
    let r = ops.add(m, q);
    assert(is_product(ops, a, c, p) && is_sum(ops, o, p, m) && is_product(ops, b, s, q));
    r
}

fn on_ellipse<A: Arithmetic>(
    ops: &A,
    cx: Binary64,
    cy: Binary64,
    major: (Binary64, Binary64),
    minor: (Binary64, Binary64),
    angle: Binary64,
) -> (p: (Binary64, Binary64))
    ensures
        is_on_ellipse(ops, cx, cy, major, minor, angle, p),
{
    let c = ops.cos(angle);
    let s = ops.sin(angle);
    let p = (swung(ops, cx, major.0, c, minor.0, s), swung(ops, cy, major.1, c, minor.1, s));
    assert(is_cosine(ops, angle, c) && is_sine(ops, angle, s));
    p
}

fn ellipse_cut<A: Arithmetic>(
    ops: &A,
    transform: &Transform2D,
    ellipse: &DxfEllipse,
    minor: (Binary64, Binary64),
    end: Binary64,
    i: usize,
    n: usize,
) -> (p: (Binary64, Binary64))
    ensures
        is_ellipse_cut(
            ops,
            *transform,
            ellipse.center_x,
            ellipse.center_y,
            (ellipse.major_axis_x, ellipse.major_axis_y),
            minor,
            ellipse.start_param,
            end,
            i,
            n,
            p,
        ),
{
    let major = (ellipse.major_axis_x, ellipse.major_axis_y);
    let angle = step_angle(ops, ellipse.start_param, end, i, n);
    let at = on_ellipse(ops, ellipse.center_x, ellipse.center_y, major, minor, angle);
    let p = transform.apply_point(at.0, at.1, ops);
    assert(is_step_angle(ops, ellipse.start_param, end, i, n, angle) && is_on_ellipse(
        ops,
        ellipse.center_x,
        ellipse.center_y,
        major,
        minor,
        angle,
        at,
    ));
    p
}

/// The image of an ellipse: it is cut into equal steps of its parameter,
/// 128 to the full turn, and the images of the cut points are joined by
/// lines. The minor axis is the major axis turned by a right angle and
/// shortened by the ratio.
///
/// An end parameter not above the start parameter is first raised by as
/// many full turns as lie between the two, and by one more if that was
/// not enough.
pub fn transform_ellipse_for_explode<A: Arithmetic>(
    ellipse: &DxfEllipse,
    transform: &Transform2D,
    ops: &A,
) -> (r: Vec<DxfEntity>)
    ensures
        image_of(ops, *transform, DxfEntity::Ellipse(*ellipse)@, dxf_views(r@)),
        ellipse_image_is(
            ops,
            *transform,
            style_view(ellipse.layer, ellipse.color, ellipse.line_type),
            ellipse.center_x,
            ellipse.center_y,
            (ellipse.major_axis_x, ellipse.major_axis_y),
            ellipse.minor_ratio,
            ellipse.start_param,
            ellipse.end_param,
            dxf_views(r@),
        ),
        12 <= r@.len() <= 256,
        is_chain(
            dxf_views(r@),
            style_view(ellipse.layer, ellipse.color, ellipse.line_type),
            r@.len() as int,
        ),
{
    let two_pi = Binary64 { bits: TWO_PI_BITS };
    let start = ellipse.start_param;
    let end = raised_end(ops, start, ellipse.end_param, two_pi, true);
    let wanted = wanted_count(ops, start, end, two_pi, Binary64 { bits: ONE_TWENTY_EIGHT_BITS });
    let segments = ellipse_segments(wanted);
    let minor = minor_axis(ops, (ellipse.major_axis_x, ellipse.major_axis_y), ellipse.minor_ratio);
    let mut points: Vec<(Binary64, Binary64)> = Vec::new();
    let mut i: usize = 0;
    while i <= segments
        invariant
            i <= segments + 1,
            12 <= segments <= 256,
            points@.len() == i,
            forall|k: int|
                0 <= k < i ==> is_ellipse_cut(
                    ops,
                    *transform,
                    ellipse.center_x,
                    ellipse.center_y,
                    (ellipse.major_axis_x, ellipse.major_axis_y),
                    minor,
                    ellipse.start_param,
                    end,
                    k as usize,
                    segments,
                    #[trigger] points@[k],
                ),
        decreases segments + 1 - i,
    {
        let p = ellipse_cut(ops, transform, ellipse, minor, end, i, segments);
        points.push(p);
        i += 1;
    }
    let ghost style = style_view(ellipse.layer, ellipse.color, ellipse.line_type);
    let ghost cuts = points@;
    proof {
        lemma_lines_chain(points@, style);
        assert(is_raised_end(ops, start, ellipse.end_param, b64(TWO_PI_BITS), true, end));
        assert(is_wanted_count(
            ops,
            start,
            end,
            b64(TWO_PI_BITS),
            b64(ONE_TWENTY_EIGHT_BITS),
            wanted,
        ));
        assert(is_ellipse_cuts(
            ops,
            *transform,
            ellipse.center_x,
            ellipse.center_y,
            (ellipse.major_axis_x, ellipse.major_axis_y),
            minor,
            start,
            end,
            ellipse_segments_of(wanted),
            points@,
        ));
    }
    let out = points_to_lines(points, ellipse.layer.clone(), ellipse.color, ellipse.line_type.clone());
    assert(dxf_views(out@) == lines_through(cuts, style));
    assert(dxf_views(out@).len() == segments);
    out
}

fn scaled_height<A: Arithmetic>(ops: &A, transform: &Transform2D, height: Binary64) -> (r: Binary64)
    ensures
        is_scaled_height(ops, *transform, height, r),
        b64(ONE_TENTH_BITS).le_spec(r),
{
    let s = transform.average_scale(ops);
    let m = ops.mul(height, s.abs());
    assert(transform.has_average_scale(ops, s) && is_product(ops, height, s.abs_spec(), m));
    m.max(Binary64 { bits: ONE_TENTH_BITS })
}

fn turned<A: Arithmetic>(ops: &A, transform: &Transform2D, rotation: Binary64) -> (r: Binary64)
    ensures
        is_turned(ops, *transform, rotation, r),
{
    let by = transform.rotation_deg(ops);
    let r = ops.add(rotation, by);
    assert(transform.has_rotation_deg(ops, by));
    r
}

/// The image of a DXF entity under a transform.
///
/// Ends of lines, corners of solids and places of points and texts go
/// where the transform sends them. A text grows by the transform's
/// average scale, to a height of at least 0.1, and turns by its rotation.
/// An insert moves and turns and keeps its scales.
pub fn transform_entity_for_explode<A: Arithmetic>(
    entity: &DxfEntity,
    transform: &Transform2D,
    ops: &A,
) -> (r: Vec<DxfEntity>)
    ensures
        image_of(ops, *transform, entity@, dxf_views(r@)),
{
    let mut out: Vec<DxfEntity> = Vec::new();
    match entity {
        DxfEntity::Line(v) => {
            let p = transform.apply_point(v.x1, v.y1, ops);
            let q = transform.apply_point(v.x2, v.y2, ops);
            out.push(
                DxfEntity::Line(
                    DxfLine {
                        layer: v.layer.clone(),
                        color: v.color,
                        line_type: v.line_type.clone(),
                        x1: p.0,
                        y1: p.1,
                        x2: q.0,
                        y2: q.1,
                    },
                ),
            );
        },
        DxfEntity::Circle(v) => {
            out = transform_circle_for_explode(v, transform, ops);
        },
        DxfEntity::Arc(v) => {
            out = transform_arc_for_explode(v, transform, ops);
        },
        DxfEntity::Ellipse(v) => {
            out = transform_ellipse_for_explode(v, transform, ops);
        },
        DxfEntity::Point(v) => {
            let p = transform.apply_point(v.x, v.y, ops);
            out.push(
                DxfEntity::Point(
                    DxfPoint {
                        layer: v.layer.clone(),
                        color: v.color,
                        line_type: v.line_type.clone(),
                        x: p.0,
                        y: p.1,
                    },
                ),
            );
        },
        DxfEntity::Text(v) => {
            let p = transform.apply_point(v.x, v.y, ops);
            let height = scaled_height(ops, transform, v.height);
            out.push(
                DxfEntity::Text(
                    DxfText {
                        layer: v.layer.clone(),
                        color: v.color,
                        line_type: v.line_type.clone(),
                        x: p.0,
                        y: p.1,
                        height,
                        rotation: turned(ops, transform, v.rotation),
                        content: v.content.clone(),
                        style: v.style.clone(),
                    },
                ),
            );
        },
        DxfEntity::Solid(v) => {
            let p1 = transform.apply_point(v.x1, v.y1, ops);
            let p2 = transform.apply_point(v.x2, v.y2, ops);
            let p3 = transform.apply_point(v.x3, v.y3, ops);
            let p4 = transform.apply_point(v.x4, v.y4, ops);
            out.push(
                DxfEntity::Solid(
                    DxfSolid {
                        layer: v.layer.clone(),
                        color: v.color,
                        line_type: v.line_type.clone(),
                        x1: p1.0,
                        y1: p1.1,
                        x2: p2.0,
                        y2: p2.1,
                        x3: p3.0,
                        y3: p3.1,
                        x4: p4.0,
                        y4: p4.1,
                    },
                ),
            );
        },
        DxfEntity::Insert(v) => {
            let p = transform.apply_point(v.x, v.y, ops);
            out.push(
                DxfEntity::Insert(
                    DxfInsert {
                        layer: v.layer.clone(),
                        color: v.color,
                        line_type: v.line_type.clone(),
                        block_name: v.block_name.clone(),
                        x: p.0,
                        y: p.1,
                        scale_x: v.scale_x,
                        scale_y: v.scale_y,
                        rotation: turned(ops, transform, v.rotation),
                    },
                ),
            );
        },
    }
    out
}

/// A diagnostic: a tag and, in round brackets, the number of a block
/// definition.
pub open spec fn note(tag: Seq<char>, n: u32) -> Seq<char> {
    tag + seq!['('] + decimal_text(n as nat) + seq![')']
}

fn note_string(tag: &str, n: u32) -> (r: String)
    ensures
        r@ == note(tag@, n),
{
    let mut out = owned(tag);
    out.push('(');
    push_decimal(&mut out, n as u64);
    out.push(')');
    assert(out@ =~= note(tag@, n));
    out
}

/// Where the definition for each number stands in the row; of two
/// definitions with one number the later one counts.
pub open spec fn def_indices(defs: Seq<BlockDefView>) -> Map<u32, int>
    decreases defs.len(),
{
    if defs.len() == 0 {
        Map::empty()
    } else {
        def_indices(defs.drop_last()).insert(defs.last().number, defs.len() - 1)
    }
}

/// Every place in [`def_indices`] is a place of the row, and the
/// definition there has the number asked for.
pub proof fn lemma_def_indices(defs: Seq<BlockDefView>, n: u32)
    ensures
        def_indices(defs).contains_key(n) ==> 0 <= def_indices(defs)[n] < defs.len()
            && defs[def_indices(defs)[n]].number == n,
    decreases defs.len(),
{
    if defs.len() > 0 {
        lemma_def_indices(defs.drop_last(), n);
    }
}

/// What a map of places holds, as contracts speak of it.
pub open spec fn places_view(m: Map<u32, usize>) -> Map<u32, int> {
    Map::new(|k: u32| m.contains_key(k), |k: u32| m[k] as int)
}

/// The place of each block definition by its number.
pub fn block_defs_by_number(block_defs: &[BlockDef]) -> (r: HashMap<u32, usize>)
    ensures
        places_view(r@) == def_indices(block_def_views(block_defs@)),
{
    let mut map: HashMap<u32, usize> = HashMap::new();
    let mut i: usize = 0;
    assert(places_view(map@) =~= Map::<u32, int>::empty());
    while i < block_defs.len()
        invariant
            i <= block_defs.len(),
            places_view(map@) == def_indices(block_def_views(block_defs@.take(i as int))),
        decreases block_defs.len() - i,
    {
        let ghost before = places_view(map@);
        map.insert(block_defs[i].number, i);
        proof {
            let now = block_def_views(block_defs@.take(i + 1));
            let was = block_def_views(block_defs@.take(i as int));
            assert(now.drop_last() =~= was);
            assert(now.last() == block_defs@[i as int]@);
            assert(places_view(map@) =~= before.insert(block_defs@[i as int].number, i as int));
        }
        i += 1;
    }
    assert(block_defs@.take(block_defs@.len() as int) =~= block_defs@);
    map
}

/// What becomes of a block reference met while exploding.
pub enum Verdict {
    /// As many definitions are open as the limit allows.
    DepthLimit,
    /// The definition referred to is open.
    Cycle,
    /// No definition has the number.
    Unresolved,
    /// The definition at `place` is opened.
    Expand { place: int },
}

/// What becomes of a reference to definition `n`, met with the
/// definitions `stack` open.
pub open spec fn verdict(defs: Seq<BlockDefView>, n: u32, stack: Seq<u32>, limit: nat) -> Verdict {
    if stack.len() >= limit {
        Verdict::DepthLimit
    } else if stack.contains(n) {
        Verdict::Cycle
    } else if !def_indices(defs).contains_key(n) {
        Verdict::Unresolved
    } else {
        Verdict::Expand { place: def_indices(defs)[n] }
    }
}

/// The diagnostics that exploding a row of entities records, in order.
///
/// A block reference met with as many definitions open as the limit
/// allows gives `BLOCK_DEPTH_LIMIT`; else one to a definition that is
/// open gives `BLOCK_CYCLE`; else one to a number without definition
/// gives `UNRESOLVED_BLOCK`; any other gives what exploding the entities
/// of its definition records, with that definition open. Other entities
/// give nothing.
pub open spec fn explode_notes(
    defs: Seq<BlockDefView>,
    entities: Seq<EntityView>,
    stack: Seq<u32>,
    limit: nat,
) -> Seq<Seq<char>>
    decreases limit - stack.len(), entities.len(),
{
    if entities.len() == 0 {
        Seq::empty()
    } else {
        explode_notes(defs, entities.drop_last(), stack, limit) + match entities.last() {
            EntityView::Block(b) => match verdict(defs, b.def_number, stack, limit) {
                Verdict::DepthLimit => seq![note("BLOCK_DEPTH_LIMIT"@, b.def_number)],
                Verdict::Cycle => seq![note("BLOCK_CYCLE"@, b.def_number)],
                Verdict::Unresolved => seq![note("UNRESOLVED_BLOCK"@, b.def_number)],
                Verdict::Expand { place } => if 0 <= place < defs.len() {
                    explode_notes(defs, defs[place].entities, stack.push(b.def_number), limit)
                } else {
                    Seq::empty()
                },
            },
            _ => Seq::empty(),
        }
    }
}

/// Whether `out` is made of the images under `t` of the entities `c`,
/// entity after entity.
pub open spec fn images_of<A: Arithmetic>(
    ops: &A,
    t: Transform2D,
    c: Seq<DxfEntityView>,
    out: Seq<DxfEntityView>,
) -> bool
    decreases c.len(),
{
    if c.len() == 0 {
        out.len() == 0
    } else {
        exists|k: int|
            #![trigger out.subrange(0, k)]
            0 <= k <= out.len() && images_of(ops, t, c.drop_last(), out.subrange(0, k))
                && image_of(ops, t, c.last(), out.subrange(k, out.len() as int))
    }
}

/// Whether `out` is made of the images under `t` of what is drawn for
/// the entity `e`.
pub open spec fn leaf_explodes_to<A: Arithmetic>(
    ops: &A,
    header: JwwHeaderView,
    names: Map<u32, Seq<char>>,
    t: Transform2D,
    e: EntityView,
    out: Seq<DxfEntityView>,
) -> bool {
    exists|c: Seq<DxfEntityView>|
        #[trigger] converts_to(ops, header, names, e, c) && images_of(ops, t, c, out)
}

/// Whether `child` is the transform that `ops` gives the entities of a
/// block placed by `block` inside a row placed by `t`: the placement of
/// the block, followed by `t`.
pub open spec fn is_placed<A: Arithmetic>(
    ops: &A,
    t: Transform2D,
    block: Block,
    child: Transform2D,
) -> bool {
    exists|m: Transform2D| #[trigger] is_placement(ops, block, m) && t.composes(ops, m, child)
}

/// Whether `out` is what exploding a row of entities placed by `t`
/// draws: for each entity in turn, nothing where a block reference is not
/// followed; where it is, what exploding its definition draws, placed as
/// [`is_placed`] says; and the images under `t` of what is drawn for any
/// other entity.
pub open spec fn explodes_to<A: Arithmetic>(
    ops: &A,
    header: JwwHeaderView,
    names: Map<u32, Seq<char>>,
    defs: Seq<BlockDefView>,
    t: Transform2D,
    entities: Seq<EntityView>,
    stack: Seq<u32>,
    limit: nat,
    out: Seq<DxfEntityView>,
) -> bool
    decreases limit - stack.len(), entities.len(),
{
    if entities.len() == 0 {
        out.len() == 0
    } else {
        exists|k: int|
            #![trigger out.subrange(0, k)]
            0 <= k <= out.len() && explodes_to(
                ops,
                header,
                names,
                defs,
                t,
                entities.drop_last(),
                stack,
                limit,
                out.subrange(0, k),
            ) && match entities.last() {
                EntityView::Block(b) => match verdict(defs, b.def_number, stack, limit) {
                    Verdict::Expand { place } => if 0 <= place < defs.len() {
                        exists|child: Transform2D|
                            #[trigger] is_placed(ops, t, b, child) && explodes_to(
                                ops,
                                header,
                                names,
                                defs,
                                child,
                                defs[place].entities,
                                stack.push(b.def_number),
                                limit,
                                out.subrange(k, out.len() as int),
                            )
                    } else {
                        k == out.len()
                    },
                    _ => k == out.len(),
                },
                e => leaf_explodes_to(ops, header, names, t, e, out.subrange(k, out.len() as int)),
            }
    }
}

/// No entity is an insert.
pub open spec fn no_inserts(out: Seq<DxfEntityView>) -> bool {
    forall|i: int| 0 <= i < out.len() ==> (#[trigger] out[i]).kind() != DxfKind::Insert
}

proof fn lemma_no_inserts_join(before: Seq<DxfEntityView>, added: Seq<DxfEntityView>)
    requires
        no_inserts(before),
        no_inserts(added),
    ensures
        no_inserts(before + added),
{
    let all = before + added;
    assert forall|m: int| 0 <= m < all.len() implies (#[trigger] all[m]).kind()
        != DxfKind::Insert by {
        if m < before.len() {
            assert(all[m] == before[m]);
        } else {
            assert(all[m] == added[m - before.len()]);
        }
    }
}

proof fn lemma_image_no_inserts<A: Arithmetic>(
    ops: &A,
    t: Transform2D,
    src: DxfEntityView,
    out: Seq<DxfEntityView>,
)
    requires
        image_of(ops, t, src, out),
        src.kind() != DxfKind::Insert,
    ensures
        no_inserts(out),
{
}

proof fn lemma_images_step<A: Arithmetic>(
    ops: &A,
    t: Transform2D,
    c: Seq<DxfEntityView>,
    before: Seq<DxfEntityView>,
    added: Seq<DxfEntityView>,
)
    requires
        c.len() > 0,
        images_of(ops, t, c.drop_last(), before),
        image_of(ops, t, c.last(), added),
    ensures
        images_of(ops, t, c, before + added),
{
    let all = before + added;
    let k = before.len() as int;
    assert(all.subrange(0, k) =~= before);
    assert(all.subrange(k, all.len() as int) =~= added);
}

proof fn lemma_drawn_no_inserts<A: Arithmetic>(
    ops: &A,
    header: JwwHeaderView,
    names: Map<u32, Seq<char>>,
    e: EntityView,
    c: Seq<DxfEntityView>,
)
    requires
        converts_to(ops, header, names, e, c),
        !(e is Block),
    ensures
        no_inserts(c),
{
}

/// What the last entity of a row adds to what exploding the row draws.
pub open spec fn last_explodes_to<A: Arithmetic>(
    ops: &A,
    header: JwwHeaderView,
    names: Map<u32, Seq<char>>,
    defs: Seq<BlockDefView>,
    t: Transform2D,
    e: EntityView,
    stack: Seq<u32>,
    limit: nat,
    added: Seq<DxfEntityView>,
) -> bool {
    match e {
        EntityView::Block(b) => match verdict(defs, b.def_number, stack, limit) {
            Verdict::Expand { place } => if 0 <= place < defs.len() {
                exists|child: Transform2D|
                    #[trigger] is_placed(ops, t, b, child) && explodes_to(
                        ops,
                        header,
                        names,
                        defs,
                        child,
                        defs[place].entities,
                        stack.push(b.def_number),
                        limit,
                        added,
                    )
            } else {
                added.len() == 0
            },
            _ => added.len() == 0,
        },
        other => leaf_explodes_to(ops, header, names, t, other, added),
    }
}

/// What the last entity of a row adds to the diagnostics of the row.
pub open spec fn last_notes(defs: Seq<BlockDefView>, e: EntityView, stack: Seq<u32>, limit: nat) -> Seq<
    Seq<char>,
> {
    match e {
        EntityView::Block(b) => match verdict(defs, b.def_number, stack, limit) {
            Verdict::DepthLimit => seq![note("BLOCK_DEPTH_LIMIT"@, b.def_number)],
            Verdict::Cycle => seq![note("BLOCK_CYCLE"@, b.def_number)],
            Verdict::Unresolved => seq![note("UNRESOLVED_BLOCK"@, b.def_number)],
            Verdict::Expand { place } => if 0 <= place < defs.len() {
                explode_notes(defs, defs[place].entities, stack.push(b.def_number), limit)
            } else {
                Seq::empty()
            },
        },
        _ => Seq::empty(),
    }
}

proof fn lemma_explode_step<A: Arithmetic>(
    ops: &A,
    header: JwwHeaderView,
    names: Map<u32, Seq<char>>,
    defs: Seq<BlockDefView>,
    t: Transform2D,
    now: Seq<EntityView>,
    stack: Seq<u32>,
    limit: nat,
    before: Seq<DxfEntityView>,
    added: Seq<DxfEntityView>,
)
    requires
        now.len() > 0,
        explodes_to(ops, header, names, defs, t, now.drop_last(), stack, limit, before),
        last_explodes_to(ops, header, names, defs, t, now.last(), stack, limit, added),
    ensures
        explodes_to(ops, header, names, defs, t, now, stack, limit, before + added),
        explode_notes(defs, now, stack, limit) == explode_notes(
            defs,
            now.drop_last(),
            stack,
            limit,
        ) + last_notes(defs, now.last(), stack, limit),
{
    let all = before + added;
    let k = before.len() as int;
    assert(all.subrange(0, k) =~= before);
    assert(all.subrange(k, all.len() as int) =~= added);
    assert(added.len() == 0 ==> k == all.len());
}

fn stack_holds(stack: &Vec<u32>, n: u32) -> (r: bool)
    ensures
        r == stack@.contains(n),
{
    let mut i: usize = 0;
    while i < stack.len()
        invariant
            i <= stack.len(),
            forall|k: int| 0 <= k < i ==> stack@[k] != n,
        decreases stack.len() - i,
    {
        if stack[i] == n {
            return true;
        }
        i += 1;
    }
    false
}

/// Draws an entity that is no block reference and maps what is drawn
/// through the transform.
fn explode_leaf<A: Arithmetic>(
    doc: &JwwDocument,
    entity: &Entity,
    block_name_map: &HashMap<u32, String>,
    transform: &Transform2D,
    unsupported_entities: &mut Vec<String>,
    ops: &A,
) -> (r: Vec<DxfEntity>)
    requires
        !(entity@ is Block),
    ensures
        leaf_explodes_to(
            ops,
            doc@.header,
            names_view(block_name_map@),
            *transform,
            entity@,
            dxf_views(r@),
        ),
        no_inserts(dxf_views(r@)),
        final(unsupported_entities)@ == old(unsupported_entities)@,
{
    let mut out: Vec<DxfEntity> = Vec::new();
    match convert_entity(doc, entity, block_name_map, ops) {
        Some(drawn) => {
            let ghost c = dxf_views(drawn@);
            let mut j: usize = 0;
            proof {
                assert(c.take(0) =~= Seq::<DxfEntityView>::empty());
                lemma_drawn_no_inserts(ops, doc@.header, names_view(block_name_map@), entity@, c);
            }
            while j < drawn.len()
                invariant
                    j <= drawn.len(),
                    c == dxf_views(drawn@),
                    no_inserts(c),
                    images_of(ops, *transform, c.take(j as int), dxf_views(out@)),
                    no_inserts(dxf_views(out@)),
                decreases drawn.len() - j,
            {
                let ghost before = dxf_views(out@);
                let mut part = transform_entity_for_explode(&drawn[j], transform, ops);
                let ghost added = dxf_views(part@);
                out.append(&mut part);
                proof {
                    let all = dxf_views(out@);
                    assert(all =~= before + added);
                    let now = c.take(j + 1);
                    assert(now.drop_last() =~= c.take(j as int));
                    assert(now.last() == c[j as int]);
                    lemma_images_step(ops, *transform, now, before, added);
                    lemma_image_no_inserts(ops, *transform, c[j as int], added);
                    lemma_no_inserts_join(before, added);
                }
                j += 1;
            }
            assert(c.take(c.len() as int) =~= c);
        },
        None => {
            unsupported_entities.push(owned(entity.entity_type()));
        },
    }
    out
}

/// Appends a diagnostic.
fn report(unsupported_entities: &mut Vec<String>, tag: &str, n: u32)
    ensures
        text_views(final(unsupported_entities)@) == text_views(old(unsupported_entities)@) + seq![
            note(tag@, n),
        ],
{
    let text = note_string(tag, n);
    unsupported_entities.push(text);
    assert(text_views(unsupported_entities@) =~= text_views(old(unsupported_entities)@) + seq![
        note(tag@, n),
    ]);
}

/// Draws a row of entities with every block reference replaced by the
/// entities of its definition, placed by the reference.
///
/// `transform` places the row itself; `expanding_stack` holds the numbers
/// of the definitions inside which the row lies; `block_defs` is what
/// [`block_defs_by_number`] makes of the document's definitions.
pub fn convert_entities_exploded<A: Arithmetic>(
    doc: &JwwDocument,
    entities: &[Entity],
    block_name_map: &HashMap<u32, String>,
    block_defs: &HashMap<u32, usize>,
    transform: &Transform2D,
    expanding_stack: &mut Vec<u32>,
    unsupported_entities: &mut Vec<String>,
    options: ConvertOptions,
    ops: &A,
) -> (r: Vec<DxfEntity>)
    requires
        places_view(block_defs@) == def_indices(doc@.block_defs),
    ensures
        final(expanding_stack)@ == old(expanding_stack)@,
        text_views(final(unsupported_entities)@) == text_views(old(unsupported_entities)@)
            + explode_notes(
            doc@.block_defs,
            entity_views(entities@),
            old(expanding_stack)@,
            options.max_block_nesting as nat,
        ),
        explodes_to(
            ops,
            doc@.header,
            names_view(block_name_map@),
            doc@.block_defs,
            *transform,
            entity_views(entities@),
            old(expanding_stack)@,
            options.max_block_nesting as nat,
            dxf_views(r@),
        ),
        no_inserts(dxf_views(r@)),
    decreases options.max_block_nesting - old(expanding_stack)@.len(), entities@.len(),
{
    let ghost header = doc@.header;
    let ghost names = names_view(block_name_map@);
    let ghost defs = doc@.block_defs;
    let ghost stack = expanding_stack@;
    let ghost limit = options.max_block_nesting as nat;
    let ghost notes0 = text_views(unsupported_entities@);
    let mut out: Vec<DxfEntity> = Vec::new();
    let mut i: usize = 0;
    proof {
        assert(notes0 + Seq::<Seq<char>>::empty() =~= notes0);
        assert(block_def_views(doc.block_defs@) =~= defs);
    }
    while i < entities.len()
        invariant
            i <= entities.len(),
            header == doc@.header,
            names == names_view(block_name_map@),
            defs == doc@.block_defs,
            defs.len() == doc.block_defs@.len(),
            limit == options.max_block_nesting,
            stack == old(expanding_stack)@,
            notes0 == text_views(old(unsupported_entities)@),
            places_view(block_defs@) == def_indices(defs),
            expanding_stack@ == stack,
            text_views(unsupported_entities@) == notes0 + explode_notes(
                defs,
                entity_views(entities@.take(i as int)),
                stack,
                limit,
            ),
            explodes_to(
                ops,
                header,
                names,
                defs,
                *transform,
                entity_views(entities@.take(i as int)),
                stack,
                limit,
                dxf_views(out@),
            ),
            no_inserts(dxf_views(out@)),
        decreases entities.len() - i,
    {
        let ghost before = dxf_views(out@);
        let ghost notes_before = explode_notes(
            defs,
            entity_views(entities@.take(i as int)),
            stack,
            limit,
        );
        let ghost notes_was = text_views(unsupported_entities@);
        let ghost now = entity_views(entities@.take(i + 1));
        proof {
            assert(now.drop_last() =~= entity_views(entities@.take(i as int)));
            assert(now.last() == entities@[i as int]@);
        }
        let mut part: Vec<DxfEntity> = Vec::new();
        assert(dxf_views(part@) =~= Seq::<DxfEntityView>::empty());
        match &entities[i] {
            Entity::Block(block) => {
                let n = block.def_number;
                proof {
                    lemma_def_indices(defs, n);
                    assert(places_view(block_defs@).contains_key(n) == block_defs@.contains_key(n));
                }
                if expanding_stack.len() >= options.max_block_nesting {
                    report(unsupported_entities, "BLOCK_DEPTH_LIMIT", n);
                } else if stack_holds(expanding_stack, n) {
                    report(unsupported_entities, "BLOCK_CYCLE", n);
                } else {
                    match block_defs.get(&n) {
                        None => {
                            report(unsupported_entities, "UNRESOLVED_BLOCK", n);
                        },
                        Some(place) => {
                            let d = *place;
                            assert(places_view(block_defs@)[n] == d as int);
                            let block_def = &doc.block_defs[d];
                            assert(block_def@ == defs[d as int]);
                            expanding_stack.push(n);
                            proof {
                                // The definition is exploded with an open
                                // stack wherever the row was.
                                if is_open_stack(defs, stack, limit) {
                                    opening_keeps_the_stack_open(defs, n, stack, limit);
                                    assert(is_open_stack(defs, expanding_stack@, limit));
                                }
                            }
                            let placement = Transform2D::from_insert(block, ops);
                            let child_transform = transform.compose(&placement, ops);
                            assert(is_placement(ops, *block, placement));
                            assert(is_placed(ops, *transform, *block, child_transform));
                            part = convert_entities_exploded(
                                doc,
                                block_def.entities.as_slice(),
                                block_name_map,
                                block_defs,
                                &child_transform,
                                expanding_stack,
                                unsupported_entities,
                                options,
                                ops,
                            );
                            expanding_stack.pop();
                            assert(expanding_stack@ =~= stack);
                        },
                    }
                }
            },
            other => {
                part = explode_leaf(doc, other, block_name_map, transform, unsupported_entities, ops);
                assert(notes_was + Seq::<Seq<char>>::empty() =~= notes_was);
            },
        }
        let ghost added = dxf_views(part@);
        let ghost more = last_notes(defs, now.last(), stack, limit);
        assert(last_explodes_to(ops, header, names, defs, *transform, now.last(), stack, limit, added));
        assert(text_views(unsupported_entities@) == notes_was + more);
        out.append(&mut part);
        proof {
            assert(dxf_views(out@) =~= before + added);
            lemma_explode_step(ops, header, names, defs, *transform, now, stack, limit, before, added);
            lemma_no_inserts_join(before, added);
            assert(notes0 + (notes_before + more) =~= (notes0 + notes_before) + more);
        }
        i += 1;
    }
    assert(entities@.take(entities@.len() as int) =~= entities@);
    out
}

/// Whether a DXF document is what converting a drawing gives.
///
/// The layers are the 256 of the header. Without exploding, the entities
/// and the blocks are the drawings of the source entities and block
/// definitions, and nothing is reported. With exploding, there are no
/// blocks and no inserts, the entities are what exploding the top level
/// draws where it is placed by the identity, and the diagnostics are
/// those that exploding records. The numbers are those that `ops` gives.
pub open spec fn is_conversion<A: Arithmetic>(
    ops: &A,
    doc: JwwDocumentView,
    options: ConvertOptions,
    out: DxfDocumentView,
) -> bool {
    let names = block_names_of(doc.block_defs);
    &&& out.layers == layers_of(doc.header)
    &&& if options.explode_inserts {
        &&& out.blocks.len() == 0
        &&& out.unsupported_entities == explode_notes(
            doc.block_defs,
            doc.entities,
            Seq::empty(),
            options.max_block_nesting as nat,
        )
        &&& explodes_to(
            ops,
            doc.header,
            names,
            doc.block_defs,
            identity_transform(),
            doc.entities,
            Seq::empty(),
            options.max_block_nesting as nat,
            out.entities,
        )
        &&& no_inserts(out.entities)
    } else {
        &&& out.unsupported_entities.len() == 0
        &&& converted(ops, doc.header, names, doc.entities, out.entities)
        &&& blocks_converted(ops, doc.header, names, doc.block_defs, out.blocks)
    }
}

pub fn convert_document_with_options<A: Arithmetic>(
    doc: &JwwDocument,
    options: ConvertOptions,
    ops: &A,
) -> (r: DxfDocument)
    ensures
        is_conversion(ops, doc@, options, r@),
{
    let layers = convert_layers(doc);
    let block_name_map = block_name_map(doc);
    let mut unsupported_entities: Vec<String> = Vec::new();
    assert(text_views(unsupported_entities@) =~= Seq::<Seq<char>>::empty());
    assert(entity_views(doc.entities@) =~= doc@.entities);
    assert(block_def_views(doc.block_defs@) =~= doc@.block_defs);
    if options.explode_inserts {
        let block_defs = block_defs_by_number(doc.block_defs.as_slice());
        let mut expanding_stack: Vec<u32> = Vec::new();
        let identity = Transform2D::identity();
        let entities = convert_entities_exploded(
            doc,
            doc.entities.as_slice(),
            &block_name_map,
            &block_defs,
            &identity,
            &mut expanding_stack,
            &mut unsupported_entities,
            options,
            ops,
        );
        let blocks: Vec<DxfBlock> = Vec::new();
        proof {
            assert(block_views(blocks@) =~= Seq::<DxfBlockView>::empty());
            let notes = explode_notes(
                doc@.block_defs,
                doc@.entities,
                Seq::empty(),
                options.max_block_nesting as nat,
            );
            assert(Seq::<Seq<char>>::empty() + notes =~= notes);
        }
        DxfDocument { layers, entities, blocks, unsupported_entities }
    } else {
        let entities = convert_entities(
            doc,
            doc.entities.as_slice(),
            &block_name_map,
            &mut unsupported_entities,
            ops,
        );
        let blocks = convert_blocks(doc, &block_name_map, &mut unsupported_entities, ops);
        DxfDocument { layers, entities, blocks, unsupported_entities }
    }
}

/// Converts a drawing with block references kept as inserts.
pub fn convert_document<A: Arithmetic>(doc: &JwwDocument, ops: &A) -> (r: DxfDocument)
    ensures
        is_conversion(
            ops,
            doc@,
            ConvertOptions { explode_inserts: false, max_block_nesting: 32 },
            r@,
        ),
{
    convert_document_with_options(
        doc,
        ConvertOptions { explode_inserts: false, max_block_nesting: 32 },
        ops,
    )
}

/// Converting a drawing without exploding keeps the counts of its top
/// level: there are as many DXF lines as lines and dimensions, as many
/// texts as texts and dimensions, as many points as points that are not
/// temporary, as many solids as solids, and as many inserts as block
/// references.
pub proof fn document_conversion_keeps_counts<A: Arithmetic>(
    ops: &A,
    doc: JwwDocumentView,
    options: ConvertOptions,
    out: DxfDocumentView,
    kind: DxfKind,
)
    requires
        is_conversion(ops, doc, options, out),
        !options.explode_inserts,
        kind == DxfKind::Line || kind == DxfKind::Point || kind == DxfKind::Text || kind
            == DxfKind::Solid || kind == DxfKind::Insert,
    ensures
        crate::dxf::count_kind(out.entities, kind) == crate::dxf::total_drawn_as(doc.entities, kind),
{
    crate::dxf::conversion_keeps_counts(
        ops,
        doc.header,
        block_names_of(doc.block_defs),
        doc.entities,
        out.entities,
        kind,
    );
}

/// After exploding there are no blocks and no inserts.
pub proof fn exploded_document_has_no_inserts<A: Arithmetic>(
    ops: &A,
    doc: JwwDocumentView,
    options: ConvertOptions,
    out: DxfDocumentView,
)
    requires
        is_conversion(ops, doc, options, out),
        options.explode_inserts,
    ensures
        out.blocks.len() == 0,
        forall|i: int| 0 <= i < out.entities.len() ==> out.entities[i].kind() != DxfKind::Insert,
{
}

/// Exploding records every reference that would close a cycle: where a
/// row holds a reference to a definition that is open, met below the
/// depth limit, the diagnostics of the row hold `BLOCK_CYCLE` with that
/// definition's number.
pub proof fn cycle_is_reported(
    defs: Seq<BlockDefView>,
    entities: Seq<EntityView>,
    stack: Seq<u32>,
    limit: nat,
    i: int,
)
    requires
        0 <= i < entities.len(),
        entities[i] is Block,
        stack.contains(entities[i]->Block_0.def_number),
        stack.len() < limit,
    ensures
        explode_notes(defs, entities, stack, limit).contains(
            note("BLOCK_CYCLE"@, entities[i]->Block_0.def_number),
        ),
    decreases entities.len(),
{
    let n = entities[i]->Block_0.def_number;
    let want = note("BLOCK_CYCLE"@, n);
    let front = explode_notes(defs, entities.drop_last(), stack, limit);
    let last = last_notes(defs, entities.last(), stack, limit);
    let all = explode_notes(defs, entities, stack, limit);
    assert(all == front + last);
    if i == entities.len() - 1 {
        assert(last == seq![want]);
        assert(all[front.len() as int] == want);
    } else {
        assert(entities.drop_last()[i] == entities[i]);
        cycle_is_reported(defs, entities.drop_last(), stack, limit, i);
        let k = choose|k: int| 0 <= k < front.len() && front[k] == want;
        assert(all[k] == want);
    }
}

/// Nothing is drawn for a temporary point when exploding either.
pub proof fn temporary_point_explodes_to_nothing<A: Arithmetic>(
    ops: &A,
    header: JwwHeaderView,
    names: Map<u32, Seq<char>>,
    t: Transform2D,
    e: EntityView,
    out: Seq<DxfEntityView>,
)
    requires
        leaf_explodes_to(ops, header, names, t, e, out),
        e is Point,
        e->Point_0.is_temporary,
    ensures
        out.len() == 0,
{
}

/// The numbers for which a row of definitions holds a definition.
pub open spec fn def_numbers(defs: Seq<BlockDefView>) -> Set<u32> {
    def_indices(defs).dom()
}

/// Whether `stack` can be the row of open definitions: no number stands
/// in it twice, each has a definition, and there are no more of them than
/// the limit allows.
pub open spec fn is_open_stack(defs: Seq<BlockDefView>, stack: Seq<u32>, limit: nat) -> bool {
    &&& stack.no_duplicates()
    &&& stack.len() <= limit
    &&& forall|i: int| 0 <= i < stack.len() ==> def_numbers(defs).contains(#[trigger] stack[i])
}

/// Whether exploding the row `entities` with `stack` open comes, at
/// whatever depth, to explode a row with `s` open. The walk is that of
/// [`explodes_to`] and [`explode_notes`]: a definition is opened where
/// [`verdict`] says so, and its number is then put on the stack.
pub open spec fn reaches(
    defs: Seq<BlockDefView>,
    entities: Seq<EntityView>,
    stack: Seq<u32>,
    limit: nat,
    s: Seq<u32>,
) -> bool
    decreases limit - stack.len(), entities.len(),
{
    if s == stack {
        true
    } else if entities.len() == 0 {
        false
    } else if reaches(defs, entities.drop_last(), stack, limit, s) {
        true
    } else {
        match entities.last() {
            EntityView::Block(b) => match verdict(defs, b.def_number, stack, limit) {
                Verdict::Expand { place } => if 0 <= place < defs.len() {
                    reaches(defs, defs[place].entities, stack.push(b.def_number), limit, s)
                } else {
                    false
                },
                _ => false,
            },
            _ => false,
        }
    }
}

proof fn lemma_def_numbers_finite(defs: Seq<BlockDefView>)
    ensures
        def_numbers(defs).finite(),
    decreases defs.len(),
{
    if defs.len() == 0 {
        assert(def_numbers(defs) =~= Set::<u32>::empty());
    } else {
        lemma_def_numbers_finite(defs.drop_last());
        assert(def_numbers(defs) =~= def_numbers(defs.drop_last()).insert(defs.last().number));
    }
}

/// Opening a definition keeps the stack open: the number put on it was
/// not on it, has a definition, and the limit was not yet reached.
pub proof fn opening_keeps_the_stack_open(
    defs: Seq<BlockDefView>,
    n: u32,
    stack: Seq<u32>,
    limit: nat,
)
    requires
        is_open_stack(defs, stack, limit),
        verdict(defs, n, stack, limit) is Expand,
    ensures
        is_open_stack(defs, stack.push(n), limit),
{
    let next = stack.push(n);
    assert forall|i: int, j: int| 0 <= i < next.len() && 0 <= j < next.len() && i != j implies next[i]
        != next[j] by {
        if i < stack.len() && j < stack.len() {
            assert(stack[i] != stack[j]);
        } else if i < stack.len() {
            assert(stack.contains(stack[i]));
        } else {
            assert(stack.contains(stack[j]));
        }
    }
}

/// An open stack holds no more numbers than the limit allows, and no more
/// than there are numbers with a definition.
pub proof fn open_stack_is_bounded(defs: Seq<BlockDefView>, stack: Seq<u32>, limit: nat)
    requires
        is_open_stack(defs, stack, limit),
    ensures
        stack.len() <= limit,
        stack.len() <= def_numbers(defs).len(),
{
    lemma_def_numbers_finite(defs);
    stack.unique_seq_to_set();
    assert(stack.to_set().subset_of(def_numbers(defs))) by {
        assert forall|n: u32| stack.to_set().contains(n) implies def_numbers(defs).contains(n) by {
            let i = choose|i: int| 0 <= i < stack.len() && stack[i] == n;
            assert(def_numbers(defs).contains(stack[i]));
        }
    }
    vstd::set_lib::lemma_len_subset(stack.to_set(), def_numbers(defs));
}

/// Exploding never goes deeper than the limit, nor deeper than there are
/// definitions: whatever row is exploded on the way, starting from an open
/// stack (the empty one is open), the definitions open then are pairwise
/// distinct, each has a definition, and they are no more than the limit
/// and no more than the numbers that have a definition.
pub proof fn open_definitions_stay_distinct_and_bounded(
    defs: Seq<BlockDefView>,
    entities: Seq<EntityView>,
    stack: Seq<u32>,
    limit: nat,
    s: Seq<u32>,
)
    requires
        is_open_stack(defs, stack, limit),
        reaches(defs, entities, stack, limit, s),
    ensures
        is_open_stack(defs, s, limit),
        s.no_duplicates(),
        s.len() <= limit,
        s.len() <= def_numbers(defs).len(),
    decreases limit - stack.len(), entities.len(),
{
    if s == stack {
    } else if reaches(defs, entities.drop_last(), stack, limit, s) {
        open_definitions_stay_distinct_and_bounded(defs, entities.drop_last(), stack, limit, s);
    } else {
        let b = entities.last()->Block_0;
        let place = verdict(defs, b.def_number, stack, limit)->Expand_place;
        opening_keeps_the_stack_open(defs, b.def_number, stack, limit);
        open_definitions_stay_distinct_and_bounded(
            defs,
            defs[place].entities,
            stack.push(b.def_number),
            limit,
            s,
        );
    }
    open_stack_is_bounded(defs, s, limit);
}

/// With nothing open the stack is open.
pub proof fn empty_stack_is_open(defs: Seq<BlockDefView>, limit: nat)
    ensures
        is_open_stack(defs, Seq::<u32>::empty(), limit),
{
}

} // verus!
