//! Backend-neutral drawing operations.
//!
//! The tree walker renders a content tree into a flat sequence of `DrawOp`
//! values; a backend adapter replays them against its concrete target. The
//! vocabulary mirrors the primitive canvas capabilities the walker needs:
//! scope-acquire and release of drawing state, stroke and fill settings,
//! rectangle tracing, text painting and raster painting.

use vstd::prelude::*;

use crate::geom::BoxPx;
use crate::geom::Color;
use crate::geom::Matrix;

verus! {

/// One backend-neutral drawing operation. Lengths are in millionths of a
/// pixel, matrix coefficients in thousandths.
#[derive(Clone, Debug, PartialEq)]
pub enum DrawOp {
    /// Scope-acquire the backend's drawing state.
    Save,
    /// Release the most recently acquired drawing state.
    Restore,
    SetStrokeColor(Color),
    /// Stroke width, millionths of a pixel.
    SetLineWidth(i64),
    /// Select a font family by name; without this operation the backend's
    /// default family applies.
    SetFontFamily(String),
    /// Font size, millionths of a pixel.
    SetFontSize(i64),
    SetFillColor(Color),
    MoveTo(i64, i64),
    LineTo(i64, i64),
    /// Stroke the path traced so far.
    Stroke,
    /// Paint a text run: translate the origin by `(tx, ty)`, compose the
    /// local transform onto it if one is present (translate first, then the
    /// matrix), and draw `text` at the new local origin.
    PaintText { tx: i64, ty: i64, ctm: Option<Matrix>, text: String },
    /// Paint a decoded raster so that it maps exactly onto `target`
    /// (independent x and y scale factors; aspect ratio not preserved).
    PaintImage { bytes: Vec<u8>, width: u32, height: u32, target: BoxPx },
}

/// The mathematical shadow of a `DrawOp`: byte and character payloads appear
/// as sequences.
#[verifier::ext_equal]
pub enum OpView {
    Save,
    Restore,
    SetStrokeColor(Color),
    SetLineWidth(i64),
    SetFontFamily(Seq<char>),
    SetFontSize(i64),
    SetFillColor(Color),
    MoveTo(i64, i64),
    LineTo(i64, i64),
    Stroke,
    PaintText { tx: i64, ty: i64, ctm: Option<Matrix>, text: Seq<char> },
    PaintImage { bytes: Seq<u8>, width: u32, height: u32, target: BoxPx },
}

impl View for DrawOp {
    type V = OpView;

    open spec fn view(&self) -> OpView {
        match self {
            DrawOp::Save => OpView::Save,
            DrawOp::Restore => OpView::Restore,
            DrawOp::SetStrokeColor(c) => OpView::SetStrokeColor(*c),
            DrawOp::SetLineWidth(w) => OpView::SetLineWidth(*w),
            DrawOp::SetFontFamily(name) => OpView::SetFontFamily(name@),
            DrawOp::SetFontSize(s) => OpView::SetFontSize(*s),
            DrawOp::SetFillColor(c) => OpView::SetFillColor(*c),
            DrawOp::MoveTo(x, y) => OpView::MoveTo(*x, *y),
            DrawOp::LineTo(x, y) => OpView::LineTo(*x, *y),
            DrawOp::Stroke => OpView::Stroke,
            DrawOp::PaintText { tx, ty, ctm, text } => OpView::PaintText {
                tx: *tx,
                ty: *ty,
                ctm: *ctm,
                text: text@,
            },
            DrawOp::PaintImage { bytes, width, height, target } => OpView::PaintImage {
                bytes: bytes@,
                width: *width,
                height: *height,
                target: *target,
            },
        }
    }
}

/// The mathematical shadow of an emitted operation sequence.
pub open spec fn canvas_view(ops: Seq<DrawOp>) -> Seq<OpView> {
    ops.map_values(|op: DrawOp| op@)
}

/// The contribution of one operation to the depth of the backend's
/// save/restore stack.
pub open spec fn depth_delta(op: OpView) -> int {
    match op {
        OpView::Save => 1,
        OpView::Restore => -1,
        _ => 0,
    }
}

/// The save/restore stack depth after replaying `ops` from depth 0.
pub open spec fn total_depth(ops: Seq<OpView>) -> int
    decreases ops.len(),
{
    if ops.len() == 0 {
        0
    } else {
        depth_delta(ops[0]) + total_depth(ops.drop_first())
    }
}

/// Replaying `ops` from depth `d`, no prefix ever releases state that was
/// not acquired (the depth never drops below zero).
pub open spec fn depth_stays_non_negative(ops: Seq<OpView>, d: int) -> bool
    decreases ops.len(),
{
    if ops.len() == 0 {
        true
    } else {
        d + depth_delta(ops[0]) >= 0 && depth_stays_non_negative(
            ops.drop_first(),
            d + depth_delta(ops[0]),
        )
    }
}

/// The save/restore stack discipline: every scope-acquire has a matching
/// release, and no release comes without an acquire. An operation sequence a
/// renderer emits must satisfy this on every exit path, error or not.
pub open spec fn balanced(ops: Seq<OpView>) -> bool {
    total_depth(ops) == 0 && depth_stays_non_negative(ops, 0)
}

/// Stack depth adds up over concatenation.
pub proof fn lemma_total_depth_concat(a: Seq<OpView>, b: Seq<OpView>)
    ensures
        total_depth(a + b) == total_depth(a) + total_depth(b),
    decreases a.len(),
{
    if a.len() == 0 {
        assert(a + b =~= b);
    } else {
        assert((a + b).drop_first() =~= a.drop_first() + b);
        lemma_total_depth_concat(a.drop_first(), b);
    }
}

/// Non-negativity of the running depth carries over a concatenation when it
/// holds of each part from its own starting depth.
pub proof fn lemma_depth_non_negative_concat(a: Seq<OpView>, b: Seq<OpView>, d: int)
    requires
        depth_stays_non_negative(a, d),
        depth_stays_non_negative(b, d + total_depth(a)),
    ensures
        depth_stays_non_negative(a + b, d),
    decreases a.len(),
{
    if a.len() == 0 {
        assert(a + b =~= b);
    } else {
        assert((a + b).drop_first() =~= a.drop_first() + b);
        lemma_depth_non_negative_concat(a.drop_first(), b, d + depth_delta(a[0]));
    }
}

/// Two balanced operation sequences in a row are balanced.
pub proof fn lemma_balanced_concat(a: Seq<OpView>, b: Seq<OpView>)
    requires
        balanced(a),
        balanced(b),
    ensures
        balanced(a + b),
{
    lemma_total_depth_concat(a, b);
    lemma_depth_non_negative_concat(a, b, 0);
}

/// Raising the starting depth keeps the running depth non-negative.
pub proof fn lemma_depth_non_negative_weaken(ops: Seq<OpView>, d: int, d2: int)
    requires
        depth_stays_non_negative(ops, d),
        d <= d2,
    ensures
        depth_stays_non_negative(ops, d2),
    decreases ops.len(),
{
    if ops.len() > 0 {
        lemma_depth_non_negative_weaken(ops.drop_first(), d + depth_delta(ops[0]), d2
            + depth_delta(ops[0]));
    }
}

/// A sequence of operations that neither acquire nor release state is
/// balanced, and its running depth stays at any non-negative start.
pub proof fn lemma_neutral_depth(ops: Seq<OpView>, d: int)
    requires
        forall|i: int| 0 <= i < ops.len() ==> depth_delta(#[trigger] ops[i]) == 0,
        d >= 0,
    ensures
        total_depth(ops) == 0,
        depth_stays_non_negative(ops, d),
    decreases ops.len(),
{
    if ops.len() > 0 {
        assert(depth_delta(ops[0]) == 0);
        assert forall|i: int| 0 <= i < ops.drop_first().len() implies depth_delta(
            #[trigger] ops.drop_first()[i],
        ) == 0 by {
            assert(ops.drop_first()[i] == ops[i + 1]);
        }
        lemma_neutral_depth(ops.drop_first(), d);
    }
}

/// The empty sequence is balanced.
pub proof fn lemma_empty_balanced()
    ensures
        balanced(Seq::<OpView>::empty()),
{
}

/// A balanced sequence wrapped in a scope-acquire and its matching release
/// is balanced.
pub proof fn lemma_balanced_wrap(inner: Seq<OpView>)
    requires
        balanced(inner),
    ensures
        balanced(seq![OpView::Save] + inner + seq![OpView::Restore]),
{
    reveal_with_fuel(total_depth, 2);
    reveal_with_fuel(depth_stays_non_negative, 2);
    let whole = seq![OpView::Save] + inner + seq![OpView::Restore];
    lemma_total_depth_concat(seq![OpView::Save] + inner, seq![OpView::Restore]);
    lemma_total_depth_concat(seq![OpView::Save], inner);
    assert(seq![OpView::Restore].drop_first() =~= Seq::<OpView>::empty());
    assert(seq![OpView::Save].drop_first() =~= Seq::<OpView>::empty());
    assert(total_depth(seq![OpView::Restore]) == -1);
    assert(total_depth(seq![OpView::Save]) == 1);
    lemma_depth_non_negative_weaken(inner, 0, 1);
    assert(depth_stays_non_negative(seq![OpView::Restore], 1));
    lemma_depth_non_negative_concat(inner, seq![OpView::Restore], 1);
    lemma_depth_non_negative_concat(
        seq![OpView::Save],
        inner + seq![OpView::Restore],
        0,
    );
    assert(seq![OpView::Save] + (inner + seq![OpView::Restore]) =~= whole);
    lemma_total_depth_concat(seq![OpView::Save], inner + seq![OpView::Restore]);
    lemma_total_depth_concat(inner, seq![OpView::Restore]);
}

} // verus!
