//! The tree walker: renders a page's content tree, in document order, into a
//! flat sequence of backend-neutral drawing operations.
//!
//! Every node type renders against the same abstract canvas capability, so
//! both backend targets replay one operation stream and stay visually
//! equivalent by construction. The walk is fail-fast: the first failing
//! child aborts the remaining siblings, and the failure propagates to the
//! caller — but the operations already emitted always keep the save/restore
//! stack balanced, so no failure leaves backend state stacks unbalanced.

use vstd::prelude::*;

use crate::archive::Ofd;
use crate::archive::archive_entries;
use crate::doc::Document;
use crate::doc::Event;
use crate::doc::ImageObject;
use crate::doc::Page;
use crate::doc::PathObject;
use crate::doc::TextObject;
use crate::doc::events_wf;
use crate::geom::Color;
use crate::geom::MATRIX_UNIT;
use crate::geom::Matrix;
use crate::geom::mm_to_px;
use crate::geom::spec_mm_to_px;
use crate::ops::DrawOp;
use crate::ops::OpView;
use crate::ops::balanced;
use crate::ops::canvas_view;
use crate::ops::depth_delta;
use crate::ops::lemma_balanced_concat;
use crate::ops::lemma_balanced_wrap;
use crate::ops::lemma_empty_balanced;
use crate::ops::lemma_neutral_depth;
use crate::resolve::ResolveError;
use crate::resolve::media_of;
use crate::resolve::media_path_in;
use crate::resolve::png_dims;
use crate::resolve::resolve_font;
use crate::resolve::resolve_image_bytes;
use crate::resolve::find_font;

verus! {

/// How a render pass can fail. Absence of an optional reference (a font, a
/// colour, a transform) never raises one of these; absence or corruption of
/// a required byte resource does.
#[derive(Clone, Copy, Debug, PartialEq, Eq, Structural)]
pub enum RenderError {
    /// A referenced id is absent from its resource table.
    ResourceNotFound,
    /// A resolved media path names no entry of the container archive.
    ArchiveEntryMissing,
    /// A media entry's bytes cannot be decoded as the expected raster format.
    DecodeError,
    /// The graphics backend itself reported a failure while replaying the
    /// operations; raised by backend adapters, never by the walk.
    BackendDrawError,
}

/// Maps a resource resolution failure onto the render failure it propagates
/// as.
pub fn render_error_from(e: ResolveError) -> (r: RenderError)
    ensures
        e == ResolveError::ResourceNotFound ==> r == RenderError::ResourceNotFound,
        e == ResolveError::ArchiveEntryMissing ==> r == RenderError::ArchiveEntryMissing,
        e == ResolveError::DecodeError ==> r == RenderError::DecodeError,
{
    match e {
        ResolveError::ResourceNotFound => RenderError::ResourceNotFound,
        ResolveError::ArchiveEntryMissing => RenderError::ArchiveEntryMissing,
        ResolveError::DecodeError => RenderError::DecodeError,
    }
}

/// Where a local frame maps a point: the point goes through the local
/// transform if one is present (coefficients in thousandths), and the frame's
/// translation is applied after it. Translate first, then the matrix: both
/// are transformations, applied in sequence to the element's local space.
pub open spec fn frame_map(tx: i64, ty: i64, ctm: Option<Matrix>, p: (int, int)) -> (int, int) {
    match ctm {
        None => (p.0 + tx, p.1 + ty),
        Some(m) => (
            (m.a * p.0 + m.c * p.1) / (MATRIX_UNIT as int) + m.e * MATRIX_UNIT + tx,
            (m.b * p.0 + m.d * p.1) / (MATRIX_UNIT as int) + m.f * MATRIX_UNIT + ty,
        ),
    }
}

/// The fill colour of a text object: its own, or the documented default
/// (black) when it supplies none.
pub open spec fn text_fill_color(t: TextObject) -> Color {
    match t.fill_color {
        Some(c) => c,
        None => Color { r: 0, g: 0, b: 0 },
    }
}

/// The operations a path object renders to: its boundary box converted to
/// pixels and traced as a closed rectangle, clockwise from the top-left
/// corner, stroked with its colour and width, inside one save/restore scope.
pub open spec fn path_ops(p: PathObject) -> Seq<OpView> {
    let b = p.boundary.spec_to_pixel();
    seq![
        OpView::Save,
        OpView::SetStrokeColor(p.stroke_color),
        OpView::SetLineWidth(spec_mm_to_px(p.line_width as int) as i64),
        OpView::MoveTo(b.x, b.y),
        OpView::LineTo((b.x + b.width) as i64, b.y),
        OpView::LineTo((b.x + b.width) as i64, (b.y + b.height) as i64),
        OpView::LineTo(b.x, (b.y + b.height) as i64),
        OpView::LineTo(b.x, b.y),
        OpView::Stroke,
        OpView::Restore,
    ]
}

/// The font selection of a text object: the referenced family when the font
/// table holds the id, and no operation at all when it does not, so that the
/// backend's default family applies.
pub open spec fn text_font_ops(t: TextObject, doc: Document) -> Seq<OpView> {
    match find_font(doc.public_res.fonts@, t.font) {
        Some(f) => seq![OpView::SetFontFamily(f.family_name@)],
        None => Seq::empty(),
    }
}

/// The translation of a text object's local frame: box top-left plus the
/// text's own offset, in millionths of a pixel.
pub open spec fn text_translation(t: TextObject) -> (i64, i64) {
    (
        (spec_mm_to_px(t.boundary.x as int) + spec_mm_to_px(t.text_code.x as int)) as i64,
        (spec_mm_to_px(t.boundary.y as int) + spec_mm_to_px(t.text_code.y as int)) as i64,
    )
}

/// The operations a text object renders to: select the resolved font family
/// (if any), set size and fill colour, and paint the text in its local
/// frame, inside one save/restore scope.
pub open spec fn text_ops(t: TextObject, doc: Document) -> Seq<OpView> {
    seq![OpView::Save] + text_font_ops(t, doc) + seq![
        OpView::SetFontSize(spec_mm_to_px(t.size as int) as i64),
        OpView::SetFillColor(text_fill_color(t)),
        OpView::PaintText {
            tx: text_translation(t).0,
            ty: text_translation(t).1,
            ctm: t.ctm,
            text: t.text_code.value@,
        },
        OpView::Restore,
    ]
}

/// The operations an image object renders to, given the archive contents:
/// nothing but an empty scope when its id is absent from the resource table,
/// and otherwise the resolved bytes painted onto the pixel image of its
/// boundary box. (Only meaningful when the entry resolves; a failing
/// resolution aborts with a bare scope instead.)
pub open spec fn image_ops(
    img: ImageObject,
    doc: Document,
    root: Seq<u8>,
    entries: Map<Seq<u8>, Seq<u8>>,
) -> Seq<OpView> {
    match media_of(doc, img.resource_id) {
        None => seq![OpView::Save, OpView::Restore],
        Some(m) => {
            let bytes = entries[media_path_in(doc, root, m)];
            match png_dims(bytes) {
                Some(dims) => seq![
                    OpView::Save,
                    OpView::PaintImage {
                        bytes: bytes,
                        width: dims.0,
                        height: dims.1,
                        target: img.boundary.spec_to_pixel(),
                    },
                    OpView::Restore,
                ],
                None => seq![OpView::Save, OpView::Restore],
            }
        },
    }
}

/// True when rendering an image object cannot fail for a reason the inputs
/// determine: its id is absent (renders nothing), or its entry is present in
/// the archive and carries a well-formed raster header.
pub open spec fn image_clean(
    img: ImageObject,
    doc: Document,
    root: Seq<u8>,
    entries: Map<Seq<u8>, Seq<u8>>,
) -> bool {
    match media_of(doc, img.resource_id) {
        None => true,
        Some(m) => entries.contains_key(media_path_in(doc, root, m)) && png_dims(
            entries[media_path_in(doc, root, m)],
        ) is Some,
    }
}

/// The operations one event renders to, in the clean case.
pub open spec fn event_ops(
    e: Event,
    doc: Document,
    root: Seq<u8>,
    entries: Map<Seq<u8>, Seq<u8>>,
) -> Seq<OpView>
    decreases e,
{
    match e {
        Event::PathObject(p) => path_ops(p),
        Event::TextObject(t) => text_ops(t, doc),
        Event::ImageObject(img) => image_ops(img, doc, root, entries),
        Event::PageBlock(b) => events_ops(b.events@, doc, root, entries),
    }
}

/// The operations an event sequence renders to: each event's operations, in
/// declaration order — order is determined solely by sequence position.
pub open spec fn events_ops(
    es: Seq<Event>,
    doc: Document,
    root: Seq<u8>,
    entries: Map<Seq<u8>, Seq<u8>>,
) -> Seq<OpView>
    decreases es,
{
    if es.len() == 0 {
        Seq::empty()
    } else {
        events_ops(es.drop_last(), doc, root, entries) + event_ops(es.last(), doc, root, entries)
    }
}

/// True when no event of the tree can fail for a reason the inputs
/// determine.
pub open spec fn event_clean(
    e: Event,
    doc: Document,
    root: Seq<u8>,
    entries: Map<Seq<u8>, Seq<u8>>,
) -> bool
    decreases e,
{
    match e {
        Event::PathObject(_) => true,
        Event::TextObject(_) => true,
        Event::ImageObject(img) => image_clean(img, doc, root, entries),
        Event::PageBlock(b) => events_clean(b.events@, doc, root, entries),
    }
}

/// Every event of a sequence is clean.
pub open spec fn events_clean(
    es: Seq<Event>,
    doc: Document,
    root: Seq<u8>,
    entries: Map<Seq<u8>, Seq<u8>>,
) -> bool
    decreases es,
{
    es.len() == 0 || (event_clean(es.first(), doc, root, entries) && events_clean(
        es.drop_first(),
        doc,
        root,
        entries,
    ))
}

/// A sequence whose events are each clean is clean.
pub proof fn lemma_events_clean_intro(
    es: Seq<Event>,
    doc: Document,
    root: Seq<u8>,
    entries: Map<Seq<u8>, Seq<u8>>,
)
    requires
        forall|j: int| 0 <= j < es.len() ==> event_clean(#[trigger] es[j], doc, root, entries),
    ensures
        events_clean(es, doc, root, entries),
    decreases es,
{
    if es.len() > 0 {
        assert(event_clean(es[0], doc, root, entries));
        assert forall|j: int|
            0 <= j < es.drop_first().len() implies event_clean(
            #[trigger] es.drop_first()[j],
            doc,
            root,
            entries,
        ) by {
            assert(es.drop_first()[j] == es[j + 1]);
        }
        lemma_events_clean_intro(es.drop_first(), doc, root, entries);
    }
}

/// `out` is what an aborted render of `e` emitted: the failing image scope
/// is opened and closed again, and inside a block every sibling before the
/// failing child stands complete while nothing of any later sibling appears.
pub open spec fn aborted_ops(
    e: Event,
    doc: Document,
    root: Seq<u8>,
    entries: Map<Seq<u8>, Seq<u8>>,
    out: Seq<OpView>,
) -> bool
    decreases e,
{
    match e {
        Event::PathObject(_) => false,
        Event::TextObject(_) => false,
        Event::ImageObject(_) => out == seq![OpView::Save, OpView::Restore],
        Event::PageBlock(b) => aborted_events_ops(b.events@, doc, root, entries, out),
    }
}

/// `out` is what an aborted render of the sequence emitted: the complete
/// operations of the events before the failing one, then the aborted
/// operations of the failing event itself, and nothing further.
pub open spec fn aborted_events_ops(
    es: Seq<Event>,
    doc: Document,
    root: Seq<u8>,
    entries: Map<Seq<u8>, Seq<u8>>,
    out: Seq<OpView>,
) -> bool
    decreases es,
{
    exists|k: int|
        0 <= k < es.len() && out.len() >= events_ops(es.take(k), doc, root, entries).len()
            && out.take(events_ops(es.take(k), doc, root, entries).len() as int) == #[trigger] events_ops(es.take(k), doc, root, entries)
            && aborted_ops(
            es[k],
            doc,
            root,
            entries,
            out.skip(events_ops(es.take(k), doc, root, entries).len() as int),
        )
}

/// What a path object emits keeps the save/restore stack balanced.
pub proof fn lemma_path_ops_balanced(p: PathObject)
    ensures
        balanced(path_ops(p)),
{
    let ops = path_ops(p);
    let mid = ops.subrange(1, 9);
    assert(ops =~= seq![OpView::Save] + mid + seq![OpView::Restore]);
    assert forall|i: int| 0 <= i < mid.len() implies depth_delta(#[trigger] mid[i]) == 0 by {
        assert(mid[i] == ops[i + 1]);
    }
    lemma_neutral_depth(mid, 0);
    lemma_balanced_wrap(mid);
}

/// What a text object emits keeps the save/restore stack balanced.
pub proof fn lemma_text_ops_balanced(t: TextObject, doc: Document)
    ensures
        balanced(text_ops(t, doc)),
{
    let ops = text_ops(t, doc);
    let mid = ops.subrange(1, ops.len() - 1);
    assert(ops =~= seq![OpView::Save] + mid + seq![OpView::Restore]);
    assert forall|i: int| 0 <= i < mid.len() implies depth_delta(#[trigger] mid[i]) == 0 by {
        assert(mid[i] == ops[i + 1]);
        let fo = text_font_ops(t, doc);
        if i + 1 < 1 + fo.len() {
            assert(ops[i + 1] == fo[i]);
        }
    }
    lemma_neutral_depth(mid, 0);
    lemma_balanced_wrap(mid);
}

/// What an image object emits keeps the save/restore stack balanced.
pub proof fn lemma_image_ops_balanced(
    img: ImageObject,
    doc: Document,
    root: Seq<u8>,
    entries: Map<Seq<u8>, Seq<u8>>,
)
    ensures
        balanced(image_ops(img, doc, root, entries)),
        balanced(seq![OpView::Save, OpView::Restore]),
{
    lemma_empty_balanced();
    lemma_balanced_wrap(Seq::<OpView>::empty());
    assert(seq![OpView::Save] + Seq::<OpView>::empty() + seq![OpView::Restore] =~= seq![
        OpView::Save,
        OpView::Restore,
    ]);
    let ops = image_ops(img, doc, root, entries);
    if ops.len() == 3 {
        let mid = ops.subrange(1, 2);
        assert(ops =~= seq![OpView::Save] + mid + seq![OpView::Restore]);
        assert forall|i: int| 0 <= i < mid.len() implies depth_delta(#[trigger] mid[i]) == 0 by {
            assert(mid[i] == ops[i + 1]);
        }
        lemma_neutral_depth(mid, 0);
        lemma_balanced_wrap(mid);
    } else {
        assert(ops =~= seq![OpView::Save, OpView::Restore]);
    }
}

/// Whatever one event emits in the clean case keeps the save/restore stack
/// balanced.
pub proof fn lemma_event_ops_balanced(
    e: Event,
    doc: Document,
    root: Seq<u8>,
    entries: Map<Seq<u8>, Seq<u8>>,
)
    ensures
        balanced(event_ops(e, doc, root, entries)),
    decreases e,
{
    match e {
        Event::PathObject(p) => lemma_path_ops_balanced(p),
        Event::TextObject(t) => lemma_text_ops_balanced(t, doc),
        Event::ImageObject(img) => lemma_image_ops_balanced(img, doc, root, entries),
        Event::PageBlock(b) => lemma_events_ops_balanced(b.events@, doc, root, entries),
    }
}

/// Whatever an event sequence emits in the clean case keeps the save/restore
/// stack balanced.
pub proof fn lemma_events_ops_balanced(
    es: Seq<Event>,
    doc: Document,
    root: Seq<u8>,
    entries: Map<Seq<u8>, Seq<u8>>,
)
    ensures
        balanced(events_ops(es, doc, root, entries)),
    decreases es,
{
    if es.len() == 0 {
        lemma_empty_balanced();
    } else {
        lemma_events_ops_balanced(es.drop_last(), doc, root, entries);
        lemma_event_ops_balanced(es.last(), doc, root, entries);
        lemma_balanced_concat(
            events_ops(es.drop_last(), doc, root, entries),
            event_ops(es.last(), doc, root, entries),
        );
    }
}

/// One event more at the end of a sequence appends exactly that event's
/// operations.
pub proof fn lemma_events_ops_take_snoc(
    es: Seq<Event>,
    k: int,
    doc: Document,
    root: Seq<u8>,
    entries: Map<Seq<u8>, Seq<u8>>,
)
    requires
        0 <= k < es.len(),
    ensures
        events_ops(es.take(k + 1), doc, root, entries) == events_ops(es.take(k), doc, root, entries)
            + event_ops(es[k], doc, root, entries),
{
    assert(es.take(k + 1).drop_last() =~= es.take(k));
    assert(es.take(k + 1).last() == es[k]);
}

/// Events render in declaration order, determined solely by sequence
/// position: the operations of a sequence split anywhere are the operations
/// of its two parts, in that order.
pub proof fn lemma_events_ops_concat(
    es1: Seq<Event>,
    es2: Seq<Event>,
    doc: Document,
    root: Seq<u8>,
    entries: Map<Seq<u8>, Seq<u8>>,
)
    ensures
        events_ops(es1 + es2, doc, root, entries) == events_ops(es1, doc, root, entries)
            + events_ops(es2, doc, root, entries),
    decreases es2.len(),
{
    if es2.len() == 0 {
        assert(es1 + es2 =~= es1);
        assert(events_ops(es1, doc, root, entries) + Seq::<OpView>::empty() =~= events_ops(
            es1,
            doc,
            root,
            entries,
        ));
    } else {
        assert((es1 + es2).drop_last() =~= es1 + es2.drop_last());
        assert((es1 + es2).last() == es2.last());
        lemma_events_ops_concat(es1, es2.drop_last(), doc, root, entries);
        assert(events_ops(es1, doc, root, entries) + events_ops(es2.drop_last(), doc, root, entries)
            + event_ops(es2.last(), doc, root, entries) =~= events_ops(es1, doc, root, entries) + (
        events_ops(es2.drop_last(), doc, root, entries) + event_ops(
            es2.last(),
            doc,
            root,
            entries,
        )));
    }
}

/// The identity transform maps every point to itself within its frame.
pub proof fn lemma_frame_map_identity(tx: i64, ty: i64, p: (int, int))
    ensures
        frame_map(tx, ty, Some(Matrix::spec_identity()), p) == frame_map(tx, ty, None, p),
{
    assert((1000int * p.0 + 0 * p.1) / 1000int == p.0) by (nonlinear_arith);
    assert((1000int * p.1 + 0 * p.0) / 1000int == p.1) by (nonlinear_arith);
    assert((0int * p.0 + 1000int * p.1) / 1000int == p.1) by (nonlinear_arith);
}

/// Two operations are visually equivalent when they are equal, or when both
/// paint the same text and their frames map every point alike.
pub open spec fn op_visual_eq(o1: OpView, o2: OpView) -> bool {
    match (o1, o2) {
        (
            OpView::PaintText { tx: tx1, ty: ty1, ctm: c1, text: x1 },
            OpView::PaintText { tx: tx2, ty: ty2, ctm: c2, text: x2 },
        ) => x1 == x2 && forall|p: (int, int)|
            frame_map(tx1, ty1, c1, p) == frame_map(tx2, ty2, c2, p),
        _ => o1 == o2,
    }
}

/// Two operation sequences are visually equivalent when they match
/// operation for operation.
pub open spec fn ops_visual_eq(a: Seq<OpView>, b: Seq<OpView>) -> bool {
    a.len() == b.len() && forall|i: int|
        0 <= i < a.len() ==> op_visual_eq(#[trigger] a[i], #[trigger] b[i])
}

/// A local transform equal to the identity is a no-op beyond the translate:
/// a text object carrying it renders to the same visual result as the same
/// text object with no transform at all.
pub proof fn lemma_identity_ctm_no_op(t: TextObject, t_plain: TextObject, doc: Document)
    requires
        t.ctm == Some(Matrix::spec_identity()),
        t_plain.boundary == t.boundary,
        t_plain.fill_color == t.fill_color,
        t_plain.font == t.font,
        t_plain.size == t.size,
        t_plain.text_code == t.text_code,
        t_plain.ctm is None,
    ensures
        ops_visual_eq(text_ops(t, doc), text_ops(t_plain, doc)),
{
    let a = text_ops(t, doc);
    let b = text_ops(t_plain, doc);
    let fo = text_font_ops(t, doc);
    assert(text_font_ops(t_plain, doc) == fo);
    assert(a.len() == b.len());
    let paint_at = 1 + fo.len() + 2;
    assert forall|i: int| 0 <= i < a.len() implies op_visual_eq(a[i], b[i]) by {
        if i == paint_at {
            let txv = text_translation(t).0;
            let tyv = text_translation(t).1;
            assert(a[i] == (OpView::PaintText {
                tx: txv,
                ty: tyv,
                ctm: t.ctm,
                text: t.text_code.value@,
            }));
            assert(b[i] == (OpView::PaintText {
                tx: txv,
                ty: tyv,
                ctm: None,
                text: t.text_code.value@,
            }));
            assert forall|p: (int, int)|
                frame_map(txv, tyv, t.ctm, p) == frame_map(txv, tyv, None, p) by {
                lemma_frame_map_identity(txv, tyv, p);
            }
        } else {
            assert(a[i] == b[i]);
        }
    }
}

/// Renders a path object: one save/restore scope around stroke colour and
/// width, the boundary box traced as a closed clockwise rectangle, and a
/// stroke. Infallible: a path object draws from its own fields alone.
pub fn render_path_object(p: &PathObject, canvas: &mut Vec<DrawOp>)
    requires
        p.wf(),
    ensures
        canvas_view(final(canvas)@) == canvas_view(old(canvas)@) + path_ops(*p),
{
    let boundary = p.boundary.to_pixel();
    canvas.push(DrawOp::Save);
    canvas.push(DrawOp::SetStrokeColor(p.stroke_color));
    canvas.push(DrawOp::SetLineWidth(mm_to_px(p.line_width)));
    canvas.push(DrawOp::MoveTo(boundary.x, boundary.y));
    canvas.push(DrawOp::LineTo(boundary.x + boundary.width, boundary.y));
    canvas.push(DrawOp::LineTo(boundary.x + boundary.width, boundary.y + boundary.height));
    canvas.push(DrawOp::LineTo(boundary.x, boundary.y + boundary.height));
    canvas.push(DrawOp::LineTo(boundary.x, boundary.y));
    canvas.push(DrawOp::Stroke);
    canvas.push(DrawOp::Restore);
    proof {
        assert(canvas_view(canvas@) =~= canvas_view(old(canvas)@) + path_ops(*p));
    }
}

/// Renders a text object: resolve the font by id (an absent id selects no
/// family, so the backend default applies — not an error), set size and fill
/// colour (default colour when none is supplied), and paint the text
/// translated to box top-left plus its own offset, with the local transform,
/// if any, composed after the translation. Infallible.
pub fn render_text_object(t: &TextObject, document: &Document, canvas: &mut Vec<DrawOp>)
    requires
        t.wf(),
    ensures
        canvas_view(final(canvas)@) == canvas_view(old(canvas)@) + text_ops(*t, *document),
{
    canvas.push(DrawOp::Save);
    match resolve_font(document, t.font) {
        Some(font) => {
            canvas.push(DrawOp::SetFontFamily(font.family_name.clone()));
        },
        None => {},
    }
    canvas.push(DrawOp::SetFontSize(mm_to_px(t.size)));
    let fill = match &t.fill_color {
        Some(c) => *c,
        None => Color::default(),
    };
    canvas.push(DrawOp::SetFillColor(fill));
    let tx = mm_to_px(t.boundary.x) + mm_to_px(t.text_code.x);
    let ty = mm_to_px(t.boundary.y) + mm_to_px(t.text_code.y);
    canvas.push(DrawOp::PaintText { tx, ty, ctm: t.ctm, text: t.text_code.value.clone() });
    canvas.push(DrawOp::Restore);
    proof {
        assert(canvas_view(canvas@) =~= canvas_view(old(canvas)@) + text_ops(*t, *document));
    }
}

/// Renders an image object: resolve its backing bytes through the resource
/// tables and the container archive, and paint them onto the pixel image of
/// the boundary box. An id absent from the resource table renders nothing
/// and reports no error; an absent archive entry or undecodable bytes abort
/// with the failure — but the drawing scope is released on every exit path.
pub fn render_image_object(
    img: &ImageObject,
    ofd: &mut Ofd,
    document: &Document,
    canvas: &mut Vec<DrawOp>,
) -> (r: Result<(), RenderError>)
    requires
        img.wf(),
    ensures
        archive_entries(final(ofd).archive) == archive_entries(old(ofd).archive),
        final(ofd).doc_root@ == old(ofd).doc_root@,
        r matches Ok(_) ==> canvas_view(final(canvas)@) == canvas_view(old(canvas)@) + image_ops(*img, *document, old(ofd).doc_root@, archive_entries(old(ofd).archive)),
        r matches Ok(_) ==> image_clean(*img, *document, old(ofd).doc_root@, archive_entries(old(ofd).archive)),
        r matches Err(_) ==> canvas_view(final(canvas)@) == canvas_view(old(canvas)@) + seq![OpView::Save, OpView::Restore],
        media_of(*document, img.resource_id) is None ==> r matches Ok(_),
        (r matches Err(e) && e == RenderError::ArchiveEntryMissing) <==> (media_of(*document, img.resource_id) matches Some(m) && !archive_entries(old(ofd).archive).contains_key(media_path_in(*document, old(ofd).doc_root@, m))),
        r matches Err(e) ==> (e == RenderError::ArchiveEntryMissing || e == RenderError::DecodeError),
        !image_clean(*img, *document, old(ofd).doc_root@, archive_entries(old(ofd).archive)) ==> r matches Err(_),
        media_of(*document, img.resource_id) matches Some(m) && archive_entries(old(ofd).archive).contains_key(media_path_in(*document, old(ofd).doc_root@, m)) && png_dims(archive_entries(old(ofd).archive)[media_path_in(*document, old(ofd).doc_root@, m)]) is None ==> (r matches Err(e) && e == RenderError::DecodeError),
{
    let ghost root0 = ofd.doc_root@;
    let ghost entries0 = archive_entries(ofd.archive);
    canvas.push(DrawOp::Save);
    match resolve_image_bytes(ofd, document, img.resource_id) {
        Ok(res) => {
            let target = img.boundary.to_pixel();
            canvas.push(
                DrawOp::PaintImage { bytes: res.bytes, width: res.width, height: res.height, target },
            );
            canvas.push(DrawOp::Restore);
            proof {
                assert(canvas_view(canvas@) =~= canvas_view(old(canvas)@) + image_ops(
                    *img,
                    *document,
                    root0,
                    entries0,
                ));
            }
            Ok(())
        },
        Err(ResolveError::ResourceNotFound) => {
            canvas.push(DrawOp::Restore);
            proof {
                assert(canvas_view(canvas@) =~= canvas_view(old(canvas)@) + image_ops(
                    *img,
                    *document,
                    root0,
                    entries0,
                ));
            }
            Ok(())
        },
        Err(e) => {
            canvas.push(DrawOp::Restore);
            proof {
                assert(canvas_view(canvas@) =~= canvas_view(old(canvas)@) + seq![
                    OpView::Save,
                    OpView::Restore,
                ]);
            }
            Err(render_error_from(e))
        },
    }
}

/// Renders one event of the content tree, recursing into nested blocks.
pub fn render_event(
    event: &Event,
    ofd: &mut Ofd,
    document: &Document,
    canvas: &mut Vec<DrawOp>,
) -> (r: Result<(), RenderError>)
    requires
        event.wf(),
    ensures
        archive_entries(final(ofd).archive) == archive_entries(old(ofd).archive),
        final(ofd).doc_root@ == old(ofd).doc_root@,
        final(canvas)@.len() >= old(canvas)@.len(),
        canvas_view(final(canvas)@).take(old(canvas)@.len() as int) == canvas_view(old(canvas)@),
        r matches Ok(_) ==> canvas_view(final(canvas)@) == canvas_view(old(canvas)@) + event_ops(*event, *document, old(ofd).doc_root@, archive_entries(old(ofd).archive)),
        r matches Ok(_) ==> event_clean(*event, *document, old(ofd).doc_root@, archive_entries(old(ofd).archive)),
        r matches Err(_) ==> aborted_ops(*event, *document, old(ofd).doc_root@, archive_entries(old(ofd).archive), canvas_view(final(canvas)@).skip(old(canvas)@.len() as int)),
        !event_clean(*event, *document, old(ofd).doc_root@, archive_entries(old(ofd).archive)) ==> r matches Err(_),
        r matches Err(e) ==> (e == RenderError::ArchiveEntryMissing || e == RenderError::DecodeError),
        balanced(canvas_view(final(canvas)@).skip(old(canvas)@.len() as int)),
    decreases *event,
{
    let ghost n0 = canvas@.len() as int;
    match event {
        Event::PathObject(p) => {
            render_path_object(p, canvas);
            proof {
                assert(canvas_view(canvas@).take(n0) =~= canvas_view(old(canvas)@));
                assert(canvas_view(canvas@).skip(n0) =~= path_ops(*p));
                lemma_path_ops_balanced(*p);
            }
            Ok(())
        },
        Event::TextObject(t) => {
            render_text_object(t, document, canvas);
            proof {
                assert(canvas_view(canvas@).take(n0) =~= canvas_view(old(canvas)@));
                assert(canvas_view(canvas@).skip(n0) =~= text_ops(*t, *document));
                lemma_text_ops_balanced(*t, *document);
            }
            Ok(())
        },
        Event::ImageObject(img) => {
            let r = render_image_object(img, ofd, document, canvas);
            proof {
                lemma_image_ops_balanced(
                    *img,
                    *document,
                    old(ofd).doc_root@,
                    archive_entries(old(ofd).archive),
                );
                assert(canvas_view(canvas@).take(n0) =~= canvas_view(old(canvas)@));
                if r matches Ok(_) {
                    assert(canvas_view(canvas@).skip(n0) =~= image_ops(
                        *img,
                        *document,
                        old(ofd).doc_root@,
                        archive_entries(old(ofd).archive),
                    ));
                } else {
                    assert(canvas_view(canvas@).skip(n0) =~= seq![OpView::Save, OpView::Restore]);
                }
            }
            r
        },
        Event::PageBlock(b) => {
            let r = render_events(&b.events, ofd, document, canvas);
            r
        },
    }
}

/// Renders an ordered event sequence strictly in the order the events appear,
/// recursing into nested blocks: painter's-algorithm semantics, later
/// elements occlude earlier ones. Fail-fast: the first failing child aborts
/// the remaining walk, the failure propagates, and everything emitted up to
/// the abort keeps the save/restore stack balanced.
pub fn render_events(
    events: &Vec<Event>,
    ofd: &mut Ofd,
    document: &Document,
    canvas: &mut Vec<DrawOp>,
) -> (r: Result<(), RenderError>)
    requires
        events_wf(events@),
    ensures
        archive_entries(final(ofd).archive) == archive_entries(old(ofd).archive),
        final(ofd).doc_root@ == old(ofd).doc_root@,
        final(canvas)@.len() >= old(canvas)@.len(),
        canvas_view(final(canvas)@).take(old(canvas)@.len() as int) == canvas_view(old(canvas)@),
        r matches Ok(_) ==> canvas_view(final(canvas)@) == canvas_view(old(canvas)@) + events_ops(events@, *document, old(ofd).doc_root@, archive_entries(old(ofd).archive)),
        r matches Ok(_) ==> events_clean(events@, *document, old(ofd).doc_root@, archive_entries(old(ofd).archive)),
        r matches Err(_) ==> aborted_events_ops(events@, *document, old(ofd).doc_root@, archive_entries(old(ofd).archive), canvas_view(final(canvas)@).skip(old(canvas)@.len() as int)),
        !events_clean(events@, *document, old(ofd).doc_root@, archive_entries(old(ofd).archive)) ==> r matches Err(_),
        r matches Err(e) ==> (e == RenderError::ArchiveEntryMissing || e == RenderError::DecodeError),
        balanced(canvas_view(final(canvas)@).skip(old(canvas)@.len() as int)),
    decreases events@,
{
    let ghost doc0 = *document;
    let ghost root0 = ofd.doc_root@;
    let ghost entries0 = archive_entries(ofd.archive);
    let ghost base = canvas@;
    proof {
        assert(events@.take(0) =~= Seq::<Event>::empty());
        assert(canvas_view(base) + Seq::<OpView>::empty() =~= canvas_view(base));
    }
    let mut j: usize = 0;
    #[verifier::loop_isolation(false)]
    while j < events.len()
        invariant
            0 <= j <= events@.len(),
            events_wf(events@),
            doc0 == *document,
            ofd.doc_root@ == root0,
            archive_entries(ofd.archive) == entries0,
            canvas@.len() >= base.len(),
            canvas_view(canvas@) == canvas_view(base) + events_ops(events@.take(j as int), doc0, root0, entries0),
            forall|j2: int| 0 <= j2 < j ==> event_clean(#[trigger] events@[j2], doc0, root0, entries0),
        decreases events@.len() - j,
    {
        let ghost prev = canvas@;
        proof {
            crate::doc::lemma_events_wf_index(events@, j as int);
        }
        let res = render_event(&events[j], ofd, document, canvas);
        match res {
            Ok(_) => {
                proof {
                    lemma_events_ops_take_snoc(events@, j as int, doc0, root0, entries0);
                    assert(canvas_view(canvas@) =~= canvas_view(base) + events_ops(
                        events@.take(j as int + 1),
                        doc0,
                        root0,
                        entries0,
                    ));
                }
                j = j + 1;
            },
            Err(e) => {
                proof {
                    let tail = canvas_view(canvas@).skip(prev.len() as int);
                    let emitted = canvas_view(canvas@).skip(base.len() as int);
                    assert(canvas_view(canvas@).take(prev.len() as int) == canvas_view(prev));
                    assert(canvas_view(canvas@) =~= canvas_view(canvas@).take(prev.len() as int)
                        + tail);
                    assert(emitted =~= events_ops(events@.take(j as int), doc0, root0, entries0)
                        + tail);
                    assert(aborted_ops(events@[j as int], doc0, root0, entries0, tail));
                    let jj = j as int;
                    let done = events_ops(events@.take(jj), doc0, root0, entries0);
                    assert(emitted.take(done.len() as int) =~= done);
                    assert(emitted.skip(done.len() as int) =~= tail);
                    assert(0 <= jj && jj < events@.len() && emitted.len() >= done.len()
                        && emitted.take(done.len() as int) == events_ops(
                        events@.take(jj),
                        doc0,
                        root0,
                        entries0,
                    ) && aborted_ops(
                        events@[jj],
                        doc0,
                        root0,
                        entries0,
                        emitted.skip(done.len() as int),
                    ));
                    assert(aborted_events_ops(events@, doc0, root0, entries0, emitted));
                    lemma_events_ops_balanced(events@.take(j as int), doc0, root0, entries0);
                    lemma_balanced_concat(
                        events_ops(events@.take(j as int), doc0, root0, entries0),
                        tail,
                    );
                    assert(canvas_view(canvas@).take(base.len() as int) =~= canvas_view(base));
                }
                return Err(e);
            },
        }
    }
    proof {
        lemma_events_clean_intro(events@, doc0, root0, entries0);
        assert(events@.take(events@.len() as int) =~= events@);
        assert(canvas_view(canvas@).take(base.len() as int) =~= canvas_view(base));
        assert(canvas_view(canvas@).skip(base.len() as int) =~= events_ops(
            events@,
            doc0,
            root0,
            entries0,
        ));
        lemma_events_ops_balanced(events@, doc0, root0, entries0);
    }
    Ok(())
}

/// Renders one page: its single content layer's events, in document order.
/// The public rendering entry point accepts document-native millimetre
/// coordinates and performs every pixel conversion itself.
pub fn render_page(
    page: &Page,
    ofd: &mut Ofd,
    document: &Document,
    canvas: &mut Vec<DrawOp>,
) -> (r: Result<(), RenderError>)
    requires
        page.wf(),
    ensures
        archive_entries(final(ofd).archive) == archive_entries(old(ofd).archive),
        final(ofd).doc_root@ == old(ofd).doc_root@,
        final(canvas)@.len() >= old(canvas)@.len(),
        canvas_view(final(canvas)@).take(old(canvas)@.len() as int) == canvas_view(old(canvas)@),
        r matches Ok(_) ==> canvas_view(final(canvas)@) == canvas_view(old(canvas)@) + events_ops(page.content.layer.events@, *document, old(ofd).doc_root@, archive_entries(old(ofd).archive)),
        r matches Ok(_) ==> events_clean(page.content.layer.events@, *document, old(ofd).doc_root@, archive_entries(old(ofd).archive)),
        r matches Err(_) ==> aborted_events_ops(page.content.layer.events@, *document, old(ofd).doc_root@, archive_entries(old(ofd).archive), canvas_view(final(canvas)@).skip(old(canvas)@.len() as int)),
        !events_clean(page.content.layer.events@, *document, old(ofd).doc_root@, archive_entries(old(ofd).archive)) ==> r matches Err(_),
        r matches Err(e) ==> (e == RenderError::ArchiveEntryMissing || e == RenderError::DecodeError),
        balanced(canvas_view(final(canvas)@).skip(old(canvas)@.len() as int)),
{
    render_events(&page.content.layer.events, ofd, document, canvas)
}

/// Renders the document node itself: it draws nothing of its own — its pages
/// are rendered one by one — so the canvas is left exactly as it was.
pub fn render_document(document: &Document, canvas: &mut Vec<DrawOp>) -> (r: Result<
    (),
    RenderError,
>)
    ensures
        final(canvas)@ == old(canvas)@,
        r matches Ok(_),
{
    Ok(())
}

} // verus!
