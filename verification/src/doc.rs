//! The typed content tree of one parsed document: pages, drawable events,
//! and the resource tables that font and image references point into.
//!
//! Values of these types come out of the XML deserialization collaborator
//! already validated; the renderer reads them and never mutates them.

use vstd::prelude::*;

use crate::geom::BoxMm;
use crate::geom::Color;
use crate::geom::MM_COORD_LIMIT;
use crate::geom::Matrix;
use crate::geom::mm_in_range;

verus! {

/// One font of the document's public resource table.
#[derive(Clone, Debug)]
pub struct Font {
    /// The integer id that text objects reference.
    pub id: u64,
    /// The family name handed to the backend when the font is selected.
    pub family_name: String,
}

/// One multimedia entry of the document resource table.
#[derive(Clone, Debug)]
pub struct MultiMedia {
    /// The integer id that image objects reference.
    pub id: u64,
    /// The media file name, as bytes of an archive-relative path component.
    pub media_file: Vec<u8>,
}

/// The public resource table: fonts keyed by integer id.
#[derive(Clone, Debug)]
pub struct PublicRes {
    pub fonts: Vec<Font>,
}

/// The document resource table: multimedia entries keyed by integer id,
/// plus the base-location prefix under which their files live.
#[derive(Clone, Debug)]
pub struct DocumentRes {
    /// Path prefix joined between the document root's parent directory and
    /// each media file name.
    pub base_loc: Vec<u8>,
    pub multi_medias: Vec<MultiMedia>,
}

/// One parsed document; immutable once parsed, read-only during rendering.
#[derive(Clone, Debug)]
pub struct Document {
    pub public_res: PublicRes,
    pub doc_res: DocumentRes,
}

/// A vector path element: rendered as the stroked outline of its boundary
/// box (arbitrary path geometry is approximated by the box, a known
/// limitation of the format walker).
#[derive(Clone, Debug)]
pub struct PathObject {
    /// Placement in document space, micrometres.
    pub boundary: BoxMm,
    pub stroke_color: Color,
    /// Stroke width in micrometres.
    pub line_width: i64,
}

/// The text content of a text object and its offset within the boundary box.
#[derive(Clone, Debug)]
pub struct TextCode {
    /// Offset from the box's top-left corner, micrometres.
    pub x: i64,
    /// Offset from the box's top-left corner, micrometres.
    pub y: i64,
    pub value: String,
}

/// A text run element.
#[derive(Clone, Debug)]
pub struct TextObject {
    /// Placement in document space, micrometres.
    pub boundary: BoxMm,
    /// Fill colour; rendering falls back to the default colour when absent.
    pub fill_color: Option<Color>,
    /// Reference into the font table; may legitimately be absent there.
    pub font: u64,
    /// Font size in micrometres.
    pub size: i64,
    pub text_code: TextCode,
    /// Optional local transform, composed after the translation to the
    /// text's position.
    pub ctm: Option<Matrix>,
}

/// A raster image element.
#[derive(Clone, Debug)]
pub struct ImageObject {
    /// Placement in document space, micrometres.
    pub boundary: BoxMm,
    /// Reference into the multimedia table; may legitimately be absent
    /// there, in which case nothing is rendered.
    pub resource_id: u64,
}

/// A nested block: its own ordered sequence of events, rendered in place.
pub struct PageBlock {
    pub events: Vec<Event>,
}

/// One drawable node of the content tree.
pub enum Event {
    PathObject(PathObject),
    TextObject(TextObject),
    ImageObject(ImageObject),
    PageBlock(PageBlock),
}

/// The single content layer of a page: an ordered event sequence.
pub struct Layer {
    pub events: Vec<Event>,
}

/// A page's content.
pub struct PageContent {
    pub layer: Layer,
}

/// One document page.
pub struct Page {
    pub content: PageContent,
}

impl PathObject {
    /// Coordinates within the range the engine accepts.
    pub open spec fn wf(self) -> bool {
        self.boundary.wf() && mm_in_range(self.line_width)
    }
}

impl TextObject {
    /// Coordinates within the range the engine accepts.
    pub open spec fn wf(self) -> bool {
        self.boundary.wf() && mm_in_range(self.size) && mm_in_range(self.text_code.x)
            && mm_in_range(self.text_code.y)
    }
}

impl ImageObject {
    /// Coordinates within the range the engine accepts.
    pub open spec fn wf(self) -> bool {
        self.boundary.wf()
    }
}

impl Event {
    /// Every node of the tree has its coordinates within the range the
    /// engine accepts.
    pub open spec fn wf(self) -> bool
        decreases self,
    {
        match self {
            Event::PathObject(p) => p.wf(),
            Event::TextObject(t) => t.wf(),
            Event::ImageObject(i) => i.wf(),
            Event::PageBlock(b) => events_wf(b.events@),
        }
    }
}

/// Every event of a sequence is well formed.
pub open spec fn events_wf(es: Seq<Event>) -> bool
    decreases es,
{
    es.len() == 0 || (es.first().wf() && events_wf(es.drop_first()))
}

/// Each event of a well-formed sequence is well formed.
pub proof fn lemma_events_wf_index(es: Seq<Event>, j: int)
    requires
        events_wf(es),
        0 <= j < es.len(),
    ensures
        es[j].wf(),
    decreases es,
{
    if j > 0 {
        lemma_events_wf_index(es.drop_first(), j - 1);
        assert(es.drop_first()[j - 1] == es[j]);
    }
}

/// A sequence whose events are each well formed is well formed.
pub proof fn lemma_events_wf_intro(es: Seq<Event>)
    requires
        forall|j: int| 0 <= j < es.len() ==> (#[trigger] es[j]).wf(),
    ensures
        events_wf(es),
    decreases es,
{
    if es.len() > 0 {
        assert(es[0].wf());
        assert forall|j: int| 0 <= j < es.drop_first().len() implies (#[trigger] es.drop_first()[j]).wf() by {
            assert(es.drop_first()[j] == es[j + 1]);
        }
        lemma_events_wf_intro(es.drop_first());
    }
}

impl Page {
    /// Every event of the page's content layer is well formed.
    pub open spec fn wf(self) -> bool {
        events_wf(self.content.layer.events@)
    }
}

/// Decides whether a micrometre coordinate is within the accepted range.
pub fn mm_in_range_check(v: i64) -> (r: bool)
    ensures
        r == mm_in_range(v),
{
    -MM_COORD_LIMIT <= v && v <= MM_COORD_LIMIT
}

impl BoxMm {
    /// Decides whether all four fields are within the accepted range.
    pub fn wf_check(&self) -> (r: bool)
        ensures
            r == self.wf(),
    {
        mm_in_range_check(self.x) && mm_in_range_check(self.y) && mm_in_range_check(self.width)
            && mm_in_range_check(self.height)
    }
}

impl Event {
    /// Decides whether every node of the tree has its coordinates within the
    /// accepted range: the executable form of `wf`, for callers that receive
    /// a tree from outside and must validate it before rendering.
    pub fn wf_check(&self) -> (r: bool)
        ensures
            r == self.wf(),
        decreases *self,
    {
        match self {
            Event::PathObject(p) => p.boundary.wf_check() && mm_in_range_check(p.line_width),
            Event::TextObject(t) => t.boundary.wf_check() && mm_in_range_check(t.size)
                && mm_in_range_check(t.text_code.x) && mm_in_range_check(t.text_code.y),
            Event::ImageObject(i) => i.boundary.wf_check(),
            Event::PageBlock(b) => events_wf_check(&b.events),
        }
    }
}

/// Decides whether every event of a sequence is well formed.
pub fn events_wf_check(events: &Vec<Event>) -> (r: bool)
    ensures
        r == events_wf(events@),
    decreases events@,
{
    let mut i: usize = 0;
    while i < events.len()
        invariant
            0 <= i <= events@.len(),
            forall|j: int| 0 <= j < i ==> (#[trigger] events@[j]).wf(),
        decreases events@.len() - i,
    {
        if !events[i].wf_check() {
            proof {
                if events_wf(events@) {
                    lemma_events_wf_index(events@, i as int);
                }
            }
            return false;
        }
        i = i + 1;
    }
    proof {
        lemma_events_wf_intro(events@);
    }
    true
}

impl Page {
    /// Decides whether every event of the page's content layer is well
    /// formed: the executable form of `wf`.
    pub fn wf_check(&self) -> (r: bool)
        ensures
            r == self.wf(),
    {
        events_wf_check(&self.content.layer.events)
    }
}

} // verus!
