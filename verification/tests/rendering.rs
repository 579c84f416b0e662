use std::io::Cursor;
use std::io::Write;

use rofd::archive::Archive;
use rofd::archive::Ofd;
use rofd::doc::Document;
use rofd::doc::DocumentRes;
use rofd::doc::Event;
use rofd::doc::Font;
use rofd::doc::ImageObject;
use rofd::doc::Layer;
use rofd::doc::MultiMedia;
use rofd::doc::Page;
use rofd::doc::PageBlock;
use rofd::doc::PageContent;
use rofd::doc::PathObject;
use rofd::doc::PublicRes;
use rofd::doc::TextCode;
use rofd::doc::TextObject;
use rofd::geom::BoxMm;
use rofd::geom::BoxPx;
use rofd::geom::Color;
use rofd::geom::Matrix;
use rofd::ops::DrawOp;
use rofd::render::render_event;
use rofd::render::render_image_object;
use rofd::render::render_page;
use rofd::render::render_path_object;
use rofd::render::render_text_object;
use rofd::render::RenderError;
use rofd::resolve::resolve_image_bytes;
use rofd::resolve::ResolveError;

fn zip_of(entries: &[(&str, &[u8])]) -> Vec<u8> {
    let mut writer = zip::ZipWriter::new(Cursor::new(Vec::new()));
    for (name, bytes) in entries {
        writer
            .start_file(name.to_string(), zip::write::SimpleFileOptions::default())
            .unwrap();
        writer.write_all(bytes).unwrap();
    }
    writer.finish().unwrap().into_inner()
}

fn session_of(entries: &[(&str, &[u8])]) -> Ofd {
    Ofd {
        archive: Archive::from_bytes(zip_of(entries)).unwrap(),
        doc_root: b"Doc_0/Document.xml".to_vec(),
    }
}

fn document_with(fonts: Vec<Font>, medias: Vec<MultiMedia>) -> Document {
    Document {
        public_res: PublicRes { fonts },
        doc_res: DocumentRes { base_loc: b"Res".to_vec(), multi_medias: medias },
    }
}

fn png_header(w: u32, h: u32) -> Vec<u8> {
    let mut bytes = vec![137u8, 80, 78, 71, 13, 10, 26, 10];
    bytes.extend_from_slice(&[0, 0, 0, 13]);
    bytes.extend_from_slice(b"IHDR");
    bytes.extend_from_slice(&w.to_be_bytes());
    bytes.extend_from_slice(&h.to_be_bytes());
    bytes
}

fn red_path(x: i64, y: i64, w: i64, h: i64) -> PathObject {
    PathObject {
        boundary: BoxMm { x, y, width: w, height: h },
        stroke_color: Color { r: 255, g: 0, b: 0 },
        line_width: 500,
    }
}

fn traced_points(ops: &[DrawOp]) -> Vec<(i64, i64)> {
    let mut points = Vec::new();
    for op in ops {
        match op {
            DrawOp::MoveTo(x, y) => points.push((*x, *y)),
            DrawOp::LineTo(x, y) => points.push((*x, *y)),
            _ => {}
        }
    }
    points
}

fn save_restore_delta(ops: &[DrawOp]) -> i64 {
    let mut depth: i64 = 0;
    for op in ops {
        match op {
            DrawOp::Save => depth += 1,
            DrawOp::Restore => {
                depth -= 1;
                assert!(depth >= 0, "restore without matching save");
            }
            _ => {}
        }
    }
    depth
}

#[test]
fn path_object_traces_closed_rectangle() {
    let p = red_path(0, 0, 10_000, 5000);
    let mut canvas: Vec<DrawOp> = Vec::new();
    render_path_object(&p, &mut canvas);

    assert_eq!(canvas[0], DrawOp::Save);
    assert_eq!(canvas[1], DrawOp::SetStrokeColor(Color { r: 255, g: 0, b: 0 }));
    assert_eq!(canvas[2], DrawOp::SetLineWidth(1_890_000));
    assert_eq!(canvas[canvas.len() - 2], DrawOp::Stroke);
    assert_eq!(canvas[canvas.len() - 1], DrawOp::Restore);

    // the first and last traced point coincide: a closed rectangle
    let points = traced_points(&canvas);
    assert_eq!(points.first(), points.last());

    // its bounding pixel box is exactly the pixel image of the boundary box
    let px = p.boundary.to_pixel();
    let min_x = points.iter().map(|p| p.0).min().unwrap();
    let max_x = points.iter().map(|p| p.0).max().unwrap();
    let min_y = points.iter().map(|p| p.1).min().unwrap();
    let max_y = points.iter().map(|p| p.1).max().unwrap();
    assert_eq!((min_x, min_y), (px.x, px.y));
    assert_eq!((max_x - min_x, max_y - min_y), (px.width, px.height));
    assert_eq!(px, BoxPx { x: 0, y: 0, width: 37_800_000, height: 18_900_000 });

    assert_eq!(save_restore_delta(&canvas), 0);
}

fn text_object(ctm: Option<Matrix>) -> TextObject {
    TextObject {
        boundary: BoxMm { x: 2000, y: 3000, width: 50_000, height: 10_000 },
        fill_color: None,
        font: 7,
        size: 4000,
        text_code: TextCode { x: 100, y: 200, value: "hello".to_string() },
        ctm,
    }
}

#[test]
fn text_identity_ctm_matches_no_ctm_beyond_the_transform_field() {
    let doc = document_with(vec![Font { id: 7, family_name: "Kai".to_string() }], Vec::new());
    let mut with_identity: Vec<DrawOp> = Vec::new();
    let mut without: Vec<DrawOp> = Vec::new();
    render_text_object(&text_object(Some(Matrix::identity())), &doc, &mut with_identity);
    render_text_object(&text_object(None), &doc, &mut without);

    assert_eq!(with_identity.len(), without.len());
    for (a, b) in with_identity.iter().zip(without.iter()) {
        match (a, b) {
            (
                DrawOp::PaintText { tx: tx1, ty: ty1, ctm: c1, text: x1 },
                DrawOp::PaintText { tx: tx2, ty: ty2, ctm: c2, text: x2 },
            ) => {
                // the same translation and the same text; only the transform
                // field differs, and it is exactly the identity
                assert_eq!((tx1, ty1, x1), (tx2, ty2, x2));
                assert_eq!(*c1, Some(Matrix::identity()));
                assert_eq!(*c2, None);
            }
            _ => assert_eq!(a, b),
        }
    }
}

#[test]
fn text_translation_is_box_corner_plus_offset() {
    let doc = document_with(Vec::new(), Vec::new());
    let mut canvas: Vec<DrawOp> = Vec::new();
    render_text_object(&text_object(None), &doc, &mut canvas);
    let paint = canvas
        .iter()
        .find_map(|op| match op {
            DrawOp::PaintText { tx, ty, .. } => Some((*tx, *ty)),
            _ => None,
        })
        .expect("a text op is emitted");
    // (2000 + 100) and (3000 + 200) micrometres, scaled by 3780
    assert_eq!(paint, (7_938_000, 12_096_000));
}

#[test]
fn text_with_known_font_selects_family_and_still_renders_without_one() {
    let doc = document_with(vec![Font { id: 7, family_name: "Kai".to_string() }], Vec::new());

    let mut canvas: Vec<DrawOp> = Vec::new();
    render_text_object(&text_object(None), &doc, &mut canvas);
    assert!(canvas.contains(&DrawOp::SetFontFamily("Kai".to_string())));

    // an absent font id selects no family (backend default) and the text is
    // still painted rather than failing
    let missing = document_with(Vec::new(), Vec::new());
    let mut fallback: Vec<DrawOp> = Vec::new();
    render_text_object(&text_object(None), &missing, &mut fallback);
    assert!(!fallback.iter().any(|op| matches!(op, DrawOp::SetFontFamily(_))));
    assert!(fallback.iter().any(|op| matches!(op, DrawOp::PaintText { .. })));
    // no fill colour was supplied: the default (black) applies
    assert!(fallback.contains(&DrawOp::SetFillColor(Color { r: 0, g: 0, b: 0 })));
}

fn image_object(id: u64) -> ImageObject {
    ImageObject { boundary: BoxMm { x: 0, y: 0, width: 10_000, height: 5000 }, resource_id: id }
}

#[test]
fn image_with_absent_id_renders_nothing_and_reports_no_error() {
    let doc = document_with(Vec::new(), Vec::new());
    let mut ofd = session_of(&[("Doc_0/Res/img.png", b"irrelevant")]);
    let mut canvas: Vec<DrawOp> = Vec::new();
    let result = render_image_object(&image_object(5), &mut ofd, &doc, &mut canvas);
    assert_eq!(result, Ok(()));
    assert_eq!(canvas, vec![DrawOp::Save, DrawOp::Restore]);
}

#[test]
fn image_with_missing_archive_entry_fails() {
    let doc = document_with(
        Vec::new(),
        vec![MultiMedia { id: 5, media_file: b"img.png".to_vec() }],
    );
    let mut ofd = session_of(&[("Doc_0/Res/other.png", b"bytes")]);
    let mut canvas: Vec<DrawOp> = Vec::new();
    let result = render_image_object(&image_object(5), &mut ofd, &doc, &mut canvas);
    assert_eq!(result, Err(RenderError::ArchiveEntryMissing));
    // the drawing scope was still released
    assert_eq!(canvas, vec![DrawOp::Save, DrawOp::Restore]);
}

#[test]
fn image_with_present_entry_paints_resolved_bytes() {
    let png = png_header(2, 3);
    let doc = document_with(
        Vec::new(),
        vec![MultiMedia { id: 5, media_file: b"img.png".to_vec() }],
    );
    let mut ofd = session_of(&[("Doc_0/Res/img.png", &png)]);
    let mut canvas: Vec<DrawOp> = Vec::new();
    let result = render_image_object(&image_object(5), &mut ofd, &doc, &mut canvas);
    assert_eq!(result, Ok(()));
    assert_eq!(canvas.len(), 3);
    assert_eq!(canvas[0], DrawOp::Save);
    assert_eq!(canvas[2], DrawOp::Restore);
    match &canvas[1] {
        DrawOp::PaintImage { bytes, width, height, target } => {
            assert_eq!(bytes, &png);
            assert_eq!((*width, *height), (2, 3));
            assert_eq!(*target, BoxPx { x: 0, y: 0, width: 37_800_000, height: 18_900_000 });
        }
        other => panic!("expected an image paint, got {:?}", other),
    }
}

#[test]
fn image_with_undecodable_bytes_is_a_decode_error() {
    let doc = document_with(
        Vec::new(),
        vec![MultiMedia { id: 5, media_file: b"img.png".to_vec() }],
    );
    let mut ofd = session_of(&[("Doc_0/Res/img.png", b"not a png")]);
    let mut canvas: Vec<DrawOp> = Vec::new();
    let result = render_image_object(&image_object(5), &mut ofd, &doc, &mut canvas);
    assert_eq!(result, Err(RenderError::DecodeError));
    assert_eq!(canvas, vec![DrawOp::Save, DrawOp::Restore]);
}

#[test]
fn resolve_image_bytes_reports_each_error_kind() {
    let doc = document_with(
        Vec::new(),
        vec![MultiMedia { id: 5, media_file: b"img.png".to_vec() }],
    );
    let mut ofd = session_of(&[("Doc_0/Res/img.png", b"junk")]);
    assert_eq!(
        resolve_image_bytes(&mut ofd, &doc, 9).map(|_| ()),
        Err(ResolveError::ResourceNotFound)
    );
    assert_eq!(
        resolve_image_bytes(&mut ofd, &doc, 5).map(|_| ()),
        Err(ResolveError::DecodeError)
    );
    let empty = document_with(Vec::new(), vec![MultiMedia { id: 5, media_file: b"gone.png".to_vec() }]);
    assert_eq!(
        resolve_image_bytes(&mut ofd, &empty, 5).map(|_| ()),
        Err(ResolveError::ArchiveEntryMissing)
    );

    let png = png_header(4, 4);
    let mut ok_ofd = session_of(&[("Doc_0/Res/img.png", &png)]);
    let resolved = resolve_image_bytes(&mut ok_ofd, &doc, 5).expect("resolves");
    assert_eq!(resolved.bytes, png);
    assert_eq!((resolved.width, resolved.height), (4, 4));
}

fn page_of(events: Vec<Event>) -> Page {
    Page { content: PageContent { layer: Layer { events } } }
}

#[test]
fn three_events_render_in_declaration_order() {
    let colors: [u8; 3] = [10, 20, 30];
    let events: Vec<Event> = colors
        .iter()
        .map(|g| {
            Event::PathObject(PathObject {
                boundary: BoxMm { x: 0, y: 0, width: 1000, height: 1000 },
                stroke_color: Color { r: 0, g: *g, b: 0 },
                line_width: 100,
            })
        })
        .collect();
    let block = Event::PageBlock(PageBlock { events });
    let doc = document_with(Vec::new(), Vec::new());
    let mut ofd = session_of(&[]);
    let mut canvas: Vec<DrawOp> = Vec::new();
    assert_eq!(render_event(&block, &mut ofd, &doc, &mut canvas), Ok(()));

    let seen: Vec<u8> = canvas
        .iter()
        .filter_map(|op| match op {
            DrawOp::SetStrokeColor(c) => Some(c.g),
            _ => None,
        })
        .collect();
    assert_eq!(seen, vec![10, 20, 30]);
    assert_eq!(save_restore_delta(&canvas), 0);
}

#[test]
fn failing_image_aborts_later_siblings_but_keeps_earlier_output() {
    let doc = document_with(
        Vec::new(),
        vec![MultiMedia { id: 5, media_file: b"gone.png".to_vec() }],
    );
    let before = Event::PathObject(red_path(0, 0, 1000, 1000));
    let failing = Event::ImageObject(image_object(5));
    let after = Event::PathObject(PathObject {
        boundary: BoxMm { x: 0, y: 0, width: 1000, height: 1000 },
        stroke_color: Color { r: 0, g: 0, b: 255 },
        line_width: 100,
    });
    let page = page_of(vec![before, failing, after]);
    let mut ofd = session_of(&[]);
    let mut canvas: Vec<DrawOp> = Vec::new();

    let result = render_page(&page, &mut ofd, &doc, &mut canvas);
    assert_eq!(result, Err(RenderError::ArchiveEntryMissing));

    // the element drawn before the failure remains drawn
    assert!(canvas.contains(&DrawOp::SetStrokeColor(Color { r: 255, g: 0, b: 0 })));
    // the element after it was never drawn
    assert!(!canvas.contains(&DrawOp::SetStrokeColor(Color { r: 0, g: 0, b: 255 })));
    // ten path operations, then the aborted image's bare scope
    assert_eq!(canvas.len(), 12);
    assert_eq!(&canvas[10..], &[DrawOp::Save, DrawOp::Restore]);
    // and the save/restore stack is still balanced
    assert_eq!(save_restore_delta(&canvas), 0);
}

#[test]
fn page_renders_nested_blocks_depth_first_in_order() {
    let inner = Event::PageBlock(PageBlock {
        events: vec![Event::PathObject(PathObject {
            boundary: BoxMm { x: 0, y: 0, width: 1000, height: 1000 },
            stroke_color: Color { r: 0, g: 77, b: 0 },
            line_width: 100,
        })],
    });
    let tail = Event::PathObject(PathObject {
        boundary: BoxMm { x: 0, y: 0, width: 1000, height: 1000 },
        stroke_color: Color { r: 0, g: 88, b: 0 },
        line_width: 100,
    });
    let page = page_of(vec![inner, tail]);
    let doc = document_with(Vec::new(), Vec::new());
    let mut ofd = session_of(&[]);
    let mut canvas: Vec<DrawOp> = Vec::new();
    assert_eq!(render_page(&page, &mut ofd, &doc, &mut canvas), Ok(()));
    let seen: Vec<u8> = canvas
        .iter()
        .filter_map(|op| match op {
            DrawOp::SetStrokeColor(c) => Some(c.g),
            _ => None,
        })
        .collect();
    assert_eq!(seen, vec![77, 88]);
    assert_eq!(save_restore_delta(&canvas), 0);
}

#[test]
fn wf_check_accepts_in_range_trees_and_rejects_excess() {
    let page = page_of(vec![Event::PathObject(red_path(0, 0, 1000, 1000))]);
    assert!(page.wf_check());

    let huge = Event::PathObject(PathObject {
        boundary: BoxMm { x: rofd::geom::MM_COORD_LIMIT + 1, y: 0, width: 0, height: 0 },
        stroke_color: Color { r: 0, g: 0, b: 0 },
        line_width: 0,
    });
    let bad = page_of(vec![Event::PageBlock(PageBlock { events: vec![huge] })]);
    assert!(!bad.wf_check());
}
