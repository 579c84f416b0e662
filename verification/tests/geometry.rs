use rofd::geom::BoxMm;
use rofd::geom::BoxPx;
use rofd::geom::Color;
use rofd::geom::Matrix;
use rofd::geom::mm_to_px;
use rofd::geom::MATRIX_UNIT;
use rofd::geom::PX_PER_MM_MILLI;

#[test]
fn mm_to_px_zero_is_exact() {
    assert_eq!(mm_to_px(0), 0);
}

#[test]
fn mm_to_px_applies_fixed_scale() {
    // one millimetre (1000 micrometres) maps to 3.78 pixels
    assert_eq!(mm_to_px(1000), 3_780_000);
    assert_eq!(mm_to_px(10_000), 37_800_000);
    assert_eq!(mm_to_px(-500), -1_890_000);
    assert_eq!(PX_PER_MM_MILLI, 3780);
}

#[test]
fn mm_to_px_non_negative_and_increasing_on_samples() {
    let samples: [i64; 6] = [0, 1, 2, 999, 1000, 123_456];
    for w in samples.windows(2) {
        assert!(mm_to_px(w[0]) >= 0);
        assert!(mm_to_px(w[0]) < mm_to_px(w[1]));
    }
}

#[test]
fn box_to_pixel_scales_all_four_fields() {
    let b = BoxMm { x: 1000, y: 2000, width: 10_000, height: 5000 };
    let px = b.to_pixel();
    assert_eq!(
        px,
        BoxPx { x: 3_780_000, y: 7_560_000, width: 37_800_000, height: 18_900_000 }
    );
    // the millimetre value is untouched
    assert_eq!(b, BoxMm { x: 1000, y: 2000, width: 10_000, height: 5000 });
}

#[test]
fn color_from_triple_is_field_copy() {
    let c = Color::from_triple([255, 0, 7]);
    assert_eq!(c, Color { r: 255, g: 0, b: 7 });
}

#[test]
fn default_color_is_black() {
    assert_eq!(Color::default(), Color { r: 0, g: 0, b: 0 });
}

#[test]
fn matrix_identity_has_unit_diagonal() {
    let m = Matrix::identity();
    assert_eq!(m, Matrix { a: MATRIX_UNIT, b: 0, c: 0, d: MATRIX_UNIT, e: 0, f: 0 });
}

#[test]
fn matrix_backend_coefficients_keep_documented_order() {
    let m = Matrix { a: 1, b: 2, c: 3, d: 4, e: 5, f: 6 };
    // a -> xx, b -> yx, c -> xy, d -> yy, e -> x0, f -> y0
    assert_eq!(m.backend_coefficients(), (1, 2, 3, 4, 5, 6));
}
