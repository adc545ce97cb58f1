use soft_ratatui::scale::{cell_extent, cell_metrics, pixel_size, CellMetrics, Scale};
use soft_ratatui::surface::{plan_layout, SurfaceError};

fn scale(numerator: u32, denominator: u32) -> Scale {
    Scale::new(numerator, denominator).unwrap()
}

#[test]
fn scale_needs_positive_parts() {
    assert!(Scale::new(0, 1).is_none());
    assert!(Scale::new(1, 0).is_none());
    assert!(Scale::new(0, 0).is_none());
    let s = Scale::new(3, 2).unwrap();
    assert_eq!(s.numerator(), 3);
    assert_eq!(s.denominator(), 2);
    assert_eq!(Scale::one(), scale(1, 1));
}

#[test]
fn scaled_rounds_down() {
    assert_eq!(Scale::one().scaled(17), Some(17));
    assert_eq!(scale(2, 1).scaled(7), Some(14));
    assert_eq!(scale(3, 2).scaled(9), Some(13));
    assert_eq!(scale(5, 4).scaled(3), Some(3));
    assert_eq!(scale(1, 2).scaled(1), Some(0));
    assert_eq!(scale(2, 1).scaled(0), Some(0));
}

#[test]
fn scaled_reports_what_does_not_fit() {
    assert_eq!(scale(2, 1).scaled(usize::MAX), None);
    assert_eq!(scale(1, 1).scaled(usize::MAX), Some(usize::MAX));
    assert_eq!(scale(1, 2).scaled(usize::MAX), Some(usize::MAX / 2));
}

#[test]
fn cell_extent_shrinks_the_reference_box() {
    assert_eq!(cell_extent(10, 20), (9, 17));
    assert_eq!(cell_extent(11, 21), (9, 17));
    assert_eq!(cell_extent(9, 19), (8, 16));
    assert_eq!(cell_extent(0, 0), (0, 0));
    assert_eq!(cell_extent(1, 1), (0, 0));
    assert_eq!(cell_extent(u32::MAX, u32::MAX), (3865470565, 3650722200));
}

#[test]
fn cell_metrics_scale_the_logical_size() {
    assert_eq!(
        cell_metrics(10, 20, Scale::one()),
        Some(CellMetrics { char_width: 9, char_height: 17, cell_px_w: 9, cell_px_h: 17 })
    );
    assert_eq!(
        cell_metrics(10, 20, scale(2, 1)),
        Some(CellMetrics { char_width: 9, char_height: 17, cell_px_w: 18, cell_px_h: 34 })
    );
    assert_eq!(
        cell_metrics(10, 20, scale(3, 2)),
        Some(CellMetrics { char_width: 9, char_height: 17, cell_px_w: 13, cell_px_h: 25 })
    );
}

#[test]
fn pixel_size_multiplies_cells_by_their_extent() {
    assert_eq!(pixel_size(9, 17, 10, 5), Some((90, 85)));
    assert_eq!(pixel_size(9, 17, 0, 5), Some((0, 85)));
    assert_eq!(pixel_size(0, 0, 80, 24), Some((0, 0)));
}

#[test]
fn pixel_size_reports_what_cannot_be_addressed() {
    assert_eq!(pixel_size(usize::MAX, 1, 2, 1), None);
    assert_eq!(pixel_size(1, usize::MAX, 1, 2), None);
    assert_eq!(pixel_size(usize::MAX / 2, 2, 1, 1), None);
    assert_eq!(pixel_size(usize::MAX / 4, 1, 1, 1), Some((usize::MAX / 4, 1)));
    assert_eq!(pixel_size(usize::MAX / 4 + 1, 1, 1, 1), None);
}

#[test]
fn layout_without_reference_glyph() {
    assert_eq!(
        plan_layout(None, Scale::one(), 10, 5),
        Err(SurfaceError::NoReferenceGlyph)
    );
}

#[test]
fn layout_too_large() {
    assert_eq!(
        plan_layout(Some((u32::MAX, u32::MAX)), scale(u32::MAX, 1), u16::MAX, u16::MAX),
        Err(SurfaceError::TooLarge)
    );
}

#[test]
fn layout_of_an_ordinary_font() {
    assert_eq!(
        plan_layout(Some((10, 20)), scale(2, 1), 10, 5),
        Ok(CellMetrics { char_width: 9, char_height: 17, cell_px_w: 18, cell_px_h: 34 })
    );
}
