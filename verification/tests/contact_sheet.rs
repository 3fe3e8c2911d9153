use douyin_creator_tools::deep_video::contact_sheet::{
    build_frame_label, fit_to_cell, render_contact_sheet, RgbCanvas,
};
use douyin_creator_tools::deep_video::types::{EvidenceFrame, FrameSource};

fn pixel(c: &RgbCanvas, x: usize, y: usize) -> (u8, u8, u8) {
    c.rows[y][x]
}

#[test]
fn creates_contact_sheet_for_numbered_frames() {
    let picture = RgbCanvas::filled(80, 60, (200, 210, 220));
    let frames = vec![EvidenceFrame::new(1, Some(5000), "frame-001.jpg".to_string(), FrameSource::Interval)];
    let fitted = fit_to_cell(&picture);
    assert_eq!((fitted.width, fitted.height), (192, 144));

    let copy = RgbCanvas { width: fitted.width, height: fitted.height, rows: fitted.rows.clone() };
    let sheet = render_contact_sheet(&frames, &[copy]).unwrap();

    assert_eq!((sheet.width, sheet.height), (960, 170));
    assert_eq!(frames[0].frame_id, "#001");
    assert_eq!(pixel(&sheet, 10, 10), pixel(&fitted, 10, 10));
    assert_eq!(pixel(&sheet, 500, 10), (18, 18, 20));
    assert_eq!(pixel(&sheet, 1, 145), (0, 0, 0));
    assert_eq!(pixel(&sheet, 300, 169), (18, 18, 20));
    let label_rows = &sheet.rows[151..159];
    assert!(label_rows.iter().any(|row| row[6..14].iter().any(|p| *p == (255, 255, 255))));
}

#[test]
fn sheet_has_four_cells_per_row() {
    let frames: Vec<EvidenceFrame> = (1..=5)
        .map(|i| EvidenceFrame::new(i, None, format!("frame-{i:03}.jpg"), FrameSource::Scene))
        .collect();
    let pictures: Vec<RgbCanvas> = (0..5).map(|_| RgbCanvas::filled(10, 10, (1, 2, 3))).collect();
    let sheet = render_contact_sheet(&frames, &pictures).unwrap();
    assert_eq!((sheet.width, sheet.height), (960, 340));
    assert_eq!(pixel(&sheet, 720, 0), (1, 2, 3));
    assert_eq!(pixel(&sheet, 0, 170), (1, 2, 3));
    assert_eq!(pixel(&sheet, 240, 170), (18, 18, 20));
    assert_eq!(sheet.rows.len(), 340);
    assert!(sheet.rows.iter().all(|row| row.len() == 960));
}

#[test]
fn no_frames_means_no_sheet() {
    assert_eq!(
        render_contact_sheet(&[], &[]).err(),
        Some("No frames available for contact sheet".to_string())
    );
}

#[test]
fn labels_name_frame_time_and_source() {
    let frame = EvidenceFrame::new(1, Some(5000), String::new(), FrameSource::Interval);
    assert_eq!(build_frame_label(&frame), "#001 00:05.0 Interval");
    let unknown = EvidenceFrame::new(12, None, String::new(), FrameSource::TextCandidate);
    assert_eq!(build_frame_label(&unknown), "#012 time unknown TextCandidate");
    let negative = EvidenceFrame::new(2, Some(-5), String::new(), FrameSource::Opening);
    assert_eq!(build_frame_label(&negative), "#002 time unknown Opening");
}

#[test]
fn text_stops_near_the_right_edge() {
    let mut canvas = RgbCanvas::filled(30, 10, (0, 0, 0));
    canvas.draw_text(0, 0, "HHHH", (9, 9, 9));
    // 'H' has its left column set; the fourth character would start within
    // 8 pixels of the edge, so only three are drawn.
    let column_lit = |x: usize| canvas.rows.iter().any(|row| row[x] == (9, 9, 9));
    assert!(column_lit(0));
    assert!(column_lit(8));
    assert!(column_lit(16));
    assert!(!column_lit(24));
}

#[test]
fn fill_and_paste_are_clipped_and_placed() {
    let mut canvas = RgbCanvas::filled(4, 3, (0, 0, 0));
    canvas.fill_rect(2, 1, 10, 10, (5, 5, 5));
    assert_eq!(canvas.rows[0], vec![(0, 0, 0); 4]);
    assert_eq!(canvas.rows[2], vec![(0, 0, 0), (0, 0, 0), (5, 5, 5), (5, 5, 5)]);
    let patch = RgbCanvas::filled(2, 1, (7, 7, 7));
    canvas.paste(&patch, 1, 0);
    assert_eq!(canvas.rows[0], vec![(0, 0, 0), (7, 7, 7), (7, 7, 7), (0, 0, 0)]);
    let mut glyph = RgbCanvas::filled(8, 8, (0, 0, 0));
    glyph.draw_char(0, 0, '\u{2603}', (1, 1, 1));
    assert!(glyph.rows.iter().all(|row| row.iter().all(|p| *p == (0, 0, 0))));
}

