use gpu_streaming::error::ConfigError;
use gpu_streaming::march::MarchConfig;
use gpu_streaming::quads::{upload, QuadSheet, Vertex, VERTICES_PER_QUAD};

fn blank(len: usize) -> Vec<Vertex> {
    vec![Vertex { x: 0, y: 0 }; len]
}

fn particles() -> QuadSheet {
    let march = MarchConfig::new(24, 128, 1, 1).unwrap();
    QuadSheet::new(500, 320, 1, 1, 1, march).unwrap()
}

fn quad(left: u32, top: u32, width: u32, height: u32) -> Vec<Vertex> {
    vec![
        Vertex { x: left, y: top },
        Vertex { x: left + width, y: top },
        Vertex { x: left, y: top + height },
        Vertex { x: left + width, y: top },
        Vertex { x: left, y: top + height },
        Vertex { x: left + width, y: top + height },
    ]
}

#[test]
fn sheet_counts_six_vertices_per_quad() {
    assert_eq!(VERTICES_PER_QUAD, 6);
    assert_eq!(particles().vertex_count(), 960_000);
    let march = MarchConfig::new(1, 1, 0, 0).unwrap();
    assert_eq!(QuadSheet::new(2, 2, 1, 1, 1, march).unwrap().vertex_count(), 24);
    assert_eq!(QuadSheet::new(0, 9, 1, 1, 1, march).unwrap().vertex_count(), 0);
}

#[test]
fn upload_writes_two_triangles_per_cell() {
    let sheet = particles();
    let mut output = blank(sheet.vertex_count());
    assert_eq!(upload(&mut output, &sheet, 0), Ok(()));
    assert_eq!(output.len(), 960_000);
    assert_eq!(&output[0..6], &quad(1, 1, 1, 1)[..]);
    assert_eq!(&output[6..12], &quad(3, 1, 1, 1)[..]);
    assert_eq!(&output[3000..3006], &quad(1, 3, 1, 1)[..]);
    assert_eq!(&output[959_994..960_000], &quad(999, 639, 1, 1)[..]);
}

#[test]
fn upload_moves_every_quad_by_the_march_offset() {
    let sheet = particles();
    let mut output = blank(sheet.vertex_count());
    assert_eq!(upload(&mut output, &sheet, 25), Ok(()));
    assert_eq!(&output[0..6], &quad(2, 2, 1, 1)[..]);
    assert_eq!(upload(&mut output, &sheet, 3071), Ok(()));
    assert_eq!(&output[0..6], &quad(24, 128, 1, 1)[..]);
    assert_eq!(&output[959_994..960_000], &quad(1022, 766, 1, 1)[..]);
    assert_eq!(output[959_999], Vertex { x: 1023, y: 767 });
}

#[test]
fn upload_lays_cells_out_row_by_row() {
    let march = MarchConfig::new(4, 4, 10, 100).unwrap();
    let sheet = QuadSheet::new(3, 2, 5, 2, 3, march).unwrap();
    let mut output = blank(36);
    assert_eq!(upload(&mut output, &sheet, 6), Ok(()));
    let mut expected: Vec<Vertex> = Vec::new();
    for row in 0u32..2 {
        for column in 0u32..3 {
            expected.extend(quad(5 + column * 7 + 20, 5 + row * 8 + 100, 2, 3));
        }
    }
    assert_eq!(output, expected);
}

#[test]
fn upload_overwrites_whatever_the_region_held() {
    let march = MarchConfig::new(24, 128, 1, 1).unwrap();
    let sheet = QuadSheet::new(2, 2, 1, 1, 1, march).unwrap();
    let mut clean = blank(24);
    let mut dirty = vec![Vertex { x: 77, y: 99 }; 24];
    assert_eq!(upload(&mut clean, &sheet, 31), Ok(()));
    assert_eq!(upload(&mut dirty, &sheet, 31), Ok(()));
    assert_eq!(clean, dirty);
}

#[test]
fn upload_is_deterministic() {
    let sheet = particles();
    let mut first = blank(sheet.vertex_count());
    let mut second = blank(sheet.vertex_count());
    for iteration in [0u32, 1, 23, 24, 3071, 3072, 1_000_000, u32::MAX] {
        assert_eq!(upload(&mut first, &sheet, iteration), Ok(()));
        assert_eq!(upload(&mut second, &sheet, iteration), Ok(()));
        assert_eq!(first, second);
    }
}

#[test]
fn upload_repeats_after_the_full_march_period() {
    let sheet = particles();
    let mut first = blank(sheet.vertex_count());
    let mut second = blank(sheet.vertex_count());
    assert_eq!(upload(&mut first, &sheet, 17), Ok(()));
    assert_eq!(upload(&mut second, &sheet, 17 + 24 * 128), Ok(()));
    assert_eq!(first, second);
    assert_eq!(upload(&mut second, &sheet, 18), Ok(()));
    assert_ne!(first, second);
}

#[test]
fn upload_rejects_a_region_of_the_wrong_capacity() {
    let march = MarchConfig::new(24, 128, 1, 1).unwrap();
    let sheet = QuadSheet::new(2, 2, 1, 1, 1, march).unwrap();
    let mut short = vec![Vertex { x: 7, y: 9 }; 23];
    assert_eq!(upload(&mut short, &sheet, 0), Err(ConfigError::CapacityMismatch));
    assert_eq!(short, vec![Vertex { x: 7, y: 9 }; 23]);
    let mut long = vec![Vertex { x: 7, y: 9 }; 25];
    assert_eq!(upload(&mut long, &sheet, 0), Err(ConfigError::CapacityMismatch));
    assert_eq!(long, vec![Vertex { x: 7, y: 9 }; 25]);
    let mut empty: Vec<Vertex> = Vec::new();
    assert_eq!(upload(&mut empty, &sheet, 0), Err(ConfigError::CapacityMismatch));
}

#[test]
fn upload_of_an_empty_sheet_writes_nothing() {
    let march = MarchConfig::new(24, 128, 1, 1).unwrap();
    let sheet = QuadSheet::new(0, 5, 1, 1, 1, march).unwrap();
    let mut output: Vec<Vertex> = Vec::new();
    assert_eq!(upload(&mut output, &sheet, 3), Ok(()));
    assert!(output.is_empty());
}

#[test]
fn sheet_whose_positions_do_not_fit_is_rejected() {
    let march = MarchConfig::new(24, 128, 1, 1).unwrap();
    assert_eq!(
        QuadSheet::new(2, 2, u32::MAX, 1, 1, march).err(),
        Some(ConfigError::CoordinateOverflow)
    );
    assert_eq!(
        QuadSheet::new(2, 2, 1, 1, u32::MAX, march).err(),
        Some(ConfigError::CoordinateOverflow)
    );
    let far = MarchConfig::new(u32::MAX, 1, 2, 1).unwrap();
    assert_eq!(QuadSheet::new(1, 1, 0, 0, 0, far).err(), Some(ConfigError::CoordinateOverflow));
}

#[test]
fn sheet_at_the_edge_of_the_coordinate_range_is_accepted() {
    let still = MarchConfig::new(1, 1, 0, 0).unwrap();
    let sheet = QuadSheet::new(1, 1, u32::MAX - 1, 1, 1, still).unwrap();
    let mut output = blank(6);
    assert_eq!(upload(&mut output, &sheet, 0), Ok(()));
    assert_eq!(output[0], Vertex { x: u32::MAX - 1, y: u32::MAX - 1 });
    assert_eq!(output[5], Vertex { x: u32::MAX, y: u32::MAX });
    assert_eq!(
        QuadSheet::new(1, 1, u32::MAX - 1, 2, 1, still).err(),
        Some(ConfigError::CoordinateOverflow)
    );
}

#[test]
fn empty_sheet_has_no_position_to_overflow() {
    let far = MarchConfig::new(u32::MAX, u32::MAX, u32::MAX, u32::MAX).unwrap();
    assert!(QuadSheet::new(0, 7, u32::MAX, u32::MAX, u32::MAX, far).is_ok());
    assert!(QuadSheet::new(7, 0, u32::MAX, u32::MAX, u32::MAX, far).is_ok());
}

#[test]
fn sheet_with_more_vertices_than_can_be_counted_is_rejected() {
    let still = MarchConfig::new(1, 1, 0, 0).unwrap();
    assert_eq!(
        QuadSheet::new(u32::MAX, u32::MAX, 0, 0, 0, still).err(),
        Some(ConfigError::TooManyInstances)
    );
}
