use gpu_streaming::error::ConfigError;
use gpu_streaming::grid::{ObjectGrid, TEXTURE_HANDLE_BYTES};

#[test]
fn plane_counts_its_cells() {
    let grid = ObjectGrid::new(20, 20, None).unwrap();
    assert_eq!(grid.x(), 20);
    assert_eq!(grid.y(), 20);
    assert_eq!(grid.z(), None);
    assert_eq!(grid.depth(), 1);
    assert_eq!(grid.instance_count(), 400);
}

#[test]
fn volume_counts_its_cells() {
    let grid = ObjectGrid::new(64, 64, Some(64)).unwrap();
    assert_eq!(grid.z(), Some(64));
    assert_eq!(grid.depth(), 64);
    assert_eq!(grid.instance_count(), 262_144);
}

#[test]
fn line_is_a_plane_of_one_row() {
    let grid = ObjectGrid::new(17, 1, None).unwrap();
    assert_eq!(grid.instance_count(), 17);
}

#[test]
fn grid_with_an_empty_axis_has_no_instances() {
    assert_eq!(ObjectGrid::new(0, 20, None).unwrap().instance_count(), 0);
    assert_eq!(ObjectGrid::new(20, 0, Some(5)).unwrap().instance_count(), 0);
    assert_eq!(ObjectGrid::new(20, 20, Some(0)).unwrap().instance_count(), 0);
    assert_eq!(ObjectGrid::new(u32::MAX, u32::MAX, Some(0)).unwrap().instance_count(), 0);
}

#[test]
fn largest_grid_that_can_be_numbered() {
    assert_eq!(ObjectGrid::new(u32::MAX, 1, None).unwrap().instance_count(), u32::MAX);
    assert_eq!(ObjectGrid::new(65_535, 65_537, None).unwrap().instance_count(), u32::MAX);
    assert_eq!(ObjectGrid::new(65_536, 65_536, None).err(), Some(ConfigError::TooManyInstances));
    assert_eq!(
        ObjectGrid::new(u32::MAX, u32::MAX, Some(u32::MAX)).err(),
        Some(ConfigError::TooManyInstances)
    );
    assert_eq!(ObjectGrid::new(2048, 2048, Some(1024)).err(), Some(ConfigError::TooManyInstances));
}

#[test]
fn draw_ids_count_up_from_zero() {
    let grid = ObjectGrid::new(2, 3, Some(4)).unwrap();
    let ids = grid.draw_ids();
    assert_eq!(ids, (0u32..24).collect::<Vec<u32>>());
    assert!(ObjectGrid::new(0, 3, None).unwrap().draw_ids().is_empty());
}

#[test]
fn texture_handles_take_eight_bytes_per_instance() {
    assert_eq!(TEXTURE_HANDLE_BYTES, 8);
    assert_eq!(ObjectGrid::new(20, 20, None).unwrap().texture_handle_bytes(), 3200);
    assert_eq!(
        ObjectGrid::new(u32::MAX, 1, None).unwrap().texture_handle_bytes(),
        8 * u32::MAX as u64
    );
}
