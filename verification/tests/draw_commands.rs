use gpu_streaming::commands::{assemble_commands, DrawCommand, ObjectSlot};
use gpu_streaming::error::ConfigError;
use gpu_streaming::frame::FrameClock;
use gpu_streaming::grid::ObjectGrid;
use gpu_streaming::region::RegionLayout;

fn blank(len: usize) -> Vec<DrawCommand> {
    vec![
        DrawCommand { count: 0, instance_count: 0, first_index: 0, base_vertex: 0, base_instance: 0 };
        len
    ]
}

#[test]
fn grid_of_twenty_by_twenty_takes_four_hundred_commands() {
    let grid = ObjectGrid::new(20, 20, None).unwrap();
    assert_eq!(grid.instance_count(), 400);
    let mut output = blank(400);
    assert_eq!(assemble_commands(&mut output, &grid, 6, ObjectSlot::BaseInstance), Ok(()));
    assert_eq!(output.len(), 400);
    let mut short = blank(399);
    assert_eq!(
        assemble_commands(&mut short, &grid, 6, ObjectSlot::BaseInstance),
        Err(ConfigError::CapacityMismatch)
    );
}

#[test]
fn grid_of_sixty_four_cubed_takes_262144_commands() {
    let grid = ObjectGrid::new(64, 64, Some(64)).unwrap();
    assert_eq!(grid.instance_count(), 262_144);
    let mut output = blank(262_144);
    assert_eq!(assemble_commands(&mut output, &grid, 36, ObjectSlot::BaseInstance), Ok(()));
    assert_eq!(output.len(), 262_144);
    assert_eq!(
        output[262_143],
        DrawCommand {
            count: 36,
            instance_count: 1,
            first_index: 0,
            base_vertex: 0,
            base_instance: 262_143
        }
    );
}

#[test]
fn commands_number_the_objects_by_base_instance() {
    let grid = ObjectGrid::new(2, 2, None).unwrap();
    let mut output = blank(4);
    assert_eq!(assemble_commands(&mut output, &grid, 36, ObjectSlot::BaseInstance), Ok(()));
    for (i, command) in output.iter().enumerate() {
        assert_eq!(
            *command,
            DrawCommand {
                count: 36,
                instance_count: 1,
                first_index: 0,
                base_vertex: 0,
                base_instance: i as u32
            }
        );
    }
}

#[test]
fn commands_number_the_objects_by_base_vertex() {
    let grid = ObjectGrid::new(3, 1, Some(2)).unwrap();
    let mut output = blank(6);
    assert_eq!(assemble_commands(&mut output, &grid, 6, ObjectSlot::BaseVertex), Ok(()));
    for (i, command) in output.iter().enumerate() {
        assert_eq!(
            *command,
            DrawCommand {
                count: 6,
                instance_count: 1,
                first_index: 0,
                base_vertex: i as u32,
                base_instance: 0
            }
        );
    }
}

#[test]
fn commands_overwrite_whatever_the_region_held() {
    let grid = ObjectGrid::new(2, 3, None).unwrap();
    let mut dirty = vec![
        DrawCommand {
            count: 9,
            instance_count: 9,
            first_index: 9,
            base_vertex: 9,
            base_instance: 9
        };
        6
    ];
    let mut clean = blank(6);
    assert_eq!(assemble_commands(&mut dirty, &grid, 12, ObjectSlot::BaseInstance), Ok(()));
    assert_eq!(assemble_commands(&mut clean, &grid, 12, ObjectSlot::BaseInstance), Ok(()));
    assert_eq!(dirty, clean);
}

#[test]
fn commands_leave_a_region_of_the_wrong_capacity_alone() {
    let grid = ObjectGrid::new(2, 2, None).unwrap();
    let mut long = blank(5);
    assert_eq!(
        assemble_commands(&mut long, &grid, 6, ObjectSlot::BaseVertex),
        Err(ConfigError::CapacityMismatch)
    );
    assert_eq!(long, blank(5));
}

#[test]
fn commands_of_an_empty_grid_are_none() {
    let grid = ObjectGrid::new(0, 20, None).unwrap();
    let mut output: Vec<DrawCommand> = Vec::new();
    assert_eq!(assemble_commands(&mut output, &grid, 6, ObjectSlot::BaseInstance), Ok(()));
    assert!(output.is_empty());
}

#[test]
fn five_frames_over_three_regions_of_a_two_by_two_grid() {
    let grid = ObjectGrid::new(2, 2, None).unwrap();
    let layout = RegionLayout::new(3, grid.instance_count() as usize).unwrap();
    assert_eq!(layout.check_capacity(4), Ok(()));
    let mut buffer = blank(layout.capacity());
    let mut clock = FrameClock::new(layout, 1);
    let mut written: Vec<usize> = Vec::new();
    for _ in 0..5 {
        let plan = clock.plan();
        written.push(plan.write.index);
        let mut staging = blank(plan.write.end - plan.write.start);
        assert_eq!(assemble_commands(&mut staging, &grid, 6, ObjectSlot::BaseInstance), Ok(()));
        buffer[plan.write.start..plan.write.end].copy_from_slice(&staging);
        let bases: Vec<u32> =
            buffer[plan.write.start..plan.write.end].iter().map(|c| c.base_instance).collect();
        assert_eq!(bases, vec![0, 1, 2, 3]);
        let vertices: Vec<u32> =
            buffer[plan.write.start..plan.write.end].iter().map(|c| c.base_vertex).collect();
        assert_eq!(vertices, vec![0, 0, 0, 0]);
        clock.on_event(gpu_streaming::frame::FrameEvent::Presented { close_requested: false });
    }
    assert_eq!(written, vec![0, 1, 2, 0, 1]);
}

#[test]
fn five_frames_numbering_the_objects_by_base_vertex() {
    let grid = ObjectGrid::new(2, 2, None).unwrap();
    let layout = RegionLayout::new(3, 4).unwrap();
    let mut written: Vec<usize> = Vec::new();
    for iteration in 0u32..5 {
        written.push(layout.current_write_index(iteration));
        let mut region = blank(4);
        assert_eq!(assemble_commands(&mut region, &grid, 6, ObjectSlot::BaseVertex), Ok(()));
        let bases: Vec<u32> = region.iter().map(|c| c.base_vertex).collect();
        assert_eq!(bases, vec![0, 1, 2, 3]);
    }
    assert_eq!(written, vec![0, 1, 2, 0, 1]);
}
