use falling_sand::{Cell, CellType, World};
use vek::Vec2;

fn grid() -> World {
    World::new(32, 32, 8, 1, 0, 0)
}

#[test]
fn new_world_is_empty_and_keeps_its_settings() {
    let world = World::new(256, 128, 8, 3, 5, 7);
    assert_eq!(world.width, 256);
    assert_eq!(world.height, 128);
    assert_eq!(world.cell_size, 8);
    assert_eq!(world.tick_rate, 3);
    assert_eq!(world.tick_speed, 5);
    assert_eq!(world.gravity, 7);
    assert!(world.cells.is_empty());
}

#[test]
fn snap_pos_floors_to_the_grid() {
    let world = grid();
    assert_eq!(world.snap_pos(Vec2::new(0, 0)), Vec2::new(0, 0));
    assert_eq!(world.snap_pos(Vec2::new(7, 8)), Vec2::new(0, 8));
    assert_eq!(world.snap_pos(Vec2::new(9, 15)), Vec2::new(8, 8));
    assert_eq!(world.snap_pos(Vec2::new(31, 33)), Vec2::new(24, 32));
    assert_eq!(world.snap_pos(Vec2::new(u32::MAX, u32::MAX)), Vec2::new(0xffff_fff8, 0xffff_fff8));
    let odd = World::new(30, 30, 7, 1, 0, 0);
    assert_eq!(odd.snap_pos(Vec2::new(20, 21)), Vec2::new(14, 21));
    let unit = World::new(4, 4, 1, 1, 0, 0);
    assert_eq!(unit.snap_pos(Vec2::new(3, 2)), Vec2::new(3, 2));
}

#[test]
fn snap_pos_is_idempotent() {
    for size in [1u32, 2, 3, 7, 8, 100, u32::MAX] {
        let world = World::new(64, 64, size, 1, 0, 0);
        for x in [0u32, 1, 6, 7, 8, 9, 99, 100, 101, 1 << 20, u32::MAX - 1, u32::MAX] {
            for y in [0u32, 5, 63, 64, u32::MAX] {
                let once = world.snap_pos(Vec2::new(x, y));
                assert_eq!(world.snap_pos(once), once);
                assert_eq!(once.x % size, 0);
                assert_eq!(once.y % size, 0);
                assert!(once.x <= x && x - once.x < size);
                assert!(once.y <= y && y - once.y < size);
            }
        }
    }
}

#[test]
fn out_of_bounds_compares_the_snapped_position_with_the_extents() {
    let world = grid();
    assert!(!world.out_of_bounds(Vec2::new(0, 0)));
    assert!(!world.out_of_bounds(Vec2::new(31, 31)));
    assert!(world.out_of_bounds(Vec2::new(32, 0)));
    assert!(world.out_of_bounds(Vec2::new(0, 32)));
    assert!(world.out_of_bounds(Vec2::new(u32::MAX, u32::MAX)));
    // 28 snaps to 24 in a world 30 wide: still inside
    let odd = World::new(30, 30, 8, 1, 0, 0);
    assert!(!odd.out_of_bounds(Vec2::new(28, 28)));
    assert!(!odd.out_of_bounds(Vec2::new(31, 31)));
    assert!(odd.out_of_bounds(Vec2::new(32, 0)));
    let none = World::new(0, 0, 8, 1, 0, 0);
    assert!(none.out_of_bounds(Vec2::new(0, 0)));
}

#[test]
fn has_tile_reports_live_cells_and_everything_outside() {
    let mut world = grid();
    world.add_cell(Cell::new(CellType::Water, Vec2::new(8, 8)));
    assert!(world.has_tile(Vec2::new(8, 8)));
    assert!(world.has_tile(Vec2::new(15, 15)));
    assert!(!world.has_tile(Vec2::new(16, 8)));
    assert!(!world.has_tile(Vec2::new(0, 0)));
    for pos in [(32, 0), (0, 32), (32, 32), (1000, 5), (5, 1000), (u32::MAX, 0)] {
        assert!(world.has_tile(Vec2::new(pos.0, pos.1)), "{:?}", pos);
        assert!(world.has_tile_solid(Vec2::new(pos.0, pos.1)), "{:?}", pos);
    }
}

#[test]
fn has_tile_solid_ignores_cells_that_are_not_solid() {
    let mut world = grid();
    world.add_cell(Cell::new(CellType::Water, Vec2::new(0, 0)));
    world.add_cell(Cell::new(CellType::Fire, Vec2::new(8, 0)));
    world.add_cell(Cell::new(CellType::Empty, Vec2::new(16, 0)));
    world.add_cell(Cell::new(CellType::Stone, Vec2::new(0, 8)));
    world.add_cell(Cell::new(CellType::Wood, Vec2::new(8, 8)));
    world.add_cell(Cell::new(CellType::Sand, Vec2::new(16, 8)));
    for x in [0u32, 8, 16] {
        assert!(world.has_tile(Vec2::new(x, 0)));
        assert!(!world.has_tile_solid(Vec2::new(x + 3, 3)));
        assert!(world.has_tile_solid(Vec2::new(x + 3, 11)));
    }
    assert!(!world.has_tile_solid(Vec2::new(24, 24)));
}

#[test]
fn blocked_counts_what_lies_off_the_coordinate_range() {
    let mut world = grid();
    world.add_cell(Cell::new(CellType::Water, Vec2::new(8, 8)));
    assert!(world.blocked(-1, 0));
    assert!(world.blocked(0, -8));
    assert!(world.blocked(1 << 32, 0));
    assert!(world.blocked(0, 1 << 32));
    assert!(world.blocked(32, 0));
    assert!(world.blocked(8, 8));
    assert!(!world.blocked(0, 0));
    assert!(world.blocked_solid(-8, 8));
    assert!(world.blocked_solid(8, 1 << 40));
    assert!(world.blocked_solid(0, 32));
    assert!(!world.blocked_solid(8, 8));
}

#[test]
fn burning_finds_fire_within_the_scan_range() {
    let mut world = grid();
    world.add_cell(Cell::new(CellType::Fire, Vec2::new(8, 8)));
    world.add_cell(Cell::new(CellType::Wood, Vec2::new(16, 8)));
    world.add_cell(Cell::new(CellType::Fire, Vec2::new(32, 8)));
    world.add_cell(Cell::new(CellType::Fire, Vec2::new(40, 8)));
    assert!(world.burning(8, 8));
    assert!(world.burning(12, 12));
    assert!(!world.burning(16, 8));
    assert!(!world.burning(0, 0));
    assert!(world.burning(32, 8));
    assert!(!world.burning(33, 8));
    assert!(!world.burning(40, 8));
    assert!(!world.burning(-8, 8));
    assert!(!world.burning(8, 1 << 33));
}

#[test]
fn cell_type_is_that_of_the_first_cell_on_the_grid_cell() {
    let mut world = grid();
    assert_eq!(world.cell_type(Vec2::new(8, 8)), CellType::Empty);
    world.add_cell(Cell::new(CellType::Wood, Vec2::new(8, 8)));
    assert_eq!(world.cell_type(Vec2::new(8, 8)), CellType::Wood);
    assert_eq!(world.cell_type(Vec2::new(15, 9)), CellType::Wood);
    assert_eq!(world.cell_type(Vec2::new(16, 8)), CellType::Empty);
    assert_eq!(world.cell_type(Vec2::new(100, 100)), CellType::Empty);
    // a second cell pushed onto the same grid cell is not the one found
    world.cells.push(Cell::new(CellType::Fire, Vec2::new(8, 8)));
    assert_eq!(world.cell_type(Vec2::new(8, 8)), CellType::Wood);
    assert_eq!(world.find_covering(Vec2::new(14, 14)), Some(0));
    assert_eq!(world.find_covering(Vec2::new(0, 0)), None);
}

#[test]
fn add_cell_snaps_and_replaces() {
    let mut world = grid();
    assert!(world.add_cell(Cell::new(CellType::Stone, Vec2::new(9, 17))));
    assert_eq!(world.cells.len(), 1);
    assert_eq!(world.cells[0].pos, Vec2::new(8, 16));
    assert_eq!(world.cells[0].cell_type, CellType::Stone);
    assert!(world.add_cell(Cell::new(CellType::Wood, Vec2::new(0, 0))));
    assert!(world.add_cell(Cell::new(CellType::Sand, Vec2::new(15, 23))));
    assert_eq!(world.cells.len(), 2);
    assert_eq!(world.cells[0], Cell::new(CellType::Wood, Vec2::new(0, 0)));
    assert_eq!(world.cells[1], Cell::new(CellType::Sand, Vec2::new(8, 16)));
}

#[test]
fn add_cell_keeps_the_velocity_and_accepts_any_position() {
    let mut world = grid();
    let mut cell = Cell::new(CellType::Sand, Vec2::new(1000, 2001));
    cell.vel = Vec2::new(-8, 8);
    assert!(world.add_cell(cell));
    assert_eq!(world.cells.len(), 1);
    assert_eq!(world.cells[0].pos, Vec2::new(1000, 2000));
    assert_eq!(world.cells[0].vel, Vec2::new(-8, 8));
    assert!(world.out_of_bounds(world.cells[0].pos));
}

#[test]
fn destroy_cell_removes_the_cell_stored_at_exactly_that_position() {
    let mut world = grid();
    world.add_cell(Cell::new(CellType::Stone, Vec2::new(0, 0)));
    world.add_cell(Cell::new(CellType::Wood, Vec2::new(8, 0)));
    world.add_cell(Cell::new(CellType::Sand, Vec2::new(16, 0)));
    // not snapped: matches nothing
    world.destroy_cell(Vec2::new(9, 0));
    assert_eq!(world.cells.len(), 3);
    world.destroy_cell(Vec2::new(24, 24));
    assert_eq!(world.cells.len(), 3);
    world.destroy_cell(Vec2::new(8, 0));
    assert_eq!(world.cells.len(), 2);
    assert_eq!(world.cells[0].cell_type, CellType::Stone);
    assert_eq!(world.cells[1].cell_type, CellType::Sand);
    world.destroy_cell(Vec2::new(8, 0));
    assert_eq!(world.cells.len(), 2);
}

#[test]
fn destroy_cell_removes_only_the_first_of_several() {
    let mut world = grid();
    world.cells.push(Cell::new(CellType::Stone, Vec2::new(8, 8)));
    world.cells.push(Cell::new(CellType::Wood, Vec2::new(0, 0)));
    world.cells.push(Cell::new(CellType::Sand, Vec2::new(8, 8)));
    world.destroy_cell(Vec2::new(8, 8));
    assert_eq!(world.cells.len(), 2);
    assert_eq!(world.cells[0].cell_type, CellType::Wood);
    assert_eq!(world.cells[1].cell_type, CellType::Sand);
    assert_eq!(world.find_at(Vec2::new(8, 8)), Some(1));
    assert_eq!(world.find_at(Vec2::new(8, 9)), None);
}

#[test]
fn get_cell_gives_mutable_access_by_snapped_position() {
    let mut world = grid();
    world.add_cell(Cell::new(CellType::Stone, Vec2::new(0, 0)));
    world.add_cell(Cell::new(CellType::Wood, Vec2::new(8, 8)));
    assert!(world.get_cell(Vec2::new(16, 16)).is_none());
    {
        let cell = world.get_cell(Vec2::new(13, 9)).expect("a cell at (8, 8)");
        assert_eq!(cell.cell_type, CellType::Wood);
        assert_eq!(cell.pos, Vec2::new(8, 8));
        cell.cell_type = CellType::Fire;
    }
    assert_eq!(world.cells.len(), 2);
    assert_eq!(world.cells[0].cell_type, CellType::Stone);
    assert_eq!(world.cells[1].cell_type, CellType::Fire);
    assert_eq!(world.cell_type(Vec2::new(8, 8)), CellType::Fire);
}

#[test]
fn place_snaps_replaces_and_ignores_what_is_outside() {
    let mut world = grid();
    assert!(world.place(CellType::Sand, Vec2::new(10, 10)));
    assert_eq!(world.cells, vec![Cell::new(CellType::Sand, Vec2::new(8, 8))]);
    assert!(world.place(CellType::Stone, Vec2::new(15, 15)));
    assert_eq!(world.cells, vec![Cell::new(CellType::Stone, Vec2::new(8, 8))]);
    assert!(!world.place(CellType::Wood, Vec2::new(32, 8)));
    assert!(!world.place(CellType::Wood, Vec2::new(8, 32)));
    assert!(!world.place(CellType::Wood, Vec2::new(u32::MAX, u32::MAX)));
    assert_eq!(world.cells, vec![Cell::new(CellType::Stone, Vec2::new(8, 8))]);
    assert!(world.place(CellType::Wood, Vec2::new(31, 31)));
    assert_eq!(world.cells.len(), 2);
    assert_eq!(world.cells[1], Cell::new(CellType::Wood, Vec2::new(24, 24)));
}

#[test]
fn erase_snaps_and_removes() {
    let mut world = grid();
    world.place(CellType::Sand, Vec2::new(8, 8));
    world.place(CellType::Stone, Vec2::new(16, 8));
    world.erase(Vec2::new(0, 0));
    assert_eq!(world.cells.len(), 2);
    world.erase(Vec2::new(15, 15));
    assert_eq!(world.cells, vec![Cell::new(CellType::Stone, Vec2::new(16, 8))]);
    world.erase(Vec2::new(40, 8));
    assert_eq!(world.cells.len(), 1);
}

#[test]
fn erase_ignores_what_is_outside() {
    let mut world = grid();
    world.add_cell(Cell::new(CellType::Stone, Vec2::new(40, 8)));
    world.erase(Vec2::new(41, 9));
    assert_eq!(world.cells.len(), 1);
    world.destroy_cell(Vec2::new(40, 8));
    assert!(world.cells.is_empty());
}

#[test]
fn clear_empties_the_world() {
    let mut world = World::new(32, 16, 8, 2, 3, 4);
    world.place(CellType::Sand, Vec2::new(8, 8));
    world.place(CellType::Stone, Vec2::new(16, 8));
    world.clear();
    assert!(world.cells.is_empty());
    assert_eq!((world.width, world.height, world.cell_size), (32, 16, 8));
    assert_eq!((world.tick_rate, world.tick_speed, world.gravity), (2, 3, 4));
    world.clear();
    assert!(world.cells.is_empty());
}

fn one_per_cell(world: &World) -> bool {
    for i in 0..world.cells.len() {
        for j in (i + 1)..world.cells.len() {
            if world.snap_pos(world.cells[i].pos) == world.snap_pos(world.cells[j].pos) {
                return false;
            }
        }
    }
    true
}

#[test]
fn place_and_erase_keep_one_cell_per_grid_cell() {
    let mut world = grid();
    let types = [CellType::Sand, CellType::Stone, CellType::Wood, CellType::Fire, CellType::Water];
    let mut seed = 12345u32;
    for step in 0..2000u32 {
        seed = seed.wrapping_mul(1_103_515_245).wrapping_add(12_345);
        let x = (seed >> 8) % 40;
        let y = (seed >> 16) % 40;
        if step % 3 == 2 {
            world.erase(Vec2::new(x, y));
        } else {
            world.place(types[(step % 5) as usize], Vec2::new(x, y));
        }
        assert!(one_per_cell(&world));
        assert!(world.cells.len() <= 16);
        for cell in &world.cells {
            assert_eq!(cell.pos, world.snap_pos(cell.pos));
            assert!(!world.out_of_bounds(cell.pos));
        }
    }
}

#[test]
fn count_frame_says_when_a_tick_is_due() {
    let every = World::new(32, 32, 8, 1, 0, 0);
    assert_eq!(every.count_frame(0), (0, true));
    let third = World::new(32, 32, 8, 3, 0, 0);
    assert_eq!(third.count_frame(0), (1, false));
    assert_eq!(third.count_frame(1), (2, false));
    assert_eq!(third.count_frame(2), (0, true));
    assert_eq!(third.count_frame(9), (0, true));
    let never_waits = World::new(32, 32, 8, 0, 0, 0);
    assert_eq!(never_waits.count_frame(0), (0, true));
    let slow = World::new(32, 32, 8, u32::MAX, 0, 0);
    assert_eq!(slow.count_frame(u32::MAX - 2), (u32::MAX - 1, false));
    assert_eq!(slow.count_frame(u32::MAX - 1), (0, true));
    assert_eq!(slow.count_frame(u32::MAX), (0, true));
}

#[test]
fn frame_period_is_16600_microseconds_per_tick_of_the_rate() {
    assert_eq!(World::new(32, 32, 8, 1, 0, 0).frame_period_micros(), 16_600);
    assert_eq!(World::new(32, 32, 8, 4, 0, 0).frame_period_micros(), 66_400);
    assert_eq!(World::new(32, 32, 8, 0, 0, 0).frame_period_micros(), 0);
    assert_eq!(World::new(32, 32, 8, u32::MAX, 0, 0).frame_period_micros(), 71_296_457_097_000);
}

#[test]
fn clone_is_a_snapshot() {
    let mut world = World::new(32, 16, 8, 2, 3, 4);
    world.place(CellType::Sand, Vec2::new(8, 0));
    world.place(CellType::Fire, Vec2::new(16, 8));
    let snapshot = world.clone();
    assert_eq!(snapshot.cells, world.cells);
    assert_eq!((snapshot.width, snapshot.height, snapshot.cell_size), (32, 16, 8));
    assert_eq!((snapshot.tick_rate, snapshot.tick_speed, snapshot.gravity), (2, 3, 4));
    world.update_with(&vec![0, 0]);
    world.place(CellType::Stone, Vec2::new(0, 0));
    assert_eq!(
        snapshot.cells,
        vec![Cell::new(CellType::Sand, Vec2::new(8, 0)), Cell::new(CellType::Fire, Vec2::new(16, 8))]
    );
    assert_eq!(snapshot.cell_type(Vec2::new(16, 8)), CellType::Fire);
    assert_eq!(world.cell_type(Vec2::new(16, 8)), CellType::Empty);
}
