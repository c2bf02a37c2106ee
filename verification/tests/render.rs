use falling_sand::{Cell, CellType, World};
use vek::Vec2;

const STONE: u32 = 0x888c8d;
const WOOD: u32 = 0x5c4033;
const SAND: u32 = 0xc2b280;
const FIRE: u32 = 0xff9a00;

#[test]
fn empty_world_is_black() {
    let world = World::new(5, 3, 2, 1, 0, 0);
    assert_eq!(world.draw_scene(), vec![0u32; 15]);
    assert!(World::new(0, 7, 2, 1, 0, 0).draw_scene().is_empty());
    assert!(World::new(7, 0, 2, 1, 0, 0).draw_scene().is_empty());
}

#[test]
fn a_cell_paints_a_square_of_its_colour() {
    let mut world = World::new(4, 4, 2, 1, 0, 0);
    world.place(CellType::Stone, Vec2::new(2, 0));
    let expected = vec![
        0, 0, STONE, STONE,
        0, 0, STONE, STONE,
        0, 0, 0,     0,
        0, 0, 0,     0,
    ];
    assert_eq!(world.draw_scene(), expected);
}

#[test]
fn rows_are_as_wide_as_the_world() {
    let mut world = World::new(6, 4, 2, 1, 0, 0);
    world.place(CellType::Sand, Vec2::new(0, 2));
    world.place(CellType::Fire, Vec2::new(4, 0));
    world.place(CellType::Wood, Vec2::new(2, 2));
    world.place(CellType::Water, Vec2::new(0, 0));
    let expected = vec![
        0,    0,    0,    0,    FIRE, FIRE,
        0,    0,    0,    0,    FIRE, FIRE,
        SAND, SAND, WOOD, WOOD, 0,    0,
        SAND, SAND, WOOD, WOOD, 0,    0,
    ];
    assert_eq!(world.draw_scene(), expected);
}

#[test]
fn a_cell_at_the_rim_is_clipped() {
    let mut world = World::new(3, 3, 2, 1, 0, 0);
    world.place(CellType::Stone, Vec2::new(2, 2));
    world.place(CellType::Wood, Vec2::new(2, 0));
    let expected = vec![
        0, 0, WOOD,
        0, 0, WOOD,
        0, 0, STONE,
    ];
    assert_eq!(world.draw_scene(), expected);
}

#[test]
fn a_cell_outside_the_world_paints_nothing() {
    let mut world = World::new(4, 4, 2, 1, 0, 0);
    world.add_cell(Cell::new(CellType::Stone, Vec2::new(4, 0)));
    world.add_cell(Cell::new(CellType::Stone, Vec2::new(0, 4)));
    world.add_cell(Cell::new(CellType::Stone, Vec2::new(u32::MAX, u32::MAX)));
    assert_eq!(world.draw_scene(), vec![0u32; 16]);
}

#[test]
fn a_later_cell_paints_over_an_earlier_one() {
    let mut world = World::new(4, 4, 2, 1, 0, 0);
    world.cells.push(Cell::new(CellType::Stone, Vec2::new(0, 0)));
    world.cells.push(Cell::new(CellType::Wood, Vec2::new(1, 1)));
    let expected = vec![
        STONE, STONE, 0,    0,
        STONE, WOOD,  WOOD, 0,
        0,     WOOD,  WOOD, 0,
        0,     0,     0,    0,
    ];
    assert_eq!(world.draw_scene(), expected);
    world.cells.swap(0, 1);
    let expected = vec![
        STONE, STONE, 0,    0,
        STONE, STONE, WOOD, 0,
        0,     WOOD,  WOOD, 0,
        0,     0,     0,    0,
    ];
    assert_eq!(world.draw_scene(), expected);
}

#[test]
fn the_scene_follows_the_falling_sand() {
    let mut world = World::new(2, 4, 1, 1, 0, 0);
    world.place(CellType::Sand, Vec2::new(1, 0));
    assert_eq!(world.draw_scene(), vec![0, SAND, 0, 0, 0, 0, 0, 0]);
    world.update();
    assert_eq!(world.draw_scene(), vec![0, 0, 0, SAND, 0, 0, 0, 0]);
    world.update();
    world.update();
    assert_eq!(world.draw_scene(), vec![0, 0, 0, 0, 0, 0, 0, SAND]);
    world.update();
    assert_eq!(world.draw_scene(), vec![0, 0, 0, 0, 0, 0, 0, SAND]);
}
