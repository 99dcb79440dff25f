use snake::grid::{
    clamp_to_play_area, is_inside, to_world, wall_cells, Cell, CELL_COUNT, HALF_PLAY_SIDE,
    PLAY_SIDE, WALL_COUNT,
};

#[test]
fn is_inside_accepts_the_corners() {
    assert!(is_inside(0, 0, PLAY_SIDE));
    assert!(is_inside(PLAY_SIDE, PLAY_SIDE, PLAY_SIDE));
    assert!(is_inside(7, 30, 30));
}

#[test]
fn is_inside_rejects_what_lies_beyond() {
    assert!(!is_inside(-1, 0, PLAY_SIDE));
    assert!(!is_inside(0, -1, PLAY_SIDE));
    assert!(!is_inside(PLAY_SIDE + 1, 0, PLAY_SIDE));
    assert!(!is_inside(0, PLAY_SIDE + 1, PLAY_SIDE));
}

#[test]
fn the_play_area_has_900_cells() {
    assert_eq!(PLAY_SIDE, 30);
    assert_eq!(HALF_PLAY_SIDE, 15);
    assert_eq!(CELL_COUNT, 900);
    assert_eq!((PLAY_SIDE * PLAY_SIDE) as usize, CELL_COUNT);
}

#[test]
fn cells_inside_are_in_the_play_area() {
    assert!(Cell { x: -15, y: -15 }.is_in_play_area());
    assert!(Cell { x: 14, y: 14 }.is_in_play_area());
    assert!(Cell { x: 0, y: 0 }.is_in_play_area());
    assert!(!Cell { x: 15, y: 0 }.is_in_play_area());
    assert!(!Cell { x: 0, y: 15 }.is_in_play_area());
    assert!(!Cell { x: -16, y: 0 }.is_in_play_area());
    assert!(!Cell { x: 0, y: -16 }.is_in_play_area());
}

#[test]
fn clamping_holds_a_point_to_the_play_area() {
    assert_eq!(clamp_to_play_area(3, -4), Cell { x: 3, y: -4 });
    assert_eq!(clamp_to_play_area(15, 0), Cell { x: 14, y: 0 });
    assert_eq!(clamp_to_play_area(-16, 0), Cell { x: -15, y: 0 });
    assert_eq!(clamp_to_play_area(0, 15), Cell { x: 0, y: 14 });
    assert_eq!(clamp_to_play_area(0, -16), Cell { x: 0, y: -15 });
    assert_eq!(clamp_to_play_area(i64::MAX, i64::MIN), Cell { x: 14, y: -15 });
}

#[test]
fn grid_indices_count_from_the_lower_left_corner() {
    assert_eq!(to_world(0, 0), Cell { x: -15, y: -15 });
    assert_eq!(to_world(15, 15), Cell { x: 0, y: 0 });
    assert_eq!(to_world(29, 29), Cell { x: 14, y: 14 });
    assert_eq!(to_world(-1, 31), Cell { x: -16, y: 16 });
}

#[test]
fn the_frame_has_128_cells() {
    let walls = wall_cells();
    assert_eq!(walls.len(), 128);
    assert_eq!(walls.len(), WALL_COUNT);
    assert_eq!(walls[0], Cell { x: -16, y: -16 });
    assert_eq!(walls[32], Cell { x: 16, y: -16 });
    assert_eq!(walls[33], Cell { x: -16, y: -15 });
    assert_eq!(walls[34], Cell { x: 16, y: -15 });
    assert_eq!(walls[127], Cell { x: 16, y: 16 });
}

#[test]
fn the_frame_encloses_the_grid_indices() {
    let walls = wall_cells();
    for x in -16..=16 {
        for y in -16..=16 {
            let on_frame = x == -16 || x == 16 || y == -16 || y == 16;
            let cell = Cell { x, y };
            assert_eq!(walls.iter().filter(|c| **c == cell).count(), if on_frame { 1 } else { 0 });
        }
    }
    for pair in walls.windows(2) {
        assert!(pair[0].y < pair[1].y || (pair[0].y == pair[1].y && pair[0].x < pair[1].x));
    }
}
