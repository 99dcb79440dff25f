use snake::direction::{process_input, Direction, PressedKeys, SnakeHead};

const NO_KEYS: PressedKeys = PressedKeys { up: false, down: false, left: false, right: false };

fn all_directions() -> [Direction; 4] {
    [Direction::Left, Direction::Right, Direction::Down, Direction::Up]
}

#[test]
fn headings_are_unit_steps() {
    assert_eq!(Direction::Left.delta(), (-1, 0));
    assert_eq!(Direction::Right.delta(), (1, 0));
    assert_eq!(Direction::Down.delta(), (0, -1));
    assert_eq!(Direction::Up.delta(), (0, 1));
}

#[test]
fn indices_select_left_right_down_up() {
    assert_eq!(Direction::from_index(0), Direction::Left);
    assert_eq!(Direction::from_index(1), Direction::Right);
    assert_eq!(Direction::from_index(2), Direction::Down);
    assert_eq!(Direction::from_index(3), Direction::Up);
}

#[test]
fn the_opposite_negates_the_step() {
    for d in all_directions() {
        let back = d.opposite();
        assert_eq!(back.delta(), (-d.delta().0, -d.delta().1));
        assert_eq!(back.opposite(), d);
    }
}

#[test]
fn a_reversal_is_dropped() {
    let mut head = SnakeHead(Direction::Right);
    process_input(&mut head, &PressedKeys { left: true, ..NO_KEYS });
    assert_eq!(head.0.delta(), (1, 0));
    assert_eq!(head, SnakeHead(Direction::Right));
}

#[test]
fn no_heading_can_be_reversed_in_one_step() {
    for current in all_directions() {
        for bits in 0..16u8 {
            let keys = PressedKeys {
                up: bits & 1 != 0,
                down: bits & 2 != 0,
                left: bits & 4 != 0,
                right: bits & 8 != 0,
            };
            let mut head = SnakeHead(current);
            process_input(&mut head, &keys);
            assert_ne!(head.0, current.opposite());
        }
    }
}

#[test]
fn a_single_key_turns_the_head() {
    let mut head = SnakeHead(Direction::Right);
    process_input(&mut head, &PressedKeys { up: true, ..NO_KEYS });
    assert_eq!(head.0, Direction::Up);
    process_input(&mut head, &PressedKeys { left: true, ..NO_KEYS });
    assert_eq!(head.0, Direction::Left);
    process_input(&mut head, &PressedKeys { down: true, ..NO_KEYS });
    assert_eq!(head.0, Direction::Down);
    process_input(&mut head, &PressedKeys { right: true, ..NO_KEYS });
    assert_eq!(head.0, Direction::Right);
}

#[test]
fn the_key_of_the_current_heading_keeps_it() {
    let mut head = SnakeHead(Direction::Up);
    process_input(&mut head, &PressedKeys { up: true, ..NO_KEYS });
    assert_eq!(head.0, Direction::Up);
}

#[test]
fn no_key_keeps_the_heading() {
    let mut head = SnakeHead(Direction::Down);
    process_input(&mut head, &NO_KEYS);
    assert_eq!(head.0, Direction::Down);
}

#[test]
fn several_keys_keep_the_heading() {
    let mut head = SnakeHead(Direction::Right);
    process_input(&mut head, &PressedKeys { up: true, down: true, ..NO_KEYS });
    assert_eq!(head.0, Direction::Right);
    process_input(&mut head, &PressedKeys { up: true, right: true, ..NO_KEYS });
    assert_eq!(head.0, Direction::Right);
    process_input(&mut head, &PressedKeys { up: true, down: true, left: true, right: true });
    assert_eq!(head.0, Direction::Right);
}

#[test]
fn the_request_is_the_single_key() {
    assert_eq!(NO_KEYS.request(), None);
    assert_eq!(PressedKeys { up: true, ..NO_KEYS }.request(), Some(Direction::Up));
    assert_eq!(PressedKeys { down: true, ..NO_KEYS }.request(), Some(Direction::Down));
    assert_eq!(PressedKeys { left: true, ..NO_KEYS }.request(), Some(Direction::Left));
    assert_eq!(PressedKeys { right: true, ..NO_KEYS }.request(), Some(Direction::Right));
    assert_eq!(PressedKeys { left: true, right: true, ..NO_KEYS }.request(), None);
}
