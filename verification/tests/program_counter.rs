use befunge_93::{ProgramCounter, PLAYFIELD_COLS, PLAYFIELD_ROWS};

fn at(x: usize, y: usize) -> ProgramCounter {
    let mut pc = ProgramCounter::init();
    for _ in 0..x {
        pc.right();
    }
    for _ in 0..y {
        pc.down();
    }
    assert_eq!((pc.x(), pc.y()), (x, y));
    pc
}

#[test]
fn playfield_is_25_by_80() {
    assert_eq!(PLAYFIELD_ROWS, 25);
    assert_eq!(PLAYFIELD_COLS, 80);
}

#[test]
fn init_is_top_left() {
    let pc = ProgramCounter::init();
    assert_eq!((pc.x(), pc.y()), (0, 0));
}

#[test]
fn reset_goes_back_to_top_left() {
    let mut pc = at(17, 9);
    pc.reset();
    assert_eq!((pc.x(), pc.y()), (0, 0));
}

#[test]
fn right_from_last_column_wraps_to_first_same_row() {
    let mut pc = at(79, 3);
    pc.right();
    assert_eq!((pc.x(), pc.y()), (0, 3));
}

#[test]
fn left_from_first_column_wraps_to_last_same_row() {
    let mut pc = at(0, 3);
    pc.left();
    assert_eq!((pc.x(), pc.y()), (79, 3));
}

#[test]
fn down_from_last_row_wraps_to_first_same_column() {
    let mut pc = at(5, 24);
    pc.down();
    assert_eq!((pc.x(), pc.y()), (5, 0));
}

#[test]
fn up_from_first_row_wraps_to_last_same_column() {
    let mut pc = at(5, 0);
    pc.up();
    assert_eq!((pc.x(), pc.y()), (5, 24));
}

#[test]
fn moves_inside_the_playfield_change_one_coordinate_by_one() {
    let mut pc = at(10, 10);
    pc.right();
    assert_eq!((pc.x(), pc.y()), (11, 10));
    pc.down();
    assert_eq!((pc.x(), pc.y()), (11, 11));
    pc.left();
    assert_eq!((pc.x(), pc.y()), (10, 11));
    pc.up();
    assert_eq!((pc.x(), pc.y()), (10, 10));
}

#[test]
fn eighty_moves_right_come_back() {
    let mut pc = at(33, 7);
    for _ in 0..80 {
        pc.right();
    }
    assert_eq!((pc.x(), pc.y()), (33, 7));
    for _ in 0..25 {
        pc.up();
    }
    assert_eq!((pc.x(), pc.y()), (33, 7));
}
