use befunge_93::{Command, Interpreter, Playfield};

#[test]
fn new_playfield_is_blank() {
    let field = Playfield::new();
    for y in 0..25 {
        for x in 0..80 {
            assert_eq!(field.get(x, y), Command::Space);
        }
    }
}

#[test]
fn set_changes_one_cell() {
    let mut field = Playfield::new();
    field.set(79, 24, Command::End);
    field.set(3, 1, Command::Num(5));
    assert_eq!(field.get(79, 24), Command::End);
    assert_eq!(field.get(3, 1), Command::Num(5));
    assert_eq!(field.get(1, 3), Command::Space);
    assert_eq!(field.get(78, 24), Command::Space);
}

#[test]
fn load_places_bytes_left_to_right() {
    let mut field = Playfield::new();
    field.load(b"94*.@");
    assert_eq!(field.get(0, 0), Command::Num(9));
    assert_eq!(field.get(1, 0), Command::Num(4));
    assert_eq!(field.get(2, 0), Command::Mul);
    assert_eq!(field.get(3, 0), Command::OutI);
    assert_eq!(field.get(4, 0), Command::End);
    assert_eq!(field.get(5, 0), Command::Space);
}

#[test]
fn newline_starts_the_next_row_and_fills_no_cell() {
    let mut field = Playfield::new();
    field.load(b"ab\ncd\n\ne");
    assert_eq!(field.get(0, 0), Command::Char('a'));
    assert_eq!(field.get(1, 0), Command::Char('b'));
    assert_eq!(field.get(2, 0), Command::Space);
    assert_eq!(field.get(0, 1), Command::Char('c'));
    assert_eq!(field.get(1, 1), Command::Char('d'));
    assert_eq!(field.get(0, 2), Command::Space);
    assert_eq!(field.get(0, 3), Command::Char('e'));
}

#[test]
fn a_row_of_more_than_80_bytes_runs_on_in_the_next_row() {
    let mut source = vec![b'a'; 80];
    source.push(b'b');
    source.push(b'c');
    let mut field = Playfield::new();
    field.load(&source);
    assert_eq!(field.get(79, 0), Command::Char('a'));
    assert_eq!(field.get(0, 1), Command::Char('b'));
    assert_eq!(field.get(1, 1), Command::Char('c'));
    assert_eq!(field.get(2, 1), Command::Space);
}

#[test]
fn a_full_row_followed_by_newline_skips_a_row() {
    let mut source = vec![b'a'; 80];
    source.push(b'\n');
    source.push(b'b');
    let mut field = Playfield::new();
    field.load(&source);
    assert_eq!(field.get(0, 1), Command::Space);
    assert_eq!(field.get(0, 2), Command::Char('b'));
}

#[test]
fn a_text_longer_than_the_playfield_wraps_and_overwrites() {
    let mut source = vec![b'a'; 80 * 25];
    source.push(b'z');
    source.push(b'y');
    let mut field = Playfield::new();
    field.load(&source);
    assert_eq!(field.get(0, 0), Command::Char('z'));
    assert_eq!(field.get(1, 0), Command::Char('y'));
    assert_eq!(field.get(2, 0), Command::Char('a'));
    assert_eq!(field.get(79, 24), Command::Char('a'));
}

#[test]
fn more_than_25_newlines_wrap_to_the_first_row() {
    let mut source = vec![b'\n'; 25];
    source.push(b'q');
    let mut field = Playfield::new();
    field.load(&source);
    assert_eq!(field.get(0, 0), Command::Char('q'));
}

#[test]
fn load_keeps_cells_it_does_not_reach() {
    let mut field = Playfield::new();
    field.load(b"12345");
    field.load(b"ab");
    assert_eq!(field.get(0, 0), Command::Char('a'));
    assert_eq!(field.get(1, 0), Command::Char('b'));
    assert_eq!(field.get(2, 0), Command::Num(3));
    assert_eq!(field.get(4, 0), Command::Num(5));
}

#[test]
fn interpreter_load_fills_its_playfield_only() {
    let mut int = Interpreter::new();
    int.load(b"v\n@");
    assert_eq!(int.cell(0, 0), Command::Down);
    assert_eq!(int.cell(0, 1), Command::End);
    assert_eq!(int.get_current_command(), Command::Down);
    assert_eq!(int.position(), (0, 0));
    assert_eq!(int.get_output(), "");
    assert_eq!(int.get_stack().len(), 0);
}
