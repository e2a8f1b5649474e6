use befunge_93::Interpreter;

const YELLOW: &str = "\u{1b}[33m";
const MARK: &str = "\u{1b}[1;47;31m";
const RESET: &str = "\u{1b}[0m";

fn expected(rows: &[String]) -> String {
    let line = "\u{2500}".repeat(80);
    let mut s = format!("{}\u{250c}{}\u{2510}{}\n", YELLOW, line, RESET);
    for row in rows {
        s += &format!("{}\u{2502}{}{}{}\u{2502}\n{}", YELLOW, RESET, row, YELLOW, RESET);
    }
    s += &format!("{}\u{2514}{}\u{2518}{}", YELLOW, line, RESET);
    s
}

#[test]
fn picture_of_an_empty_interpreter() {
    let int = Interpreter::new();
    let mut rows = vec![" ".repeat(80); 25];
    rows[0] = format!("{} {}{}", MARK, RESET, " ".repeat(79));
    assert_eq!(int.to_string(), expected(&rows));
}

#[test]
fn picture_marks_the_cell_under_the_program_counter() {
    let mut int = Interpreter::new();
    int.load(b"12v\n  @");
    assert_eq!(int.step(), Ok(befunge_93::StepResult::Cont));
    assert_eq!(int.step(), Ok(befunge_93::StepResult::Cont));
    assert_eq!(int.step(), Ok(befunge_93::StepResult::Cont));
    assert_eq!(int.position(), (2, 1));
    let mut rows = vec![" ".repeat(80); 25];
    rows[0] = format!("12v{}", " ".repeat(77));
    rows[1] = format!("  {}@{}{}", MARK, RESET, " ".repeat(77));
    assert_eq!(int.to_string(), expected(&rows));
}

#[test]
fn picture_agrees_with_the_colour_library() {
    let int = Interpreter::new();
    let text = int.to_string();
    let top = format!("\u{250c}{}\u{2510}", "\u{2500}".repeat(80));
    assert!(text.starts_with(&ansi_term::Colour::Yellow.paint(top).to_string()));
    let mark = ansi_term::Colour::Red.on(ansi_term::Colour::White).bold().paint(" ").to_string();
    assert!(text.contains(&mark));
    assert_eq!(text.matches(&ansi_term::Colour::Yellow.paint("\u{2502}\n").to_string()).count(), 25);
    assert_eq!(text.lines().count(), 27);
}

#[test]
fn picture_shows_bytes_beyond_ascii_as_characters() {
    let mut int = Interpreter::new();
    int.load(&[b' ', 0xe9, 0xff]);
    let mut rows = vec![" ".repeat(80); 25];
    rows[0] = format!("{} {}\u{e9}\u{ff}{}", MARK, RESET, " ".repeat(77));
    assert_eq!(int.to_string(), expected(&rows));
}
