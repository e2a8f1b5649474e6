//! The commands a playfield cell can hold and their one-character encoding.
//!
//! Every character decodes to exactly one command: the operator glyphs to
//! their operators, a blank to `Space`, a decimal digit to `Num`, and anything
//! else to a literal `Char`. Encoding is the inverse on every command that
//! decoding can produce.

use vstd::prelude::*;

verus! {

/// One cell of the playfield.
#[derive(Clone, Copy, Debug, PartialEq, Eq, Structural)]
pub enum Command {
    /// `+`
    Add,
    /// `-`
    Sub,
    /// `*`
    Mul,
    /// `/`
    Div,
    /// `%`
    Mod,
    /// `!`
    Not,
    /// `` ` ``
    Gt,
    /// `>`
    Right,
    /// `<`
    Left,
    /// `^`
    Up,
    /// `v`
    Down,
    /// `?`
    Rand,
    /// `_`
    IfH,
    /// `|`
    IfV,
    /// `"`
    Str,
    /// `:`
    Dup,
    /// `\`
    Swap,
    /// `$`
    Pop,
    /// `.`
    OutI,
    /// `,`
    OutC,
    /// `#`
    Bri,
    /// `g`
    Get,
    /// `p`
    Put,
    /// `&`
    InI,
    /// `~`
    InC,
    /// `@`
    End,
    /// A blank cell.
    Space,
    /// A decimal digit; the payload is its value, `0..=9`.
    Num(u8),
    /// Any other character.
    Char(char),
}

impl Command {
    /// The character that stands for this command.
    pub open spec fn spec_as_char(&self) -> char {
        match *self {
            Command::Add => '+',
            Command::Sub => '-',
            Command::Mul => '*',
            Command::Div => '/',
            Command::Mod => '%',
            Command::Not => '!',
            Command::Gt => '`',
            Command::Right => '>',
            Command::Left => '<',
            Command::Up => '^',
            Command::Down => 'v',
            Command::Rand => '?',
            Command::IfH => '_',
            Command::IfV => '|',
            Command::Str => '"',
            Command::Dup => ':',
            Command::Swap => '\\',
            Command::Pop => '$',
            Command::OutI => '.',
            Command::OutC => ',',
            Command::Bri => '#',
            Command::Get => 'g',
            Command::Put => 'p',
            Command::InI => '&',
            Command::InC => '~',
            Command::End => '@',
            Command::Space => ' ',
            Command::Num(n) => (n + 48) as char,
            Command::Char(c) => c,
        }
    }

    /// The command that a character stands for.
    pub open spec fn spec_from_char(c: char) -> Command {
        match c {
            '+' => Command::Add,
            '-' => Command::Sub,
            '*' => Command::Mul,
            '/' => Command::Div,
            '%' => Command::Mod,
            '!' => Command::Not,
            '`' => Command::Gt,
            '>' => Command::Right,
            '<' => Command::Left,
            '^' => Command::Up,
            'v' => Command::Down,
            '?' => Command::Rand,
            '_' => Command::IfH,
            '|' => Command::IfV,
            '"' => Command::Str,
            ':' => Command::Dup,
            '\\' => Command::Swap,
            '$' => Command::Pop,
            '.' => Command::OutI,
            ',' => Command::OutC,
            '#' => Command::Bri,
            'g' => Command::Get,
            'p' => Command::Put,
            '&' => Command::InI,
            '~' => Command::InC,
            '@' => Command::End,
            ' ' => Command::Space,
            _ => if '0' <= c && c <= '9' {
                Command::Num((c as int - 48) as u8)
            } else {
                Command::Char(c)
            },
        }
    }

    /// A digit command holds a single decimal digit.
    pub open spec fn valid(self) -> bool {
        self matches Command::Num(n) ==> n <= 9
    }

    /// The commands that decoding a character can produce: exactly those
    /// that decoding their own character gives back.
    pub open spec fn canonical(self) -> bool {
        Command::spec_from_char(self.spec_as_char()) == self
    }

    /// The commands that decoding a byte can produce, which are the ones a
    /// playfield cell holds.
    pub open spec fn is_byte(self) -> bool {
        self.canonical() && (self.spec_as_char() as int) < 256
    }

    /// The command that a byte stands for.
    pub open spec fn spec_decode(b: u8) -> Command {
        Command::spec_from_char(b as char)
    }

    /// The byte that stands for a command which `is_byte`.
    pub open spec fn spec_encode(&self) -> u8 {
        self.spec_as_char() as u8
    }

    /// The character that stands for this command.
    #[verifier::when_used_as_spec(spec_as_char)]
    pub fn as_char(&self) -> (c: char)
        requires
            self.valid(),
        ensures
            c == self.spec_as_char(),
    {
        match self {
            Command::Add => '+',
            Command::Sub => '-',
            Command::Mul => '*',
            Command::Div => '/',
            Command::Mod => '%',
            Command::Not => '!',
            Command::Gt => '`',
            Command::Right => '>',
            Command::Left => '<',
            Command::Up => '^',
            Command::Down => 'v',
            Command::Rand => '?',
            Command::IfH => '_',
            Command::IfV => '|',
            Command::Str => '"',
            Command::Dup => ':',
            Command::Swap => '\\',
            Command::Pop => '$',
            Command::OutI => '.',
            Command::OutC => ',',
            Command::Bri => '#',
            Command::Get => 'g',
            Command::Put => 'p',
            Command::InI => '&',
            Command::InC => '~',
            Command::End => '@',
            Command::Space => ' ',
            Command::Num(n) => (*n + 48) as char,
            Command::Char(c) => *c,
        }
    }

    /// The command that a character stands for. Total: a character that is
    /// neither a glyph, a blank nor a digit becomes a literal `Char`.
    #[verifier::when_used_as_spec(spec_from_char)]
    pub fn from_char(c: char) -> (cmd: Command)
        ensures
            cmd == Command::spec_from_char(c),
            cmd.canonical(),
            cmd.spec_as_char() == c,
    {
        match c {
            '+' => Command::Add,
            '-' => Command::Sub,
            '*' => Command::Mul,
            '/' => Command::Div,
            '%' => Command::Mod,
            '!' => Command::Not,
            '`' => Command::Gt,
            '>' => Command::Right,
            '<' => Command::Left,
            '^' => Command::Up,
            'v' => Command::Down,
            '?' => Command::Rand,
            '_' => Command::IfH,
            '|' => Command::IfV,
            '"' => Command::Str,
            ':' => Command::Dup,
            '\\' => Command::Swap,
            '$' => Command::Pop,
            '.' => Command::OutI,
            ',' => Command::OutC,
            '#' => Command::Bri,
            'g' => Command::Get,
            'p' => Command::Put,
            '&' => Command::InI,
            '~' => Command::InC,
            '@' => Command::End,
            ' ' => Command::Space,
            '0'..='9' => Command::Num((c as u8) - 48),
            _ => Command::Char(c),
        }
    }

    /// The command that a byte stands for.
    #[verifier::when_used_as_spec(spec_decode)]
    pub fn decode(b: u8) -> (cmd: Command)
        ensures
            cmd == Command::spec_decode(b),
            cmd.is_byte(),
            cmd.spec_encode() == b,
    {
        Command::from_char(b as char)
    }

    /// The byte that stands for a command taken from a playfield cell.
    #[verifier::when_used_as_spec(spec_encode)]
    pub fn encode(&self) -> (b: u8)
        requires
            self.is_byte(),
        ensures
            b == self.spec_encode(),
            Command::spec_decode(b) == *self,
    {
        self.as_char() as u8
    }
}

impl Command {
    /// The text of this command: its one character.
    pub fn to_string(&self) -> (text: String)
        requires
            self.valid(),
        ensures
            text@ == seq![self.spec_as_char()],
    {
        let mut text = String::new();
        text.push(self.as_char());
        text
    }
}

impl From<char> for Command {
    fn from(c: char) -> (cmd: Command) {
        Command::from_char(c)
    }
}

impl vstd::std_specs::convert::FromSpecImpl<char> for Command {
    open spec fn obeys_from_spec() -> bool {
        true
    }

    open spec fn from_spec(c: char) -> Command {
        Command::spec_from_char(c)
    }
}

/// Decoding a character and encoding the result gives the character back,
/// and what decoding produces is canonical.
pub proof fn lemma_from_char_as_char(c: char)
    ensures
        Command::spec_from_char(c).spec_as_char() == c,
        Command::spec_from_char(c).canonical(),
        Command::spec_from_char(c).valid(),
{
}

/// Encoding a canonical command and decoding the result gives the command
/// back; a canonical digit command holds a single digit.
pub proof fn lemma_as_char_from_char(cmd: Command)
    requires
        cmd.canonical(),
    ensures
        Command::spec_from_char(cmd.spec_as_char()) == cmd,
        cmd.valid(),
{
}

/// Decoding is injective: two characters with the same command are equal.
pub proof fn lemma_from_char_injective(a: char, b: char)
    requires
        Command::spec_from_char(a) == Command::spec_from_char(b),
    ensures
        a == b,
{
    lemma_from_char_as_char(a);
    lemma_from_char_as_char(b);
}

/// On bytes: decoding gives a command that a cell can hold, and encoding it
/// gives the byte back.
pub proof fn lemma_decode_encode(b: u8)
    ensures
        Command::spec_decode(b).is_byte(),
        Command::spec_decode(b).spec_encode() == b,
{
    lemma_from_char_as_char(b as char);
}

/// On commands that a cell can hold: encoding gives a byte that decodes to
/// the same command.
pub proof fn lemma_encode_decode(cmd: Command)
    requires
        cmd.is_byte(),
    ensures
        Command::spec_decode(cmd.spec_encode()) == cmd,
{
    let c = cmd.spec_as_char();
    assert((c as u8) as char == c);
}

/// Decoding, encoding and decoding again changes nothing: for every byte,
/// `decode(encode(decode(b))) == decode(b)`.
pub proof fn lemma_codec_idempotent(b: u8)
    ensures
        Command::spec_decode(Command::spec_decode(b).spec_encode()) == Command::spec_decode(b),
{
    lemma_decode_encode(b);
}

} // verus!
