use befunge_93::Command;

#[test]
fn glyphs_decode_to_their_commands() {
    let table: [(u8, Command); 27] = [
        (b'+', Command::Add),
        (b'-', Command::Sub),
        (b'*', Command::Mul),
        (b'/', Command::Div),
        (b'%', Command::Mod),
        (b'!', Command::Not),
        (b'`', Command::Gt),
        (b'>', Command::Right),
        (b'<', Command::Left),
        (b'^', Command::Up),
        (b'v', Command::Down),
        (b'?', Command::Rand),
        (b'_', Command::IfH),
        (b'|', Command::IfV),
        (b'"', Command::Str),
        (b':', Command::Dup),
        (b'\\', Command::Swap),
        (b'$', Command::Pop),
        (b'.', Command::OutI),
        (b',', Command::OutC),
        (b'#', Command::Bri),
        (b'g', Command::Get),
        (b'p', Command::Put),
        (b'&', Command::InI),
        (b'~', Command::InC),
        (b'@', Command::End),
        (b' ', Command::Space),
    ];
    for (byte, cmd) in table.iter() {
        assert_eq!(Command::decode(*byte), *cmd);
        assert_eq!(cmd.encode(), *byte);
        assert_eq!(Command::from_char(*byte as char), *cmd);
        assert_eq!(cmd.as_char(), *byte as char);
    }
}

#[test]
fn digits_decode_to_their_values() {
    for d in 0u8..=9 {
        assert_eq!(Command::decode(b'0' + d), Command::Num(d));
        assert_eq!(Command::Num(d).as_char(), (b'0' + d) as char);
        assert_eq!(Command::Num(d).encode(), b'0' + d);
    }
}

#[test]
fn other_bytes_decode_to_literal_characters() {
    assert_eq!(Command::decode(b'A'), Command::Char('A'));
    assert_eq!(Command::decode(b'z'), Command::Char('z'));
    assert_eq!(Command::decode(0), Command::Char('\0'));
    assert_eq!(Command::decode(10), Command::Char('\n'));
    assert_eq!(Command::decode(200), Command::Char('\u{c8}'));
    assert_eq!(Command::decode(255), Command::Char('\u{ff}'));
    assert_eq!(Command::Char('A').encode(), b'A');
    assert_eq!(Command::Char('\u{ff}').encode(), 255);
}

#[test]
fn characters_beyond_a_byte_are_literal() {
    assert_eq!(Command::from_char('\u{2502}'), Command::Char('\u{2502}'));
    assert_eq!(Command::Char('\u{2502}').as_char(), '\u{2502}');
}

#[test]
fn encode_inverts_decode_on_every_byte() {
    for b in 0u8..=255 {
        let cmd = Command::decode(b);
        assert_eq!(cmd.encode(), b);
        assert_eq!(Command::decode(cmd.encode()), cmd);
        assert_eq!(Command::from_char(cmd.as_char()), cmd);
    }
}

#[test]
fn decode_is_injective() {
    for a in 0u8..=255 {
        for b in 0u8..=255 {
            if a != b {
                assert_ne!(Command::decode(a), Command::decode(b));
            }
        }
    }
}

#[test]
fn command_text_is_its_character() {
    assert_eq!(Command::Add.to_string(), "+");
    assert_eq!(Command::Num(7).to_string(), "7");
    assert_eq!(Command::Char('\u{e9}').to_string(), "\u{e9}");
    assert_eq!(Command::from('v'), Command::Down);
    assert_eq!(Command::from('x'), Command::Char('x'));
}
