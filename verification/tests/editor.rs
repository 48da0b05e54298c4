use editor::{Color, Command, Key, KeyCodec, LanguageServerConfig, Mode, Syntax};

#[test]
fn debug() {
    assert_eq!(Color::new(0xAB, 0xCD, 0xEF).to_hex(), "#abcdef");
    assert_eq!(Color::new(0x00, 0x00, 0x00).to_hex(), "#000000");
}

#[test]
fn identify_by_extension() {
    assert_eq!(Syntax::identify(b"/src/main.rs"), Some(Syntax::Rust));
    assert_eq!(Syntax::identify(b"app.js"), Some(Syntax::JavaScript));
    assert_eq!(Syntax::identify(b"notes.txt"), None);
    assert_eq!(Syntax::identify(b"Makefile"), None);
    assert_eq!(Syntax::identify(b"/etc/.rs"), None);
}

#[test]
fn language_ids() {
    assert_eq!(Syntax::Rust.into_language_id(), "rust");
    assert_eq!(Syntax::JavaScript.into_language_id(), "javascript");
}

#[test]
fn language_server_command() {
    let config =
        LanguageServerConfig::new(vec![String::from("rust-analyzer"), String::from("--stdio")])
            .unwrap();
    let (program, args) = config.command();
    assert_eq!(program, "rust-analyzer");
    assert_eq!(args, &[String::from("--stdio")]);
}

#[test]
fn language_server_command_empty() {
    assert!(LanguageServerConfig::new(vec![]).is_none());
}

#[test]
fn handle_key_bindings() {
    assert_eq!(Mode::Normal.handle_key(Key::Char('q')), (Mode::Normal, Command::Quit));
    assert_eq!(Mode::Normal.handle_key(Key::Char('j')), (Mode::Normal, Command::MoveDown));
    assert_eq!(Mode::Normal.handle_key(Key::Char('i')), (Mode::Insert, Command::Idle));
    assert_eq!(Mode::Insert.handle_key(Key::Char('q')), (Mode::Insert, Command::InsertChar('q')));
    assert_eq!(Mode::Insert.handle_key(Key::Return), (Mode::Insert, Command::InsertChar('\n')));
    assert_eq!(Mode::Insert.handle_key(Key::Backspace), (Mode::Insert, Command::DeleteBack));
    assert_eq!(Mode::Insert.handle_key(Key::Esc), (Mode::Normal, Command::Idle));
    assert_eq!(Mode::Normal.handle_key(Key::ArrowUp), (Mode::Normal, Command::Idle));
}

/// Decodes every key of a buffer, the way the input loop drives the codec.
fn decode_all(bytes: &[u8]) -> Vec<Key> {
    let mut keys = Vec::new();
    let mut rest = bytes;
    loop {
        let (consumed, key) = KeyCodec::decode(rest);
        if let Some(key) = key {
            keys.push(key);
        }
        if consumed == 0 {
            break;
        }
        rest = &rest[consumed..];
    }
    keys
}

#[test]
fn decode_char() {
    assert_eq!(decode_all(b"a"), vec![Key::Char('a')]);
}

#[test]
fn decode_ctrl() {
    assert_eq!(decode_all(b"\x01"), vec![Key::Ctrl('a')]);
}

#[test]
fn decode_escape() {
    assert_eq!(decode_all(b"\x1b"), vec![Key::Esc]);
}

#[test]
fn decode_escape_seq() {
    assert_eq!(decode_all(b"\x1b[A"), vec![Key::ArrowUp]);
}

#[test]
fn decode_multi_char() {
    assert_eq!(
        decode_all(b"TeSt"),
        vec![Key::Char('T'), Key::Char('e'), Key::Char('S'), Key::Char('t')]
    );
}

#[test]
fn decode_multi_escape_seq() {
    assert_eq!(decode_all(b"\x1b[B\x1b[A"), vec![Key::ArrowDown, Key::ArrowUp]);
}

#[test]
fn decode_escape_then_char() {
    assert_eq!(decode_all(b"\x1b[Bf"), vec![Key::ArrowDown, Key::Char('f')]);
}

#[test]
fn unknown_escape_sequence() {
    assert_eq!(decode_all(b"\x1b[1337"), vec![]);
}

#[test]
fn decode_eof() {
    assert_eq!(decode_all(b""), vec![]);
}
