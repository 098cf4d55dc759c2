use mightty::input::{Arrow, InputMapper, Key, KeyCode, Modifiers};

#[test]
fn test_basic_keys() {
    let mapper = InputMapper::new();

    assert_eq!(mapper.map_key(&Key::new(KeyCode::Enter)), b"\x0D");
    assert_eq!(mapper.map_key(&Key::new(KeyCode::Backspace)), b"\x7F");
    assert_eq!(mapper.map_key(&Key::new(KeyCode::Tab)), b"\x09");
    assert_eq!(mapper.map_key(&Key::new(KeyCode::Escape)), b"\x1B");
}

#[test]
fn test_arrow_keys_normal_mode() {
    let mapper = InputMapper::new();

    assert_eq!(mapper.map_key(&Key::new(KeyCode::Arrow(Arrow::Up))), b"\x1B[A");
    assert_eq!(mapper.map_key(&Key::new(KeyCode::Arrow(Arrow::Down))), b"\x1B[B");
    assert_eq!(mapper.map_key(&Key::new(KeyCode::Arrow(Arrow::Right))), b"\x1B[C");
    assert_eq!(mapper.map_key(&Key::new(KeyCode::Arrow(Arrow::Left))), b"\x1B[D");
}

#[test]
fn test_arrow_keys_application_mode() {
    let mut mapper = InputMapper::new();
    mapper.set_application_mode(true);

    assert_eq!(mapper.map_key(&Key::new(KeyCode::Arrow(Arrow::Up))), b"\x1BOA");
    assert_eq!(mapper.map_key(&Key::new(KeyCode::Arrow(Arrow::Down))), b"\x1BOB");
    assert_eq!(mapper.map_key(&Key::new(KeyCode::Arrow(Arrow::Right))), b"\x1BOC");
    assert_eq!(mapper.map_key(&Key::new(KeyCode::Arrow(Arrow::Left))), b"\x1BOD");
}

#[test]
fn test_home_end_normal_mode() {
    let mapper = InputMapper::new();

    assert_eq!(mapper.map_key(&Key::new(KeyCode::Home)), b"\x1B[H");
    assert_eq!(mapper.map_key(&Key::new(KeyCode::End)), b"\x1B[F");
}

#[test]
fn test_home_end_application_mode() {
    let mut mapper = InputMapper::new();
    mapper.set_application_mode(true);

    assert_eq!(mapper.map_key(&Key::new(KeyCode::Home)), b"\x1BOH");
    assert_eq!(mapper.map_key(&Key::new(KeyCode::End)), b"\x1BOF");
}

#[test]
fn test_function_keys() {
    let mapper = InputMapper::new();

    // F1-F4 use ESC O prefix
    assert_eq!(mapper.map_key(&Key::new(KeyCode::Function(1))), b"\x1BOP");
    assert_eq!(mapper.map_key(&Key::new(KeyCode::Function(2))), b"\x1BOQ");
    assert_eq!(mapper.map_key(&Key::new(KeyCode::Function(3))), b"\x1BOR");
    assert_eq!(mapper.map_key(&Key::new(KeyCode::Function(4))), b"\x1BOS");

    // F5-F12 use ESC [ prefix with tilde
    assert_eq!(mapper.map_key(&Key::new(KeyCode::Function(5))), b"\x1B[15~");
    assert_eq!(mapper.map_key(&Key::new(KeyCode::Function(6))), b"\x1B[17~");
    assert_eq!(mapper.map_key(&Key::new(KeyCode::Function(7))), b"\x1B[18~");
    assert_eq!(mapper.map_key(&Key::new(KeyCode::Function(8))), b"\x1B[19~");
    assert_eq!(mapper.map_key(&Key::new(KeyCode::Function(9))), b"\x1B[20~");
    assert_eq!(mapper.map_key(&Key::new(KeyCode::Function(10))), b"\x1B[21~");
    assert_eq!(mapper.map_key(&Key::new(KeyCode::Function(11))), b"\x1B[23~");
    assert_eq!(mapper.map_key(&Key::new(KeyCode::Function(12))), b"\x1B[24~");
}

#[test]
fn test_control_characters() {
    let mapper = InputMapper::new();

    // Ctrl+C
    assert_eq!(
        mapper.map_key_with_modifiers(&Key::new(KeyCode::Char('c')), Modifiers::control()),
        b"\x03"
    );

    // Ctrl+D
    assert_eq!(
        mapper.map_key_with_modifiers(&Key::new(KeyCode::Char('d')), Modifiers::control()),
        b"\x04"
    );

    // Ctrl+L
    assert_eq!(
        mapper.map_key_with_modifiers(&Key::new(KeyCode::Char('l')), Modifiers::control()),
        b"\x0C"
    );
}

#[test]
fn test_alt_prefix() {
    let mapper = InputMapper::new();

    // Alt+a should send ESC + a
    assert_eq!(
        mapper.map_key_with_modifiers(&Key::new(KeyCode::Char('a')), Modifiers::alt()),
        b"\x1Ba"
    );
}

#[test]
fn test_unicode_input() {
    let mapper = InputMapper::new();

    // UTF-8 encoded characters
    assert_eq!(mapper.map_key(&Key::new(KeyCode::Char('h'))), b"h");
    assert_eq!(mapper.map_key(&Key::new(KeyCode::Char('é'))), "é".as_bytes());
    assert_eq!(mapper.map_key(&Key::new(KeyCode::Char('中'))), "中".as_bytes());
}

#[test]
fn test_insert_delete() {
    let mapper = InputMapper::new();

    assert_eq!(mapper.map_key(&Key::new(KeyCode::Insert)), b"\x1B[2~");
    assert_eq!(mapper.map_key(&Key::new(KeyCode::Delete)), b"\x1B[3~");
}

#[test]
fn test_page_up_down() {
    let mapper = InputMapper::new();

    assert_eq!(mapper.map_key(&Key::new(KeyCode::PageUp)), b"\x1B[5~");
    assert_eq!(mapper.map_key(&Key::new(KeyCode::PageDown)), b"\x1B[6~");
}

#[test]
fn test_arrow_with_modifiers() {
    let mapper = InputMapper::new();
    let key = Key::new(KeyCode::Arrow(Arrow::Up));

    // Shift+Up
    assert_eq!(mapper.map_key_with_modifiers(&key, Modifiers::shift()), b"\x1B[1;2A");

    // Ctrl+Up
    assert_eq!(mapper.map_key_with_modifiers(&key, Modifiers::control()), b"\x1B[1;5A");

    // Alt+Up
    assert_eq!(mapper.map_key_with_modifiers(&key, Modifiers::alt()), b"\x1B[1;3A");

    // Ctrl+Shift+Up
    assert_eq!(
        mapper.map_key_with_modifiers(&key, Modifiers::control() | Modifiers::shift()),
        b"\x1B[1;6A"
    );
}

#[test]
fn alt_prefixes_characters_with_escape() {
    let mapper = InputMapper::new();
    for c in ['z', 'é', '中', '!'] {
        let plain = mapper.map_key(&Key::new(KeyCode::Char(c)));
        let alt = mapper.map_key_with_modifiers(&Key::new(KeyCode::Char(c)), Modifiers::alt());
        assert_eq!(alt[0], 0x1B);
        assert_eq!(&alt[1..], &plain[..]);
    }
}

#[test]
fn application_mode_changes_only_cursor_keys() {
    let mut app = InputMapper::new();
    app.set_application_mode(true);
    let normal = InputMapper::new();
    assert!(app.is_application_mode());
    assert!(!normal.is_application_mode());
    assert_eq!(app.map_key(&Key::new(KeyCode::PageUp)), normal.map_key(&Key::new(KeyCode::PageUp)));
    assert_eq!(
        app.map_key(&Key::new(KeyCode::Function(1))),
        normal.map_key(&Key::new(KeyCode::Function(1)))
    );
    assert_eq!(app.map_key(&Key::new(KeyCode::Char('x'))), b"x");
}

#[test]
fn application_mode_with_modifier_uses_csi_form() {
    let mut mapper = InputMapper::new();
    mapper.set_application_mode(true);
    assert_eq!(
        mapper.map_key_with_modifiers(&Key::new(KeyCode::Arrow(Arrow::Left)), Modifiers::shift()),
        b"\x1B[1;2D"
    );
    assert_eq!(
        mapper.map_key_with_modifiers(&Key::new(KeyCode::Home), Modifiers::control()),
        b"\x1B[1;5H"
    );
}

#[test]
fn modified_function_keys_follow_their_forms() {
    let mapper = InputMapper::new();
    assert_eq!(
        mapper.map_key_with_modifiers(&Key::new(KeyCode::Function(1)), Modifiers::shift()),
        b"\x1B[1;2P"
    );
    assert_eq!(
        mapper.map_key_with_modifiers(&Key::new(KeyCode::Function(3)), Modifiers::control()),
        b"\x1B[1;5R"
    );
    assert_eq!(
        mapper.map_key_with_modifiers(&Key::new(KeyCode::Function(5)), Modifiers::shift()),
        b"\x1B[15;2~"
    );
    assert_eq!(
        mapper.map_key_with_modifiers(&Key::new(KeyCode::Function(2)), Modifiers::shift()),
        b"\x1B[1;2Q"
    );
    assert_eq!(
        mapper.map_key_with_modifiers(&Key::new(KeyCode::Function(12)), Modifiers::alt()),
        b"\x1B[24;3~"
    );
    assert_eq!(
        mapper.map_key_with_modifiers(&Key::new(KeyCode::Delete), Modifiers::control()),
        b"\x1B[3;5~"
    );
}

#[test]
fn control_maps_letters_and_keeps_other_characters() {
    let mapper = InputMapper::new();
    assert_eq!(
        mapper.map_key_with_modifiers(&Key::new(KeyCode::Char('A')), Modifiers::control()),
        b"\x01"
    );
    assert_eq!(
        mapper.map_key_with_modifiers(&Key::new(KeyCode::Char('[')), Modifiers::control()),
        b"\x1B"
    );
    assert_eq!(
        mapper.map_key_with_modifiers(&Key::new(KeyCode::Char('@')), Modifiers::control()),
        b"\x00"
    );
}

#[test]
fn unknown_function_key_maps_to_nothing() {
    let mapper = InputMapper::new();
    assert!(mapper.map_key(&Key::new(KeyCode::Function(13))).is_empty());
    assert!(mapper.map_key(&Key::new(KeyCode::Function(0))).is_empty());
}

#[test]
fn modifier_set_operations() {
    let mut m = Modifiers::none();
    assert!(m.is_empty());
    m.insert(Modifiers::shift());
    m.insert(Modifiers::control());
    assert!(m.contains(Modifiers::shift()));
    assert!(m.contains(Modifiers::control()));
    assert!(!m.contains(Modifiers::alt()));
    m.remove(Modifiers::shift());
    assert!(!m.contains(Modifiers::shift()));
    assert!(!m.is_empty());
    let n = Modifiers::new(true, true, false);
    assert!(n.contains(Modifiers::shift() | Modifiers::alt()));
    assert!((n & Modifiers::alt()).contains(Modifiers::alt()));
    assert!(!(n & Modifiers::alt()).contains(Modifiers::shift()));
    let mut k = Modifiers::alt();
    k |= Modifiers::super_key();
    assert!(k.contains(Modifiers::super_key()));
    k &= Modifiers::super_key();
    assert!(!k.contains(Modifiers::alt()));
}

#[test]
fn key_with_text_keeps_text() {
    let k = Key::with_text(KeyCode::Char('x'), "x");
    assert_eq!(k.text.as_deref(), Some("x"));
    assert_eq!(Key::new(KeyCode::Tab).text, None);
}

#[test]
fn control_letters_and_symbols_ignore_case_alt_and_super() {
    let mut mapper = InputMapper::new();
    mapper.set_application_mode(true);
    let ctrl_alt = Modifiers::control() | Modifiers::alt() | Modifiers::super_key();
    assert_eq!(mapper.map_key_with_modifiers(&Key::new(KeyCode::Char('A')), ctrl_alt), b"\x01");
    assert_eq!(mapper.map_key_with_modifiers(&Key::new(KeyCode::Char('z')), ctrl_alt), b"\x1A");
    let symbols = [('@', 0x00u8), ('[', 0x1B), ('\\', 0x1C), (']', 0x1D), ('^', 0x1E), ('_', 0x1F)];
    for (c, b) in symbols {
        assert_eq!(
            mapper.map_key_with_modifiers(&Key::new(KeyCode::Char(c)), Modifiers::control()),
            vec![b]
        );
    }
}

#[test]
fn characters_without_control_byte_are_escaped_utf8() {
    let mapper = InputMapper::new();
    let shift_alt_super = Modifiers::shift() | Modifiers::alt() | Modifiers::super_key();
    assert_eq!(
        mapper.map_key_with_modifiers(&Key::new(KeyCode::Char('é')), shift_alt_super),
        b"\x1B\xC3\xA9"
    );
    assert_eq!(
        mapper.map_key_with_modifiers(&Key::new(KeyCode::Char('1')), Modifiers::control()),
        b"1"
    );
    assert_eq!(
        mapper.map_key_with_modifiers(&Key::new(KeyCode::Char('中')), Modifiers::shift()),
        "中".as_bytes()
    );
}

#[test]
fn modifier_number_counts_shift_alt_control_and_ignores_super() {
    let mapper = InputMapper::new();
    let all = Modifiers::shift() | Modifiers::alt() | Modifiers::control() | Modifiers::super_key();
    assert_eq!(mapper.map_key_with_modifiers(&Key::new(KeyCode::Arrow(Arrow::Left)), all), b"\x1B[1;8D");
    let alt_ctrl = Modifiers::alt() | Modifiers::control();
    assert_eq!(mapper.map_key_with_modifiers(&Key::new(KeyCode::Arrow(Arrow::Down)), alt_ctrl), b"\x1B[1;7B");
    assert_eq!(mapper.map_key_with_modifiers(&Key::new(KeyCode::Function(12)), Modifiers::alt()), b"\x1B[24;3~");
}
