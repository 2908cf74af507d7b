use pty_expect::Transcript;

fn fed(bytes: &[u8]) -> Transcript {
    let mut t = Transcript::with_default_size();
    assert!(t.on_read(Some(bytes)).is_some());
    t
}

#[test]
fn rendered_view_sees_what_raw_view_sees() {
    let t = fed(b"screen-line-1\r\n");
    let s = t.screen();
    assert!(s.contents().contains("screen-line-1"));
    assert!(s.contains("screen-line-1"));
    assert!(!s.contains("screen-line-2"));
    assert!(s.contains(""));
}

#[test]
fn default_geometry_and_resize() {
    let mut t = Transcript::with_default_size();
    assert_eq!(t.screen().size(), (24, 80));
    t.resize(10, 40);
    assert_eq!(t.screen().size(), (10, 40));
    assert_eq!(t.screen().raw().size(), (10, 40));
    assert!(t.on_read(Some(b"text")).is_some());
    // The smallest screen the emulator takes still wraps wide characters
    // and long lines.
    t.resize(2, 2);
    assert_eq!(t.screen().size(), (2, 2));
    assert!(t.on_read(Some("中文中文 and a long line".as_bytes())).is_some());
    assert_eq!(t.screen().size(), (2, 2));
}

#[test]
fn cursor_follows_output() {
    let t = fed(b"ab");
    assert_eq!(t.screen().cursor(), (0, 2));
    let u = fed(b"ab\r\ncd\r\nx");
    assert_eq!(u.screen().cursor(), (2, 1));
}

#[test]
fn char_at_reads_cells() {
    let t = fed(b"hi");
    let s = t.screen();
    assert_eq!(s.char_at(0, 0).as_deref(), Some("h"));
    assert_eq!(s.char_at(0, 1).as_deref(), Some("i"));
    // An empty cell and a cell outside the screen both give None.
    assert_eq!(s.char_at(0, 2), None);
    assert_eq!(s.char_at(5, 5), None);
    assert_eq!(s.char_at(24, 0), None);
    assert_eq!(s.char_at(0, 80), None);
}

#[test]
fn escape_sequences_are_rendered_not_shown() {
    let t = fed(b"old\x1b[2J\x1b[Hnew");
    let s = t.screen();
    assert!(s.contains("new"));
    assert!(!s.contains("old"));
    assert!(!s.contains("[2J"));
}
