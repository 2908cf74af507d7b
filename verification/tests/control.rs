use pty_expect::{control_byte, line_bytes, PtyError};

#[test]
fn ctrl_c_is_byte_three() {
    assert_eq!(control_byte('c').unwrap(), 0x03);
    assert_eq!(control_byte('C').unwrap(), 0x03);
}

#[test]
fn ctrl_d_is_byte_four_in_either_case() {
    assert_eq!(control_byte('d').unwrap(), 0x04);
    assert_eq!(control_byte('D').unwrap(), 0x04);
}

#[test]
fn ctrl_letters_span_one_to_twenty_six() {
    assert_eq!(control_byte('a').unwrap(), 1);
    assert_eq!(control_byte('A').unwrap(), 1);
    assert_eq!(control_byte('z').unwrap(), 26);
    assert_eq!(control_byte('Z').unwrap(), 26);
    for (i, c) in ('a'..='z').enumerate() {
        assert_eq!(control_byte(c).unwrap() as usize, i + 1);
        assert_eq!(control_byte(c.to_ascii_uppercase()).unwrap() as usize, i + 1);
    }
}

#[test]
fn ctrl_rejects_non_letters() {
    for c in ['1', '@', '[', '`', '{', ' ', '\n', 'é', 'Ω'] {
        match control_byte(c) {
            Err(PtyError::InvalidCtrlChar(got)) => assert_eq!(got, c),
            other => panic!("expected InvalidCtrlChar for {:?}, got {:?}", c, other),
        }
    }
}

#[test]
fn line_bytes_appends_newline() {
    assert_eq!(line_bytes("ping"), b"ping\n".to_vec());
    assert_eq!(line_bytes(""), b"\n".to_vec());
    assert_eq!(line_bytes("é"), vec![0xC3, 0xA9, b'\n']);
}
