use tcp_server::session::{respond, Action, Session, FAREWELL, READ_BUFFER_SIZE, UTF8_WARNING};

fn warning() -> Action {
    Action::Send(b"Need utf-8 sequence.".to_vec())
}

fn farewell() -> Action {
    Action::SendThenClose(b"Bye bye and see you soon.\n".to_vec())
}

#[test]
fn messages_are_exact() {
    assert_eq!(UTF8_WARNING.as_bytes(), b"Need utf-8 sequence.");
    assert_eq!(FAREWELL.as_bytes(), b"Bye bye and see you soon.\n");
    assert_eq!(READ_BUFFER_SIZE, 512);
}

#[test]
fn plain_text_is_echoed() {
    assert_eq!(respond(b"hello\r\n"), Action::Send(b"hello\r\n".to_vec()));
}

#[test]
fn at_inside_text_is_echoed() {
    let mut s = Session::new();
    assert_eq!(s.on_read(b"hi@there"), Action::Send(b"hi@there".to_vec()));
    assert!(s.is_open());
}

#[test]
fn multibyte_first_character_is_echoed() {
    let chunk = "é@x".as_bytes();
    assert_eq!(respond(chunk), Action::Send(chunk.to_vec()));
}

#[test]
fn terminator_says_goodbye_and_closes() {
    let mut s = Session::new();
    assert_eq!(s.on_read(b"@quit"), farewell());
    assert!(!s.is_open());
    assert_eq!(s.on_read(b"more"), Action::Close);
    assert!(!s.is_open());
}

#[test]
fn lone_terminator_closes() {
    assert_eq!(respond(b"@"), farewell());
    assert_eq!(respond(b"@\r\n"), farewell());
}

#[test]
fn invalid_utf8_warns_and_keeps_session() {
    let mut s = Session::new();
    assert_eq!(s.on_read(&[0xff, 0xfe, 0x41]), warning());
    assert!(s.is_open());
    assert_eq!(s.on_read(b"next"), Action::Send(b"next".to_vec()));
    assert!(s.is_open());
}

#[test]
fn invalid_utf8_starting_with_at_only_warns() {
    let mut s = Session::new();
    assert_eq!(s.on_read(&[0x40, 0xc3]), warning());
    assert!(s.is_open());
}

#[test]
fn truncated_and_surrogate_sequences_warn() {
    assert_eq!(respond(&[0x61, 0xe2, 0x82]), warning());
    assert_eq!(respond(&[0xed, 0xa0, 0x80]), warning());
    assert_eq!(respond(&[0xc0, 0x80]), warning());
}

#[test]
fn end_of_stream_closes_silently() {
    let mut s = Session::new();
    assert!(s.is_open());
    assert_eq!(s.on_read(&[]), Action::Close);
    assert!(!s.is_open());
}

#[test]
fn large_burst_comes_back_in_chunks() {
    let input: Vec<u8> = (0..1300u32).map(|i| b'a' + (i % 26) as u8).collect();
    let mut s = Session::new();
    let mut echoed: Vec<u8> = Vec::new();
    let mut replies = 0;
    for chunk in input.chunks(READ_BUFFER_SIZE) {
        match s.on_read(chunk) {
            Action::Send(b) => {
                assert_eq!(b.as_slice(), chunk);
                echoed.extend_from_slice(&b);
                replies += 1;
            }
            other => panic!("unexpected {:?}", other),
        }
    }
    assert_eq!(replies, 3);
    assert_eq!(echoed, input);
    assert!(s.is_open());
}

#[test]
fn two_sessions_do_not_share_state() {
    let mut a = Session::new();
    let mut b = Session::new();
    assert_eq!(a.on_read(b"from a"), Action::Send(b"from a".to_vec()));
    assert_eq!(b.on_read(b"from b"), Action::Send(b"from b".to_vec()));
    assert_eq!(a.on_read(b"@bye"), farewell());
    assert!(!a.is_open());
    assert!(b.is_open());
    assert_eq!(b.on_read(b"still here"), Action::Send(b"still here".to_vec()));
    assert_eq!(a.on_read(b"late"), Action::Close);
}
