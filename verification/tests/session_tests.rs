use diary::page::gen_page;
use diary::session::{Action, Session, CURSOR};
use diary::{Data, FileType, SignalType, State};

fn type_text(s: &mut Session, text: &str) {
    for c in text.chars() {
        assert!(matches!(s.handle(Data::Char(c)), Action::Redraw));
    }
}

fn with_cursor(text: &str) -> String {
    let mut b = String::from(text);
    b.push(CURSOR);
    b
}

#[test]
fn new_session_starts_on_text_screen() {
    let s = Session::new(String::from("pw"));
    assert_eq!(s.state, State::AddingText);
    assert_eq!(s.buffer, with_cursor(""));
    assert_eq!(s.content_text, "Null");
    assert!(s.files.is_empty());
}

#[test]
fn typing_and_erasing() {
    let mut s = Session::new(String::from("pw"));
    type_text(&mut s, "dear");
    assert_eq!(s.buffer, with_cursor("dear"));
    assert!(matches!(s.handle(Data::Command(SignalType::BackSpace)), Action::Redraw));
    assert_eq!(s.buffer, with_cursor("dea"));
    type_text(&mut s, "r\nx");
    assert!(matches!(s.handle(Data::Command(SignalType::BackSpace)), Action::Redraw));
    assert_eq!(s.buffer, with_cursor("dear\n"));
}

#[test]
fn erase_on_empty_text_keeps_cursor() {
    let mut s = Session::new(String::from("pw"));
    assert!(matches!(s.handle(Data::Command(SignalType::BackSpace)), Action::Redraw));
    assert_eq!(s.buffer, with_cursor(""));
}

#[test]
fn close_quits_without_change() {
    let mut s = Session::new(String::from("pw"));
    type_text(&mut s, "abc");
    assert!(matches!(s.handle(Data::Command(SignalType::Close)), Action::Quit));
    assert_eq!(s.buffer, with_cursor("abc"));
    assert_eq!(s.state, State::AddingText);
}

#[test]
fn esc_on_text_screen_saves_text() {
    let mut s = Session::new(String::from("pw"));
    type_text(&mut s, "today");
    match s.handle(Data::Command(SignalType::Cancel)) {
        Action::Save(d) => {
            assert_eq!(d.content, "today");
            assert!(d.files.is_empty());
        }
        _ => panic!("expected a save"),
    }
}

#[test]
fn go_then_attach_then_save() {
    let mut s = Session::new(String::from("pw"));
    type_text(&mut s, "hello");
    assert!(matches!(s.handle(Data::Command(SignalType::Go)), Action::Redraw));
    assert_eq!(s.state, State::AddingFile);
    assert_eq!(s.content_text, "hello");
    assert_eq!(s.buffer, "");
    type_text(&mut s, "/home/me/cat.png");
    let path = match s.handle(Data::Command(SignalType::Go)) {
        Action::OpenFile(p) => p,
        _ => panic!("expected a file to open"),
    };
    assert_eq!(path, "/home/me/cat.png");
    assert!(matches!(s.file_found(&[1, 2, 3]), Action::Redraw));
    assert_eq!(s.buffer, "");
    assert_eq!(s.files.len(), 1);
    assert_eq!(s.files[0].description, "cat.png");
    assert_eq!(s.files[0].f_type, FileType::Image);
    assert_ne!(s.files[0].data, vec![1u8, 2, 3]);
    assert_eq!(s.files[0].data.len(), 16);
    type_text(&mut s, "song.mp3");
    let path = match s.handle(Data::Command(SignalType::Go)) {
        Action::OpenFile(p) => p,
        _ => panic!("expected a file to open"),
    };
    assert_eq!(path, "song.mp3");
    assert!(matches!(s.file_found(&[9; 20]), Action::Redraw));
    assert_eq!(s.files[1].f_type, FileType::Audio);
    assert_eq!(s.files[1].description, "song.mp3");
    assert_eq!(s.files[1].data.len(), 32);
    match s.handle(Data::Command(SignalType::Cancel)) {
        Action::Save(d) => {
            assert_eq!(d.content, "hello");
            assert_eq!(d.files.len(), 2);
            assert_eq!(d.files[0].description, "cat.png");
            assert_eq!(d.files[1].description, "song.mp3");
        }
        _ => panic!("expected a save"),
    }
    assert!(s.files.is_empty());
}

#[test]
fn missing_file_shows_alert_then_returns() {
    let mut s = Session::new(String::from("pw"));
    assert!(matches!(s.handle(Data::Command(SignalType::Go)), Action::Redraw));
    type_text(&mut s, "nofile");
    match s.handle(Data::Command(SignalType::Go)) {
        Action::OpenFile(p) => assert_eq!(p, "nofile"),
        _ => panic!("expected a file to open"),
    }
    assert!(matches!(s.file_missing(), Action::Redraw));
    assert_eq!(s.state, State::Popup);
    assert_eq!(s.buffer, "nofile: File not found!");
    assert!(matches!(s.handle(Data::Char('z')), Action::Ignore));
    assert!(matches!(s.handle(Data::Command(SignalType::Go)), Action::Ignore));
    assert!(matches!(s.handle(Data::Command(SignalType::BackSpace)), Action::Ignore));
    assert_eq!(s.buffer, "nofile: File not found!");
    assert!(matches!(s.handle(Data::Command(SignalType::Cancel)), Action::Redraw));
    assert_eq!(s.state, State::AddingFile);
    assert_eq!(s.buffer, "");
}

#[test]
fn file_reports_off_the_files_screen_are_ignored() {
    let mut s = Session::new(String::from("pw"));
    assert!(matches!(s.file_found(&[1]), Action::Ignore));
    assert!(matches!(s.file_missing(), Action::Ignore));
    assert!(s.files.is_empty());
    assert_eq!(s.state, State::AddingText);
}

#[test]
fn saved_session_renders_its_files() {
    let mut s = Session::new(String::from("pw"));
    type_text(&mut s, "hi");
    s.handle(Data::Command(SignalType::Go));
    type_text(&mut s, "notes.txt");
    s.handle(Data::Command(SignalType::Go));
    s.file_found(b"some notes");
    let d = match s.handle(Data::Command(SignalType::Cancel)) {
        Action::Save(d) => d,
        _ => panic!("expected a save"),
    };
    let e = diary::db_ops::seal_entry(2024, 5, 17, &d.content, d.files, "pw").unwrap();
    let page = gen_page("pw", "/tmp", &vec![e]).unwrap();
    assert_eq!(page.attachments.len(), 1);
    assert_eq!(page.attachments[0].len(), 1);
    assert_eq!(page.attachments[0][0].data, b"some notes".to_vec());
    assert!(page.html.contains(" 17/5/2024 "));
    assert!(page.html.contains("Download: notes.txt"));
}
