use diary::input::{decode_key, Key};
use diary::{Data, SignalType, State};

#[test]
fn text_screen_keys() {
    assert_eq!(decode_key(State::AddingText, Key::Char('a')), (State::AddingText, Some(Data::Char('a'))));
    assert_eq!(decode_key(State::AddingText, Key::Char('\n')), (State::AddingText, Some(Data::Char('\n'))));
    assert_eq!(
        decode_key(State::AddingText, Key::Backspace),
        (State::AddingText, Some(Data::Command(SignalType::BackSpace)))
    );
    assert_eq!(decode_key(State::AddingText, Key::Other), (State::AddingText, None));
    assert_eq!(decode_key(State::AddingText, Key::Ctrl('x')), (State::AddingText, None));
    assert_eq!(decode_key(State::AddingText, Key::Alt('x')), (State::AddingText, None));
}

#[test]
fn alt_n_leaves_text_screen() {
    assert_eq!(
        decode_key(State::AddingText, Key::Alt('n')),
        (State::AddingFile, Some(Data::Command(SignalType::Go)))
    );
}

#[test]
fn files_screen_keys() {
    assert_eq!(
        decode_key(State::AddingFile, Key::Char('\n')),
        (State::AddingFile, Some(Data::Command(SignalType::Go)))
    );
    assert_eq!(
        decode_key(State::AddingFile, Key::Alt('n')),
        (State::AddingFile, Some(Data::Command(SignalType::Go)))
    );
    assert_eq!(decode_key(State::AddingFile, Key::Char('/')), (State::AddingFile, Some(Data::Char('/'))));
    assert_eq!(
        decode_key(State::AddingFile, Key::Backspace),
        (State::AddingFile, Some(Data::Command(SignalType::BackSpace)))
    );
    assert_eq!(decode_key(State::AddingFile, Key::Other), (State::AddingFile, None));
}

#[test]
fn ctrl_c_and_esc_on_every_screen() {
    for mode in [State::AddingText, State::AddingFile, State::Popup] {
        assert_eq!(decode_key(mode, Key::Ctrl('c')), (mode, Some(Data::Command(SignalType::Close))));
        assert_eq!(decode_key(mode, Key::Esc), (mode, Some(Data::Command(SignalType::Cancel))));
    }
}
