use rtop::input::{translate_key, Key, RawCode, RawKey};

fn make_key(code: RawCode, ctrl: bool) -> RawKey {
    RawKey { code, ctrl, press: true }
}

#[test]
fn translate_escape_key() {
    assert_eq!(translate_key(make_key(RawCode::Esc, false)), Some(Key::Escape));
}

#[test]
fn translate_arrow_keys() {
    assert_eq!(translate_key(make_key(RawCode::Up, false)), Some(Key::Up));
    assert_eq!(translate_key(make_key(RawCode::Down, false)), Some(Key::Down));
    assert_eq!(translate_key(make_key(RawCode::Left, false)), Some(Key::Left));
    assert_eq!(translate_key(make_key(RawCode::Right, false)), Some(Key::Right));
}

#[test]
fn translate_function_keys() {
    assert_eq!(translate_key(make_key(RawCode::F(1), false)), Some(Key::F(1)));
    assert_eq!(translate_key(make_key(RawCode::F(12), false)), Some(Key::F(12)));
}

#[test]
fn translate_ctrl_r() {
    assert_eq!(translate_key(make_key(RawCode::Char('r'), true)), Some(Key::CtrlR));
}

#[test]
fn translate_ctrl_c_maps_to_quit() {
    assert_eq!(translate_key(make_key(RawCode::Char('c'), true)), Some(Key::Char('q')));
}

#[test]
fn translate_regular_char() {
    assert_eq!(translate_key(make_key(RawCode::Char('q'), false)), Some(Key::Char('q')));
    assert_eq!(translate_key(make_key(RawCode::Char('1'), false)), Some(Key::Char('1')));
}

#[test]
fn translate_backspace() {
    assert_eq!(translate_key(make_key(RawCode::Backspace, false)), Some(Key::Backspace));
}

#[test]
fn translate_ignores_releases_and_unknown_codes() {
    assert_eq!(translate_key(RawKey { code: RawCode::Esc, ctrl: false, press: false }), None);
    assert_eq!(translate_key(make_key(RawCode::Other, false)), None);
    assert_eq!(translate_key(make_key(RawCode::Char(' '), false)), Some(Key::Space));
    assert_eq!(translate_key(make_key(RawCode::BackTab, false)), Some(Key::ShiftTab));
}
