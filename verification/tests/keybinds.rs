use imgvwr::keybinds::{
    keysym_from_lookup, keysym_from_str, resolve_keysym, Action, KeybindMap, Keysym, NO_SYMBOL,
};

// Raw XKB keysyms of the names the bindings use, as xkbcommon's
// `keysym_from_name` gives them.
const Q: u32 = 0x71;
const BRACKETLEFT: u32 = 0x5b;
const BRACKETRIGHT: u32 = 0x5d;
const DELETE: u32 = 0xffff;
const Z: u32 = 0x7a;

/// The lookup the library resolves key names with: these names' keysyms,
/// and `NO_SYMBOL` for names xkbcommon does not know.
fn xkb_names(name: &String) -> u32 {
    match name.as_str() {
        "q" => Q,
        "bracketleft" => BRACKETLEFT,
        "bracketright" => BRACKETRIGHT,
        "Delete" => DELETE,
        "z" => Z,
        _ => NO_SYMBOL,
    }
}

fn by_name(name: &str) -> Result<Keysym, imgvwr::keybinds::KeybindError> {
    keysym_from_str(&name.to_string(), &xkb_names)
}

#[test]
fn keysym_from_str_known_key() {
    let sym = by_name("q").unwrap();
    assert_ne!(sym.0, NO_SYMBOL);
}

#[test]
fn keysym_from_str_bracket_keys() {
    by_name("bracketleft").unwrap();
    by_name("bracketright").unwrap();
}

#[test]
fn keysym_from_str_unknown_errors() {
    let err = by_name("invalid_xyz_key").unwrap_err();
    assert_eq!(err.name(), "invalid_xyz_key");
    assert_eq!(err.message(), "unknown key name: \"invalid_xyz_key\"");
}

#[test]
fn error_message_escapes_the_name() {
    let err = keysym_from_lookup("a\"b", NO_SYMBOL).unwrap_err();
    assert_eq!(err.message(), "unknown key name: \"a\\\"b\"");
}

#[test]
fn keybind_map_lookup_round_trip() {
    let quit = by_name("q").unwrap();
    let rl = by_name("bracketleft").unwrap();
    let rr = by_name("bracketright").unwrap();
    let del = by_name("Delete").unwrap();
    let map = KeybindMap::new(quit, rl, rr, del);

    assert_eq!(map.lookup(quit), Some(Action::Quit));
    assert_eq!(map.lookup(rl), Some(Action::RotateLeft));
    assert_eq!(map.lookup(rr), Some(Action::RotateRight));
    assert_eq!(map.lookup(del), Some(Action::DeleteFile));
}

#[test]
fn keybind_map_unknown_sym_returns_none() {
    let map = KeybindMap::new(Keysym(Q), Keysym(BRACKETLEFT), Keysym(BRACKETRIGHT), Keysym(DELETE));
    let unbound = by_name("z").unwrap();
    assert_eq!(map.lookup(unbound), None);
}

#[test]
fn keybind_map_later_binding_replaces_earlier() {
    let map = KeybindMap::new(Keysym(Q), Keysym(BRACKETLEFT), Keysym(BRACKETRIGHT), Keysym(Q));
    assert_eq!(map.lookup(Keysym(Q)), Some(Action::DeleteFile));
    assert_eq!(map.lookup(Keysym(BRACKETLEFT)), Some(Action::RotateLeft));
}

#[test]
fn resolve_keysym_falls_back() {
    assert_eq!(resolve_keysym(Keysym(Q), Keysym(Z)), Some(Keysym(Q)));
    assert_eq!(resolve_keysym(Keysym(NO_SYMBOL), Keysym(Z)), Some(Keysym(Z)));
    assert_eq!(resolve_keysym(Keysym(NO_SYMBOL), Keysym(NO_SYMBOL)), None);
}

#[test]
fn key_events_report_pressed_symbols_only() {
    assert_eq!(imgvwr::keybinds::xkb_keycode(16), 24);
    assert_eq!(imgvwr::keybinds::pressed_keysym(true, Q), Some(Keysym(Q)));
    assert_eq!(imgvwr::keybinds::pressed_keysym(false, Q), None);
    assert_eq!(imgvwr::keybinds::pressed_keysym(true, NO_SYMBOL), None);
}
