use imgvwr::config::{Config, FilterMethod as ConfigFilter, Keybindings, Logging, Viewer, Window};
use imgvwr::keybinds::{Action, Keysym, NO_SYMBOL};
use imgvwr::renderer::FilterMethod;
use imgvwr::settings::{
    binding_names, build_keybind_map, fallback_names, keybind_map_from_keysyms, lookup_keysyms,
    to_render_filter, AppSettings, BindingKeysyms, CliOverrides,
};

const LEFT: Keysym = Keysym(0xff51);
const RIGHT: Keysym = Keysym(0xff53);

/// The keysyms xkbcommon's `keysym_from_name` gives the names used here;
/// other names, such as `[`, are unknown to it.
fn xkb_names(name: &String) -> u32 {
    match name.as_str() {
        "q" => 0x71,
        "x" => 0x78,
        "bracketleft" => 0x5b,
        "bracketright" => 0x5d,
        "Delete" => 0xffff,
        "Escape" => 0xff1b,
        "Left" => 0xff51,
        "Right" => 0xff53,
        _ => NO_SYMBOL,
    }
}

fn fallback() -> BindingKeysyms {
    BindingKeysyms {
        quit: Keysym(0x71),
        rotate_left: Keysym(0x5b),
        rotate_right: Keysym(0x5d),
        delete: Keysym(0xffff),
    }
}

fn no_cli() -> CliOverrides {
    CliOverrides {
        decorations: None,
        antialiasing: None,
        min_scale: None,
        max_scale: None,
        scale_step: None,
        filter_method: None,
        log_level: None,
    }
}

fn empty() -> Config {
    Config {
        window: None,
        viewer: None,
        keybindings: None,
        logging: None,
    }
}

#[test]
fn to_render_filter_maps_every_variant() {
    assert_eq!(to_render_filter(&ConfigFilter::Nearest), FilterMethod::Nearest);
    assert_eq!(to_render_filter(&ConfigFilter::Triangle), FilterMethod::Triangle);
    assert_eq!(to_render_filter(&ConfigFilter::CatmullRom), FilterMethod::CatmullRom);
    assert_eq!(to_render_filter(&ConfigFilter::Gaussian), FilterMethod::Gaussian);
    assert_eq!(to_render_filter(&ConfigFilter::Lanczos3), FilterMethod::Lanczos3);
}

#[test]
fn cli_beats_config_beats_default() {
    let config = Config {
        window: Some(Window {
            decorations: Some(true),
            antialiasing: None,
        }),
        viewer: Some(Viewer {
            min_scale: Some(0.25f32.to_bits()),
            max_scale: None,
            scale_step: Some(0.2f32.to_bits()),
            filter_method: Some(ConfigFilter::Gaussian),
        }),
        keybindings: None,
        logging: Some(Logging {
            level: Some("info".to_string()),
        }),
    };
    let cli = CliOverrides {
        decorations: Some(false),
        scale_step: Some(0.5f32.to_bits()),
        log_level: Some("trace".to_string()),
        ..no_cli()
    };
    let s = AppSettings::resolve_keysyms(&cli, &config, &fallback(), &fallback(), LEFT, RIGHT).unwrap();
    assert!(!s.decorations);
    assert!(!s.antialiasing);
    assert_eq!(f32::from_bits(s.min_scale), 0.25);
    assert_eq!(f32::from_bits(s.max_scale), 100.0);
    assert_eq!(f32::from_bits(s.scale_step), 0.5);
    assert_eq!(s.filter, FilterMethod::Gaussian);
    assert_eq!(s.log_level, "trace");
    assert_eq!(s.key_left, LEFT);
    assert_eq!(s.key_right, RIGHT);
}

#[test]
fn empty_configuration_gives_defaults() {
    let s = AppSettings::resolve_keysyms(&no_cli(), &empty(), &fallback(), &fallback(), LEFT, RIGHT).unwrap();
    assert!(!s.decorations);
    assert!(!s.antialiasing);
    assert_eq!(f32::from_bits(s.min_scale), 0.1);
    assert_eq!(f32::from_bits(s.max_scale), 100.0);
    assert_eq!(f32::from_bits(s.scale_step), 0.08);
    assert_eq!(s.filter, FilterMethod::Nearest);
    assert_eq!(s.log_level, "warn");
    assert_eq!(s.keybind_map.lookup(Keysym(0x71)), Some(Action::Quit));
}

#[test]
fn unknown_key_name_falls_back() {
    let named = BindingKeysyms {
        quit: Keysym(0x78),
        rotate_left: Keysym(NO_SYMBOL),
        rotate_right: Keysym(NO_SYMBOL),
        delete: Keysym(0xffff),
    };
    let map = keybind_map_from_keysyms(&named, &fallback()).unwrap();
    assert_eq!(map.lookup(Keysym(0x78)), Some(Action::Quit));
    assert_eq!(map.lookup(Keysym(0x71)), None);
    assert_eq!(map.lookup(Keysym(0x5b)), Some(Action::RotateLeft));
    assert_eq!(map.lookup(Keysym(0x5d)), Some(Action::RotateRight));
}

#[test]
fn unresolvable_binding_or_arrow_gives_none() {
    let none = BindingKeysyms {
        quit: Keysym(NO_SYMBOL),
        ..fallback()
    };
    assert!(keybind_map_from_keysyms(&none, &none).is_none());
    assert!(AppSettings::resolve_keysyms(&no_cli(), &empty(), &none, &none, LEFT, RIGHT).is_none());
    assert!(AppSettings::resolve_keysyms(&no_cli(), &empty(), &fallback(), &fallback(), Keysym(NO_SYMBOL), RIGHT).is_none());
}

#[test]
fn binding_names_use_section_defaults_then_builtin_names() {
    let names = binding_names(&empty());
    assert_eq!(
        (names.quit.as_str(), names.rotate_left.as_str(), names.rotate_right.as_str(), names.delete.as_str()),
        ("q", "[", "]", "Delete")
    );
    let config = Config {
        keybindings: Some(Keybindings {
            quit: Some("Escape".to_string()),
            rotate_left: None,
            rotate_right: None,
            delete: None,
        }),
        ..empty()
    };
    let names = binding_names(&config);
    assert_eq!(names.quit, "Escape");
    assert_eq!(names.rotate_left, "bracketleft");
    assert_eq!(names.rotate_right, "bracketright");
    assert_eq!(names.delete, "Delete");
    let f = fallback_names();
    assert_eq!(
        (f.quit.as_str(), f.rotate_left.as_str(), f.rotate_right.as_str(), f.delete.as_str()),
        ("q", "bracketleft", "bracketright", "Delete")
    );
}

#[test]
fn default_bindings_resolve_through_key_names() {
    let s = AppSettings::resolve(&no_cli(), &Config::default(), &xkb_names).unwrap();
    assert_eq!(s.keybind_map.lookup(Keysym(0x71)), Some(Action::Quit));
    assert_eq!(s.keybind_map.lookup(Keysym(0x5b)), Some(Action::RotateLeft));
    assert_eq!(s.keybind_map.lookup(Keysym(0x5d)), Some(Action::RotateRight));
    assert_eq!(s.keybind_map.lookup(Keysym(0xffff)), Some(Action::DeleteFile));
    assert_eq!(s.key_left, LEFT);
    assert_eq!(s.key_right, RIGHT);
}

#[test]
fn configured_names_are_looked_up_with_fallbacks() {
    let config = Config {
        keybindings: Some(Keybindings {
            quit: Some("Escape".to_string()),
            rotate_left: Some("no_such_key".to_string()),
            rotate_right: None,
            delete: None,
        }),
        ..empty()
    };
    let map = build_keybind_map(&config, &xkb_names).unwrap();
    assert_eq!(map.lookup(Keysym(0xff1b)), Some(Action::Quit));
    assert_eq!(map.lookup(Keysym(0x71)), None);
    assert_eq!(map.lookup(Keysym(0x5b)), Some(Action::RotateLeft));
    assert_eq!(map.lookup(Keysym(0x5d)), Some(Action::RotateRight));
    let keys = lookup_keysyms(&binding_names(&config), &xkb_names);
    assert_eq!(keys.rotate_left, Keysym(NO_SYMBOL));
}

#[test]
fn unknown_arrow_keys_give_none() {
    let nothing = |_: &String| NO_SYMBOL;
    assert!(AppSettings::resolve(&no_cli(), &Config::default(), &nothing).is_none());
}

#[test]
fn key_names_with_nul_are_reported() {
    assert!(imgvwr::settings::check_key_names(&Config::default()));
    let config = Config {
        keybindings: Some(Keybindings {
            quit: Some("q\u{0}".to_string()),
            rotate_left: None,
            rotate_right: None,
            delete: None,
        }),
        ..empty()
    };
    assert!(!imgvwr::settings::check_key_names(&config));
}
