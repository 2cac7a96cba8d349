use imgvwr::config::{
    Config, FilterMethod, Keybindings, Logging, Viewer, Window, DEFAULT_MAX_SCALE_BITS,
    DEFAULT_MIN_SCALE_BITS, DEFAULT_SCALE_STEP_BITS,
};

fn scale(bits: Option<u32>) -> f32 {
    f32::from_bits(bits.unwrap())
}

#[test]
fn default_has_all_fields_set() {
    let cfg = Config::default();
    let w = cfg.window.unwrap();
    assert_eq!(w.decorations, Some(false));
    assert_eq!(w.antialiasing, Some(false));
    let v = cfg.viewer.unwrap();
    assert!((scale(v.min_scale) - 0.1).abs() < f32::EPSILON);
    assert!((scale(v.max_scale) - 100.0).abs() < f32::EPSILON);
    assert!((scale(v.scale_step) - 0.08).abs() < f32::EPSILON);
    assert_eq!(v.filter_method.unwrap(), FilterMethod::Nearest);
    let k = cfg.keybindings.unwrap();
    assert_eq!(k.quit.unwrap(), "q");
    assert_eq!(k.rotate_left.unwrap(), "[");
    assert_eq!(k.rotate_right.unwrap(), "]");
    assert!(cfg.logging.is_none());
}

#[test]
fn default_scale_bits_are_the_f32_values() {
    assert_eq!(DEFAULT_MIN_SCALE_BITS, 0.1f32.to_bits());
    assert_eq!(DEFAULT_MAX_SCALE_BITS, 100.0f32.to_bits());
    assert_eq!(DEFAULT_SCALE_STEP_BITS, 0.08f32.to_bits());
}

#[test]
fn merge_overlay_wins_on_conflict() {
    let base = Config {
        window: Some(Window {
            decorations: Some(false),
            antialiasing: Some(true),
        }),
        viewer: None,
        keybindings: None,
        logging: None,
    };
    let overlay = Config {
        window: Some(Window {
            decorations: Some(true),
            antialiasing: None,
        }),
        viewer: None,
        keybindings: None,
        logging: None,
    };
    let merged = Config::merge(base, overlay);
    let w = merged.window.unwrap();
    assert_eq!(w.decorations, Some(true));
    assert_eq!(w.antialiasing, Some(true));
}

#[test]
fn merge_overlay_none_section_keeps_base() {
    let base = Config::default();
    let overlay = Config {
        window: None,
        viewer: None,
        keybindings: None,
        logging: None,
    };
    let merged = Config::merge(base.clone(), overlay);
    assert!(merged.window.is_some());
    assert!(merged.viewer.is_some());
    assert!(merged.keybindings.is_some());
}

fn empty() -> Config {
    Config {
        window: None,
        viewer: None,
        keybindings: None,
        logging: None,
    }
}

#[test]
fn merge_section_present_only_in_overlay_is_taken() {
    let overlay = Config {
        logging: Some(Logging {
            level: Some("debug".to_string()),
        }),
        ..empty()
    };
    let merged = Config::merge(Config::default(), overlay);
    assert_eq!(merged.logging.unwrap().level.as_deref(), Some("debug"));
}

#[test]
fn merge_keybindings_key_by_key() {
    let base = Config {
        keybindings: Some(Keybindings::default()),
        ..empty()
    };
    let overlay = Config {
        keybindings: Some(Keybindings {
            quit: Some("x".to_string()),
            rotate_left: None,
            rotate_right: None,
            delete: None,
        }),
        ..empty()
    };
    let k = Config::merge(base, overlay).keybindings.unwrap();
    assert_eq!(k.quit.as_deref(), Some("x"));
    assert_eq!(k.rotate_left.as_deref(), Some("["));
    assert_eq!(k.delete.as_deref(), Some("Delete"));
}

#[test]
fn merge_is_associative_on_example() {
    let a = Config::default();
    let b = Config {
        viewer: Some(Viewer {
            min_scale: Some(0.5f32.to_bits()),
            max_scale: None,
            scale_step: None,
            filter_method: Some(FilterMethod::Gaussian),
        }),
        ..empty()
    };
    let c = Config {
        viewer: Some(Viewer {
            min_scale: None,
            max_scale: Some(8.0f32.to_bits()),
            scale_step: None,
            filter_method: Some(FilterMethod::Lanczos3),
        }),
        window: Some(Window {
            decorations: Some(true),
            antialiasing: None,
        }),
        ..empty()
    };
    let left = Config::merge(Config::merge(a.clone(), b.clone()), c.clone());
    let right = Config::merge(a, Config::merge(b, c));
    let (lv, rv) = (left.viewer.unwrap(), right.viewer.unwrap());
    assert_eq!(lv.min_scale, rv.min_scale);
    assert_eq!(lv.max_scale, rv.max_scale);
    assert_eq!(lv.scale_step, rv.scale_step);
    assert_eq!(lv.filter_method, rv.filter_method);
    assert_eq!(lv.min_scale, Some(0.5f32.to_bits()));
    assert_eq!(lv.max_scale, Some(8.0f32.to_bits()));
    assert_eq!(lv.scale_step, Some(DEFAULT_SCALE_STEP_BITS));
    assert_eq!(lv.filter_method, Some(FilterMethod::Lanczos3));
    assert_eq!(left.window.unwrap().decorations, Some(true));
}

#[test]
fn merge_with_empty_layer_is_identity() {
    let merged = Config::merge(Config::default(), empty());
    let v = merged.viewer.unwrap();
    assert_eq!(v.min_scale, Some(DEFAULT_MIN_SCALE_BITS));
    assert_eq!(v.max_scale, Some(DEFAULT_MAX_SCALE_BITS));
    let merged = Config::merge(empty(), Config::default());
    assert_eq!(merged.window.unwrap().decorations, Some(false));
    assert!(merged.logging.is_none());
}

#[test]
fn merge_layers_later_layer_wins_and_absent_layers_are_skipped() {
    let system = Config {
        window: Some(Window {
            decorations: Some(true),
            antialiasing: Some(true),
        }),
        ..empty()
    };
    let user = Config {
        window: Some(Window {
            decorations: Some(false),
            antialiasing: None,
        }),
        ..empty()
    };
    let merged = Config::merge_layers(Config::default(), vec![Some(system), None, Some(user)]);
    let w = merged.window.unwrap();
    assert_eq!(w.decorations, Some(false));
    assert_eq!(w.antialiasing, Some(true));
    assert!(merged.viewer.is_some());
}

#[test]
fn get_system_path_is_correct() {
    assert_eq!(
        std::path::PathBuf::from(Config::get_system_path()),
        std::path::PathBuf::from("/etc/imgvwr/config.toml")
    );
}

#[test]
fn get_xdg_path_uses_xdg_config_home() {
    let path = Config::get_xdg_path(Some("/tmp/xdg")).unwrap();
    assert_eq!(
        std::path::PathBuf::from(path),
        std::path::PathBuf::from("/tmp/xdg/imgvwr/config.toml")
    );
}

#[test]
fn get_home_path_uses_home() {
    let path = Config::get_home_path(Some("/tmp/home")).unwrap();
    assert_eq!(
        std::path::PathBuf::from(path),
        std::path::PathBuf::from("/tmp/home/.config/imgvwr/config.toml")
    );
}

#[test]
fn unset_variables_give_no_user_path() {
    assert!(Config::get_xdg_path(None).is_none());
    assert!(Config::get_home_path(None).is_none());
    assert!(Config::user_config_path(None, None).is_none());
}

#[test]
fn xdg_config_home_wins_over_home() {
    assert_eq!(
        Config::user_config_path(Some("/tmp/xdg"), Some("/tmp/home")).as_deref(),
        Some("/tmp/xdg/imgvwr/config.toml")
    );
    assert_eq!(
        Config::user_config_path(None, Some("/tmp/home")).as_deref(),
        Some("/tmp/home/.config/imgvwr/config.toml")
    );
}

#[test]
fn sources_are_laid_over_defaults_in_order() {
    let with_decorations = |d: bool| Config {
        window: Some(Window {
            decorations: Some(d),
            antialiasing: None,
        }),
        ..empty()
    };
    let c = Config::from_sources(None, None, None);
    assert_eq!(c.window.unwrap().decorations, Some(false));
    let c = Config::from_sources(Some(with_decorations(true)), None, None);
    assert_eq!(c.window.as_ref().unwrap().decorations, Some(true));
    assert_eq!(c.window.unwrap().antialiasing, Some(false));
    let c = Config::from_sources(Some(with_decorations(true)), Some(with_decorations(false)), None);
    assert_eq!(c.window.unwrap().decorations, Some(false));
    let c = Config::from_sources(None, Some(with_decorations(false)), Some(with_decorations(true)));
    assert_eq!(c.window.unwrap().decorations, Some(true));
}

#[test]
fn path_join_follows_std() {
    for (base, part) in [("/a", "b"), ("/a/", "b"), ("", "b"), ("/a", "/b"), ("a", ""), (".", "x.png")] {
        assert_eq!(
            imgvwr::paths::path_join(base, part),
            std::path::Path::new(base).join(part).to_str().unwrap(),
            "joining {part:?} onto {base:?}"
        );
    }
}
