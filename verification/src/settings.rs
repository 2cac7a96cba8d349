//! Runtime settings: command-line overrides laid over the configuration,
//! then built-in defaults.

use crate::config::{
    Config, FilterMethod as ConfigFilter, Keybindings, Logging, Viewer, Window,
    DEFAULT_MAX_SCALE_BITS, DEFAULT_MIN_SCALE_BITS, DEFAULT_SCALE_STEP_BITS,
};
use crate::keybinds::{bindings_map, KeybindMap, Keysym, NO_SYMBOL};
use crate::renderer::FilterMethod;
use crate::text::has_nul;
use vstd::prelude::*;

verus! {

/// The options given on the command line that override the configuration;
/// scale values are `f32` bit patterns.
pub struct CliOverrides {
    pub decorations: Option<bool>,
    pub antialiasing: Option<bool>,
    pub min_scale: Option<u32>,
    pub max_scale: Option<u32>,
    pub scale_step: Option<u32>,
    pub filter_method: Option<ConfigFilter>,
    pub log_level: Option<String>,
}

/// One keysym per bindable action.
#[derive(Clone, Copy, Debug, PartialEq, Eq, Structural)]
pub struct BindingKeysyms {
    pub quit: Keysym,
    pub rotate_left: Keysym,
    pub rotate_right: Keysym,
    pub delete: Keysym,
}

/// One key name per bindable action.
#[derive(Clone, Debug)]
pub struct BindingNames {
    pub quit: String,
    pub rotate_left: String,
    pub rotate_right: String,
    pub delete: String,
}

/// Runtime settings derived from the command line and the configuration.
pub struct AppSettings {
    pub decorations: bool,
    pub antialiasing: bool,
    /// Bit pattern of the minimum zoom factor.
    pub min_scale: u32,
    /// Bit pattern of the maximum zoom factor.
    pub max_scale: u32,
    /// Bit pattern of the zoom step per scroll notch.
    pub scale_step: u32,
    pub filter: FilterMethod,
    pub keybind_map: KeybindMap,
    /// Keysym of the key that shows the previous image.
    pub key_left: Keysym,
    /// Keysym of the key that shows the next image.
    pub key_right: Keysym,
    pub log_level: String,
}

/// The renderer's filter of the same name.
pub open spec fn render_filter_of(f: ConfigFilter) -> FilterMethod {
    match f {
        ConfigFilter::Nearest => FilterMethod::Nearest,
        ConfigFilter::Triangle => FilterMethod::Triangle,
        ConfigFilter::CatmullRom => FilterMethod::CatmullRom,
        ConfigFilter::Gaussian => FilterMethod::Gaussian,
        ConfigFilter::Lanczos3 => FilterMethod::Lanczos3,
    }
}

/// Map a configured filter to the renderer's filter of the same name.
pub fn to_render_filter(f: &ConfigFilter) -> (r: FilterMethod)
    ensures
        r == render_filter_of(*f),
{
    match f {
        ConfigFilter::Nearest => FilterMethod::Nearest,
        ConfigFilter::Triangle => FilterMethod::Triangle,
        ConfigFilter::CatmullRom => FilterMethod::CatmullRom,
        ConfigFilter::Gaussian => FilterMethod::Gaussian,
        ConfigFilter::Lanczos3 => FilterMethod::Lanczos3,
    }
}

/// The first value present among `first`, `second`, else `default`.
pub open spec fn first_of<T>(first: Option<T>, second: Option<T>, default: T) -> T {
    match first {
        Some(v) => v,
        None => match second {
            Some(v) => v,
            None => default,
        },
    }
}

/// The keysym a binding uses: the configured name's, or the fallback's
/// when the configured name is unknown.
pub open spec fn chosen_keysym(named: Keysym, fallback: Keysym) -> Keysym {
    if named.0 != NO_SYMBOL {
        named
    } else {
        fallback
    }
}

/// A binding resolves when its configured name or its fallback is known.
pub open spec fn resolves(named: Keysym, fallback: Keysym) -> bool {
    named.0 != NO_SYMBOL || fallback.0 != NO_SYMBOL
}

/// All four bindings resolve.
pub open spec fn all_resolve(named: BindingKeysyms, fallback: BindingKeysyms) -> bool {
    &&& resolves(named.quit, fallback.quit)
    &&& resolves(named.rotate_left, fallback.rotate_left)
    &&& resolves(named.rotate_right, fallback.rotate_right)
    &&& resolves(named.delete, fallback.delete)
}

/// The bindings the map holds once every binding resolves.
pub open spec fn chosen_bindings(named: BindingKeysyms, fallback: BindingKeysyms) -> Map<u32, crate::keybinds::Action> {
    bindings_map(
        chosen_keysym(named.quit, fallback.quit),
        chosen_keysym(named.rotate_left, fallback.rotate_left),
        chosen_keysym(named.rotate_right, fallback.rotate_right),
        chosen_keysym(named.delete, fallback.delete),
    )
}

fn name_or(name: &Option<String>, default: &str) -> (r: String)
    ensures
        r@ == (match name {
            Some(n) => n@,
            None => default@,
        }),
{
    match name {
        Some(n) => n.clone(),
        None => default.to_owned(),
    }
}

/// `names` are the key names the bindings of `config` are resolved from.
pub open spec fn configured_names(names: BindingNames, config: Config) -> bool {
    match config.keybindings {
        Some(k) => {
            &&& names.quit@ == (match k.quit { Some(n) => n@, None => "q"@ })
            &&& names.rotate_left@ == (match k.rotate_left { Some(n) => n@, None => "bracketleft"@ })
            &&& names.rotate_right@ == (match k.rotate_right { Some(n) => n@, None => "bracketright"@ })
            &&& names.delete@ == (match k.delete { Some(n) => n@, None => "Delete"@ })
        },
        None => {
            &&& names.quit@ == "q"@
            &&& names.rotate_left@ == "["@
            &&& names.rotate_right@ == "]"@
            &&& names.delete@ == "Delete"@
        },
    }
}

/// `names` are the built-in fallback names.
pub open spec fn builtin_fallback_names(names: BindingNames) -> bool {
    &&& names.quit@ == "q"@
    &&& names.rotate_left@ == "bracketleft"@
    &&& names.rotate_right@ == "bracketright"@
    &&& names.delete@ == "Delete"@
}

/// None of the four names holds NUL.
pub open spec fn names_free_of_nul(names: BindingNames) -> bool {
    &&& !names.quit@.contains('\0')
    &&& !names.rotate_left@.contains('\0')
    &&& !names.rotate_right@.contains('\0')
    &&& !names.delete@.contains('\0')
}

/// A key name given in the configuration, if any, holds no NUL.
pub open spec fn configured_name_ok(name: Option<String>) -> bool {
    match name {
        Some(n) => !n@.contains('\0'),
        None => true,
    }
}

/// No key name that `config` gives holds NUL (a TOML string can).
pub open spec fn key_names_ok(config: Config) -> bool {
    match config.keybindings {
        Some(k) => {
            &&& configured_name_ok(k.quit)
            &&& configured_name_ok(k.rotate_left)
            &&& configured_name_ok(k.rotate_right)
            &&& configured_name_ok(k.delete)
        },
        None => true,
    }
}

fn name_ok(name: &Option<String>) -> (r: bool)
    ensures
        r == configured_name_ok(*name),
{
    match name {
        Some(n) => !has_nul(n.as_str()),
        None => true,
    }
}

/// Whether no key name that `config` gives holds NUL; key names are
/// looked up only for such a configuration.
pub fn check_key_names(config: &Config) -> (r: bool)
    ensures
        r == key_names_ok(*config),
{
    match &config.keybindings {
        Some(k) => name_ok(&k.quit) && name_ok(&k.rotate_left) && name_ok(&k.rotate_right) && name_ok(&k.delete),
        None => true,
    }
}

/// The built-in key names hold no NUL.
proof fn lemma_builtin_names_free_of_nul()
    ensures
        !"q"@.contains('\0'),
        !"["@.contains('\0'),
        !"]"@.contains('\0'),
        !"Delete"@.contains('\0'),
        !"bracketleft"@.contains('\0'),
        !"bracketright"@.contains('\0'),
        !"Left"@.contains('\0'),
        !"Right"@.contains('\0'),
{
    reveal_strlit("q");
    reveal_strlit("[");
    reveal_strlit("]");
    reveal_strlit("Delete");
    reveal_strlit("bracketleft");
    reveal_strlit("bracketright");
    reveal_strlit("Left");
    reveal_strlit("Right");
}

/// `lookup` can give the keysyms `syms` for the four names `names`.
pub open spec fn looked_up<F: Fn(&String) -> u32>(lookup: F, names: BindingNames, syms: BindingKeysyms) -> bool {
    &&& lookup.ensures((&names.quit,), syms.quit.0)
    &&& lookup.ensures((&names.rotate_left,), syms.rotate_left.0)
    &&& lookup.ensures((&names.rotate_right,), syms.rotate_right.0)
    &&& lookup.ensures((&names.delete,), syms.delete.0)
}

/// Look up the keysyms of the four names with `lookup` (the program
/// passes xkbcommon's `keysym_from_name`).
pub fn lookup_keysyms<F: Fn(&String) -> u32>(names: &BindingNames, lookup: &F) -> (r: BindingKeysyms)
    requires
        names_free_of_nul(*names),
        forall|n: &String| !n@.contains('\0') ==> #[trigger] lookup.requires((n,)),
    ensures
        looked_up(*lookup, *names, r),
{
    BindingKeysyms {
        quit: Keysym(lookup(&names.quit)),
        rotate_left: Keysym(lookup(&names.rotate_left)),
        rotate_right: Keysym(lookup(&names.rotate_right)),
        delete: Keysym(lookup(&names.delete)),
    }
}

/// The key names that the bindings are resolved from: each configured
/// name, or the built-in one for a key the configuration leaves out. A
/// configuration without a `[keybindings]` section uses the section's
/// defaults.
pub fn binding_names(config: &Config) -> (r: BindingNames)
    ensures
        configured_names(r, *config),
{
    let k = match &config.keybindings {
        Some(k) => Keybindings {
            quit: k.quit.clone(),
            rotate_left: k.rotate_left.clone(),
            rotate_right: k.rotate_right.clone(),
            delete: k.delete.clone(),
        },
        None => Keybindings::default(),
    };
    BindingNames {
        quit: name_or(&k.quit, "q"),
        rotate_left: name_or(&k.rotate_left, "bracketleft"),
        rotate_right: name_or(&k.rotate_right, "bracketright"),
        delete: name_or(&k.delete, "Delete"),
    }
}

/// The built-in names each binding falls back to when its configured name
/// is unknown.
pub fn fallback_names() -> (r: BindingNames)
    ensures
        builtin_fallback_names(r),
{
    BindingNames {
        quit: "q".to_owned(),
        rotate_left: "bracketleft".to_owned(),
        rotate_right: "bracketright".to_owned(),
        delete: "Delete".to_owned(),
    }
}

/// Bind each action to the keysym of its configured name, or of its
/// fallback name when the configured one is unknown; `None` when some
/// binding resolves to neither.
pub fn keybind_map_from_keysyms(named: &BindingKeysyms, fallback: &BindingKeysyms) -> (r: Option<KeybindMap>)
    ensures
        r is Some <==> all_resolve(*named, *fallback),
        r matches Some(m) ==> m@ == chosen_bindings(*named, *fallback),
{
    let quit = crate::keybinds::resolve_keysym(named.quit, fallback.quit);
    let rotate_left = crate::keybinds::resolve_keysym(named.rotate_left, fallback.rotate_left);
    let rotate_right = crate::keybinds::resolve_keysym(named.rotate_right, fallback.rotate_right);
    let delete = crate::keybinds::resolve_keysym(named.delete, fallback.delete);
    match (quit, rotate_left, rotate_right, delete) {
        (Some(q), Some(l), Some(r), Some(d)) => Some(KeybindMap::new(q, l, r, d)),
        _ => None,
    }
}

/// `s` holds every setting from the command line if given there, else
/// from the configuration, else its built-in default; the bindings and the
/// arrow keys from the given keysyms.
pub open spec fn settings_from(
    s: AppSettings,
    cli: CliOverrides,
    config: Config,
    named: BindingKeysyms,
    fallback: BindingKeysyms,
    left: Keysym,
    right: Keysym,
) -> bool {
        let w = match config.window {
            Some(w) => w,
            None => Window { decorations: Some(false), antialiasing: Some(false) },
        };
        let v = match config.viewer {
            Some(v) => v,
            None => Viewer {
                min_scale: Some(DEFAULT_MIN_SCALE_BITS),
                max_scale: Some(DEFAULT_MAX_SCALE_BITS),
                scale_step: Some(DEFAULT_SCALE_STEP_BITS),
                filter_method: Some(ConfigFilter::Nearest),
            },
        };
        let level = match config.logging {
            Some(l) => l.level,
            None => None,
        };
        &&& s.decorations == first_of(cli.decorations, w.decorations, false)
        &&& s.antialiasing == first_of(cli.antialiasing, w.antialiasing, false)
        &&& s.min_scale == first_of(cli.min_scale, v.min_scale, DEFAULT_MIN_SCALE_BITS)
        &&& s.max_scale == first_of(cli.max_scale, v.max_scale, DEFAULT_MAX_SCALE_BITS)
        &&& s.scale_step == first_of(cli.scale_step, v.scale_step, DEFAULT_SCALE_STEP_BITS)
        &&& s.filter == render_filter_of(
            first_of(cli.filter_method, v.filter_method, ConfigFilter::Nearest),
        )
        &&& s.keybind_map@ == chosen_bindings(named, fallback)
        &&& s.key_left == left
        &&& s.key_right == right
        &&& s.log_level@ == (match cli.log_level {
            Some(l) => l@,
            None => match level {
                Some(l) => l@,
                None => "warn"@,
            },
        })
}

/// All bindings and both arrow keys have a keysym.
pub open spec fn keysyms_resolve(named: BindingKeysyms, fallback: BindingKeysyms, left: Keysym, right: Keysym) -> bool {
    all_resolve(named, fallback) && left.0 != NO_SYMBOL && right.0 != NO_SYMBOL
}

impl AppSettings {
    /// Every setting from the command line if given there, else from the
    /// configuration, else its built-in default, with the bindings and the
    /// arrow keys given as keysyms: `named` for the configured names,
    /// `fallback` for the fallback names, `left` and `right` for the arrow
    /// keys. `None` when a binding or an arrow key has no keysym.
    pub fn resolve_keysyms(
        cli: &CliOverrides,
        config: &Config,
        named: &BindingKeysyms,
        fallback: &BindingKeysyms,
        left: Keysym,
        right: Keysym,
    ) -> (r: Option<AppSettings>)
        ensures
            r is Some <==> keysyms_resolve(*named, *fallback, left, right),
            r matches Some(s) ==> settings_from(s, *cli, *config, *named, *fallback, left, right),
    {
        if left.0 == NO_SYMBOL || right.0 == NO_SYMBOL {
            return None;
        }
        let keybind_map = match keybind_map_from_keysyms(named, fallback) {
            Some(m) => m,
            None => return None,
        };
        let w = match &config.window {
            Some(w) => Window { decorations: w.decorations, antialiasing: w.antialiasing },
            None => Window::default(),
        };
        let v = match &config.viewer {
            Some(v) => Viewer {
                min_scale: v.min_scale,
                max_scale: v.max_scale,
                scale_step: v.scale_step,
                filter_method: v.filter_method,
            },
            None => Viewer::default(),
        };
        let level: Option<String> = match &config.logging {
            Some(l) => match &l.level {
                Some(x) => Some(x.clone()),
                None => None,
            },
            None => Logging::default().level,
        };
        let filter = match cli.filter_method {
            Some(f) => f,
            None => match v.filter_method {
                Some(f) => f,
                None => ConfigFilter::Nearest,
            },
        };
        let log_level = match &cli.log_level {
            Some(l) => l.clone(),
            None => match level {
                Some(l) => l,
                None => "warn".to_owned(),
            },
        };
        Some(
            AppSettings {
                decorations: pick(cli.decorations, w.decorations, false),
                antialiasing: pick(cli.antialiasing, w.antialiasing, false),
                min_scale: pick(cli.min_scale, v.min_scale, DEFAULT_MIN_SCALE_BITS),
                max_scale: pick(cli.max_scale, v.max_scale, DEFAULT_MAX_SCALE_BITS),
                scale_step: pick(cli.scale_step, v.scale_step, DEFAULT_SCALE_STEP_BITS),
                filter: to_render_filter(&filter),
                keybind_map,
                key_left: left,
                key_right: right,
                log_level,
            },
        )
    }
}

fn pick<T: Copy>(first: Option<T>, second: Option<T>, default: T) -> (r: T)
    ensures
        r == first_of(first, second, default),
{
    match first {
        Some(v) => v,
        None => match second {
            Some(v) => v,
            None => default,
        },
    }
}


impl AppSettings {
    /// Every setting from the command line if given there, else from the
    /// configuration, else its built-in default. The key names of the
    /// bindings (`binding_names(config)`), their fallbacks
    /// (`fallback_names()`) and the arrow keys `Left` and `Right` are looked
    /// up with `lookup` (the program passes xkbcommon's
    /// `keysym_from_name`). `None` when a binding or an arrow key has no
    /// keysym.
    pub fn resolve<F: Fn(&String) -> u32>(cli: &CliOverrides, config: &Config, lookup: &F) -> (r: Option<AppSettings>)
        requires
            key_names_ok(*config),
            forall|n: &String| !n@.contains('\0') ==> #[trigger] lookup.requires((n,)),
        ensures
            exists|
                names: BindingNames,
                fallback_names: BindingNames,
                named: BindingKeysyms,
                fallback: BindingKeysyms,
                left_name: String,
                right_name: String,
                left: Keysym,
                right: Keysym,
            |
                #![trigger looked_up(*lookup, names, named), looked_up(*lookup, fallback_names, fallback), lookup.ensures((&left_name,), left.0), lookup.ensures((&right_name,), right.0)]
                {
                    &&& configured_names(names, *config)
                    &&& builtin_fallback_names(fallback_names)
                    &&& looked_up(*lookup, names, named)
                    &&& looked_up(*lookup, fallback_names, fallback)
                    &&& left_name@ == "Left"@
                    &&& right_name@ == "Right"@
                    &&& lookup.ensures((&left_name,), left.0)
                    &&& lookup.ensures((&right_name,), right.0)
                    &&& (r is Some <==> keysyms_resolve(named, fallback, left, right))
                    &&& (r matches Some(s) ==> settings_from(s, *cli, *config, named, fallback, left, right))
                },
    {
        let names = binding_names(config);
        let fallback_names = fallback_names();
        proof {
            lemma_builtin_names_free_of_nul();
        }
        let named = lookup_keysyms(&names, lookup);
        let fallback = lookup_keysyms(&fallback_names, lookup);
        let left_name = "Left".to_owned();
        let right_name = "Right".to_owned();
        assert(lookup.requires((&left_name,)));
        assert(lookup.requires((&right_name,)));
        let left = Keysym(lookup(&left_name));
        let right = Keysym(lookup(&right_name));
        let r = AppSettings::resolve_keysyms(cli, config, &named, &fallback, left, right);
        assert(looked_up(*lookup, names, named) && looked_up(*lookup, fallback_names, fallback)
            && lookup.ensures((&left_name,), left.0) && lookup.ensures((&right_name,), right.0));
        r
    }
}

/// Bind each action to the keysym of its configured name in `config`, or
/// of its fallback name when the configured one is unknown, looking names
/// up with `lookup`; `None` when some binding resolves to neither.
pub fn build_keybind_map<F: Fn(&String) -> u32>(config: &Config, lookup: &F) -> (r: Option<KeybindMap>)
    requires
        key_names_ok(*config),
        forall|n: &String| !n@.contains('\0') ==> #[trigger] lookup.requires((n,)),
    ensures
        exists|names: BindingNames, fallback_names: BindingNames, named: BindingKeysyms, fallback: BindingKeysyms|
            #![trigger looked_up(*lookup, names, named), looked_up(*lookup, fallback_names, fallback)]
            {
                &&& configured_names(names, *config)
                &&& builtin_fallback_names(fallback_names)
                &&& looked_up(*lookup, names, named)
                &&& looked_up(*lookup, fallback_names, fallback)
                &&& (r is Some <==> all_resolve(named, fallback))
                &&& (r matches Some(m) ==> m@ == chosen_bindings(named, fallback))
            },
{
    let names = binding_names(config);
    let fallback_names = fallback_names();
    proof {
        lemma_builtin_names_free_of_nul();
    }
    let named = lookup_keysyms(&names, lookup);
    let fallback = lookup_keysyms(&fallback_names, lookup);
    let r = keybind_map_from_keysyms(&named, &fallback);
    assert(looked_up(*lookup, names, named) && looked_up(*lookup, fallback_names, fallback));
    r
}

/// Every setting is the command line's value when it gives one, else the
/// value the configuration's section sets, else the built-in default;
/// the arrow keys are the given keysyms.
pub proof fn lemma_settings_precedence(
    s: AppSettings,
    cli: CliOverrides,
    config: Config,
    named: BindingKeysyms,
    fallback: BindingKeysyms,
    left: Keysym,
    right: Keysym,
)
    requires
        settings_from(s, cli, config, named, fallback, left, right),
    ensures
        s.decorations == match cli.decorations {
            Some(b) => b,
            None => match config.window {
                Some(w) => match w.decorations {
                    Some(b) => b,
                    None => false,
                },
                None => false,
            },
        },
        s.antialiasing == match cli.antialiasing {
            Some(b) => b,
            None => match config.window {
                Some(w) => match w.antialiasing {
                    Some(b) => b,
                    None => false,
                },
                None => false,
            },
        },
        s.min_scale == match cli.min_scale {
            Some(x) => x,
            None => match config.viewer {
                Some(v) => match v.min_scale {
                    Some(x) => x,
                    None => DEFAULT_MIN_SCALE_BITS,
                },
                None => DEFAULT_MIN_SCALE_BITS,
            },
        },
        s.max_scale == match cli.max_scale {
            Some(x) => x,
            None => match config.viewer {
                Some(v) => match v.max_scale {
                    Some(x) => x,
                    None => DEFAULT_MAX_SCALE_BITS,
                },
                None => DEFAULT_MAX_SCALE_BITS,
            },
        },
        s.scale_step == match cli.scale_step {
            Some(x) => x,
            None => match config.viewer {
                Some(v) => match v.scale_step {
                    Some(x) => x,
                    None => DEFAULT_SCALE_STEP_BITS,
                },
                None => DEFAULT_SCALE_STEP_BITS,
            },
        },
        s.filter == match cli.filter_method {
            Some(f) => render_filter_of(f),
            None => match config.viewer {
                Some(v) => match v.filter_method {
                    Some(f) => render_filter_of(f),
                    None => FilterMethod::Nearest,
                },
                None => FilterMethod::Nearest,
            },
        },
        s.log_level@ == match cli.log_level {
            Some(l) => l@,
            None => match config.logging {
                Some(g) => match g.level {
                    Some(l) => l@,
                    None => "warn"@,
                },
                None => "warn"@,
            },
        },
        s.key_left == left,
        s.key_right == right,
{
}

/// Each configured filter selects the renderer's filter of the same name.
pub proof fn lemma_render_filter_names()
    ensures
        render_filter_of(ConfigFilter::Nearest) == FilterMethod::Nearest,
        render_filter_of(ConfigFilter::Triangle) == FilterMethod::Triangle,
        render_filter_of(ConfigFilter::CatmullRom) == FilterMethod::CatmullRom,
        render_filter_of(ConfigFilter::Gaussian) == FilterMethod::Gaussian,
        render_filter_of(ConfigFilter::Lanczos3) == FilterMethod::Lanczos3,
{
}

/// A key name the configuration's `[keybindings]` section sets is the name
/// that binding is looked up by; a key it leaves out uses the built-in
/// name, and without the section the section's defaults are used.
pub proof fn lemma_configured_names_follow_config(names: BindingNames, config: Config)
    requires
        configured_names(names, config),
    ensures
        names.quit@ == match config.keybindings {
            Some(k) => match k.quit {
                Some(n) => n@,
                None => "q"@,
            },
            None => "q"@,
        },
        names.rotate_left@ == match config.keybindings {
            Some(k) => match k.rotate_left {
                Some(n) => n@,
                None => "bracketleft"@,
            },
            None => "["@,
        },
        names.rotate_right@ == match config.keybindings {
            Some(k) => match k.rotate_right {
                Some(n) => n@,
                None => "bracketright"@,
            },
            None => "]"@,
        },
        names.delete@ == match config.keybindings {
            Some(k) => match k.delete {
                Some(n) => n@,
                None => "Delete"@,
            },
            None => "Delete"@,
        },
{
}

/// A binding whose name has a keysym is bound to it; the fallback's is used
/// only when the name has none.
pub proof fn lemma_chosen_keysym(named: Keysym, fallback: Keysym)
    ensures
        named.0 != NO_SYMBOL ==> chosen_keysym(named, fallback) == named,
        named.0 == NO_SYMBOL ==> chosen_keysym(named, fallback) == fallback,
{
}

/// When the four chosen keysyms differ, each is bound to its own action in
/// the map the bindings build.
pub proof fn lemma_chosen_bindings_bind_each(named: BindingKeysyms, fallback: BindingKeysyms)
    requires
        ({
            let q = chosen_keysym(named.quit, fallback.quit);
            let l = chosen_keysym(named.rotate_left, fallback.rotate_left);
            let r = chosen_keysym(named.rotate_right, fallback.rotate_right);
            let d = chosen_keysym(named.delete, fallback.delete);
            q != l && q != r && q != d && l != r && l != d && r != d
        }),
    ensures
        ({
            let m = chosen_bindings(named, fallback);
            &&& m[chosen_keysym(named.quit, fallback.quit).0] == crate::keybinds::Action::Quit
            &&& m[chosen_keysym(named.rotate_left, fallback.rotate_left).0] == crate::keybinds::Action::RotateLeft
            &&& m[chosen_keysym(named.rotate_right, fallback.rotate_right).0] == crate::keybinds::Action::RotateRight
            &&& m[chosen_keysym(named.delete, fallback.delete).0] == crate::keybinds::Action::DeleteFile
        }),
{
    crate::keybinds::lemma_distinct_bindings_round_trip(
        chosen_keysym(named.quit, fallback.quit),
        chosen_keysym(named.rotate_left, fallback.rotate_left),
        chosen_keysym(named.rotate_right, fallback.rotate_right),
        chosen_keysym(named.delete, fallback.delete),
        chosen_keysym(named.delete, fallback.delete),
    );
}

} // verus!
