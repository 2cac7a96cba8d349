//! Layered configuration: the section types of the TOML file, their
//! built-in defaults, and the merge that lets a later layer override an
//! earlier one key by key.
//!
//! Scale factors are kept as the IEEE-754 bit patterns of their `f32`
//! values: the logic here only moves them around, never computes with them.

use crate::paths::{path_join, spec_path_join};
use vstd::prelude::*;

verus! {

/// Bit pattern of `0.1_f32`, the default minimum zoom factor.
pub const DEFAULT_MIN_SCALE_BITS: u32 = 0x3dcc_cccd;

/// Bit pattern of `100.0_f32`, the default maximum zoom factor.
pub const DEFAULT_MAX_SCALE_BITS: u32 = 0x42c8_0000;

/// Bit pattern of `0.08_f32`, the default zoom step per scroll notch.
pub const DEFAULT_SCALE_STEP_BITS: u32 = 0x3da3_d70a;

/// Scaling filter named in the `[viewer]` section.
#[derive(Clone, Copy, Debug, PartialEq, Eq, Structural)]
pub enum FilterMethod {
    Nearest,
    Triangle,
    CatmullRom,
    Gaussian,
    Lanczos3,
}

/// The `[window]` section.
#[derive(Clone, Debug)]
pub struct Window {
    pub decorations: Option<bool>,
    pub antialiasing: Option<bool>,
}

/// The `[viewer]` section; scale values are `f32` bit patterns.
#[derive(Clone, Debug)]
pub struct Viewer {
    pub min_scale: Option<u32>,
    pub max_scale: Option<u32>,
    pub scale_step: Option<u32>,
    pub filter_method: Option<FilterMethod>,
}

/// The `[keybindings]` section: key names as written in the file.
#[derive(Clone, Debug)]
pub struct Keybindings {
    pub quit: Option<String>,
    pub rotate_left: Option<String>,
    pub rotate_right: Option<String>,
    pub delete: Option<String>,
}

/// The `[logging]` section.
#[derive(Clone, Debug)]
pub struct Logging {
    pub level: Option<String>,
}

/// A whole configuration layer; a missing section is `None`.
#[derive(Clone, Debug)]
pub struct Config {
    pub window: Option<Window>,
    pub viewer: Option<Viewer>,
    pub keybindings: Option<Keybindings>,
    pub logging: Option<Logging>,
}

impl Default for FilterMethod {
    fn default() -> (r: Self)
        ensures
            r == FilterMethod::Nearest,
    {
        FilterMethod::Nearest
    }
}

impl Default for Window {
    fn default() -> (r: Self)
        ensures
            r.decorations == Some(false),
            r.antialiasing == Some(false),
    {
        Window { decorations: Some(false), antialiasing: Some(false) }
    }
}

impl Default for Viewer {
    fn default() -> (r: Self)
        ensures
            r.min_scale == Some(DEFAULT_MIN_SCALE_BITS),
            r.max_scale == Some(DEFAULT_MAX_SCALE_BITS),
            r.scale_step == Some(DEFAULT_SCALE_STEP_BITS),
            r.filter_method == Some(FilterMethod::Nearest),
    {
        Viewer {
            min_scale: Some(DEFAULT_MIN_SCALE_BITS),
            max_scale: Some(DEFAULT_MAX_SCALE_BITS),
            scale_step: Some(DEFAULT_SCALE_STEP_BITS),
            filter_method: Some(FilterMethod::Nearest),
        }
    }
}

impl Default for Keybindings {
    fn default() -> (r: Self)
        ensures
            r.quit matches Some(s) && s@ == "q"@,
            r.rotate_left matches Some(s) && s@ == "["@,
            r.rotate_right matches Some(s) && s@ == "]"@,
            r.delete matches Some(s) && s@ == "Delete"@,
    {
        Keybindings {
            quit: Some("q".to_owned()),
            rotate_left: Some("[".to_owned()),
            rotate_right: Some("]".to_owned()),
            delete: Some("Delete".to_owned()),
        }
    }
}

impl Default for Logging {
    fn default() -> (r: Self)
        ensures
            r.level is None,
    {
        Logging { level: None }
    }
}

/// `c` is the built-in layer: every section but `[logging]` present with
/// its defaults.
pub open spec fn is_builtin(c: Config) -> bool {
    &&& c.window matches Some(w) && w.decorations == Some(false) && w.antialiasing == Some(false)
    &&& c.viewer matches Some(v) && v.min_scale == Some(DEFAULT_MIN_SCALE_BITS) && v.max_scale
        == Some(DEFAULT_MAX_SCALE_BITS) && v.scale_step == Some(DEFAULT_SCALE_STEP_BITS)
        && v.filter_method == Some(FilterMethod::Nearest)
    &&& c.keybindings matches Some(k) && k.quit matches Some(s) && s@ == "q"@
    &&& c.keybindings matches Some(k) && k.rotate_left matches Some(s) && s@ == "["@
    &&& c.keybindings matches Some(k) && k.rotate_right matches Some(s) && s@ == "]"@
    &&& c.keybindings matches Some(k) && k.delete matches Some(s) && s@ == "Delete"@
    &&& c.logging is None
}

impl Default for Config {
    /// The built-in layer: every section but `[logging]` present with its
    /// defaults.
    fn default() -> (r: Self)
        ensures
            is_builtin(r),
    {
        Config {
            window: Some(Window::default()),
            viewer: Some(Viewer::default()),
            keybindings: Some(Keybindings::default()),
            logging: None,
        }
    }
}

/// `overlay`'s value when it has one, else `base`'s.
pub open spec fn prefer<T>(base: Option<T>, overlay: Option<T>) -> Option<T> {
    match overlay {
        Some(o) => Some(o),
        None => base,
    }
}

/// Merge of two present `[window]` sections, key by key.
pub open spec fn merged_window(b: Window, o: Window) -> Window {
    Window {
        decorations: prefer(b.decorations, o.decorations),
        antialiasing: prefer(b.antialiasing, o.antialiasing),
    }
}

/// Merge of two present `[viewer]` sections, key by key.
pub open spec fn merged_viewer(b: Viewer, o: Viewer) -> Viewer {
    Viewer {
        min_scale: prefer(b.min_scale, o.min_scale),
        max_scale: prefer(b.max_scale, o.max_scale),
        scale_step: prefer(b.scale_step, o.scale_step),
        filter_method: prefer(b.filter_method, o.filter_method),
    }
}

/// Merge of two present `[keybindings]` sections, key by key.
pub open spec fn merged_keybindings(b: Keybindings, o: Keybindings) -> Keybindings {
    Keybindings {
        quit: prefer(b.quit, o.quit),
        rotate_left: prefer(b.rotate_left, o.rotate_left),
        rotate_right: prefer(b.rotate_right, o.rotate_right),
        delete: prefer(b.delete, o.delete),
    }
}

/// Merge of two present `[logging]` sections, key by key.
pub open spec fn merged_logging(b: Logging, o: Logging) -> Logging {
    Logging { level: prefer(b.level, o.level) }
}

/// A section after merging: both present gives their key-by-key merge,
/// else whichever is present (the overlay's first).
pub open spec fn merged_section<T>(base: Option<T>, overlay: Option<T>, f: spec_fn(T, T) -> T) -> Option<T> {
    match (base, overlay) {
        (Some(b), Some(o)) => Some(f(b, o)),
        (b, o) => prefer(b, o),
    }
}

/// The layer `overlay` laid over `base`.
pub open spec fn merged(base: Config, overlay: Config) -> Config {
    Config {
        window: merged_section(base.window, overlay.window, |b: Window, o: Window| merged_window(b, o)),
        viewer: merged_section(base.viewer, overlay.viewer, |b: Viewer, o: Viewer| merged_viewer(b, o)),
        keybindings: merged_section(
            base.keybindings,
            overlay.keybindings,
            |b: Keybindings, o: Keybindings| merged_keybindings(b, o),
        ),
        logging: merged_section(base.logging, overlay.logging, |b: Logging, o: Logging| merged_logging(b, o)),
    }
}

fn or_value<T>(base: Option<T>, overlay: Option<T>) -> (r: Option<T>)
    ensures
        r == prefer(base, overlay),
{
    match overlay {
        Some(o) => Some(o),
        None => base,
    }
}

/// Combine two optional sections: `f` merges them when both are present,
/// else the present one is kept (the overlay's first).
pub fn merge_section<T, F: FnOnce(T, T) -> T>(base: Option<T>, overlay: Option<T>, f: F) -> (r: Option<T>)
    requires
        forall|b: T, o: T| f.requires((b, o)),
    ensures
        match (base, overlay) {
            (Some(b), Some(o)) => r matches Some(m) && f.ensures((b, o), m),
            (b, o) => r == prefer(b, o),
        },
{
    match (base, overlay) {
        (Some(b), Some(o)) => Some(f(b, o)),
        (b, o) => or_value(b, o),
    }
}

fn merge_window(b: Window, o: Window) -> (m: Window)
    ensures
        m == merged_window(b, o),
{
    Window {
        decorations: or_value(b.decorations, o.decorations),
        antialiasing: or_value(b.antialiasing, o.antialiasing),
    }
}

fn merge_viewer(b: Viewer, o: Viewer) -> (m: Viewer)
    ensures
        m == merged_viewer(b, o),
{
    Viewer {
        min_scale: or_value(b.min_scale, o.min_scale),
        max_scale: or_value(b.max_scale, o.max_scale),
        scale_step: or_value(b.scale_step, o.scale_step),
        filter_method: or_value(b.filter_method, o.filter_method),
    }
}

fn merge_keybindings(b: Keybindings, o: Keybindings) -> (m: Keybindings)
    ensures
        m == merged_keybindings(b, o),
{
    Keybindings {
        quit: or_value(b.quit, o.quit),
        rotate_left: or_value(b.rotate_left, o.rotate_left),
        rotate_right: or_value(b.rotate_right, o.rotate_right),
        delete: or_value(b.delete, o.delete),
    }
}

fn merge_logging(b: Logging, o: Logging) -> (m: Logging)
    ensures
        m == merged_logging(b, o),
{
    Logging { level: or_value(b.level, o.level) }
}

impl Config {
    /// Lay `overlay` over `base`: in every section, each key the overlay
    /// sets wins, and keys and sections it leaves out keep `base`'s value.
    pub fn merge(base: Config, overlay: Config) -> (r: Config)
        ensures
            r == merged(base, overlay),
    {
        let window = merge_section(base.window, overlay.window, merge_window);
        let viewer = merge_section(base.viewer, overlay.viewer, merge_viewer);
        let keybindings = merge_section(base.keybindings, overlay.keybindings, merge_keybindings);
        let logging = merge_section(base.logging, overlay.logging, merge_logging);
        Config { window, viewer, keybindings, logging }
    }
}

/// `imgvwr/config.toml` under the directory `dir`.
pub open spec fn config_file_under(dir: Seq<char>) -> Seq<char> {
    spec_path_join(spec_path_join(dir, "imgvwr"@), "config.toml"@)
}

impl Config {
    /// The system-wide configuration file.
    pub fn get_system_path() -> (r: String)
        ensures
            r@ == "/etc/imgvwr/config.toml"@,
    {
        "/etc/imgvwr/config.toml".to_owned()
    }

    /// The user configuration file under `$XDG_CONFIG_HOME` (its value
    /// given as `xdg_config_home`); `None` when the variable is unset.
    pub fn get_xdg_path(xdg_config_home: Option<&str>) -> (r: Option<String>)
        ensures
            match xdg_config_home {
                Some(d) => r matches Some(p) && p@ == config_file_under(d@),
                None => r is None,
            },
    {
        match xdg_config_home {
            Some(d) => {
                let dir = path_join(d, "imgvwr");
                Some(path_join(&dir, "config.toml"))
            },
            None => None,
        }
    }

    /// The user configuration file under `$HOME/.config` (`$HOME` given as
    /// `home`); `None` when the variable is unset.
    pub fn get_home_path(home: Option<&str>) -> (r: Option<String>)
        ensures
            match home {
                Some(h) => r matches Some(p) && p@ == config_file_under(spec_path_join(h@, ".config"@)),
                None => r is None,
            },
    {
        match home {
            Some(h) => {
                let dot_config = path_join(h, ".config");
                let dir = path_join(&dot_config, "imgvwr");
                Some(path_join(&dir, "config.toml"))
            },
            None => None,
        }
    }

    /// The user configuration file: the one under `$XDG_CONFIG_HOME` when
    /// that is set, else the one under `$HOME/.config`; `None` when neither
    /// variable is set.
    pub fn user_config_path(xdg_config_home: Option<&str>, home: Option<&str>) -> (r: Option<String>)
        ensures
            match (xdg_config_home, home) {
                (Some(d), _) => r matches Some(p) && p@ == config_file_under(d@),
                (None, Some(h)) => r matches Some(p) && p@ == config_file_under(spec_path_join(h@, ".config"@)),
                (None, None) => r is None,
            },
    {
        match Config::get_xdg_path(xdg_config_home) {
            Some(p) => Some(p),
            None => Config::get_home_path(home),
        }
    }
}

/// A layer that sets nothing.
pub open spec fn empty_layer() -> Config {
    Config { window: None, viewer: None, keybindings: None, logging: None }
}

/// Laying an empty layer over a configuration, or a configuration over an
/// empty layer, gives that configuration back.
pub proof fn lemma_merge_empty_identity(c: Config)
    ensures
        merged(c, empty_layer()) == c,
        merged(empty_layer(), c) == c,
{
}

/// Laying a configuration over itself changes nothing.
pub proof fn lemma_merge_idempotent(c: Config)
    ensures
        merged(c, c) == c,
{
    if let Some(w) = c.window {
        assert(merged_window(w, w) == w);
    }
    if let Some(v) = c.viewer {
        assert(merged_viewer(v, v) == v);
    }
    if let Some(k) = c.keybindings {
        assert(merged_keybindings(k, k) == k);
    }
    if let Some(l) = c.logging {
        assert(merged_logging(l, l) == l);
    }
}

/// Layering is associative: merging `b` and `c` first and laying the
/// result over `a` gives what laying `b` then `c` over `a` gives.
pub proof fn lemma_merge_associative(a: Config, b: Config, c: Config)
    ensures
        merged(merged(a, b), c) == merged(a, merged(b, c)),
{
    if let (Some(x), Some(y), Some(z)) = (a.window, b.window, c.window) {
        assert(merged_window(merged_window(x, y), z) == merged_window(x, merged_window(y, z)));
    }
    if let (Some(x), Some(y), Some(z)) = (a.viewer, b.viewer, c.viewer) {
        assert(merged_viewer(merged_viewer(x, y), z) == merged_viewer(x, merged_viewer(y, z)));
    }
    if let (Some(x), Some(y), Some(z)) = (a.keybindings, b.keybindings, c.keybindings) {
        assert(merged_keybindings(merged_keybindings(x, y), z) == merged_keybindings(
            x,
            merged_keybindings(y, z),
        ));
    }
    if let (Some(x), Some(y), Some(z)) = (a.logging, b.logging, c.logging) {
        assert(merged_logging(merged_logging(x, y), z) == merged_logging(x, merged_logging(y, z)));
    }
}

/// `base` with each present layer of `layers` laid over it in order; an
/// absent layer (a file that is missing or does not parse) changes nothing.
pub open spec fn layered(base: Config, layers: Seq<Option<Config>>) -> Config
    decreases layers.len(),
{
    if layers.len() == 0 {
        base
    } else {
        let next = match layers[0] {
            Some(c) => merged(base, c),
            None => base,
        };
        layered(next, layers.drop_first())
    }
}

impl Config {
    /// Lay each present layer over `base`, in order: later layers win.
    pub fn merge_layers(base: Config, layers: Vec<Option<Config>>) -> (r: Config)
        ensures
            r == layered(base, layers@),
    {
        let mut acc = base;
        let mut rest = layers;
        while rest.len() > 0
            invariant
                layered(acc, rest@) == layered(base, layers@),
            decreases rest.len(),
        {
            let ghost before = rest@;
            let layer = rest.remove(0);
            assert(rest@ =~= before.drop_first());
            acc = match layer {
                Some(c) => Config::merge(acc, c),
                None => acc,
            };
        }
        acc
    }
}

/// The value of one key of a configuration: `get` applied to its section,
/// or nothing when the section is absent.
pub open spec fn key_of<S, T>(section: Option<S>, get: spec_fn(S) -> Option<T>) -> Option<T> {
    match section {
        Some(s) => get(s),
        None => None,
    }
}

proof fn lemma_section_key<S, T>(
    base: Option<S>,
    overlay: Option<S>,
    f: spec_fn(S, S) -> S,
    get: spec_fn(S) -> Option<T>,
)
    requires
        forall|x: S, y: S| #[trigger] get(f(x, y)) == prefer(get(x), get(y)),
    ensures
        key_of(merged_section(base, overlay, f), get) == prefer(key_of(base, get), key_of(overlay, get)),
{
    if let (Some(x), Some(y)) = (base, overlay) {
        assert(get(f(x, y)) == prefer(get(x), get(y)));
    }
}

/// Merging works key by key: every key the overlay sets takes the
/// overlay's value, and every key it leaves unset (alone or with its whole
/// section) keeps the base's value.
pub proof fn lemma_merge_key_by_key(base: Config, overlay: Config)
    ensures
        ({
            let m = merged(base, overlay);
            &&& key_of(m.window, |w: Window| w.decorations) == prefer(
                key_of(base.window, |w: Window| w.decorations),
                key_of(overlay.window, |w: Window| w.decorations),
            )
            &&& key_of(m.window, |w: Window| w.antialiasing) == prefer(
                key_of(base.window, |w: Window| w.antialiasing),
                key_of(overlay.window, |w: Window| w.antialiasing),
            )
            &&& key_of(m.viewer, |v: Viewer| v.min_scale) == prefer(
                key_of(base.viewer, |v: Viewer| v.min_scale),
                key_of(overlay.viewer, |v: Viewer| v.min_scale),
            )
            &&& key_of(m.viewer, |v: Viewer| v.max_scale) == prefer(
                key_of(base.viewer, |v: Viewer| v.max_scale),
                key_of(overlay.viewer, |v: Viewer| v.max_scale),
            )
            &&& key_of(m.viewer, |v: Viewer| v.scale_step) == prefer(
                key_of(base.viewer, |v: Viewer| v.scale_step),
                key_of(overlay.viewer, |v: Viewer| v.scale_step),
            )
            &&& key_of(m.viewer, |v: Viewer| v.filter_method) == prefer(
                key_of(base.viewer, |v: Viewer| v.filter_method),
                key_of(overlay.viewer, |v: Viewer| v.filter_method),
            )
            &&& key_of(m.keybindings, |k: Keybindings| k.quit) == prefer(
                key_of(base.keybindings, |k: Keybindings| k.quit),
                key_of(overlay.keybindings, |k: Keybindings| k.quit),
            )
            &&& key_of(m.keybindings, |k: Keybindings| k.rotate_left) == prefer(
                key_of(base.keybindings, |k: Keybindings| k.rotate_left),
                key_of(overlay.keybindings, |k: Keybindings| k.rotate_left),
            )
            &&& key_of(m.keybindings, |k: Keybindings| k.rotate_right) == prefer(
                key_of(base.keybindings, |k: Keybindings| k.rotate_right),
                key_of(overlay.keybindings, |k: Keybindings| k.rotate_right),
            )
            &&& key_of(m.keybindings, |k: Keybindings| k.delete) == prefer(
                key_of(base.keybindings, |k: Keybindings| k.delete),
                key_of(overlay.keybindings, |k: Keybindings| k.delete),
            )
            &&& key_of(m.logging, |l: Logging| l.level) == prefer(
                key_of(base.logging, |l: Logging| l.level),
                key_of(overlay.logging, |l: Logging| l.level),
            )
        }),
{
    let fw = |b: Window, o: Window| merged_window(b, o);
    let fv = |b: Viewer, o: Viewer| merged_viewer(b, o);
    let fk = |b: Keybindings, o: Keybindings| merged_keybindings(b, o);
    let fl = |b: Logging, o: Logging| merged_logging(b, o);
    assert(merged(base, overlay).window == merged_section(base.window, overlay.window, fw));
    assert(merged(base, overlay).viewer == merged_section(base.viewer, overlay.viewer, fv));
    assert(merged(base, overlay).keybindings == merged_section(base.keybindings, overlay.keybindings, fk));
    assert(merged(base, overlay).logging == merged_section(base.logging, overlay.logging, fl));
    lemma_section_key(base.window, overlay.window, fw, |w: Window| w.decorations);
    lemma_section_key(base.window, overlay.window, fw, |w: Window| w.antialiasing);
    lemma_section_key(base.viewer, overlay.viewer, fv, |v: Viewer| v.min_scale);
    lemma_section_key(base.viewer, overlay.viewer, fv, |v: Viewer| v.max_scale);
    lemma_section_key(base.viewer, overlay.viewer, fv, |v: Viewer| v.scale_step);
    lemma_section_key(base.viewer, overlay.viewer, fv, |v: Viewer| v.filter_method);
    lemma_section_key(base.keybindings, overlay.keybindings, fk, |k: Keybindings| k.quit);
    lemma_section_key(base.keybindings, overlay.keybindings, fk, |k: Keybindings| k.rotate_left);
    lemma_section_key(base.keybindings, overlay.keybindings, fk, |k: Keybindings| k.rotate_right);
    lemma_section_key(base.keybindings, overlay.keybindings, fk, |k: Keybindings| k.delete);
    lemma_section_key(base.logging, overlay.logging, fl, |l: Logging| l.level);
}

/// Later sources override earlier ones: one more layer on the stack is
/// that layer merged over everything below it, and an absent layer
/// changes nothing.
pub proof fn lemma_layered_push(base: Config, layers: Seq<Option<Config>>, top: Option<Config>)
    ensures
        layered(base, layers.push(top)) == match top {
            Some(c) => merged(layered(base, layers), c),
            None => layered(base, layers),
        },
    decreases layers.len(),
{
    let stack = layers.push(top);
    if layers.len() == 0 {
        assert(stack[0] == top);
        assert(stack.drop_first() =~= Seq::<Option<Config>>::empty());
        let next = match top {
            Some(c) => merged(base, c),
            None => base,
        };
        assert(layered(base, stack) == layered(next, stack.drop_first()));
        assert(layered(next, Seq::<Option<Config>>::empty()) == next);
    } else {
        let next = match layers[0] {
            Some(c) => merged(base, c),
            None => base,
        };
        assert(stack[0] == layers[0]);
        assert(stack.drop_first() =~= layers.drop_first().push(top));
        lemma_layered_push(next, layers.drop_first(), top);
        assert(layered(base, stack) == layered(next, stack.drop_first()));
        assert(layered(base, layers) == layered(next, layers.drop_first()));
    }
}

impl Config {
    /// The configuration the viewer runs with: the built-in defaults, then
    /// the system file, then the user file, then the `--config` file, each
    /// present layer laid over the ones before it (`None` for a file that is
    /// missing or does not parse).
    pub fn from_sources(
        system: Option<Config>,
        user: Option<Config>,
        override_layer: Option<Config>,
    ) -> (r: Config)
        ensures
            exists|d: Config| #[trigger] is_builtin(d) && r == layered(d, seq![system, user, override_layer]),
    {
        let d = Config::default();
        let mut layers: Vec<Option<Config>> = Vec::new();
        layers.push(system);
        layers.push(user);
        layers.push(override_layer);
        assert(layers@ =~= seq![system, user, override_layer]);
        let ghost base = d;
        let r = Config::merge_layers(d, layers);
        assert(is_builtin(base));
        r
    }
}

/// With no configuration file at all, the viewer runs on the documented
/// defaults: no decorations or antialiasing, zoom between 0.1 and 100 in
/// steps of 0.08, the nearest-neighbour filter, the keys `q`, `[`, `]` and
/// `Delete`, and no log level.
pub proof fn lemma_no_files_gives_defaults(d: Config)
    requires
        is_builtin(d),
    ensures
        ({
            let c = layered(d, seq![None, None, None]);
            &&& c.window matches Some(w) && w.decorations == Some(false) && w.antialiasing == Some(false)
            &&& c.viewer matches Some(v) && v.min_scale == Some(0x3dcc_cccdu32)
                && v.max_scale == Some(0x42c8_0000u32) && v.scale_step == Some(0x3da3_d70au32)
                && v.filter_method == Some(FilterMethod::Nearest)
            &&& c.keybindings matches Some(k) && k.quit matches Some(s) && s@ == "q"@
            &&& c.keybindings matches Some(k) && k.rotate_left matches Some(s) && s@ == "["@
            &&& c.keybindings matches Some(k) && k.rotate_right matches Some(s) && s@ == "]"@
            &&& c.keybindings matches Some(k) && k.delete matches Some(s) && s@ == "Delete"@
            &&& c.logging is None
        }),
{
    let l: Seq<Option<Config>> = seq![None, None, None];
    assert(l.drop_first() =~= seq![None, None]);
    assert(l.drop_first().drop_first() =~= seq![None]);
    assert(l.drop_first().drop_first().drop_first() =~= Seq::<Option<Config>>::empty());
    assert(layered(d, l.drop_first().drop_first().drop_first()) == d);
    assert(layered(d, l.drop_first().drop_first()) == d);
    assert(layered(d, l.drop_first()) == d);
    assert(layered(d, l) == d);
}

} // verus!
