//! Keybind resolution: keysyms to actions.
//!
//! Key names are turned into keysyms by xkbcommon's `keysym_from_name`,
//! which gives the raw value `NO_SYMBOL` for a name it does not know; the
//! functions here take those raw results and decide what they mean.

use std::collections::HashMap;
use vstd::prelude::*;

verus! {

broadcast use vstd::std_specs::hash::group_hash_axioms;

/// The raw value that xkbcommon uses for "no symbol".
pub const NO_SYMBOL: u32 = 0;

/// An XKB keysym, held by its raw 32-bit value.
#[derive(Clone, Copy, Debug, PartialEq, Eq, Structural)]
pub struct Keysym(pub u32);

/// Actions that can be triggered by a key press.
#[derive(Clone, Copy, Debug, PartialEq, Eq, Structural)]
pub enum Action {
    Quit,
    RotateLeft,
    RotateRight,
    DeleteFile,
}

/// Error returned when a key name cannot be resolved to a keysym; it holds
/// the name that failed.
#[derive(Debug)]
pub struct KeybindError(pub String);

impl KeybindError {
    /// The key name that could not be resolved.
    pub fn name(&self) -> (r: &str)
        ensures
            r@ == self.0@,
    {
        self.0.as_str()
    }

    /// The error's text: `unknown key name: ` and the name as `{:?}`
    /// prints it (quoted, with special characters escaped).
    pub fn message(&self) -> (r: String)
        ensures
            r@ == "unknown key name: "@ + spec_debug_str(self.0@),
    {
        let mut m = "unknown key name: ".to_owned();
        let q = debug_quoted(self.0.as_str());
        m.append(q.as_str());
        m
    }
}

/// The text that `{:?}` prints for the string `s`, as std's `Debug` for
/// `str` forms it.
pub uninterp spec fn spec_debug_str(s: Seq<char>) -> Seq<char>;

/// Calls std's `Debug` for `str` through `format!("{:?}", ..)`. The
/// contract claims only that the text is a function of `s`, named
/// `spec_debug_str`.
#[verifier::external_body]
fn debug_quoted(s: &str) -> (r: String)
    ensures
        r@ == spec_debug_str(s@),
{
    format!("{:?}", s)
}

/// Interpret the keysym that xkbcommon returned for `name`: an error
/// exactly when it is `NO_SYMBOL`.
pub fn keysym_from_lookup(name: &str, raw: u32) -> (r: Result<Keysym, KeybindError>)
    ensures
        match r {
            Ok(sym) => sym.0 == raw && raw != NO_SYMBOL,
            Err(e) => e.0@ == name@ && raw == NO_SYMBOL,
        },
{
    if raw == NO_SYMBOL {
        Err(KeybindError(name.to_owned()))
    } else {
        Ok(Keysym(raw))
    }
}

/// The XKB keycode of the evdev scancode `key`: XKB keycodes are evdev
/// codes plus 8.
pub fn xkb_keycode(key: u32) -> (r: u32)
    requires
        key + 8 <= u32::MAX,
    ensures
        r == key + 8,
{
    key + 8
}

/// The keysym a key event reports: a press of a key with a symbol gives
/// that symbol; a release, or a key without one, gives nothing.
pub fn pressed_keysym(pressed: bool, raw: u32) -> (r: Option<Keysym>)
    ensures
        r == if pressed && raw != NO_SYMBOL {
            Some(Keysym(raw))
        } else {
            None
        },
{
    if pressed && raw != NO_SYMBOL {
        Some(Keysym(raw))
    } else {
        None
    }
}

/// Resolve a key name to its keysym. `lookup` gives the raw keysym of a
/// name, `NO_SYMBOL` for a name it does not know; the program passes
/// xkbcommon's `keysym_from_name`, which cannot take a name holding NUL.
pub fn keysym_from_str<F: Fn(&String) -> u32>(name: &String, lookup: &F) -> (r: Result<Keysym, KeybindError>)
    requires
        !name@.contains('\0'),
        lookup.requires((name,)),
    ensures
        match r {
            Ok(s) => lookup.ensures((name,), s.0) && s.0 != NO_SYMBOL,
            Err(e) => e.0@ == name@ && lookup.ensures((name,), NO_SYMBOL),
        },
{
    let raw = lookup(name);
    keysym_from_lookup(name.as_str(), raw)
}

/// Use the keysym of the configured name; if that name is unknown, use the
/// keysym of the built-in fallback name; `None` when both are unknown.
pub fn resolve_keysym(named: Keysym, fallback: Keysym) -> (r: Option<Keysym>)
    ensures
        named.0 != NO_SYMBOL ==> r == Some(named),
        named.0 == NO_SYMBOL && fallback.0 != NO_SYMBOL ==> r == Some(fallback),
        named.0 == NO_SYMBOL && fallback.0 == NO_SYMBOL ==> r is None,
{
    if named.0 != NO_SYMBOL {
        Some(named)
    } else if fallback.0 != NO_SYMBOL {
        Some(fallback)
    } else {
        None
    }
}

/// The bindings that `KeybindMap::new` makes, in order; a later binding of
/// the same keysym replaces an earlier one.
pub open spec fn bindings_map(quit: Keysym, rotate_left: Keysym, rotate_right: Keysym, delete: Keysym) -> Map<u32, Action> {
    Map::<u32, Action>::empty()
        .insert(quit.0, Action::Quit)
        .insert(rotate_left.0, Action::RotateLeft)
        .insert(rotate_right.0, Action::RotateRight)
        .insert(delete.0, Action::DeleteFile)
}

/// Maps keysyms to actions.
pub struct KeybindMap {
    inner: HashMap<u32, Action>,
}

impl View for KeybindMap {
    type V = Map<u32, Action>;

    closed spec fn view(&self) -> Map<u32, Action> {
        self.inner@
    }
}

impl KeybindMap {
    /// Build the map from resolved keysyms.
    pub fn new(quit: Keysym, rotate_left: Keysym, rotate_right: Keysym, delete: Keysym) -> (r: Self)
        ensures
            r@ == bindings_map(quit, rotate_left, rotate_right, delete),
    {
        let mut inner: HashMap<u32, Action> = HashMap::with_capacity(4);
        inner.insert(quit.0, Action::Quit);
        inner.insert(rotate_left.0, Action::RotateLeft);
        inner.insert(rotate_right.0, Action::RotateRight);
        inner.insert(delete.0, Action::DeleteFile);
        KeybindMap { inner }
    }

    /// Look up the action bound to `sym`, if any.
    pub fn lookup(&self, sym: Keysym) -> (r: Option<Action>)
        ensures
            r == (if self@.contains_key(sym.0) { Some(self@[sym.0]) } else { None::<Action> }),
    {
        match self.inner.get(&sym.0) {
            Some(a) => Some(*a),
            None => None,
        }
    }
}

/// Each of four distinct keysyms looks up the action it was bound to, and
/// no other keysym is bound.
pub proof fn lemma_distinct_bindings_round_trip(
    quit: Keysym,
    rotate_left: Keysym,
    rotate_right: Keysym,
    delete: Keysym,
    other: Keysym,
)
    requires
        quit != rotate_left,
        quit != rotate_right,
        quit != delete,
        rotate_left != rotate_right,
        rotate_left != delete,
        rotate_right != delete,
    ensures
        ({
            let m = bindings_map(quit, rotate_left, rotate_right, delete);
            &&& m.contains_key(quit.0) && m[quit.0] == Action::Quit
            &&& m.contains_key(rotate_left.0) && m[rotate_left.0] == Action::RotateLeft
            &&& m.contains_key(rotate_right.0) && m[rotate_right.0] == Action::RotateRight
            &&& m.contains_key(delete.0) && m[delete.0] == Action::DeleteFile
            &&& (other != quit && other != rotate_left && other != rotate_right && other != delete)
                ==> !m.contains_key(other.0)
        }),
{
}

} // verus!
