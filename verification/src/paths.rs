//! The parts of a path that navigation looks at, and the order in which
//! paths are listed.
//!
//! Paths are held as text. Their components are found by `std::path`, whose
//! results are named here; what is decided from them is verified.

use crate::text::chars_of;
use vstd::prelude::*;

verus! {

/// The final component of `path`, as `std::path::Path::file_name` finds it.
pub uninterp spec fn spec_path_file_name(path: Seq<char>) -> Option<Seq<char>>;

/// The extension of `path`, as `std::path::Path::extension` finds it.
pub uninterp spec fn spec_path_extension(path: Seq<char>) -> Option<Seq<char>>;

/// The parent of `path`, as `std::path::Path::parent` finds it.
pub uninterp spec fn spec_path_parent(path: Seq<char>) -> Option<Seq<char>>;

/// Whether `std::path::Path`'s equality holds of `a` and `b` (it compares
/// the paths component by component).
pub uninterp spec fn spec_same_path(a: Seq<char>, b: Seq<char>) -> bool;

/// `part` joined onto `base`, as `std::path::Path::join` forms it on Unix:
/// an absolute `part` (one starting with `/`) replaces `base`; otherwise a
/// `/` separates the two unless `base` is empty or already ends in one.
pub open spec fn spec_path_join(base: Seq<char>, part: Seq<char>) -> Seq<char> {
    if part.len() > 0 && part[0] == '/' {
        part
    } else if base.len() == 0 || base.last() == '/' {
        base + part
    } else {
        base + seq!['/'] + part
    }
}

/// Calls `std::path::Path::file_name` on `path`. The contract claims only
/// that the result is a function of the path, named `spec_path_file_name`.
#[verifier::external_body]
pub(crate) fn path_file_name(path: &str) -> (r: Option<String>)
    ensures
        match r {
            Some(n) => spec_path_file_name(path@) == Some(n@),
            None => spec_path_file_name(path@) is None,
        },
{
    std::path::Path::new(path).file_name().and_then(|n| n.to_str()).map(str::to_owned)
}

/// Calls `std::path::Path::parent` on `path`. The contract claims only
/// that the result is a function of the path, named `spec_path_parent`.
#[verifier::external_body]
pub(crate) fn path_parent(path: &str) -> (r: Option<String>)
    ensures
        match r {
            Some(d) => spec_path_parent(path@) == Some(d@),
            None => spec_path_parent(path@) is None,
        },
{
    std::path::Path::new(path).parent().and_then(|d| d.to_str()).map(str::to_owned)
}

/// Calls `std::path::Path::extension` on `path`. The contract claims only
/// that the result is a function of the path, named `spec_path_extension`.
#[verifier::external_body]
fn path_extension(path: &str) -> (r: Option<String>)
    ensures
        match r {
            Some(e) => spec_path_extension(path@) == Some(e@),
            None => spec_path_extension(path@) is None,
        },
{
    std::path::Path::new(path).extension().and_then(|e| e.to_str()).map(str::to_owned)
}

/// Calls `==` on two `std::path::Path`s. The contract claims that the
/// result is a function of the two paths, named `spec_same_path`, and that
/// a path equals itself (`Path` is `Eq`).
#[verifier::external_body]
pub(crate) fn same_path(a: &str, b: &str) -> (r: bool)
    ensures
        r == spec_same_path(a@, b@),
        a@ == b@ ==> r,
{
    std::path::Path::new(a) == std::path::Path::new(b)
}

/// `part` joined onto `base` as a path.
pub fn path_join(base: &str, part: &str) -> (r: String)
    ensures
        r@ == spec_path_join(base@, part@),
{
    let p = chars_of(part);
    if p.len() > 0 && p[0] == '/' {
        return part.to_owned();
    }
    let b = chars_of(base);
    let mut r = base.to_owned();
    if !(b.len() == 0 || b[b.len() - 1] == '/') {
        proof {
            reveal_strlit("/");
        }
        r.append("/");
    }
    r.append(part);
    r
}

/// The code of `c` after ASCII lowercasing.
pub open spec fn ascii_lower_code(c: char) -> u32 {
    let x = c as u32;
    if 65 <= x && x <= 90 {
        (x + 32) as u32
    } else {
        x
    }
}

/// Whether `path` names an image format this build decodes: its extension,
/// ASCII-lowercased, is `png`.
pub open spec fn is_supported_path(path: Seq<char>) -> bool {
    match spec_path_extension(path) {
        Some(e) => e.map_values(|c: char| ascii_lower_code(c)) =~= seq![112u32, 110u32, 103u32],
        None => false,
    }
}

fn lower_code(c: char) -> (r: u32)
    ensures
        r == ascii_lower_code(c),
{
    let x = c as u32;
    if 65 <= x && x <= 90 {
        x + 32
    } else {
        x
    }
}

/// Whether the file at `path` is one that navigation lists.
pub fn is_supported(path: &str) -> (r: bool)
    ensures
        r == is_supported_path(path@),
{
    match path_extension(path) {
        None => false,
        Some(ext) => {
            let cs = chars_of(ext.as_str());
            let ghost lowered = cs@.map_values(|c: char| ascii_lower_code(c));
            if cs.len() != 3 {
                assert(lowered.len() != 3);
                return false;
            }
            let a = lower_code(cs[0]);
            let b = lower_code(cs[1]);
            let c = lower_code(cs[2]);
            assert(lowered[0] == a && lowered[1] == b && lowered[2] == c);
            if a == 112 && b == 110 && c == 103 {
                assert(lowered =~= seq![112u32, 110u32, 103u32]);
                true
            } else {
                assert(!(lowered =~= seq![112u32, 110u32, 103u32])) by {
                    if lowered =~= seq![112u32, 110u32, 103u32] {
                        assert(lowered[0] == 112u32);
                        assert(lowered[1] == 110u32);
                        assert(lowered[2] == 103u32);
                    }
                }
                false
            }
        },
    }
}

/// Lexicographic order on texts by character code, which is the byte order
/// of their UTF-8 encodings.
pub open spec fn lex_le(x: Seq<char>, y: Seq<char>) -> bool
    decreases x.len(),
{
    if x.len() == 0 {
        true
    } else if y.len() == 0 {
        false
    } else if (x[0] as u32) != (y[0] as u32) {
        (x[0] as u32) < (y[0] as u32)
    } else {
        lex_le(x.drop_first(), y.drop_first())
    }
}

/// Order on optional file names: a path without a file name comes first.
pub open spec fn name_le(a: Option<Seq<char>>, b: Option<Seq<char>>) -> bool {
    match (a, b) {
        (None, _) => true,
        (Some(_), None) => false,
        (Some(x), Some(y)) => lex_le(x, y),
    }
}

/// Either of two texts comes first.
pub proof fn lemma_lex_le_total(x: Seq<char>, y: Seq<char>)
    ensures
        lex_le(x, y) || lex_le(y, x),
    decreases x.len(),
{
    if x.len() > 0 && y.len() > 0 && (x[0] as u32) == (y[0] as u32) {
        lemma_lex_le_total(x.drop_first(), y.drop_first());
    }
}

/// The lexicographic order is transitive.
pub proof fn lemma_lex_le_transitive(x: Seq<char>, y: Seq<char>, z: Seq<char>)
    requires
        lex_le(x, y),
        lex_le(y, z),
    ensures
        lex_le(x, z),
    decreases x.len(),
{
    if x.len() > 0 && y.len() > 0 && z.len() > 0 && (x[0] as u32) == (y[0] as u32) && (y[0]
        as u32) == (z[0] as u32) {
        lemma_lex_le_transitive(x.drop_first(), y.drop_first(), z.drop_first());
    }
}

/// Either of two optional names comes first.
pub proof fn lemma_name_le_total(a: Option<Seq<char>>, b: Option<Seq<char>>)
    ensures
        name_le(a, b) || name_le(b, a),
{
    if let (Some(x), Some(y)) = (a, b) {
        lemma_lex_le_total(x, y);
    }
}

/// The order on optional names is transitive.
pub proof fn lemma_name_le_transitive(a: Option<Seq<char>>, b: Option<Seq<char>>, c: Option<Seq<char>>)
    requires
        name_le(a, b),
        name_le(b, c),
    ensures
        name_le(a, c),
{
    if let (Some(x), Some(y), Some(z)) = (a, b, c) {
        lemma_lex_le_transitive(x, y, z);
    }
}

/// Texts are ordered by their first differing character: when `x` and
/// `y` agree before position `i` and differ at `i`, `x` comes first
/// exactly when its character there is the smaller one.
pub proof fn lemma_lex_le_first_difference(x: Seq<char>, y: Seq<char>, i: int)
    requires
        0 <= i < x.len(),
        i < y.len(),
        forall|j: int| 0 <= j < i ==> x[j] == y[j],
        x[i] != y[i],
    ensures
        lex_le(x, y) <==> (x[i] as u32) < (y[i] as u32),
    decreases i,
{
    if i > 0 {
        assert(x[0] == y[0]);
        assert forall|j: int| 0 <= j < i - 1 implies x.drop_first()[j] == y.drop_first()[j] by {
            assert(x[j + 1] == y[j + 1]);
        }
        lemma_lex_le_first_difference(x.drop_first(), y.drop_first(), i - 1);
    } else {
        lemma_char_code_injective(x[0], y[0]);
    }
}

/// Distinct characters have distinct codes.
proof fn lemma_char_code_injective(a: char, b: char)
    ensures
        (a as u32) == (b as u32) ==> a == b,
{
    assert(0 <= a as int <= 0x10FFFF);
    assert(0 <= b as int <= 0x10FFFF);
    assert((a as u32) as int == a as int);
    assert((b as u32) as int == b as int);
}

/// A text comes before every text it is a prefix of.
pub proof fn lemma_lex_le_prefix(x: Seq<char>, y: Seq<char>)
    requires
        x.len() <= y.len(),
        forall|j: int| 0 <= j < x.len() ==> x[j] == y[j],
    ensures
        lex_le(x, y),
    decreases x.len(),
{
    if x.len() > 0 {
        assert(x[0] == y[0]);
        assert forall|j: int| 0 <= j < x.len() - 1 implies x.drop_first()[j] == y.drop_first()[j] by {
            assert(x[j + 1] == y[j + 1]);
        }
        lemma_lex_le_prefix(x.drop_first(), y.drop_first());
    }
}

/// The order is antisymmetric: two texts each coming before the other are
/// the same text.
pub proof fn lemma_lex_le_antisymmetric(x: Seq<char>, y: Seq<char>)
    requires
        lex_le(x, y),
        lex_le(y, x),
    ensures
        x == y,
    decreases x.len(),
{
    if x.len() == 0 {
        assert(y.len() == 0);
        assert(x =~= y);
    } else {
        assert(y.len() > 0);
        assert((x[0] as u32) == (y[0] as u32));
        lemma_char_code_injective(x[0], y[0]);
        lemma_lex_le_antisymmetric(x.drop_first(), y.drop_first());
        assert(x =~= seq![x[0]] + x.drop_first());
        assert(y =~= seq![y[0]] + y.drop_first());
    }
}

/// The order on optional names is antisymmetric.
pub proof fn lemma_name_le_antisymmetric(a: Option<Seq<char>>, b: Option<Seq<char>>)
    requires
        name_le(a, b),
        name_le(b, a),
    ensures
        a == b,
{
    if let (Some(x), Some(y)) = (a, b) {
        lemma_lex_le_antisymmetric(x, y);
    }
}

fn lex_le_exec(a: &Vec<char>, b: &Vec<char>) -> (r: bool)
    ensures
        r == lex_le(a@, b@),
{
    let mut i: usize = 0;
    assert(a@.skip(0) =~= a@);
    assert(b@.skip(0) =~= b@);
    while i < a.len() && i < b.len()
        invariant
            i <= a.len(),
            i <= b.len(),
            lex_le(a@, b@) == lex_le(a@.skip(i as int), b@.skip(i as int)),
        decreases a.len() - i,
    {
        let x = a[i] as u32;
        let y = b[i] as u32;
        assert(a@.skip(i as int)[0] == a@[i as int]);
        assert(b@.skip(i as int)[0] == b@[i as int]);
        if x != y {
            return x < y;
        }
        assert(a@.skip(i as int).drop_first() =~= a@.skip(i + 1));
        assert(b@.skip(i as int).drop_first() =~= b@.skip(i + 1));
        i = i + 1;
    }
    if i == a.len() {
        assert(a@.skip(i as int).len() == 0);
        true
    } else {
        assert(b@.skip(i as int).len() == 0);
        false
    }
}

/// An optional file name held as characters, as a sequence.
pub open spec fn name_view(k: Option<Vec<char>>) -> Option<Seq<char>> {
    match k {
        Some(v) => Some(v@),
        None => None,
    }
}

/// The sort key of `path`: its file name, as characters.
pub fn file_name_key(path: &str) -> (r: Option<Vec<char>>)
    ensures
        name_view(r) == spec_path_file_name(path@),
{
    match path_file_name(path) {
        Some(n) => Some(chars_of(n.as_str())),
        None => None,
    }
}

/// Compares two sort keys.
pub fn name_le_exec(a: &Option<Vec<char>>, b: &Option<Vec<char>>) -> (r: bool)
    ensures
        r == name_le(name_view(*a), name_view(*b)),
{
    match (a, b) {
        (None, _) => true,
        (Some(_), None) => false,
        (Some(x), Some(y)) => lex_le_exec(x, y),
    }
}

} // verus!
