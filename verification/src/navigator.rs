//! An ordered list of image paths with a current-position cursor and
//! wrap-around prev/next navigation.

use crate::paths::{
    path_join, path_parent, spec_path_join, spec_path_parent,
    file_name_key, is_supported, lemma_name_le_total, lemma_name_le_transitive, name_le,
    name_le_exec, name_view, same_path, spec_path_file_name, spec_same_path, is_supported_path,
};
use vstd::prelude::*;

verus! {

broadcast use vstd::seq_lib::group_to_multiset_ensures;

/// Whether navigation lists the entry `p`.
pub open spec fn supported_pred() -> spec_fn(String) -> bool {
    |p: String| is_supported_path(p@)
}

/// The entries of `entries` that navigation lists, in their given order.
pub open spec fn supported_entries(entries: Seq<String>) -> Seq<String> {
    entries.filter(supported_pred())
}

/// `paths` is ordered by file name.
pub open spec fn sorted_by_file_name(paths: Seq<String>) -> bool {
    forall|i: int, j: int|
        0 <= i < j < paths.len() ==> name_le(
            spec_path_file_name(#[trigger] paths[i]@),
            spec_path_file_name(#[trigger] paths[j]@),
        )
}

/// Every entry of `paths` is a supported image.
pub open spec fn all_supported(paths: Seq<String>) -> bool {
    forall|k: int| 0 <= k < paths.len() ==> is_supported_path(#[trigger] paths[k]@)
}

/// `origin` places each entry of `out` at a distinct position of `input`
/// holding the same path, `out` is ordered by file name, and entries with
/// equal file names keep their relative order from `input`.
pub open spec fn is_stable_arrangement(out: Seq<String>, input: Seq<String>, origin: Seq<int>) -> bool {
    &&& origin.len() == out.len()
    &&& out.len() == input.len()
    &&& forall|k: int|
        0 <= k < out.len() ==> 0 <= #[trigger] origin[k] < input.len() && out[k] == input[origin[k]]
    &&& forall|k: int, l: int| 0 <= k < l < out.len() ==> #[trigger] origin[k] != #[trigger] origin[l]
    &&& sorted_by_file_name(out)
    &&& forall|k: int, l: int|
        0 <= k < l < out.len() && name_le(
            spec_path_file_name(#[trigger] out[l]@),
            spec_path_file_name(#[trigger] out[k]@),
        ) ==> origin[k] < origin[l]
}

/// `out` is `input` sorted stably by file name.
pub open spec fn is_stable_sort_by_file_name(out: Seq<String>, input: Seq<String>) -> bool {
    exists|origin: Seq<int>| is_stable_arrangement(out, input, origin)
}

/// `current` is where navigation starts in `paths`: the first entry equal
/// (as a path) to `start`, or the first entry when there is none.
pub open spec fn start_index(paths: Seq<String>, start: Option<Seq<char>>, current: int) -> bool {
    match start {
        None => current == 0,
        Some(s) => if exists|i: int| 0 <= i < paths.len() && spec_same_path(#[trigger] paths[i]@, s) {
            &&& 0 <= current < paths.len()
            &&& spec_same_path(paths[current]@, s)
            &&& forall|j: int| 0 <= j < current ==> !spec_same_path(#[trigger] paths[j]@, s)
        } else {
            current == 0
        },
    }
}

proof fn lemma_insert_to_multiset<A>(s: Seq<A>, i: int, x: A)
    requires
        0 <= i <= s.len(),
    ensures
        s.insert(i, x).to_multiset() =~= s.to_multiset().insert(x),
{
    broadcast use vstd::multiset::group_multiset_axioms;

    let t = s.insert(i, x);
    assert(t.remove(i) =~= s);
    assert(t[i] == x);
    assert(t.remove(i).to_multiset() =~= t.to_multiset().remove(x));
    assert(t.contains(x));
    assert(t.to_multiset().count(x) > 0);
}

/// Where to look for images when opening `path`.
pub struct ScanPlan {
    /// The directory whose entries are listed.
    pub dir: String,
    /// The entry to start at, when a file was opened.
    pub start: Option<String>,
}

/// Why a path cannot be opened for navigation.
#[derive(Clone, Copy, Debug, PartialEq, Eq, Structural)]
pub enum ScanError {
    /// The path is a file without a parent directory.
    NoParent,
}

/// Plan the scan for opening `path`: a directory is listed from its first
/// image; a file's parent directory is listed, starting at the file. A
/// bare file name (whose parent is the empty path) is looked up in the
/// current directory `.`, whose entries are listed as `./name`.
pub fn scan_plan(path: &str, is_dir: bool) -> (r: Result<ScanPlan, ScanError>)
    ensures
        is_dir ==> (r matches Ok(plan) && plan.dir@ == path@ && plan.start is None),
        !is_dir ==> match spec_path_parent(path@) {
            Some(d) => if d.len() == 0 {
                r matches Ok(plan) && plan.dir@ == "."@ && (plan.start matches Some(s) && s@
                    == spec_path_join("."@, path@))
            } else {
                r matches Ok(plan) && plan.dir@ == d && (plan.start matches Some(s) && s@ == path@)
            },
            None => r == Err::<ScanPlan, ScanError>(ScanError::NoParent),
        },
{
    if is_dir {
        Ok(ScanPlan { dir: path.to_owned(), start: None })
    } else {
        match path_parent(path) {
            Some(d) => if d.as_str().is_empty() {
                Ok(ScanPlan { dir: ".".to_owned(), start: Some(path_join(".", path)) })
            } else {
                Ok(ScanPlan { dir: d, start: Some(path.to_owned()) })
            },
            None => Err(ScanError::NoParent),
        }
    }
}

/// Index after `i` in a list of `n` entries, wrapping to the first.
pub open spec fn next_index(i: int, n: int) -> int {
    (i + 1) % n
}

/// Index before `i` in a list of `n` entries, wrapping to the last.
pub open spec fn prev_index(i: int, n: int) -> int {
    if i == 0 {
        n - 1
    } else {
        i - 1
    }
}

/// An ordered list of image paths with a current-position cursor.
pub struct Navigator {
    /// Sorted list of supported image paths.
    pub paths: Vec<String>,
    /// Index into `paths` of the currently displayed image.
    pub current: usize,
}

impl Navigator {
    /// Build a navigator from the entries of a directory. Only supported
    /// images are kept, ordered by file name; the cursor starts at `start`
    /// when it is among them, else at the first image. `None` when no entry
    /// is a supported image.
    #[verifier::rlimit(40)]
    #[verifier::spinoff_prover]
    pub fn from_entries(entries: &Vec<String>, start: Option<&str>) -> (r: Option<Navigator>)
        ensures
            r is None <==> supported_entries(entries@).len() == 0,
            r matches Some(nav) ==> nav.wf(),
            r matches Some(nav) ==> nav.paths@.to_multiset() == supported_entries(entries@).to_multiset(),
            r matches Some(nav) ==> sorted_by_file_name(nav.paths@),
            r matches Some(nav) ==> all_supported(nav.paths@),
            r matches Some(nav) ==> match start {
                Some(s) => (exists|i: int| 0 <= i < nav.paths.len() && #[trigger] nav.paths@[i]@ == s@)
                    ==> spec_same_path(nav.paths@[nav.current as int]@, s@),
                None => true,
            },
            r matches Some(nav) ==> is_stable_sort_by_file_name(nav.paths@, supported_entries(entries@)),
            r matches Some(nav) ==> start_index(
                nav.paths@,
                match start {
                    Some(s) => Some(s@),
                    None => None,
                },
                nav.current as int,
            ),
    {
        let mut paths: Vec<String> = Vec::new();
        let mut keys: Vec<Option<Vec<char>>> = Vec::new();
        let ghost pred = supported_pred();
        let ghost mut origin: Seq<int> = Seq::empty();
        for i in 0..entries.len()
            invariant
                pred == supported_pred(),
                keys.len() == paths.len(),
                forall|k: int|
                    0 <= k < keys.len() ==> name_view(#[trigger] keys@[k]) == spec_path_file_name(
                        paths@[k]@,
                    ),
                forall|a: int, b: int|
                    0 <= a < b < keys.len() ==> name_le(
                        name_view(#[trigger] keys@[a]),
                        name_view(#[trigger] keys@[b]),
                    ),
                paths@.to_multiset() == entries@.take(i as int).filter(pred).to_multiset(),
                paths.len() == entries@.take(i as int).filter(pred).len(),
                origin.len() == paths.len(),
                forall|m: int|
                    0 <= m < paths.len() ==> 0 <= #[trigger] origin[m] < paths.len() && paths@[m]
                        == entries@.take(i as int).filter(pred)[origin[m]],
                forall|a: int, b: int|
                    0 <= a < b < paths.len() ==> #[trigger] origin[a] != #[trigger] origin[b],
                forall|a: int, b: int|
                    0 <= a < b < keys.len() && name_le(
                        name_view(#[trigger] keys@[b]),
                        name_view(#[trigger] keys@[a]),
                    ) ==> origin[a] < origin[b],
        {
            proof {
                assert(entries@.take(i + 1) =~= entries@.take(i as int).push(entries@[i as int]));
                entries@.take(i as int).lemma_filter_push(entries@[i as int], pred);
            }
            let ghost before = paths@;
            let ghost f = entries@.take(i as int).filter(pred);
            let ghost f2 = entries@.take(i + 1).filter(pred);
            proof {
                assert(paths@.to_multiset().len() == paths.len());
                assert(f.to_multiset().len() == f.len());
            }
            let keep = is_supported(entries[i].as_str());
            assert(keep == is_supported_path(entries@[i as int]@));
            assert(pred(entries@[i as int]) == is_supported_path(entries@[i as int]@));
            if keep {
                let p = entries[i].clone();
                assert(p == entries@[i as int]);
                let k = file_name_key(p.as_str());
                let mut pos: usize = 0;
                while pos < keys.len() && name_le_exec(&keys[pos], &k)
                    invariant
                        pos <= keys.len(),
                        forall|m: int|
                            0 <= m < pos ==> name_le(name_view(#[trigger] keys@[m]), name_view(k)),
                    decreases keys.len() - pos,
                {
                    pos = pos + 1;
                }
                proof {
                    assert forall|m: int| pos <= m < keys.len() implies name_le(
                        name_view(k),
                        name_view(#[trigger] keys@[m]),
                    ) by {
                        lemma_name_le_total(name_view(keys@[pos as int]), name_view(k));
                        if m > pos {
                            lemma_name_le_transitive(
                                name_view(k),
                                name_view(keys@[pos as int]),
                                name_view(keys@[m]),
                            );
                        }
                    }
                    lemma_insert_to_multiset(paths@, pos as int, p);
                    assert forall|m: int| pos <= m < keys.len() implies !name_le(
                        name_view(#[trigger] keys@[m]),
                        name_view(k),
                    ) by {
                        if name_le(name_view(keys@[m]), name_view(k)) && m > pos {
                            lemma_name_le_transitive(
                                name_view(keys@[pos as int]),
                                name_view(keys@[m]),
                                name_view(k),
                            );
                        }
                    }
                }
                let ghost old_origin = origin;
                proof {
                    origin = origin.insert(pos as int, f.len() as int);
                }
                let ghost old_keys = keys@;
                let ghost old_paths = paths@;
                keys.insert(pos, k);
                paths.insert(pos, p);
                proof {
                    assert forall|a: int, b: int| 0 <= a < b < keys.len() implies name_le(
                        name_view(#[trigger] keys@[a]),
                        name_view(#[trigger] keys@[b]),
                    ) by {
                        if b < pos {
                        } else if b == pos {
                            assert(keys@[a] == old_keys[a]);
                        } else if a < pos {
                            assert(keys@[b] == old_keys[b - 1]);
                            lemma_name_le_transitive(
                                name_view(keys@[a]),
                                name_view(k),
                                name_view(keys@[b]),
                            );
                        } else if a == pos {
                            assert(keys@[b] == old_keys[b - 1]);
                        } else {
                            assert(keys@[a] == old_keys[a - 1]);
                            assert(keys@[b] == old_keys[b - 1]);
                        }
                    }
                    assert(paths@.to_multiset() =~= before.to_multiset().insert(entries@[i as int]));
                    assert(entries@.take(i as int).filter(pred).push(entries@[i as int]).to_multiset()
                        =~= entries@.take(i as int).filter(pred).to_multiset().insert(entries@[i as int]));
                    assert(f2 == f.push(entries@[i as int]));
                    assert forall|m: int| 0 <= m < paths.len() implies 0 <= #[trigger] origin[m]
                        < paths.len() && paths@[m] == f2[origin[m]] by {
                        if m < pos {
                            assert(origin[m] == old_origin[m] && paths@[m] == old_paths[m]);
                        } else if m > pos {
                            assert(origin[m] == old_origin[m - 1] && paths@[m] == old_paths[m - 1]);
                        }
                    }
                    assert forall|a: int, b: int| 0 <= a < b < paths.len() implies #[trigger] origin[a]
                        != #[trigger] origin[b] by {
                        let oa = if a < pos { old_origin[a] } else if a == pos { f.len() as int } else { old_origin[a - 1] };
                        let ob = if b < pos { old_origin[b] } else if b == pos { f.len() as int } else { old_origin[b - 1] };
                        assert(origin[a] == oa);
                        assert(origin[b] == ob);
                        if a != pos && b != pos {
                            let a0 = if a < pos { a } else { a - 1 };
                            let b0 = if b < pos { b } else { b - 1 };
                            assert(a0 < b0);
                            assert(old_origin[a0] != old_origin[b0]);
                        }
                    }
                    assert forall|a: int, b: int|
                        0 <= a < b < keys.len() && name_le(
                            name_view(#[trigger] keys@[b]),
                            name_view(#[trigger] keys@[a]),
                        ) implies origin[a] < origin[b] by {
                        if b == pos {
                            assert(origin[a] == old_origin[a]);
                        } else if a == pos {
                            assert(keys@[b] == old_keys[b - 1]);
                            assert(!name_le(name_view(old_keys[b - 1]), name_view(k)));
                        } else {
                            let a0 = if a < pos { a } else { a - 1 };
                            let b0 = if b < pos { b } else { b - 1 };
                            assert(keys@[a] == old_keys[a0] && origin[a] == old_origin[a0]);
                            assert(keys@[b] == old_keys[b0] && origin[b] == old_origin[b0]);
                        }
                    }
                    assert forall|m: int| 0 <= m < keys.len() implies name_view(
                        #[trigger] keys@[m],
                    ) == spec_path_file_name(paths@[m]@) by {
                        if m < pos {
                            assert(keys@[m] == old_keys[m] && paths@[m] == old_paths[m]);
                        } else if m > pos {
                            assert(keys@[m] == old_keys[m - 1] && paths@[m] == old_paths[m - 1]);
                        }
                    }
                }
            } else {
                assert(!pred(entries@[i as int]));
                assert(f2 == f);
            }
        }
        assert(entries@.take(entries.len() as int) =~= entries@);
        assert(paths@.len() == supported_entries(entries@).len()) by {
            assert(paths@.to_multiset().len() == paths@.len());
            assert(supported_entries(entries@).to_multiset().len() == supported_entries(entries@).len());
        }
        if paths.len() == 0 {
            return None;
        }
        let mut current: usize = 0;
        if let Some(s) = start {
            let mut j: usize = 0;
            let mut found = false;
            while j < paths.len()
                invariant_except_break
                    !found,
                invariant
                    j <= paths.len(),
                    forall|m: int| 0 <= m < j ==> !spec_same_path(#[trigger] paths@[m]@, s@),
                    forall|m: int| 0 <= m < j ==> #[trigger] paths@[m]@ != s@,
                ensures
                    j <= paths.len(),
                    forall|m: int| 0 <= m < j ==> !spec_same_path(#[trigger] paths@[m]@, s@),
                    forall|m: int| 0 <= m < j ==> #[trigger] paths@[m]@ != s@,
                    found ==> j < paths.len() && spec_same_path(paths@[j as int]@, s@),
                    !found ==> j == paths.len(),
                decreases paths.len() - j,
            {
                if same_path(paths[j].as_str(), s) {
                    found = true;
                    break;
                }
                j = j + 1;
            }
            if found {
                current = j;
            }
        }
        let nav = Navigator { paths, current };
        proof {
            assert forall|a: int, b: int| 0 <= a < b < nav.paths@.len() implies name_le(
                spec_path_file_name(#[trigger] nav.paths@[a]@),
                spec_path_file_name(#[trigger] nav.paths@[b]@),
            ) by {
                assert(name_view(keys@[a]) == spec_path_file_name(nav.paths@[a]@));
                assert(name_view(keys@[b]) == spec_path_file_name(nav.paths@[b]@));
            }
            assert forall|a: int, b: int|
                0 <= a < b < nav.paths@.len() && name_le(
                    spec_path_file_name(#[trigger] nav.paths@[b]@),
                    spec_path_file_name(#[trigger] nav.paths@[a]@),
                ) implies origin[a] < origin[b] by {
                assert(name_view(keys@[a]) == spec_path_file_name(nav.paths@[a]@));
                assert(name_view(keys@[b]) == spec_path_file_name(nav.paths@[b]@));
            }
            assert(is_stable_arrangement(nav.paths@, supported_entries(entries@), origin));
            lemma_listed_paths_supported(nav.paths@, entries@);
        }
        Some(nav)
    }

    /// The cursor points at an entry of a non-empty list.
    pub open spec fn wf(&self) -> bool {
        self.current < self.paths.len()
    }

    /// Return the path of the currently selected image.
    pub fn current(&self) -> (r: &str)
        requires
            self.wf(),
        ensures
            r@ == self.paths@[self.current as int]@,
    {
        self.paths[self.current].as_str()
    }

    /// Advance to the next image, wrapping around to the first after the last.
    pub fn next(&mut self) -> (r: &str)
        requires
            old(self).wf(),
        ensures
            final(self).wf(),
            final(self).paths == old(self).paths,
            final(self).current == next_index(old(self).current as int, old(self).paths.len() as int),
            r@ == final(self).paths@[final(self).current as int]@,
    {
        self.current = (self.current + 1) % self.paths.len();
        self.paths[self.current].as_str()
    }

    /// Step back to the previous image, wrapping around to the last before
    /// the first.
    pub fn prev(&mut self) -> (r: &str)
        requires
            old(self).wf(),
        ensures
            final(self).wf(),
            final(self).paths == old(self).paths,
            final(self).current == prev_index(old(self).current as int, old(self).paths.len() as int),
            r@ == final(self).paths@[final(self).current as int]@,
    {
        self.current = match self.current.checked_sub(1) {
            Some(i) => i,
            None => self.paths.len() - 1,
        };
        self.paths[self.current].as_str()
    }

    /// Remove the current entry from the list and advance to the image that
    /// followed it, wrapping around to the first when the last was removed.
    /// Returns the new current path, or `None` if the list is now empty.
    pub fn remove_current(&mut self) -> (r: Option<&str>)
        requires
            old(self).wf(),
        ensures
            final(self).paths@ == old(self).paths@.remove(old(self).current as int),
            match r {
                None => final(self).paths.len() == 0 && final(self).current == old(self).current,
                Some(p) => {
                    &&& final(self).wf()
                    &&& final(self).current == if old(self).current < final(self).paths.len() {
                        old(self).current as int
                    } else {
                        0
                    }
                    &&& p@ == final(self).paths@[final(self).current as int]@
                },
            },
    {
        self.paths.remove(self.current);
        if self.paths.len() == 0 {
            return None;
        }
        if self.current >= self.paths.len() {
            self.current = 0;
        }
        Some(self.paths[self.current].as_str())
    }
}

/// The index reached from `i` after `k` steps forward in a list of `n`.
pub open spec fn advance(i: int, n: int, k: nat) -> int
    decreases k,
{
    if k == 0 {
        i
    } else {
        next_index(advance(i, n, (k - 1) as nat), n)
    }
}

/// Stepping forward then back, or back then forward, returns to the same
/// entry.
pub proof fn lemma_next_prev_inverse(i: int, n: int)
    requires
        0 <= i < n,
    ensures
        prev_index(next_index(i, n), n) == i,
        next_index(prev_index(i, n), n) == i,
        0 <= next_index(i, n) < n,
        0 <= prev_index(i, n) < n,
{
    if i + 1 < n {
        assert((i + 1) % n == i + 1) by (nonlinear_arith)
            requires
                0 <= i + 1 < n,
        ;
    } else {
        assert((i + 1) % n == 0) by (nonlinear_arith)
            requires
                i + 1 == n,
                n > 0,
        ;
    }
    if i == 0 {
        assert((n - 1 + 1) % n == 0) by (nonlinear_arith)
            requires
                n > 0,
        ;
    } else {
        assert((i - 1 + 1) % n == i) by (nonlinear_arith)
            requires
                0 < i < n,
        ;
    }
}

/// `k` steps forward from `i` reach `(i + k) mod n`; in particular `n`
/// steps come back to the start.
pub proof fn lemma_next_cycles(i: int, n: int, k: nat)
    requires
        0 <= i < n,
    ensures
        advance(i, n, k) == (i + k) % n,
        advance(i, n, n as nat) == i,
{
    lemma_advance_mod(i, n, k);
    lemma_advance_full(i, n);
}

proof fn lemma_advance_full(i: int, n: int)
    requires
        0 <= i < n,
    ensures
        advance(i, n, n as nat) == i,
{
    lemma_advance_mod(i, n, n as nat);
    assert((i + n) % n == i) by {
        vstd::arithmetic::div_mod::lemma_mod_add_multiples_vanish(i, n);
        vstd::arithmetic::div_mod::lemma_small_mod(i as nat, n as nat);
    }
}

proof fn lemma_advance_mod(i: int, n: int, k: nat)
    requires
        0 <= i < n,
    ensures
        advance(i, n, k) == (i + k) % n,
    decreases k,
{
    if k > 0 {
        lemma_advance_mod(i, n, (k - 1) as nat);
        assert(((i + k - 1) % n + 1) % n == (i + k) % n) by {
            vstd::arithmetic::div_mod::lemma_add_mod_noop(i + k - 1, 1, n);
            if n == 1 {
                assert(1int % 1 == 0);
            } else {
                vstd::arithmetic::div_mod::lemma_small_mod(1, n as nat);
            }
            vstd::arithmetic::div_mod::lemma_mod_twice(i + k - 1, n);
        }
    } else {
        vstd::arithmetic::div_mod::lemma_small_mod(i as nat, n as nat);
    }
}

/// A navigation list holds only supported images: every arrangement of
/// the supported entries of a directory listing does.
pub proof fn lemma_listed_paths_supported(out: Seq<String>, entries: Seq<String>)
    requires
        is_stable_sort_by_file_name(out, supported_entries(entries)),
    ensures
        all_supported(out),
{
    let input = supported_entries(entries);
    let origin = choose|origin: Seq<int>| is_stable_arrangement(out, input, origin);
    assert forall|k: int| 0 <= k < out.len() implies is_supported_path(#[trigger] out[k]@) by {
        entries.lemma_filter_pred(supported_pred(), origin[k]);
        assert(out[k] == input[origin[k]]);
    }
}

/// Deleting any entry keeps a navigation list sorted by file name and made
/// of supported images only.
pub proof fn lemma_remove_keeps_listing(paths: Seq<String>, i: int)
    requires
        sorted_by_file_name(paths),
        all_supported(paths),
        0 <= i < paths.len(),
    ensures
        sorted_by_file_name(paths.remove(i)),
        all_supported(paths.remove(i)),
{
    let r = paths.remove(i);
    assert forall|a: int, b: int| 0 <= a < b < r.len() implies name_le(
        spec_path_file_name(#[trigger] r[a]@),
        spec_path_file_name(#[trigger] r[b]@),
    ) by {
        let a0 = if a < i { a } else { a + 1 };
        let b0 = if b < i { b } else { b + 1 };
        assert(r[a] == paths[a0] && r[b] == paths[b0]);
        assert(name_le(spec_path_file_name(paths[a0]@), spec_path_file_name(paths[b0]@)));
    }
    assert forall|k: int| 0 <= k < r.len() implies is_supported_path(#[trigger] r[k]@) by {
        let k0 = if k < i { k } else { k + 1 };
        assert(r[k] == paths[k0]);
    }
}

/// In a navigation list, of two entries whose file names first differ at
/// position `i`, the earlier entry has the smaller character there: the
/// list is ordered by the whole file name, character by character.
pub proof fn lemma_sorted_by_whole_name(paths: Seq<String>, a: int, b: int, x: Seq<char>, y: Seq<char>, i: int)
    requires
        sorted_by_file_name(paths),
        0 <= a < b < paths.len(),
        spec_path_file_name(paths[a]@) == Some(x),
        spec_path_file_name(paths[b]@) == Some(y),
        0 <= i < x.len(),
        i < y.len(),
        forall|j: int| 0 <= j < i ==> x[j] == y[j],
        x[i] != y[i],
    ensures
        (x[i] as u32) < (y[i] as u32),
{
    assert(name_le(spec_path_file_name(paths[a]@), spec_path_file_name(paths[b]@)));
    crate::paths::lemma_lex_le_first_difference(x, y, i);
}

/// In a navigation list, an entry whose file name strictly follows
/// another's (the order holds one way only) comes after it.
pub proof fn lemma_sorted_strict(paths: Seq<String>, a: int, b: int)
    requires
        sorted_by_file_name(paths),
        0 <= a < paths.len(),
        0 <= b < paths.len(),
        spec_path_file_name(paths[a]@) != spec_path_file_name(paths[b]@),
        name_le(spec_path_file_name(paths[a]@), spec_path_file_name(paths[b]@)),
    ensures
        a < b,
{
    if b < a {
        assert(name_le(spec_path_file_name(paths[b]@), spec_path_file_name(paths[a]@)));
        crate::paths::lemma_name_le_antisymmetric(
            spec_path_file_name(paths[a]@),
            spec_path_file_name(paths[b]@),
        );
    } else if a == b {
    }
}

} // verus!
