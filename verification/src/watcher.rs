//! Debouncing of filesystem events on the manifests directory.
//!
//! Events are coalesced per path: every event on a path pushes its
//! deadline to `now + DEBOUNCE`, and a path is acted on only once it has
//! been quiet until its deadline. After the quiet window the file is read
//! fresh, so the kind of event does not matter, only the final state of
//! the file. Instants are nanoseconds on a monotonic clock.

use vstd::prelude::*;

use crate::registry::{is_manifest_filename, manifest_filename};
use crate::text::{str_eq, string_views};

verus! {

/// Quiet window before a path is acted on: 150 ms.
pub const DEBOUNCE_NANOS: u128 = 150_000_000;

/// Wait when nothing is pending: one hour (any new event cuts it short).
pub const IDLE_SLEEP_NANOS: u128 = 3_600_000_000_000;

/// The parent of a path as `Path::parent` gives it: the path without its
/// final component; `None` for a root or an empty path.
pub uninterp spec fn path_parent(path: Seq<char>) -> Option<Seq<char>>;

/// Whether two paths are equal as `Path`s: component by component, so
/// that repeated and trailing separators and `.` components do not count.
pub uninterp spec fn paths_equal(a: Seq<char>, b: Seq<char>) -> bool;

/// Calls `std::path::Path::parent`. The claim: the result is
/// `path_parent(path)`. The parent of a UTF-8 path is UTF-8, so the text
/// conversion loses nothing.
#[verifier::external_body]
fn parent_of(path: &str) -> (r: Option<String>)
    ensures
        match r {
            Some(p) => path_parent(path@) == Some(p@),
            None => path_parent(path@) is None,
        },
{
    match std::path::Path::new(path).parent() {
        Some(p) => Some(p.to_string_lossy().into_owned()),
        None => None,
    }
}

/// Calls `PartialEq::eq` of `std::path::Path`. The claim: the result is
/// `paths_equal(a, b)`.
#[verifier::external_body]
fn path_eq(a: &str, b: &str) -> (r: bool)
    ensures
        r == paths_equal(a@, b@),
{
    std::path::Path::new(a) == std::path::Path::new(b)
}

/// Whether `path`'s parent directory is `dir`.
pub open spec fn parent_is(path: Seq<char>, dir: Seq<char>) -> bool {
    match path_parent(path) {
        Some(p) => paths_equal(p, dir),
        None => false,
    }
}

/// Whether `path`'s parent directory is `dir`.
pub fn path_parent_is(path: &str, dir: &str) -> (r: bool)
    ensures
        r == parent_is(path@, dir@),
{
    match parent_of(path) {
        Some(p) => path_eq(p.as_str(), dir),
        None => false,
    }
}

pub open spec fn entry_view(e: (String, u128)) -> (Seq<char>, u128) {
    (e.0@, e.1)
}

pub open spec fn pending_map(s: Seq<(Seq<char>, u128)>) -> Map<Seq<char>, u128>
    decreases s.len(),
{
    if s.len() == 0 {
        Map::empty()
    } else {
        pending_map(s.drop_last()).insert(s.last().0, s.last().1)
    }
}

pub open spec fn keys_unique(s: Seq<(Seq<char>, u128)>) -> bool {
    forall|i: int, j: int| 0 <= i < s.len() && 0 <= j < s.len() && i != j ==> s[i].0 != s[j].0
}

proof fn lemma_pending_dom(s: Seq<(Seq<char>, u128)>, k: Seq<char>)
    ensures
        pending_map(s).contains_key(k) <==> exists|i: int| 0 <= i < s.len() && s[i].0 == k,
    decreases s.len(),
{
    if s.len() > 0 {
        lemma_pending_dom(s.drop_last(), k);
        if pending_map(s.drop_last()).contains_key(k) {
            let i = choose|i: int| 0 <= i < s.drop_last().len() && s.drop_last()[i].0 == k;
            assert(s[i].0 == k);
        }
        if exists|i: int| 0 <= i < s.len() && s[i].0 == k {
            let i = choose|i: int| 0 <= i < s.len() && s[i].0 == k;
            if i < s.len() - 1 {
                assert(s.drop_last()[i].0 == k);
            }
        }
    }
}

proof fn lemma_pending_at(s: Seq<(Seq<char>, u128)>, i: int)
    requires
        keys_unique(s),
        0 <= i < s.len(),
    ensures
        pending_map(s).contains_key(s[i].0),
        pending_map(s)[s[i].0] == s[i].1,
    decreases s.len(),
{
    if i < s.len() - 1 {
        assert(keys_unique(s.drop_last()));
        lemma_pending_at(s.drop_last(), i);
        assert(s.drop_last()[i] == s[i]);
    }
}

proof fn lemma_pending_update(s: Seq<(Seq<char>, u128)>, i: int, e: (Seq<char>, u128))
    requires
        0 <= i < s.len(),
        keys_unique(s),
        e.0 == s[i].0,
    ensures
        pending_map(s.update(i, e)) =~= pending_map(s).insert(e.0, e.1),
        keys_unique(s.update(i, e)),
    decreases s.len(),
{
    let t = s.update(i, e);
    if i == s.len() - 1 {
        assert(t.drop_last() =~= s.drop_last());
    } else {
        assert(t.drop_last() =~= s.drop_last().update(i, e));
        assert(keys_unique(s.drop_last()));
        lemma_pending_update(s.drop_last(), i, e);
        assert(s.last().0 != e.0);
    }
}

proof fn lemma_pending_remove(s: Seq<(Seq<char>, u128)>, i: int)
    requires
        0 <= i < s.len(),
        keys_unique(s),
    ensures
        pending_map(s.remove(i)) =~= pending_map(s).remove(s[i].0),
        keys_unique(s.remove(i)),
    decreases s.len(),
{
    let t = s.remove(i);
    let k = s[i].0;
    assert(keys_unique(s.drop_last()));
    if i == s.len() - 1 {
        assert(t =~= s.drop_last());
        lemma_pending_dom(s.drop_last(), k);
        if pending_map(s.drop_last()).contains_key(k) {
            let j = choose|j: int| 0 <= j < s.drop_last().len() && s.drop_last()[j].0 == k;
            assert(s[j].0 == k);
        }
        assert(pending_map(s).remove(k) =~= pending_map(s.drop_last()));
    } else {
        assert(t.drop_last() =~= s.drop_last().remove(i));
        assert(t.last() == s.last());
        lemma_pending_remove(s.drop_last(), i);
        assert(s.last().0 != k);
    }
}

proof fn lemma_pending_push(s: Seq<(Seq<char>, u128)>, e: (Seq<char>, u128))
    requires
        keys_unique(s),
        !pending_map(s).contains_key(e.0),
    ensures
        pending_map(s.push(e)) == pending_map(s).insert(e.0, e.1),
        keys_unique(s.push(e)),
{
    assert(s.push(e).drop_last() =~= s);
    assert forall|j: int| 0 <= j < s.len() implies s[j].0 != e.0 by {
        lemma_pending_dom(s, e.0);
    }
}

/// Paths waiting out their quiet window, each with its deadline.
pub struct Pending {
    entries: Vec<(String, u128)>,
}

impl View for Pending {
    type V = Map<Seq<char>, u128>;

    closed spec fn view(&self) -> Map<Seq<char>, u128> {
        pending_map(self.entries@.map_values(|e: (String, u128)| entry_view(e)))
    }
}

impl Pending {
    pub closed spec fn wf(&self) -> bool {
        keys_unique(self.entries@.map_values(|e: (String, u128)| entry_view(e)))
    }

    pub fn new() -> (r: Pending)
        ensures
            r.wf(),
            r@ == Map::<Seq<char>, u128>::empty(),
    {
        let r = Pending { entries: Vec::new() };
        assert(r.entries@.map_values(|e: (String, u128)| entry_view(e)) =~= Seq::<(Seq<char>, u128)>::empty());
        r
    }

    /// Set the deadline of `path`, adding it when new.
    pub fn touch(&mut self, path: String, deadline: u128)
        requires
            old(self).wf(),
        ensures
            final(self).wf(),
            final(self)@ == old(self)@.insert(path@, deadline),
    {
        let ghost vs = self.entries@.map_values(|e: (String, u128)| entry_view(e));
        let mut i: usize = 0;
        while i < self.entries.len()
            invariant
                i <= self.entries@.len(),
                self.entries@ == old(self).entries@,
                vs == self.entries@.map_values(|e: (String, u128)| entry_view(e)),
                keys_unique(vs),
                forall|j: int| 0 <= j < i ==> vs[j].0 != path@,
            decreases self.entries@.len() - i,
        {
            if str_eq(self.entries[i].0.as_str(), path.as_str()) {
                proof {
                    lemma_pending_update(vs, i as int, (path@, deadline));
                }
                let ghost pv = path@;
                assert(vs[i as int].0 == pv);
                self.entries.set(i, (path, deadline));
                assert(self.entries@.map_values(|e: (String, u128)| entry_view(e)) =~= vs.update(i as int, (pv, deadline)));
                return;
            }
            i = i + 1;
        }
        proof {
            lemma_pending_dom(vs, path@);
            lemma_pending_push(vs, (path@, deadline));
        }
        let ghost pv = path@;
        self.entries.push((path, deadline));
        assert(self.entries@.map_values(|e: (String, u128)| entry_view(e)) =~= vs.push((pv, deadline)));
    }

    /// The earliest deadline.
    pub fn soonest(&self) -> (r: Option<u128>)
        requires
            self.wf(),
        ensures
            match r {
                None => self@.dom().is_empty(),
                Some(d) => (exists|k: Seq<char>| self@.contains_key(k) && self@[k] == d) && forall|k: Seq<char>|
                    self@.contains_key(k) ==> d <= #[trigger] self@[k],
            },
    {
        let ghost vs = self.entries@.map_values(|e: (String, u128)| entry_view(e));
        if self.entries.len() == 0 {
            proof {
                assert forall|k: Seq<char>| !self@.contains_key(k) by {
                    lemma_pending_dom(vs, k);
                }
                assert(self@.dom() =~= Set::<Seq<char>>::empty());
            }
            return None;
        }
        let mut best: u128 = self.entries[0].1;
        let mut at: usize = 0;
        let mut i: usize = 1;
        while i < self.entries.len()
            invariant
                1 <= i <= self.entries@.len(),
                at < i,
                vs == self.entries@.map_values(|e: (String, u128)| entry_view(e)),
                best == vs[at as int].1,
                forall|j: int| 0 <= j < i ==> best <= #[trigger] vs[j].1,
            decreases self.entries@.len() - i,
        {
            if self.entries[i].1 < best {
                best = self.entries[i].1;
                at = i;
            }
            i = i + 1;
        }
        proof {
            lemma_pending_at(vs, at as int);
            assert(self@.contains_key(vs[at as int].0) && self@[vs[at as int].0] == best);
            assert forall|k: Seq<char>| self@.contains_key(k) implies best <= #[trigger] self@[k] by {
                lemma_pending_dom(vs, k);
                let j = choose|j: int| 0 <= j < vs.len() && vs[j].0 == k;
                lemma_pending_at(vs, j);
            }
        }
        Some(best)
    }

    /// Take out every path whose deadline has passed at `now`.
    pub fn drain_ready(&mut self, now: u128) -> (r: Vec<String>)
        requires
            old(self).wf(),
        ensures
            final(self).wf(),
            forall|k: Seq<char>|
                #[trigger] final(self)@.contains_key(k) <==> old(self)@.contains_key(k) && old(self)@[k] > now,
            forall|k: Seq<char>| final(self)@.contains_key(k) ==> final(self)@[k] == old(self)@[k],
            forall|k: Seq<char>|
                string_views(r@).contains(k) <==> (old(self)@.contains_key(k) && old(self)@[k] <= now),
            forall|i: int, j: int| 0 <= i < j < r@.len() ==> (#[trigger] r@[i])@ != (#[trigger] r@[j])@,
    {
        let ghost start = self@;
        let mut ready: Vec<String> = Vec::new();
        let mut i: usize = 0;
        while i < self.entries.len()
            invariant
                self.wf(),
                i <= self.entries@.len(),
                forall|j: int| 0 <= j < i ==> #[trigger] self.entries@[j].1 > now,
                forall|k: Seq<char>| #[trigger] self@.contains_key(k) ==> start.contains_key(k) && self@[k] == start[k],
                forall|k: Seq<char>|
                    #[trigger] start.contains_key(k) ==> self@.contains_key(k) || string_views(ready@).contains(k),
                forall|k: Seq<char>|
                    #[trigger] string_views(ready@).contains(k) ==> start.contains_key(k) && start[k] <= now
                        && !self@.contains_key(k),
                forall|a: int, b: int| 0 <= a < b < ready@.len() ==> (#[trigger] ready@[a])@ != (#[trigger] ready@[b])@,
            decreases self.entries@.len() - i,
        {
            if self.entries[i].1 <= now {
                let ghost vs = self.entries@.map_values(|e: (String, u128)| entry_view(e));
                let ghost old_map = self@;
                proof {
                    lemma_pending_remove(vs, i as int);
                    lemma_pending_at(vs, i as int);
                }
                let ghost ki = vs[i as int].0;
                let (p, _) = self.entries.remove(i);
                assert(self.entries@.map_values(|e: (String, u128)| entry_view(e)) =~= vs.remove(i as int));
                assert(self@ == old_map.remove(ki));
                let ghost pv = p@;
                assert(pv == ki);
                let ghost rv = string_views(ready@);
                assert(!rv.contains(pv)) by {
                    if rv.contains(pv) {
                        assert(!old_map.contains_key(pv));
                    }
                }
                ready.push(p);
                assert(string_views(ready@) =~= rv.push(pv));
                proof {
                    assert forall|a: int, b: int| 0 <= a < b < ready@.len() implies (#[trigger] ready@[a])@
                        != (#[trigger] ready@[b])@ by {
                        if b == ready@.len() - 1 {
                            assert(rv[a] == ready@[a]@);
                        }
                    }
                    assert forall|k: Seq<char>| #[trigger] string_views(ready@).contains(k) implies start.contains_key(k)
                        && start[k] <= now && !self@.contains_key(k) by {
                        if k != pv {
                            assert(rv.contains(k)) by {
                                let j = choose|j: int| 0 <= j < rv.push(pv).len() && rv.push(pv)[j] == k;
                                assert(j < rv.len());
                                assert(rv[j] == k);
                            }
                        }
                    }
                    assert forall|k: Seq<char>| #[trigger] start.contains_key(k) implies self@.contains_key(k)
                        || string_views(ready@).contains(k) by {
                        if k == pv {
                            assert(rv.push(pv)[rv.len() as int] == k);
                        } else if rv.contains(k) {
                            let j = choose|j: int| 0 <= j < rv.len() && rv[j] == k;
                            assert(rv.push(pv)[j] == k);
                        }
                    }
                }
            } else {
                i = i + 1;
            }
        }
        proof {
            let vs = self.entries@.map_values(|e: (String, u128)| entry_view(e));
            assert forall|k: Seq<char>| #[trigger] self@.contains_key(k) implies self@[k] > now by {
                lemma_pending_dom(vs, k);
                let j = choose|j: int| 0 <= j < vs.len() && vs[j].0 == k;
                lemma_pending_at(vs, j);
                assert(self.entries@[j].1 > now);
            }
        }
        ready
    }
}

/// A filesystem event on the manifests directory: when the event kind is
/// one that can change a file (create, modify, remove), each listed path
/// that names a manifest directly inside the directory has its deadline
/// pushed to `now + DEBOUNCE`.
pub fn collect_paths(relevant: bool, paths: Vec<String>, manifests_dir: &str, now: u128, pending: &mut Pending)
    requires
        old(pending).wf(),
        now + DEBOUNCE_NANOS <= u128::MAX,
    ensures
        final(pending).wf(),
        !relevant ==> final(pending)@ == old(pending)@,
        relevant ==> forall|k: Seq<char>|
            #[trigger] final(pending)@.contains_key(k) <==> (old(pending)@.contains_key(k) || (string_views(paths@).contains(k) && manifest_filename(k) && parent_is(k, manifests_dir@))),
        relevant ==> forall|k: Seq<char>|
            #[trigger] final(pending)@.contains_key(k) ==> final(pending)@[k] == if string_views(paths@).contains(k)
                && manifest_filename(k) && parent_is(k, manifests_dir@) {
                (now + DEBOUNCE_NANOS) as u128
            } else {
                old(pending)@[k]
            },
{
    if !relevant {
        return;
    }
    let deadline = now + DEBOUNCE_NANOS;
    let ghost start = pending@;
    let ghost all = string_views(paths@);
    let ghost sel = |k: Seq<char>| manifest_filename(k) && parent_is(k, manifests_dir@);
    let mut paths = paths;
    let mut taken: usize = 0;
    let total = paths.len();
    while paths.len() > 0
        invariant
            pending.wf(),
            taken + paths@.len() == total,
            total == all.len(),
            sel == (|k: Seq<char>| manifest_filename(k) && parent_is(k, manifests_dir@)),
            string_views(paths@) == all.skip(taken as int),
            forall|k: Seq<char>|
                #[trigger] pending@.contains_key(k) <==> (start.contains_key(k) || (all.take(taken as int).contains(k)
                    && sel(k))),
            forall|k: Seq<char>|
                #[trigger] pending@.contains_key(k) ==> pending@[k] == if all.take(taken as int).contains(k) && sel(k) {
                    deadline
                } else {
                    start[k]
                },
        decreases paths@.len(),
    {
        let ghost before = paths@;
        let p = paths.remove(0);
        let ghost pv = p@;
        assert(pv == all[taken as int]) by {
            assert(string_views(before)[0] == before[0]@);
            assert(all.skip(taken as int)[0] == all[taken as int]);
        }
        assert(string_views(paths@) =~= all.skip(taken + 1)) by {
            assert(paths@ =~= before.skip(1));
            assert forall|j: int| 0 <= j < paths@.len() implies paths@[j]@ == all.skip(taken + 1)[j] by {
                assert(paths@[j] == before[j + 1]);
                assert(string_views(before)[j + 1] == before[j + 1]@);
            }
        }
        let ghost old_pending = pending@;
        let keep = is_manifest_filename(p.as_str()) && path_parent_is(p.as_str(), manifests_dir);
        assert(keep == sel(pv));
        if keep {
            pending.touch(p, deadline);
        }
        proof {
            assert(keep ==> pending@ == old_pending.insert(pv, deadline));
            assert(!keep ==> pending@ == old_pending);
            assert(all.take(taken + 1) =~= all.take(taken as int).push(pv));
            assert forall|k: Seq<char>| all.take(taken + 1).contains(k) <==> (all.take(taken as int).contains(k) || k
                == pv) by {
                if all.take(taken as int).contains(k) {
                    let j = choose|j: int| 0 <= j < all.take(taken as int).len() && all.take(taken as int)[j] == k;
                    assert(all.take(taken + 1)[j] == k);
                }
                if k == pv {
                    assert(all.take(taken + 1)[taken as int] == k);
                }
            }
            assert forall|k: Seq<char>| #[trigger] pending@.contains_key(k) <==> (start.contains_key(k) || (all.take(
                taken + 1,
            ).contains(k) && sel(k))) by {
                assert(old_pending.contains_key(k) <==> (start.contains_key(k) || (all.take(taken as int).contains(k)
                    && sel(k))));
                assert(all.take(taken + 1).contains(k) <==> (all.take(taken as int).contains(k) || k == pv));
            }
            assert forall|k: Seq<char>| #[trigger] pending@.contains_key(k) implies pending@[k] == if all.take(
                taken + 1,
            ).contains(k) && sel(k) {
                deadline
            } else {
                start[k]
            } by {
                assert(all.take(taken + 1).contains(k) <==> (all.take(taken as int).contains(k) || k == pv));
                if k != pv || !keep {
                    assert(old_pending.contains_key(k));
                    assert(old_pending[k] == if all.take(taken as int).contains(k) && sel(k) {
                        deadline
                    } else {
                        start[k]
                    });
                }
            }
        }
        taken = taken + 1;
    }
    assert(all.take(taken as int) =~= all);
}

/// How long to sleep before the next deadline can be due: until the
/// soonest deadline (zero if it has passed), or the idle sleep when
/// nothing is pending.
pub fn next_wait(pending: &Pending, now: u128) -> (r: u128)
    requires
        pending.wf(),
    ensures
        pending@.dom().is_empty() ==> r == IDLE_SLEEP_NANOS,
        !pending@.dom().is_empty() ==> exists|k: Seq<char>|
            pending@.contains_key(k) && r == (if pending@[k] > now {
                (pending@[k] - now) as u128
            } else {
                0
            }) && forall|j: Seq<char>| pending@.contains_key(j) ==> pending@[k] <= #[trigger] pending@[j],
{
    match pending.soonest() {
        None => IDLE_SLEEP_NANOS,
        Some(d) => if d > now {
            d - now
        } else {
            0
        },
    }
}

} // verus!
