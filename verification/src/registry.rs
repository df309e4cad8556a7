//! In-memory index of capsule manifests, keyed by capsule id.
//!
//! The filesystem under `.capsule/manifests/` is the source of truth; the
//! registry is a cache rebuilt at boot and kept in sync by the watcher.

use vstd::prelude::*;

use crate::manifest::{CapsuleId, Manifest, ManifestView, capsule_id_check, is_suffix_char};
use crate::paths::{
    extension, extension_of, file_name, file_name_of, file_stem, file_stem_of, join_path, lemma_file_stem_of_join,
    path_join,
};

verus! {

/// The map a sequence of manifests stands for; a later entry with the same
/// id would win, but registries never hold two.
pub open spec fn map_of(s: Seq<ManifestView>) -> Map<Seq<char>, ManifestView>
    decreases s.len(),
{
    if s.len() == 0 {
        Map::empty()
    } else {
        map_of(s.drop_last()).insert(s.last().capsule_id, s.last())
    }
}

/// No two manifests share an id.
pub open spec fn ids_unique(s: Seq<ManifestView>) -> bool {
    forall|i: int, j: int| 0 <= i < s.len() && 0 <= j < s.len() && i != j ==> s[i].capsule_id != s[j].capsule_id
}

pub open spec fn views(v: Seq<Manifest>) -> Seq<ManifestView> {
    v.map_values(|m: Manifest| m@)
}

proof fn lemma_map_of_dom(s: Seq<ManifestView>, k: Seq<char>)
    ensures
        map_of(s).contains_key(k) <==> exists|i: int| 0 <= i < s.len() && s[i].capsule_id == k,
    decreases s.len(),
{
    if s.len() > 0 {
        lemma_map_of_dom(s.drop_last(), k);
        if map_of(s.drop_last()).contains_key(k) {
            let i = choose|i: int| 0 <= i < s.drop_last().len() && s.drop_last()[i].capsule_id == k;
            assert(s[i].capsule_id == k);
        }
        if exists|i: int| 0 <= i < s.len() && s[i].capsule_id == k {
            let i = choose|i: int| 0 <= i < s.len() && s[i].capsule_id == k;
            if i < s.len() - 1 {
                assert(s.drop_last()[i].capsule_id == k);
            }
        }
    }
}

proof fn lemma_map_of_at(s: Seq<ManifestView>, i: int)
    requires
        ids_unique(s),
        0 <= i < s.len(),
    ensures
        map_of(s).contains_key(s[i].capsule_id),
        map_of(s)[s[i].capsule_id] == s[i],
    decreases s.len(),
{
    if i < s.len() - 1 {
        assert(ids_unique(s.drop_last()));
        lemma_map_of_at(s.drop_last(), i);
        assert(s.drop_last()[i] == s[i]);
    }
}

proof fn lemma_map_of_keys(s: Seq<ManifestView>, k: Seq<char>)
    ensures
        map_of(s).contains_key(k) ==> map_of(s)[k].capsule_id == k,
    decreases s.len(),
{
    if s.len() > 0 {
        lemma_map_of_keys(s.drop_last(), k);
    }
}

proof fn lemma_map_of_len(s: Seq<ManifestView>)
    requires
        ids_unique(s),
    ensures
        map_of(s).dom().finite(),
        map_of(s).len() == s.len(),
    decreases s.len(),
{
    if s.len() > 0 {
        assert(ids_unique(s.drop_last()));
        lemma_map_of_len(s.drop_last());
        lemma_map_of_dom(s.drop_last(), s.last().capsule_id);
        if map_of(s.drop_last()).contains_key(s.last().capsule_id) {
            let i = choose|i: int| 0 <= i < s.drop_last().len() && s.drop_last()[i].capsule_id == s.last().capsule_id;
            assert(s[i].capsule_id == s[s.len() - 1].capsule_id);
        }
    }
}

proof fn lemma_map_of_update(s: Seq<ManifestView>, i: int, m: ManifestView)
    requires
        0 <= i < s.len(),
        ids_unique(s),
        m.capsule_id == s[i].capsule_id,
    ensures
        map_of(s.update(i, m)) =~= map_of(s).insert(m.capsule_id, m),
        ids_unique(s.update(i, m)),
    decreases s.len(),
{
    let t = s.update(i, m);
    if i == s.len() - 1 {
        assert(t.drop_last() =~= s.drop_last());
        lemma_map_of_dom(s.drop_last(), m.capsule_id);
        assert(map_of(s).insert(m.capsule_id, m) =~= map_of(s.drop_last()).insert(m.capsule_id, m));
    } else {
        assert(t.drop_last() =~= s.drop_last().update(i, m));
        assert(ids_unique(s.drop_last()));
        lemma_map_of_update(s.drop_last(), i, m);
        assert(s.last().capsule_id != m.capsule_id);
    }
}

proof fn lemma_map_of_remove(s: Seq<ManifestView>, i: int)
    requires
        0 <= i < s.len(),
        ids_unique(s),
    ensures
        map_of(s.remove(i)) =~= map_of(s).remove(s[i].capsule_id),
        ids_unique(s.remove(i)),
    decreases s.len(),
{
    let t = s.remove(i);
    let k = s[i].capsule_id;
    assert(ids_unique(s.drop_last()));
    if i == s.len() - 1 {
        assert(t =~= s.drop_last());
        lemma_map_of_dom(s.drop_last(), k);
        if map_of(s.drop_last()).contains_key(k) {
            let j = choose|j: int| 0 <= j < s.drop_last().len() && s.drop_last()[j].capsule_id == k;
            assert(s[j].capsule_id == k);
        }
        assert(map_of(s).remove(k) =~= map_of(s.drop_last()));
    } else {
        assert(t.drop_last() =~= s.drop_last().remove(i));
        assert(t.last() == s.last());
        lemma_map_of_remove(s.drop_last(), i);
        assert(s.last().capsule_id != k);
    }
}

proof fn lemma_map_of_push(s: Seq<ManifestView>, m: ManifestView)
    requires
        ids_unique(s),
        !map_of(s).contains_key(m.capsule_id),
    ensures
        map_of(s.push(m)) == map_of(s).insert(m.capsule_id, m),
        ids_unique(s.push(m)),
{
    assert(s.push(m).drop_last() =~= s);
    assert forall|j: int| 0 <= j < s.len() implies s[j].capsule_id != m.capsule_id by {
        lemma_map_of_dom(s, m.capsule_id);
    }
}

/// In-memory index of capsule manifests, keyed by capsule id.
pub struct Registry {
    entries: Vec<Manifest>,
}

impl View for Registry {
    type V = Map<Seq<char>, ManifestView>;

    closed spec fn view(&self) -> Map<Seq<char>, ManifestView> {
        map_of(views(self.entries@))
    }
}

impl Registry {
    /// Well-formed: no id appears twice.
    pub closed spec fn wf(&self) -> bool {
        ids_unique(views(self.entries@))
    }

    /// The registry holds finitely many manifests, each under its own id.
    pub proof fn lemma_view_facts(&self)
        requires
            self.wf(),
        ensures
            self@.dom().finite(),
            forall|k: Seq<char>| #[trigger] self@.contains_key(k) ==> self@[k].capsule_id == k,
    {
        lemma_map_of_len(views(self.entries@));
        assert forall|k: Seq<char>| #[trigger] self@.contains_key(k) implies self@[k].capsule_id == k by {
            lemma_map_of_keys(views(self.entries@), k);
        }
    }

    pub fn new() -> (r: Registry)
        ensures
            r.wf(),
            r@ == Map::<Seq<char>, ManifestView>::empty(),
    {
        let r = Registry { entries: Vec::new() };
        assert(views(r.entries@) =~= Seq::<ManifestView>::empty());
        r
    }

    /// Position of the entry with this id.
    fn position(&self, id: &str) -> (r: Option<usize>)
        requires
            self.wf(),
        ensures
            match r {
                Some(i) => i < self.entries@.len() && self.entries@[i as int]@.capsule_id == id@,
                None => !self@.contains_key(id@),
            },
    {
        let mut i: usize = 0;
        while i < self.entries.len()
            invariant
                i <= self.entries@.len(),
                forall|j: int| 0 <= j < i ==> self.entries@[j]@.capsule_id != id@,
            decreases self.entries@.len() - i,
        {
            if crate::text::str_eq(self.entries[i].capsule_id.as_str(), id) {
                return Some(i);
            }
            i = i + 1;
        }
        proof {
            lemma_map_of_dom(views(self.entries@), id@);
        }
        None
    }

    /// Insert or replace the manifest for its id.
    pub fn insert(&mut self, manifest: Manifest)
        requires
            old(self).wf(),
        ensures
            final(self).wf(),
            final(self)@ == old(self)@.insert(manifest@.capsule_id, manifest@),
            final(self)@.len() == old(self)@.len() + if old(self)@.contains_key(manifest@.capsule_id) {
                0int
            } else {
                1int
            },
    {
        let ghost m = manifest@;
        proof {
            lemma_map_of_len(views(self.entries@));
        }
        match self.position(manifest.capsule_id.as_str()) {
            Some(i) => {
                proof {
                    lemma_map_of_update(views(self.entries@), i as int, m);
                    lemma_map_of_at(views(self.entries@), i as int);
                }
                self.entries.set(i, manifest);
                assert(views(self.entries@) =~= views(old(self).entries@).update(i as int, m));
                proof {
                    lemma_map_of_len(views(self.entries@));
                }
            },
            None => {
                proof {
                    lemma_map_of_push(views(self.entries@), m);
                }
                self.entries.push(manifest);
                assert(views(self.entries@) =~= views(old(self).entries@).push(m));
                proof {
                    lemma_map_of_len(views(self.entries@));
                }
            },
        }
    }

    /// Remove and return the manifest for `id`, if there is one.
    pub fn remove(&mut self, id: &CapsuleId) -> (r: Option<Manifest>)
        requires
            old(self).wf(),
        ensures
            final(self).wf(),
            final(self)@ == old(self)@.remove(id@),
            final(self)@.len() + (if r is Some {
                1int
            } else {
                0int
            }) == old(self)@.len(),
            match r {
                Some(m) => old(self)@.contains_key(id@) && m@ == old(self)@[id@],
                None => !old(self)@.contains_key(id@),
            },
    {
        proof {
            lemma_map_of_len(views(self.entries@));
        }
        match self.position(id.as_str()) {
            Some(i) => {
                proof {
                    lemma_map_of_remove(views(self.entries@), i as int);
                    lemma_map_of_at(views(self.entries@), i as int);
                }
                let m = self.entries.remove(i);
                assert(views(self.entries@) =~= views(old(self).entries@).remove(i as int));
                proof {
                    lemma_map_of_len(views(self.entries@));
                }
                Some(m)
            },
            None => {
                assert(old(self)@.remove(id@) =~= old(self)@);
                None
            },
        }
    }

    /// A copy of the manifest for `id`, if there is one.
    pub fn get(&self, id: &CapsuleId) -> (r: Option<Manifest>)
        requires
            self.wf(),
        ensures
            match r {
                Some(m) => self@.contains_key(id@) && m@ == self@[id@],
                None => !self@.contains_key(id@),
            },
    {
        match self.position(id.as_str()) {
            Some(i) => {
                proof {
                    lemma_map_of_at(views(self.entries@), i as int);
                }
                Some(self.entries[i].duplicate())
            },
            None => None,
        }
    }

    /// A copy of the manifest whose id is `id`, if there is one.
    pub fn get_str(&self, id: &str) -> (r: Option<Manifest>)
        requires
            self.wf(),
        ensures
            match r {
                Some(m) => self@.contains_key(id@) && m@ == self@[id@],
                None => !self@.contains_key(id@),
            },
    {
        match self.position(id) {
            Some(i) => {
                proof {
                    lemma_map_of_at(views(self.entries@), i as int);
                }
                Some(self.entries[i].duplicate())
            },
            None => None,
        }
    }

    /// Copies of every manifest, each id once.
    pub fn list(&self) -> (r: Vec<Manifest>)
        requires
            self.wf(),
        ensures
            r@.len() == self@.len(),
            ids_unique(views(r@)),
            forall|i: int| 0 <= i < r@.len() ==> self@.contains_key(#[trigger] r@[i]@.capsule_id) && self@[r@[i]@.capsule_id]
                == r@[i]@,
            forall|k: Seq<char>| #[trigger] self@.contains_key(k) ==> exists|i: int| 0 <= i < r@.len() && r@[i]@.capsule_id == k,
    {
        let mut out: Vec<Manifest> = Vec::new();
        let mut i: usize = 0;
        while i < self.entries.len()
            invariant
                i <= self.entries@.len(),
                self.wf(),
                out@.len() == i,
                forall|k: int| 0 <= k < i ==> out@[k]@ == self.entries@[k]@,
            decreases self.entries@.len() - i,
        {
            out.push(self.entries[i].duplicate());
            i = i + 1;
        }
        proof {
            assert(views(out@) =~= views(self.entries@));
            lemma_map_of_len(views(self.entries@));
            assert forall|k: int| 0 <= k < out@.len() implies self@.contains_key(#[trigger] out@[k]@.capsule_id)
                && self@[out@[k]@.capsule_id] == out@[k]@ by {
                assert(views(out@)[k] == out@[k]@);
                lemma_map_of_at(views(self.entries@), k);
            }
            assert forall|k: Seq<char>| #[trigger] self@.contains_key(k) implies exists|i: int|
                0 <= i < out@.len() && out@[i]@.capsule_id == k by {
                lemma_map_of_dom(views(self.entries@), k);
                let i = choose|i: int| 0 <= i < views(self.entries@).len() && views(self.entries@)[i].capsule_id == k;
                assert(out@[i]@.capsule_id == k);
            }
        }
        out
    }

    pub fn len(&self) -> (r: usize)
        requires
            self.wf(),
        ensures
            r == self@.len(),
    {
        proof {
            lemma_map_of_len(views(self.entries@));
        }
        self.entries.len()
    }

    pub fn is_empty(&self) -> (r: bool)
        requires
            self.wf(),
        ensures
            r == (self@.len() == 0),
    {
        self.len() == 0
    }
}

pub open spec fn manifests_name() -> Seq<char> {
    seq!['m', 'a', 'n', 'i', 'f', 'e', 's', 't', 's']
}

pub open spec fn json_suffix() -> Seq<char> {
    seq!['.', 'j', 's', 'o', 'n']
}

pub open spec fn json_name() -> Seq<char> {
    seq!['j', 's', 'o', 'n']
}

/// `<capsule_dir>/manifests`.
pub fn manifests_dir(capsule_dir: &str) -> (r: String)
    ensures
        r@ == path_join(capsule_dir@, manifests_name()),
{
    let name = "manifests";
    proof {
        reveal_strlit("manifests");
    }
    join_path(capsule_dir, name)
}

/// Path where a manifest with this id lives.
pub fn manifest_path(capsule_dir: &str, id: &CapsuleId) -> (r: String)
    ensures
        r@ == path_join(path_join(capsule_dir@, manifests_name()), id@ + json_suffix()),
        file_stem(r@) == Some(id@),
{
    let dir = manifests_dir(capsule_dir);
    let idt = id.as_str();
    proof {
        lemma_manifest_path_names_capsule(capsule_dir@, id@);
    }
    let mut file = idt.to_owned();
    let ext = ".json";
    proof {
        reveal_strlit(".json");
    }
    file.append(ext);
    join_path(dir.as_str(), file.as_str())
}

/// A manifest's path names its capsule: the file stem of
/// `manifest_path(dir, id)` is `id`, so `capsule_id_from_path` gives the id
/// back.
pub proof fn lemma_manifest_path_names_capsule(capsule_dir: Seq<char>, id: Seq<char>)
    requires
        capsule_id_check(id) is Ok,
    ensures
        file_stem(path_join(path_join(capsule_dir, manifests_name()), id + json_suffix())) == Some(id),
{
    let dir = path_join(capsule_dir, manifests_name());
    assert(dir.len() > 0);
    assert forall|j: int| 0 <= j < id.len() implies id[j] != '/' by {
        if j < 4 {
            assert(id.take(4)[j] == id[j]);
        } else {
            assert(id.skip(4)[j - 4] == id[j]);
            assert(is_suffix_char(id.skip(4)[j - 4]));
        }
    }
    assert(id + json_suffix() =~= id + seq!['.'] + json_name());
    lemma_file_stem_of_join(dir, id, json_name());
}

/// The capsule id named by a path's file stem, if it is one.
pub fn capsule_id_from_path(path: &str) -> (r: Option<CapsuleId>)
    ensures
        match file_stem(path@) {
            Some(stem) => match capsule_id_check(stem) {
                Ok(_) => r is Some && r->Some_0@ == stem,
                Err(_) => r is None,
            },
            None => r is None,
        },
{
    let stem = file_stem_of(path)?;
    match CapsuleId::new(stem.as_str()) {
        Ok(id) => Some(id),
        Err(_) => None,
    }
}

/// The path's extension is `json`.
pub fn has_json_extension(path: &str) -> (r: bool)
    ensures
        r == (extension(path@) == Some(json_name())),
{
    match extension_of(path) {
        Some(ext) => {
            let json = "json";
            proof {
                reveal_strlit("json");
                assert(json@ =~= json_name());
            }
            crate::text::str_eq(ext.as_str(), json)
        },
        None => false,
    }
}

/// A file the watcher treats as a manifest: the name ends in `.json` and
/// is not hidden (macOS AppleDouble side-cars start with `._`; editors'
/// atomic-write temp files end in `.tmp`).
pub open spec fn manifest_filename(path: Seq<char>) -> bool {
    match file_name(path) {
        Some(name) => name[0] != '.' && extension(path) == Some(json_name()),
        None => false,
    }
}

pub fn is_manifest_filename(path: &str) -> (r: bool)
    ensures
        r == manifest_filename(path@),
{
    match file_name_of(path) {
        Some(name) => {
            if name.as_str().get_char(0) == '.' {
                return false;
            }
            has_json_extension(path)
        },
        None => false,
    }
}

#[verifier::external_type_specification]
#[verifier::external_body]
pub struct ExJsonError(serde_json::Error);

/// Why a manifest file did not load.
#[derive(Debug)]
pub enum ManifestLoadError {
    Io(std::io::Error),
    /// The JSON did not parse into a manifest.
    Parse(serde_json::Error),
    /// The file ended before the JSON did: a writer is still mid-write.
    PartialFile,
    BadFilename,
    FilenameMismatch { expected: String, found: String },
}

/// Defense in depth: a manifest is accepted only from the file its id
/// names, so a manifest with id `cap_a` is never served from `cap_b.json`.
pub fn check_manifest_filename(path: &str, manifest: Manifest) -> (r: Result<Manifest, ManifestLoadError>)
    ensures
        match file_stem(path@) {
            None => r matches Err(ManifestLoadError::BadFilename),
            Some(stem) => if stem == manifest@.capsule_id {
                r is Ok && r->Ok_0@ == manifest@
            } else {
                r matches Err(ManifestLoadError::FilenameMismatch { expected, found }) && expected@
                    == manifest@.capsule_id && found@ == stem
            },
        },
{
    let stem = match file_stem_of(path) {
        Some(s) => s,
        None => return Err(ManifestLoadError::BadFilename),
    };
    if !crate::text::str_eq(stem.as_str(), manifest.capsule_id.as_str()) {
        return Err(
            ManifestLoadError::FilenameMismatch { expected: manifest.capsule_id.as_str().to_owned(), found: stem },
        );
    }
    Ok(manifest)
}

/// Register each manifest that loaded; skip the ones that did not. Returns
/// how many were registered.
pub fn register_loaded(registry: &mut Registry, loaded: Vec<Result<Manifest, ManifestLoadError>>) -> (r: usize)
    requires
        old(registry).wf(),
    ensures
        final(registry).wf(),
        r == ok_count(loaded@),
        final(registry)@ == insert_all(old(registry)@, loaded@),
{
    let mut loaded = loaded;
    let ghost all = loaded@;
    let ghost start = registry@;
    let total = loaded.len();
    assert(all.len() == total);
    let mut count: usize = 0;
    while loaded.len() > 0
        invariant
            registry.wf(),
            loaded@.len() <= all.len(),
            all.len() <= usize::MAX,
            loaded@ == all.skip(all.len() - loaded@.len()),
            count == ok_count(all.take(all.len() - loaded@.len())),
            count <= all.len() - loaded@.len(),
            registry@ == insert_all(start, all.take(all.len() - loaded@.len())),
        decreases loaded@.len(),
    {
        let ghost done = all.len() - loaded@.len();
        let item = loaded.remove(0);
        assert(item == all[done]);
        proof {
            lemma_prefix_step(all, done);
        }
        match item {
            Ok(m) => {
                registry.insert(m);
                count = count + 1;
            },
            Err(_) => {},
        }
        assert(loaded@ =~= all.skip(all.len() - loaded@.len()));
    }
    assert(all.take(all.len() as int) =~= all);
    count
}

/// How many results are `Ok`.
pub open spec fn ok_count(s: Seq<Result<Manifest, ManifestLoadError>>) -> nat
    decreases s.len(),
{
    if s.len() == 0 {
        0
    } else {
        ok_count(s.drop_last()) + if s.last() is Ok {
            1nat
        } else {
            0nat
        }
    }
}

/// The registry after inserting each loaded manifest in order.
pub open spec fn insert_all(m: Map<Seq<char>, ManifestView>, s: Seq<Result<Manifest, ManifestLoadError>>) -> Map<
    Seq<char>,
    ManifestView,
>
    decreases s.len(),
{
    if s.len() == 0 {
        m
    } else {
        let before = insert_all(m, s.drop_last());
        match s.last() {
            Ok(x) => before.insert(x@.capsule_id, x@),
            Err(_) => before,
        }
    }
}

proof fn lemma_prefix_step(all: Seq<Result<Manifest, ManifestLoadError>>, done: int)
    requires
        0 <= done < all.len(),
    ensures
        all.take(done + 1).drop_last() == all.take(done),
        all.take(done + 1).last() == all[done],
{
    assert(all.take(done + 1).drop_last() =~= all.take(done));
}

/// The registry after the watcher finds `path` gone: the capsule the file
/// name gives is dropped, when the name is a capsule id.
pub open spec fn removed(reg: Map<Seq<char>, ManifestView>, path: Seq<char>) -> Map<Seq<char>, ManifestView> {
    match file_stem(path) {
        Some(stem) => if capsule_id_check(stem) is Ok {
            reg.remove(stem)
        } else {
            reg
        },
        None => reg,
    }
}

/// What re-reading a manifest file gave: its manifest, or nothing usable.
pub open spec fn loaded_view(loaded: Result<Manifest, ManifestLoadError>) -> Option<ManifestView> {
    match loaded {
        Ok(m) => Some(m@),
        Err(_) => None,
    }
}

/// The registry after the watcher re-reads a file that is present: the
/// manifest it loaded as is registered under its id; a file that did not
/// load changes nothing.
pub open spec fn upserted(reg: Map<Seq<char>, ManifestView>, state: Option<ManifestView>) -> Map<
    Seq<char>,
    ManifestView,
> {
    match state {
        Some(m) => reg.insert(m.capsule_id, m),
        None => reg,
    }
}

/// Once a manifest file has settled and loads, the registry's entry for its
/// capsule is that manifest, whatever the registry held before and whatever
/// events came first: the entry depends only on the file's final contents.
/// (`check_manifest_filename` admits a manifest only from the file its id
/// names, so the id is the file's stem.)
pub proof fn lemma_loaded_file_decides_entry(
    a: Map<Seq<char>, ManifestView>,
    b: Map<Seq<char>, ManifestView>,
    m: ManifestView,
)
    ensures
        upserted(a, Some(m)).contains_key(m.capsule_id),
        upserted(a, Some(m))[m.capsule_id] == m,
        upserted(a, Some(m))[m.capsule_id] == upserted(b, Some(m))[m.capsule_id],
{
}

/// Once a manifest file is gone, the registry holds no entry for the
/// capsule its name gives, whatever it held before.
pub proof fn lemma_gone_file_decides_entry(
    a: Map<Seq<char>, ManifestView>,
    b: Map<Seq<char>, ManifestView>,
    path: Seq<char>,
    stem: Seq<char>,
)
    requires
        file_stem(path) == Some(stem),
        capsule_id_check(stem) is Ok,
    ensures
        !removed(a, path).contains_key(stem),
        !removed(b, path).contains_key(stem),
{
}

/// The watcher saw `path` disappear: drop its capsule, if its name is a
/// capsule id. Returns the manifest that was removed.
pub fn handle_removal(path: &str, registry: &mut Registry) -> (r: Option<Manifest>)
    requires
        old(registry).wf(),
    ensures
        final(registry).wf(),
        final(registry)@ == removed(old(registry)@, path@),
        match file_stem(path@) {
            Some(stem) => if capsule_id_check(stem) is Ok {
                &&& final(registry)@ == old(registry)@.remove(stem)
                &&& match r {
                    Some(m) => old(registry)@.contains_key(stem) && m@ == old(registry)@[stem],
                    None => !old(registry)@.contains_key(stem),
                }
            } else {
                final(registry)@ == old(registry)@ && r is None
            },
            None => final(registry)@ == old(registry)@ && r is None,
        },
{
    let id = match capsule_id_from_path(path) {
        Some(id) => id,
        None => return None,
    };
    registry.remove(&id)
}

/// What the watcher does with a manifest file it re-read after the quiet
/// window.
pub enum UpsertOutcome {
    Registered,
    /// The writer was not done; a later event retries.
    Partial,
    Failed(ManifestLoadError),
}

/// The watcher re-read a manifest file: register it when it loaded.
pub fn handle_upsert(loaded: Result<Manifest, ManifestLoadError>, registry: &mut Registry) -> (r: UpsertOutcome)
    requires
        old(registry).wf(),
    ensures
        final(registry).wf(),
        final(registry)@ == upserted(old(registry)@, loaded_view(loaded)),
        match loaded {
            Ok(m) => final(registry)@ == old(registry)@.insert(m@.capsule_id, m@) && r is Registered,
            Err(ManifestLoadError::PartialFile) => final(registry)@ == old(registry)@ && r is Partial,
            Err(_) => final(registry)@ == old(registry)@ && r is Failed,
        },
{
    match loaded {
        Ok(m) => {
            registry.insert(m);
            UpsertOutcome::Registered
        },
        Err(ManifestLoadError::PartialFile) => UpsertOutcome::Partial,
        Err(e) => UpsertOutcome::Failed(e),
    }
}

} // verus!
