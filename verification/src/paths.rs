//! Paths under the vault, as strings in Unix path syntax.
//!
//! `join_path` follows `PathBuf::push` on Unix: an absolute component
//! replaces the base; otherwise a `/` is inserted unless the base is empty
//! or already ends with one.

use vstd::prelude::*;

verus! {

pub open spec fn path_join(base: Seq<char>, component: Seq<char>) -> Seq<char> {
    if component.len() > 0 && component[0] == '/' {
        component
    } else if base.len() == 0 {
        component
    } else if base.last() == '/' {
        base + component
    } else {
        base + seq!['/'] + component
    }
}

/// `base` joined with `component`.
pub fn join_path(base: &str, component: &str) -> (r: String)
    ensures
        r@ == path_join(base@, component@),
{
    let cn = component.unicode_len();
    if cn > 0 && component.get_char(0) == '/' {
        return component.to_owned();
    }
    let bn = base.unicode_len();
    if bn == 0 {
        return component.to_owned();
    }
    let mut out = base.to_owned();
    if base.get_char(bn - 1) != '/' {
        crate::text::push_char(&mut out, '/');
    }
    out.append(component);
    out
}

/// The final component of a path, as `Path::file_name` gives it: trailing
/// `/` separators and trailing `.` components are set aside (path
/// components drop both), then the text after the last `/` is the name.
/// `None` when that text is empty, `.` or `..`.
pub open spec fn file_name(path: Seq<char>) -> Option<Seq<char>> {
    let trimmed = trim_trailing_slashes(path);
    let name = after_last_slash(trimmed);
    if name.len() == 0 || name == seq!['.'] || name == seq!['.', '.'] {
        None
    } else {
        Some(name)
    }
}

pub open spec fn trim_trailing_slashes(s: Seq<char>) -> Seq<char>
    decreases s.len(),
{
    if s.len() > 0 && s.last() == '/' {
        trim_trailing_slashes(s.drop_last())
    } else if s.len() >= 2 && s[s.len() - 2] == '/' && s.last() == '.' {
        trim_trailing_slashes(s.take(s.len() - 2))
    } else {
        s
    }
}

pub open spec fn after_last_slash(s: Seq<char>) -> Seq<char>
    decreases s.len(),
{
    if s.len() == 0 {
        s
    } else if s.last() == '/' {
        Seq::empty()
    } else {
        after_last_slash(s.drop_last()).push(s.last())
    }
}

/// `Path::file_stem`: the file name without its final extension; a name
/// that starts with `.` and has no other `.` is kept whole.
pub open spec fn file_stem(path: Seq<char>) -> Option<Seq<char>> {
    match file_name(path) {
        None => None,
        Some(name) => Some(stem_of(name)),
    }
}

/// Index of the last `.` in `s`, if any.
pub open spec fn last_dot(s: Seq<char>) -> Option<int>
    decreases s.len(),
{
    if s.len() == 0 {
        None
    } else if s.last() == '.' {
        Some(s.len() - 1)
    } else {
        last_dot(s.drop_last())
    }
}

pub open spec fn stem_of(name: Seq<char>) -> Seq<char> {
    match last_dot(name) {
        None => name,
        Some(i) => if i == 0 {
            name
        } else {
            name.take(i)
        },
    }
}

/// `Path::extension`: what follows the final `.` of the file name, unless
/// the only `.` is the first character.
pub open spec fn extension(path: Seq<char>) -> Option<Seq<char>> {
    match file_name(path) {
        None => None,
        Some(name) => match last_dot(name) {
            None => None,
            Some(i) => if i == 0 {
                None
            } else {
                Some(name.skip(i + 1))
            },
        },
    }
}

proof fn lemma_last_dot_bound(s: Seq<char>)
    ensures
        last_dot(s) matches Some(i) ==> 0 <= i < s.len() && s[i] == '.'
            && forall|j: int| i < j < s.len() ==> s[j] != '.',
        last_dot(s) is None ==> forall|j: int| 0 <= j < s.len() ==> s[j] != '.',
    decreases s.len(),
{
    if s.len() > 0 {
        lemma_last_dot_bound(s.drop_last());
        if s.last() != '.' {
            assert forall|j: int| 0 <= j < s.len() - 1 implies s[j] == s.drop_last()[j] by {}
        }
    }
}

proof fn lemma_after_last_slash(s: Seq<char>, k: int)
    requires
        -1 <= k < s.len(),
        k >= 0 ==> s[k] == '/',
        forall|j: int| k < j < s.len() ==> s[j] != '/',
    ensures
        after_last_slash(s) == s.skip(k + 1),
    decreases s.len(),
{
    if s.len() == 0 {
    } else if k == s.len() - 1 {
        assert(s.skip(k + 1) =~= Seq::<char>::empty());
    } else {
        lemma_after_last_slash(s.drop_last(), k);
        assert(s.drop_last().skip(k + 1).push(s.last()) =~= s.skip(k + 1));
    }
}

/// The file name of `path`, per `file_name`.
pub fn file_name_of(path: &str) -> (r: Option<String>)
    ensures
        match file_name(path@) {
            Some(n) => r is Some && r->Some_0@ == n,
            None => r is None,
        },
{
    let len = path.unicode_len();
    let mut end: usize = len;
    assert(path@.take(len as int) =~= path@);
    loop
        invariant
            end <= len,
            len == path@.len(),
            trim_trailing_slashes(path@) == trim_trailing_slashes(path@.take(end as int)),
        ensures
            end <= len,
            trim_trailing_slashes(path@) == path@.take(end as int),
        decreases end,
    {
        if end > 0 && path.get_char(end - 1) == '/' {
            assert(path@.take(end as int).drop_last() =~= path@.take(end - 1));
            end = end - 1;
        } else if end >= 2 && path.get_char(end - 2) == '/' && path.get_char(end - 1) == '.' {
            assert(path@.take(end as int).take(end - 2) =~= path@.take(end - 2));
            end = end - 2;
        } else {
            assert(trim_trailing_slashes(path@.take(end as int)) == path@.take(end as int));
            break;
        }
    }
    let ghost trimmed = path@.take(end as int);
    assert(trim_trailing_slashes(path@) == trimmed);
    let mut start: usize = end;
    while start > 0 && path.get_char(start - 1) != '/'
        invariant
            start <= end <= len,
            len == path@.len(),
            forall|j: int| start <= j < end ==> path@[j] != '/',
        decreases start,
    {
        start = start - 1;
    }
    proof {
        lemma_after_last_slash(trimmed, start - 1);
        assert(trimmed.skip(start as int) =~= path@.subrange(start as int, end as int));
    }
    let name = path.substring_char(start, end);
    let n = end - start;
    if n == 0 || (n == 1 && name.get_char(0) == '.') || (n == 2 && name.get_char(0) == '.' && name.get_char(1)
        == '.') {
        proof {
            if n == 1 {
                assert(name@ =~= seq!['.']);
            }
            if n == 2 {
                assert(name@ =~= seq!['.', '.']);
            }
        }
        return None;
    }
    proof {
        if n == 1 {
            assert(name@ != seq!['.']) by {
                if name@ == seq!['.'] {
                    assert(name@[0] == '.');
                }
            }
        }
        if n == 2 {
            assert(name@ != seq!['.', '.']) by {
                if name@ == seq!['.', '.'] {
                    assert(name@[0] == '.' && name@[1] == '.');
                }
            }
        }
    }
    Some(name.to_owned())
}

/// Position of the last `.` in `s`.
fn find_last_dot(s: &str) -> (r: Option<usize>)
    ensures
        match r {
            Some(k) => last_dot(s@) == Some(k as int),
            None => last_dot(s@) is None,
        },
{
    proof {
        lemma_last_dot_bound(s@);
    }
    let n = s.unicode_len();
    let mut i: usize = n;
    while i > 0
        invariant
            i <= n,
            n == s@.len(),
            forall|j: int| i <= j < n ==> s@[j] != '.',
        decreases i,
    {
        if s.get_char(i - 1) == '.' {
            proof {
                lemma_last_dot_unique(s@, i - 1);
            }
            return Some(i - 1);
        }
        i = i - 1;
    }
    proof {
        lemma_last_dot_none(s@);
    }
    None
}

proof fn lemma_last_dot_unique(s: Seq<char>, k: int)
    requires
        0 <= k < s.len(),
        s[k] == '.',
        forall|j: int| k < j < s.len() ==> s[j] != '.',
    ensures
        last_dot(s) == Some(k),
    decreases s.len(),
{
    if k < s.len() - 1 {
        lemma_last_dot_unique(s.drop_last(), k);
    }
}

proof fn lemma_last_dot_none(s: Seq<char>)
    requires
        forall|j: int| 0 <= j < s.len() ==> s[j] != '.',
    ensures
        last_dot(s) is None,
    decreases s.len(),
{
    if s.len() > 0 {
        lemma_last_dot_none(s.drop_last());
    }
}

/// `Path::file_stem` of `path`, per `file_stem`.
pub fn file_stem_of(path: &str) -> (r: Option<String>)
    ensures
        match file_stem(path@) {
            Some(n) => r is Some && r->Some_0@ == n,
            None => r is None,
        },
{
    let name = match file_name_of(path) {
        Some(n) => n,
        None => return None,
    };
    proof {
        lemma_last_dot_bound(name@);
    }
    let ghost nm = name@;
    assert(file_stem(path@) == Some(stem_of(nm)));
    let dot = find_last_dot(name.as_str());
    match dot {
        None => {
            assert(stem_of(nm) == nm);
            Some(name)
        },
        Some(i) => {
            if i == 0 {
                assert(stem_of(nm) == nm);
                Some(name)
            } else {
                assert(stem_of(nm) == nm.take(i as int));
                Some(name.as_str().substring_char(0, i).to_owned())
            }
        },
    }
}

/// `Path::extension` of `path`, per `extension`.
pub fn extension_of(path: &str) -> (r: Option<String>)
    ensures
        match extension(path@) {
            Some(n) => r is Some && r->Some_0@ == n,
            None => r is None,
        },
{
    let name = match file_name_of(path) {
        Some(n) => n,
        None => return None,
    };
    proof {
        lemma_last_dot_bound(name@);
    }
    match find_last_dot(name.as_str()) {
        None => None,
        Some(0) => None,
        Some(i) => {
            proof {
                lemma_last_dot_bound(name@);
            }
            let n = name.as_str().unicode_len();
            Some(name.as_str().substring_char(i + 1, n).to_owned())
        },
    }
}

/// A file named `stem.ext` joined under a non-empty directory has `stem` as
/// its file stem, when neither part holds a `/` and the extension holds no
/// `.`.
pub proof fn lemma_file_stem_of_join(dir: Seq<char>, stem: Seq<char>, ext: Seq<char>)
    requires
        dir.len() > 0,
        stem.len() > 0,
        ext.len() > 0,
        forall|j: int| 0 <= j < stem.len() ==> stem[j] != '/',
        forall|j: int| 0 <= j < ext.len() ==> ext[j] != '/' && ext[j] != '.',
    ensures
        file_stem(path_join(dir, stem + seq!['.'] + ext)) == Some(stem),
{
    let name = stem + seq!['.'] + ext;
    assert(forall|j: int| 0 <= j < name.len() ==> name[j] != '/') by {
        assert forall|j: int| 0 <= j < name.len() implies name[j] != '/' by {
            if j < stem.len() {
                assert(name[j] == stem[j]);
            } else if j > stem.len() {
                assert(name[j] == ext[j - stem.len() - 1]);
            }
        }
    }
    assert(name.last() == ext.last());
    let p = path_join(dir, name);
    let k: int = if dir.last() == '/' {
        dir.len() - 1
    } else {
        dir.len() as int
    };
    assert(p.skip(k + 1) =~= name);
    assert(p[k] == '/');
    assert forall|j: int| k < j < p.len() implies p[j] != '/' by {
        assert(p[j] == name[j - k - 1]);
    }
    assert(p.last() == name.last());
    assert(trim_trailing_slashes(p) == p);
    lemma_after_last_slash(p, k);
    assert(name.len() >= 3);
    assert(file_name(p) == Some(name));
    assert forall|j: int| stem.len() < j < name.len() implies name[j] != '.' by {
        assert(name[j] == ext[j - stem.len() - 1]);
    }
    lemma_last_dot_unique(name, stem.len() as int);
    assert(name.take(stem.len() as int) =~= stem);
}

} // verus!
