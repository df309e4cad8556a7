use vstd::prelude::*;

verus! {

/// The required prefix of every capsule identifier.
pub open spec fn capsule_prefix() -> Seq<char> {
    seq!['c', 'a', 'p', '_']
}

/// Characters allowed in the suffix of a capsule identifier: ASCII digits
/// and lowercase ASCII letters.
pub open spec fn is_suffix_char(c: char) -> bool {
    ('0' <= c && c <= '9') || ('a' <= c && c <= 'z')
}

pub open spec fn has_capsule_prefix(s: Seq<char>) -> bool {
    s.len() >= 4 && s.take(4) == capsule_prefix()
}

/// The suffix after `cap_` is 1..=32 characters from `[0-9a-z]`.
pub open spec fn valid_suffix(suffix: Seq<char>) -> bool {
    &&& 1 <= suffix.len() <= 32
    &&& forall|i: int| 0 <= i < suffix.len() ==> #[trigger] is_suffix_char(suffix[i])
}

/// What `CapsuleId::new` decides for a raw string.
pub open spec fn capsule_id_check(s: Seq<char>) -> Result<(), CapsuleIdError> {
    if !has_capsule_prefix(s) {
        Err(CapsuleIdError::MissingPrefix)
    } else if !valid_suffix(s.skip(4)) {
        Err(CapsuleIdError::BadSuffix)
    } else {
        Ok(())
    }
}

/// A capsule id is accepted exactly when it is `cap_` followed by 1 to 32
/// characters, each an ASCII digit or a lowercase ASCII letter. Without the
/// `cap_` prefix the error is `MissingPrefix`; with it, `BadSuffix`.
pub proof fn lemma_capsule_id_accepts_exactly(raw: Seq<char>)
    ensures
        (capsule_id_check(raw) is Ok) <==> {
            &&& 5 <= raw.len() <= 36
            &&& raw[0] == 'c' && raw[1] == 'a' && raw[2] == 'p' && raw[3] == '_'
            &&& forall|i: int|
                4 <= i < raw.len() ==> ('0' <= #[trigger] raw[i] && raw[i] <= '9') || ('a' <= raw[i] && raw[i] <= 'z')
        },
        !(raw.len() >= 4 && raw[0] == 'c' && raw[1] == 'a' && raw[2] == 'p' && raw[3] == '_')
            ==> capsule_id_check(raw) == Err::<(), CapsuleIdError>(CapsuleIdError::MissingPrefix),
        (raw.len() >= 4 && raw[0] == 'c' && raw[1] == 'a' && raw[2] == 'p' && raw[3] == '_') && capsule_id_check(
            raw,
        ) is Err ==> capsule_id_check(raw) == Err::<(), CapsuleIdError>(CapsuleIdError::BadSuffix),
{
    if raw.len() >= 4 {
        let p = raw.take(4);
        assert(p[0] == raw[0] && p[1] == raw[1] && p[2] == raw[2] && p[3] == raw[3]);
        if raw[0] == 'c' && raw[1] == 'a' && raw[2] == 'p' && raw[3] == '_' {
            assert(p =~= capsule_prefix());
        }
    }
    let suffix = raw.skip(4);
    if has_capsule_prefix(raw) {
        if valid_suffix(suffix) {
            assert forall|i: int| 4 <= i < raw.len() implies ('0' <= #[trigger] raw[i] && raw[i] <= '9') || ('a'
                <= raw[i] && raw[i] <= 'z') by {
                assert(suffix[i - 4] == raw[i]);
                assert(is_suffix_char(suffix[i - 4]));
            }
        } else if 5 <= raw.len() <= 36 {
            let j = choose|j: int| 0 <= j < suffix.len() && !is_suffix_char(suffix[j]);
            assert(suffix[j] == raw[j + 4]);
        }
    }
}

pub open spec fn valid_capsule_id(s: Seq<char>) -> bool {
    capsule_id_check(s) is Ok
}

/// A capsule identifier, e.g. `cap_8f3a2b`.
///
/// Validation is strict: the prefix is required, and the suffix is a
/// non-empty alphanumeric (lowercase + digits) string of at most 32
/// characters. This rejects path-traversal and shell-special characters
/// when a `CapsuleId` is used to name a file on disk.
#[derive(Debug, PartialEq, Eq, Hash)]
pub struct CapsuleId(String);

impl Clone for CapsuleId {
    fn clone(&self) -> (r: CapsuleId)
        ensures
            r@ == self@,
    {
        self.duplicate()
    }
}

#[derive(Clone, Copy, Debug, PartialEq, Eq, Structural)]
pub enum CapsuleIdError {
    MissingPrefix,
    BadSuffix,
}

pub open spec fn id_error_message(e: CapsuleIdError) -> Seq<char> {
    match e {
        CapsuleIdError::MissingPrefix => "capsule_id must start with `cap_`"@,
        CapsuleIdError::BadSuffix => "capsule_id suffix must be 4-32 lowercase alphanumeric characters"@,
    }
}

impl CapsuleIdError {
    /// Human-readable description of the error.
    pub fn message(&self) -> (r: &'static str)
        ensures
            r@ == id_error_message(*self),
    {
        match self {
            CapsuleIdError::MissingPrefix => "capsule_id must start with `cap_`",
            CapsuleIdError::BadSuffix => "capsule_id suffix must be 4-32 lowercase alphanumeric characters",
        }
    }
}

impl View for CapsuleId {
    type V = Seq<char>;

    closed spec fn view(&self) -> Seq<char> {
        self.0@
    }
}

impl CapsuleId {
    /// Every capsule id passes the check it was made with.
    #[verifier::type_invariant]
    spec fn valid(self) -> bool {
        capsule_id_check(self.0@) is Ok
    }

    pub fn new(raw: &str) -> (r: Result<CapsuleId, CapsuleIdError>)
        ensures
            match capsule_id_check(raw@) {
                Ok(_) => r is Ok && r->Ok_0@ == raw@,
                Err(e) => r == Err::<CapsuleId, CapsuleIdError>(e),
            },
    {
        let n = raw.unicode_len();
        if n < 4 || raw.get_char(0) != 'c' || raw.get_char(1) != 'a' || raw.get_char(2) != 'p'
            || raw.get_char(3) != '_' {
            proof {
                if n >= 4 {
                    assert(raw@.take(4)[0] == raw@[0]);
                    assert(raw@.take(4)[1] == raw@[1]);
                    assert(raw@.take(4)[2] == raw@[2]);
                    assert(raw@.take(4)[3] == raw@[3]);
                }
            }
            return Err(CapsuleIdError::MissingPrefix);
        }
        assert(raw@.take(4) =~= capsule_prefix());
        let ghost suffix = raw@.skip(4);
        assert(suffix.len() == n - 4);
        if n == 4 || n > 36 {
            return Err(CapsuleIdError::BadSuffix);
        }
        let mut i: usize = 4;
        while i < n
            invariant
                4 <= i <= n,
                n == raw@.len(),
                n <= 36,
                suffix == raw@.skip(4),
                has_capsule_prefix(raw@),
                forall|j: int| 0 <= j < i - 4 ==> #[trigger] is_suffix_char(suffix[j]),
            decreases n - i,
        {
            let c = raw.get_char(i);
            if !(('0' <= c && c <= '9') || ('a' <= c && c <= 'z')) {
                assert(suffix[i - 4] == c);
                assert(!is_suffix_char(suffix[i - 4]));
                return Err(CapsuleIdError::BadSuffix);
            }
            i = i + 1;
        }
        Ok(CapsuleId(raw.to_owned()))
    }

    pub fn as_str(&self) -> (r: &str)
        ensures
            r@ == self@,
            capsule_id_check(r@) is Ok,
    {
        proof {
            use_type_invariant(self);
        }
        self.0.as_str()
    }

    /// A second handle on the same identifier.
    pub fn duplicate(&self) -> (r: CapsuleId)
        ensures
            r@ == self@,
    {
        proof {
            use_type_invariant(self);
        }
        CapsuleId(self.0.clone())
    }
}

#[derive(Clone, Copy, Debug, PartialEq, Eq, Structural)]
pub enum CapsuleStatus {
    Active,
    Paused,
    Draft,
    Archived,
}

impl CapsuleStatus {
    /// The lowercase name the manifest format uses.
    pub fn as_str(&self) -> (r: &'static str)
        ensures
            r@ == status_name(*self),
    {
        match self {
            CapsuleStatus::Active => {
                proof {
                    reveal_strlit("active");
                }
                "active"
            },
            CapsuleStatus::Paused => {
                proof {
                    reveal_strlit("paused");
                }
                "paused"
            },
            CapsuleStatus::Draft => {
                proof {
                    reveal_strlit("draft");
                }
                "draft"
            },
            CapsuleStatus::Archived => {
                proof {
                    reveal_strlit("archived");
                }
                "archived"
            },
        }
    }
}

pub open spec fn status_name(s: CapsuleStatus) -> Seq<char> {
    match s {
        CapsuleStatus::Active => seq!['a', 'c', 't', 'i', 'v', 'e'],
        CapsuleStatus::Paused => seq!['p', 'a', 'u', 's', 'e', 'd'],
        CapsuleStatus::Draft => seq!['d', 'r', 'a', 'f', 't'],
        CapsuleStatus::Archived => seq!['a', 'r', 'c', 'h', 'i', 'v', 'e', 'd'],
    }
}

#[derive(Clone, Copy, Debug, PartialEq, Eq, Structural)]
pub enum ComputationClass {
    A,
    B,
    C,
}

/// Machine-readable manifest written to `.capsule/manifests/{capsule_id}.json`.
/// The fields after `tags` mirror the "Computed Fields" zone of a capsule
/// note's frontmatter: the daemon owns them and the plugin reflects them
/// back into the note.
#[derive(Clone, Debug)]
pub struct Manifest {
    pub capsule_id: CapsuleId,
    pub schema: String,
    pub status: CapsuleStatus,
    pub floor_price: String,
    pub computation_classes: Vec<ComputationClass>,
    pub tags: Vec<String>,
    pub payload_cid: Option<String>,
    pub earnings_total: Option<String>,
    pub queries_served: Option<u64>,
    pub last_accessed: Option<String>,
}

pub struct ManifestView {
    pub capsule_id: Seq<char>,
    pub schema: Seq<char>,
    pub status: CapsuleStatus,
    pub floor_price: Seq<char>,
    pub computation_classes: Seq<ComputationClass>,
    pub tags: Seq<Seq<char>>,
    pub payload_cid: Option<Seq<char>>,
    pub earnings_total: Option<Seq<char>>,
    pub queries_served: Option<u64>,
    pub last_accessed: Option<Seq<char>>,
}

pub open spec fn opt_string_view(o: Option<String>) -> Option<Seq<char>> {
    match o {
        Some(s) => Some(s@),
        None => None,
    }
}

impl View for Manifest {
    type V = ManifestView;

    open spec fn view(&self) -> ManifestView {
        ManifestView {
            capsule_id: self.capsule_id@,
            schema: self.schema@,
            status: self.status,
            floor_price: self.floor_price@,
            computation_classes: self.computation_classes@,
            tags: self.tags@.map_values(|t: String| t@),
            payload_cid: opt_string_view(self.payload_cid),
            earnings_total: opt_string_view(self.earnings_total),
            queries_served: self.queries_served,
            last_accessed: opt_string_view(self.last_accessed),
        }
    }
}

fn duplicate_opt_string(o: &Option<String>) -> (r: Option<String>)
    ensures
        opt_string_view(r) == opt_string_view(*o),
{
    match o {
        Some(s) => Some(s.clone()),
        None => None,
    }
}

fn duplicate_strings(v: &Vec<String>) -> (r: Vec<String>)
    ensures
        r@.map_values(|t: String| t@) == v@.map_values(|t: String| t@),
{
    let mut out: Vec<String> = Vec::new();
    let mut i: usize = 0;
    while i < v.len()
        invariant
            i <= v@.len(),
            out@.len() == i,
            forall|k: int| 0 <= k < i ==> out@[k]@ == v@[k]@,
        decreases v@.len() - i,
    {
        out.push(v[i].clone());
        i = i + 1;
    }
    assert(out@.map_values(|t: String| t@) =~= v@.map_values(|t: String| t@));
    out
}

fn duplicate_classes(v: &Vec<ComputationClass>) -> (r: Vec<ComputationClass>)
    ensures
        r@ == v@,
{
    let mut out: Vec<ComputationClass> = Vec::new();
    let mut i: usize = 0;
    while i < v.len()
        invariant
            i <= v@.len(),
            out@ == v@.take(i as int),
        decreases v@.len() - i,
    {
        out.push(v[i]);
        i = i + 1;
        assert(out@ =~= v@.take(i as int));
    }
    assert(v@.take(i as int) =~= v@);
    out
}

impl Manifest {
    /// A copy with the same contents.
    pub fn duplicate(&self) -> (r: Manifest)
        ensures
            r@ == self@,
    {
        Manifest {
            capsule_id: self.capsule_id.duplicate(),
            schema: self.schema.clone(),
            status: self.status,
            floor_price: self.floor_price.clone(),
            computation_classes: duplicate_classes(&self.computation_classes),
            tags: duplicate_strings(&self.tags),
            payload_cid: duplicate_opt_string(&self.payload_cid),
            earnings_total: duplicate_opt_string(&self.earnings_total),
            queries_served: self.queries_served,
            last_accessed: duplicate_opt_string(&self.last_accessed),
        }
    }
}

} // verus!
