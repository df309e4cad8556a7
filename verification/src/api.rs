//! What the public (agent-facing) and management (plugin-facing) HTTP
//! surfaces answer, computed from the registry and the keyring state.

use vstd::prelude::*;

use crate::clock::{is_quotable_instant, now_unix_nanos, payment_expiry, payment_expiry_at, quotable_instant, representable_nanos};
use crate::manifest::{CapsuleId, CapsuleStatus, ComputationClass, Manifest, ManifestView, capsule_id_check};
use crate::order::{lemma_lt_asymmetric, lemma_lt_irreflexive, lemma_lt_total, lemma_lt_transitive, seq_lt, str_lt};
use crate::registry::Registry;
use crate::text::{
    first_word, first_word_of, first_word_start, is_whitespace_char, lemma_first_word_nonempty, lemma_first_word_shape,
    str_eq, string_views,
};

verus! {

/// Strictly increasing: sorted, and no string twice.
pub open spec fn sorted_strict(s: Seq<Seq<char>>) -> bool {
    forall|i: int, j: int| 0 <= i < j < s.len() ==> seq_lt(#[trigger] s[i], #[trigger] s[j])
}

/// Insert `x` into a strictly increasing list of strings, unless it is
/// already there.
pub fn sorted_insert(v: &mut Vec<String>, x: String)
    requires
        sorted_strict(string_views(old(v)@)),
    ensures
        sorted_strict(string_views(final(v)@)),
        forall|y: Seq<char>| #[trigger] string_views(final(v)@).contains(y) <==> (string_views(old(v)@).contains(y) || y == x@),
{
    let ghost old_views = string_views(v@);
    let mut pos: usize = 0;
    while pos < v.len() && str_lt(v[pos].as_str(), x.as_str())
        invariant
            pos <= v@.len(),
            v@ == old(v)@,
            old_views == string_views(v@),
            forall|k: int| 0 <= k < pos ==> seq_lt(#[trigger] old_views[k], x@),
        decreases v@.len() - pos,
    {
        pos = pos + 1;
    }
    if pos < v.len() && str_eq(v[pos].as_str(), x.as_str()) {
        assert(old_views[pos as int] == x@);
        assert forall|y: Seq<char>| #[trigger] string_views(v@).contains(y) <==> (old_views.contains(y) || y == x@) by {
            if y == x@ {
                assert(old_views[pos as int] == y);
            }
        }
        return;
    }
    // Everything from `pos` on sorts after `x`.
    proof {
        if pos < v@.len() {
            lemma_lt_total(old_views[pos as int], x@);
            lemma_lt_asymmetric(old_views[pos as int], x@);
            assert(seq_lt(x@, old_views[pos as int]));
            assert forall|k: int| pos <= k < old_views.len() implies seq_lt(x@, #[trigger] old_views[k]) by {
                if k > pos {
                    lemma_lt_transitive(x@, old_views[pos as int], old_views[k]);
                }
            }
        }
    }
    let ghost xv = x@;
    v.insert(pos, x);
    let ghost nv = string_views(v@);
    assert(nv =~= old_views.insert(pos as int, xv));
    assert forall|i: int, j: int| 0 <= i < j < nv.len() implies seq_lt(#[trigger] nv[i], #[trigger] nv[j]) by {
        if j < pos {
            assert(nv[i] == old_views[i] && nv[j] == old_views[j]);
        } else if j == pos {
            assert(nv[i] == old_views[i]);
        } else if i < pos {
            assert(nv[i] == old_views[i] && nv[j] == old_views[j - 1]);
            lemma_lt_transitive(old_views[i], xv, old_views[j - 1]);
        } else if i == pos {
            assert(nv[j] == old_views[j - 1]);
        } else {
            assert(nv[i] == old_views[i - 1] && nv[j] == old_views[j - 1]);
        }
    }
    assert forall|y: Seq<char>| #[trigger] nv.contains(y) <==> (old_views.contains(y) || y == xv) by {
        if old_views.contains(y) {
            let k = choose|k: int| 0 <= k < old_views.len() && old_views[k] == y;
            if k < pos {
                assert(nv[k] == y);
            } else {
                assert(nv[k + 1] == y);
            }
        }
        if y == xv {
            assert(nv[pos as int] == y);
        }
    }
}

/// The manifest fields the capsule listings show.
pub struct CapsuleSummary {
    pub capsule_id: String,
    pub schema: String,
    pub status: CapsuleStatus,
    pub floor_price: String,
    pub computation_classes: Vec<ComputationClass>,
    pub tags: Vec<String>,
}

pub struct SummaryView {
    pub capsule_id: Seq<char>,
    pub schema: Seq<char>,
    pub status: CapsuleStatus,
    pub floor_price: Seq<char>,
    pub computation_classes: Seq<ComputationClass>,
    pub tags: Seq<Seq<char>>,
}

impl View for CapsuleSummary {
    type V = SummaryView;

    open spec fn view(&self) -> SummaryView {
        SummaryView {
            capsule_id: self.capsule_id@,
            schema: self.schema@,
            status: self.status,
            floor_price: self.floor_price@,
            computation_classes: self.computation_classes@,
            tags: self.tags@.map_values(|t: String| t@),
        }
    }
}

pub open spec fn summary_of(m: ManifestView) -> SummaryView {
    SummaryView {
        capsule_id: m.capsule_id,
        schema: m.schema,
        status: m.status,
        floor_price: m.floor_price,
        computation_classes: m.computation_classes,
        tags: m.tags,
    }
}

impl CapsuleSummary {
    pub fn from_manifest(m: Manifest) -> (r: CapsuleSummary)
        ensures
            r@ == summary_of(m@),
    {
        CapsuleSummary {
            capsule_id: m.capsule_id.as_str().to_owned(),
            schema: m.schema,
            status: m.status,
            floor_price: m.floor_price,
            computation_classes: m.computation_classes,
            tags: m.tags,
        }
    }
}

/// A listing: one summary per selected capsule, ordered by capsule id.
pub open spec fn is_listing(
    registry: Map<Seq<char>, ManifestView>,
    selected: spec_fn(ManifestView) -> bool,
    out: Seq<SummaryView>,
) -> bool {
    &&& sorted_strict(out.map_values(|s: SummaryView| s.capsule_id))
    &&& forall|i: int|
        0 <= i < out.len() ==> {
            &&& registry.contains_key(#[trigger] out[i].capsule_id)
            &&& selected(registry[out[i].capsule_id])
            &&& out[i] == summary_of(registry[out[i].capsule_id])
        }
    &&& forall|k: Seq<char>|
        #[trigger] registry.contains_key(k) && selected(registry[k]) ==> exists|i: int|
            0 <= i < out.len() && out[i].capsule_id == k
}

pub open spec fn summary_views(v: Seq<CapsuleSummary>) -> Seq<SummaryView> {
    v.map_values(|s: CapsuleSummary| s@)
}

fn listing(registry: &Registry, active_only: bool) -> (r: Vec<CapsuleSummary>)
    requires
        registry.wf(),
    ensures
        is_listing(
            registry@,
            |m: ManifestView| !active_only || m.status == CapsuleStatus::Active,
            summary_views(r@),
        ),
{
    let ghost sel = |m: ManifestView| !active_only || m.status == CapsuleStatus::Active;
    let all = registry.list();
    let mut ids: Vec<String> = Vec::new();
    let mut i: usize = 0;
    while i < all.len()
        invariant
            i <= all@.len(),
            registry.wf(),
            sel == (|m: ManifestView| !active_only || m.status == CapsuleStatus::Active),
            sorted_strict(string_views(ids@)),
            forall|k: int|
                0 <= k < all@.len() ==> registry@.contains_key(#[trigger] all@[k]@.capsule_id)
                    && registry@[all@[k]@.capsule_id] == all@[k]@,
            forall|y: Seq<char>|
                #[trigger] string_views(ids@).contains(y) <==> exists|k: int|
                    0 <= k < i && all@[k]@.capsule_id == y && sel(all@[k]@),
        decreases all@.len() - i,
    {
        let keep = !active_only || all[i].status == CapsuleStatus::Active;
        assert(keep == sel(all@[i as int]@));
        let ghost before = string_views(ids@);
        let ghost id_i = all@[i as int]@.capsule_id;
        if keep {
            sorted_insert(&mut ids, all[i].capsule_id.as_str().to_owned());
        }
        assert forall|y: Seq<char>| #[trigger] string_views(ids@).contains(y) <==> exists|k: int|
            0 <= k < i + 1 && all@[k]@.capsule_id == y && sel(all@[k]@) by {
            if exists|k: int| 0 <= k < i + 1 && all@[k]@.capsule_id == y && sel(all@[k]@) {
                let k = choose|k: int| 0 <= k < i + 1 && all@[k]@.capsule_id == y && sel(all@[k]@);
                if k < i {
                    assert(before.contains(y));
                } else {
                    assert(keep && y == id_i);
                }
            }
            if string_views(ids@).contains(y) {
                if keep && y == id_i {
                    assert(0 <= i < i + 1 && all@[i as int]@.capsule_id == y && sel(all@[i as int]@));
                } else {
                    assert(before.contains(y));
                    let k = choose|k: int| 0 <= k < i && all@[k]@.capsule_id == y && sel(all@[k]@);
                    assert(0 <= k < i + 1 && all@[k]@.capsule_id == y && sel(all@[k]@));
                }
            }
        }
        i = i + 1;
    }
    let mut out: Vec<CapsuleSummary> = Vec::new();
    let mut j: usize = 0;
    while j < ids.len()
        invariant
            j <= ids@.len(),
            registry.wf(),
            sel == (|m: ManifestView| !active_only || m.status == CapsuleStatus::Active),
            sorted_strict(string_views(ids@)),
            out@.len() == j,
            forall|k: int| 0 <= k < j ==> (#[trigger] out@[k])@.capsule_id == ids@[k]@,
            forall|k: int|
                0 <= k < j ==> registry@.contains_key(ids@[k]@) && sel(registry@[ids@[k]@]) && (#[trigger] out@[k])@
                    == summary_of(registry@[ids@[k]@]),
            forall|k: int|
                0 <= k < all@.len() ==> registry@.contains_key(#[trigger] all@[k]@.capsule_id)
                    && registry@[all@[k]@.capsule_id] == all@[k]@,
            forall|y: Seq<char>|
                #[trigger] string_views(ids@).contains(y) <==> exists|k: int|
                    0 <= k < all@.len() && all@[k]@.capsule_id == y && sel(all@[k]@),
        decreases ids@.len() - j,
    {
        assert(string_views(ids@).contains(ids@[j as int]@)) by {
            assert(string_views(ids@)[j as int] == ids@[j as int]@);
        }
        let ghost k = choose|k: int| 0 <= k < all@.len() && all@[k]@.capsule_id == ids@[j as int]@ && sel(all@[k]@);
        let m = registry.get_str(ids[j].as_str());
        let m = match m {
            Some(m) => m,
            None => {
                assert(false);
                return Vec::new();
            },
        };
        out.push(CapsuleSummary::from_manifest(m));
        j = j + 1;
    }
    proof {
        let sv = summary_views(out@);
        assert(sv.map_values(|s: SummaryView| s.capsule_id) =~= string_views(ids@));
        assert forall|k: Seq<char>| #[trigger]
            registry@.contains_key(k) && sel(registry@[k]) implies exists|i: int| 0 <= i < sv.len() && sv[i].capsule_id == k by {
            let a = choose|a: int| 0 <= a < all@.len() && all@[a]@.capsule_id == k;
            assert(string_views(ids@).contains(k));
            let b = choose|b: int| 0 <= b < string_views(ids@).len() && string_views(ids@)[b] == k;
            assert(sv[b].capsule_id == k);
        }
        assert forall|i: int| 0 <= i < sv.len() implies {
            &&& registry@.contains_key(#[trigger] sv[i].capsule_id)
            &&& sel(registry@[sv[i].capsule_id])
            &&& sv[i] == summary_of(registry@[sv[i].capsule_id])
        } by {
            assert(sv[i] == out@[i]@);
        }
    }
    out
}

/// `GET /v1/capsules`: summaries of the active capsules, by capsule id.
pub fn public_capsule_list(registry: &Registry) -> (r: Vec<CapsuleSummary>)
    requires
        registry.wf(),
    ensures
        is_listing(registry@, |m: ManifestView| m.status == CapsuleStatus::Active, summary_views(r@)),
{
    let r = listing(registry, true);
    assert((|m: ManifestView| !true || m.status == CapsuleStatus::Active) =~= (|m: ManifestView| m.status
        == CapsuleStatus::Active));
    r
}

/// `GET /api/v1/capsules`: the owner sees every capsule, paused and draft
/// included, by capsule id.
pub fn mgmt_capsule_list(registry: &Registry) -> (r: Vec<CapsuleSummary>)
    requires
        registry.wf(),
    ensures
        is_listing(registry@, |m: ManifestView| true, summary_views(r@)),
{
    let r = listing(registry, false);
    assert((|m: ManifestView| !false || m.status == CapsuleStatus::Active) =~= (|m: ManifestView| true));
    r
}

/// The distinct schemas the node serves, in order.
pub fn supported_schemas(registry: &Registry) -> (r: Vec<String>)
    requires
        registry.wf(),
    ensures
        sorted_strict(string_views(r@)),
        forall|y: Seq<char>| #[trigger] string_views(r@).contains(y) <==> exists|k: Seq<char>|
            registry@.contains_key(k) && registry@[k].schema == y,
{
    let all = registry.list();
    let mut out: Vec<String> = Vec::new();
    let mut i: usize = 0;
    while i < all.len()
        invariant
            i <= all@.len(),
            sorted_strict(string_views(out@)),
            forall|y: Seq<char>| #[trigger] string_views(out@).contains(y) <==> exists|k: int| 0 <= k < i && all@[k]@.schema == y,
        decreases all@.len() - i,
    {
        let ghost before = string_views(out@);
        sorted_insert(&mut out, all[i].schema.clone());
        assert forall|y: Seq<char>| #[trigger] string_views(out@).contains(y) <==> exists|k: int|
            0 <= k < i + 1 && all@[k]@.schema == y by {
            if exists|k: int| 0 <= k < i + 1 && all@[k]@.schema == y {
                let k = choose|k: int| 0 <= k < i + 1 && all@[k]@.schema == y;
                if k < i {
                    assert(before.contains(y));
                }
            }
        }
        i = i + 1;
    }
    assert forall|y: Seq<char>| #[trigger] string_views(out@).contains(y) <==> exists|k: Seq<char>|
        registry@.contains_key(k) && registry@[k].schema == y by {
        if string_views(out@).contains(y) {
            let a = choose|a: int| 0 <= a < all@.len() && all@[a]@.schema == y;
            assert(registry@.contains_key(all@[a]@.capsule_id));
        }
        if exists|k: Seq<char>| registry@.contains_key(k) && registry@[k].schema == y {
            let k = choose|k: Seq<char>| registry@.contains_key(k) && registry@[k].schema == y;
            let a = choose|a: int| 0 <= a < all@.len() && all@[a]@.capsule_id == k;
            assert(all@[a]@.schema == y);
        }
    }
    out
}

/// `GET /v1/node/info`.
pub struct NodeInfo {
    pub did: Option<String>,
    pub tier: Option<u8>,
    pub version: String,
    pub supported_schemas: Vec<String>,
    pub capsule_count: usize,
    /// Present only while the keyring is unlocked.
    pub wallet_address: Option<String>,
}

pub fn node_info(registry: &Registry, version: &str, wallet_address: Option<String>) -> (r: NodeInfo)
    requires
        registry.wf(),
    ensures
        r.did is None,
        r.tier is None,
        r.version@ == version@,
        sorted_strict(string_views(r.supported_schemas@)),
        forall|y: Seq<char>| #[trigger] string_views(r.supported_schemas@).contains(y) <==> exists|k: Seq<char>|
            registry@.contains_key(k) && registry@[k].schema == y,
        r.capsule_count == registry@.len(),
        r.wallet_address == wallet_address,
{
    NodeInfo {
        did: None,
        tier: None,
        version: version.to_owned(),
        supported_schemas: supported_schemas(registry),
        capsule_count: registry.len(),
        wallet_address,
    }
}

/// `GET /v1/capsules/{cid}/manifest`: the manifest, or `None` (404) when
/// the id is malformed or unknown.
pub fn manifest_lookup(registry: &Registry, cid: &str) -> (r: Option<Manifest>)
    requires
        registry.wf(),
    ensures
        match r {
            Some(m) => capsule_id_check(cid@) is Ok && registry@.contains_key(cid@) && m@ == registry@[cid@],
            None => capsule_id_check(cid@) is Err || !registry@.contains_key(cid@),
        },
{
    let id = match CapsuleId::new(cid) {
        Ok(id) => id,
        Err(_) => return None,
    };
    registry.get(&id)
}

/// The numeric amount of a free-form floor price such as
/// `"0.08 USDC/query"`: its first whitespace-separated word when that word
/// starts with a digit; `"0"` when there is no leading number.
pub open spec fn floor_amount_spec(raw: Seq<char>) -> Seq<char> {
    match first_word(raw) {
        Some(w) => if '0' <= w[0] && w[0] <= '9' {
            w
        } else {
            seq!['0']
        },
        None => seq!['0'],
    }
}

/// The quoted amount is the floor price's leading word, character for
/// character: when the first non-whitespace character `raw[i]` is a digit,
/// the amount is exactly `raw[i..k]`, the run of non-whitespace characters
/// that ends at the next whitespace character or at the end; when it is
/// not a digit, the amount is `"0"`.
pub proof fn lemma_floor_amount_is_leading_word(raw: Seq<char>, i: int, k: int)
    requires
        0 <= i < k <= raw.len(),
        forall|j: int| 0 <= j < i ==> is_whitespace_char(#[trigger] raw[j]),
        forall|j: int| i <= j < k ==> !is_whitespace_char(#[trigger] raw[j]),
        k == raw.len() || is_whitespace_char(raw[k]),
    ensures
        ('0' <= raw[i] && raw[i] <= '9') ==> floor_amount_spec(raw) == raw.subrange(i, k),
        !('0' <= raw[i] && raw[i] <= '9') ==> floor_amount_spec(raw) == seq!['0'],
{
    lemma_first_word_shape(raw);
    assert(!is_whitespace_char(raw[i]));
    let w = first_word(raw)->Some_0;
    let n = first_word_start(raw);
    if n < i {
        assert(w[0] == raw[n]);
    }
    if n > i {
        assert(is_whitespace_char(raw[i]));
    }
    assert(n == i);
    if w.len() < k - i {
        assert(is_whitespace_char(raw[i + w.len()]));
    }
    if w.len() > k - i {
        assert(w[k - i] == raw[k]);
    }
    assert(w.len() == k - i);
    assert(w[0] == raw[i]);
}

/// A floor price with no word at all is quoted at `"0"`.
pub proof fn lemma_floor_amount_blank(raw: Seq<char>)
    requires
        forall|j: int| 0 <= j < raw.len() ==> is_whitespace_char(#[trigger] raw[j]),
    ensures
        floor_amount_spec(raw) == seq!['0'],
{
    lemma_first_word_shape(raw);
}

pub fn floor_amount(raw: &str) -> (r: String)
    ensures
        r@ == floor_amount_spec(raw@),
{
    let zero = "0";
    proof {
        reveal_strlit("0");
    }
    match first_word_of(raw) {
        Some(w) => {
            proof {
                lemma_first_word_nonempty(raw@);
            }
            let c = w.as_str().get_char(0);
            if '0' <= c && c <= '9' {
                w
            } else {
                zero.to_owned()
            }
        },
        None => zero.to_owned(),
    }
}

/// The x402 body of a `402 Payment Required` answer.
pub struct PaymentRequired {
    pub capsule_cid: String,
    pub price: PaymentPrice,
    pub recipient: Option<String>,
    pub expiry: Option<String>,
    pub supported_schemes: Vec<String>,
    pub capsule_quality: CapsuleQuality,
}

pub struct PaymentPrice {
    pub amount: String,
    pub currency: String,
    pub network: String,
}

pub struct CapsuleQuality {
    pub status: CapsuleStatus,
    pub computation_classes: Vec<ComputationClass>,
}

/// `GET /v1/capsules/{cid}/compute` without a payment attached.
pub enum ComputeReply {
    /// 404: malformed or unknown capsule id, or a capsule that is paused or
    /// archived (served like a missing one).
    NotFound,
    /// 503 with an empty body: the capsule is still a draft.
    Inactive,
    /// 503: the keyring is not unlocked, so there is no recipient address
    /// to commit to. Fail closed.
    KeyringLocked,
    /// 402 with the payment terms; counts as keyring activity.
    PaymentRequired(PaymentRequired),
}

pub open spec fn compute_status(r: ComputeReply) -> u16 {
    match r {
        ComputeReply::NotFound => 404,
        ComputeReply::Inactive => 503,
        ComputeReply::KeyringLocked => 503,
        ComputeReply::PaymentRequired(_) => 402,
    }
}

impl ComputeReply {
    /// The HTTP status of the answer.
    pub fn status_code(&self) -> (r: u16)
        ensures
            r == compute_status(*self),
    {
        match self {
            ComputeReply::NotFound => 404,
            ComputeReply::Inactive => 503,
            ComputeReply::KeyringLocked => 503,
            ComputeReply::PaymentRequired(_) => 402,
        }
    }

    /// Quoting payment terms commits to the payout address derived from the
    /// master secret, so it counts as keyring activity for auto-lock; the
    /// other answers do not.
    pub fn is_activity(&self) -> (r: bool)
        ensures
            r == (*self is PaymentRequired),
    {
        match self {
            ComputeReply::PaymentRequired(_) => true,
            _ => false,
        }
    }
}

pub open spec fn usdc() -> Seq<char> {
    seq!['U', 'S', 'D', 'C']
}

/// Base mainnet.
pub open spec fn base_network() -> Seq<char> {
    seq!['e', 'i', 'p', '1', '5', '5', ':', '8', '4', '5', '3']
}

pub open spec fn exact_scheme() -> Seq<char> {
    seq!['e', 'x', 'a', 'c', 't']
}

/// The payment terms quoted for an active capsule.
pub open spec fn quote_matches(p: PaymentRequired, m: ManifestView, recipient: Seq<char>, now_nanos: i128) -> bool {
    &&& p.capsule_cid@ == m.capsule_id
    &&& p.price.amount@ == floor_amount_spec(m.floor_price)
    &&& p.price.currency@ == usdc()
    &&& p.price.network@ == base_network()
    &&& p.recipient is Some && p.recipient->Some_0@ == recipient
    &&& p.expiry is Some && p.expiry->Some_0@ == payment_expiry(now_nanos)
    &&& string_views(p.supported_schemes@) == seq![exact_scheme()]
    &&& p.capsule_quality.status == m.status
    &&& p.capsule_quality.computation_classes@ == m.computation_classes
}

/// A capsule whose owner has taken it off the market: to agents it is as
/// if it did not exist.
pub open spec fn withdrawn(status: CapsuleStatus) -> bool {
    status == CapsuleStatus::Paused || status == CapsuleStatus::Archived
}

/// The answer to a compute request for `cid` at the instant `now_nanos`.
pub open spec fn compute_answer(
    registry: Map<Seq<char>, ManifestView>,
    cid: Seq<char>,
    wallet_address: Option<String>,
    now_nanos: i128,
    r: ComputeReply,
) -> bool {
    &&& (capsule_id_check(cid) is Err || !registry.contains_key(cid) || withdrawn(registry[cid].status)
        <==> r is NotFound)
    &&& capsule_id_check(cid) is Ok && registry.contains_key(cid) ==> {
        let m = registry[cid];
        if withdrawn(m.status) {
            r is NotFound
        } else if m.status != CapsuleStatus::Active {
            r is Inactive
        } else {
            match wallet_address {
                None => r is KeyringLocked,
                Some(a) => r matches ComputeReply::PaymentRequired(p) && quote_matches(p, m, a@, now_nanos),
            }
        }
    }
}

/// Fail closed: payment terms are quoted only with the payout address of an
/// unlocked keyring, and only for an active capsule the registry holds
/// under a well-formed id.
pub proof fn lemma_quote_only_when_unlocked_and_active(
    registry: Map<Seq<char>, ManifestView>,
    cid: Seq<char>,
    wallet_address: Option<String>,
    now_nanos: i128,
    r: ComputeReply,
)
    requires
        compute_answer(registry, cid, wallet_address, now_nanos, r),
        r is PaymentRequired,
    ensures
        wallet_address is Some,
        capsule_id_check(cid) is Ok,
        registry.contains_key(cid),
        registry[cid].status == CapsuleStatus::Active,
{
}

/// Decide the answer to a compute request at the instant `now_nanos`, with
/// the node's payout address when the keyring is unlocked.
pub fn compute_quote(registry: &Registry, cid: &str, wallet_address: Option<String>, now_nanos: i128) -> (r: ComputeReply)
    requires
        registry.wf(),
        quotable_instant(now_nanos),
    ensures
        compute_answer(registry@, cid@, wallet_address, now_nanos, r),
{
    let manifest = match manifest_lookup(registry, cid) {
        Some(m) => m,
        None => return ComputeReply::NotFound,
    };
    if manifest.status == CapsuleStatus::Paused || manifest.status == CapsuleStatus::Archived {
        return ComputeReply::NotFound;
    }
    if manifest.status != CapsuleStatus::Active {
        return ComputeReply::Inactive;
    }
    let recipient = match wallet_address {
        Some(a) => a,
        None => return ComputeReply::KeyringLocked,
    };
    let usdc_str = "USDC";
    let network = "eip155:8453";
    let exact = "exact";
    proof {
        reveal_strlit("USDC");
        reveal_strlit("eip155:8453");
        reveal_strlit("exact");
        assert(usdc_str@ =~= usdc());
        assert(network@ =~= base_network());
        assert(exact@ =~= exact_scheme());
    }
    let mut schemes: Vec<String> = Vec::new();
    schemes.push(exact.to_owned());
    assert(string_views(schemes@) =~= seq![exact_scheme()]);
    let body = PaymentRequired {
        capsule_cid: manifest.capsule_id.as_str().to_owned(),
        price: PaymentPrice {
            amount: floor_amount(manifest.floor_price.as_str()),
            currency: usdc_str.to_owned(),
            network: network.to_owned(),
        },
        recipient: Some(recipient),
        expiry: Some(payment_expiry_at(now_nanos)),
        supported_schemes: schemes,
        capsule_quality: CapsuleQuality { status: manifest.status, computation_classes: manifest.computation_classes },
    };
    ComputeReply::PaymentRequired(body)
}

/// The answer to a compute request is a quote, which carries an expiry
/// and so needs the clock: the id is well formed, the capsule is active,
/// and the keyring is unlocked.
pub open spec fn quote_wanted(
    registry: Map<Seq<char>, ManifestView>,
    cid: Seq<char>,
    wallet_address: Option<String>,
) -> bool {
    &&& capsule_id_check(cid) is Ok
    &&& registry.contains_key(cid)
    &&& registry[cid].status == CapsuleStatus::Active
    &&& wallet_address is Some
}

/// Whether a compute request will be answered with a quote.
pub fn wants_quote(registry: &Registry, cid: &str, wallet_address: &Option<String>) -> (r: bool)
    requires
        registry.wf(),
    ensures
        r == quote_wanted(registry@, cid@, *wallet_address),
{
    if wallet_address.is_none() {
        return false;
    }
    match manifest_lookup(registry, cid) {
        Some(m) => m.status == CapsuleStatus::Active,
        None => false,
    }
}

/// Answer a compute request at the instant `now_nanos`; `None` exactly
/// when the answer is a quote and no expiry can be quoted at that instant.
pub fn compute_at(registry: &Registry, cid: &str, wallet_address: Option<String>, now_nanos: i128) -> (r: Option<
    ComputeReply,
>)
    requires
        registry.wf(),
    ensures
        r is None <==> (quote_wanted(registry@, cid@, wallet_address) && !quotable_instant(now_nanos)),
        r matches Some(c) ==> compute_answer(registry@, cid@, wallet_address, now_nanos, c),
{
    if !wants_quote(registry, cid, &wallet_address) {
        return Some(compute_quote(registry, cid, wallet_address, 0));
    }
    if !is_quotable_instant(now_nanos) {
        return None;
    }
    Some(compute_quote(registry, cid, wallet_address, now_nanos))
}

/// Answer a compute request. The clock is read only when the answer is a
/// quote: every other answer is given whatever time it is. For a quote,
/// the answer is `compute_at` of the instant the clock gave.
pub fn compute_now(registry: &Registry, cid: &str, wallet_address: Option<String>) -> (r: Option<ComputeReply>)
    requires
        registry.wf(),
    ensures
        !quote_wanted(registry@, cid@, wallet_address) ==> (r matches Some(c) && compute_answer(
            registry@,
            cid@,
            wallet_address,
            0,
            c,
        )),
        quote_wanted(registry@, cid@, wallet_address) ==> exists|now: i128|
            #![trigger quotable_instant(now)]
            representable_nanos(now as int) && (r is None <==> !quotable_instant(now)) && (r matches Some(c)
                ==> compute_answer(registry@, cid@, wallet_address, now, c)),
{
    if !wants_quote(registry, cid, &wallet_address) {
        return Some(compute_quote(registry, cid, wallet_address, 0));
    }
    let now = now_unix_nanos();
    let r = compute_at(registry, cid, wallet_address, now);
    assert(representable_nanos(now as int) && (r is None <==> !quotable_instant(now)));
    r
}

/// `GET /api/v1/status`, less the uptime and vault path the caller adds.
pub struct NodeStatus {
    pub running: bool,
    pub version: String,
    pub capsule_count: usize,
    pub keyring: String,
}

pub fn node_status(registry: &Registry, version: &str, keyring_label: &str) -> (r: NodeStatus)
    requires
        registry.wf(),
    ensures
        r.running,
        r.version@ == version@,
        r.capsule_count == registry@.len(),
        r.keyring@ == keyring_label@,
{
    NodeStatus {
        running: true,
        version: version.to_owned(),
        capsule_count: registry.len(),
        keyring: keyring_label.to_owned(),
    }
}

} // verus!
