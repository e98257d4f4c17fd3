//! The TTL store: a mapping from string keys to entries that each carry a
//! value and an optional absolute expiration instant. Reads remove the
//! expired entries they observe (lazy expiration); `sweep` removes every
//! expired entry (eager expiration). All operations take the current instant
//! as an explicit argument, in milliseconds since the epoch, so their effect
//! is verified for every possible clock reading.

use vstd::prelude::*;
use crate::clock::calc_expiration;

verus! {

/// A stored entry: a value and an optional absolute expiration instant in
/// milliseconds since the epoch. `None` means the entry never expires.
pub struct Node {
    pub value: String,
    pub expiration: Option<u128>,
}

/// The mathematical content of a `Node`: the value as a sequence of
/// characters, and the expiration instant.
pub struct NodeView {
    pub value: Seq<char>,
    pub expiration: Option<u128>,
}

impl View for Node {
    type V = NodeView;

    open spec fn view(&self) -> NodeView {
        NodeView { value: self.value@, expiration: self.expiration }
    }
}

impl Node {
    pub fn new(value: String, expiration: Option<u128>) -> (r: Self)
        ensures
            r@ == (NodeView { value: value@, expiration }),
    {
        Node { value, expiration }
    }
}

/// An entry is alive at `now` exactly when it has no expiration instant or
/// its expiration instant lies strictly in the future. An entry whose
/// expiration equals `now` is already expired (inclusive expiry).
pub open spec fn live(n: NodeView, now: u128) -> bool {
    match n.expiration {
        None => true,
        Some(e) => e > now,
    }
}

/// The expiration instant stored by a write at instant `now` with the given
/// time-to-live in milliseconds: `now + ttl` for a positive time-to-live,
/// and no instant at all when the time-to-live is absent or zero.
pub open spec fn expiration_of(ttl: Option<u128>, now: u128) -> Option<u128> {
    match ttl {
        None => None,
        Some(t) => if t > 0 { Some((now + t) as u128) } else { None },
    }
}

/// The store's mapping after `set(k, v, ttl)` performed at instant `now`.
pub open spec fn spec_set_map(
    m: Map<Seq<char>, NodeView>,
    k: Seq<char>,
    v: Seq<char>,
    ttl: Option<u128>,
    now: u128,
) -> Map<Seq<char>, NodeView> {
    m.insert(k, NodeView { value: v, expiration: expiration_of(ttl, now) })
}

/// The value that `get(k)` returns at instant `now`: the stored value when
/// the key holds an entry that is alive at `now`, and nothing otherwise.
pub open spec fn spec_get_result(m: Map<Seq<char>, NodeView>, k: Seq<char>, now: u128) -> Option<
    Seq<char>,
> {
    if m.contains_key(k) && live(m[k], now) {
        Some(m[k].value)
    } else {
        None
    }
}

/// The store's mapping after `get(k)` at instant `now`: unchanged, except
/// that an entry observed as expired is removed (lazy expiration).
pub open spec fn spec_get_map(m: Map<Seq<char>, NodeView>, k: Seq<char>, now: u128) -> Map<
    Seq<char>,
    NodeView,
> {
    if m.contains_key(k) && !live(m[k], now) {
        m.remove(k)
    } else {
        m
    }
}

/// The store's mapping after `sweep(now)`: exactly the entries that are
/// alive at `now`, unchanged; entries without an expiration are never
/// touched.
pub open spec fn spec_sweep(m: Map<Seq<char>, NodeView>, now: u128) -> Map<Seq<char>, NodeView> {
    Map::new(|k: Seq<char>| m.contains_key(k) && live(m[k], now), |k: Seq<char>| m[k])
}

/// Character-for-character equality of two string slices.
fn str_eq(a: &str, b: &str) -> (r: bool)
    ensures
        r == (a@ == b@),
{
    let la = a.unicode_len();
    let lb = b.unicode_len();
    if la != lb {
        return false;
    }
    let mut i: usize = 0;
    while i < la
        invariant
            la == a@.len(),
            la == b@.len(),
            i <= la,
            forall|j: int| 0 <= j < i ==> a@[j] == b@[j],
        decreases la - i,
    {
        if a.get_char(i) != b.get_char(i) {
            return false;
        }
        i += 1;
    }
    proof {
        assert(a@ =~= b@);
    }
    true
}

/// The keys of the listed entries are pairwise distinct.
spec fn wf_entries(s: Seq<(String, Node)>) -> bool {
    forall|i: int, j: int|
        0 <= i < s.len() && 0 <= j < s.len() && i != j ==> s[i].0@ != s[j].0@
}

/// Some listed entry has the key `k`.
spec fn has_key(s: Seq<(String, Node)>, k: Seq<char>) -> bool {
    exists|i: int| 0 <= i < s.len() && s[i].0@ == k
}

/// The index of the entry with key `k`.
spec fn key_index(s: Seq<(String, Node)>, k: Seq<char>) -> int {
    choose|i: int| 0 <= i < s.len() && s[i].0@ == k
}

/// The mapping that a list of entries represents.
spec fn entries_view(s: Seq<(String, Node)>) -> Map<Seq<char>, NodeView> {
    Map::new(|k: Seq<char>| has_key(s, k), |k: Seq<char>| s[key_index(s, k)].1@)
}

proof fn lemma_key_index(s: Seq<(String, Node)>, i: int)
    requires
        wf_entries(s),
        0 <= i < s.len(),
    ensures
        has_key(s, s[i].0@),
        key_index(s, s[i].0@) == i,
{
    assert(has_key(s, s[i].0@));
    let j = key_index(s, s[i].0@);
    assert(0 <= j < s.len() && s[j].0@ == s[i].0@);
    assert(j == i);
}

proof fn lemma_view_at(s: Seq<(String, Node)>, i: int)
    requires
        wf_entries(s),
        0 <= i < s.len(),
    ensures
        entries_view(s).contains_key(s[i].0@),
        entries_view(s)[s[i].0@] == s[i].1@,
{
    lemma_key_index(s, i);
}

proof fn lemma_view_absent(s: Seq<(String, Node)>, k: Seq<char>)
    requires
        forall|j: int| 0 <= j < s.len() ==> s[j].0@ != k,
    ensures
        !entries_view(s).contains_key(k),
{
    assert(!has_key(s, k));
}

proof fn lemma_view_remove(s: Seq<(String, Node)>, i: int)
    requires
        wf_entries(s),
        0 <= i < s.len(),
    ensures
        wf_entries(s.remove(i)),
        !has_key(s.remove(i), s[i].0@),
        entries_view(s.remove(i)) == entries_view(s).remove(s[i].0@),
{
    let t = s.remove(i);
    s.remove_ensures(i);
    assert forall|j: int, l: int|
        0 <= j < t.len() && 0 <= l < t.len() && j != l implies t[j].0@ != t[l].0@ by {
        let oj: int = if j < i { j } else { j + 1 };
        let ol: int = if l < i { l } else { l + 1 };
        assert(t[j] == s[oj]);
        assert(t[l] == s[ol]);
    }
    assert forall|j: int| 0 <= j < t.len() implies t[j].0@ != s[i].0@ by {
        let oj: int = if j < i { j } else { j + 1 };
        assert(t[j] == s[oj]);
    }
    assert(!has_key(t, s[i].0@));
    assert forall|k: Seq<char>| #[trigger] has_key(t, k) implies has_key(s, k) && k != s[i].0@
        && t[key_index(t, k)].1@ == s[key_index(s, k)].1@ by {
        let j = choose|j: int| 0 <= j < t.len() && t[j].0@ == k;
        let oj: int = if j < i { j } else { j + 1 };
        assert(t[j] == s[oj]);
        assert(s[oj].0@ == k);
        assert(has_key(s, k));
        lemma_key_index(s, oj);
        let jj = key_index(t, k);
        let ojj: int = if jj < i { jj } else { jj + 1 };
        assert(t[jj] == s[ojj]);
        lemma_key_index(s, ojj);
    }
    assert forall|k: Seq<char>| has_key(s, k) && k != s[i].0@ implies #[trigger] has_key(t, k) by {
        let m = choose|m: int| 0 <= m < s.len() && s[m].0@ == k;
        let tm: int = if m < i { m } else { m - 1 };
        assert(t[tm] == s[m]);
    }
    assert(entries_view(t) =~= entries_view(s).remove(s[i].0@));
}

proof fn lemma_view_push(s: Seq<(String, Node)>, p: (String, Node))
    requires
        wf_entries(s),
        !has_key(s, p.0@),
    ensures
        wf_entries(s.push(p)),
        entries_view(s.push(p)) == entries_view(s).insert(p.0@, p.1@),
{
    let t = s.push(p);
    assert forall|j: int, l: int|
        0 <= j < t.len() && 0 <= l < t.len() && j != l implies t[j].0@ != t[l].0@ by {
        if j < s.len() && l < s.len() {
            assert(t[j] == s[j]);
            assert(t[l] == s[l]);
        } else if j < s.len() {
            assert(t[j] == s[j]);
            assert(t[l] == p);
        } else {
            assert(t[j] == p);
            assert(t[l] == s[l]);
        }
    }
    assert forall|k: Seq<char>| #[trigger] has_key(t, k) implies (k == p.0@ || has_key(s, k)) by {
        let j = choose|j: int| 0 <= j < t.len() && t[j].0@ == k;
        if j < s.len() {
            assert(t[j] == s[j]);
        } else {
            assert(t[j] == p);
        }
    }
    assert(t[s.len() as int] == p);
    assert(has_key(t, p.0@));
    lemma_key_index(t, s.len() as int);
    assert forall|k: Seq<char>| has_key(s, k) implies #[trigger] has_key(t, k)
        && t[key_index(t, k)].1@ == s[key_index(s, k)].1@ by {
        let j = choose|j: int| 0 <= j < s.len() && s[j].0@ == k;
        assert(t[j] == s[j]);
        assert(has_key(t, k));
        lemma_key_index(t, j);
        lemma_key_index(s, j);
    }
    assert(entries_view(t) =~= entries_view(s).insert(p.0@, p.1@));
}

/// The index of the entry whose key matches `key`, if any.
fn find_index(entries: &Vec<(String, Node)>, key: &str) -> (r: Option<usize>)
    ensures
        match r {
            Some(i) => i < entries@.len() && entries@[i as int].0@ == key@,
            None => forall|j: int| 0 <= j < entries@.len() ==> entries@[j].0@ != key@,
        },
{
    let mut i: usize = 0;
    while i < entries.len()
        invariant
            i <= entries@.len(),
            forall|j: int| 0 <= j < i ==> entries@[j].0@ != key@,
        decreases entries@.len() - i,
    {
        if str_eq(entries[i].0.as_str(), key) {
            return Some(i);
        }
        i += 1;
    }
    None
}

/// The TTL store: a concurrency-agnostic mapping from string keys to
/// entries. Its view is the mathematical `Map` it represents; every
/// operation's contract is stated over that view.
pub struct SafeMap {
    entries: Vec<(String, Node)>,
    auto_evict: bool,
}

impl View for SafeMap {
    type V = Map<Seq<char>, NodeView>;

    closed spec fn view(&self) -> Map<Seq<char>, NodeView> {
        entries_view(self.entries@)
    }
}

impl SafeMap {
    #[verifier::type_invariant]
    spec fn wf(self) -> bool {
        wf_entries(self.entries@)
    }

    /// Whether a periodic background sweep should run for this store;
    /// fixed at construction.
    pub closed spec fn spec_auto_evict(&self) -> bool {
        self.auto_evict
    }

    /// Whether a periodic background sweep should run for this store.
    pub fn auto_evict(&self) -> (r: bool)
        ensures
            r == self.spec_auto_evict(),
    {
        self.auto_evict
    }

    /// An empty store.
    pub fn new(auto_evict: bool) -> (r: Self)
        ensures
            r@ == Map::<Seq<char>, NodeView>::empty(),
            r.spec_auto_evict() == auto_evict,
    {
        let r = SafeMap { entries: Vec::new(), auto_evict };
        proof {
            assert(r@ =~= Map::<Seq<char>, NodeView>::empty());
        }
        r
    }

    /// Reads the entry under `key` at instant `now`. Returns the stored
    /// value when the entry is alive; otherwise returns nothing, removing
    /// the entry if it was present but expired. No other entry is touched.
    pub fn get(&mut self, key: &str, now: u128) -> (r: Option<String>)
        ensures
            final(self)@ == spec_get_map(old(self)@, key@, now),
            r.deep_view() == spec_get_result(old(self)@, key@, now),
    {
        proof {
            use_type_invariant(&*self);
        }
        let idx = find_index(&self.entries, key);
        match idx {
            None => {
                proof {
                    lemma_view_absent(self.entries@, key@);
                }
                None
            },
            Some(i) => {
                proof {
                    lemma_view_at(self.entries@, i as int);
                    lemma_key_index(self.entries@, i as int);
                }
                let expired = match self.entries[i].1.expiration {
                    Some(e) => e <= now,
                    None => false,
                };
                if expired {
                    let ghost s0 = self.entries@;
                    let mut entries: Vec<(String, Node)> = Vec::new();
                    core::mem::swap(&mut entries, &mut self.entries);
                    entries.remove(i);
                    proof {
                        lemma_view_remove(s0, i as int);
                    }
                    core::mem::swap(&mut entries, &mut self.entries);
                    None
                } else {
                    let v = String::from_str(self.entries[i].1.value.as_str());
                    Some(v)
                }
            },
        }
    }

    /// Writes `value` under `key` at instant `now`, overwriting any entry
    /// already there. A positive `ttl` (milliseconds) sets the expiration
    /// instant to `now + ttl`; an absent or zero `ttl` stores a permanent
    /// entry. Returns the value written, as an acknowledgement.
    pub fn set(&mut self, key: String, value: String, ttl: Option<u128>, now: u128) -> (r: Option<
        String,
    >)
        requires
            ttl matches Some(t) ==> now + t <= u128::MAX,
        ensures
            final(self)@ == spec_set_map(old(self)@, key@, value@, ttl, now),
            r.deep_view() == Some(value@),
    {
        proof {
            use_type_invariant(&*self);
        }
        let expiration: Option<u128> = match ttl {
            Some(t) => if t > 0 {
                Some(calc_expiration(now, t))
            } else {
                None
            },
            None => None,
        };
        let ret = String::from_str(value.as_str());
        let node = Node::new(value, expiration);
        let idx = find_index(&self.entries, key.as_str());
        let ghost s0 = self.entries@;
        let mut entries: Vec<(String, Node)> = Vec::new();
        core::mem::swap(&mut entries, &mut self.entries);
        match idx {
            Some(i) => {
                entries.remove(i);
                proof {
                    lemma_view_remove(s0, i as int);
                    lemma_view_push(entries@, (key, node));
                }
                entries.push((key, node));
            },
            None => {
                proof {
                    lemma_view_absent(s0, key@);
                    lemma_view_push(s0, (key, node));
                }
                entries.push((key, node));
            },
        }
        core::mem::swap(&mut entries, &mut self.entries);
        proof {
            assert(self@ =~= spec_set_map(old(self)@, key@, ret@, ttl, now));
        }
        Some(ret)
    }

    /// Removes every entry that is expired at instant `now`; entries alive
    /// at `now` — in particular every entry without an expiration — are
    /// kept unchanged.
    pub fn sweep(&mut self, now: u128)
        ensures
            final(self)@ == spec_sweep(old(self)@, now),
    {
        proof {
            use_type_invariant(&*self);
        }
        let ghost m0 = self@;
        let mut entries: Vec<(String, Node)> = Vec::new();
        core::mem::swap(&mut entries, &mut self.entries);
        let mut i: usize = 0;
        while i < entries.len()
            invariant
                wf_entries(entries@),
                i <= entries@.len(),
                forall|j: int| 0 <= j < i ==> live(entries@[j].1@, now),
                spec_sweep(entries_view(entries@), now) == spec_sweep(m0, now),
            decreases entries@.len() - i,
        {
            let expired = match entries[i].1.expiration {
                Some(e) => e <= now,
                None => false,
            };
            if expired {
                proof {
                    let ghost s = entries@;
                    lemma_view_at(s, i as int);
                    lemma_view_remove(s, i as int);
                    let ghost k = s[i as int].0@;
                    assert(spec_sweep(entries_view(s).remove(k), now) =~= spec_sweep(
                        entries_view(s),
                        now,
                    ));
                }
                entries.remove(i);
            } else {
                i += 1;
            }
        }
        proof {
            assert forall|k: Seq<char>| #[trigger] entries_view(entries@).contains_key(k)
                implies live(entries_view(entries@)[k], now) by {
                let j = key_index(entries@, k);
                assert(0 <= j < entries@.len() && entries@[j].0@ == k);
                lemma_key_index(entries@, j);
            }
            assert(entries_view(entries@) =~= spec_sweep(m0, now));
        }
        core::mem::swap(&mut entries, &mut self.entries);
    }
}

/// Law: a value written without a time-to-live is permanent — after
/// `set(k, v, none)` at any instant, a read of `k` at any instant returns
/// `v`.
pub proof fn lemma_set_no_ttl_then_get(
    m: Map<Seq<char>, NodeView>,
    k: Seq<char>,
    v: Seq<char>,
    now: u128,
    later: u128,
)
    ensures
        spec_get_result(spec_set_map(m, k, v, None, now), k, later) == Some(v),
{
}

/// Law: a value written with a positive time-to-live is returned by every
/// read strictly before `now + ttl` — in particular immediately — and by
/// no read at or after `now + ttl`: at the expiration instant itself the
/// entry is already gone (inclusive expiry).
pub proof fn lemma_set_ttl_then_get(
    m: Map<Seq<char>, NodeView>,
    k: Seq<char>,
    v: Seq<char>,
    t: u128,
    now: u128,
    later: u128,
)
    requires
        0 < t,
        now + t <= u128::MAX,
    ensures
        later < now + t ==> spec_get_result(spec_set_map(m, k, v, Some(t), now), k, later) == Some(
            v,
        ),
        later >= now + t ==> spec_get_result(spec_set_map(m, k, v, Some(t), now), k, later) is None,
{
}

/// Law: a second write to the same key replaces the first entirely — the
/// store after `set(k, v1, ttl1)` then `set(k, v2, ttl2)` equals the store
/// after `set(k, v2, ttl2)` alone; no trace of `v1` or `ttl1` remains.
pub proof fn lemma_overwrite(
    m: Map<Seq<char>, NodeView>,
    k: Seq<char>,
    v1: Seq<char>,
    ttl1: Option<u128>,
    now1: u128,
    v2: Seq<char>,
    ttl2: Option<u128>,
    now2: u128,
)
    ensures
        spec_set_map(spec_set_map(m, k, v1, ttl1, now1), k, v2, ttl2, now2) == spec_set_map(
            m,
            k,
            v2,
            ttl2,
            now2,
        ),
{
    assert(spec_set_map(spec_set_map(m, k, v1, ttl1, now1), k, v2, ttl2, now2) =~= spec_set_map(
        m,
        k,
        v2,
        ttl2,
        now2,
    ));
}

/// Law: a sweep at instant `now` removes exactly the entries expired at
/// `now`, keeps every live entry unchanged, and invents none.
pub proof fn lemma_sweep_effect(m: Map<Seq<char>, NodeView>, k: Seq<char>, now: u128)
    ensures
        m.contains_key(k) && !live(m[k], now) ==> !spec_sweep(m, now).contains_key(k),
        m.contains_key(k) && live(m[k], now) ==> spec_sweep(m, now).contains_key(k) && spec_sweep(
            m,
            now,
        )[k] == m[k],
        !m.contains_key(k) ==> !spec_sweep(m, now).contains_key(k),
{
}

/// Law: operations on one key do not disturb reads of another — a write to
/// `k1` and the lazy removal a read of `k1` may perform both leave the
/// result of a read of `k2 != k1` unchanged. Writes to disjoint keys
/// therefore cannot corrupt each other's subsequent reads.
pub proof fn lemma_key_independence(
    m: Map<Seq<char>, NodeView>,
    k1: Seq<char>,
    k2: Seq<char>,
    v: Seq<char>,
    ttl: Option<u128>,
    now: u128,
    later: u128,
)
    requires
        k1 != k2,
    ensures
        spec_get_result(spec_set_map(m, k1, v, ttl, now), k2, later) == spec_get_result(
            m,
            k2,
            later,
        ),
        spec_get_result(spec_get_map(m, k1, now), k2, later) == spec_get_result(m, k2, later),
{
}

} // verus!
