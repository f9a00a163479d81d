//! Small verified association stores for the persisted configuration.
//!
//! The configuration keeps its per-mode effects in vectors ordered by the
//! device's mode byte, with one entry per key.  The spec-level lookup
//! `assoc_first` gives both stores their meaning, and the lemmas here
//! relate it to the vector surgery the executable code performs.

use vstd::prelude::*;

use crate::aura::{AuraEffect, AuraModeNum, AuraZone};

verus! {

/// The first element of `s` whose key is `k`, if any.
pub open spec fn assoc_first<T, K>(s: Seq<T>, key: spec_fn(T) -> K, k: K) -> Option<T>
    decreases s.len(),
{
    if s.len() == 0 {
        None
    } else if key(s[0]) == k {
        Some(s[0])
    } else {
        assoc_first(s.subrange(1, s.len() as int), key, k)
    }
}

/// Skipping a prefix whose keys all differ from `k` leaves the lookup
/// unchanged.
pub proof fn lemma_assoc_skip<T, K>(s: Seq<T>, key: spec_fn(T) -> K, k: K, i: int)
    requires
        0 <= i <= s.len(),
        forall|j: int| 0 <= j < i ==> key(s[j]) != k,
    ensures
        assoc_first(s, key, k) == assoc_first(s.subrange(i, s.len() as int), key, k),
    decreases i,
{
    if i > 0 {
        let tail = s.subrange(1, s.len() as int);
        lemma_assoc_skip(tail, key, k, i - 1);
        assert(tail.subrange(i - 1, tail.len() as int) =~= s.subrange(i, s.len() as int));
    } else {
        assert(s.subrange(0, s.len() as int) =~= s);
    }
}

/// Two sequences that agree on which positions carry key `k`, and on the
/// elements at those positions, give the same lookup for `k`.
pub proof fn lemma_assoc_agree<T, K>(s: Seq<T>, t: Seq<T>, key: spec_fn(T) -> K, k: K)
    requires
        s.len() == t.len(),
        forall|j: int| 0 <= j < s.len() ==> ((key(s[j]) == k) <==> (key(t[j]) == k)),
        forall|j: int| 0 <= j < s.len() && key(s[j]) == k ==> s[j] == t[j],
    ensures
        assoc_first(s, key, k) == assoc_first(t, key, k),
    decreases s.len(),
{
    if s.len() > 0 {
        if key(s[0]) == k {
        } else {
            lemma_assoc_agree(
                s.subrange(1, s.len() as int),
                t.subrange(1, t.len() as int),
                key,
                k,
            );
        }
    }
}

/// Inserting an element whose key is not `k` leaves the lookup for `k`
/// unchanged.
pub proof fn lemma_assoc_insert_other<T, K>(
    s: Seq<T>,
    key: spec_fn(T) -> K,
    e: T,
    i: int,
    k: K,
)
    requires
        0 <= i <= s.len(),
        key(e) != k,
    ensures
        assoc_first(s.subrange(0, i) + seq![e] + s.subrange(i, s.len() as int), key, k)
            == assoc_first(s, key, k),
    decreases i,
{
    let t = s.subrange(0, i) + seq![e] + s.subrange(i, s.len() as int);
    if i == 0 {
        assert(t[0] == e);
        assert(t.subrange(1, t.len() as int) =~= s);
    } else {
        assert(t[0] == s[0]);
        if key(s[0]) == k {
        } else {
            let s1 = s.subrange(1, s.len() as int);
            lemma_assoc_insert_other(s1, key, e, i - 1, k);
            assert(t.subrange(1, t.len() as int) =~= s1.subrange(0, i - 1) + seq![e]
                + s1.subrange(i - 1, s1.len() as int));
        }
    }
}

/// A found entry carries the key it was looked up by.
pub proof fn lemma_assoc_found<T, K>(s: Seq<T>, key: spec_fn(T) -> K, k: K)
    ensures
        match assoc_first(s, key, k) {
            Some(e) => key(e) == k,
            None => true,
        },
    decreases s.len(),
{
    if s.len() > 0 && key(s[0]) != k {
        lemma_assoc_found(s.subrange(1, s.len() as int), key, k);
    }
}

/// Entries strictly ascending by device mode byte: each mode occurs at
/// most once.
pub open spec fn sorted_by_mode(s: Seq<AuraEffect>) -> bool {
    forall|i: int, j: int| 0 <= i < j < s.len() ==> s[i].mode.spec_num() < s[j].mode.spec_num()
}

/// Entries strictly ascending by the device mode byte of their key.
pub open spec fn sorted_by_fst(s: Seq<(AuraModeNum, Seq<AuraEffect>)>) -> bool {
    forall|i: int, j: int| 0 <= i < j < s.len() ==> s[i].0.spec_num() < s[j].0.spec_num()
}

/// The per-mode store of configured effects, ordered by the device mode
/// byte with one entry per mode.
#[derive(Clone, Debug, PartialEq)]
pub struct BuiltinMap {
    entries: Vec<AuraEffect>,
}

/// Key function of the builtin store: an entry is keyed by its mode.
pub open spec fn by_mode() -> spec_fn(AuraEffect) -> AuraModeNum {
    |e: AuraEffect| e.mode
}

impl View for BuiltinMap {
    type V = Seq<AuraEffect>;

    closed spec fn view(&self) -> Seq<AuraEffect> {
        self.entries@
    }
}

impl BuiltinMap {
    /// Entries are strictly ascending by mode byte, so each mode occurs
    /// at most once.
    pub open spec fn wf(self) -> bool {
        sorted_by_mode(self@)
    }

    /// The effect stored for `m`, if any.
    pub open spec fn spec_get(self, m: AuraModeNum) -> Option<AuraEffect> {
        assoc_first(self@, by_mode(), m)
    }

    pub fn new() -> (r: BuiltinMap)
        ensures
            r.wf(),
            r@ == Seq::<AuraEffect>::empty(),
    {
        let r = BuiltinMap { entries: Vec::new() };
        proof {
            assert(r@ =~= Seq::<AuraEffect>::empty());
        }
        r
    }

    pub fn len(&self) -> (r: usize)
        ensures
            r == self@.len(),
    {
        self.entries.len()
    }

    /// A copy of the entry list, in stored (mode-byte) order.
    pub fn entries(&self) -> (r: Vec<AuraEffect>)
        ensures
            r@ == self@,
    {
        self.entries.clone()
    }

    pub fn index(&self, i: usize) -> (r: AuraEffect)
        requires
            i < self@.len(),
        ensures
            r == self@[i as int],
    {
        self.entries[i]
    }

    pub fn get(&self, m: AuraModeNum) -> (r: Option<AuraEffect>)
        ensures
            r == self.spec_get(m),
    {
        let ghost key = by_mode();
        let mut i: usize = 0;
        while i < self.entries.len() && self.entries[i].mode != m
            invariant
                i <= self@.len(),
                forall|j: int| 0 <= j < i ==> self@[j].mode != m,
            decreases self@.len() - i,
        {
            i = i + 1;
        }
        proof {
            assert forall|j: int| 0 <= j < i implies key(self@[j]) != m by {
                assert(key(self@[j]) == self@[j].mode);
            }
            lemma_assoc_skip(self@, key, m, i as int);
        }
        if i < self.entries.len() {
            proof {
                let tail = self@.subrange(i as int, self@.len() as int);
                assert(tail[0] == self@[i as int]);
                assert(key(tail[0]) == tail[0].mode);
            }
            Some(self.entries[i])
        } else {
            proof {
                assert(self@.subrange(i as int, self@.len() as int).len() == 0);
            }
            None
        }
    }

    /// Stores `e` under its mode: the entry for `e.mode` becomes `e` and
    /// every other mode keeps its previous entry.
    pub fn insert(&mut self, e: AuraEffect)
        requires
            old(self).wf(),
        ensures
            final(self).wf(),
            final(self).spec_get(e.mode) == Some(e),
            forall|m: AuraModeNum|
                m != e.mode ==> final(self).spec_get(m) == old(self).spec_get(m),
    {
        let ghost key = by_mode();
        let ghost s0 = self@;
        let mut i: usize = 0;
        while i < self.entries.len() && self.entries[i].mode.num() < e.mode.num()
            invariant
                self@ == s0,
                self.wf(),
                i <= self@.len(),
                forall|j: int| 0 <= j < i ==> self@[j].mode.spec_num() < e.mode.spec_num(),
            decreases self@.len() - i,
        {
            i = i + 1;
        }
        proof {
            assert forall|j: int| 0 <= j < i implies key(s0[j]) != e.mode by {
                assert(key(s0[j]) == s0[j].mode);
                lemma_mode_prefix_ne(s0[j].mode, e.mode);
            }
        }
        if i < self.entries.len() && self.entries[i].mode.num() == e.mode.num() {
            proof {
                crate::aura::lemma_mode_num_injective(self@[i as int].mode, e.mode);
            }
            let _ = self.entries.remove(i);
            self.entries.insert(i, e);
            proof {
                assert(self@ =~= s0.update(i as int, e));
                lemma_assoc_skip(self@, key, e.mode, i as int);
                let tail = self@.subrange(i as int, self@.len() as int);
                assert(tail[0] == e);
                assert forall|m: AuraModeNum| m != e.mode implies assoc_first(self@, key, m)
                    == assoc_first(s0, key, m) by {
                    lemma_assoc_agree(self@, s0, key, m);
                }
            }
        } else {
            self.entries.insert(i, e);
            proof {
                assert(self@ =~= s0.subrange(0, i as int) + seq![e]
                    + s0.subrange(i as int, s0.len() as int));
                assert forall|a: int, b: int| 0 <= a < b < self@.len() implies
                    self@[a].mode.spec_num() < self@[b].mode.spec_num() by {
                    if a < i && b > i {
                        assert(self@[a] == s0[a]);
                        assert(self@[b] == s0[b - 1]);
                    }
                }
                lemma_assoc_skip(self@, key, e.mode, i as int);
                let tail = self@.subrange(i as int, self@.len() as int);
                assert(tail[0] == e);
                assert forall|m: AuraModeNum| m != e.mode implies assoc_first(self@, key, m)
                    == assoc_first(s0, key, m) by {
                    lemma_assoc_insert_other(s0, key, e, i as int, m);
                }
            }
        }
    }
}

/// Two modes whose bytes are ordered strictly are distinct.
proof fn lemma_mode_prefix_ne(a: AuraModeNum, b: AuraModeNum)
    requires
        a.spec_num() < b.spec_num(),
    ensures
        a != b,
{
}

impl BuiltinMap {
    /// Appends an entry whose mode byte lies strictly above every stored
    /// one; reports `false` and stays unchanged otherwise.  This is how a
    /// parser rebuilds a store from entries read in stored order.
    pub fn try_push(&mut self, e: AuraEffect) -> (ok: bool)
        requires
            old(self).wf(),
        ensures
            final(self).wf(),
            ok == (old(self)@.len() == 0 || old(self)@.last().mode.spec_num()
                < e.mode.spec_num()),
            ok ==> final(self)@ == old(self)@.push(e),
            !ok ==> final(self)@ == old(self)@,
    {
        let n = self.entries.len();
        if n == 0 || self.entries[n - 1].mode.num() < e.mode.num() {
            self.entries.push(e);
            proof {
                let s = self@;
                assert forall|a: int, b: int| 0 <= a < b < s.len() implies
                    s[a].mode.spec_num() < s[b].mode.spec_num() by {
                    if b == s.len() - 1 && a < b {
                        if a < s.len() - 2 {
                            assert(s[a].mode.spec_num() < s[s.len() - 2].mode.spec_num());
                        }
                    }
                }
            }
            true
        } else {
            false
        }
    }
}

/// One entry of the multizone store: the ordered effects configured for
/// the zones of one mode.
#[derive(Clone, Debug, PartialEq)]
pub struct MultiZoneEntry {
    pub mode: AuraModeNum,
    pub effects: Vec<AuraEffect>,
}

/// The per-mode store of zoned effects.
#[derive(Clone, Debug, PartialEq)]
pub struct MultizoneMap {
    entries: Vec<MultiZoneEntry>,
}

/// Key function of the multizone store: an entry is keyed by its mode.
pub open spec fn by_fst() -> spec_fn((AuraModeNum, Seq<AuraEffect>)) -> AuraModeNum {
    |p: (AuraModeNum, Seq<AuraEffect>)| p.0
}

/// Key function inside one mode's effect list: an effect is keyed by its
/// zone.
pub open spec fn by_zone() -> spec_fn(AuraEffect) -> AuraZone {
    |e: AuraEffect| e.zone
}

/// The effects of one mode's list all carry that mode, and no two carry
/// the same zone.
pub open spec fn inner_wf(m: AuraModeNum, s: Seq<AuraEffect>) -> bool {
    &&& forall|i: int| 0 <= i < s.len() ==> s[i].mode == m
    &&& forall|i: int, j: int| 0 <= i < j < s.len() ==> s[i].zone != s[j].zone
}

impl View for MultizoneMap {
    type V = Seq<(AuraModeNum, Seq<AuraEffect>)>;

    closed spec fn view(&self) -> Seq<(AuraModeNum, Seq<AuraEffect>)> {
        self.entries@.map_values(|me: MultiZoneEntry| (me.mode, me.effects@))
    }
}

impl MultizoneMap {
    /// Entries are strictly ascending by mode byte and each entry's list
    /// is well formed for its mode.
    pub open spec fn wf(self) -> bool {
        &&& sorted_by_fst(self@)
        &&& forall|i: int| 0 <= i < self@.len() ==> inner_wf(self@[i].0, self@[i].1)
    }

    /// The effect list stored for `m`, if any.
    pub open spec fn spec_get(self, m: AuraModeNum) -> Option<Seq<AuraEffect>> {
        match assoc_first(self@, by_fst(), m) {
            Some(p) => Some(p.1),
            None => None,
        }
    }

    pub fn new() -> (r: MultizoneMap)
        ensures
            r.wf(),
            r@ == Seq::<(AuraModeNum, Seq<AuraEffect>)>::empty(),
    {
        let r = MultizoneMap { entries: Vec::new() };
        proof {
            assert(r@ =~= Seq::<(AuraModeNum, Seq<AuraEffect>)>::empty());
        }
        r
    }

    pub fn len(&self) -> (r: usize)
        ensures
            r == self@.len(),
    {
        self.entries.len()
    }

    pub fn mode_at(&self, i: usize) -> (r: AuraModeNum)
        requires
            i < self@.len(),
        ensures
            r == self@[i as int].0,
    {
        self.entries[i].mode
    }

    pub fn effects_at(&self, i: usize) -> (r: Vec<AuraEffect>)
        requires
            i < self@.len(),
        ensures
            r@ == self@[i as int].1,
    {
        self.entries[i].effects.clone()
    }

    /// Looks up the position of the entry for `m`, if any.
    fn find(&self, m: AuraModeNum) -> (r: Option<usize>)
        ensures
            match r {
                Some(i) => i < self@.len() && self@[i as int].0 == m
                    && forall|j: int| 0 <= j < i ==> self@[j].0 != m,
                None => forall|j: int| 0 <= j < self@.len() ==> self@[j].0 != m,
            },
    {
        let mut i: usize = 0;
        while i < self.entries.len() && self.entries[i].mode != m
            invariant
                i <= self@.len(),
                forall|j: int| 0 <= j < i ==> self@[j].0 != m,
            decreases self@.len() - i,
        {
            i = i + 1;
        }
        if i < self.entries.len() {
            Some(i)
        } else {
            None
        }
    }

    pub fn get(&self, m: AuraModeNum) -> (r: Option<Vec<AuraEffect>>)
        ensures
            r is Some <==> self.spec_get(m) is Some,
            r is Some ==> r.unwrap()@ == self.spec_get(m).unwrap(),
    {
        let ghost key = by_fst();
        let r = self.find(m);
        match r {
            Some(i) => {
                proof {
                    assert forall|j: int| 0 <= j < i implies key(self@[j]) != m by {
                        assert(key(self@[j]) == self@[j].0);
                    }
                    lemma_assoc_skip(self@, key, m, i as int);
                    let tail = self@.subrange(i as int, self@.len() as int);
                    assert(tail[0] == self@[i as int]);
                    assert(key(tail[0]) == tail[0].0);
                }
                Some(self.entries[i].effects.clone())
            },
            None => {
                proof {
                    assert forall|j: int| 0 <= j < self@.len() implies key(self@[j]) != m by {
                        assert(key(self@[j]) == self@[j].0);
                    }
                    lemma_assoc_skip(self@, key, m, self@.len() as int);
                    assert(self@.subrange(self@.len() as int, self@.len() as int).len() == 0);
                }
                None
            },
        }
    }

    /// Appends an entry whose mode byte lies strictly above every stored
    /// one and whose list is well formed for it; reports `false` and
    /// stays unchanged otherwise.
    pub fn try_push_entry(&mut self, mode: AuraModeNum, effects: Vec<AuraEffect>) -> (ok: bool)
        requires
            old(self).wf(),
        ensures
            final(self).wf(),
            ok == ((old(self)@.len() == 0 || old(self)@.last().0.spec_num() < mode.spec_num())
                && inner_wf(mode, effects@)),
            ok ==> final(self)@ == old(self)@.push((mode, effects@)),
            !ok ==> final(self)@ == old(self)@,
    {
        let n = self.entries.len();
        let key_ok = n == 0 || self.entries[n - 1].mode.num() < mode.num();
        if key_ok && check_inner_wf(mode, &effects) {
            let ghost s0 = self@;
            let ghost effv = effects@;
            self.entries.push(MultiZoneEntry { mode, effects });
            proof {
                assert(self@ =~= s0.push((mode, effv)));
                let s = self@;
                assert forall|a: int, b: int| 0 <= a < b < s.len() implies
                    s[a].0.spec_num() < s[b].0.spec_num() by {
                    if b == s.len() - 1 && a < s.len() - 2 {
                        assert(s[a].0.spec_num() < s[s.len() - 2].0.spec_num());
                    }
                }
            }
            true
        } else {
            false
        }
    }

    /// Stores the zoned effect `e` as the persisted-configuration routing
    /// rule asks: if a list exists for `e.mode`, the entry for `e.zone`
    /// in it becomes `e` (replacing the old one or appended) and every
    /// other zone keeps its entry; if no list exists, a fresh list
    /// holding only `e` is added for `e.mode`.  Entries of other modes
    /// are untouched either way.
    pub fn upsert_zone(&mut self, e: AuraEffect)
        requires
            old(self).wf(),
            e.zone != AuraZone::Global,
        ensures
            final(self).wf(),
            final(self).spec_get(e.mode) is Some,
            forall|m: AuraModeNum|
                m != e.mode ==> final(self).spec_get(m) == old(self).spec_get(m),
            match (old(self).spec_get(e.mode), final(self).spec_get(e.mode)) {
                (Some(v0), Some(v1)) => {
                    &&& assoc_first(v1, by_zone(), e.zone) == Some(e)
                    &&& forall|z: AuraZone|
                        z != e.zone ==> assoc_first(v1, by_zone(), z) == assoc_first(
                            v0,
                            by_zone(),
                            z,
                        )
                    &&& v1.len() == if assoc_first(v0, by_zone(), e.zone) is Some {
                        v0.len()
                    } else {
                        v0.len() + 1
                    }
                },
                (None, Some(v1)) => v1 == seq![e],
                _ => false,
            },
    {
        let ghost okey = by_fst();
        let ghost s0 = self@;
        let mut i: usize = 0;
        while i < self.entries.len() && self.entries[i].mode.num() < e.mode.num()
            invariant
                self@ == s0,
                self.wf(),
                i <= self@.len(),
                forall|j: int| 0 <= j < i ==> self@[j].0.spec_num() < e.mode.spec_num(),
            decreases self@.len() - i,
        {
            i = i + 1;
        }
        proof {
            assert forall|j: int| 0 <= j < i implies okey(s0[j]) != e.mode by {
                assert(okey(s0[j]) == s0[j].0);
            }
        }
        if i < self.entries.len() && self.entries[i].mode.num() == e.mode.num() {
            proof {
                crate::aura::lemma_mode_num_injective(s0[i as int].0, e.mode);
                assert(inner_wf(s0[i as int].0, s0[i as int].1));
            }
            proof {
                lemma_assoc_skip(s0, okey, e.mode, i as int);
                let tail0 = s0.subrange(i as int, s0.len() as int);
                assert(tail0[0] == s0[i as int]);
                assert(okey(tail0[0]) == tail0[0].0);
            }
            let ghost v0 = s0[i as int].1;
            let mut list = self.entries[i].effects.clone();
            upsert_zone_in_list(&mut list, e, Ghost(e.mode));
            let ghost v1 = list@;
            let _ = self.entries.remove(i);
            self.entries.insert(i, MultiZoneEntry { mode: e.mode, effects: list });
            proof {
                assert(self@ =~= s0.update(i as int, (e.mode, v1)));
                lemma_assoc_skip(self@, okey, e.mode, i as int);
                let tail = self@.subrange(i as int, self@.len() as int);
                assert(tail[0] == self@[i as int]);
                assert(okey(tail[0]) == tail[0].0);
                assert forall|m: AuraModeNum| m != e.mode implies assoc_first(
                    self@,
                    okey,
                    m,
                ) == assoc_first(s0, okey, m) by {
                    assert forall|j: int| 0 <= j < s0.len() implies ((okey(self@[j]) == m)
                        <==> (okey(s0[j]) == m)) && (okey(self@[j]) == m ==> self@[j]
                        == s0[j]) by {
                        assert(okey(self@[j]) == self@[j].0);
                        assert(okey(s0[j]) == s0[j].0);
                    }
                    lemma_assoc_agree(self@, s0, okey, m);
                }
            }
        } else {
            proof {
                assert forall|j: int| 0 <= j < s0.len() implies okey(s0[j]) != e.mode by {
                    assert(okey(s0[j]) == s0[j].0);
                    if j >= i && s0[j].0 == e.mode {
                        assert(s0[i as int].0.spec_num() <= s0[j].0.spec_num());
                    }
                }
                lemma_assoc_skip(s0, okey, e.mode, s0.len() as int);
                assert(s0.subrange(s0.len() as int, s0.len() as int).len() == 0);
            }
            self.entries.insert(i, MultiZoneEntry { mode: e.mode, effects: vec_of_one(e) });
            proof {
                assert(self@ =~= s0.subrange(0, i as int) + seq![(e.mode, seq![e])]
                    + s0.subrange(i as int, s0.len() as int));
                assert forall|a: int, b: int| 0 <= a < b < self@.len() implies
                    self@[a].0.spec_num() < self@[b].0.spec_num() by {
                    if a < i && b > i {
                        assert(self@[a] == s0[a]);
                        assert(self@[b] == s0[b - 1]);
                    }
                }
                lemma_assoc_skip(self@, okey, e.mode, i as int);
                let tail = self@.subrange(i as int, self@.len() as int);
                assert(tail[0] == self@[i as int]);
                assert(okey(tail[0]) == tail[0].0);
                assert forall|m: AuraModeNum| m != e.mode implies assoc_first(
                    self@,
                    okey,
                    m,
                ) == assoc_first(s0, okey, m) by {
                    lemma_assoc_insert_other(s0, okey, (e.mode, seq![e]), i as int, m);
                }
            }
        }
    }
}

/// A vector holding exactly one element.
fn vec_of_one(e: AuraEffect) -> (r: Vec<AuraEffect>)
    ensures
        r@ == seq![e],
{
    let mut v: Vec<AuraEffect> = Vec::new();
    v.push(e);
    proof {
        assert(v@ =~= seq![e]);
    }
    v
}

/// Replaces the entry for `e.zone` in one mode's effect list, or appends
/// `e` if no entry carries that zone.
fn upsert_zone_in_list(list: &mut Vec<AuraEffect>, e: AuraEffect, Ghost(m): Ghost<AuraModeNum>)
    requires
        inner_wf(m, old(list)@),
        e.mode == m,
    ensures
        inner_wf(m, final(list)@),
        assoc_first(final(list)@, by_zone(), e.zone) == Some(e),
        forall|z: AuraZone|
            z != e.zone ==> assoc_first(final(list)@, by_zone(), z) == assoc_first(
                old(list)@,
                by_zone(),
                z,
            ),
        final(list)@.len() == if assoc_first(old(list)@, by_zone(), e.zone) is Some {
            old(list)@.len()
        } else {
            old(list)@.len() + 1
        },
{
    let ghost zkey = by_zone();
    let ghost v0 = list@;
    let mut i: usize = 0;
    while i < list.len() && list[i].zone != e.zone
        invariant
            list@ == v0,
            i <= v0.len(),
            forall|j: int| 0 <= j < i ==> v0[j].zone != e.zone,
        decreases v0.len() - i,
    {
        i = i + 1;
    }
    proof {
        assert forall|j: int| 0 <= j < i implies zkey(v0[j]) != e.zone by {
            assert(zkey(v0[j]) == v0[j].zone);
        }
        lemma_assoc_skip(v0, zkey, e.zone, i as int);
    }
    if i < list.len() {
        proof {
            let tail = v0.subrange(i as int, v0.len() as int);
            assert(tail[0] == v0[i as int]);
            assert(zkey(tail[0]) == tail[0].zone);
        }
        let _ = list.remove(i);
        list.insert(i, e);
        proof {
            assert(list@ =~= v0.update(i as int, e));
            lemma_assoc_skip(list@, zkey, e.zone, i as int);
            let tail = list@.subrange(i as int, list@.len() as int);
            assert(tail[0] == e);
            assert(zkey(tail[0]) == tail[0].zone);
            assert forall|z: AuraZone| z != e.zone implies assoc_first(list@, zkey, z)
                == assoc_first(v0, zkey, z) by {
                assert forall|j: int| 0 <= j < v0.len() implies ((zkey(list@[j]) == z) <==> (
                zkey(v0[j]) == z)) && (zkey(list@[j]) == z ==> list@[j] == v0[j]) by {
                    assert(zkey(list@[j]) == list@[j].zone);
                    assert(zkey(v0[j]) == v0[j].zone);
                }
                lemma_assoc_agree(list@, v0, zkey, z);
            }
        }
    } else {
        list.push(e);
        proof {
            assert(list@ =~= v0.push(e));
            lemma_assoc_skip(list@, zkey, e.zone, i as int);
            let tail = list@.subrange(i as int, list@.len() as int);
            assert(tail[0] == e);
            assert(zkey(tail[0]) == tail[0].zone);
            assert forall|z: AuraZone| z != e.zone implies assoc_first(list@, zkey, z)
                == assoc_first(v0, zkey, z) by {
                assert(list@ == v0.subrange(0, v0.len() as int) + seq![e]
                    + v0.subrange(v0.len() as int, v0.len() as int));
                lemma_assoc_insert_other(v0, zkey, e, v0.len() as int, z);
            }
        }
    }
}

/// Checks executably that `effects` is a well-formed list for `m`.
pub(crate) fn check_inner_wf(m: AuraModeNum, effects: &Vec<AuraEffect>) -> (r: bool)
    ensures
        r == inner_wf(m, effects@),
{
    let n = effects.len();
    let mut i: usize = 0;
    while i < n
        invariant
            n == effects@.len(),
            i <= n,
            forall|a: int| 0 <= a < i ==> effects@[a].mode == m,
            forall|a: int, b: int| 0 <= a < b < effects@.len() && b < i ==> effects@[a].zone
                != effects@[b].zone,
        decreases n - i,
    {
        if effects[i].mode != m {
            return false;
        }
        let mut j: usize = 0;
        while j < i
            invariant
                n == effects@.len(),
                i < n,
                j <= i,
                forall|a: int| 0 <= a < j ==> effects@[a].zone != effects@[i as int].zone,
            decreases i - j,
        {
            if effects[j].zone == effects[i].zone {
                return false;
            }
            j = j + 1;
        }
        i = i + 1;
    }
    true
}

} // verus!
