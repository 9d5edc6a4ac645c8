//! Bounded per-session preference store. Maps a session identifier to its
//! preference record and holds at most a fixed number of records, evicting
//! the least-recently-written entry when an insertion exceeds the bound.
//!
//! The store is modelled as a sequence of key/record pairs ordered from
//! most- to least-recently written, with pairwise-distinct keys. Reads are
//! pure lookups: a miss returns the default record without creating an
//! entry, so read-only queries never consume capacity. Serialization of
//! concurrent access is the caller's concern; every method here is a plain
//! sequential read-modify-write on the whole store.

use vstd::prelude::*;

use crate::prefs::{CutInterval, Mode, Quality, UserConfig, UserConfigV, default_prefs};
use lru::LruCache;
use core::num::NonZeroUsize;

verus! {

#[verifier::external_type_specification]
#[verifier::external_body]
#[verifier::reject_recursive_types(K)]
#[verifier::reject_recursive_types(V)]
#[verifier::reject_recursive_types(S)]
pub struct ExLruCache<K, V, S>(LruCache<K, V, S>);

/// The contents of a cache: key/record pairs from most- to
/// least-recently written.
pub uninterp spec fn lru_entries(c: LruCache<i64, UserConfig>) -> Seq<(i64, UserConfigV)>;

/// The bound the cache was created with.
pub uninterp spec fn lru_capacity(c: LruCache<i64, UserConfig>) -> nat;

/// Whether some entry of `s` carries the key `k`.
pub open spec fn has_key(s: Seq<(i64, UserConfigV)>, k: i64) -> bool {
    exists|i: int| 0 <= i < s.len() && s[i].0 == k
}

/// The record stored under `k`, searching from the most recent entry.
pub open spec fn lookup(s: Seq<(i64, UserConfigV)>, k: i64) -> Option<UserConfigV>
    decreases s.len(),
{
    if s.len() == 0 {
        None
    } else if s[0].0 == k {
        Some(s[0].1)
    } else {
        lookup(s.drop_first(), k)
    }
}

/// `s` with every entry keyed `k` removed, order kept.
pub open spec fn remove_key(s: Seq<(i64, UserConfigV)>, k: i64) -> Seq<(i64, UserConfigV)>
    decreases s.len(),
{
    if s.len() == 0 {
        Seq::empty()
    } else if s[0].0 == k {
        remove_key(s.drop_first(), k)
    } else {
        seq![s[0]] + remove_key(s.drop_first(), k)
    }
}

/// No two entries of `s` share a key.
pub open spec fn distinct_keys(s: Seq<(i64, UserConfigV)>) -> bool {
    forall|i: int, j: int| 0 <= i < j < s.len() ==> s[i].0 != s[j].0
}

/// The effect of a most-recently-used insertion with eviction beyond
/// `cap`: any prior entry for `k` goes away, the new pair enters at the
/// front, and whatever then lies beyond the bound is dropped.
pub open spec fn put_model(
    s: Seq<(i64, UserConfigV)>,
    k: i64,
    v: UserConfigV,
    cap: nat,
) -> Seq<(i64, UserConfigV)> {
    let pushed = seq![(k, v)] + remove_key(s, k);
    if pushed.len() > cap {
        pushed.take(cap as int)
    } else {
        pushed
    }
}

/// Relies on lru::LruCache::new: creates an empty cache that holds at
/// most `cap` items.
#[verifier::external_body]
fn lru_new(cap: usize) -> (c: LruCache<i64, UserConfig>)
    requires
        1 <= cap,
    ensures
        lru_entries(c) == Seq::<(i64, UserConfigV)>::empty(),
        lru_capacity(c) == cap,
{
    LruCache::new(NonZeroUsize::new(cap).unwrap())
}

/// Relies on lru::LruCache::peek: looks the key up without touching the
/// recency order.
#[verifier::external_body]
fn lru_peek<'a>(c: &'a LruCache<i64, UserConfig>, k: i64) -> (r: Option<&'a UserConfig>)
    ensures
        match r {
            Some(v) => lookup(lru_entries(*c), k) == Some(v@),
            None => lookup(lru_entries(*c), k) is None,
        },
{
    c.peek(&k)
}

/// Relies on lru::LruCache::put: moves or inserts the pair at the
/// most-recent end, evicting the least-recently-used entry when a new key
/// exceeds the capacity.
#[verifier::external_body]
fn lru_put(c: &mut LruCache<i64, UserConfig>, k: i64, v: UserConfig)
    ensures
        lru_entries(*final(c)) == put_model(
            lru_entries(*old(c)),
            k,
            v@,
            lru_capacity(*old(c)),
        ),
        lru_capacity(*final(c)) == lru_capacity(*old(c)),
{
    c.put(k, v);
}

proof fn lemma_remove_key_props(s: Seq<(i64, UserConfigV)>, k: i64)
    ensures
        !has_key(remove_key(s, k), k),
        remove_key(s, k).len() <= s.len(),
        forall|i: int| 0 <= i < remove_key(s, k).len() ==> s.contains(#[trigger] remove_key(s, k)[i]),
    decreases s.len(),
{
    if s.len() > 0 {
        lemma_remove_key_props(s.drop_first(), k);
        let rest = remove_key(s.drop_first(), k);
        assert forall|i: int| 0 <= i < rest.len() implies s.contains(#[trigger] rest[i]) by {
            assert(s.drop_first().contains(rest[i]));
            let j = choose|j: int| 0 <= j < s.drop_first().len() && s.drop_first()[j] == rest[i];
            assert(s[j + 1] == rest[i]);
        }
        if s[0].0 != k {
            let out = seq![s[0]] + rest;
            assert forall|i: int| 0 <= i < out.len() implies s.contains(#[trigger] out[i]) by {
                if i == 0 {
                    assert(s[0] == out[0]);
                } else {
                    assert(out[i] == rest[i - 1]);
                }
            }
            assert forall|i: int| 0 <= i < out.len() implies out[i].0 != k by {
                if i > 0 {
                    assert(rest[i - 1].0 != k);
                }
            }
        }
    }
}

proof fn lemma_remove_key_distinct(s: Seq<(i64, UserConfigV)>, k: i64)
    requires
        distinct_keys(s),
    ensures
        distinct_keys(remove_key(s, k)),
        forall|k2: i64| lookup(remove_key(s, k), k2) == (if k2 == k {
            None::<UserConfigV>
        } else {
            lookup(s, k2)
        }),
    decreases s.len(),
{
    if s.len() > 0 {
        assert forall|i: int, j: int| 0 <= i < j < s.drop_first().len() implies s.drop_first()[i].0
            != s.drop_first()[j].0 by {
            assert(s[i + 1].0 != s[j + 1].0);
        }
        lemma_remove_key_distinct(s.drop_first(), k);
        lemma_remove_key_props(s.drop_first(), k);
        let rest = remove_key(s.drop_first(), k);
        if s[0].0 != k {
            let out = seq![s[0]] + rest;
            assert forall|i: int, j: int| 0 <= i < j < out.len() implies out[i].0 != out[j].0 by {
                if i == 0 {
                    assert(s.drop_first().contains(rest[j - 1]));
                    let m = choose|m: int|
                        0 <= m < s.drop_first().len() && s.drop_first()[m] == rest[j - 1];
                    assert(s[m + 1] == rest[j - 1]);
                    assert(s[0].0 != s[m + 1].0);
                } else {
                    assert(rest[i - 1].0 != rest[j - 1].0);
                }
            }
            assert forall|k2: i64| lookup(out, k2) == (if k2 == k {
                None::<UserConfigV>
            } else {
                lookup(s, k2)
            }) by {
                assert(out[0] == s[0]);
                assert(out.drop_first() =~= rest);
                if k2 != s[0].0 {
                    assert(lookup(out, k2) == lookup(rest, k2));
                }
            }
        } else {
            assert forall|k2: i64| lookup(rest, k2) == (if k2 == k {
                None::<UserConfigV>
            } else {
                lookup(s, k2)
            }) by {
                if k2 != k && k2 != s[0].0 {
                    assert(lookup(s, k2) == lookup(s.drop_first(), k2));
                }
            }
        }
    }
}

/// Inserting preserves key distinctness and the capacity bound, and the
/// inserted record is found afterwards.
proof fn lemma_put_model(s: Seq<(i64, UserConfigV)>, k: i64, v: UserConfigV, cap: nat)
    requires
        distinct_keys(s),
        cap >= 1,
    ensures
        distinct_keys(put_model(s, k, v, cap)),
        put_model(s, k, v, cap).len() <= cap,
        lookup(put_model(s, k, v, cap), k) == Some(v),
{
    lemma_remove_key_props(s, k);
    lemma_remove_key_distinct(s, k);
    let removed = remove_key(s, k);
    let pushed = seq![(k, v)] + removed;
    assert forall|i: int, j: int| 0 <= i < j < pushed.len() implies pushed[i].0 != pushed[j].0 by {
        if i == 0 {
            assert(pushed[j] == removed[j - 1]);
            assert(!has_key(removed, k));
            assert(removed[j - 1].0 != k);
        } else {
            assert(pushed[i] == removed[i - 1] && pushed[j] == removed[j - 1]);
        }
    }
    let out = put_model(s, k, v, cap);
    if pushed.len() > cap {
        assert(out =~= pushed.take(cap as int));
        assert forall|i: int, j: int| 0 <= i < j < out.len() implies out[i].0 != out[j].0 by {
            assert(pushed[i].0 != pushed[j].0);
        }
        assert(out[0] == (k, v));
    } else {
        assert(out[0] == (k, v));
    }
}

/// The session store: at most `capacity` preference records, keyed by
/// session identifier, least-recently-written evicted first.
pub struct State {
    configs: LruCache<i64, UserConfig>,
}

impl State {
    /// The key/record pairs presently stored, most recent first.
    pub closed spec fn entries(&self) -> Seq<(i64, UserConfigV)> {
        lru_entries(self.configs)
    }

    /// The bound the store was created with.
    pub closed spec fn capacity(&self) -> nat {
        lru_capacity(self.configs)
    }

    /// Well-formedness: distinct keys, within capacity, bound positive.
    pub open spec fn wf(&self) -> bool {
        &&& distinct_keys(self.entries())
        &&& self.entries().len() <= self.capacity()
        &&& self.capacity() >= 1
    }

    /// The record the store answers for `id`: the stored one, or the
    /// default record on a miss.
    pub open spec fn spec_get(&self, id: i64) -> UserConfigV {
        match lookup(self.entries(), id) {
            Some(v) => v,
            None => default_prefs(),
        }
    }

    pub fn new() -> (s: State)
        ensures
            s.wf(),
            s.capacity() == 100,
            s.entries().len() == 0,
    {
        let configs = lru_new(100);
        State { configs }
    }

    /// Pure lookup: never fails, never inserts, never reorders.
    pub fn get_userconfig(&self, chat_id: i64) -> (r: UserConfig)
        ensures
            r@ == self.spec_get(chat_id),
    {
        match lru_peek(&self.configs, chat_id) {
            Some(v) => v.clone(),
            None => UserConfig::new(),
        }
    }

    pub fn get_mode(&self, chat_id: i64) -> (m: Mode)
        ensures
            m == self.spec_get(chat_id).mode,
    {
        self.get_userconfig(chat_id).mode
    }

    /// Whole-record replace; returns the stored record.
    pub fn set_userconfig(&mut self, chat_id: i64, val: UserConfig) -> (r: UserConfig)
        requires
            old(self).wf(),
        ensures
            final(self).wf(),
            final(self).capacity() == old(self).capacity(),
            final(self).entries() == put_model(
                old(self).entries(),
                chat_id,
                val@,
                old(self).capacity(),
            ),
            final(self).spec_get(chat_id) == val@,
            r@ == val@,
    {
        let r = val.clone();
        proof {
            lemma_put_model(self.entries(), chat_id, val@, self.capacity());
        }
        lru_put(&mut self.configs, chat_id, val);
        r
    }

    /// Atomic read-modify-write: reads the current record (default if
    /// absent), applies the pure transformation `f`, stores and returns
    /// the result.
    pub fn update_userconfig<F: FnOnce(UserConfig) -> UserConfig>(
        &mut self,
        chat_id: i64,
        f: F,
    ) -> (r: UserConfig)
        requires
            old(self).wf(),
            forall|c: UserConfig| c@ == old(self).spec_get(chat_id) ==> call_requires(f, (c,)),
        ensures
            final(self).wf(),
            final(self).capacity() == old(self).capacity(),
            exists|c: UserConfig, out: UserConfig|
                c@ == old(self).spec_get(chat_id) && #[trigger] call_ensures(f, (c,), out)
                    && out@ == r@,
            final(self).entries() == put_model(
                old(self).entries(),
                chat_id,
                r@,
                old(self).capacity(),
            ),
            final(self).spec_get(chat_id) == r@,
    {
        let cur = self.get_userconfig(chat_id);
        let new_val = f(cur);
        let r = new_val.clone();
        proof {
            lemma_put_model(self.entries(), chat_id, new_val@, self.capacity());
        }
        lru_put(&mut self.configs, chat_id, new_val);
        r
    }

    pub fn set_mode(&mut self, chat_id: i64, mode: Mode) -> (r: UserConfig)
        requires
            old(self).wf(),
        ensures
            final(self).wf(),
            final(self).capacity() == old(self).capacity(),
            r@ == (UserConfigV { mode, ..old(self).spec_get(chat_id) }),
            final(self).entries() == put_model(
                old(self).entries(),
                chat_id,
                r@,
                old(self).capacity(),
            ),
            final(self).spec_get(chat_id) == r@,
    {
        let cur = self.get_userconfig(chat_id);
        let new_val = UserConfig { mode, ..cur };
        self.set_userconfig(chat_id, new_val)
    }

    pub fn set_video_quality(&mut self, chat_id: i64, vquality: Quality) -> (r: UserConfig)
        requires
            old(self).wf(),
        ensures
            final(self).wf(),
            final(self).capacity() == old(self).capacity(),
            r@ == (UserConfigV { vquality, ..old(self).spec_get(chat_id) }),
            final(self).entries() == put_model(
                old(self).entries(),
                chat_id,
                r@,
                old(self).capacity(),
            ),
            final(self).spec_get(chat_id) == r@,
    {
        let cur = self.get_userconfig(chat_id);
        let new_val = UserConfig { vquality, ..cur };
        self.set_userconfig(chat_id, new_val)
    }

    pub fn set_audio_quality(&mut self, chat_id: i64, aquality: Quality) -> (r: UserConfig)
        requires
            old(self).wf(),
        ensures
            final(self).wf(),
            final(self).capacity() == old(self).capacity(),
            r@ == (UserConfigV { aquality, ..old(self).spec_get(chat_id) }),
            final(self).entries() == put_model(
                old(self).entries(),
                chat_id,
                r@,
                old(self).capacity(),
            ),
            final(self).spec_get(chat_id) == r@,
    {
        let cur = self.get_userconfig(chat_id);
        let new_val = UserConfig { aquality, ..cur };
        self.set_userconfig(chat_id, new_val)
    }

    pub fn set_vcodec_exclude(&mut self, chat_id: i64, vcodec_exclude: Vec<String>) -> (r:
        UserConfig)
        requires
            old(self).wf(),
        ensures
            final(self).wf(),
            final(self).capacity() == old(self).capacity(),
            r@ == (UserConfigV {
                vcodec_exclude: vcodec_exclude.deep_view(),
                ..old(self).spec_get(chat_id)
            }),
            final(self).entries() == put_model(
                old(self).entries(),
                chat_id,
                r@,
                old(self).capacity(),
            ),
            final(self).spec_get(chat_id) == r@,
    {
        let cur = self.get_userconfig(chat_id);
        let new_val = UserConfig { vcodec_exclude, ..cur };
        self.set_userconfig(chat_id, new_val)
    }

    pub fn set_cut_inteval(&mut self, chat_id: i64, cut_interval: Option<CutInterval>) -> (r:
        UserConfig)
        requires
            old(self).wf(),
        ensures
            final(self).wf(),
            final(self).capacity() == old(self).capacity(),
            r@ == (UserConfigV { cut_interval, ..old(self).spec_get(chat_id) }),
            final(self).entries() == put_model(
                old(self).entries(),
                chat_id,
                r@,
                old(self).capacity(),
            ),
            final(self).spec_get(chat_id) == r@,
    {
        let cur = self.get_userconfig(chat_id);
        let new_val = UserConfig { cut_interval, ..cur };
        self.set_userconfig(chat_id, new_val)
    }
}

/// Eviction law: a full store that receives a record under a fresh key
/// drops exactly its least-recently-written entry, and a lookup of that
/// evicted key then misses (so a read answers the default record).
pub proof fn lemma_eviction(s: Seq<(i64, UserConfigV)>, k: i64, v: UserConfigV, cap: nat)
    requires
        distinct_keys(s),
        s.len() == cap,
        cap >= 1,
        !has_key(s, k),
    ensures
        put_model(s, k, v, cap) =~= seq![(k, v)] + s.take(cap - 1),
        lookup(put_model(s, k, v, cap), s[cap - 1].0) is None,
{
    lemma_remove_key_untouched(s, k);
    let pushed = seq![(k, v)] + s;
    assert(pushed.len() == cap + 1);
    let out = put_model(s, k, v, cap);
    assert(out =~= pushed.take(cap as int));
    assert(out =~= seq![(k, v)] + s.take(cap - 1));
    let evicted = s[cap - 1].0;
    assert(evicted != k);
    assert(out.drop_first() =~= s.take(cap - 1));
    assert forall|i: int| 0 <= i < s.take(cap - 1).len() implies (#[trigger] s.take(cap - 1)[i]).0
        != evicted by {
        assert(s[i].0 != s[cap - 1].0);
    }
    lemma_lookup_absent(s.take(cap - 1), evicted);
    assert(lookup(out, evicted) == lookup(s.take(cap - 1), evicted));
}

/// Removing a key that is not present leaves the sequence unchanged.
proof fn lemma_remove_key_untouched(s: Seq<(i64, UserConfigV)>, k: i64)
    requires
        !has_key(s, k),
    ensures
        remove_key(s, k) =~= s,
    decreases s.len(),
{
    if s.len() > 0 {
        assert(s[0].0 != k);
        assert forall|i: int| 0 <= i < s.drop_first().len() implies #[trigger] s.drop_first()[i].0
            != k by {
            assert(s[i + 1].0 != k);
        }
        lemma_remove_key_untouched(s.drop_first(), k);
    }
}

/// A key carried by no entry is not found.
proof fn lemma_lookup_absent(s: Seq<(i64, UserConfigV)>, k: i64)
    requires
        forall|i: int| 0 <= i < s.len() ==> (#[trigger] s[i]).0 != k,
    ensures
        lookup(s, k) is None,
    decreases s.len(),
{
    if s.len() > 0 {
        assert forall|i: int| 0 <= i < s.drop_first().len() implies (#[trigger] s.drop_first()[i]).0
            != k by {
            assert(s[i + 1].0 != k);
        }
        lemma_lookup_absent(s.drop_first(), k);
    }
}

} // verus!
