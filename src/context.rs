use vstd::prelude::*;
use crate::state::StateStore;
use crate::token::fresh_token;

verus! {

/// One registry entry: a caller-chosen key and its persistent token.
pub struct KeyEntry {
    pub key: String,
    pub token: u128,
}

/// The token that the registry `reg` holds for key `k`.
pub open spec fn lookup(reg: Seq<(Seq<char>, u128)>, k: Seq<char>) -> Option<u128>
    decreases reg.len(),
{
    if reg.len() == 0 {
        None
    } else if reg.last().0 == k {
        Some(reg.last().1)
    } else {
        lookup(reg.drop_last(), k)
    }
}

/// No key stands in two entries.
pub open spec fn keys_unique(reg: Seq<(Seq<char>, u128)>) -> bool {
    forall|i: int, j: int| 0 <= i < j < reg.len() ==> reg[i].0 != reg[j].0
}

/// Resolving `k` in `reg`: the new registry, the token and whether it is
/// new. `fresh` is the token drawn when `k` has none yet.
pub open spec fn resolve_spec(reg: Seq<(Seq<char>, u128)>, k: Seq<char>, fresh: u128) -> (
    Seq<(Seq<char>, u128)>,
    (u128, bool),
) {
    match lookup(reg, k) {
        Some(t) => (reg, (t, false)),
        None => (reg.push((k, fresh)), (fresh, true)),
    }
}

/// Entries whose key was touched in the cycle.
pub open spec fn kept_by(touched: Seq<Seq<char>>) -> spec_fn((Seq<char>, u128)) -> bool {
    |e: (Seq<char>, u128)| touched.contains(e.0)
}

/// The registry after a sweep: the entries touched in the cycle, in order.
pub open spec fn sweep_spec(reg: Seq<(Seq<char>, u128)>, touched: Seq<Seq<char>>) -> Seq<
    (Seq<char>, u128),
> {
    reg.filter(kept_by(touched))
}

proof fn lemma_lookup_hit(reg: Seq<(Seq<char>, u128)>, i: int)
    requires
        keys_unique(reg),
        0 <= i < reg.len(),
    ensures
        lookup(reg, reg[i].0) == Some(reg[i].1),
    decreases reg.len(),
{
    if i < reg.len() - 1 {
        let d = reg.drop_last();
        assert(d[i] == reg[i]);
        lemma_lookup_hit(d, i);
    }
}

proof fn lemma_lookup_found(reg: Seq<(Seq<char>, u128)>, k: Seq<char>)
    requires
        lookup(reg, k).is_some(),
    ensures
        exists|i: int| 0 <= i < reg.len() && reg[i] == (k, lookup(reg, k).unwrap()),
    decreases reg.len(),
{
    if reg.last().0 != k {
        let d = reg.drop_last();
        lemma_lookup_found(d, k);
        let i = choose|i: int| 0 <= i < d.len() && d[i] == (k, lookup(d, k).unwrap());
        assert(reg[i] == d[i]);
    } else {
        assert(reg[reg.len() - 1] == reg.last());
    }
}

proof fn lemma_filter_keeps_unique(
    reg: Seq<(Seq<char>, u128)>,
    pred: spec_fn((Seq<char>, u128)) -> bool,
)
    requires
        keys_unique(reg),
    ensures
        keys_unique(reg.filter(pred)),
        forall|x: (Seq<char>, u128)| reg.filter(pred).contains(x) ==> reg.contains(x),
    decreases reg.len(),
{
    reveal(Seq::filter);
    if reg.len() > 0 {
        let d = reg.drop_last();
        assert forall|i: int, j: int| 0 <= i < j < d.len() implies d[i].0 != d[j].0 by {
            assert(d[i] == reg[i] && d[j] == reg[j]);
        }
        lemma_filter_keeps_unique(d, pred);
        let f = d.filter(pred);
        assert forall|x: (Seq<char>, u128)| d.contains(x) implies reg.contains(x) by {
            let i = choose|i: int| 0 <= i < d.len() && d[i] == x;
            assert(reg[i] == x);
        }
        if pred(reg.last()) {
            let g = f.push(reg.last());
            assert forall|i: int, j: int| 0 <= i < j < g.len() implies g[i].0 != g[j].0 by {
                if j == g.len() - 1 {
                    assert(g[i] == f[i]);
                    assert(f.contains(f[i]));
                    assert(d.contains(f[i]));
                    let a = choose|a: int| 0 <= a < d.len() && d[a] == f[i];
                    assert(reg[a] == d[a]);
                    assert(reg[reg.len() - 1] == reg.last());
                } else {
                    assert(g[i] == f[i] && g[j] == f[j]);
                }
            }
            assert forall|x: (Seq<char>, u128)| g.contains(x) implies reg.contains(x) by {
                let i = choose|i: int| 0 <= i < g.len() && g[i] == x;
                if i == g.len() - 1 {
                    assert(reg[reg.len() - 1] == x);
                } else {
                    assert(f[i] == x);
                    assert(f.contains(x));
                }
            }
        }
    }
}

/// What a sweep keeps of one key: its token when the key was touched in the
/// cycle, nothing otherwise.
pub proof fn lemma_sweep_lookup(
    reg: Seq<(Seq<char>, u128)>,
    touched: Seq<Seq<char>>,
    k: Seq<char>,
)
    ensures
        lookup(sweep_spec(reg, touched), k) == (if touched.contains(k) {
            lookup(reg, k)
        } else {
            None
        }),
    decreases reg.len(),
{
    reveal(Seq::filter);
    if reg.len() > 0 {
        let d = reg.drop_last();
        lemma_sweep_lookup(d, touched, k);
        let f = d.filter(kept_by(touched));
        if kept_by(touched)(reg.last()) {
            assert(sweep_spec(reg, touched) == f.push(reg.last()));
            assert(f.push(reg.last()).drop_last() =~= f);
        } else {
            assert(sweep_spec(reg, touched) == f);
        }
    }
}

/// Resolving one key twice in a cycle gives one token, marks the second
/// result as not new, and leaves one entry for the key.
pub proof fn lemma_resolve_stable(
    reg: Seq<(Seq<char>, u128)>,
    k: Seq<char>,
    fresh1: u128,
    fresh2: u128,
)
    requires
        keys_unique(reg),
    ensures
        ({
            let (reg1, (t1, _)) = resolve_spec(reg, k, fresh1);
            let (reg2, (t2, is_new2)) = resolve_spec(reg1, k, fresh2);
            &&& t1 == t2
            &&& !is_new2
            &&& reg2 == reg1
            &&& keys_unique(reg2)
            &&& exists|i: int| 0 <= i < reg2.len() && reg2[i] == (k, t1)
        }),
{
    let reg1 = resolve_spec(reg, k, fresh1).0;
    lemma_resolve_keeps_unique(reg, k, fresh1);
    lemma_lookup_found(reg1, k);
}

/// Resolving keeps the keys unique.
pub proof fn lemma_resolve_keeps_unique(reg: Seq<(Seq<char>, u128)>, k: Seq<char>, fresh: u128)
    requires
        keys_unique(reg),
    ensures
        keys_unique(resolve_spec(reg, k, fresh).0),
        lookup(resolve_spec(reg, k, fresh).0, k) == Some(resolve_spec(reg, k, fresh).1.0),
{
    if lookup(reg, k).is_none() {
        let r = reg.push((k, fresh));
        assert forall|i: int, j: int| 0 <= i < j < r.len() implies r[i].0 != r[j].0 by {
            if j == r.len() - 1 {
                assert(r[i] == reg[i]);
                if reg[i].0 == k {
                    lemma_lookup_hit(reg, i);
                }
            } else {
                assert(r[i] == reg[i] && r[j] == reg[j]);
            }
        }
        assert(r.drop_last() == reg);
    }
}

/// A key left untouched for a whole cycle loses its token. Resolved in a
/// first cycle, it keeps its token through that cycle's sweep; not resolved
/// in a second cycle (touching `touched2`), it is gone after that sweep, and
/// resolving it in a third cycle draws a new token.
pub proof fn lemma_eviction(
    reg: Seq<(Seq<char>, u128)>,
    touched1: Seq<Seq<char>>,
    k: Seq<char>,
    fresh1: u128,
    touched2: Seq<Seq<char>>,
    fresh3: u128,
)
    requires
        !touched2.contains(k),
    ensures
        ({
            let (reg1, (t1, _)) = resolve_spec(reg, k, fresh1);
            let reg2 = sweep_spec(reg1, touched1.push(k));
            let reg3 = sweep_spec(reg2, touched2);
            &&& lookup(reg2, k) == Some(t1)
            &&& lookup(reg3, k) == None::<u128>
            &&& resolve_spec(reg3, k, fresh3) == (reg3.push((k, fresh3)), (fresh3, true))
        }),
{
    let reg1 = resolve_spec(reg, k, fresh1).0;
    let touched = touched1.push(k);
    assert(touched[touched.len() - 1] == k);
    assert(touched.contains(k));
    assert(reg.push((k, fresh1)).drop_last() =~= reg);
    lemma_sweep_lookup(reg1, touched, k);
    lemma_sweep_lookup(sweep_spec(reg1, touched), touched2, k);
}

/// The identity registry of one mounted instance, with its state store.
pub struct Context {
    pub uuid_map: Vec<KeyEntry>,
    pub current_cycle_keys: Vec<String>,
    pub state: StateStore,
}

impl Context {
    /// The registry's entries, in order of creation.
    pub open spec fn registry(&self) -> Seq<(Seq<char>, u128)> {
        self.uuid_map@.map_values(|e: KeyEntry| (e.key@, e.token))
    }

    /// The keys resolved in the current cycle, in order.
    pub open spec fn touched(&self) -> Seq<Seq<char>> {
        self.current_cycle_keys@.map_values(|s: String| s@)
    }

    pub open spec fn wf(&self) -> bool {
        keys_unique(self.registry())
    }

    /// An empty registry and an empty store.
    pub fn new() -> (r: Context)
        ensures
            r.wf(),
            r.registry() == Seq::<(Seq<char>, u128)>::empty(),
            r.touched() == Seq::<Seq<char>>::empty(),
            r.state@ == Map::<u128, crate::state::StateValue>::empty(),
    {
        let r = Context { uuid_map: Vec::new(), current_cycle_keys: Vec::new(), state: StateStore::new() };
        assert(r.registry() =~= Seq::<(Seq<char>, u128)>::empty());
        assert(r.touched() =~= Seq::<Seq<char>>::empty());
        r
    }

    /// The persistent token for `key`.
    pub fn key_uuid(&mut self, key: &str) -> (r: u128)
        ensures
            old(self).wf() ==> final(self).wf(),
            (final(self).registry(), (r, lookup(old(self).registry(), key@).is_none()))
                == resolve_spec(old(self).registry(), key@, r),
            final(self).touched() == old(self).touched().push(key@),
            final(self).state@ == old(self).state@,
    {
        let (uuid, _is_new) = self.key_uuid_with_flag(key);
        uuid
    }

    /// The persistent token for `key` and whether it was created by this
    /// call; `key` counts as touched in the current cycle.
    pub fn key_uuid_with_flag(&mut self, key: &str) -> (r: (u128, bool))
        ensures
            old(self).wf() ==> final(self).wf(),
            (final(self).registry(), r) == resolve_spec(old(self).registry(), key@, r.0),
            final(self).touched() == old(self).touched().push(key@),
            final(self).state@ == old(self).state@,
    {
        let k = key.to_owned();
        self.current_cycle_keys.push(k.clone());
        proof {
            assert(self.touched() =~= old(self).touched().push(key@));
        }
        let ghost reg = self.registry();
        let n = self.uuid_map.len();
        proof {
            assert(reg.subrange(0, n as int) =~= reg);
        }
        let mut i: usize = n;
        while i > 0
            invariant
                n == self.uuid_map.len(),
                reg == self.registry(),
                reg == old(self).registry(),
                self.touched() == old(self).touched().push(key@),
                self.state@ == old(self).state@,
                k@ == key@,
                i <= n,
                lookup(reg, key@) == lookup(reg.subrange(0, i as int), key@),
            decreases i,
        {
            i = i - 1;
            proof {
                let pre = reg.subrange(0, i as int + 1);
                assert(pre.drop_last() =~= reg.subrange(0, i as int));
                assert(pre.last() == reg[i as int]);
                assert(reg[i as int] == (self.uuid_map@[i as int].key@, self.uuid_map@[i as int].token));
            }
            if self.uuid_map[i].key == k {
                return (self.uuid_map[i].token, false);
            }
        }
        let new_uuid = fresh_token();
        self.uuid_map.push(KeyEntry { key: k, token: new_uuid });
        proof {
            assert(self.registry() =~= reg.push((key@, new_uuid)));
            if keys_unique(reg) {
                lemma_resolve_keeps_unique(reg, key@, new_uuid);
            }
        }
        (new_uuid, true)
    }

    /// Ends a cycle: keeps only the entries whose key was touched in it, and
    /// starts the next cycle with no key touched.
    pub fn remove_unused_keys(&mut self)
        ensures
            old(self).wf() ==> final(self).wf(),
            final(self).registry() == sweep_spec(old(self).registry(), old(self).touched()),
            final(self).touched() == Seq::<Seq<char>>::empty(),
            final(self).state@ == old(self).state@,
    {
        let ghost reg = self.registry();
        let ghost touched = self.touched();
        let n = self.uuid_map.len();
        let mut kept: Vec<KeyEntry> = Vec::new();
        let mut i: usize = 0;
        while i < n
            invariant
                n == self.uuid_map.len(),
                reg == self.registry(),
                touched == self.touched(),
                i <= n,
                kept@.map_values(|e: KeyEntry| (e.key@, e.token)) == reg.subrange(0, i as int).filter(
                    kept_by(touched),
                ),
            decreases n - i,
        {
            let ghost before = kept@.map_values(|e: KeyEntry| (e.key@, e.token));
            proof {
                reveal(Seq::filter);
                assert(reg.subrange(0, i as int + 1).drop_last() =~= reg.subrange(0, i as int));
                assert(reg[i as int] == (self.uuid_map@[i as int].key@, self.uuid_map@[i as int].token));
            }
            if contains_key(&self.current_cycle_keys, &self.uuid_map[i].key) {
                kept.push(KeyEntry { key: self.uuid_map[i].key.clone(), token: self.uuid_map[i].token });
                proof {
                    assert(kept@.map_values(|e: KeyEntry| (e.key@, e.token)) =~= before.push(reg[i as int]));
                }
            }
            i = i + 1;
        }
        proof {
            assert(reg.subrange(0, n as int) =~= reg);
            if keys_unique(reg) {
                lemma_filter_keeps_unique(reg, kept_by(touched));
            }
        }
        self.uuid_map = kept;
        self.current_cycle_keys = Vec::new();
        proof {
            assert(self.touched() =~= Seq::<Seq<char>>::empty());
        }
    }
}

/// Whether `k` is one of `keys`.
fn contains_key(keys: &Vec<String>, k: &String) -> (r: bool)
    ensures
        r == keys@.map_values(|s: String| s@).contains(k@),
{
    let ghost ks = keys@.map_values(|s: String| s@);
    let mut i: usize = 0;
    while i < keys.len()
        invariant
            i <= keys.len(),
            ks == keys@.map_values(|s: String| s@),
            forall|j: int| 0 <= j < i ==> ks[j] != k@,
        decreases keys.len() - i,
    {
        if keys[i] == *k {
            proof {
                assert(ks[i as int] == k@);
            }
            return true;
        }
        i = i + 1;
    }
    false
}

} // verus!
