//! Category-based routing: which destinations receive an incoming message
//! and with which send mode. A message optionally carries a network id;
//! categories name the networks they match, per-destination mode
//! overrides, and whether the globally active destinations are added in.
//! When several matching categories override the same destination, the
//! last category in table order wins; destinations left at `Off` are
//! dropped from the result.

use vstd::prelude::*;

use crate::destination::Key;
use crate::destination::KeyModel;
use crate::send_mode::SendMode;

verus! {

/// A known destination's display title plus its global send mode,
/// independent of any category.
#[derive(Debug, Clone)]
pub struct Group {
    pub title: String,
    pub send_mode: SendMode,
}

impl Group {
    pub fn new(title: String, send_mode: SendMode) -> (r: Group)
        ensures
            r.title == title,
            r.send_mode == send_mode,
    {
        Group { title, send_mode }
    }

    /// Whether this destination takes part in plain (category-less) sends.
    pub fn active(&self) -> (r: bool)
        ensures
            r == (self.send_mode != SendMode::Off),
    {
        self.send_mode.active()
    }
}

/// External network identity, used to test category membership. Of the
/// richly structured import records only the id, display name, frequency
/// string and crypto-mode string are retained.
#[derive(Debug, Clone)]
pub struct NetworkInfo {
    pub id: u64,
    pub freq: String,
    pub crypt_mode: String,
    pub name: String,
}

impl NetworkInfo {
    pub fn new(id: u64, name: String) -> (r: NetworkInfo)
        ensures
            r.id == id,
            r.name == name,
            r.freq@ == Seq::<char>::empty(),
            r.crypt_mode@ == Seq::<char>::empty(),
    {
        NetworkInfo { id, name, crypt_mode: String::new(), freq: String::new() }
    }
}

/// First-match lookup in a destination-to-mode table.
pub open spec fn lookup_mode(s: Seq<(Key, SendMode)>, k: KeyModel) -> Option<SendMode>
    decreases s.len(),
{
    if s.len() == 0 {
        None
    } else if s[0].0@ == k {
        Some(s[0].1)
    } else {
        lookup_mode(s.drop_first(), k)
    }
}

/// No destination appears twice in the table.
pub open spec fn unique_keys(s: Seq<(Key, SendMode)>) -> bool {
    forall|i: int, j: int| 0 <= i < j < s.len() ==> (#[trigger] s[i]).0@ != (#[trigger] s[j]).0@
}

/// First-match lookup of a destination's global send mode.
pub open spec fn lookup_global(s: Seq<(Key, Group)>, k: KeyModel) -> Option<SendMode>
    decreases s.len(),
{
    if s.len() == 0 {
        None
    } else if s[0].0@ == k {
        Some(s[0].1.send_mode)
    } else {
        lookup_global(s.drop_first(), k)
    }
}

/// No destination appears twice in the global table.
pub open spec fn unique_global_keys(s: Seq<(Key, Group)>) -> bool {
    forall|i: int, j: int| 0 <= i < j < s.len() ==> (#[trigger] s[i]).0@ != (#[trigger] s[j]).0@
}

/// A named routing rule: the networks it matches, its explicit
/// destination-to-mode overrides, and whether the globally active
/// destinations are sent to as well.
#[derive(Debug, Clone)]
pub struct SendCategory {
    pub name: String,
    pub networks: Vec<u64>,
    pub groups: Vec<(Key, SendMode)>,
    pub use_general: bool,
}

impl SendCategory {
    /// Overrides name each destination at most once.
    pub open spec fn wf(&self) -> bool {
        unique_keys(self.groups@)
    }

    pub fn new(name: String) -> (r: SendCategory)
        ensures
            r.name == name,
            r.networks@ == Seq::<u64>::empty(),
            r.groups@ == Seq::<(Key, SendMode)>::empty(),
            !r.use_general,
            r.wf(),
    {
        SendCategory { name, networks: Vec::new(), groups: Vec::new(), use_general: false }
    }

    pub fn name(&self) -> (r: &String)
        ensures
            r == &self.name,
    {
        &self.name
    }

    /// Whether this category matches the given network id.
    pub fn match_network(&self, id: u64) -> (r: bool)
        ensures
            r == self.networks@.contains(id),
    {
        let mut i: usize = 0;
        while i < self.networks.len()
            invariant
                i <= self.networks@.len(),
                forall|j: int| 0 <= j < i ==> self.networks@[j] != id,
            decreases self.networks@.len() - i,
        {
            if self.networks[i] == id {
                return true;
            }
            i += 1;
        }
        false
    }

    /// This category's override for `key`, if any.
    pub fn group_mode(&self, key: &Key) -> (r: Option<SendMode>)
        ensures
            r == lookup_mode(self.groups@, key@),
    {
        proof {
            assert(self.groups@.skip(0) =~= self.groups@);
        }
        let mut i: usize = 0;
        while i < self.groups.len()
            invariant
                i <= self.groups@.len(),
                lookup_mode(self.groups@, key@) == lookup_mode(self.groups@.skip(i as int), key@),
            decreases self.groups@.len() - i,
        {
            proof {
                assert(self.groups@.skip(i as int)[0] == self.groups@[i as int]);
                assert(self.groups@.skip(i as int).drop_first() =~= self.groups@.skip(i + 1));
            }
            if self.groups[i].0.key_eq(key) {
                return Some(self.groups[i].1);
            }
            i += 1;
        }
        None
    }
}

/// In a table without repeated keys, looking up the key of entry `i`
/// yields exactly that entry's mode.
proof fn lemma_lookup_at(s: Seq<(Key, SendMode)>, i: int)
    requires
        unique_keys(s),
        0 <= i < s.len(),
    ensures
        lookup_mode(s, s[i].0@) == Some(s[i].1),
    decreases s.len(),
{
    if i == 0 {
    } else {
        assert(s[0].0@ != s[i].0@);
        assert(unique_keys(s.drop_first())) by {
            assert(forall|a: int| 0 <= a < s.drop_first().len() ==> s.drop_first()[a] == s[a + 1]);
        }
        lemma_lookup_at(s.drop_first(), i - 1);
        assert(s.drop_first()[i - 1] == s[i]);
    }
}

/// Replacing the entry at `i` by one with the same destination changes
/// only that destination's lookup.
proof fn lemma_lookup_update_hit(s: Seq<(Key, SendMode)>, i: int, v: (Key, SendMode))
    requires
        unique_keys(s),
        0 <= i < s.len(),
        v.0@ == s[i].0@,
    ensures
        forall|k: KeyModel|
            #[trigger] lookup_mode(s.update(i, v), k) == (if k == s[i].0@ {
                Some(v.1)
            } else {
                lookup_mode(s, k)
            }),
        unique_keys(s.update(i, v)),
    decreases s.len(),
{
    let t = s.update(i, v);
    if i == 0 {
        assert(t.drop_first() =~= s.drop_first());
        assert(t[0] == v);
        assert forall|k: KeyModel|
            #[trigger] lookup_mode(t, k) == (if k == s[i].0@ {
                Some(v.1)
            } else {
                lookup_mode(s, k)
            }) by {
            if k != s[0].0@ {
                assert(lookup_mode(t, k) == lookup_mode(t.drop_first(), k));
            }
        }
    } else {
        assert(t[0] == s[0]);
        assert(t.drop_first() =~= s.drop_first().update(i - 1, v));
        assert(unique_keys(s.drop_first())) by {
            assert(forall|a: int| 0 <= a < s.drop_first().len() ==> s.drop_first()[a] == s[a + 1]);
        }
        assert(s.drop_first()[i - 1] == s[i]);
        lemma_lookup_update_hit(s.drop_first(), i - 1, v);
        assert(s[0].0@ != s[i].0@);
        assert forall|k: KeyModel|
            #[trigger] lookup_mode(t, k) == (if k == s[i].0@ {
                Some(v.1)
            } else {
                lookup_mode(s, k)
            }) by {
            assert(lookup_mode(s.drop_first().update(i - 1, v), k) == (if k
                == s.drop_first()[i - 1].0@ {
                Some(v.1)
            } else {
                lookup_mode(s.drop_first(), k)
            }));
        }
    }
}

/// Appending an entry for a destination not yet listed adds exactly that
/// destination's lookup.
proof fn lemma_lookup_push_new(s: Seq<(Key, SendMode)>, v: (Key, SendMode))
    requires
        unique_keys(s),
        forall|i: int| 0 <= i < s.len() ==> (#[trigger] s[i]).0@ != v.0@,
    ensures
        forall|k: KeyModel|
            #[trigger] lookup_mode(s.push(v), k) == (if k == v.0@ {
                Some(v.1)
            } else {
                lookup_mode(s, k)
            }),
        unique_keys(s.push(v)),
    decreases s.len(),
{
    let t = s.push(v);
    if s.len() == 0 {
        assert(t[0] == v);
        assert(t.drop_first() =~= Seq::<(Key, SendMode)>::empty());
        assert forall|k: KeyModel|
            #[trigger] lookup_mode(t, k) == (if k == v.0@ {
                Some(v.1)
            } else {
                lookup_mode(s, k)
            }) by {
            if k != v.0@ {
                assert(lookup_mode(t.drop_first(), k) is None);
            }
        }
    } else {
        assert(t[0] == s[0]);
        assert(t.drop_first() =~= s.drop_first().push(v));
        assert(unique_keys(s.drop_first())) by {
            assert(forall|a: int| 0 <= a < s.drop_first().len() ==> s.drop_first()[a] == s[a + 1]);
        }
        assert(forall|i: int|
            0 <= i < s.drop_first().len() ==> (#[trigger] s.drop_first()[i]).0@ != v.0@) by {
            assert(forall|a: int| 0 <= a < s.drop_first().len() ==> s.drop_first()[a] == s[a + 1]);
        }
        lemma_lookup_push_new(s.drop_first(), v);
        assert(forall|a: int| 0 <= a < t.len() - 1 ==> t[a] == s[a]);
        assert forall|k: KeyModel|
            #[trigger] lookup_mode(t, k) == (if k == v.0@ {
                Some(v.1)
            } else {
                lookup_mode(s, k)
            }) by {
            assert(lookup_mode(s.drop_first().push(v), k) == (if k == v.0@ {
                Some(v.1)
            } else {
                lookup_mode(s.drop_first(), k)
            }));
            assert(s[0].0@ != v.0@);
        }
    }
}

impl SendCategory {
    /// Insert or replace the override for `key`. Afterwards `key` maps to
    /// `mode` and every other destination keeps its previous override.
    pub fn set_group(&mut self, key: Key, mode: SendMode)
        requires
            old(self).wf(),
        ensures
            final(self).wf(),
            final(self).name == old(self).name,
            final(self).networks == old(self).networks,
            final(self).use_general == old(self).use_general,
            forall|k: KeyModel|
                #[trigger] lookup_mode(final(self).groups@, k) == (if k == key@ {
                    Some(mode)
                } else {
                    lookup_mode(old(self).groups@, k)
                }),
    {
        let mut i: usize = 0;
        while i < self.groups.len()
            invariant
                i <= self.groups@.len(),
                self == old(self),
                old(self).wf(),
                forall|j: int| 0 <= j < i ==> (#[trigger] self.groups@[j]).0@ != key@,
            decreases self.groups@.len() - i,
        {
            if self.groups[i].0.key_eq(&key) {
                proof {
                    lemma_lookup_update_hit(self.groups@, i as int, (key, mode));
                }
                self.groups.set(i, (key, mode));
                return ;
            }
            i += 1;
        }
        proof {
            lemma_lookup_push_new(self.groups@, (key, mode));
        }
        self.groups.push((key, mode));
    }

    /// Add `id` to the matched networks; no effect if already present.
    pub fn add_network(&mut self, id: u64)
        ensures
            final(self).name == old(self).name,
            final(self).groups == old(self).groups,
            final(self).use_general == old(self).use_general,
            forall|x: u64|
                final(self).networks@.contains(x) <==> (old(self).networks@.contains(x) || x
                    == id),
    {
        if !self.match_network(id) {
            let ghost pre = self.networks@;
            self.networks.push(id);
            proof {
                assert forall|x: u64| self.networks@.contains(x) implies (pre.contains(x)
                    || x == id) by {
                    let j = choose|j: int|
                        0 <= j < self.networks@.len() && self.networks@[j] == x;
                    if j < pre.len() {
                        assert(pre[j] == x);
                    }
                }
                assert forall|x: u64| (pre.contains(x) || x == id) implies self.networks@
                    .contains(x) by {
                    if pre.contains(x) {
                        let j = choose|j: int| 0 <= j < pre.len() && pre[j] == x;
                        assert(self.networks@[j] == x);
                    } else {
                        assert(self.networks@[self.networks@.len() - 1] == x);
                    }
                }
            }
        }
    }

    /// Remove `id` from the matched networks.
    pub fn remove_network(&mut self, id: u64)
        ensures
            final(self).name == old(self).name,
            final(self).groups == old(self).groups,
            final(self).use_general == old(self).use_general,
            forall|x: u64|
                final(self).networks@.contains(x) <==> (old(self).networks@.contains(x) && x
                    != id),
    {
        let mut kept: Vec<u64> = Vec::new();
        let mut i: usize = 0;
        while i < self.networks.len()
            invariant
                i <= self.networks@.len(),
                self == old(self),
                forall|j: int|
                    0 <= j < kept@.len() ==> self.networks@.contains(#[trigger] kept@[j])
                        && kept@[j] != id,
                forall|j: int|
                    0 <= j < i && (#[trigger] self.networks@[j]) != id ==> kept@.contains(
                        self.networks@[j],
                    ),
            decreases self.networks@.len() - i,
        {
            let x = self.networks[i];
            if x != id {
                let ghost pre = kept@;
                kept.push(x);
                proof {
                    assert(kept@[kept@.len() - 1] == x);
                    assert forall|j: int|
                        0 <= j < i + 1 && (#[trigger] self.networks@[j]) != id implies kept@
                        .contains(self.networks@[j]) by {
                        if j < i {
                            let a = choose|a: int|
                                0 <= a < pre.len() && pre[a] == self.networks@[j];
                            assert(kept@[a] == self.networks@[j]);
                        } else {
                            assert(kept@[kept@.len() - 1] == self.networks@[j]);
                        }
                    }
                }
            }
            i += 1;
        }
        self.networks = kept;
        proof {
            assert forall|x: u64| old(self).networks@.contains(x) && x != id implies self
                .networks@.contains(x) by {
                let j = choose|j: int|
                    0 <= j < old(self).networks@.len() && old(self).networks@[j] == x;
            }
        }
    }

    /// Drop every override whose mode is `Off`: afterwards a destination
    /// has an override exactly when it had an active one before.
    pub fn shrink(&mut self)
        requires
            old(self).wf(),
        ensures
            final(self).wf(),
            final(self).name == old(self).name,
            final(self).networks == old(self).networks,
            final(self).use_general == old(self).use_general,
            forall|k: KeyModel|
                #[trigger] lookup_mode(final(self).groups@, k) == (match lookup_mode(
                    old(self).groups@,
                    k,
                ) {
                    Some(m) => if m != SendMode::Off {
                        Some(m)
                    } else {
                        None
                    },
                    None => None,
                }),
    {
        let mut kept: Vec<(Key, SendMode)> = Vec::new();
        let mut i: usize = 0;
        while i < self.groups.len()
            invariant
                i <= self.groups@.len(),
                self == old(self),
                old(self).wf(),
                forall|j: int|
                    0 <= j < kept@.len() ==> exists|jj: int|
                        0 <= jj < i && (#[trigger] kept@[j]) == self.groups@[jj] && kept@[j].1
                            != SendMode::Off,
                forall|j: int|
                    0 <= j < i && (#[trigger] self.groups@[j]).1 != SendMode::Off ==> key_in(
                        kept@,
                        self.groups@[j].0@,
                    ),
                unique_keys(kept@),
            decreases self.groups@.len() - i,
        {
            let active = self.groups[i].1.active();
            if active {
                proof {
                    assert forall|j: int| 0 <= j < kept@.len() implies (#[trigger] kept@[j]).0@
                        != self.groups@[i as int].0@ by {
                        let jj = choose|jj: int|
                            0 <= jj < i && (#[trigger] kept@[j]) == self.groups@[jj] && kept@[j].1
                                != SendMode::Off;
                        assert(self.groups@[jj].0@ != self.groups@[i as int].0@);
                    }
                }
                let ghost pre = kept@;
                let entry = (self.groups[i].0.clone(), self.groups[i].1);
                kept.push(entry);
                proof {
                    assert(kept@[kept@.len() - 1].0@ == self.groups@[i as int].0@);
                    assert(kept@[kept@.len() - 1].1 == self.groups@[i as int].1);
                    assert forall|j: int|
                        0 <= j < i + 1 && (#[trigger] self.groups@[j]).1
                            != SendMode::Off implies key_in(kept@, self.groups@[j].0@) by {
                        if j < i {
                            lemma_grow_preserves_key_in(pre, kept@, self.groups@[j].0@);
                        } else {
                            assert(kept@[kept@.len() - 1].0@ == self.groups@[j].0@);
                        }
                    }
                }
            }
            i += 1;
        }
        proof {
            assert forall|k: KeyModel|
                #[trigger] lookup_mode(kept@, k) == (match lookup_mode(old(self).groups@, k) {
                    Some(m) => if m != SendMode::Off {
                        Some(m)
                    } else {
                        None
                    },
                    None => None,
                }) by {
                match lookup_mode(old(self).groups@, k) {
                    Some(m) => {
                        lemma_lookup_mode_witness(old(self).groups@, k);
                        let jj = choose|jj: int|
                            0 <= jj < old(self).groups@.len() && (
                            #[trigger] old(self).groups@[jj]).0@ == k && old(self).groups@[jj].1
                                == m;
                        if m != SendMode::Off {
                            assert(key_in(kept@, k));
                            let a = choose|a: int| 0 <= a < kept@.len() && (#[trigger] kept@[a]).0@ == k;
                            let aj = choose|aj: int|
                                0 <= aj < self.groups@.len() && (#[trigger] kept@[a])
                                    == self.groups@[aj] && kept@[a].1 != SendMode::Off;
                            assert(aj == jj);
                            lemma_lookup_at(kept@, a);
                        } else {
                            if lookup_mode(kept@, k) is Some {
                                lemma_lookup_mode_witness(kept@, k);
                                let a = choose|a: int|
                                    0 <= a < kept@.len() && (#[trigger] kept@[a]).0@ == k
                                        && kept@[a].1 == lookup_mode(kept@, k).unwrap();
                                let aj = choose|aj: int|
                                    0 <= aj < self.groups@.len() && (#[trigger] kept@[a])
                                        == self.groups@[aj] && kept@[a].1 != SendMode::Off;
                                assert(aj == jj);
                                assert(false);
                            }
                        }
                    },
                    None => {
                        if lookup_mode(kept@, k) is Some {
                            lemma_lookup_mode_witness(kept@, k);
                            let a = choose|a: int|
                                0 <= a < kept@.len() && (#[trigger] kept@[a]).0@ == k && kept@[a].1
                                    == lookup_mode(kept@, k).unwrap();
                            let aj = choose|aj: int|
                                0 <= aj < self.groups@.len() && (#[trigger] kept@[a])
                                    == self.groups@[aj] && kept@[a].1 != SendMode::Off;
                            lemma_lookup_present(old(self).groups@, aj);
                            assert(false);
                        }
                    },
                }
            }
        }
        self.groups = kept;
    }
}

/// Whether some category matches network `n`.
pub open spec fn has_matching(cats: Seq<SendCategory>, n: u64) -> bool {
    exists|i: int| 0 <= i < cats.len() && (#[trigger] cats[i]).networks@.contains(n)
}

/// Whether some category matching `n` asks for the general destinations.
pub open spec fn matching_uses_general(cats: Seq<SendCategory>, n: u64) -> bool {
    exists|i: int|
        0 <= i < cats.len() && (#[trigger] cats[i]).networks@.contains(n) && cats[i].use_general
}

/// The mode the matching categories assign to destination `k`: among the
/// categories that match `n` and override `k`, the last one in table
/// order wins.
pub open spec fn override_mode(cats: Seq<SendCategory>, n: u64, k: KeyModel) -> Option<SendMode>
    decreases cats.len(),
{
    if cats.len() == 0 {
        None
    } else if cats.last().networks@.contains(n) && lookup_mode(cats.last().groups@, k) is Some {
        lookup_mode(cats.last().groups@, k)
    } else {
        override_mode(cats.drop_last(), n, k)
    }
}

/// A destination's globally assigned mode, if it is active.
pub open spec fn global_active_mode(globals: Seq<(Key, Group)>, k: KeyModel) -> Option<SendMode> {
    match lookup_global(globals, k) {
        Some(m) => if m != SendMode::Off {
            Some(m)
        } else {
            None
        },
        None => None,
    }
}

/// The routing rule (one destination at a time): without a network tag, or
/// when no category matches it, a destination is included with its global
/// mode exactly when that mode is active. Otherwise the category override
/// decides where one exists (and an `Off` override drops the
/// destination); destinations without an override are included with their
/// active global mode only if some matching category asks for the general
/// destinations.
pub open spec fn resolved_mode(
    network: Option<u64>,
    cats: Seq<SendCategory>,
    globals: Seq<(Key, Group)>,
    k: KeyModel,
) -> Option<SendMode> {
    match network {
        None => global_active_mode(globals, k),
        Some(n) => if !has_matching(cats, n) {
            global_active_mode(globals, k)
        } else {
            match override_mode(cats, n, k) {
                Some(om) => if om != SendMode::Off {
                    Some(om)
                } else {
                    None
                },
                None => if matching_uses_general(cats, n) {
                    global_active_mode(globals, k)
                } else {
                    None
                },
            }
        },
    }
}

/// A successful table lookup names an entry of the table.
proof fn lemma_lookup_mode_witness(s: Seq<(Key, SendMode)>, k: KeyModel)
    requires
        lookup_mode(s, k) is Some,
    ensures
        exists|i: int|
            0 <= i < s.len() && (#[trigger] s[i]).0@ == k && s[i].1 == lookup_mode(s, k).unwrap(),
    decreases s.len(),
{
    if s.len() > 0 {
        if s[0].0@ == k {
        } else {
            lemma_lookup_mode_witness(s.drop_first(), k);
            let i = choose|i: int|
                0 <= i < s.drop_first().len() && (#[trigger] s.drop_first()[i]).0@ == k
                    && s.drop_first()[i].1 == lookup_mode(s.drop_first(), k).unwrap();
            assert(s[i + 1] == s.drop_first()[i]);
        }
    }
}

/// Any listed destination is found by the lookup.
proof fn lemma_lookup_present(s: Seq<(Key, SendMode)>, p: int)
    requires
        0 <= p < s.len(),
    ensures
        lookup_mode(s, s[p].0@) is Some,
    decreases s.len(),
{
    if s[0].0@ == s[p].0@ {
    } else {
        assert(p != 0);
        assert(s.drop_first()[p - 1] == s[p]);
        lemma_lookup_present(s.drop_first(), p - 1);
    }
}

/// A successful global lookup names an entry of the global table.
proof fn lemma_lookup_global_witness(s: Seq<(Key, Group)>, k: KeyModel)
    requires
        lookup_global(s, k) is Some,
    ensures
        exists|i: int|
            0 <= i < s.len() && (#[trigger] s[i]).0@ == k && s[i].1.send_mode == lookup_global(
                s,
                k,
            ).unwrap(),
    decreases s.len(),
{
    if s.len() > 0 {
        if s[0].0@ == k {
        } else {
            lemma_lookup_global_witness(s.drop_first(), k);
            let i = choose|i: int|
                0 <= i < s.drop_first().len() && (#[trigger] s.drop_first()[i]).0@ == k
                    && s.drop_first()[i].1.send_mode == lookup_global(s.drop_first(), k).unwrap();
            assert(s[i + 1] == s.drop_first()[i]);
        }
    }
}

/// In a table without repeated keys, looking up the key of entry `i`
/// yields exactly that entry's mode.
proof fn lemma_lookup_global_at(s: Seq<(Key, Group)>, i: int)
    requires
        unique_global_keys(s),
        0 <= i < s.len(),
    ensures
        lookup_global(s, s[i].0@) == Some(s[i].1.send_mode),
    decreases s.len(),
{
    if i == 0 {
    } else {
        assert(s[0].0@ != s[i].0@);
        assert(forall|a: int, b: int|
            0 <= a < b < s.drop_first().len() ==> (#[trigger] s.drop_first()[a]).0@ != (
            #[trigger] s.drop_first()[b]).0@) by {
            assert(forall|a: int|
                0 <= a < s.drop_first().len() ==> s.drop_first()[a] == s[a + 1]);
        }
        lemma_lookup_global_at(s.drop_first(), i - 1);
        assert(s.drop_first()[i - 1] == s[i]);
    }
}

/// A present override comes from some matching category.
proof fn lemma_override_witness(cats: Seq<SendCategory>, n: u64, k: KeyModel)
    requires
        override_mode(cats, n, k) is Some,
    ensures
        exists|i: int|
            0 <= i < cats.len() && (#[trigger] cats[i]).networks@.contains(n) && lookup_mode(
                cats[i].groups@,
                k,
            ) is Some,
    decreases cats.len(),
{
    if cats.len() > 0 {
        if cats.last().networks@.contains(n) && lookup_mode(cats.last().groups@, k) is Some {
            assert(cats[cats.len() - 1] == cats.last());
        } else {
            lemma_override_witness(cats.drop_last(), n, k);
            let i = choose|i: int|
                0 <= i < cats.drop_last().len() && (#[trigger] cats.drop_last()[i]).networks@
                    .contains(n) && lookup_mode(cats.drop_last()[i].groups@, k) is Some;
            assert(cats[i] == cats.drop_last()[i]);
        }
    }
}

/// If some matching category overrides `k`, the override is present.
proof fn lemma_override_present(cats: Seq<SendCategory>, n: u64, k: KeyModel, i: int)
    requires
        0 <= i < cats.len(),
        cats[i].networks@.contains(n),
        lookup_mode(cats[i].groups@, k) is Some,
    ensures
        override_mode(cats, n, k) is Some,
    decreases cats.len(),
{
    if i == cats.len() - 1 {
        assert(cats.last() == cats[i]);
    } else {
        assert(cats.drop_last()[i] == cats[i]);
        lemma_override_present(cats.drop_last(), n, k, i);
    }
}

/// Whether some category matches network `n`.
fn has_matching_exec(categories: &Vec<SendCategory>, n: u64) -> (r: bool)
    ensures
        r == has_matching(categories@, n),
{
    let mut i: usize = 0;
    while i < categories.len()
        invariant
            i <= categories@.len(),
            forall|j: int| 0 <= j < i ==> !(#[trigger] categories@[j]).networks@.contains(n),
        decreases categories@.len() - i,
    {
        if categories[i].match_network(n) {
            return true;
        }
        i += 1;
    }
    false
}

/// Whether some category matching `n` asks for the general destinations.
fn matching_uses_general_exec(categories: &Vec<SendCategory>, n: u64) -> (r: bool)
    ensures
        r == matching_uses_general(categories@, n),
{
    let mut i: usize = 0;
    while i < categories.len()
        invariant
            i <= categories@.len(),
            forall|j: int|
                0 <= j < i ==> !((#[trigger] categories@[j]).networks@.contains(n)
                    && categories@[j].use_general),
        decreases categories@.len() - i,
    {
        if categories[i].use_general && categories[i].match_network(n) {
            return true;
        }
        i += 1;
    }
    false
}

/// The override the matching categories assign to `key`: scanned from the
/// last category backwards, so the last category in table order wins.
fn override_mode_exec(categories: &Vec<SendCategory>, n: u64, key: &Key) -> (r: Option<SendMode>)
    ensures
        r == override_mode(categories@, n, key@),
{
    proof {
        assert(categories@.take(categories@.len() as int) =~= categories@);
    }
    let mut i: usize = categories.len();
    while i > 0
        invariant
            i <= categories@.len(),
            override_mode(categories@, n, key@) == override_mode(
                categories@.take(i as int),
                n,
                key@,
            ),
        decreases i,
    {
        i -= 1;
        proof {
            assert(categories@.take(i + 1).drop_last() =~= categories@.take(i as int));
            assert(categories@.take(i + 1).last() == categories@[i as int]);
        }
        if categories[i].match_network(n) {
            let m = categories[i].group_mode(key);
            if m.is_some() {
                return m;
            }
        }
    }
    None
}

/// A destination's entry in the global table, if any.
fn global_mode_exec(globals: &Vec<(Key, Group)>, key: &Key) -> (r: Option<SendMode>)
    ensures
        r == lookup_global(globals@, key@),
{
    proof {
        assert(globals@.skip(0) =~= globals@);
    }
    let mut i: usize = 0;
    while i < globals.len()
        invariant
            i <= globals@.len(),
            lookup_global(globals@, key@) == lookup_global(globals@.skip(i as int), key@),
        decreases globals@.len() - i,
    {
        proof {
            assert(globals@.skip(i as int)[0] == globals@[i as int]);
            assert(globals@.skip(i as int).drop_first() =~= globals@.skip(i + 1));
        }
        if globals[i].0.key_eq(key) {
            return Some(globals[i].1.send_mode);
        }
        i += 1;
    }
    None
}

/// Whether the table holds an entry for destination `k`.
pub open spec fn key_in(s: Seq<(Key, SendMode)>, k: KeyModel) -> bool {
    exists|i: int| 0 <= i < s.len() && (#[trigger] s[i]).0@ == k
}

/// Growing a table never loses a present destination.
proof fn lemma_grow_preserves_key_in(
    pre: Seq<(Key, SendMode)>,
    post: Seq<(Key, SendMode)>,
    k: KeyModel,
)
    requires
        pre.len() <= post.len(),
        forall|a: int| 0 <= a < pre.len() ==> post[a] == pre[a],
        key_in(pre, k),
    ensures
        key_in(post, k),
{
    let a = choose|a: int| 0 <= a < pre.len() && (#[trigger] pre[a]).0@ == k;
    assert(post[a].0@ == k);
}

/// Whether the result already holds an entry for `key`.
fn contains_key(result: &Vec<(Key, SendMode)>, key: &Key) -> (r: bool)
    ensures
        r == key_in(result@, key@),
{
    let mut i: usize = 0;
    while i < result.len()
        invariant
            i <= result@.len(),
            forall|j: int| 0 <= j < i ==> (#[trigger] result@[j]).0@ != key@,
        decreases result@.len() - i,
    {
        if result[i].0.key_eq(key) {
            return true;
        }
        i += 1;
    }
    false
}

/// Every globally active destination, with its global mode.
fn resolve_globals(globals: &Vec<(Key, Group)>) -> (r: Vec<(Key, SendMode)>)
    requires
        unique_global_keys(globals@),
    ensures
        forall|i: int|
            0 <= i < r@.len() ==> global_active_mode(globals@, (#[trigger] r@[i]).0@) == Some(
                r@[i].1,
            ),
        forall|k: KeyModel| #[trigger] global_active_mode(globals@, k) is Some ==> key_in(r@, k),
        unique_keys(r@),
{
    let mut result: Vec<(Key, SendMode)> = Vec::new();
    let mut i: usize = 0;
    while i < globals.len()
        invariant
            i <= globals@.len(),
            unique_global_keys(globals@),
            forall|a: int|
                0 <= a < result@.len() ==> global_active_mode(globals@, (#[trigger] result@[a]).0@)
                    == Some(result@[a].1),
            forall|a: int|
                0 <= a < result@.len() ==> exists|j: int|
                    0 <= j < i && (#[trigger] result@[a]).0@ == globals@[j].0@,
            forall|j: int|
                0 <= j < i && (#[trigger] globals@[j]).1.send_mode != SendMode::Off ==> exists|
                    a: int,
                |
                    0 <= a < result@.len() && (#[trigger] result@[a]).0@ == globals@[j].0@,
            unique_keys(result@),
        decreases globals@.len() - i,
    {
        let active = globals[i].1.active();
        if active {
            proof {
                lemma_lookup_global_at(globals@, i as int);
                assert forall|a: int| 0 <= a < result@.len() implies (#[trigger] result@[a]).0@
                    != globals@[i as int].0@ by {
                    let j = choose|j: int| 0 <= j < i && result@[a].0@ == globals@[j].0@;
                    assert(globals@[j].0@ != globals@[i as int].0@);
                }
            }
            let key = globals[i].0.clone();
            let mode = globals[i].1.send_mode;
            let ghost pre = result@;
            result.push((key, mode));
            proof {
                assert(result@[result@.len() - 1].0@ == globals@[i as int].0@);
                assert forall|j: int|
                    0 <= j < i + 1 && (#[trigger] globals@[j]).1.send_mode
                        != SendMode::Off implies exists|a: int|
                    0 <= a < result@.len() && (#[trigger] result@[a]).0@ == globals@[j].0@ by {
                    if j < i {
                        let a = choose|a: int|
                            0 <= a < pre.len() && (#[trigger] pre[a]).0@ == globals@[j].0@;
                        assert(result@[a].0@ == globals@[j].0@);
                    } else {
                        assert(result@[result@.len() - 1].0@ == globals@[j].0@);
                    }
                }
            }
        }
        i += 1;
    }
    proof {
        assert forall|k: KeyModel| #[trigger] global_active_mode(globals@, k) is Some implies key_in(
            result@,
            k,
        ) by {
            lemma_lookup_global_witness(globals@, k);
            let j = choose|j: int|
                0 <= j < globals@.len() && (#[trigger] globals@[j]).0@ == k
                    && globals@[j].1.send_mode == lookup_global(globals@, k).unwrap();
            assert(globals@[j].1.send_mode != SendMode::Off);
        }
    }
    result
}

/// Compute the destination set for an incoming message: each destination
/// the routing rule includes, with its resolved send mode, each
/// destination at most once. Membership and mode are pinned by
/// `resolved_mode`; the order is category table order followed by global
/// table order.
pub fn resolve(
    network: Option<u64>,
    categories: &Vec<SendCategory>,
    globals: &Vec<(Key, Group)>,
) -> (r: Vec<(Key, SendMode)>)
    requires
        unique_global_keys(globals@),
    ensures
        forall|i: int|
            0 <= i < r@.len() ==> resolved_mode(network, categories@, globals@, (
            #[trigger] r@[i]).0@) == Some(r@[i].1),
        forall|k: KeyModel|
            #[trigger] resolved_mode(network, categories@, globals@, k) is Some ==> key_in(r@, k),
        unique_keys(r@),
{
    let n: u64;
    match network {
        Some(value) => {
            n = value;
        },
        None => {
            let r = resolve_globals(globals);
            proof {
                assert forall|k: KeyModel|
                    #[trigger] resolved_mode(network, categories@, globals@, k) is Some implies
                    key_in(r@, k) by {
                    assert(global_active_mode(globals@, k) is Some);
                }
            }
            return r;
        },
    }
    if !has_matching_exec(categories, n) {
        let r = resolve_globals(globals);
        proof {
            assert forall|k: KeyModel|
                #[trigger] resolved_mode(network, categories@, globals@, k) is Some implies key_in(
                r@,
                k,
            ) by {
                assert(global_active_mode(globals@, k) is Some);
            }
        }
        return r;
    }
    let mut result: Vec<(Key, SendMode)> = Vec::new();
    let mut ci: usize = 0;
    while ci < categories.len()
        invariant
            ci <= categories@.len(),
            unique_global_keys(globals@),
            network == Some(n),
            has_matching(categories@, n),
            forall|a: int|
                0 <= a < result@.len() ==> resolved_mode(network, categories@, globals@, (
                #[trigger] result@[a]).0@) == Some(result@[a].1),
            forall|a: int|
                0 <= a < result@.len() ==> override_mode(categories@, n, (
                #[trigger] result@[a]).0@) is Some,
            unique_keys(result@),
            forall|cj: int, p: int|
                0 <= cj < ci && (#[trigger] categories@[cj]).networks@.contains(n) && 0 <= p
                    < categories@[cj].groups@.len() && resolved_mode(
                    network,
                    categories@,
                    globals@,
                    (#[trigger] categories@[cj].groups@[p]).0@,
                ) is Some ==> key_in(result@, categories@[cj].groups@[p].0@),
        decreases categories@.len() - ci,
    {
        if categories[ci].match_network(n) {
            let mut p: usize = 0;
            while p < categories[ci].groups.len()
                invariant
                    ci < categories@.len(),
                    p <= categories@[ci as int].groups@.len(),
                    unique_global_keys(globals@),
                    network == Some(n),
                    has_matching(categories@, n),
                    categories@[ci as int].networks@.contains(n),
                    forall|a: int|
                        0 <= a < result@.len() ==> resolved_mode(network, categories@, globals@, (
                        #[trigger] result@[a]).0@) == Some(result@[a].1),
                    forall|a: int|
                        0 <= a < result@.len() ==> override_mode(categories@, n, (
                        #[trigger] result@[a]).0@) is Some,
                    unique_keys(result@),
                    forall|cj: int, pp: int|
                        0 <= cj < ci && (#[trigger] categories@[cj]).networks@.contains(n) && 0
                            <= pp < categories@[cj].groups@.len() && resolved_mode(
                            network,
                            categories@,
                            globals@,
                            (#[trigger] categories@[cj].groups@[pp]).0@,
                        ) is Some ==> key_in(result@, categories@[cj].groups@[pp].0@),
                    forall|pp: int|
                        0 <= pp < p && resolved_mode(
                            network,
                            categories@,
                            globals@,
                            (#[trigger] categories@[ci as int].groups@[pp]).0@,
                        ) is Some ==> key_in(result@, categories@[ci as int].groups@[pp].0@),
                decreases categories@[ci as int].groups@.len() - p,
            {
                let key = &categories[ci].groups[p].0;
                let ghost k = key@;
                proof {
                    assert(lookup_mode(categories@[ci as int].groups@, k) is Some) by {
                        lemma_lookup_present(categories@[ci as int].groups@, p as int);
                    }
                    lemma_override_present(categories@, n, k, ci as int);
                }
                let already = contains_key(&result, key);
                if !already {
                    let om = override_mode_exec(categories, n, key);
                    match om {
                        Some(m) => {
                            if m.active() {
                                let ghost pre = result@;
                                result.push((key.clone(), m));
                                proof {
                                    assert(result@[result@.len() - 1].0@ == k);
                                    assert(resolved_mode(network, categories@, globals@, k)
                                        == Some(m));
                                    assert forall|cj: int, pp: int|
                                        0 <= cj < ci && (
                                        #[trigger] categories@[cj]).networks@.contains(n) && 0 <= pp
                                            < categories@[cj].groups@.len() && resolved_mode(
                                            network,
                                            categories@,
                                            globals@,
                                            (#[trigger] categories@[cj].groups@[pp]).0@,
                                        ) is Some implies key_in(
                                        result@,
                                        categories@[cj].groups@[pp].0@,
                                    ) by {
                                        lemma_grow_preserves_key_in(
                                            pre,
                                            result@,
                                            categories@[cj].groups@[pp].0@,
                                        );
                                    }
                                    assert forall|pp: int|
                                        0 <= pp < p + 1 && resolved_mode(
                                            network,
                                            categories@,
                                            globals@,
                                            (#[trigger] categories@[ci as int].groups@[pp]).0@,
                                        ) is Some implies key_in(
                                        result@,
                                        categories@[ci as int].groups@[pp].0@,
                                    ) by {
                                        if pp < p {
                                            lemma_grow_preserves_key_in(
                                                pre,
                                                result@,
                                                categories@[ci as int].groups@[pp].0@,
                                            );
                                        } else {
                                            assert(result@[result@.len() - 1].0@ == k);
                                        }
                                    }
                                }
                            }
                        },
                        None => {
                            proof {
                                assert(false);
                            }
                        },
                    }
                }
                p += 1;
            }
        }
        ci += 1;
    }
    let use_gen = matching_uses_general_exec(categories, n);
    if use_gen {
        let ghost n1 = result@.len();
        let mut gi: usize = 0;
        while gi < globals.len()
            invariant
                gi <= globals@.len(),
                unique_global_keys(globals@),
                network == Some(n),
                has_matching(categories@, n),
                matching_uses_general(categories@, n),
                n1 <= result@.len(),
                forall|a: int|
                    0 <= a < result@.len() ==> resolved_mode(network, categories@, globals@, (
                    #[trigger] result@[a]).0@) == Some(result@[a].1),
                forall|a: int|
                    0 <= a < n1 ==> override_mode(categories@, n, (
                    #[trigger] result@[a]).0@) is Some,
                forall|a: int|
                    n1 <= a < result@.len() ==> override_mode(categories@, n, (
                    #[trigger] result@[a]).0@) is None,
                forall|a: int|
                    n1 <= a < result@.len() ==> exists|j: int|
                        0 <= j < gi && (#[trigger] result@[a]).0@ == globals@[j].0@,
                unique_keys(result@),
                forall|cj: int, pp: int|
                    0 <= cj < categories@.len() && (#[trigger] categories@[cj]).networks@.contains(
                        n,
                    ) && 0 <= pp < categories@[cj].groups@.len() && resolved_mode(
                        network,
                        categories@,
                        globals@,
                        (#[trigger] categories@[cj].groups@[pp]).0@,
                    ) is Some ==> key_in(result@, categories@[cj].groups@[pp].0@),
                forall|j: int|
                    0 <= j < gi && (#[trigger] globals@[j]).1.send_mode != SendMode::Off
                        && override_mode(categories@, n, globals@[j].0@) is None ==> key_in(
                        result@,
                        globals@[j].0@,
                    ),
            decreases globals@.len() - gi,
        {
            let g_active = globals[gi].1.active();
            if g_active {
                let om = override_mode_exec(categories, n, &globals[gi].0);
                if om.is_none() {
                    proof {
                        lemma_lookup_global_at(globals@, gi as int);
                        assert forall|a: int| 0 <= a < result@.len() implies (
                        #[trigger] result@[a]).0@ != globals@[gi as int].0@ by {
                            if a < n1 {
                            } else {
                                let j = choose|j: int|
                                    0 <= j < gi && (#[trigger] result@[a]).0@ == globals@[j].0@;
                                assert(globals@[j].0@ != globals@[gi as int].0@);
                            }
                        }
                    }
                    let ghost pre = result@;
                    result.push((globals[gi].0.clone(), globals[gi].1.send_mode));
                    proof {
                        assert(result@[result@.len() - 1].0@ == globals@[gi as int].0@);
                        assert(resolved_mode(
                            network,
                            categories@,
                            globals@,
                            globals@[gi as int].0@,
                        ) == Some(globals@[gi as int].1.send_mode));
                        assert forall|a: int| n1 <= a < result@.len() implies exists|j: int|
                            0 <= j < gi + 1 && (#[trigger] result@[a]).0@ == globals@[j].0@ by {
                            if a < pre.len() {
                                let j = choose|j: int|
                                    0 <= j < gi && (#[trigger] pre[a]).0@ == globals@[j].0@;
                                assert(result@[a].0@ == globals@[j].0@);
                            } else {
                                assert(result@[a].0@ == globals@[gi as int].0@);
                            }
                        }
                        assert forall|cj: int, pp: int|
                            0 <= cj < categories@.len() && (
                            #[trigger] categories@[cj]).networks@.contains(n) && 0 <= pp
                                < categories@[cj].groups@.len() && resolved_mode(
                                network,
                                categories@,
                                globals@,
                                (#[trigger] categories@[cj].groups@[pp]).0@,
                            ) is Some implies key_in(result@, categories@[cj].groups@[pp].0@) by {
                            lemma_grow_preserves_key_in(
                                pre,
                                result@,
                                categories@[cj].groups@[pp].0@,
                            );
                        }
                        assert forall|j: int|
                            0 <= j < gi + 1 && (#[trigger] globals@[j]).1.send_mode
                                != SendMode::Off && override_mode(categories@, n, globals@[j].0@)
                                is None implies key_in(result@, globals@[j].0@) by {
                            if j < gi {
                                lemma_grow_preserves_key_in(pre, result@, globals@[j].0@);
                            } else {
                                assert(result@[result@.len() - 1].0@ == globals@[j].0@);
                            }
                        }
                    }
                }
            }
            gi += 1;
        }
        proof {
            assert forall|k: KeyModel|
                #[trigger] resolved_mode(network, categories@, globals@, k) is Some implies key_in(
                result@,
                k,
            ) by {
                match override_mode(categories@, n, k) {
                    Some(om) => {
                        lemma_override_witness(categories@, n, k);
                        let cj = choose|cj: int|
                            0 <= cj < categories@.len() && (
                            #[trigger] categories@[cj]).networks@.contains(n) && lookup_mode(
                                categories@[cj].groups@,
                                k,
                            ) is Some;
                        lemma_lookup_mode_witness(categories@[cj].groups@, k);
                        let pp = choose|pp: int|
                            0 <= pp < categories@[cj].groups@.len() && (
                            #[trigger] categories@[cj].groups@[pp]).0@ == k
                                && categories@[cj].groups@[pp].1 == lookup_mode(
                                categories@[cj].groups@,
                                k,
                            ).unwrap();
                        assert(key_in(result@, categories@[cj].groups@[pp].0@));
                    },
                    None => {
                        assert(global_active_mode(globals@, k) is Some);
                        lemma_lookup_global_witness(globals@, k);
                        let j = choose|j: int|
                            0 <= j < globals@.len() && (#[trigger] globals@[j]).0@ == k
                                && globals@[j].1.send_mode == lookup_global(globals@, k).unwrap();
                        assert(globals@[j].1.send_mode != SendMode::Off);
                    },
                }
            }
        }
        result
    } else {
        proof {
            assert forall|k: KeyModel|
                #[trigger] resolved_mode(network, categories@, globals@, k) is Some implies key_in(
                result@,
                k,
            ) by {
                match override_mode(categories@, n, k) {
                    Some(om) => {
                        lemma_override_witness(categories@, n, k);
                        let cj = choose|cj: int|
                            0 <= cj < categories@.len() && (
                            #[trigger] categories@[cj]).networks@.contains(n) && lookup_mode(
                                categories@[cj].groups@,
                                k,
                            ) is Some;
                        lemma_lookup_mode_witness(categories@[cj].groups@, k);
                        let pp = choose|pp: int|
                            0 <= pp < categories@[cj].groups@.len() && (
                            #[trigger] categories@[cj].groups@[pp]).0@ == k
                                && categories@[cj].groups@[pp].1 == lookup_mode(
                                categories@[cj].groups@,
                                k,
                            ).unwrap();
                        assert(key_in(result@, categories@[cj].groups@[pp].0@));
                    },
                    None => {
                        assert(!matching_uses_general(categories@, n));
                        assert(false);
                    },
                }
            }
        }
        result
    }
}


/// Whether the global table holds an entry for destination `k`.
pub open spec fn global_key_in(s: Seq<(Key, Group)>, k: KeyModel) -> bool {
    exists|i: int| 0 <= i < s.len() && (#[trigger] s[i]).0@ == k
}

/// Whether the global table already lists `key`.
fn contains_global(globals: &Vec<(Key, Group)>, key: &Key) -> (r: bool)
    ensures
        r == global_key_in(globals@, key@),
{
    let mut i: usize = 0;
    while i < globals.len()
        invariant
            i <= globals@.len(),
            forall|j: int| 0 <= j < i ==> (#[trigger] globals@[j]).0@ != key@,
        decreases globals@.len() - i,
    {
        if globals[i].0.key_eq(key) {
            return true;
        }
        i += 1;
    }
    false
}

/// Fold a freshly fetched destination list into the global table: known
/// destinations keep their entry (title and mode untouched), unknown ones
/// are appended with the fetched title and mode `Off`, so a new group is
/// never sent to until the operator switches it on.
pub fn merge_groups(globals: &mut Vec<(Key, Group)>, fetched: &Vec<(Key, String)>)
    requires
        unique_global_keys(old(globals)@),
    ensures
        unique_global_keys(final(globals)@),
        final(globals)@.len() >= old(globals)@.len(),
        forall|i: int| 0 <= i < old(globals)@.len() ==> final(globals)@[i] == old(globals)@[i],
        forall|j: int|
            0 <= j < fetched@.len() ==> global_key_in(final(globals)@, (#[trigger] fetched@[j]).0@),
        forall|i: int|
            old(globals)@.len() <= i < final(globals)@.len() ==> {
                &&& (#[trigger] final(globals)@[i]).1.send_mode == SendMode::Off
                &&& !global_key_in(old(globals)@, final(globals)@[i].0@)
                &&& exists|j: int|
                    0 <= j < fetched@.len() && (#[trigger] fetched@[j]).0@ == final(globals)@[i].0@
                        && fetched@[j].1 == final(globals)@[i].1.title
            },
{
    let ghost orig = globals@;
    let mut j: usize = 0;
    while j < fetched.len()
        invariant
            j <= fetched@.len(),
            unique_global_keys(globals@),
            globals@.len() >= orig.len(),
            orig == old(globals)@,
            forall|i: int| 0 <= i < orig.len() ==> globals@[i] == orig[i],
            forall|jj: int|
                0 <= jj < j ==> global_key_in(globals@, (#[trigger] fetched@[jj]).0@),
            forall|i: int|
                orig.len() <= i < globals@.len() ==> {
                    &&& (#[trigger] globals@[i]).1.send_mode == SendMode::Off
                    &&& !global_key_in(orig, globals@[i].0@)
                    &&& exists|jj: int|
                        0 <= jj < fetched@.len() && (#[trigger] fetched@[jj]).0@ == globals@[i].0@
                            && fetched@[jj].1 == globals@[i].1.title
                },
        decreases fetched@.len() - j,
    {
        let key = &fetched[j].0;
        if !contains_global(globals, key) {
            let ghost pre = globals@;
            proof {
                assert forall|a: int| 0 <= a < pre.len() implies (#[trigger] pre[a]).0@
                    != key@ by {
                    if global_key_in(pre, key@) {
                        assert(false);
                    }
                }
                assert forall|a: int| 0 <= a < orig.len() implies orig[a].0@ != key@ by {
                    assert(pre[a] == orig[a]);
                }
            }
            globals.push((key.clone(), Group::new(fetched[j].1.clone(), SendMode::Off)));
            proof {
                assert(globals@[globals@.len() - 1].0@ == key@);
                assert forall|jj: int|
                    0 <= jj < j + 1 implies global_key_in(
                    globals@,
                    (#[trigger] fetched@[jj]).0@,
                ) by {
                    if jj < j {
                        let a = choose|a: int|
                            0 <= a < pre.len() && (#[trigger] pre[a]).0@ == fetched@[jj].0@;
                        assert(globals@[a].0@ == fetched@[jj].0@);
                    } else {
                        assert(globals@[globals@.len() - 1].0@ == fetched@[jj].0@);
                    }
                }
                assert forall|i: int|
                    orig.len() <= i < globals@.len() implies !global_key_in(
                    orig,
                    (#[trigger] globals@[i]).0@,
                ) by {
                    if i < pre.len() {
                        assert(globals@[i] == pre[i]);
                    } else {
                        if global_key_in(orig, globals@[i].0@) {
                            let a = choose|a: int|
                                0 <= a < orig.len() && (#[trigger] orig[a]).0@ == globals@[i].0@;
                            assert(false);
                        }
                    }
                }
            }
        } else {
            proof {
                assert forall|jj: int|
                    0 <= jj < j + 1 implies global_key_in(
                    globals@,
                    (#[trigger] fetched@[jj]).0@,
                ) by {
                }
            }
        }
        j += 1;
    }
}

/// The byte key of a Signal destination.
pub open spec fn key_bytes(k: KeyModel) -> Seq<u8> {
    match k {
        KeyModel::Signal(b) => b,
        KeyModel::Whatsapp(_) => Seq::empty(),
    }
}

/// The identifier of a Whatsapp destination.
pub open spec fn key_chars(k: KeyModel) -> Seq<char> {
    match k {
        KeyModel::Whatsapp(c) => c,
        KeyModel::Signal(_) => Seq::empty(),
    }
}

/// The Signal entries of a resolution, in order.
pub open spec fn signal_entries(s: Seq<(Key, SendMode)>) -> Seq<(Key, SendMode)>
    decreases s.len(),
{
    if s.len() == 0 {
        Seq::empty()
    } else {
        signal_entries(s.drop_last()) + (if s.last().0@ is Signal {
            seq![s.last()]
        } else {
            Seq::empty()
        })
    }
}

/// The Whatsapp entries of a resolution, in order.
pub open spec fn whatsapp_entries(s: Seq<(Key, SendMode)>) -> Seq<(Key, SendMode)>
    decreases s.len(),
{
    if s.len() == 0 {
        Seq::empty()
    } else {
        whatsapp_entries(s.drop_last()) + (if s.last().0@ is Whatsapp {
            seq![s.last()]
        } else {
            Seq::empty()
        })
    }
}

/// The display title the global table holds for destination `k`, empty
/// when the destination is unknown.
pub open spec fn lookup_title(s: Seq<(Key, Group)>, k: KeyModel) -> Seq<char>
    decreases s.len(),
{
    if s.len() == 0 {
        Seq::empty()
    } else if s[0].0@ == k {
        s[0].1.title@
    } else {
        lookup_title(s.drop_first(), k)
    }
}

/// The display title of `key`, looked up in the global table.
fn title_for(globals: &Vec<(Key, Group)>, key: &Key) -> (r: String)
    ensures
        r@ == lookup_title(globals@, key@),
{
    proof {
        assert(globals@.skip(0) =~= globals@);
    }
    let mut i: usize = 0;
    while i < globals.len()
        invariant
            i <= globals@.len(),
            lookup_title(globals@, key@) == lookup_title(globals@.skip(i as int), key@),
        decreases globals@.len() - i,
    {
        proof {
            assert(globals@.skip(i as int)[0] == globals@[i as int]);
            assert(globals@.skip(i as int).drop_first() =~= globals@.skip(i + 1));
        }
        if globals[i].0.key_eq(key) {
            return globals[i].1.title.clone();
        }
        i += 1;
    }
    String::new()
}

/// Build the delivery record for a resolved destination set: the given
/// content and annotation, status `Pending`, and one unset completion
/// marker per resolved destination, partitioned by backend in resolution
/// order, each carrying its resolved mode and its display title from the
/// global table.
pub fn build_record(
    content: String,
    freq: Option<String>,
    resolved: &Vec<(Key, SendMode)>,
    globals: &Vec<(Key, Group)>,
) -> (r: crate::record::SendMessageInfo)
    ensures
        r.content == content,
        r.freq == freq,
        r.status == crate::record::SendStatus::Pending,
        r.completed() == 0,
        r.wf(),
        r.groups@.len() == signal_entries(resolved@).len(),
        forall|a: int|
            0 <= a < r.groups@.len() ==> {
                &&& (#[trigger] r.groups@[a]).key@ == key_bytes(signal_entries(resolved@)[a].0@)
                &&& r.groups@[a].send_mode == signal_entries(resolved@)[a].1
                &&& r.groups@[a].timestamp == 0
                &&& r.groups@[a].title@ == lookup_title(globals@, signal_entries(resolved@)[a].0@)
            },
        r.groups_whatsapp@.len() == whatsapp_entries(resolved@).len(),
        forall|a: int|
            0 <= a < r.groups_whatsapp@.len() ==> {
                &&& (#[trigger] r.groups_whatsapp@[a]).key@ == key_chars(
                    whatsapp_entries(resolved@)[a].0@,
                )
                &&& r.groups_whatsapp@[a].send_mode == whatsapp_entries(resolved@)[a].1
                &&& !r.groups_whatsapp@[a].sent
                &&& r.groups_whatsapp@[a].title@ == lookup_title(
                    globals@,
                    whatsapp_entries(resolved@)[a].0@,
                )
            },
{
    let mut record = crate::record::SendMessageInfo::new(content);
    record.set_freq(freq);
    proof {
        assert(resolved@.take(0) =~= Seq::<(Key, SendMode)>::empty());
    }
    let mut i: usize = 0;
    while i < resolved.len()
        invariant
            i <= resolved@.len(),
            record.status == crate::record::SendStatus::Pending,
            record.completed() == 0,
            record.wf(),
            record.groups@.len() == signal_entries(resolved@.take(i as int)).len(),
            forall|a: int|
                0 <= a < record.groups@.len() ==> {
                    &&& (#[trigger] record.groups@[a]).key@ == key_bytes(
                        signal_entries(resolved@.take(i as int))[a].0@,
                    )
                    &&& record.groups@[a].send_mode == signal_entries(resolved@.take(i as int))[a].1
                    &&& record.groups@[a].timestamp == 0
                    &&& record.groups@[a].title@ == lookup_title(
                        globals@,
                        signal_entries(resolved@.take(i as int))[a].0@,
                    )
                },
            record.groups_whatsapp@.len() == whatsapp_entries(resolved@.take(i as int)).len(),
            forall|a: int|
                0 <= a < record.groups_whatsapp@.len() ==> {
                    &&& (#[trigger] record.groups_whatsapp@[a]).key@ == key_chars(
                        whatsapp_entries(resolved@.take(i as int))[a].0@,
                    )
                    &&& record.groups_whatsapp@[a].send_mode == whatsapp_entries(
                        resolved@.take(i as int),
                    )[a].1
                    &&& !record.groups_whatsapp@[a].sent
                    &&& record.groups_whatsapp@[a].title@ == lookup_title(
                        globals@,
                        whatsapp_entries(resolved@.take(i as int))[a].0@,
                    )
                },
            record.content == content,
            record.freq == freq,
        decreases resolved@.len() - i,
    {
        proof {
            let taken = resolved@.take(i + 1);
            assert(taken.drop_last() =~= resolved@.take(i as int));
            assert(taken.last() == resolved@[i as int]);
        }
        let title = title_for(globals, &resolved[i].0);
        match &resolved[i].0 {
            Key::Signal(k) => {
                record.push_signal(*k, title, resolved[i].1);
                proof {
                    assert(signal_entries(resolved@.take(i + 1)) =~= signal_entries(
                        resolved@.take(i as int),
                    ) + seq![resolved@[i as int]]);
                    assert(whatsapp_entries(resolved@.take(i + 1)) =~= whatsapp_entries(
                        resolved@.take(i as int),
                    ));
                }
            },
            Key::Whatsapp(id) => {
                let ghost pre_wa = record.groups_whatsapp@;
                let ghost done = resolved@.take(i as int);
                record.push_whatsapp(id.clone(), title, resolved[i].1);
                proof {
                    let step = resolved@.take(i + 1);
                    assert(whatsapp_entries(step) =~= whatsapp_entries(done) + seq![
                        resolved@[i as int],
                    ]);
                    assert(signal_entries(step) =~= signal_entries(done));
                    let wa = record.groups_whatsapp@;
                    assert(wa.len() == whatsapp_entries(step).len());
                    assert(wa.last().key@ == key_chars(resolved@[i as int].0@));
                    assert(wa.last().title@ == lookup_title(globals@, resolved@[i as int].0@));
                    assert forall|a: int| 0 <= a < wa.len() - 1 implies wa[a] == pre_wa[a] by {
                        assert(wa.drop_last()[a] == pre_wa[a]);
                        assert(wa.drop_last()[a] == wa[a]);
                    }
                    assert(forall|a: int|
                        0 <= a < wa.len() - 1 ==> whatsapp_entries(step)[a] == whatsapp_entries(
                            done,
                        )[a]);
                }
            },
        }
        i += 1;
    }
    proof {
        assert(resolved@.take(resolved@.len() as int) =~= resolved@);
    }
    record
}

/// The resolver never includes a destination with mode `Off`: whatever
/// is resolved for sending carries an active mode.
pub proof fn lemma_resolved_modes_active(
    network: Option<u64>,
    cats: Seq<SendCategory>,
    globals: Seq<(Key, Group)>,
    k: KeyModel,
)
    ensures
        resolved_mode(network, cats, globals, k) is Some ==> resolved_mode(
            network,
            cats,
            globals,
            k,
        ).unwrap() != SendMode::Off,
{
}

} // verus!
