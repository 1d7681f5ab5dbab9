//! The plugin cache: a mapping from plugin name to validated manifest, in
//! insertion order. Read-through: every entry the manager caches describes
//! a directory that exists under the data root.

use vstd::prelude::*;

use crate::manifest::{ManifestV, PluginConfigData};

verus! {

/// A mapping from plugin name to validated manifest.
#[derive(Debug)]
pub struct ManifestCache {
    pub entries: Vec<(String, PluginConfigData)>,
}

/// The mathematical view of the cache: named manifest views in insertion
/// order.
pub type CacheV = Seq<(Seq<char>, ManifestV)>;

impl View for ManifestCache {
    type V = CacheV;

    open spec fn view(&self) -> CacheV {
        Seq::new(
            self.entries@.len(),
            |i: int|
                if 0 <= i < self.entries@.len() {
                    (self.entries@[i].0@, self.entries@[i].1@)
                } else {
                    (Seq::empty(), ManifestV {
                        name: Seq::empty(),
                        version: Seq::empty(),
                        description: Seq::empty(),
                        author: Seq::empty(),
                        permissions: Seq::empty(),
                    })
                },
        )
    }
}

/// Look a name up in a cache view: the first entry with that name.
pub open spec fn spec_cache_lookup(es: CacheV, name: Seq<char>) -> Option<ManifestV>
    decreases es.len(),
{
    if es.len() == 0 {
        None
    } else if es[0].0 == name {
        Some(es[0].1)
    } else {
        spec_cache_lookup(es.drop_first(), name)
    }
}

/// Replace the first entry of the given name, or append one.
pub open spec fn spec_cache_upsert(es: CacheV, name: Seq<char>, m: ManifestV) -> CacheV
    decreases es.len(),
{
    if es.len() == 0 {
        seq![(name, m)]
    } else if es[0].0 == name {
        seq![(name, m)] + es.drop_first()
    } else {
        seq![es[0]] + spec_cache_upsert(es.drop_first(), name, m)
    }
}

/// A lookup skips any prefix of entries whose names all differ from `name`.
pub proof fn lemma_cache_lookup_skip(es: CacheV, name: Seq<char>, i: int)
    requires
        0 <= i <= es.len(),
        forall|j: int| 0 <= j < i ==> es[j].0 != name,
    ensures
        spec_cache_lookup(es, name) == spec_cache_lookup(es.skip(i), name),
    decreases i,
{
    if i > 0 {
        lemma_cache_lookup_skip(es.drop_first(), name, i - 1);
        assert(es.drop_first().skip(i - 1) =~= es.skip(i));
    } else {
        assert(es.skip(0) =~= es);
    }
}

/// When the first entry with the name sits at `i`, upserting updates it in
/// place.
pub proof fn lemma_cache_upsert_at(es: CacheV, name: Seq<char>, m: ManifestV, i: int)
    requires
        0 <= i < es.len(),
        es[i].0 == name,
        forall|j: int| 0 <= j < i ==> es[j].0 != name,
    ensures
        spec_cache_upsert(es, name, m) =~= es.update(i, (name, m)),
    decreases i,
{
    if i == 0 {
        assert(spec_cache_upsert(es, name, m) =~= es.update(0, (name, m)));
    } else {
        lemma_cache_upsert_at(es.drop_first(), name, m, i - 1);
        assert(spec_cache_upsert(es, name, m) =~= seq![es[0]] + es.drop_first().update(
            i - 1,
            (name, m),
        ));
        assert(seq![es[0]] + es.drop_first().update(i - 1, (name, m)) =~= es.update(
            i,
            (name, m),
        ));
    }
}

/// When no entry has the name, upserting appends.
pub proof fn lemma_cache_upsert_absent(es: CacheV, name: Seq<char>, m: ManifestV)
    requires
        forall|j: int| 0 <= j < es.len() ==> es[j].0 != name,
    ensures
        spec_cache_upsert(es, name, m) =~= es.push((name, m)),
    decreases es.len(),
{
    if es.len() > 0 {
        lemma_cache_upsert_absent(es.drop_first(), name, m);
        assert(spec_cache_upsert(es, name, m) =~= es.push((name, m)));
    }
}

/// Upserting keeps a cache's keys pairwise distinct.
pub proof fn lemma_cache_upsert_distinct(es: CacheV, name: Seq<char>, m: ManifestV)
    requires
        forall|i: int, j: int| 0 <= i < j < es.len() ==> es[i].0 != es[j].0,
    ensures
        forall|i: int, j: int|
            0 <= i < j < spec_cache_upsert(es, name, m).len() ==> spec_cache_upsert(es, name, m)[i].0
                != spec_cache_upsert(es, name, m)[j].0,
        spec_cache_upsert(es, name, m).len() == if spec_cache_lookup(es, name) is Some {
            es.len() as int
        } else {
            es.len() + 1int
        },
        spec_cache_lookup(spec_cache_upsert(es, name, m), name) == Some(m),
        forall|k: Seq<char>|
            k != name ==> spec_cache_lookup(spec_cache_upsert(es, name, m), k)
                == spec_cache_lookup(es, k),
    decreases es.len(),
{
    if es.len() == 0 {
        let r = seq![(name, m)];
        assert forall|k: Seq<char>|
            k != name implies spec_cache_lookup(r, k) == spec_cache_lookup(es, k) by {
            assert(r.drop_first() =~= es);
            assert(spec_cache_lookup(r, k) == spec_cache_lookup(r.drop_first(), k));
        }
    } else if es[0].0 == name {
        let r = seq![(name, m)] + es.drop_first();
        assert(r.drop_first() =~= es.drop_first());
        assert forall|k: Seq<char>|
            k != name implies spec_cache_lookup(r, k) == spec_cache_lookup(es, k) by {
            assert(spec_cache_lookup(r, k) == spec_cache_lookup(r.drop_first(), k));
        }
    } else {
        lemma_cache_upsert_distinct(es.drop_first(), name, m);
        let r = seq![es[0]] + spec_cache_upsert(es.drop_first(), name, m);
        assert(r.drop_first() =~= spec_cache_upsert(es.drop_first(), name, m));
        assert(spec_cache_upsert(es, name, m) == r);
        assert(spec_cache_lookup(es, name) == spec_cache_lookup(es.drop_first(), name));
        assert(spec_cache_lookup(r, name) == spec_cache_lookup(r.drop_first(), name));
        assert forall|i: int, j: int| 0 <= i < j < r.len() implies r[i].0 != r[j].0 by {
            if i == 0 {
                lemma_cache_upsert_keys(es.drop_first(), name, m, j - 1);
            }
        }
        assert forall|k: Seq<char>|
            k != name implies spec_cache_lookup(r, k) == spec_cache_lookup(es, k) by {
            assert(spec_cache_lookup(r, k) == if r[0].0 == k {
                Some(r[0].1)
            } else {
                spec_cache_lookup(r.drop_first(), k)
            });
            assert(spec_cache_lookup(es, k) == if es[0].0 == k {
                Some(es[0].1)
            } else {
                spec_cache_lookup(es.drop_first(), k)
            });
        }
    }
}

/// When no entry has the name, the lookup yields nothing.
pub proof fn lemma_cache_lookup_absent(es: CacheV, name: Seq<char>)
    requires
        forall|j: int| 0 <= j < es.len() ==> es[j].0 != name,
    ensures
        spec_cache_lookup(es, name) is None,
{
    lemma_cache_lookup_skip(es, name, es.len() as int);
    assert(es.skip(es.len() as int) =~= Seq::<(Seq<char>, ManifestV)>::empty());
}

/// A successful lookup yields one of the entries.
pub proof fn lemma_cache_lookup_is_entry(es: CacheV, name: Seq<char>)
    requires
        spec_cache_lookup(es, name) is Some,
    ensures
        exists|i: int|
            0 <= i < es.len() && #[trigger] es[i] == (name, spec_cache_lookup(es, name)->Some_0),
    decreases es.len(),
{
    if es[0].0 == name {
        assert(es[0] == (name, spec_cache_lookup(es, name)->Some_0));
    } else {
        lemma_cache_lookup_is_entry(es.drop_first(), name);
        let i = choose|i: int|
            0 <= i < es.drop_first().len() && #[trigger] es.drop_first()[i] == (
                name,
                spec_cache_lookup(es.drop_first(), name)->Some_0,
            );
        assert(es[i + 1] == (name, spec_cache_lookup(es, name)->Some_0));
    }
}

/// When every manifest sits under its own name and the new one does too,
/// that stays true after an upsert.
pub proof fn lemma_cache_upsert_names(es: CacheV, name: Seq<char>, m: ManifestV)
    requires
        m.name == name,
        forall|i: int| 0 <= i < es.len() ==> (#[trigger] es[i]).1.name == es[i].0,
    ensures
        forall|i: int|
            0 <= i < spec_cache_upsert(es, name, m).len() ==> (#[trigger] spec_cache_upsert(
                es,
                name,
                m,
            )[i]).1.name == spec_cache_upsert(es, name, m)[i].0,
    decreases es.len(),
{
    if es.len() == 0 {
    } else if es[0].0 == name {
        let r = seq![(name, m)] + es.drop_first();
        assert forall|i: int| 0 <= i < r.len() implies (#[trigger] r[i]).1.name == r[i].0 by {
            if i > 0 {
                assert(r[i] == es[i]);
            }
        }
    } else {
        lemma_cache_upsert_names(es.drop_first(), name, m);
        let r = seq![es[0]] + spec_cache_upsert(es.drop_first(), name, m);
        assert forall|i: int| 0 <= i < r.len() implies (#[trigger] r[i]).1.name == r[i].0 by {
            if i > 0 {
                assert(r[i] == spec_cache_upsert(es.drop_first(), name, m)[i - 1]);
            }
        }
    }
}

/// Every key of an upserted cache is the new name or an old key.
proof fn lemma_cache_upsert_keys(es: CacheV, name: Seq<char>, m: ManifestV, i: int)
    requires
        0 <= i < spec_cache_upsert(es, name, m).len(),
    ensures
        spec_cache_upsert(es, name, m)[i].0 == name || exists|j: int|
            0 <= j < es.len() && es[j].0 == #[trigger] spec_cache_upsert(es, name, m)[i].0,
    decreases es.len(),
{
    if es.len() == 0 {
    } else if es[0].0 == name {
    } else {
        if i > 0 {
            lemma_cache_upsert_keys(es.drop_first(), name, m, i - 1);
            let r = seq![es[0]] + spec_cache_upsert(es.drop_first(), name, m);
            assert(r[i] == spec_cache_upsert(es.drop_first(), name, m)[i - 1]);
            if spec_cache_upsert(es.drop_first(), name, m)[i - 1].0 != name {
                let j = choose|j: int|
                    0 <= j < es.drop_first().len() && es.drop_first()[j].0
                        == spec_cache_upsert(es.drop_first(), name, m)[i - 1].0;
                assert(es[j + 1].0 == spec_cache_upsert(es, name, m)[i].0);
            }
        }
    }
}

impl ManifestCache {
    /// An empty cache.
    pub fn new() -> (r: ManifestCache)
        ensures
            r@ == Seq::<(Seq<char>, ManifestV)>::empty(),
    {
        let r = ManifestCache { entries: Vec::new() };
        proof {
            assert(r@ =~= Seq::<(Seq<char>, ManifestV)>::empty());
        }
        r
    }

    /// The index of the first entry with the given name.
    fn find_index(&self, name: &str) -> (r: Option<usize>)
        ensures
            match r {
                Some(i) => {
                    &&& i < self.entries@.len()
                    &&& self@[i as int].0 == name@
                    &&& forall|j: int| 0 <= j < i ==> self@[j].0 != name@
                    &&& spec_cache_lookup(self@, name@) == Some(self@[i as int].1)
                },
                None => {
                    &&& spec_cache_lookup(self@, name@) is None
                    &&& forall|j: int| 0 <= j < self@.len() ==> self@[j].0 != name@
                },
            },
    {
        let mut i: usize = 0;
        while i < self.entries.len()
            invariant
                i <= self.entries@.len(),
                self@.len() == self.entries@.len(),
                forall|j: int|
                    0 <= j < self.entries@.len() ==> self@[j] == (
                    self.entries@[j].0@,
                    self.entries@[j].1@,
                    ),
                forall|j: int| 0 <= j < i ==> self@[j].0 != name@,
            decreases self.entries@.len() - i,
        {
            if crate::strutil::str_eq(self.entries[i].0.as_str(), name) {
                proof {
                    lemma_cache_lookup_skip(self@, name@, i as int);
                    assert(self@.skip(i as int)[0] == self@[i as int]);
                }
                return Some(i);
            }
            i = i + 1;
        }
        proof {
            lemma_cache_lookup_skip(self@, name@, self@.len() as int);
            assert(self@.skip(self@.len() as int) =~= Seq::<(Seq<char>, ManifestV)>::empty());
        }
        None
    }

    /// The manifest cached under the given name, if any.
    pub fn get<'a>(&'a self, name: &str) -> (r: Option<&'a PluginConfigData>)
        ensures
            match r {
                Some(m) => spec_cache_lookup(self@, name@) == Some(m@),
                None => spec_cache_lookup(self@, name@) is None,
            },
    {
        match self.find_index(name) {
            Some(i) => Some(&self.entries[i].1),
            None => None,
        }
    }

    /// Cache a manifest under a name, replacing any prior entry of that
    /// name.
    pub fn insert(&mut self, name: String, m: PluginConfigData)
        ensures
            final(self)@ == spec_cache_upsert(old(self)@, name@, m@),
    {
        let ghost old_v = self@;
        match self.find_index(name.as_str()) {
            Some(i) => {
                proof {
                    lemma_cache_upsert_at(old_v, name@, m@, i as int);
                }
                self.entries.remove(i);
                self.entries.insert(i, (name, m));
                proof {
                    assert(self@ =~= old_v.update(i as int, (name@, m@)));
                }
            },
            None => {
                proof {
                    lemma_cache_upsert_absent(old_v, name@, m@);
                }
                self.entries.push((name, m));
                proof {
                    assert(self@ =~= old_v.push((name@, m@)));
                }
            },
        }
    }

    /// The number of cached manifests.
    pub fn len(&self) -> (r: usize)
        ensures
            r == self@.len(),
    {
        self.entries.len()
    }
}

} // verus!
