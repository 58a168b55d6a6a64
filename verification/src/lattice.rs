//! The lattice: the set of live sites.

use crate::math::IVec2;
use std::collections::HashSet;
use vstd::prelude::*;
use vstd::set_lib::lemma_map_size;
use vstd::std_specs::hash::spec_hash_keys_iter;
use vstd::std_specs::iter::IteratorSpec;

verus! {

broadcast use vstd::std_specs::hash::group_hash_axioms;

/// The key under which a site is stored: both components, shifted to be
/// non-negative, side by side in one word.
spec fn site_key(c: IVec2) -> u64 {
    ((c.x + 0x8000_0000) * 0x1_0000_0000 + (c.y + 0x8000_0000)) as u64
}

/// The site stored under a key.
spec fn key_site(k: u64) -> IVec2 {
    IVec2 {
        x: (k / 0x1_0000_0000 - 0x8000_0000) as i32,
        y: (k % 0x1_0000_0000 - 0x8000_0000) as i32,
    }
}

/// Keys and sites correspond one to one.
proof fn lemma_site_key_bijective()
    ensures
        forall|c: IVec2| #[trigger] key_site(site_key(c)) == c,
        forall|k: u64| #[trigger] site_key(key_site(k)) == k,
{
}

fn to_key(c: IVec2) -> (k: u64)
    ensures
        k == site_key(c),
{
    let x: u64 = (c.x as i64 + 0x8000_0000) as u64;
    let y: u64 = (c.y as i64 + 0x8000_0000) as u64;
    x * 0x1_0000_0000 + y
}

fn from_key(k: u64) -> (c: IVec2)
    ensures
        c == key_site(k),
{
    let x: i64 = (k / 0x1_0000_0000) as i64 - 0x8000_0000;
    let y: i64 = (k % 0x1_0000_0000) as i64 - 0x8000_0000;
    IVec2 { x: x as i32, y: y as i32 }
}

/// The set of live sites.
pub struct Lattice {
    keys: HashSet<u64>,
}

impl View for Lattice {
    type V = Set<IVec2>;

    closed spec fn view(&self) -> Set<IVec2> {
        self.keys@.map(|k: u64| key_site(k))
    }
}

impl Default for Lattice {
    fn default() -> (lattice: Lattice)
        ensures
            lattice@ == Set::<IVec2>::empty(),
    {
        Lattice::new()
    }
}

impl Lattice {
    proof fn lemma_view(&self)
        ensures
            self@.finite(),
            self.keys@.finite(),
            self@.len() == self.keys@.len(),
            forall|c: IVec2| self@.contains(c) <==> self.keys@.contains(site_key(c)),
    {
        lemma_site_key_bijective();
        let f = |k: u64| key_site(k);
        let it = vstd::std_specs::hash::spec_hash_keys_iter(&self.keys);
        vstd::seq_lib::seq_to_set_is_finite(it.remaining().unref());
        assert(self.keys@.finite());
        assert(vstd::relations::injective_on(f, self.keys@)) by {
            assert forall|a: u64, b: u64| #[trigger] f(a) == #[trigger] f(b) implies a == b by {
                assert(site_key(key_site(a)) == a);
                assert(site_key(key_site(b)) == b);
            }
        }
        lemma_map_size(self.keys@, self@, f);
        assert forall|c: IVec2| self@.contains(c) <==> self.keys@.contains(site_key(c)) by {
            if self.keys@.contains(site_key(c)) {
                assert(f(site_key(c)) == c);
            }
        }
    }

    /// The lattice with no live site.
    pub fn new() -> (lattice: Lattice)
        ensures
            lattice@ == Set::<IVec2>::empty(),
    {
        let lattice = Lattice { keys: HashSet::new() };
        assert(lattice@ =~= Set::<IVec2>::empty());
        lattice
    }

    /// Whether the site is live.
    pub fn contains(&self, site: &IVec2) -> (live: bool)
        ensures
            live == self@.contains(*site),
    {
        proof {
            self.lemma_view();
        }
        let k: u64 = to_key(*site);
        self.keys.contains(&k)
    }

    /// Makes the site live. Returns whether it was dead before.
    pub fn insert(&mut self, site: IVec2) -> (fresh: bool)
        ensures
            final(self)@ == old(self)@.insert(site),
            fresh == !old(self)@.contains(site),
    {
        proof {
            self.lemma_view();
        }
        let k: u64 = to_key(site);
        let fresh = self.keys.insert(k);
        proof {
            self.lemma_view();
            old(self).lemma_view();
            lemma_site_key_bijective();
            assert(self@ =~= old(self)@.insert(site));
        }
        fresh
    }

    /// Makes the site dead. Returns whether it was live before.
    pub fn remove(&mut self, site: &IVec2) -> (was_live: bool)
        ensures
            final(self)@ == old(self)@.remove(*site),
            was_live == old(self)@.contains(*site),
    {
        proof {
            self.lemma_view();
        }
        let k: u64 = to_key(*site);
        let was_live = self.keys.remove(&k);
        proof {
            self.lemma_view();
            old(self).lemma_view();
            lemma_site_key_bijective();
            assert(self@ =~= old(self)@.remove(*site));
        }
        was_live
    }

    /// The live sites, each once, in no particular order.
    pub fn iter(&self) -> (sites: Vec<IVec2>)
        ensures
            sites@.no_duplicates(),
            sites@.to_set() == self@,
    {
        let mut sites: Vec<IVec2> = Vec::new();
        for k in it: self.keys.iter()
            invariant
                it.seq() == spec_hash_keys_iter(&self.keys).remaining(),
                sites@.len() == it.index(),
                forall|i: int| 0 <= i < sites@.len() ==> sites@[i] == key_site(*it.seq()[i]),
        {
            sites.push(from_key(*k));
        }
        proof {
            self.lemma_view();
            lemma_site_key_bijective();
            let keys = spec_hash_keys_iter(&self.keys).remaining();
            assert(sites@.len() == keys.len());
            assert forall|i: int, j: int|
                0 <= i < sites@.len() && 0 <= j < sites@.len() && i != j implies sites@[i]
                != sites@[j] by {
                assert(site_key(sites@[i]) == *keys[i]);
                assert(site_key(sites@[j]) == *keys[j]);
            }
            assert forall|c: IVec2| sites@.to_set().contains(c) <==> self@.contains(c) by {
                if sites@.to_set().contains(c) {
                    let i = choose|i: int| 0 <= i < sites@.len() && sites@[i] == c;
                    assert(keys.unref()[i] == site_key(c));
                    assert(keys.unref().to_set().contains(site_key(c)));
                }
                if self@.contains(c) {
                    assert(keys.unref().to_set().contains(site_key(c)));
                    let i = choose|i: int| 0 <= i < keys.len() && keys.unref()[i] == site_key(c);
                    assert(sites@[i] == c);
                }
            }
            assert(sites@.to_set() =~= self@);
        }
        sites
    }

    /// The number of live sites.
    pub fn len(&self) -> (n: usize)
        ensures
            n == self@.len(),
            self@.finite(),
    {
        proof {
            self.lemma_view();
        }
        self.keys.len()
    }
}

} // verus!
