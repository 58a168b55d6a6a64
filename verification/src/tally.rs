//! The table in which a generation's neighbour counts are gathered.

use crate::math::IVec2;
use bevy::utils::hashbrown::HashMap;
use vstd::prelude::*;

verus! {

/// A hash table from sites to counts: hashbrown's `HashMap`, as bevy hands
/// it on under `bevy::utils::hashbrown`, keyed by the two coordinates of a
/// site. The verifier is shown nothing of its inside; what it holds is
/// named by `tallies`, and the functions below state what hashbrown's
/// methods do to that.
#[verifier::external_body]
pub struct NeighborCounts {
    map: HashMap<(i32, i32), usize>,
}

/// The entries of the table: the sites that have an entry, each with the
/// count stored for it.
pub uninterp spec fn tallies(counts: NeighborCounts) -> Map<IVec2, usize>;

/// A number of entries up to which the table can be made and grown: up to
/// here hashbrown computes a layout for the buckets that an insertion may
/// need, and does not give up with "capacity overflow".
pub open spec fn max_entries() -> int {
    (usize::MAX / 128) as int
}

impl NeighborCounts {
    /// Calls `HashMap::with_capacity`, which returns a table without entries
    /// that has room for `capacity` of them. It panics where the room asked
    /// for cannot be laid out, hence the bound.
    #[verifier::external_body]
    pub(crate) fn with_capacity(capacity: usize) -> (counts: NeighborCounts)
        requires
            capacity <= max_entries(),
        ensures
            (tallies(counts) == Map::<IVec2, usize>::empty()),
    {
        NeighborCounts { map: HashMap::with_capacity(capacity) }
    }

    /// Calls `HashMap::get`, which returns the count stored for the site, or
    /// `None` where the site has no entry.
    #[verifier::external_body]
    pub(crate) fn get(&self, site: &IVec2) -> (found: Option<usize>)
        ensures
            found == if tallies(*self).contains_key(*site) {
                Some(tallies(*self)[*site])
            } else {
                None::<usize>
            },
    {
        self.map.get(&(site.x, site.y)).copied()
    }

    /// Calls `HashMap::insert`, after which the site has the given count,
    /// whether or not it had an entry, and every other site has the entry it
    /// had. The table may have to grow for a new entry, and panics where it
    /// cannot be laid out, hence the bound.
    #[verifier::external_body]
    pub(crate) fn insert(&mut self, site: &IVec2, count: usize)
        requires
            tallies(*old(self)).dom().finite(),
            tallies(*old(self)).dom().len() < max_entries(),
        ensures
            tallies(*final(self)) == tallies(*old(self)).insert(*site, count),
    {
        self.map.insert((site.x, site.y), count);
    }

    /// Calls `HashMap::keys`, which visits each entry once, in an order that
    /// nothing here relies on, and collects the sites.
    #[verifier::external_body]
    pub(crate) fn keys(&self) -> (sites: Vec<IVec2>)
        ensures
            sites@.no_duplicates(),
            forall|site: IVec2| sites@.contains(site) <==> tallies(*self).contains_key(site),
    {
        self.map.keys().map(|key| IVec2 { x: key.0, y: key.1 }).collect()
    }
}

} // verus!
