//! LRU cache of whole flash sectors held in SRAM.
//!
//! A lookup that misses is completed by the caller: it reads the sector at
//! [`LruSectorCache::sector_offset`] and hands the bytes to
//! [`LruSectorCache::fill`] for the entry [`LruSectorCache::victim_index`] chose.

use vstd::prelude::*;

verus! {

/// One cached sector.
struct CacheEntry {
    sector_id: Option<u32>,
    generation: u64,
    data: Vec<u8>,
}

/// An LRU cache storing `SECTORS` whole flash sectors of `SECTOR_SIZE` bytes.
pub struct LruSectorCache<const SECTORS: usize, const SECTOR_SIZE: usize> {
    entries: Vec<CacheEntry>,
    lru_counter: u64,
}

/// Entry `i` is the first entry caching `sector_id`.
pub open spec fn first_cached(ids: Seq<Option<u32>>, sector_id: u32, i: int) -> bool {
    &&& 0 <= i < ids.len()
    &&& ids[i] == Some(sector_id)
    &&& forall|j: int| 0 <= j < i ==> ids[j] != Some(sector_id)
}

/// Entry `i` is the one a miss refills: the first empty entry, else the first entry
/// with the smallest stamp below `u64::MAX`, else entry 0.
pub open spec fn victim_choice(ids: Seq<Option<u32>>, gens: Seq<u64>, i: int) -> bool {
    ||| {
        &&& 0 <= i < ids.len()
        &&& ids[i] is None
        &&& forall|j: int| 0 <= j < i ==> ids[j] is Some
    }
    ||| {
        &&& forall|j: int| 0 <= j < ids.len() ==> ids[j] is Some
        &&& 0 <= i < ids.len()
        &&& gens[i] < u64::MAX
        &&& forall|j: int| 0 <= j < ids.len() ==> gens[i] <= gens[j]
        &&& forall|j: int| 0 <= j < i ==> gens[j] > gens[i]
    }
    ||| {
        &&& forall|j: int| 0 <= j < ids.len() ==> ids[j] is Some && gens[j] == u64::MAX
        &&& i == 0
    }
}

/// No sector is cached in two entries.
pub open spec fn sectors_unique(ids: Seq<Option<u32>>) -> bool {
    forall|i: int, j: int|
        0 <= i < ids.len() && 0 <= j < ids.len() && i != j && ids[i] is Some ==> ids[i] != ids[j]
}

/// After a miss on `sector_id` refills entry `idx` with it, the sector is found in
/// exactly that entry.
pub proof fn lemma_filled_sector_found(ids: Seq<Option<u32>>, idx: int, sector_id: u32)
    requires
        0 <= idx < ids.len(),
        forall|j: int| 0 <= j < ids.len() ==> ids[j] != Some(sector_id),
    ensures
        first_cached(ids.update(idx, Some(sector_id)), sector_id, idx),
        forall|j: int|
            0 <= j < ids.len() && j != idx ==> ids.update(idx, Some(sector_id))[j] != Some(
                sector_id,
            ),
{
}

impl<const SECTORS: usize, const SECTOR_SIZE: usize> LruSectorCache<SECTORS, SECTOR_SIZE> {
    /// Well-formedness: `SECTORS` entries of `SECTOR_SIZE` bytes each.
    pub closed spec fn wf(self) -> bool {
        &&& self.entries@.len() == SECTORS
        &&& forall|i: int| 0 <= i < SECTORS ==> (#[trigger] self.entries@[i]).data@.len() == SECTOR_SIZE
    }

    /// The sector cached by each entry.
    pub closed spec fn ids(self) -> Seq<Option<u32>> {
        Seq::new(self.entries@.len(), |i: int| self.entries@[i].sector_id)
    }

    /// The LRU stamp of each entry.
    pub closed spec fn gens(self) -> Seq<u64> {
        Seq::new(self.entries@.len(), |i: int| self.entries@[i].generation)
    }

    /// The bytes held by each entry.
    pub closed spec fn contents(self) -> Seq<Seq<u8>> {
        Seq::new(self.entries@.len(), |i: int| self.entries@[i].data@)
    }

    /// The LRU counter (the stamp of the last entry touched).
    pub closed spec fn counter(self) -> u64 {
        self.lru_counter
    }

    /// A well-formed cache has `SECTORS` entries of `SECTOR_SIZE` bytes.
    pub proof fn lemma_shape(self)
        requires
            self.wf(),
        ensures
            self.ids().len() == SECTORS,
            self.gens().len() == SECTORS,
            self.contents().len() == SECTORS,
            forall|i: int| 0 <= i < SECTORS ==> (#[trigger] self.contents()[i]).len() == SECTOR_SIZE,
    {
    }

    /// Creates a new empty sector cache.
    pub fn new() -> (r: Self)
        ensures
            r.wf(),
            r.ids() == Seq::new(SECTORS as nat, |i: int| None::<u32>),
            r.gens() == Seq::new(SECTORS as nat, |i: int| 0u64),
            r.contents() == Seq::new(SECTORS as nat, |i: int| Seq::new(SECTOR_SIZE as nat, |k: int| 0u8)),
            r.counter() == 0,
    {
        let mut entries: Vec<CacheEntry> = Vec::new();
        let mut i: usize = 0;
        while i < SECTORS
            invariant
                0 <= i <= SECTORS,
                entries@.len() == i,
                forall|k: int|
                    0 <= k < i ==> (#[trigger] entries@[k]).sector_id is None
                        && entries@[k].generation == 0 && entries@[k].data@ == Seq::new(
                        SECTOR_SIZE as nat,
                        |j: int| 0u8,
                    ),
            decreases SECTORS - i,
        {
            let mut data: Vec<u8> = Vec::new();
            let mut j: usize = 0;
            while j < SECTOR_SIZE
                invariant
                    0 <= j <= SECTOR_SIZE,
                    data@ == Seq::new(j as nat, |k: int| 0u8),
                decreases SECTOR_SIZE - j,
            {
                data.push(0u8);
                j += 1;
            }
            entries.push(CacheEntry { sector_id: None, generation: 0, data });
            i += 1;
        }
        let r = LruSectorCache { entries, lru_counter: 0 };
        assert(r.ids() =~= Seq::new(SECTORS as nat, |i: int| None::<u32>));
        assert(r.gens() =~= Seq::new(SECTORS as nat, |i: int| 0u64));
        assert(r.contents() =~= Seq::new(
            SECTORS as nat,
            |i: int| Seq::new(SECTOR_SIZE as nat, |k: int| 0u8),
        ));
        r
    }

    /// Looks up a sector. On a hit, renews the entry's LRU stamp and returns its data;
    /// on a miss, changes nothing.
    pub fn get(&mut self, sector_id: u32) -> (r: Option<&[u8]>)
        requires
            old(self).wf(),
        ensures
            final(self).wf(),
            final(self).ids() == old(self).ids(),
            final(self).contents() == old(self).contents(),
            match r {
                Some(data) => exists|i: int|
                    {
                        &&& first_cached(old(self).ids(), sector_id, i)
                        &&& data@ == old(self).contents()[i]
                        &&& final(self).counter() == old(self).counter().wrapping_add(1)
                        &&& final(self).gens() == old(self).gens().update(i, final(self).counter())
                    },
                None => {
                    &&& forall|j: int| 0 <= j < SECTORS ==> old(self).ids()[j] != Some(sector_id)
                    &&& final(self).gens() == old(self).gens()
                    &&& final(self).counter() == old(self).counter()
                },
            },
    {
        match self.find(sector_id) {
            Some(i) => {
                self.touch(i);
                let data = self.entries[i].data.as_slice();
                assert(data@ == old(self).contents()[i as int]);
                assert(first_cached(old(self).ids(), sector_id, i as int));
                Some(data)
            },
            None => None,
        }
    }

    /// The first entry caching `sector_id`, if any.
    pub fn find(&self, sector_id: u32) -> (r: Option<usize>)
        requires
            self.wf(),
        ensures
            match r {
                Some(i) => first_cached(self.ids(), sector_id, i as int),
                None => forall|j: int| 0 <= j < SECTORS ==> self.ids()[j] != Some(sector_id),
            },
    {
        let mut i: usize = 0;
        while i < SECTORS
            invariant
                0 <= i <= SECTORS,
                self.wf(),
                forall|j: int| 0 <= j < i ==> self.ids()[j] != Some(sector_id),
            decreases SECTORS - i,
        {
            let hit = match self.entries[i].sector_id {
                Some(id) => id == sector_id,
                None => false,
            };
            if hit {
                return Some(i);
            }
            i += 1;
        }
        None
    }

    /// Renews the LRU stamp of entry `i`.
    fn touch(&mut self, i: usize)
        requires
            old(self).wf(),
            i < SECTORS,
        ensures
            final(self).wf(),
            final(self).ids() == old(self).ids(),
            final(self).contents() == old(self).contents(),
            final(self).counter() == old(self).counter().wrapping_add(1),
            final(self).gens() == old(self).gens().update(i as int, final(self).counter()),
    {
        self.lru_counter = self.lru_counter.wrapping_add(1);
        self.entries[i].generation = self.lru_counter;
        assert(self.ids() =~= old(self).ids());
        assert(self.contents() =~= old(self).contents());
        assert(self.gens() =~= old(self).gens().update(i as int, self.lru_counter));
    }

    /// The entry a miss refills: the first empty entry, else the least recently used
    /// one (entry 0 when every stamp is `u64::MAX`, or when there are no entries).
    pub fn victim_index(&self) -> (r: usize)
        requires
            self.wf(),
        ensures
            SECTORS == 0 ==> r == 0,
            SECTORS > 0 ==> victim_choice(self.ids(), self.gens(), r as int),
    {
        let mut target_idx: usize = 0;
        let mut min_gen: u64 = u64::MAX;
        let mut i: usize = 0;
        while i < SECTORS
            invariant
                0 <= i <= SECTORS,
                self.wf(),
                forall|j: int| 0 <= j < i ==> self.ids()[j] is Some,
                forall|j: int| 0 <= j < i ==> min_gen <= self.gens()[j],
                min_gen < u64::MAX ==> {
                    &&& target_idx < i
                    &&& self.gens()[target_idx as int] == min_gen
                    &&& forall|j: int| 0 <= j < target_idx ==> self.gens()[j] > min_gen
                },
                min_gen == u64::MAX ==> target_idx == 0 && forall|j: int|
                    0 <= j < i ==> self.gens()[j] == u64::MAX,
            decreases SECTORS - i,
        {
            if self.entries[i].sector_id.is_none() {
                return i;
            }
            if self.entries[i].generation < min_gen {
                min_gen = self.entries[i].generation;
                target_idx = i;
            }
            i += 1;
        }
        target_idx
    }

    /// Stores the sector `sector_id`, read from storage as `bytes`, in entry `idx`
    /// with a fresh LRU stamp.
    pub fn fill(&mut self, idx: usize, sector_id: u32, bytes: &[u8])
        requires
            old(self).wf(),
            idx < SECTORS,
            bytes@.len() == SECTOR_SIZE,
        ensures
            final(self).wf(),
            final(self).counter() == old(self).counter().wrapping_add(1),
            final(self).ids() == old(self).ids().update(idx as int, Some(sector_id)),
            final(self).gens() == old(self).gens().update(idx as int, final(self).counter()),
            final(self).contents() == old(self).contents().update(idx as int, bytes@),
            sectors_unique(old(self).ids()) && (forall|j: int|
                0 <= j < SECTORS && j != idx ==> old(self).ids()[j] != Some(sector_id))
                ==> sectors_unique(final(self).ids()),
    {
        let mut data: Vec<u8> = Vec::new();
        let mut k: usize = 0;
        while k < bytes.len()
            invariant
                0 <= k <= bytes@.len(),
                data@ == bytes@.subrange(0, k as int),
            decreases bytes@.len() - k,
        {
            data.push(bytes[k]);
            k += 1;
        }
        assert(data@ =~= bytes@);
        self.lru_counter = self.lru_counter.wrapping_add(1);
        let generation = self.lru_counter;
        self.entries[idx] = CacheEntry { sector_id: Some(sector_id), generation, data };
        assert(self.ids() =~= old(self).ids().update(idx as int, Some(sector_id)));
        assert(self.gens() =~= old(self).gens().update(idx as int, generation));
        assert(self.contents() =~= old(self).contents().update(idx as int, bytes@));
    }

    /// The bytes held by entry `idx`.
    pub fn sector_data(&self, idx: usize) -> (r: &[u8])
        requires
            self.wf(),
            idx < SECTORS,
        ensures
            r@ == self.contents()[idx as int],
    {
        self.entries[idx].data.as_slice()
    }

    /// Invalidates all cached sectors (their bytes are kept but no longer found).
    pub fn clear(&mut self)
        requires
            old(self).wf(),
        ensures
            final(self).wf(),
            final(self).ids() == Seq::new(SECTORS as nat, |i: int| None::<u32>),
            final(self).gens() == Seq::new(SECTORS as nat, |i: int| 0u64),
            final(self).contents() == old(self).contents(),
            final(self).counter() == old(self).counter(),
    {
        let mut i: usize = 0;
        while i < SECTORS
            invariant
                0 <= i <= SECTORS,
                self.wf(),
                old(self).wf(),
                self.ids().len() == SECTORS,
                self.gens().len() == SECTORS,
                old(self).ids().len() == SECTORS,
                old(self).gens().len() == SECTORS,
                self.contents() == old(self).contents(),
                self.counter() == old(self).counter(),
                forall|j: int| 0 <= j < i ==> self.ids()[j] is None,
                forall|j: int| 0 <= j < i ==> self.gens()[j] == 0,
                forall|j: int| i <= j < SECTORS ==> self.ids()[j] == old(self).ids()[j],
                forall|j: int| i <= j < SECTORS ==> self.gens()[j] == old(self).gens()[j],
            decreases SECTORS - i,
        {
            let ghost prev = *self;
            self.entries[i].sector_id = None;
            self.entries[i].generation = 0;
            assert(self.ids() =~= prev.ids().update(i as int, None));
            assert(self.gens() =~= prev.gens().update(i as int, 0));
            assert(self.contents() =~= prev.contents());
            i += 1;
        }
        assert(self.ids() =~= Seq::new(SECTORS as nat, |k: int| None::<u32>));
        assert(self.gens() =~= Seq::new(SECTORS as nat, |k: int| 0u64));
    }

    /// Storage offset of sector `sector_id` in a region starting at `flash_base_addr`,
    /// or `None` when it does not fit in 32 bits.
    pub fn sector_offset(flash_base_addr: u32, sector_id: u32) -> (r: Option<u32>)
        ensures
            match r {
                Some(o) => o == flash_base_addr + sector_id * (SECTOR_SIZE as u32),
                None => flash_base_addr + sector_id * (SECTOR_SIZE as u32) > u32::MAX,
            },
    {
        let size = SECTOR_SIZE as u32;
        match sector_id.checked_mul(size) {
            Some(rel) => flash_base_addr.checked_add(rel),
            None => {
                assert(sector_id * size <= flash_base_addr + sector_id * size) by (nonlinear_arith)
                    requires
                        flash_base_addr >= 0,
                ;
                None
            },
        }
    }
}

} // verus!
