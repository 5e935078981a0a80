//! Album art kept in memory.
//!
//! When the pictures would take more than the budget, all of them are dropped:
//! many albums are looked at a few times each, so keeping the most recent ones
//! would gain little.

use std::collections::HashMap;

use vstd::prelude::*;

verus! {

broadcast use vstd::std_specs::hash::group_hash_axioms;

/// A picture and its type.
#[derive(Debug)]
pub struct CachedArt {
    pub bytes: Vec<u8>,
    pub mime: &'static str,
}

impl CachedArt {
    pub open spec fn size(self) -> nat {
        self.bytes@.len()
    }

    pub fn approximate_size(&self) -> (r: usize)
        ensures
            r == self.size(),
    {
        self.bytes.len()
    }
}

/// How many bytes the pictures may take.
pub const CACHE_BYTES_BUDGET: usize = 104857600;

/// The pictures of albums, by the album's id.
#[derive(Debug)]
pub struct ArtCache {
    pictures: HashMap<i64, CachedArt>,
    current_bytes: usize,
}

impl View for ArtCache {
    type V = Map<i64, CachedArt>;

    closed spec fn view(&self) -> Map<i64, CachedArt> {
        self.pictures@
    }
}

/// How many bytes the pictures take together.
pub open spec fn total_bytes(m: Map<i64, CachedArt>) -> nat
    decreases m.dom().len(),
{
    if m.dom().finite() && m.dom().len() > 0 {
        let k = m.dom().choose();
        m[k].size() + total_bytes(m.remove(k))
    } else {
        0
    }
}

/// The sum does not depend on which picture is counted first.
proof fn lemma_total_without(m: Map<i64, CachedArt>, k: i64)
    requires
        m.dom().finite(),
        m.contains_key(k),
    ensures
        total_bytes(m) == m[k].size() + total_bytes(m.remove(k)),
    decreases m.dom().len(),
{
    let c = m.dom().choose();
    assert(m.dom().len() > 0);
    assert(m.dom().contains(c));
    if c != k {
        lemma_total_without(m.remove(c), k);
        lemma_total_without(m.remove(k), c);
        assert(m.remove(c).remove(k) =~= m.remove(k).remove(c));
    }
}

/// The pictures after one is put in: without the earlier one of the same album, and
/// without all earlier ones where they and the new one would exceed the budget.
pub open spec fn after_put(
    m: Map<i64, CachedArt>,
    album_id: i64,
    art: CachedArt,
    budget: usize,
) -> Map<i64, CachedArt> {
    if total_bytes(m) + art.size() > budget {
        Map::empty().insert(album_id, art)
    } else {
        m.insert(album_id, art)
    }
}

impl ArtCache {
    /// Whether the number of bytes is that of the pictures.
    pub closed spec fn wf(self) -> bool {
        &&& self@.dom().finite()
        &&& self.current_bytes == total_bytes(self@)
    }

    pub fn new() -> (r: Self)
        ensures
            r.wf(),
            r@ == Map::<i64, CachedArt>::empty(),
    {
        ArtCache { pictures: HashMap::new(), current_bytes: 0 }
    }

    /// The picture of the album, where there is one.
    pub fn get(&self, album_id: i64) -> (r: Option<&CachedArt>)
        ensures
            r == (if self@.contains_key(album_id) {
                Some(&self@[album_id])
            } else {
                None
            }),
    {
        self.pictures.get(&album_id)
    }

    /// Keep a picture within the usual budget.
    pub fn put(&mut self, album_id: i64, art: CachedArt)
        requires
            old(self).wf(),
        ensures
            final(self).wf(),
            final(self)@ == after_put(old(self)@, album_id, art, CACHE_BYTES_BUDGET),
    {
        self.put_with_budget(album_id, art, CACHE_BYTES_BUDGET);
    }

    /// Keep a picture within the given budget. The new picture is kept however large
    /// it is.
    pub fn put_with_budget(&mut self, album_id: i64, art: CachedArt, budget: usize)
        requires
            old(self).wf(),
        ensures
            final(self).wf(),
            final(self)@ == after_put(old(self)@, album_id, art, budget),
    {
        let size: usize = art.approximate_size();
        let fits = self.current_bytes <= budget && size <= budget - self.current_bytes;
        if !fits {
            self.pictures.clear();
            self.current_bytes = 0;
        }
        let ghost before = self.pictures@;
        assert(before.dom().finite());
        assert(total_bytes(before) == self.current_bytes);
        assert(self.current_bytes + size <= usize::MAX);
        let ghost after = before.insert(album_id, art);
        proof {
            lemma_total_without(after, album_id);
            if before.contains_key(album_id) {
                lemma_total_without(before, album_id);
                assert(after.remove(album_id) =~= before.remove(album_id));
            } else {
                assert(after.remove(album_id) =~= before);
            }
        }
        let replaced = self.pictures.insert(album_id, art);
        match replaced {
            Some(earlier) => {
                self.current_bytes = self.current_bytes - earlier.approximate_size();
            },
            None => {},
        }
        self.current_bytes = self.current_bytes + size;
    }

    pub fn current_bytes(&self) -> (r: usize)
        requires
            self.wf(),
        ensures
            r == total_bytes(self@),
    {
        self.current_bytes
    }

    pub fn len(&self) -> (r: usize)
        ensures
            r == self@.len(),
    {
        self.pictures.len()
    }

    pub fn is_empty(&self) -> (r: bool)
        ensures
            r == (self@.len() == 0),
    {
        self.pictures.len() == 0
    }
}

impl Default for ArtCache {
    fn default() -> (r: Self)
        ensures
            r.wf(),
            r@ == Map::<i64, CachedArt>::empty(),
    {
        ArtCache::new()
    }
}

/// What was put in last is there, and the pictures take no more than the budget,
/// unless the last one alone does.
pub proof fn budget_is_kept(m: Map<i64, CachedArt>, album_id: i64, art: CachedArt, budget: usize)
    requires
        m.dom().finite(),
    ensures
        after_put(m, album_id, art, budget).contains_key(album_id),
        after_put(m, album_id, art, budget)[album_id] == art,
        total_bytes(after_put(m, album_id, art, budget)) <= budget || total_bytes(
            after_put(m, album_id, art, budget),
        ) == art.size(),
{
    let none = Map::<i64, CachedArt>::empty();
    let kept = if total_bytes(m) + art.size() > budget {
        none
    } else {
        m
    };
    let after = kept.insert(album_id, art);
    assert(none.dom() =~= Set::empty());
    assert(kept.dom().finite());
    lemma_total_without(after, album_id);
    if kept.contains_key(album_id) {
        lemma_total_without(kept, album_id);
        assert(after.remove(album_id) =~= kept.remove(album_id));
    } else {
        assert(after.remove(album_id) =~= kept);
    }
}

} // verus!
