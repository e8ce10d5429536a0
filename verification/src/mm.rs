//! A task's address space, as the set of virtual pages that are mapped and
//! the permission bits of each.

use vstd::prelude::*;
use crate::config::PAGE_SIZE;

verus! {

/// Permission bit: the page may be read.
pub const PERM_R: u8 = 2;

/// Permission bit: the page may be written.
pub const PERM_W: u8 = 4;

/// Permission bit: the page may be executed.
pub const PERM_X: u8 = 8;

/// Permission bit: the page is accessible from user mode.
pub const PERM_U: u8 = 16;

/// Number of the page that holds address `addr`.
pub open spec fn floor_page(addr: int) -> int {
    addr / (PAGE_SIZE as int)
}

/// Number of the first page that starts at or after address `addr`.
pub open spec fn ceil_page(addr: int) -> int {
    (addr + PAGE_SIZE - 1) / (PAGE_SIZE as int)
}

/// Page number that holds `addr`.
pub fn page_floor(addr: usize) -> (vpn: usize)
    ensures
        vpn == floor_page(addr as int),
{
    addr / PAGE_SIZE
}

/// Number of the first page that starts at or after `addr`.
pub fn page_ceil(addr: usize) -> (vpn: usize)
    ensures
        vpn == ceil_page(addr as int),
{
    let q: usize = addr / PAGE_SIZE;
    if addr % PAGE_SIZE == 0 {
        q
    } else {
        q + 1
    }
}

/// A run of consecutive pages, `start_vpn` up to but not including `end_vpn`,
/// mapped with one permission.
#[derive(Clone, Copy, Debug)]
pub struct MapArea {
    pub start_vpn: usize,
    pub end_vpn: usize,
    pub perm: u8,
}

impl MapArea {
    /// Whether page `vpn` lies in this area.
    pub open spec fn covers(self, vpn: int) -> bool {
        self.start_vpn <= vpn < self.end_vpn
    }

    /// Whether this area shares no page with `[start, end)`.
    pub open spec fn clear_of(self, start: int, end: int) -> bool {
        self.end_vpn <= start || end <= self.start_vpn || self.end_vpn <= self.start_vpn || end
            <= start
    }
}

/// The mapped pages of one address space.
pub struct MemorySet {
    token: usize,
    areas: Vec<MapArea>,
}

/// Whether `pages` holds no page of `[start, end)`.
pub open spec fn pages_free(pages: Map<int, u8>, start: int, end: int) -> bool {
    forall|vpn: int| start <= vpn < end ==> !pages.contains_key(vpn)
}

/// The pages that `[start, end)` touches, each with permission `perm`.
pub open spec fn fresh_pages(start: int, end: int, perm: u8) -> Map<int, u8> {
    Map::new(|vpn: int| floor_page(start) <= vpn < ceil_page(end), |vpn: int| perm)
}

/// Whether area `i` of `areas` is the first one that holds page `vpn`.
pub open spec fn first_cover(areas: Seq<MapArea>, i: int, vpn: int) -> bool {
    &&& 0 <= i < areas.len()
    &&& areas[i].covers(vpn)
    &&& forall|j: int| 0 <= j < i ==> !(#[trigger] areas[j]).covers(vpn)
}

/// An area that holds a page is preceded by, or is, the first that does.
proof fn lemma_first_cover(areas: Seq<MapArea>, k: int, vpn: int)
    requires
        0 <= k < areas.len(),
        areas[k].covers(vpn),
    ensures
        exists|i: int| first_cover(areas, i, vpn),
    decreases k,
{
    if exists|j: int| 0 <= j < k && (#[trigger] areas[j]).covers(vpn) {
        let j = choose|j: int| 0 <= j < k && (#[trigger] areas[j]).covers(vpn);
        lemma_first_cover(areas, j, vpn);
    } else {
        assert(first_cover(areas, k, vpn));
    }
}

impl MemorySet {
    spec fn holder(self, vpn: int) -> int {
        choose|i: int| first_cover(self.areas@, i, vpn)
    }

    /// The mapped pages, each with its permission bits.
    pub closed spec fn pages(self) -> Map<int, u8> {
        Map::new(
            |vpn: int| exists|i: int| first_cover(self.areas@, i, vpn),
            |vpn: int| self.areas@[self.holder(vpn)].perm,
        )
    }

    /// The token that identifies this address space to the hardware.
    pub closed spec fn token_value(self) -> usize {
        self.token
    }

    /// Whether no page of `[start, end)` is mapped.
    pub open spec fn is_free(self, start: int, end: int) -> bool {
        pages_free(self.pages(), start, end)
    }

    /// An address space with no page mapped.
    pub fn new(token: usize) -> (ms: Self)
        ensures
            ms.token_value() == token,
            ms.pages() == Map::<int, u8>::empty(),
    {
        let ms = MemorySet { token, areas: Vec::new() };
        assert(ms.pages() =~= Map::<int, u8>::empty());
        ms
    }

    /// The token that identifies this address space to the hardware.
    pub fn token(&self) -> (t: usize)
        ensures
            t == self.token_value(),
    {
        self.token
    }

    /// The permission bits of page `vpn`, if it is mapped.
    pub fn translate(&self, vpn: usize) -> (perm: Option<u8>)
        ensures
            perm == (if self.pages().contains_key(vpn as int) {
                Some(self.pages()[vpn as int])
            } else {
                None::<u8>
            }),
    {
        let mut i: usize = 0;
        while i < self.areas.len()
            invariant
                i <= self.areas@.len(),
                forall|k: int| 0 <= k < i ==> !(#[trigger] self.areas@[k]).covers(vpn as int),
            decreases self.areas@.len() - i,
        {
            let a = self.areas[i];
            if a.start_vpn <= vpn && vpn < a.end_vpn {
                proof {
                    assert(first_cover(self.areas@, i as int, vpn as int));
                    let h = self.holder(vpn as int);
                    assert(first_cover(self.areas@, h, vpn as int));
                    assert(h == i);
                }
                return Some(a.perm);
            }
            i += 1;
        }
        None
    }

    /// Whether no page of `[start_vpn, end_vpn)` is mapped.
    pub fn range_free(&self, start_vpn: usize, end_vpn: usize) -> (free: bool)
        ensures
            free == self.is_free(start_vpn as int, end_vpn as int),
    {
        let mut i: usize = 0;
        while i < self.areas.len()
            invariant
                i <= self.areas@.len(),
                forall|k: int|
                    0 <= k < i ==> (#[trigger] self.areas@[k]).clear_of(
                        start_vpn as int,
                        end_vpn as int,
                    ),
            decreases self.areas@.len() - i,
        {
            let a = self.areas[i];
            if !(a.end_vpn <= start_vpn || end_vpn <= a.start_vpn || a.end_vpn <= a.start_vpn
                || end_vpn <= start_vpn) {
                proof {
                    let w: int = if a.start_vpn <= start_vpn {
                        start_vpn as int
                    } else {
                        a.start_vpn as int
                    };
                    assert(self.areas@[i as int].covers(w));
                    lemma_first_cover(self.areas@, i as int, w);
                    assert(self.pages().contains_key(w));
                    assert(start_vpn <= w < end_vpn);
                }
                return false;
            }
            i += 1;
        }
        proof {
            assert forall|vpn: int| start_vpn <= vpn < end_vpn implies !self.pages().contains_key(
                vpn,
            ) by {
                if self.pages().contains_key(vpn) {
                    let h = self.holder(vpn);
                    assert(first_cover(self.areas@, h, vpn));
                    assert(self.areas@[h].clear_of(start_vpn as int, end_vpn as int));
                }
            }
        }
        true
    }

    /// Maps every page that `[start, end)` touches, with permission `perm`.
    /// The pages must be free; all other pages stay as they were.
    pub fn insert_framed_area(&mut self, start: usize, end: usize, perm: u8)
        requires
            old(self).is_free(floor_page(start as int), ceil_page(end as int)),
        ensures
            final(self).token_value() == old(self).token_value(),
            final(self).pages() == old(self).pages().union_prefer_right(
                fresh_pages(start as int, end as int, perm),
            ),
    {
        let area = MapArea { start_vpn: page_floor(start), end_vpn: page_ceil(end), perm };
        let ghost before = *self;
        self.areas.push(area);
        proof {
            let fresh = fresh_pages(start as int, end as int, perm);
            let n = before.areas@.len() as int;
            assert(self.areas@[n] == area);
            assert forall|vpn: int|
                before.pages().contains_key(vpn) implies self.pages().contains_key(vpn)
                && self.pages()[vpn] == before.pages()[vpn] && !fresh.contains_key(vpn) by {
                let h = before.holder(vpn);
                assert(first_cover(before.areas@, h, vpn));
                assert(self.areas@[h] == before.areas@[h]);
                assert forall|j: int| 0 <= j < h implies !(#[trigger] self.areas@[j]).covers(
                    vpn,
                ) by {
                    assert(self.areas@[j] == before.areas@[j]);
                }
                assert(first_cover(self.areas@, h, vpn));
                let g = self.holder(vpn);
                assert(first_cover(self.areas@, g, vpn));
                assert(g == h);
            }
            assert forall|vpn: int| fresh.contains_key(vpn) implies self.pages().contains_key(vpn)
                && self.pages()[vpn] == perm by {
                assert(self.areas@[n].covers(vpn));
                lemma_first_cover(self.areas@, n, vpn);
                let g = self.holder(vpn);
                assert(first_cover(self.areas@, g, vpn));
                if g < n {
                    assert(self.areas@[g] == before.areas@[g]);
                    assert forall|j: int| 0 <= j < g implies !(#[trigger] before.areas@[j]).covers(
                        vpn,
                    ) by {
                        assert(self.areas@[j] == before.areas@[j]);
                    }
                    assert(first_cover(before.areas@, g, vpn));
                    assert(before.pages().contains_key(vpn));
                }
            }
            assert forall|vpn: int| self.pages().contains_key(vpn) implies before.pages().contains_key(
                vpn,
            ) || fresh.contains_key(vpn) by {
                let g = self.holder(vpn);
                assert(first_cover(self.areas@, g, vpn));
                if g < n {
                    assert(self.areas@[g] == before.areas@[g]);
                    assert forall|j: int| 0 <= j < g implies !(#[trigger] before.areas@[j]).covers(
                        vpn,
                    ) by {
                        assert(self.areas@[j] == before.areas@[j]);
                    }
                    assert(first_cover(before.areas@, g, vpn));
                }
            }
            let joined = before.pages().union_prefer_right(fresh);
            assert forall|vpn: int| #[trigger]
                self.pages().contains_key(vpn) == joined.contains_key(vpn) && (
                joined.contains_key(vpn) ==> self.pages()[vpn] == joined[vpn]) by {
                if fresh.contains_key(vpn) {
                    assert(self.pages()[vpn] == perm);
                } else if before.pages().contains_key(vpn) {
                    assert(self.pages()[vpn] == before.pages()[vpn]);
                }
            }
            assert(self.pages() =~= joined);
        }
    }
}

} // verus!
