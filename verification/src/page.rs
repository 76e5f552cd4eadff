//! Pagination of result sets: page arithmetic and slicing.

use vstd::prelude::*;

verus! {

/// Largest page number, page size and result-set length the paging
/// arithmetic accepts; keeps every product and sum within bounds.
pub const MAX_PAGING: u64 = 0xffff_ffff;

/// The page number requested when none is given.
pub fn default_page() -> (r: u64)
    ensures
        r == 1,
{
    1
}

/// The page size used when none is given.
pub fn default_page_size() -> (r: u64)
    ensures
        r == 20,
{
    20
}

/// One page of a result set, with the totals a client needs to page
/// onward.
#[derive(Debug)]
pub struct Page<T> {
    pub data: Vec<T>,
    pub pages: u64,
    pub total: u64,
    pub next_page_offset: u64,
}

/// A paging request: which page, and how many entries per page.
#[derive(Clone, Copy, Debug)]
pub struct PagingOptions {
    pub page: u64,
    pub page_size: u64,
}

impl Default for PagingOptions {
    /// The first page, twenty entries.
    fn default() -> (r: PagingOptions)
        ensures
            r.page == 1,
            r.page_size == 20,
    {
        PagingOptions { page: default_page(), page_size: default_page_size() }
    }
}

/// The part of `s` that page `page` of size `page_size` shows.
pub open spec fn page_slice<T>(s: Seq<T>, page: u64, page_size: u64) -> Seq<T> {
    let offset = (page - 1) * page_size;
    let lo = if offset <= s.len() {
        offset as int
    } else {
        s.len() as int
    };
    let hi = if offset + page_size <= s.len() {
        (offset + page_size) as int
    } else {
        s.len() as int
    };
    s.subrange(lo, hi)
}

impl PagingOptions {
    /// Pages a result set: slices out the requested page and computes
    /// the totals, rounding the page count upward so that a final
    /// partial page counts.
    #[verifier::loop_isolation(false)]
    pub fn execute<T>(self, items: Vec<T>) -> (r: Page<T>)
        requires
            1 <= self.page <= MAX_PAGING,
            1 <= self.page_size <= MAX_PAGING,
            items@.len() <= MAX_PAGING,
        ensures
            r.total == items@.len(),
            r.pages == (items@.len() + self.page_size - 1) as u64 / self.page_size,
            r.next_page_offset == (self.page - 1) * self.page_size + self.page_size,
            r.data@ == page_slice(items@, self.page, self.page_size),
    {
        let mut items = items;
        proof {
            assert((self.page - 1) * self.page_size <= 0xffff_fffe * 0xffff_ffffu64)
                by (nonlinear_arith)
                requires
                    1 <= self.page <= 0xffff_ffffu64,
                    1 <= self.page_size <= 0xffff_ffffu64,
            ;
        }
        let offset: u64 = (self.page - 1) * self.page_size;
        let total: u64 = items.len() as u64;
        let pages: u64 = (total + self.page_size - 1) / self.page_size;
        let next_page_offset: u64 = offset + self.page_size;
        let ghost orig = items@;
        let mut data: Vec<T> = Vec::new();
        let lo: usize = if offset <= total {
            offset as usize
        } else {
            items.len()
        };
        let hi: usize = if offset + self.page_size <= total {
            (offset + self.page_size) as usize
        } else {
            items.len()
        };
        let mut taken: usize = 0;
        while taken < hi - lo
            invariant
                lo <= hi <= orig.len(),
                0 <= taken <= hi - lo,
                data@ == orig.subrange(lo as int, lo as int + taken as int),
                items@ == orig.subrange(0, lo as int) + orig.subrange(
                    lo as int + taken as int,
                    orig.len() as int,
                ),
            decreases hi - lo - taken,
        {
            proof {
                assert(items@[lo as int] == orig[lo as int + taken as int]);
            }
            let entry = items.remove(lo);
            data.push(entry);
            proof {
                assert(data@ =~= orig.subrange(lo as int, lo as int + taken as int + 1));
                assert(items@ =~= orig.subrange(0, lo as int) + orig.subrange(
                    lo as int + taken as int + 1,
                    orig.len() as int,
                ));
            }
            taken = taken + 1;
        }
        proof {
            assert(data@ =~= page_slice(orig, self.page, self.page_size));
        }
        Page { data, pages, total, next_page_offset }
    }
}

} // verus!
