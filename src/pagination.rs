use vstd::prelude::*;

verus! {

/// Page selection of a listing: pages are numbered from 1.
#[derive(Debug, Clone, Copy, PartialEq, Eq)]
pub struct PaginationParams {
    pub page: u64,
    pub page_size: u64,
}

pub const DEFAULT_PAGE: u64 = 1;
pub const DEFAULT_PAGE_SIZE: u64 = 20;
pub const MAX_PAGE_SIZE: u64 = 100;

/// The page asked for when none is given.
pub fn default_page() -> (r: u64)
    ensures
        r == DEFAULT_PAGE,
{
    DEFAULT_PAGE
}

/// The page size asked for when none is given.
pub fn default_page_size() -> (r: u64)
    ensures
        r == DEFAULT_PAGE_SIZE,
{
    DEFAULT_PAGE_SIZE
}

impl PaginationParams {
    /// Number of rows before the page.
    pub fn offset(&self) -> (r: u64)
        requires
            self.page >= 1,
            (self.page - 1) * self.page_size <= u64::MAX,
        ensures
            r == (self.page - 1) * self.page_size,
    {
        (self.page - 1) * self.page_size
    }

    /// Number of rows on the page.
    pub fn limit(&self) -> (r: u64)
        ensures
            r == self.page_size,
    {
        self.page_size
    }

    /// Accepts a page from 1 on and a page size from 1 to 100.
    pub fn validate(&self) -> (r: Result<(), String>)
        ensures
            r is Ok <==> (self.page >= 1 && 1 <= self.page_size <= MAX_PAGE_SIZE),
            self.page < 1 ==> (r matches Err(m) && m@ == "Page must be greater than 0"@),
            self.page >= 1 && !(1 <= self.page_size <= MAX_PAGE_SIZE)
                ==> (r matches Err(m) && m@ == "Page size must be between 1 and 100"@),
    {
        if self.page < 1 {
            return Err("Page must be greater than 0".to_string());
        }
        if self.page_size < 1 || self.page_size > MAX_PAGE_SIZE {
            return Err("Page size must be between 1 and 100".to_string());
        }
        Ok(())
    }
}

impl Default for PaginationParams {
    fn default() -> (r: PaginationParams)
        ensures
            r.page == DEFAULT_PAGE,
            r.page_size == DEFAULT_PAGE_SIZE,
    {
        PaginationParams { page: DEFAULT_PAGE, page_size: DEFAULT_PAGE_SIZE }
    }
}

/// Where a page stands in a listing.
#[derive(Debug, Clone, Copy, PartialEq, Eq)]
pub struct PaginationMeta {
    pub page: u64,
    pub page_size: u64,
    pub total_items: u64,
    pub total_pages: u64,
    pub has_next: bool,
    pub has_prev: bool,
}

/// Number of pages that hold `total` items, `size` to a page.
pub open spec fn pages_for(total: int, size: int) -> int {
    (total + size - 1) / size
}

impl PaginationMeta {
    pub fn new(page: u64, page_size: u64, total_items: u64) -> (r: PaginationMeta)
        requires
            page_size > 0,
        ensures
            r.page == page,
            r.page_size == page_size,
            r.total_items == total_items,
            r.total_pages == pages_for(total_items as int, page_size as int),
            r.has_next == (page < r.total_pages),
            r.has_prev == (page > 1),
    {
        let q = total_items / page_size;
        proof {
            if total_items % page_size != 0 {
                assert(page_size >= 2);
                assert(q * 2 <= total_items) by (nonlinear_arith)
                    requires q == total_items / page_size, page_size >= 2;
            }
        }
        let total_pages = if total_items % page_size == 0 { q } else { q + 1 };
        proof {
            let t = total_items as int;
            let s = page_size as int;
            assert(t == s * (t / s) + t % s) by (nonlinear_arith)
                requires s > 0;
            assert(pages_for(t, s) == if t % s == 0 { t / s } else { t / s + 1 }) by (nonlinear_arith)
                requires s > 0, t == s * (t / s) + t % s, 0 <= t % s < s;
        }
        PaginationMeta {
            page,
            page_size,
            total_items,
            total_pages,
            has_next: page < total_pages,
            has_prev: page > 1,
        }
    }
}

} // verus!
