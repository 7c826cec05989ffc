//! Page cursors: which page to ask for next, worked out from the page
//! metadata that the server reports.
use vstd::prelude::*;

use crate::encoding::{decimal, decimal_string};
use crate::url::pairs_view;

verus! {

/// Pagination metadata reported by the server.
#[derive(Clone, Copy, Debug, PartialEq, Eq, Structural)]
pub struct PaginationInfo {
    pub page: u32,
    pub pages: u32,
    pub per_page: u32,
    pub items: u32,
}

/// Which page to request, and its size.
#[derive(Clone, Copy, Debug, PartialEq, Eq, Structural)]
pub struct PaginationParams {
    pub page: u32,
    pub per_page: u32,
}

impl Default for PaginationParams {
    /// The first page, fifty items per page.
    fn default() -> (r: Self)
        ensures
            r.page == 1,
            r.per_page == 50,
    {
        PaginationParams { page: 1, per_page: 50 }
    }
}

/// The query pairs of a page request.
pub open spec fn page_pairs(page: u32, per_page: u32) -> Seq<(Seq<char>, Seq<char>)> {
    seq![("page"@, decimal(page as nat)), ("per_page"@, decimal(per_page as nat))]
}

impl PaginationParams {
    pub fn new(page: u32, per_page: u32) -> (r: Self)
        ensures
            r.page == page,
            r.per_page == per_page,
    {
        PaginationParams { page, per_page }
    }

    /// `page` and `per_page` as query pairs, in that order.
    pub fn as_query_pairs(&self) -> (r: Vec<(&'static str, String)>)
        ensures
            pairs_view(r@) == page_pairs(self.page, self.per_page),
    {
        let r = vec![("page", decimal_string(self.page as u64)), ("per_page", decimal_string(self.per_page as u64))];
        assert(pairs_view(r@) =~= page_pairs(self.page, self.per_page));
        r
    }
}

/// The page after `page`, when `page` is not the last of `pages`.
pub open spec fn next_page(page: u32, pages: u32) -> Option<u32> {
    if page < pages {
        Some((page + 1) as u32)
    } else {
        None
    }
}

/// One page of items with the server's pagination metadata.
#[derive(Debug)]
pub struct Paginated<T> {
    pub items: Vec<T>,
    pub pagination: PaginationInfo,
}

impl<T> Paginated<T> {
    pub fn new(items: Vec<T>, pagination: PaginationInfo) -> (r: Self)
        ensures
            r.items@ == items@,
            r.pagination == pagination,
    {
        Paginated { items, pagination }
    }

    /// Whether a page follows this one.
    pub fn has_next(&self) -> (r: bool)
        ensures
            r == (self.pagination.page < self.pagination.pages),
    {
        self.pagination.page < self.pagination.pages
    }

    /// The parameters of the next page, of the same size, if there is one.
    pub fn next_page_params(&self) -> (r: Option<PaginationParams>)
        ensures
            match next_page(self.pagination.page, self.pagination.pages) {
                Some(p) => r == Some(PaginationParams { page: p, per_page: self.pagination.per_page }),
                None => r is None,
            },
    {
        if self.pagination.page < self.pagination.pages {
            Some(PaginationParams { page: self.pagination.page + 1, per_page: self.pagination.per_page })
        } else {
            None
        }
    }

    /// The number of items over all pages, as the server reported it.
    pub fn total_items(&self) -> (r: u32)
        ensures
            r == self.pagination.items,
    {
        self.pagination.items
    }
}

/// The list of a paginated response, under whichever name the endpoint uses.
#[derive(Debug)]
pub enum PaginatedData<T> {
    Releases { releases: Vec<T> },
    Versions { versions: Vec<T> },
    Results { results: Vec<T> },
}

impl<T> PaginatedData<T> {
    /// The items, whatever the list was called.
    pub fn into_vec(self) -> (r: Vec<T>)
        ensures
            r@ == match self {
                PaginatedData::Releases { releases } => releases@,
                PaginatedData::Versions { versions } => versions@,
                PaginatedData::Results { results } => results@,
            },
    {
        match self {
            PaginatedData::Releases { releases } => releases,
            PaginatedData::Versions { versions } => versions,
            PaginatedData::Results { results } => results,
        }
    }
}

} // verus!
