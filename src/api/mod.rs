//! What the HTTP handlers exchange with clients: the response envelope, the
//! pagination of list requests, and the login request and answer.
use vstd::prelude::*;
use vstd::string::StringExecFns;

pub mod auth;

verus! {

/// The envelope of every successful answer: code 0, message `success`, and the data.
pub struct ApiResponse<T> {
    pub code: u32,
    pub message: String,
    pub data: Option<T>,
}

impl<T> Default for ApiResponse<T> {
    fn default() -> (r: ApiResponse<T>)
        ensures
            r.code == 0,
            r.message@ == "success"@,
            r.data is None,
    {
        ApiResponse { code: 0, message: String::from_str("success"), data: None }
    }
}

impl<T> ApiResponse<T> {
    /// The successful answer that carries `data`.
    pub fn new(data: T) -> (r: ApiResponse<T>)
        ensures
            r.code == 0,
            r.message@ == "success"@,
            r.data == Some(data),
    {
        ApiResponse { code: 0, message: String::from_str("success"), data: Some(data) }
    }
}

/// The page that a list request asks for; both parts may be left out.
#[derive(Debug)]
pub struct Pagination {
    pub page: Option<i32>,
    pub page_size: Option<i32>,
}

/// One page of a list, with the total number of records.
#[derive(Debug)]
pub struct PaginationResponse<T> {
    pub page: i32,
    pub page_size: i32,
    pub total: i32,
    pub list: Vec<T>,
}

impl Pagination {
    /// The zero-based page index: the requested page (1 when absent) less one,
    /// and never below zero.
    pub open spec fn index_spec(&self) -> int {
        let p = match self.page {
            Some(p) => p as int,
            None => 1,
        };
        if p <= 1 {
            0
        } else {
            p - 1
        }
    }

    /// The page size: the requested one (10 when absent), and at least one.
    pub open spec fn limit_spec(&self) -> int {
        let s = match self.page_size {
            Some(s) => s as int,
            None => 10,
        };
        if s < 1 {
            1
        } else {
            s
        }
    }

    /// The zero-based index of the page to return.
    pub fn index(&self) -> (r: i32)
        ensures
            r == self.index_spec(),
    {
        let p = match self.page {
            Some(p) => p,
            None => 1,
        };
        if p <= 1 {
            0
        } else {
            p - 1
        }
    }

    /// How many records a page holds.
    pub fn limit(&self) -> (r: i32)
        ensures
            r == self.limit_spec(),
    {
        let s = match self.page_size {
            Some(s) => s,
            None => 10,
        };
        if s < 1 {
            1
        } else {
            s
        }
    }

    /// How many records come before the page.
    pub fn offset(&self) -> (r: i64)
        ensures
            r == self.index_spec() * self.limit_spec(),
    {
        let i = self.index() as i64;
        let l = self.limit() as i64;
        assert(0 <= i < 2147483648 && 0 < l < 2147483648);
        assert(i * l <= 2147483647 * 2147483647) by (nonlinear_arith)
            requires
                0 <= i < 2147483648 && 0 < l < 2147483648,
        ;
        i * l
    }

    /// The answer for this request: the page in one-based numbering, its size,
    /// the total (as the store counted it, cut to 32 bits) and the records.
    pub fn respond<T>(&self, total: i64, list: Vec<T>) -> (r: PaginationResponse<T>)
        ensures
            r.page == self.index_spec() + 1,
            r.page_size == self.limit_spec(),
            r.total == total as i32,
            r.list == list,
    {
        PaginationResponse { page: self.index() + 1, page_size: self.limit(), total: total as i32, list }
    }
}

/// Whether a name that a record `id` wants is held by another record: the
/// lookup by that name found `existing`.
pub fn taken_by_other(existing: Option<i32>, id: i32) -> (r: bool)
    ensures
        r == (existing is Some && existing->0 != id),
{
    match existing {
        Some(other) => other != id,
        None => false,
    }
}

} // verus!
