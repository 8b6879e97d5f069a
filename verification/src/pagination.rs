//! One page of a listing, and where it stands among the others.

use vstd::prelude::*;
use crate::model::Creation;

verus! {

/// Where a page stands: what is listed, which page it is, the ids of its
/// first and last items, and whether there are pages before and after it.
pub struct PageInfo {
    pub current_stuff: Option<String>,
    pub current_page: Option<u32>,
    pub first_cursor: Option<u128>,
    pub last_cursor: Option<u128>,
    pub has_previous_page: bool,
    pub has_next_page: bool,
}

/// How many pages and items the whole listing has.
pub struct ResCount {
    pub pages_count: Option<u32>,
    pub total_count: Option<u64>,
}

/// A page of creations.
pub struct CreationsResult {
    pub page_info: PageInfo,
    pub res_count: ResCount,
    pub current_items: Vec<Creation>,
}

/// What is listed in creation pages.
pub const CREATIONS_STUFF: &'static str = "creations";

/// The page `current_page` of `pages_count` pages (`total_count` items in
/// all) that holds `creations`.
pub fn creations_result(creations: Vec<Creation>, current_page: u32, pages_count: u32, total_count: u64) -> (r: CreationsResult)
    ensures
        r.page_info.current_stuff matches Some(s) && s@ == CREATIONS_STUFF@,
        r.page_info.current_page == Some(current_page),
        r.page_info.first_cursor == if creations@.len() > 0 {
            Some(creations@[0]._id)
        } else {
            None::<u128>
        },
        r.page_info.last_cursor == if creations@.len() > 0 {
            Some(creations@.last()._id)
        } else {
            None::<u128>
        },
        r.page_info.has_previous_page == (current_page > 1),
        r.page_info.has_next_page == (current_page < pages_count),
        r.res_count.pages_count == Some(pages_count),
        r.res_count.total_count == Some(total_count),
        r.current_items@ == creations@,
{
    let n = creations.len();
    let first_cursor = if n > 0 {
        Some(creations[0]._id)
    } else {
        None
    };
    let last_cursor = if n > 0 {
        Some(creations[n - 1]._id)
    } else {
        None
    };
    CreationsResult {
        page_info: PageInfo {
            current_stuff: Some(String::from_str(CREATIONS_STUFF)),
            current_page: Some(current_page),
            first_cursor,
            last_cursor,
            has_previous_page: current_page > 1,
            has_next_page: current_page < pages_count,
        },
        res_count: ResCount { pages_count: Some(pages_count), total_count: Some(total_count) },
        current_items: creations,
    }
}

} // verus!
