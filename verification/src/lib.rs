//! Core rules of the rusthub web application: text normalisation, slugs,
//! query filters, pagination, topic bookkeeping and page helpers.

pub mod text;
pub mod num;
pub mod slug;
pub mod time;
pub mod filter;
pub mod ids;
pub mod model;
pub mod topics;
pub mod creations;
pub mod pagination;
pub mod web;
pub mod lang;
pub mod queries;
pub mod flows;
