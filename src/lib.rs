//! Page-state decisions of a product-page scraper: price normalisation,
//! bounded element polling, variant discovery with deduplication, record
//! assembly and work-list scheduling. The browser, the clock and the disk
//! stay outside; every function here takes what they produced as plain values.

pub mod text;
pub mod price;
pub mod variants;
pub mod waiter;
pub mod record;
pub mod dispatch;
pub mod extract;
