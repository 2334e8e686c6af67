//! Aggregation of a transit network's static topology with its real-time feeds
//! into one queryable snapshot, with the staleness policy that decides what to
//! refresh and when.
pub mod cache;
pub mod clock;
pub mod colors;
pub mod display;
pub mod feeds;
pub mod ids;
pub mod model;
pub mod queries;
pub mod routes;
pub mod schedule;
pub mod snapshot;
pub mod text;
