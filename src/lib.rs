//! Discovery, selection and bookkeeping logic for fetching episodic video
//! streams: name sanitisation, marker detection, adaptive-bitrate variant
//! selection, pagination crawling, embed resolution and run aggregation.
use vstd::prelude::*;

pub mod crawl;
pub mod embed;
pub mod manifest;
pub mod pipeline;
pub mod playlist;
pub mod text;

verus! {

} // verus!
