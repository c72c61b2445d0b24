//! Startup configuration handed in by the embedding process.

use vstd::prelude::*;

verus! {

/// What configuration supplies at startup: the broker address, the topic
/// prefix for every published reading, and the configured filesystem paths
/// of each sensor kind.
#[derive(Clone, Debug)]
pub struct Vars {
    pub broker_url: String,
    pub base_topic: String,
    pub sensors_temp: Vec<String>,
    pub sensors_net: Vec<String>,
}

} // verus!
