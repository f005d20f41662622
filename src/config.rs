//! The configuration file's layout.
use crate::settings::{EmbedBehaviours, Modules};
use vstd::prelude::*;

verus! {

/// The configuration: the chat token, the content policies and the scrapers to run.
#[derive(Clone, PartialEq, Eq)]
pub struct Config {
    pub discord_token: String,
    pub embed_behaviour: EmbedBehaviours,
    pub modules: Option<Modules>,
}

} // verus!
