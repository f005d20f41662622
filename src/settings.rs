//! Process-wide settings: the content policies and which scrapers run.
use crate::scraper::{ninegag, reddit, twitter};
use vstd::prelude::*;

verus! {

/// The policy for one category of sensitive content.
#[derive(Clone, Copy, Debug, PartialEq, Eq)]
pub struct EmbedBehaviour {
    /// Whether such content is embedded when the request does not say.
    pub default: bool,
    /// Whether a request may say otherwise.
    pub allow_override: bool,
}

/// The policies for nsfw content and for spoilers.
#[derive(Clone, Copy, Debug, PartialEq, Eq)]
pub struct EmbedBehaviours {
    pub nsfw: EmbedBehaviour,
    pub spoiler: EmbedBehaviour,
}

/// The scrapers to run, each with its settings; a missing one does not run.
#[derive(Clone, Debug, PartialEq, Eq)]
pub struct Modules {
    pub reddit: Option<reddit::ApiSettings>,
    pub ninegag: Option<ninegag::ApiSettings>,
    pub twitter: Option<twitter::ApiSettings>,
}

/// All settings of the process.
#[derive(Clone, PartialEq, Eq)]
pub struct Settings {
    pub discord_token: String,
    pub embed_behaviours: EmbedBehaviours,
    pub modules: Option<Modules>,
}

} // verus!
