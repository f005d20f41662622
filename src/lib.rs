//! Turns links to social-media posts into chat messages.
//!
//! A URL is handed to the first registered scraper that handles its site
//! ([`embed_bot`]); the scraper reads the fetched document into a [`scraper::Post`]
//! ([`scraper::reddit`], [`scraper::ninegag`], [`scraper::twitter`],
//! [`scraper::imgur`]); the renderer turns the post into a response under the
//! content policies, escaping and limiting text on the way ([`embed`], [`text`]).
//! Documents are read through [`json`], [`html`] and [`web_url`].
pub mod config;
pub mod embed;
pub mod embed_bot;
pub mod html;
pub mod json;
pub mod scraper;
pub mod settings;
pub mod text;
pub mod web_url;
