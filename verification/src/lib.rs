//! A verified core for a Bluesky client: content moderation decisions,
//! muted-word matching, rich-text facet handling and facet detection.
pub mod agent;
pub mod codegen;
pub mod error;
pub mod feed;
pub mod moderation;
pub mod preference;
pub mod record;
pub mod identity;
pub mod keyed;
pub mod rich_text;
pub mod text;
