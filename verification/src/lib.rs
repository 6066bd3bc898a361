pub mod attributes;
pub mod cssbuild;
pub mod cssc;
pub mod devserver;
pub mod guest;
pub mod host;
pub mod ids;
pub mod lifecycle;
pub mod mirror;
pub mod native;
pub mod owned;
pub mod preflight;
pub mod protocol;
pub mod recording;
pub mod registry;
pub mod session;
pub mod text;
pub mod tree;
pub mod wamr;
