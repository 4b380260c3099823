//! Export of the message history of a workspace, channel by channel.
//!
//! The library decides; its caller does the input and output. An export is
//! a state machine ([`orchestrator::Run`]) that hands out one
//! [`protocol::Action`] at a time (send this request, create this archive,
//! append this text, release the archive) and takes back the
//! [`protocol::Event`] that says how it went. The channels are listed first
//! ([`enumerator::Enumeration`]), then each channel is exported with a
//! session of its own ([`paginator::ChannelExport`]), page after page, each
//! page asked for with the cursor that the page before it gave.
//!
//! Response bodies are read as JSON by `serde_json` and held to the shape of
//! their endpoint in [`decode`]. What an archive is called and what it holds
//! is said in [`archive`].

pub mod archive;
pub mod decode;
pub mod enumerator;
pub mod json;
pub mod model;
pub mod orchestrator;
pub mod paginator;
pub mod protocol;
pub mod request;
pub mod timestamp;
