//! Compatibility rewriting for a reverse proxy that sits between a
//! chat-completion client and an inference server, and the helper that
//! writes the server's model list into an editor's settings.
//!
//! The proxy core: [`patch`] corrects JSON documents, [`body`] and
//! [`frame`] apply the corrections to bodies and to the frames of an event
//! stream, [`headers`] and [`forward`] hold the header and forwarding
//! policy, and [`proxy`] is the state machine of one request.
//!
//! The settings helper: [`models`] makes the model list, [`settings`]
//! puts it into the text of a settings file, [`indent`], [`diff`] and
//! [`paths`] serve it.
//!
//! [`json`] is the document tree, [`codec`] reads and writes it through
//! `serde_json` and `json5`, and [`text`] holds helpers on characters.

pub mod body;
pub mod codec;
pub mod diff;
pub mod forward;
pub mod frame;
pub mod headers;
pub mod indent;
pub mod json;
pub mod models;
pub mod patch;
pub mod paths;
pub mod proxy;
pub mod settings;
pub mod text;
