//! The logic of the MarketState Codex connector: a small service on the loopback
//! address that lets one MarketState user reach the Codex command of the machine
//! it runs on.
//!
//! The library decides; it touches neither the network nor the file system. It
//! takes what was read, and says what to send, write or run. Text is modelled
//! by its sequence of characters, bytes by their sequence, JSON by
//! [`json::JsonTree`].
//!
//! * [`text`], [`text_map`], [`json`], [`codec`], [`ids`]: texts, maps by name,
//!   JSON values and their documents, fresh identifiers.
//! * [`request`], [`response`]: HTTP as it comes and goes in bytes.
//! * [`access`], [`account`], [`owner`]: who is listened to, who asks, and who
//!   owns the installation.
//! * [`server`]: what is done for a request.
//! * [`chat`], [`run`], [`registry`]: a request to Codex, the course of its run,
//!   and the requests that run at one time.
//! * [`codex`], [`paths`]: the Codex command and the places it may stand at.
//! * [`bridge`], [`preferences`], [`autostart`], [`status`]: the service, the
//!   wishes of the user, and what the user is shown.

pub mod access;
pub mod account;
pub mod autostart;
pub mod bridge;
pub mod chat;
pub mod codec;
pub mod codex;
pub mod ids;
pub mod json;
pub mod owner;
pub mod paths;
pub mod preferences;
pub mod registry;
pub mod request;
pub mod response;
pub mod run;
pub mod server;
pub mod status;
pub mod text;
pub mod text_map;
