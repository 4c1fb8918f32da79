//! Routing, interception and stream-bridging logic for script-composed agents.
//!
//! The library holds the decisions of an agent bridge between a single-threaded
//! scripting host and an asynchronous orchestration core: which branch a
//! conditional agent takes, how a classifier's answer selects a route, how the
//! value a script hook hands back becomes an override, how a custom handler's
//! value becomes the agent's one event, and how a producer forwards a stream to
//! a pull-based consumer.

pub mod callbacks;
pub mod conditional;
pub mod content;
pub mod context;
pub mod custom;
pub mod router;
pub mod router_run;
pub mod stream;
pub mod routing;
pub mod text;
