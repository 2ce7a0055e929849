//! A gateway core that lets clients without a persistent store connection run
//! commands and follow publish/subscribe traffic: command rewriting, reply
//! conversion to JSON, batch execution decisions and the streaming session.
pub mod normalize;
pub mod text;
pub mod encoding;
pub mod trusted;
pub mod codec;
pub mod engine;
pub mod pubsub;
pub mod session;
pub mod gateway;
