//! A Discord gateway proxy core: one upstream shard session is mirrored into
//! an in-memory guild cache and fanned out to many downstream WebSocket
//! clients, each of which receives a synthetic `READY`, a replay of the cached
//! guilds, and then the live event stream with its own sequence numbers.

pub mod cache;
pub mod deserializer;
pub mod dispatch;
pub mod model;
pub mod serialize;
pub mod session;
pub mod text;
pub mod upgrade;
