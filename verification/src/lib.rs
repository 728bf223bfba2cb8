//! The command core of an in-memory store that speaks RESP: frames,
//! the keyspace of sets, and the `SADD` command with its validation.

pub mod backend;
pub mod cmd;
pub mod resp;

pub use backend::{Backend, FrameSet};
pub use cmd::sadd::SAdd;
pub use cmd::{Command, CommandError, CommandExecutor};
pub use resp::{BulkString, RespArray, RespFrame};
