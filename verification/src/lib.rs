//! The verified core of `lsh`, a small interactive command interpreter:
//! the environment store, the builtin operations and their registry,
//! whitespace tokenization, `$`-variable expansion, command routing, and
//! the text each operation writes. Reading lines, touching the real
//! working directory and spawning child processes stay with the driver.

pub mod builtins;
pub mod command;
pub mod dispatch;
pub mod environment;
pub mod external;
pub mod sink;
pub mod text;
pub mod welcome;
