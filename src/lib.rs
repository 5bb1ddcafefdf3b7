//! Runs a command in an environment prepared from dotenv files.
//!
//! The library holds the logic: the dotenv format, the environment as a value,
//! the choice of how a command is launched, and how an outcome becomes the
//! process's exit status. Reading files and spawning processes is left to the
//! caller.
pub mod command;
pub mod dotenv;
pub mod environment;
pub mod run;
pub mod text;
