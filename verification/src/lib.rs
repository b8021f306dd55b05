//! Deterministic, wall-clock-free time simulation.

pub mod client;
pub mod clock;
pub mod command;
pub mod demo;
pub mod dispatcher;
pub mod forward;
pub mod frame;
pub mod json;
pub mod pipe;
pub mod remote;
pub mod repl;
pub mod scheduler;
pub mod session;
pub mod sink;
pub mod text;
pub mod windows_pipe;

pub use client::{ClientError, ClientTransport, SimulationClient};
pub use clock::SimClock;
pub use command::CommandPayload;
pub use dispatcher::{CommandSink, Dispatcher};
pub use pipe::{parse_pipe_line, read_pipe_commands, PipeCommand, PipeParseError};
pub use scheduler::{CommandScheduler, ScheduledCommand};
