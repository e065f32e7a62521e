//! Execution core of a build orchestrator for modular C++ projects: the
//! command-line records of a run, the classification of process outcomes,
//! the resolution of the compiler driver and the ordered build pipeline.
pub mod command_line;
pub mod driver;
pub mod pipeline;
pub mod result;
