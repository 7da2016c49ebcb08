//! What holds of the library as a whole.

pub mod behaviour;
pub mod behaviour_steps;
pub mod bistream;
pub mod bistream_steps;
pub mod handler_steps;
pub mod manager;
pub mod manager_steps;
pub mod program;
pub mod reporter;
pub mod shown;
pub mod stream;
pub mod tables;
