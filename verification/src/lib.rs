//! The decisions of a small file-moving service: who may ask, what is checked
//! before anything is touched, in which order the filesystem is asked to act,
//! and what is answered.
//!
//! The crate never touches the filesystem itself. A move is a conversation:
//! the library names the next filesystem action, the caller performs it and
//! reports what happened, and the library decides what follows.
//!
//! - [`model`]: the request, the envelopes, the outcomes of a move.
//! - [`routes`]: the shared secret, and the way of a request up to the move.
//! - [`protocol`]: the actions the library asks for, the events it is told.
//! - [`machine`]: the move as a state machine, model and executable.
//! - [`handler`]: status code and envelope for every outcome.
//! - [`platform`]: the two standard-library calls that are taken on trust.
//! - [`conversation`], [`laws`], [`disk`]: what is proved of every move.

pub mod conversation;
pub mod disk;
pub mod handler;
pub mod laws;
pub mod machine;
pub mod model;
pub mod platform;
pub mod protocol;
pub mod routes;

pub use crate::handler::{handle_rejection, health_checker_handler, respond};
pub use crate::machine::{handle_file_move, MoveMachine, Step};
pub use crate::model::{
    ApiKeyError, FileMoveRequest, GenericResponse, HealthResponse, MoveOutcome, Rejection,
};
pub use crate::protocol::{Action, DirEntry, Event};
pub use crate::routes::{
    expected_api_key, is_default_api_key, key_validation, route_move, DEFAULT_API_KEY,
};
