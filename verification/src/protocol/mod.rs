//! What the server and the client say to each other.

pub mod api;
pub mod auth;
pub mod instance;
pub mod session;
pub mod term;
pub mod tls;

pub use api::{Action, ApiError, DirEntry, ErrorCode, Response};
pub use auth::{AuthFailure, Reply, ReplayGuard, Request};
pub use instance::{
    ConsoleLine, Env, GroupStats, InstanceConfig, InstanceStatResponse, InstanceStatus, RepoState,
    RetryPolicy, RunState, Source, Stream,
};
pub use session::{Session, SessionStart};
