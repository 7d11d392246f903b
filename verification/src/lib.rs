//! A minimal HTTP request dispatcher.
//!
//! A [`Router`] owns three ordered sequences of stages: pre-middlewares,
//! routes and post-middlewares. Which stage runs next, and on which value,
//! is the router's decision: [`Router::advance`] takes the event that just
//! happened and answers with the next [`Action`]. [`Router::process`] runs
//! a whole request through stages that can be called directly; a caller
//! whose stages suspend runs the same loop itself around `advance`.
pub mod message;
pub mod pipeline;
pub mod router;
pub mod stage;
pub mod run;

pub use message::{not_found, Request, Response};
pub use pipeline::{Action, Event, Failure, Stage};
pub use router::{Router, RouterBuilder};
pub use stage::{PostMiddleware, PreMiddleware, Route};
