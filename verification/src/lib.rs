//! Dense matrix multiplication split into independent per-cell work items,
//! together with the small counter tables used alongside it.

pub mod channel;
pub mod dispatch;
pub mod element;
pub mod error;
pub mod matrix;
pub mod message;
pub mod metrics;
pub mod text;
pub mod vector;

pub use dispatch::{dispatch, worker_for, NUM_THREADS};
pub use element::Element;
pub use error::{MatrixError, MetricsError};
pub use matrix::{multiply, work_item, Matrix};
pub use metrics::amap::AmapMetrics;
pub use metrics::Metrics;
pub use message::{
    compute, serve, worker_step, Msg, MsgInput, MsgOutput, QueueEvent, Reply, WorkerState,
};
pub use vector::{dot_product, Vector};
