//! Core engine of a per-process resource monitor: a rule set, a
//! sliding-window violation tracker, and a detector facade that turns a
//! stream of process snapshots into misbehavior alerts.

pub mod clock;
pub mod config;
pub mod detector;
pub mod metrics;
pub mod parse;
pub mod partition;
pub mod process;
pub mod render;
pub mod service;
pub mod text;
pub mod tracker;
pub mod ui_state;

pub use detector::MisbehaviorAlert;
pub use detector::MisbehaviorDetector;
pub use detector::MisbehaviorRule;
pub use partition::Disk;
pub use partition::Partition;
pub use partition::PartitionManager;
pub use process::ProcessInfo;
pub use process::ProcessStats;
pub use service::ServiceManager;
pub use service::ServiceState;
pub use service::SystemService;
