//! Directory synchronisation planning: path identity, sync configuration,
//! the pool of running sync tasks and the decision logic of the watchers.

pub mod path;
pub mod addr;
pub mod config;
pub mod task;
pub mod pool_laws;
pub mod events;
pub mod config_watch;
pub mod task_watch;
pub mod text;
pub mod rsync;
