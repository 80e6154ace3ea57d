//! Wire types and scheduling logic of the Gubernator cluster manager.
pub mod text;
pub mod memory;
pub mod packages;
pub mod uname;
pub mod os_release;
pub mod machine;
pub mod sel_expr;
pub mod debug_fmt;
pub mod sel_debug;
pub mod util;
pub mod job;
pub mod job_req;
pub mod protocol;
pub mod systemd;
pub mod logging;
pub mod server;
pub mod search_path;
pub mod find_packages;
pub mod retry;
pub mod counting;
