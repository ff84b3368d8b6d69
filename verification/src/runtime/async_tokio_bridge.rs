//! The configuration of the Tokio runtime that runs Script's async code,
//! and the task limit its bridge keeps.
use vstd::prelude::*;
use crate::error::{Error, ErrorKind};
use crate::runtime::async_runtime::limit_message;
use crate::text::{append_text, copy_text, usize_to_text};

verus! {

/// The number of logical CPUs from `num_cpus::get`, which is never below 1.
#[verifier::external_body]
fn cpu_count() -> (n: usize)
    ensures
        n >= 1,
{
    num_cpus::get()
}

/// Tokio runtime configuration for Script
#[derive(Debug, Clone)]
pub struct TokioConfig {
    /// Number of worker threads (default: number of CPU cores)
    pub worker_threads: usize,
    /// Stack size for worker threads (default: 2MB)
    pub thread_stack_size: usize,
    /// Enable I/O driver (default: true)
    pub enable_io: bool,
    /// Enable time driver (default: true)
    pub enable_time: bool,
    /// Thread name prefix (default: "script-worker")
    pub thread_name_prefix: String,
    /// Maximum blocking threads (default: 512)
    pub max_blocking_threads: usize,
}

impl Default for TokioConfig {
    /// One worker per logical CPU, 2 MiB stacks, I/O and time drivers on,
    /// threads named `script-worker`, at most 512 blocking threads.
    fn default() -> (c: Self)
        ensures
            c.worker_threads >= 1,
            c.thread_stack_size == 2097152,
            c.enable_io,
            c.enable_time,
            c.thread_name_prefix@ == "script-worker"@,
            c.max_blocking_threads == 512,
    {
        TokioConfig {
            worker_threads: cpu_count(),
            thread_stack_size: 2097152,
            enable_io: true,
            enable_time: true,
            thread_name_prefix: copy_text("script-worker"),
            max_blocking_threads: 512,
        }
    }
}

/// Checks that one more task may start while `current` tasks are active
/// under a limit of `max`: refused at the limit
pub fn check_task_limit(current: usize, max: usize) -> (r: Result<(), Error>)
    ensures
        current >= max ==> (r matches Err(e) && e.kind == ErrorKind::SecurityError && e.message@ == limit_message(
            "Maximum concurrent tasks exceeded: "@,
            current as nat,
            max as nat,
            ""@,
        )),
        current < max ==> r is Ok,
{
    if current >= max {
        let a = usize_to_text(current);
        let b = usize_to_text(max);
        let mut m = copy_text("Maximum concurrent tasks exceeded: ");
        append_text(&mut m, a.as_str());
        append_text(&mut m, "/");
        append_text(&mut m, b.as_str());
        proof {
            reveal_strlit("");
            reveal_strlit("/");
        }
        assert(m@ =~= limit_message("Maximum concurrent tasks exceeded: "@, current as nat, max as nat, ""@));
        return Err(Error::security_error(m));
    }
    Ok(())
}

} // verus!
