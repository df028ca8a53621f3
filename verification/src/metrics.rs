//! Counters for system observability.

use vstd::prelude::*;

verus! {

/// Monotonic counters over commands, tool runs and search queries.
pub struct Metrics {
    command_count: u64,
    tool_success_count: u64,
    tool_failure_count: u64,
    search_queries: u64,
    total_search_latency_ms: u64,
    app_startup_time_ms: u64,
}

/// A point-in-time copy of the counters, with the mean search latency.
pub struct MetricsSnapshot {
    pub command_count: u64,
    pub tool_success_count: u64,
    pub tool_failure_count: u64,
    pub search_queries: u64,
    pub average_search_latency_ms: u64,
    pub app_startup_time_ms: u64,
}

impl Metrics {
    pub closed spec fn spec_commands(&self) -> u64 {
        self.command_count
    }

    pub closed spec fn spec_tool_successes(&self) -> u64 {
        self.tool_success_count
    }

    pub closed spec fn spec_tool_failures(&self) -> u64 {
        self.tool_failure_count
    }

    pub closed spec fn spec_searches(&self) -> u64 {
        self.search_queries
    }

    pub closed spec fn spec_total_latency(&self) -> u64 {
        self.total_search_latency_ms
    }

    pub closed spec fn spec_startup_ms(&self) -> u64 {
        self.app_startup_time_ms
    }

    pub fn new() -> (r: Metrics)
        ensures
            r.spec_commands() == 0,
            r.spec_tool_successes() == 0,
            r.spec_tool_failures() == 0,
            r.spec_searches() == 0,
            r.spec_total_latency() == 0,
            r.spec_startup_ms() == 0,
    {
        Metrics {
            command_count: 0,
            tool_success_count: 0,
            tool_failure_count: 0,
            search_queries: 0,
            total_search_latency_ms: 0,
            app_startup_time_ms: 0,
        }
    }

    /// Counts one executed command; the counter wraps on overflow.
    pub fn record_command(&mut self)
        ensures
            final(self).spec_commands() == if old(self).spec_commands() == u64::MAX {
                0u64
            } else {
                (old(self).spec_commands() + 1) as u64
            },
            final(self).spec_tool_successes() == old(self).spec_tool_successes(),
            final(self).spec_tool_failures() == old(self).spec_tool_failures(),
            final(self).spec_searches() == old(self).spec_searches(),
            final(self).spec_total_latency() == old(self).spec_total_latency(),
            final(self).spec_startup_ms() == old(self).spec_startup_ms(),
    {
        self.command_count = self.command_count.wrapping_add(1);
    }

    /// Counts one successful tool run.
    pub fn record_tool_success(&mut self)
        ensures
            final(self).spec_tool_successes() == if old(self).spec_tool_successes() == u64::MAX {
                0u64
            } else {
                (old(self).spec_tool_successes() + 1) as u64
            },
            final(self).spec_commands() == old(self).spec_commands(),
            final(self).spec_tool_failures() == old(self).spec_tool_failures(),
            final(self).spec_searches() == old(self).spec_searches(),
            final(self).spec_total_latency() == old(self).spec_total_latency(),
            final(self).spec_startup_ms() == old(self).spec_startup_ms(),
    {
        self.tool_success_count = self.tool_success_count.wrapping_add(1);
    }

    /// Counts one failed tool run.
    pub fn record_tool_failure(&mut self)
        ensures
            final(self).spec_tool_failures() == if old(self).spec_tool_failures() == u64::MAX {
                0u64
            } else {
                (old(self).spec_tool_failures() + 1) as u64
            },
            final(self).spec_commands() == old(self).spec_commands(),
            final(self).spec_tool_successes() == old(self).spec_tool_successes(),
            final(self).spec_searches() == old(self).spec_searches(),
            final(self).spec_total_latency() == old(self).spec_total_latency(),
            final(self).spec_startup_ms() == old(self).spec_startup_ms(),
    {
        self.tool_failure_count = self.tool_failure_count.wrapping_add(1);
    }

    /// Counts one search query and adds its latency to the running total.
    pub fn record_search(&mut self, latency_ms: u64)
        ensures
            final(self).spec_searches() == if old(self).spec_searches() == u64::MAX {
                0u64
            } else {
                (old(self).spec_searches() + 1) as u64
            },
            final(self).spec_total_latency() == if old(self).spec_total_latency() + latency_ms
                > u64::MAX {
                (old(self).spec_total_latency() + latency_ms - 0x1_0000_0000_0000_0000) as u64
            } else {
                (old(self).spec_total_latency() + latency_ms) as u64
            },
            final(self).spec_commands() == old(self).spec_commands(),
            final(self).spec_tool_successes() == old(self).spec_tool_successes(),
            final(self).spec_tool_failures() == old(self).spec_tool_failures(),
            final(self).spec_startup_ms() == old(self).spec_startup_ms(),
    {
        self.search_queries = self.search_queries.wrapping_add(1);
        self.total_search_latency_ms = self.total_search_latency_ms.wrapping_add(latency_ms);
    }

    /// Stores the startup time.
    pub fn record_startup_time(&mut self, startup_ms: u64)
        ensures
            final(self).spec_startup_ms() == startup_ms,
            final(self).spec_commands() == old(self).spec_commands(),
            final(self).spec_tool_successes() == old(self).spec_tool_successes(),
            final(self).spec_tool_failures() == old(self).spec_tool_failures(),
            final(self).spec_searches() == old(self).spec_searches(),
            final(self).spec_total_latency() == old(self).spec_total_latency(),
    {
        self.app_startup_time_ms = startup_ms;
    }

    /// Copies the counters; the mean latency is the integer quotient of
    /// total latency by query count, and zero before any query.
    pub fn snapshot(&self) -> (r: MetricsSnapshot)
        ensures
            r.command_count == self.spec_commands(),
            r.tool_success_count == self.spec_tool_successes(),
            r.tool_failure_count == self.spec_tool_failures(),
            r.search_queries == self.spec_searches(),
            r.average_search_latency_ms == if self.spec_searches() > 0 {
                self.spec_total_latency() as int / self.spec_searches() as int
            } else {
                0int
            },
            r.app_startup_time_ms == self.spec_startup_ms(),
    {
        let average_search_latency_ms = if self.search_queries > 0 {
            self.total_search_latency_ms / self.search_queries
        } else {
            0
        };
        MetricsSnapshot {
            command_count: self.command_count,
            tool_success_count: self.tool_success_count,
            tool_failure_count: self.tool_failure_count,
            search_queries: self.search_queries,
            average_search_latency_ms,
            app_startup_time_ms: self.app_startup_time_ms,
        }
    }

    /// Returns every counter to zero.
    pub fn reset(&mut self)
        ensures
            final(self).spec_commands() == 0,
            final(self).spec_tool_successes() == 0,
            final(self).spec_tool_failures() == 0,
            final(self).spec_searches() == 0,
            final(self).spec_total_latency() == 0,
            final(self).spec_startup_ms() == 0,
    {
        self.command_count = 0;
        self.tool_success_count = 0;
        self.tool_failure_count = 0;
        self.search_queries = 0;
        self.total_search_latency_ms = 0;
        self.app_startup_time_ms = 0;
    }
}

} // verus!
