//! The shared telemetry snapshot and the updates that the log-ingestion and
//! sampling tasks make to it.
//!
//! The two tasks own disjoint fields: ingestion replaces one category's record
//! whole, a sampling tick writes the CPU, process id and block numbers. A
//! snapshot may therefore pair the CPU of one tick with a record from any later
//! log line; it never holds a record assembled from two lines.
use vstd::prelude::*;
use vstd::string::StringSliceAdditionalSpecFns;
use crate::node::{parse_spec, Decimal, NodeHistoryLog};
use crate::scan::{contains, contains_exec};

verus! {

/// A subnetwork of the worker that reports its own statistics.
#[derive(Clone, Copy, Debug, PartialEq, Eq, Structural)]
pub enum Category {
    History,
    State,
    Beacon,
}

/// The text that marks a category's report line.
pub open spec fn marker_bytes(c: Category) -> Seq<u8> {
    match c {
        Category::History => seq![116u8, 114u8, 105u8, 110u8, 95u8, 104u8, 105u8, 115u8, 116u8, 111u8, 114u8, 121u8, 58u8, 32u8, 114u8, 101u8, 112u8, 111u8, 114u8, 116u8, 115u8, 126u8, 32u8, 100u8, 97u8, 116u8, 97u8, 58u8],
        Category::State => seq![116u8, 114u8, 105u8, 110u8, 95u8, 115u8, 116u8, 97u8, 116u8, 101u8, 58u8, 32u8, 114u8, 101u8, 112u8, 111u8, 114u8, 116u8, 115u8, 126u8, 32u8, 100u8, 97u8, 116u8, 97u8, 58u8],
        Category::Beacon => seq![116u8, 114u8, 105u8, 110u8, 95u8, 98u8, 101u8, 97u8, 99u8, 111u8, 110u8, 58u8, 32u8, 114u8, 101u8, 112u8, 111u8, 114u8, 116u8, 115u8, 126u8, 32u8, 100u8, 97u8, 116u8, 97u8, 58u8],
    }
}

fn marker(c: Category) -> (r: Vec<u8>)
    ensures
        r@ == marker_bytes(c),
{
    let r = match c {
        Category::History => vec![116u8, 114u8, 105u8, 110u8, 95u8, 104u8, 105u8, 115u8, 116u8, 111u8, 114u8, 121u8, 58u8, 32u8, 114u8, 101u8, 112u8, 111u8, 114u8, 116u8, 115u8, 126u8, 32u8, 100u8, 97u8, 116u8, 97u8, 58u8],
        Category::State => vec![116u8, 114u8, 105u8, 110u8, 95u8, 115u8, 116u8, 97u8, 116u8, 101u8, 58u8, 32u8, 114u8, 101u8, 112u8, 111u8, 114u8, 116u8, 115u8, 126u8, 32u8, 100u8, 97u8, 116u8, 97u8, 58u8],
        Category::Beacon => vec![116u8, 114u8, 105u8, 110u8, 95u8, 98u8, 101u8, 97u8, 99u8, 111u8, 110u8, 58u8, 32u8, 114u8, 101u8, 112u8, 111u8, 114u8, 116u8, 115u8, 126u8, 32u8, 100u8, 97u8, 116u8, 97u8, 58u8],
    };
    assert(r@ =~= marker_bytes(c));
    r
}

/// The category whose marker a line holds, markers tried in the order
/// history, state, beacon.
pub open spec fn classify_spec(s: Seq<u8>) -> Option<Category> {
    if contains(s, marker_bytes(Category::History)) {
        Some(Category::History)
    } else if contains(s, marker_bytes(Category::State)) {
        Some(Category::State)
    } else if contains(s, marker_bytes(Category::Beacon)) {
        Some(Category::Beacon)
    } else {
        None
    }
}

/// The category of a report line, or `None` for any other output.
pub fn classify_line(line: &str) -> (r: Option<Category>)
    ensures
        r == classify_spec(line.spec_bytes()),
{
    let s = line.as_bytes();
    let h = marker(Category::History);
    if contains_exec(s, h.as_slice()) {
        return Some(Category::History);
    }
    let st = marker(Category::State);
    if contains_exec(s, st.as_slice()) {
        return Some(Category::State);
    }
    let b = marker(Category::Beacon);
    if contains_exec(s, b.as_slice()) {
        return Some(Category::Beacon);
    }
    None
}

impl NodeHistoryLog {
    /// The record of a category that has not reported yet: every field zero.
    pub fn empty() -> (r: NodeHistoryLog)
        ensures
            r == NodeHistoryLog::empty_spec(),
    {
        let z = Decimal::from_whole(0);
        NodeHistoryLog {
            radius: z,
            content_current: z,
            content_total: z,
            count: 0,
            disk_usage: z,
            offers_in: 0,
            offers_out: 0,
            accepts_in: 0,
            accepts_out: 0,
            validations_in: 0,
            validations_out: 0,
        }
    }

    pub open spec fn empty_spec() -> NodeHistoryLog {
        let z = Decimal { whole: 0, frac: 0, frac_digits: 0 };
        NodeHistoryLog {
            radius: z,
            content_current: z,
            content_total: z,
            count: 0,
            disk_usage: z,
            offers_in: 0,
            offers_out: 0,
            accepts_in: 0,
            accepts_out: 0,
            validations_in: 0,
            validations_out: 0,
        }
    }
}

/// The telemetry snapshot published to observers.
#[derive(Clone, Copy, Debug, PartialEq, Eq, Structural)]
pub struct NodeStats {
    /// CPU of the worker and its direct children, in hundredths of a percent.
    /// Zero when `cpu_sampled` is false.
    pub cpu: u64,
    /// Whether the last tick found the worker in the process table; `false`
    /// marks a missing worker, which is not the same as an idle one.
    pub cpu_sampled: bool,
    pub pid: u32,
    pub history_data: NodeHistoryLog,
    pub state_data: NodeHistoryLog,
    pub beacon_data: NodeHistoryLog,
    pub latest_finalized_block: u64,
    pub latest_optimistic_block: u64,
}

/// What one sampling tick observed.
#[derive(Clone, Copy, Debug, PartialEq, Eq, Structural)]
pub struct TickReport {
    /// Aggregate CPU, or `None` when the worker was missing from the process table.
    pub cpu: Option<u64>,
    pub pid: u32,
    /// Block number of the latest finality update, when that call succeeded.
    pub finalized_block: Option<u64>,
    /// Block number of the latest optimistic update, when that call succeeded.
    pub optimistic_block: Option<u64>,
    /// Whether the liveness probe answered.
    pub alive: bool,
}

/// What the sampling task does after a tick.
#[derive(Clone, Copy, Debug, PartialEq, Eq, Structural)]
pub enum TickOutcome {
    /// Publish this snapshot and wait for the next tick.
    Publish(NodeStats),
    /// Report the crash and end the task.
    Crashed,
}

impl NodeStats {
    /// The snapshot before any tick or report line.
    pub fn new() -> (r: NodeStats)
        ensures
            r == NodeStats::initial(),
    {
        NodeStats {
            cpu: 0,
            cpu_sampled: false,
            pid: 0,
            history_data: NodeHistoryLog::empty(),
            state_data: NodeHistoryLog::empty(),
            beacon_data: NodeHistoryLog::empty(),
            latest_finalized_block: 0,
            latest_optimistic_block: 0,
        }
    }

    pub open spec fn initial() -> NodeStats {
        NodeStats {
            cpu: 0,
            cpu_sampled: false,
            pid: 0,
            history_data: NodeHistoryLog::empty_spec(),
            state_data: NodeHistoryLog::empty_spec(),
            beacon_data: NodeHistoryLog::empty_spec(),
            latest_finalized_block: 0,
            latest_optimistic_block: 0,
        }
    }

    pub open spec fn record(self, c: Category) -> NodeHistoryLog {
        match c {
            Category::History => self.history_data,
            Category::State => self.state_data,
            Category::Beacon => self.beacon_data,
        }
    }

    pub open spec fn with_record(self, c: Category, rec: NodeHistoryLog) -> NodeStats {
        match c {
            Category::History => NodeStats { history_data: rec, ..self },
            Category::State => NodeStats { state_data: rec, ..self },
            Category::Beacon => NodeStats { beacon_data: rec, ..self },
        }
    }

    /// The snapshot after one line of worker output.
    pub open spec fn ingest_spec(self, s: Seq<u8>) -> NodeStats {
        match classify_spec(s) {
            Some(c) => match parse_spec(s) {
                Some(rec) => self.with_record(c, rec),
                None => self,
            },
            None => self,
        }
    }

    /// The snapshot after a tick whose probe answered: CPU and pid replaced,
    /// the CPU marked as unsampled when the worker was missing from the
    /// process table, each block number replaced when its call succeeded.
    pub open spec fn tick_spec(self, t: TickReport) -> NodeStats {
        NodeStats {
            cpu: match t.cpu {
                Some(c) => c,
                None => 0,
            },
            cpu_sampled: t.cpu is Some,
            pid: t.pid,
            latest_finalized_block: match t.finalized_block {
                Some(b) => b,
                None => self.latest_finalized_block,
            },
            latest_optimistic_block: match t.optimistic_block {
                Some(b) => b,
                None => self.latest_optimistic_block,
            },
            ..self
        }
    }

    /// The record of one category.
    pub fn get_record(&self, c: Category) -> (r: NodeHistoryLog)
        ensures
            r == self.record(c),
    {
        match c {
            Category::History => self.history_data,
            Category::State => self.state_data,
            Category::Beacon => self.beacon_data,
        }
    }

    /// Replaces one category's record whole.
    pub fn set_record(&mut self, c: Category, rec: NodeHistoryLog)
        ensures
            *final(self) == old(self).with_record(c, rec),
    {
        match c {
            Category::History => self.history_data = rec,
            Category::State => self.state_data = rec,
            Category::Beacon => self.beacon_data = rec,
        }
    }

    /// Takes one line of worker output: a report line of a category that
    /// parses replaces that category's record; any other line changes nothing.
    /// Returns the category that was updated.
    pub fn ingest_line(&mut self, line: &str) -> (r: Option<Category>)
        ensures
            *final(self) == old(self).ingest_spec(line.spec_bytes()),
            r == (if parse_spec(line.spec_bytes()) is Some {
                classify_spec(line.spec_bytes())
            } else {
                None
            }),
    {
        match classify_line(line) {
            Some(c) => match NodeHistoryLog::parse_log_line(line) {
                Some(rec) => {
                    self.set_record(c, rec);
                    Some(c)
                },
                None => None,
            },
            None => None,
        }
    }

    /// Applies a sampling tick. When the probe did not answer nothing changes
    /// and the task is to stop; otherwise the snapshot is updated and a copy
    /// of it is handed out for publication.
    pub fn apply_tick(&mut self, t: &TickReport) -> (r: TickOutcome)
        ensures
            !t.alive ==> *final(self) == *old(self) && r == TickOutcome::Crashed,
            t.alive ==> *final(self) == old(self).tick_spec(*t) && r == TickOutcome::Publish(
                *final(self),
            ),
    {
        if !t.alive {
            return TickOutcome::Crashed;
        }
        self.cpu = match t.cpu {
            Some(c) => c,
            None => 0,
        };
        self.cpu_sampled = t.cpu.is_some();
        self.pid = t.pid;
        match t.finalized_block {
            Some(b) => self.latest_finalized_block = b,
            None => {},
        }
        match t.optimistic_block {
            Some(b) => self.latest_optimistic_block = b,
            None => {},
        }
        TickOutcome::Publish(*self)
    }
}

/// A tick that did not find the worker publishes a snapshot marked as
/// unsampled, never one that reads as a measured idle worker.
pub proof fn lemma_missing_worker_is_not_idle(st: NodeStats, t: TickReport, u: TickReport)
    requires
        t.cpu is None,
        u.cpu == Some(0u64),
    ensures
        !st.tick_spec(t).cpu_sampled,
        st.tick_spec(u).cpu_sampled,
        st.tick_spec(t) != st.tick_spec(u),
{
}

/// A line that does not parse leaves the snapshot as it was.
pub proof fn lemma_rejected_line_keeps_state(st: NodeStats, s: Seq<u8>)
    requires
        parse_spec(s) is None,
    ensures
        st.ingest_spec(s) == st,
{
}

/// Of two report lines of one category that both parse, the later one
/// determines that category's record entirely, whatever the earlier held.
pub proof fn lemma_latest_line_wins(st: NodeStats, s1: Seq<u8>, s2: Seq<u8>, c: Category)
    requires
        classify_spec(s2) == Some(c),
        parse_spec(s2) is Some,
    ensures
        st.ingest_spec(s1).ingest_spec(s2).record(c) == parse_spec(s2)->0,
{
}

/// Ingestion and sampling write disjoint fields: in either order they give
/// the same snapshot, each category record is exactly one parse, and the
/// CPU is exactly the tick's.
pub proof fn lemma_updates_commute(st: NodeStats, s: Seq<u8>, t: TickReport)
    ensures
        st.ingest_spec(s).tick_spec(t) == st.tick_spec(t).ingest_spec(s),
        forall|c: Category|
            #![auto]
            st.ingest_spec(s).tick_spec(t).record(c) == st.record(c) || (classify_spec(s)
                == Some(c) && parse_spec(s) == Some(st.ingest_spec(s).tick_spec(t).record(c))),
        st.ingest_spec(s).tick_spec(t).cpu == st.tick_spec(t).cpu,
        st.ingest_spec(s).tick_spec(t).cpu_sampled == (t.cpu is Some),
{
}

} // verus!
