//! The pipeline driver, as an explicit state machine.
//!
//! One property is fully resolved before the next begins: fetch, classify,
//! extract, persist, pace. The driver here is the pure decision core: it
//! consumes the transport outcome of the current fetch and says what to do
//! next — retry after a fixed wait, persist a record and how long to
//! suspend, save a diagnostic and stop, or stop on a failed fetch. The
//! caller performs the fetching, writing and sleeping, and feeds every
//! outcome back in.

use vstd::prelude::*;

use crate::diagnose::UnknownReason;
use crate::diagnose::diagnose_spec;
use crate::diagnose::get_unknown_reason;
use crate::pacing::PacingConfig;
use crate::pacing::default_pacing;
use crate::pacing::next_delay;
use crate::price::get_price;
use crate::price::price_of;
use crate::record::QueryRecord;
use crate::record::RecordRep;
use crate::record::ResultRecord;
use crate::status::MarkerTable;
use crate::status::Status;
use crate::status::classify;
use crate::status::classify_spec;
use crate::status::default_table;
use crate::status::default_table_rep;

verus! {

/// How long to wait before the single retry after a timeout, in seconds.
pub const RETRY_WAIT_SECS: u64 = 305;

/// Transport-level outcome of one page fetch: a completed response with
/// its decoded body (whatever the HTTP status code), a timeout, or any
/// other transport failure with its description.
#[derive(Clone, Debug, PartialEq, Eq)]
pub enum FetchOutcome {
    Success(Vec<u8>),
    Timeout,
    Error(Vec<u8>),
}

/// Why a run stops before exhausting its input.
#[derive(Clone, Copy, Debug, PartialEq, Eq, Structural)]
pub enum AbortReason {
    FetchFailure,
    UnknownPage(UnknownReason),
}

/// Where the run stands.
#[derive(Clone, Copy, Debug, PartialEq, Eq, Structural)]
pub enum RunPhase {
    Running,
    Done,
    Aborted(AbortReason),
}

/// What the caller must do after one fetch outcome is consumed.
#[derive(Clone, Debug, PartialEq, Eq)]
pub enum DriverAction {
    /// Suspend for the given seconds, then fetch the same property again.
    WaitAndRetry { wait_secs: u64 },
    /// Append the record to the output store, then suspend for the given
    /// seconds when there is one; none after the final record.
    Persist { record: ResultRecord, delay_secs: Option<u64> },
    /// Write the body to the numbered diagnostic file; the run is aborted.
    SaveDiagnostic { file_num: u32, reason: UnknownReason, body: Vec<u8> },
    /// The fetch failed for good; the run is aborted.
    AbortFetch,
}

/// The driver's state across one run: how far the input has been
/// consumed, whether the current property already got its retry, how many
/// diagnostic files were written, and the loaded configuration.
pub struct DriverState {
    /// Number of input records in the run.
    pub total: usize,
    /// One-based index of the property currently being resolved.
    pub next_index: usize,
    /// The current property's fetch already timed out once.
    pub awaiting_retry: bool,
    /// Diagnostic files written so far.
    pub diag_files: u32,
    /// Where the run stands.
    pub phase: RunPhase,
    /// The marker table in force.
    pub table: MarkerTable,
    /// The pacing configuration in force.
    pub pacing: PacingConfig,
}

impl DriverState {
    /// The state is consistent: the cursor is inside the input, the
    /// diagnostic counter can still grow, and the pacing window is real.
    pub open spec fn wf(&self) -> bool {
        &&& 1 <= self.next_index <= self.total
        &&& self.diag_files < u32::MAX
        &&& self.pacing.wf()
    }

    /// Fresh state for a run over `total` input records, with the current
    /// schema and the observed pacing settings loaded.
    pub fn new_run(total: usize) -> (st: DriverState)
        requires
            total >= 1,
        ensures
            st.wf(),
            st.total == total,
            st.next_index == 1,
            !st.awaiting_retry,
            st.diag_files == 0,
            st.phase == RunPhase::Running,
            st.table.rep() == default_table_rep(),
            st.pacing == (PacingConfig {
                min_secs: 125,
                max_secs: 184,
                cooldown_every: 9,
                cooldown_secs: 1805,
            }),
    {
        DriverState {
            total,
            next_index: 1,
            awaiting_retry: false,
            diag_files: 0,
            phase: RunPhase::Running,
            table: default_table(),
            pacing: default_pacing(),
        }
    }
}

/// The state with the run aborted on a failed fetch.
pub open spec fn fetch_aborted(st: DriverState) -> DriverState {
    DriverState { phase: RunPhase::Aborted(AbortReason::FetchFailure), ..st }
}

/// The record persisted for a property: the input's name and query, the
/// body's classification, and the extracted price where one is
/// meaningful.
pub open spec fn persisted_record(st: DriverState, rec: QueryRecord, body: Seq<u8>) -> RecordRep {
    RecordRep {
        name: rec.name@,
        status: classify_spec(st.table.rep(), body),
        price: price_of(body, classify_spec(st.table.rep(), body)),
        query: rec.query@,
    }
}

/// The whole transition relation of the driver, one fetch outcome at a
/// time.
///
/// A first timeout earns one delayed retry; a second timeout, or any
/// other transport failure, aborts the run. A completed response is
/// classified: an unknown page is diagnosed, saved under the next file
/// number, and aborts the run; a recognized status yields the record to
/// persist, with a suspension after it — the cooldown on every
/// cooldown index, a draw from the window otherwise, and none at all
/// after the final record.
pub open spec fn step_spec(
    st: DriverState,
    rec: QueryRecord,
    outcome: FetchOutcome,
    post: DriverState,
    action: DriverAction,
) -> bool {
    match outcome {
        FetchOutcome::Timeout => {
            if !st.awaiting_retry {
                &&& post == DriverState { awaiting_retry: true, ..st }
                &&& action == (DriverAction::WaitAndRetry { wait_secs: RETRY_WAIT_SECS })
            } else {
                &&& post == fetch_aborted(st)
                &&& action == DriverAction::AbortFetch
            }
        },
        FetchOutcome::Error(_) => {
            &&& post == fetch_aborted(st)
            &&& action == DriverAction::AbortFetch
        },
        FetchOutcome::Success(body) => {
            let cls = classify_spec(st.table.rep(), body@);
            if cls == Status::Unknown {
                &&& post == DriverState {
                    diag_files: (st.diag_files + 1) as u32,
                    phase: RunPhase::Aborted(AbortReason::UnknownPage(diagnose_spec(body@))),
                    ..st
                }
                &&& (action matches DriverAction::SaveDiagnostic { file_num, reason, body: b }
                    && file_num == st.diag_files + 1 && reason == diagnose_spec(body@) && b@
                    == body@)
            } else {
                &&& (action matches DriverAction::Persist { record, delay_secs } && {
                    &&& record@ == persisted_record(st, rec, body@)
                    &&& (st.next_index == st.total ==> delay_secs is None)
                    &&& (st.next_index < st.total ==> (delay_secs matches Some(d) && {
                        &&& (st.pacing.is_cooldown_index(st.next_index as u64) ==> d
                            == st.pacing.cooldown_secs)
                        &&& (!st.pacing.is_cooldown_index(st.next_index as u64)
                            ==> st.pacing.min_secs <= d <= st.pacing.max_secs)
                    }))
                })
                &&& (st.next_index == st.total ==> post == DriverState {
                    awaiting_retry: false,
                    phase: RunPhase::Done,
                    ..st
                })
                &&& (st.next_index < st.total ==> post == DriverState {
                    awaiting_retry: false,
                    next_index: (st.next_index + 1) as usize,
                    ..st
                })
            }
        },
    }
}

/// Copy a byte string.
fn clone_bytes(v: &Vec<u8>) -> (r: Vec<u8>)
    ensures
        r@ == v@,
{
    let n = v.len();
    let mut r: Vec<u8> = Vec::new();
    let mut j: usize = 0;
    while j < n
        invariant
            0 <= j <= n,
            n == v@.len(),
            r@ =~= v@.subrange(0, j as int),
        decreases n - j,
    {
        r.push(v[j]);
        j += 1;
        assert(r@ =~= v@.subrange(0, j as int));
    }
    proof {
        assert(v@.subrange(0, n as int) =~= v@);
    }
    r
}

/// Consume the transport outcome of the current property's fetch and
/// advance the run.
pub fn on_fetch_outcome(st: DriverState, rec: &QueryRecord, outcome: FetchOutcome) -> (r: (
    DriverState,
    DriverAction,
))
    requires
        st.wf(),
        st.phase == RunPhase::Running,
    ensures
        step_spec(st, *rec, outcome, r.0, r.1),
        r.0.total == st.total,
        r.0.table == st.table,
        r.0.pacing == st.pacing,
        r.0.phase == RunPhase::Running ==> r.0.wf(),
{
    match outcome {
        FetchOutcome::Timeout => {
            if !st.awaiting_retry {
                let post = DriverState { awaiting_retry: true, ..st };
                (post, DriverAction::WaitAndRetry { wait_secs: RETRY_WAIT_SECS })
            } else {
                let post = DriverState { phase: RunPhase::Aborted(AbortReason::FetchFailure), ..st };
                (post, DriverAction::AbortFetch)
            }
        },
        FetchOutcome::Error(_) => {
            let post = DriverState { phase: RunPhase::Aborted(AbortReason::FetchFailure), ..st };
            (post, DriverAction::AbortFetch)
        },
        FetchOutcome::Success(body) => {
            let cls = classify(&st.table, body.as_slice());
            if matches!(cls, Status::Unknown) {
                let reason = get_unknown_reason(body.as_slice());
                let file_num = st.diag_files + 1;
                let post = DriverState {
                    diag_files: file_num,
                    phase: RunPhase::Aborted(AbortReason::UnknownPage(reason)),
                    ..st
                };
                (post, DriverAction::SaveDiagnostic { file_num, reason, body })
            } else {
                let price = get_price(body.as_slice(), cls);
                let record = ResultRecord {
                    name: clone_bytes(&rec.name),
                    status: cls,
                    price,
                    query: clone_bytes(&rec.query),
                };
                if st.next_index == st.total {
                    let post = DriverState {
                        awaiting_retry: false,
                        phase: RunPhase::Done,
                        ..st
                    };
                    (post, DriverAction::Persist { record, delay_secs: None })
                } else {
                    let d = next_delay(&st.pacing, st.next_index as u64);
                    let post = DriverState {
                        awaiting_retry: false,
                        next_index: st.next_index + 1,
                        ..st
                    };
                    (post, DriverAction::Persist { record, delay_secs: Some(d) })
                }
            }
        },
    }
}

} // verus!
