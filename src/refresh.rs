use vstd::prelude::*;

verus! {

/// Configuration of the periodic bulk refresh.
#[derive(Debug, Clone, Copy)]
pub struct BulkRefreshConfig {
    /// Whether the refresh job runs at all.
    pub enabled: bool,
    /// Hours between two checks.
    pub check_interval_hours: u64,
}

impl Default for BulkRefreshConfig {
    fn default() -> (r: Self)
        ensures
            r.enabled,
            r.check_interval_hours == 720,
    {
        BulkRefreshConfig { enabled: true, check_interval_hours: 720 }
    }
}

impl BulkRefreshConfig {
    /// Seconds between two checks; `None` where that does not fit a `u64`.
    pub fn interval_secs(&self) -> (r: Option<u64>)
        ensures
            match r {
                Some(s) => s == self.check_interval_hours * 3600,
                None => self.check_interval_hours * 3600 > u64::MAX,
            },
    {
        self.check_interval_hours.checked_mul(3600)
    }
}

/// What a refresh tick learned last.
#[derive(Debug, Clone, Copy, PartialEq, Eq, Structural)]
pub enum RefreshEvent {
    /// The interval elapsed (the tick at start-up is skipped by the caller).
    Tick,
    /// The upstream check answered: `Some(updated)`, or `None` on an error.
    UpstreamChecked(Option<bool>),
    /// The time-based staleness check answered: `Some(stale)`, or `None` on an error.
    StalenessChecked(Option<bool>),
}

/// What a refresh tick does next.
#[derive(Debug, Clone, Copy, PartialEq, Eq, Structural)]
pub enum RefreshAction {
    /// Ask upstream whether its snapshot changed.
    CheckUpstream,
    /// Ask whether the local snapshot is stale by age.
    CheckStaleness,
    /// Run the ingestion pipeline.
    Load,
    /// Do nothing until the next tick.
    Idle,
}

/// A tick asks upstream first and loads only on a newer snapshot; when that check fails
/// it falls back to the age of the last import.
pub open spec fn refresh_next(ev: RefreshEvent) -> RefreshAction {
    match ev {
        RefreshEvent::Tick => RefreshAction::CheckUpstream,
        RefreshEvent::UpstreamChecked(Some(true)) => RefreshAction::Load,
        RefreshEvent::UpstreamChecked(Some(false)) => RefreshAction::Idle,
        RefreshEvent::UpstreamChecked(None) => RefreshAction::CheckStaleness,
        RefreshEvent::StalenessChecked(Some(true)) => RefreshAction::Load,
        RefreshEvent::StalenessChecked(_) => RefreshAction::Idle,
    }
}

/// One decision of the refresh job.
pub fn refresh_step(ev: RefreshEvent) -> (r: RefreshAction)
    ensures
        r == refresh_next(ev),
{
    match ev {
        RefreshEvent::Tick => RefreshAction::CheckUpstream,
        RefreshEvent::UpstreamChecked(Some(true)) => RefreshAction::Load,
        RefreshEvent::UpstreamChecked(Some(false)) => RefreshAction::Idle,
        RefreshEvent::UpstreamChecked(None) => RefreshAction::CheckStaleness,
        RefreshEvent::StalenessChecked(Some(true)) => RefreshAction::Load,
        RefreshEvent::StalenessChecked(_) => RefreshAction::Idle,
    }
}

} // verus!
