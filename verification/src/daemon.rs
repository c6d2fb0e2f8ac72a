//! The node's manager: the decisions it takes as resources load and syncs end.
pub mod resource_state;

use vstd::prelude::*;

use crate::config::SchedulerConfig;
use crate::db::schedule::{schedule_model, spec_schedule_target, Schedule, ScheduleType};
use crate::db::FullSyncTarget;
use crate::types::Timestamp;

verus! {

/// What the manager is told by the rest of the node.
pub enum Event {
    RemoveMainWindow,
    AddSchedule(Schedule),
}

/// What to do with a schedule that has come due.
pub enum SyncStart {
    /// The client or the store is not there yet: put the schedule back.
    Defer(Schedule),
    /// Run the sync, with the scheduling configuration.
    Run(Schedule, SchedulerConfig),
    /// There is no configuration: drop the schedule.
    Drop,
}

/// Decides what to do with a schedule that has come due, given whether
/// the client and the store are ready and the configuration, if any.
pub fn start_sync(schedule: Schedule, resources_ready: bool, config: Option<SchedulerConfig>) -> (r: SyncStart)
    ensures
        !resources_ready ==> (r matches SyncStart::Defer(s) && s == schedule),
        resources_ready && config is None ==> r is Drop,
        resources_ready && config is Some ==> (r matches SyncStart::Run(s, c) && s == schedule && Some(c) == config),
{
    if !resources_ready {
        return SyncStart::Defer(schedule);
    }
    match config {
        Some(c) => SyncStart::Run(schedule, c),
        None => SyncStart::Drop,
    }
}

/// What comes of a sync: the schedule to add back, and for a full sync
/// that succeeded, the target to record with the time the other node saw.
///
/// A full sync is planned again one interval after `now`; it keeps its last
/// sync time when it failed (`server_timestamp` is `None`) and takes the
/// other node's time when it succeeded. Other syncs are planned again at
/// `now`, from the time 0.
pub fn after_sync(schedule: Schedule, server_timestamp: Option<Timestamp>, now: Timestamp, config: &SchedulerConfig) -> (r: (
    Schedule,
    Option<FullSyncTarget>,
))
    requires
        i64::MIN <= now.0 + config.full_sync_interval.0 <= i64::MAX,
    ensures
        r.0.address@ == schedule.address@,
        r.0.schedule_type == schedule.schedule_type,
        match schedule.schedule_type {
            ScheduleType::FullSync(pub_key) => {
                &&& r.0.when.0 == now.0 + config.full_sync_interval.0
                &&& match server_timestamp {
                    Some(t) => r.0.last_sync == t && r.1 == Some(FullSyncTarget { pub_key, last_sync: t }),
                    None => r.0.last_sync == schedule.last_sync && r.1 is None,
                }
            },
            _ => r.0.when == now && r.0.last_sync == Timestamp(0) && r.1 is None,
        },
{
    match schedule.schedule_type {
        ScheduleType::FullSync(pub_key) => {
            let when = now + config.full_sync_interval;
            match server_timestamp {
                Some(t) => (
                    Schedule { when, address: schedule.address, schedule_type: schedule.schedule_type, last_sync: t },
                    Some(FullSyncTarget::new(pub_key, t)),
                ),
                None => (
                    Schedule {
                        when,
                        address: schedule.address,
                        schedule_type: schedule.schedule_type,
                        last_sync: schedule.last_sync,
                    },
                    None,
                ),
            }
        },
        _ => {
            let when = now + Timestamp::new(0);
            (
                Schedule {
                    when,
                    address: schedule.address,
                    schedule_type: schedule.schedule_type,
                    last_sync: Timestamp::new(0),
                },
                None,
            )
        },
    }
}

} // verus!
