use vstd::prelude::*;

verus! {

/// Where the synchroniser looks for its own configuration when no path is given.
pub const DEFAULT_CONFIG_PATH: &'static str = "/etc/pihole-sync/config.yaml";

/// The Pi-hole configuration file that the file-watch trigger observes by default.
pub const DEFAULT_PIHOLE_CONFIG_PATH: &'static str = "/etc/pihole/pihole.toml";

/// Where the systemd unit is installed by default.
pub const DEFAULT_SYSTEMD_PATH: &'static str = "/etc/systemd/system/pihole-sync.service";

/// Minutes between two cycles when the configuration names no interval.
pub const DEFAULT_SYNC_INTERVAL_MINUTES: u64 = 60;

/// Seconds allowed for the instances to answer after a trigger, where the
/// configuration names none.
pub const TRIGGER_API_READINESS_TIMEOUT_SECS: u64 = 60;

/// Minutes in seconds, for turning configured intervals into durations.
pub open spec fn minutes_as_seconds(minutes: int) -> int {
    minutes * 60
}

/// Converts a configured number of minutes to seconds, saturating at the
/// largest representable value.
pub fn minutes_to_seconds(minutes: u64) -> (seconds: u64)
    ensures
        seconds as int == if minutes_as_seconds(minutes as int) <= u64::MAX as int {
            minutes_as_seconds(minutes as int)
        } else {
            u64::MAX as int
        },
{
    if minutes <= u64::MAX / 60 {
        minutes * 60
    } else {
        u64::MAX
    }
}

} // verus!
