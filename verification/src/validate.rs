//! Configuration validation: the checks that run once at load time and
//! establish every invariant the control core relies on.

use vstd::prelude::*;
use crate::aggregate::agg_wf;
use crate::config::{Aggregation, Config, SessionName, SessionType, SessionTypeCompat,
    Sessions, Step, Zone};
use crate::curve::steps_wf;

verus! {

/// Why a configuration was rejected. Each variant names the first offending
/// zone (and step, where one is singled out), in the order the checks run.
#[derive(Clone, Copy, Debug, PartialEq, Eq, Structural)]
pub enum ValidationError {
    /// The zone list is empty.
    NoZones,
    /// A zone's polling interval is zero.
    ZeroInterval { zone: usize },
    /// A zone controls no hardware zone index.
    NoIpmiZones { zone: usize },
    /// A zone has no temperature source.
    NoSources { zone: usize },
    /// A zone names a session that is not configured.
    UnknownSession { zone: usize },
    /// An averaging policy asks for the top zero readings.
    ZeroTopCount { zone: usize },
    /// Step temperatures are not strictly increasing.
    TempsNotIncreasing { zone: usize },
    /// Step duty cycles decrease.
    DutyCyclesDecreasing { zone: usize },
    /// A step's duty cycle is not a percentage.
    DutyCycleOutOfRange { zone: usize, step: usize },
}

/// Whether some configured session carries this name.
pub open spec fn has_session(sessions: Sessions, name: Seq<char>) -> bool {
    exists|i: int| 0 <= i < sessions.0@.len() && #[trigger] sessions.0@[i].0@ == name
}

/// First violation among adjacent step pairs at or after pair `j`:
/// temperatures must strictly increase, duty cycles must not decrease (the
/// temperature check of a pair runs first, as at load time).
pub open spec fn pair_error_from(steps: Seq<Step>, j: int, zone: usize) -> Option<
    ValidationError,
>
    decreases steps.len() - j,
{
    if j < 0 || j + 1 >= steps.len() {
        None
    } else if steps[j].temp >= steps[j + 1].temp {
        Some(ValidationError::TempsNotIncreasing { zone })
    } else if steps[j].dcycle > steps[j + 1].dcycle {
        Some(ValidationError::DutyCyclesDecreasing { zone })
    } else {
        pair_error_from(steps, j + 1, zone)
    }
}

/// First step at or after `j` whose duty cycle exceeds 100.
pub open spec fn duty_error_from(steps: Seq<Step>, j: int, zone: usize) -> Option<
    ValidationError,
>
    decreases steps.len() - j,
{
    if j < 0 || j >= steps.len() {
        None
    } else if steps[j].dcycle > 100 {
        Some(ValidationError::DutyCycleOutOfRange { zone, step: j as usize })
    } else {
        duty_error_from(steps, j + 1, zone)
    }
}

/// Whether an averaging policy asks for the top zero readings.
pub open spec fn is_zero_top(a: Aggregation) -> bool {
    match a {
        Aggregation::Average { top } => top == Some(0usize),
        Aggregation::Maximum => false,
    }
}

/// The first violation inside one zone, in check order.
pub open spec fn zone_error(z: Zone, sessions: Sessions, zone: usize) -> Option<
    ValidationError,
> {
    if z.interval.0 == 0 {
        Some(ValidationError::ZeroInterval { zone })
    } else if z.ipmi_zones@.len() == 0 {
        Some(ValidationError::NoIpmiZones { zone })
    } else if z.sources@.len() == 0 {
        Some(ValidationError::NoSources { zone })
    } else if !has_session(sessions, z.session.0@) {
        Some(ValidationError::UnknownSession { zone })
    } else if is_zero_top(z.aggregation) {
        Some(ValidationError::ZeroTopCount { zone })
    } else if pair_error_from(z.steps@, 0, zone) is Some {
        pair_error_from(z.steps@, 0, zone)
    } else {
        duty_error_from(z.steps@, 0, zone)
    }
}

/// The first violation among the zones at or after index `i`.
pub open spec fn first_error_from(zones: Seq<Zone>, sessions: Sessions, i: int) -> Option<
    ValidationError,
>
    decreases zones.len() - i,
{
    if i < 0 || i >= zones.len() {
        None
    } else if zone_error(zones[i], sessions, i as usize) is Some {
        zone_error(zones[i], sessions, i as usize)
    } else {
        first_error_from(zones, sessions, i + 1)
    }
}

/// The first violation in the whole configuration.
pub open spec fn first_error(c: Config) -> Option<ValidationError> {
    if c.zones@.len() == 0 {
        Some(ValidationError::NoZones)
    } else {
        first_error_from(c.zones@, c.sessions, 0)
    }
}

/// The invariants one zone must satisfy.
pub open spec fn zone_valid(z: Zone, sessions: Sessions) -> bool {
    &&& z.interval.0 > 0
    &&& z.ipmi_zones@.len() > 0
    &&& z.sources@.len() > 0
    &&& has_session(sessions, z.session.0@)
    &&& agg_wf(z.aggregation)
    &&& steps_wf(z.steps@)
}

/// The invariants the control core relies on: a non-empty zone list whose
/// every zone is valid against the configured sessions.
pub open spec fn config_valid(c: Config) -> bool {
    &&& c.zones@.len() > 0
    &&& forall|i: int| 0 <= i < c.zones@.len() ==> zone_valid(#[trigger] c.zones@[i], c.sessions)
}

proof fn lemma_pair_error_iff(steps: Seq<Step>, j: int, zone: usize)
    requires
        0 <= j,
    ensures
        pair_error_from(steps, j, zone) is None <==> forall|k: int|
            j <= k < steps.len() - 1 ==> (#[trigger] steps[k]).temp < steps[k + 1].temp
                && steps[k].dcycle <= steps[k + 1].dcycle,
    decreases steps.len() - j,
{
    if j + 1 < steps.len() && steps[j].temp < steps[j + 1].temp
        && steps[j].dcycle <= steps[j + 1].dcycle {
        lemma_pair_error_iff(steps, j + 1, zone);
    }
}

proof fn lemma_duty_error_iff(steps: Seq<Step>, j: int, zone: usize)
    requires
        0 <= j,
    ensures
        duty_error_from(steps, j, zone) is None <==> forall|k: int|
            j <= k < steps.len() ==> (#[trigger] steps[k]).dcycle <= 100,
    decreases steps.len() - j,
{
    if j < steps.len() && steps[j].dcycle <= 100 {
        lemma_duty_error_iff(steps, j + 1, zone);
    }
}

proof fn lemma_adjacent_mono(steps: Seq<Step>, a: int, b: int)
    requires
        forall|k: int| 0 <= k < steps.len() - 1 ==> (#[trigger] steps[k]).temp
            < steps[k + 1].temp && steps[k].dcycle <= steps[k + 1].dcycle,
        0 <= a <= b < steps.len(),
    ensures
        a < b ==> steps[a].temp < steps[b].temp,
        steps[a].dcycle <= steps[b].dcycle,
    decreases b - a,
{
    if a < b {
        lemma_adjacent_mono(steps, a, b - 1);
    }
}

/// Adjacent-pair checks and the per-step percentage check together are
/// exactly well-formedness of the whole table.
proof fn lemma_steps_checks_iff_wf(steps: Seq<Step>, zone: usize)
    ensures
        (pair_error_from(steps, 0, zone) is None && duty_error_from(steps, 0, zone) is None)
            <==> steps_wf(steps),
    {
    lemma_pair_error_iff(steps, 0, zone);
    lemma_duty_error_iff(steps, 0, zone);
    if pair_error_from(steps, 0, zone) is None && duty_error_from(steps, 0, zone) is None {
        assert forall|i: int, j: int| 0 <= i < j < steps.len()
            implies #[trigger] steps[i].temp < #[trigger] steps[j].temp by {
            lemma_adjacent_mono(steps, i, j);
        }
        assert forall|i: int, j: int| 0 <= i <= j < steps.len()
            implies #[trigger] steps[i].dcycle <= #[trigger] steps[j].dcycle by {
            lemma_adjacent_mono(steps, i, j);
        }
    }
}

proof fn lemma_zone_error_iff(z: Zone, sessions: Sessions, zone: usize)
    ensures
        zone_error(z, sessions, zone) is None <==> zone_valid(z, sessions),
{
    lemma_steps_checks_iff_wf(z.steps@, zone);
}

proof fn lemma_first_error_from_iff(zones: Seq<Zone>, sessions: Sessions, i: int)
    requires
        0 <= i,
    ensures
        first_error_from(zones, sessions, i) is None <==> forall|k: int|
            i <= k < zones.len() ==> #[trigger] zone_error(zones[k], sessions, k as usize)
                is None,
    decreases zones.len() - i,
{
    if i < zones.len() && zone_error(zones[i], sessions, i as usize) is None {
        lemma_first_error_from_iff(zones, sessions, i + 1);
    }
}

/// The check order finds a violation exactly when some invariant fails.
pub proof fn lemma_first_error_none_iff_valid(c: Config)
    ensures
        first_error(c) is None <==> config_valid(c),
{
    if c.zones@.len() > 0 {
        lemma_first_error_from_iff(c.zones@, c.sessions, 0);
        assert forall|k: int|
            #![trigger c.zones@[k]]
            #![trigger zone_error(c.zones@[k], c.sessions, k as usize)]
            0 <= k < c.zones@.len()
            implies (zone_error(c.zones@[k], c.sessions, k as usize) is None)
                == zone_valid(c.zones@[k], c.sessions) by {
            lemma_zone_error_iff(c.zones@[k], c.sessions, k as usize);
        }
    }
}

/// Make sure a session named "default" exists, adding a local one when the
/// file configured none — the counterpart of the loader's implicit default.
pub fn ensure_default_session(sessions: &mut Sessions)
    ensures
        has_session(*old(sessions), "default"@) ==> *final(sessions) == *old(sessions),
        !has_session(*old(sessions), "default"@) ==> {
            &&& final(sessions).0@.len() == old(sessions).0@.len() + 1
            &&& (forall|t: int| 0 <= t < old(sessions).0@.len()
                ==> final(sessions).0@[t] == old(sessions).0@[t])
            &&& final(sessions).0@.last().0@ == "default"@
            &&& final(sessions).0@.last().1.0 is Local
        },
{
    let def = SessionName::default();
    let mut k: usize = 0;
    let mut found = false;
    while k < sessions.0.len()
        invariant
            k <= sessions.0@.len(),
            def.0@ == "default"@,
            found <==> exists|t: int| 0 <= t < k as int
                && #[trigger] sessions.0@[t].0@ == "default"@,
        decreases sessions.0@.len() - k,
    {
        if sessions.0[k].0 == def.0 {
            found = true;
        }
        k = k + 1;
    }
    if !found {
        sessions.0.push((def.0, SessionTypeCompat(SessionType::Local)));
    }
}

/// Validate a parsed configuration, reporting the first violation in the
/// order the checks run; `Ok` exactly when every invariant of
/// [`config_valid`] holds.
#[verifier::loop_isolation(false)]
pub fn validate_config(config: &Config) -> (r: Result<(), ValidationError>)
    ensures
        r matches Err(e) ==> first_error(*config) == Some(e),
        r is Ok ==> first_error(*config) is None,
        r is Ok <==> config_valid(*config),
{
    proof {
        lemma_first_error_none_iff_valid(*config);
    }
    if config.zones.len() == 0 {
        return Err(ValidationError::NoZones);
    }
    let mut i: usize = 0;
    while i < config.zones.len()
        invariant
            i <= config.zones@.len(),
            config.zones@.len() > 0,
            first_error_from(config.zones@, config.sessions, 0) == first_error_from(
                config.zones@, config.sessions, i as int),
            first_error(*config) is None <==> config_valid(*config),
        decreases config.zones@.len() - i,
    {
        let z = &config.zones[i];
        if z.interval.0 == 0 {
            return Err(ValidationError::ZeroInterval { zone: i });
        }
        if z.ipmi_zones.len() == 0 {
            return Err(ValidationError::NoIpmiZones { zone: i });
        }
        if z.sources.len() == 0 {
            return Err(ValidationError::NoSources { zone: i });
        }
        let mut k: usize = 0;
        let mut found = false;
        while k < config.sessions.0.len()
            invariant
                k <= config.sessions.0@.len(),
                (i as int) < config.zones@.len(),
                *z == config.zones@[i as int],
                found <==> exists|t: int| 0 <= t < k as int
                    && #[trigger] config.sessions.0@[t].0@ == z.session.0@,
            decreases config.sessions.0@.len() - k,
        {
            if config.sessions.0[k].0 == z.session.0 {
                found = true;
            }
            k = k + 1;
        }
        if !found {
            return Err(ValidationError::UnknownSession { zone: i });
        }
        match z.aggregation {
            Aggregation::Average { top } => match top {
                Some(t) => if t == 0 {
                    return Err(ValidationError::ZeroTopCount { zone: i });
                },
                None => {},
            },
            Aggregation::Maximum => {},
        }
        let nsteps = z.steps.len();
        let mut j: usize = 0;
        while j + 1 < nsteps
            invariant
                (i as int) < config.zones@.len(),
                *z == config.zones@[i as int],
                nsteps == z.steps@.len(),
                j == 0 || j + 1 <= nsteps,
                pair_error_from(z.steps@, 0, i) == pair_error_from(z.steps@, j as int, i),
            decreases z.steps@.len() - j,
        {
            if z.steps[j].temp >= z.steps[j + 1].temp {
                return Err(ValidationError::TempsNotIncreasing { zone: i });
            }
            if z.steps[j].dcycle > z.steps[j + 1].dcycle {
                return Err(ValidationError::DutyCyclesDecreasing { zone: i });
            }
            j = j + 1;
        }
        let mut m: usize = 0;
        while m < z.steps.len()
            invariant
                (i as int) < config.zones@.len(),
                *z == config.zones@[i as int],
                m <= z.steps@.len(),
                pair_error_from(z.steps@, 0, i) is None,
                duty_error_from(z.steps@, 0, i) == duty_error_from(z.steps@, m as int, i),
            decreases z.steps@.len() - m,
        {
            if z.steps[m].dcycle > 100 {
                return Err(ValidationError::DutyCycleOutOfRange { zone: i, step: m });
            }
            m = m + 1;
        }
        proof {
            assert(zone_error(config.zones@[i as int], config.sessions, i) is None);
        }
        i = i + 1;
    }
    Ok(())
}

} // verus!
