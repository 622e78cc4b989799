//! The hardware-session lifecycle: capture the original fan mode on
//! acquisition, force full airflow, and compute the best-effort restore
//! sequence that must run when the session is released.
//!
//! The session itself never touches hardware: it fixes the exact command
//! sequences, and the unverified transport edge carries them out — each
//! restore command attempted independently, so one failure cannot skip the
//! rest.

use vstd::prelude::*;

verus! {

/// A fan mode of the management interface. The daemon only ever writes
/// `Full` and whatever mode it observed at acquisition.
#[derive(Clone, Copy, Debug, PartialEq, Eq, Structural)]
pub enum FanMode {
    Standard,
    Full,
    Optimal,
    HeavyIo,
}

/// One write the daemon asks the hardware transport to perform.
#[derive(Clone, Copy, Debug, PartialEq, Eq, Structural)]
pub enum HwCommand {
    SetFanMode(FanMode),
    SetDutyCycle { zone: u8, dcycle: u8 },
}

/// How often a command occurs in a sequence.
pub open spec fn count_of(s: Seq<HwCommand>, c: HwCommand) -> int
    decreases s.len(),
{
    if s.len() == 0 {
        0
    } else {
        count_of(s.drop_last(), c) + if s.last() == c {
            1int
        } else {
            0int
        }
    }
}

proof fn lemma_count_of_absent(s: Seq<HwCommand>, c: HwCommand)
    requires
        forall|i: int| 0 <= i < s.len() ==> s[i] != c,
    ensures
        count_of(s, c) == 0,
    decreases s.len(),
{
    if s.len() > 0 {
        lemma_count_of_absent(s.drop_last(), c);
    }
}

/// The commands a session issues right after capturing the original fan
/// mode: force full airflow, unless the hardware already reports it.
pub open spec fn setup_commands_spec(orig: FanMode) -> Seq<HwCommand> {
    if orig == FanMode::Full {
        Seq::empty()
    } else {
        seq![HwCommand::SetFanMode(FanMode::Full)]
    }
}

/// The commands a session issues on release: 100% duty cycle on every owned
/// zone index, in order, then — when the original mode was not full — restore
/// the original mode.
pub open spec fn teardown_commands_spec(orig: FanMode, restore_zones: Seq<u8>) -> Seq<
    HwCommand,
> {
    let duties = Seq::new(restore_zones.len(),
        |i: int| HwCommand::SetDutyCycle { zone: restore_zones[i], dcycle: 100 });
    if orig == FanMode::Full {
        duties
    } else {
        duties.push(HwCommand::SetFanMode(orig))
    }
}

/// One hardware session: the name it was configured under, the fan mode
/// observed when it was acquired, and the zone indices whose duty cycles it
/// must restore on release.
pub struct IpmiSession {
    pub name: String,
    pub orig_fan_mode: FanMode,
    pub restore_zones: Vec<u8>,
}

impl IpmiSession {
    /// Record a freshly acquired session whose fan mode was just observed as
    /// `orig_fan_mode`, and return the commands to issue before any zone
    /// read or write.
    pub fn new(name: String, orig_fan_mode: FanMode, restore_zones: Vec<u8>) -> (r: (
        IpmiSession,
        Vec<HwCommand>,
    ))
        ensures
            r.0.name == name,
            r.0.orig_fan_mode == orig_fan_mode,
            r.0.restore_zones == restore_zones,
            r.1@ == setup_commands_spec(orig_fan_mode),
    {
        let mut setup: Vec<HwCommand> = Vec::new();
        if !matches!(orig_fan_mode, FanMode::Full) {
            setup.push(HwCommand::SetFanMode(FanMode::Full));
        }
        proof {
            assert(setup@ =~= setup_commands_spec(orig_fan_mode));
        }
        (
            IpmiSession { name, orig_fan_mode, restore_zones },
            setup,
        )
    }

    /// The best-effort restore sequence owed on release. The transport must
    /// attempt every command in order, independently: a failed duty-cycle
    /// write neither stops the remaining zones nor the mode restore.
    pub fn teardown_commands(&self) -> (r: Vec<HwCommand>)
        ensures
            r@ == teardown_commands_spec(self.orig_fan_mode, self.restore_zones@),
    {
        let mut cmds: Vec<HwCommand> = Vec::new();
        let mut i: usize = 0;
        while i < self.restore_zones.len()
            invariant
                i <= self.restore_zones@.len(),
                cmds@.len() == i,
                forall|j: int| 0 <= j < i as int
                    ==> cmds@[j] == (HwCommand::SetDutyCycle {
                        zone: self.restore_zones@[j],
                        dcycle: 100,
                    }),
            decreases self.restore_zones@.len() - i,
        {
            cmds.push(HwCommand::SetDutyCycle { zone: self.restore_zones[i], dcycle: 100 });
            i = i + 1;
        }
        if !matches!(self.orig_fan_mode, FanMode::Full) {
            cmds.push(HwCommand::SetFanMode(self.orig_fan_mode));
        }
        proof {
            assert(cmds@ =~= teardown_commands_spec(self.orig_fan_mode, self.restore_zones@));
        }
        cmds
    }
}

/// The session lifecycle law. Acquiring a session while the hardware reports
/// a mode other than full issues exactly one `SetFanMode(Full)` and touches
/// no zone before it; releasing it issues one 100% duty-cycle write per owned
/// zone index, in order, followed by exactly one restore of the original
/// mode — and because the whole sequence is fixed before anything runs, a
/// failing duty-cycle write cannot drop any later command.
pub proof fn lemma_session_lifecycle(orig: FanMode, restore_zones: Seq<u8>)
    requires
        orig != FanMode::Full,
    ensures
        setup_commands_spec(orig) =~= seq![HwCommand::SetFanMode(FanMode::Full)],
        count_of(setup_commands_spec(orig), HwCommand::SetFanMode(FanMode::Full)) == 1,
        teardown_commands_spec(orig, restore_zones).len() == restore_zones.len() + 1,
        forall|i: int| 0 <= i < restore_zones.len()
            ==> teardown_commands_spec(orig, restore_zones)[i]
                == (HwCommand::SetDutyCycle { zone: restore_zones[i], dcycle: 100 }),
        teardown_commands_spec(orig, restore_zones).last() == HwCommand::SetFanMode(orig),
        count_of(teardown_commands_spec(orig, restore_zones), HwCommand::SetFanMode(orig))
            == 1,
{
    let setup = setup_commands_spec(orig);
    assert(setup =~= seq![HwCommand::SetFanMode(FanMode::Full)]);
    assert(count_of(setup, HwCommand::SetFanMode(FanMode::Full)) == 1) by {
        lemma_count_of_absent(setup.drop_last(), HwCommand::SetFanMode(FanMode::Full));
        assert(setup.last() == HwCommand::SetFanMode(FanMode::Full));
    }
    let duties = Seq::new(restore_zones.len(),
        |i: int| HwCommand::SetDutyCycle { zone: restore_zones[i], dcycle: 100 });
    let t = teardown_commands_spec(orig, restore_zones);
    assert(t == duties.push(HwCommand::SetFanMode(orig)));
    lemma_count_of_absent(duties, HwCommand::SetFanMode(orig));
    assert(t.drop_last() =~= duties);
}

} // verus!
