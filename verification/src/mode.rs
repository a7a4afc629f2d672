//! The arm, kill and closed-loop mode machine of the bench. Commands and
//! the drive state go in; the peripheral actions come out as data, for the
//! caller to perform.

use vstd::prelude::*;

use crate::bits::low8;

verus! {

/// The state the commands act on.
#[derive(Debug, Clone, Copy, PartialEq, Eq, Structural)]
pub struct ModeState {
    /// The bridge may be driven.
    pub motor_enabled: bool,
    /// Closed loop engaged.
    pub cl_active: bool,
    /// Closed loop armed.
    pub cl_armed: bool,
    /// Re-acquisition mode.
    pub cl_reacq: bool,
    /// Consecutive missed A and B windows.
    pub cl_noz_run: u8,
    /// Smoothed sector interval, µs; 0 is unseeded.
    pub interval_us: u32,
    /// Six times the stiff average.
    pub avg_interval_acc: u32,
    /// Last accepted zero-cross; `u32::MAX` is a broken chain.
    pub last_qzc_us: u32,
    /// Window closes since the last accepted zero-cross.
    pub windows_since_qzc: u8,
    /// Applied amplitude, percent.
    pub amplitude_pct: u8,
    /// Commanded amplitude, percent.
    pub amp_target_pct: u8,
    /// Unloaded battery sample taken at arm.
    pub vbat_baseline_raw: u16,
    /// Latest battery sample.
    pub vbat_live: u16,
}

/// The main loop's own view of the drive.
#[derive(Debug, Clone, Copy, PartialEq, Eq, Structural)]
pub struct Mirror {
    /// The output is on.
    pub output_enabled: bool,
    /// Six-step, not sine.
    pub six_step: bool,
    /// Open-loop frequency.
    pub hz: u32,
    /// Commanded amplitude, percent.
    pub amp_pct: u16,
}

/// A bench command.
#[derive(Debug, Clone, Copy, PartialEq, Eq, Structural)]
pub enum Cmd {
    /// Arm or retune the open-loop drive.
    Arm {
        /// Open-loop frequency.
        hz: u32,
        /// Amplitude, percent.
        amp_pct: u16,
    },
    /// Unconditional kill.
    Kill,
    /// Arm the closed loop, or kill it when it is engaged.
    ClToggle,
    /// Sine or six-step.
    ModeToggle,
}

/// What to tell the user.
#[derive(Debug, Clone, Copy, PartialEq, Eq, Structural)]
pub enum Msg {
    /// Nothing.
    Silent,
    /// The drive is armed.
    Armed,
    /// The drive is off.
    Off,
    /// The closed loop is in the way.
    ClBlocked,
    /// The closed loop was killed.
    ClOffKilled,
    /// The closed loop is armed.
    ClArmed,
    /// The closed loop needs a running six-step drive.
    ClNeedsDrive,
    /// The mode changed.
    ModeToggled,
}

/// Peripheral actions, in the order of application: the output before the
/// comparator interrupt.
#[derive(Debug, Clone, Copy, PartialEq, Eq, Structural)]
pub struct Actions {
    /// Turn the output on.
    pub arm_output: bool,
    /// Turn every switch off.
    pub all_off: bool,
    /// Unmask or mask the comparator interrupt.
    pub exti: Option<bool>,
    /// What to say.
    pub msg: Msg,
}

impl Actions {
    /// Nothing but a message.
    pub open spec fn only(msg: Msg) -> Actions {
        Actions { arm_output: false, all_off: false, exti: None, msg }
    }

    /// Everything off, comparator masked.
    pub open spec fn stop(msg: Msg) -> Actions {
        Actions { arm_output: false, all_off: true, exti: Some(false), msg }
    }

    fn none(msg: Msg) -> (r: Self)
        ensures
            r == Actions::only(msg),
    {
        Self { arm_output: false, all_off: false, exti: None, msg }
    }
}

impl ModeState {
    /// Drive and loop off.
    pub open spec fn stopped(self) -> ModeState {
        ModeState { motor_enabled: false, cl_active: false, cl_armed: false, ..self }
    }

    /// Closed loop armed on a fresh estimator: a stale interval would
    /// refuse every honest sample.
    pub open spec fn loop_armed(self) -> ModeState {
        ModeState {
            interval_us: 0,
            avg_interval_acc: 0,
            last_qzc_us: u32::MAX,
            windows_since_qzc: 0,
            cl_reacq: false,
            cl_noz_run: 0,
            cl_armed: true,
            ..self
        }
    }
}

/// The state, the mirror and the actions after a command.
pub open spec fn stepped(ms: ModeState, mir: Mirror, cmd: Cmd) -> (ModeState, Mirror, Actions) {
    match cmd {
        Cmd::Arm { hz, amp_pct } => if ms.cl_active {
            (ms, mir, Actions::only(Msg::ClBlocked))
        } else {
            (
                ModeState {
                    vbat_baseline_raw: ms.vbat_live,
                    amplitude_pct: (amp_pct % 0x100) as u8,
                    amp_target_pct: (amp_pct % 0x100) as u8,
                    motor_enabled: ms.motor_enabled || !mir.output_enabled,
                    ..ms
                },
                Mirror { output_enabled: true, six_step: true, hz, amp_pct },
                if mir.output_enabled {
                    Actions::only(Msg::Silent)
                } else {
                    Actions {
                        arm_output: true,
                        all_off: false,
                        exti: Some(true),
                        msg: Msg::Armed,
                    }
                },
            )
        },
        Cmd::Kill => (
            ms.stopped(),
            Mirror { output_enabled: false, ..mir },
            Actions::stop(
                if mir.output_enabled {
                    Msg::Off
                } else {
                    Msg::Silent
                },
            ),
        ),
        Cmd::ClToggle => if ms.cl_active {
            (
                ms.stopped(),
                Mirror { output_enabled: false, ..mir },
                Actions::stop(Msg::ClOffKilled),
            )
        } else if mir.output_enabled && mir.six_step {
            (ms.loop_armed(), mir, Actions::only(Msg::ClArmed))
        } else {
            (ms, mir, Actions::only(Msg::ClNeedsDrive))
        },
        Cmd::ModeToggle => if ms.cl_active || ms.cl_armed {
            (ms, mir, Actions::only(Msg::ClBlocked))
        } else {
            (ms, Mirror { six_step: !mir.six_step, ..mir }, Actions::only(Msg::ModeToggled))
        },
    }
}

/// Takes one command. Arming snaps the amplitude and captures the battery
/// baseline; a kill is unconditional; the mode is fixed while the closed
/// loop is engaged or armed.
pub fn step(ms: &mut ModeState, mir: &mut Mirror, cmd: Cmd) -> (r: Actions)
    ensures
        (*final(ms), *final(mir), r) == stepped(*old(ms), *old(mir), cmd),
{
    match cmd {
        Cmd::Arm { hz, amp_pct } => {
            if ms.cl_active {
                return Actions::none(Msg::ClBlocked);
            }
            ms.vbat_baseline_raw = ms.vbat_live;
            mir.six_step = true;
            mir.hz = hz;
            mir.amp_pct = amp_pct;
            ms.amplitude_pct = low8(amp_pct);
            ms.amp_target_pct = low8(amp_pct);
            if !mir.output_enabled {
                mir.output_enabled = true;
                ms.motor_enabled = true;
                Actions { arm_output: true, all_off: false, exti: Some(true), msg: Msg::Armed }
            } else {
                Actions::none(Msg::Silent)
            }
        },
        Cmd::Kill => {
            ms.cl_active = false;
            ms.cl_armed = false;
            ms.motor_enabled = false;
            let was_on: bool = mir.output_enabled;
            mir.output_enabled = false;
            Actions {
                arm_output: false,
                all_off: true,
                exti: Some(false),
                msg: if was_on {
                    Msg::Off
                } else {
                    Msg::Silent
                },
            }
        },
        Cmd::ClToggle => {
            if ms.cl_active {
                ms.cl_active = false;
                ms.cl_armed = false;
                ms.motor_enabled = false;
                mir.output_enabled = false;
                Actions {
                    arm_output: false,
                    all_off: true,
                    exti: Some(false),
                    msg: Msg::ClOffKilled,
                }
            } else if mir.output_enabled && mir.six_step {
                ms.interval_us = 0;
                ms.avg_interval_acc = 0;
                ms.last_qzc_us = u32::MAX;
                ms.windows_since_qzc = 0;
                ms.cl_reacq = false;
                ms.cl_noz_run = 0;
                ms.cl_armed = true;
                Actions::none(Msg::ClArmed)
            } else {
                Actions::none(Msg::ClNeedsDrive)
            }
        },
        Cmd::ModeToggle => {
            if ms.cl_active || ms.cl_armed {
                Actions::none(Msg::ClBlocked)
            } else {
                mir.six_step = !mir.six_step;
                Actions::none(Msg::ModeToggled)
            }
        },
    }
}

/// The mirror tells the truth about the drive, and a loop that is engaged
/// or armed has a running drive.
pub open spec fn in_sync(ms: ModeState, mir: Mirror) -> bool {
    &&& mir.output_enabled == ms.motor_enabled
    &&& ms.cl_active || ms.cl_armed ==> ms.motor_enabled
}

/// The state and the mirror after a train of commands.
pub open spec fn stepped_all(ms: ModeState, mir: Mirror, cmds: Seq<Cmd>) -> (ModeState, Mirror)
    decreases cmds.len(),
{
    if cmds.len() == 0 {
        (ms, mir)
    } else {
        let before = stepped_all(ms, mir, cmds.drop_last());
        let after = stepped(before.0, before.1, cmds.last());
        (after.0, after.1)
    }
}

/// No train of commands lets the mirror and the drive part, nor leaves a
/// loop alive over a dead drive.
pub proof fn law_commands_keep_sync(ms: ModeState, mir: Mirror, cmds: Seq<Cmd>)
    requires
        in_sync(ms, mir),
    ensures
        in_sync(stepped_all(ms, mir, cmds).0, stepped_all(ms, mir, cmds).1),
    decreases cmds.len(),
{
    if cmds.len() > 0 {
        law_commands_keep_sync(ms, mir, cmds.drop_last());
    }
}

/// The comparator interrupt is unmasked only together with the output, by a
/// command that turns a dead drive on; it is masked whenever a command
/// turns the drive off, together with every switch.
pub proof fn law_exti_follows_the_drive(ms: ModeState, mir: Mirror, cmd: Cmd)
    requires
        in_sync(ms, mir),
    ensures
        ({
            let (ms2, mir2, act) = stepped(ms, mir, cmd);
            &&& act.exti == Some(true) <==> !ms.motor_enabled && ms2.motor_enabled
            &&& act.arm_output == (act.exti == Some(true))
            &&& ms.motor_enabled && !ms2.motor_enabled ==> act.exti == Some(false)
            &&& act.all_off == (act.exti == Some(false))
        }),
{
}

/// A kill works from every state, in sync or not, and a second one changes
/// nothing.
pub proof fn law_kill_is_unconditional(ms: ModeState, mir: Mirror)
    ensures
        ({
            let (ms2, mir2, act) = stepped(ms, mir, Cmd::Kill);
            let (ms3, mir3, act3) = stepped(ms2, mir2, Cmd::Kill);
            &&& !ms2.motor_enabled && !ms2.cl_active && !ms2.cl_armed && !mir2.output_enabled
            &&& act.all_off && act.exti == Some(false)
            &&& ms3 == ms2 && mir3 == mir2 && act3.all_off && act3.exti == Some(false)
        }),
{
}

/// The mode cannot change under a loop that is engaged or armed.
pub proof fn law_mode_is_fixed_under_the_loop(ms: ModeState, mir: Mirror)
    requires
        ms.cl_active || ms.cl_armed,
    ensures
        stepped(ms, mir, Cmd::ModeToggle) == (ms, mir, Actions::only(Msg::ClBlocked)),
{
}

/// Arming a drive always lands on the commanded amplitude, applied and
/// target alike, with a fresh battery baseline.
pub proof fn law_arm_snaps(ms: ModeState, mir: Mirror, hz: u32, amp_pct: u16)
    requires
        !ms.cl_active,
        amp_pct <= 0xFF,
    ensures
        ({
            let (ms2, mir2, act) = stepped(ms, mir, Cmd::Arm { hz, amp_pct });
            &&& ms2.amplitude_pct == amp_pct && ms2.amp_target_pct == amp_pct
            &&& ms2.vbat_baseline_raw == ms.vbat_live
            &&& mir2.output_enabled
        }),
{
}

/// What each command does in words of the bench. A blocked command changes
/// nothing. Arming takes the frequency and the amplitude, in six-step, and
/// says so only when it turns a dead output on.
pub proof fn law_arm_takes_the_drive(ms: ModeState, mir: Mirror, hz: u32, amp_pct: u16)
    ensures
        ({
            let (ms2, mir2, act) = stepped(ms, mir, Cmd::Arm { hz, amp_pct });
            &&& ms.cl_active ==> ms2 == ms && mir2 == mir && act.msg == Msg::ClBlocked
                && !act.arm_output && !act.all_off && act.exti is None
            &&& !ms.cl_active ==> {
                &&& mir2.output_enabled && mir2.six_step && mir2.hz == hz && mir2.amp_pct
                    == amp_pct
                &&& ms2.cl_armed == ms.cl_armed && !ms2.cl_active
                &&& ms2.interval_us == ms.interval_us && ms2.last_qzc_us == ms.last_qzc_us
                &&& ms2.vbat_live == ms.vbat_live
                &&& mir.output_enabled ==> act.msg == Msg::Silent && !act.arm_output && act.exti
                    is None && ms2.motor_enabled == ms.motor_enabled
                &&& !mir.output_enabled ==> act.msg == Msg::Armed && act.arm_output && act.exti
                    == Some(true) && ms2.motor_enabled
                &&& !act.all_off
            }
        }),
{
}

/// A kill stops drive, loop and arm, keeps everything else, and says so only
/// when the output was on.
pub proof fn law_kill_stops_and_keeps(ms: ModeState, mir: Mirror)
    ensures
        ({
            let (ms2, mir2, act) = stepped(ms, mir, Cmd::Kill);
            &&& act.msg == if mir.output_enabled {
                Msg::Off
            } else {
                Msg::Silent
            }
            &&& !act.arm_output
            &&& mir2.six_step == mir.six_step && mir2.hz == mir.hz && mir2.amp_pct == mir.amp_pct
            &&& ms2 == (ModeState {
                motor_enabled: false,
                cl_active: false,
                cl_armed: false,
                ..ms
            })
        }),
{
}

/// The loop toggle kills an engaged loop with the drive. On a running
/// six-step drive it arms the loop over a fresh estimator: no interval, no
/// average, a broken chain, no misses, no re-acquisition, and the drive as it
/// was. On any other drive it changes nothing.
pub proof fn law_toggle_arms_a_fresh_loop(ms: ModeState, mir: Mirror)
    ensures
        ({
            let (ms2, mir2, act) = stepped(ms, mir, Cmd::ClToggle);
            &&& ms.cl_active ==> {
                &&& !ms2.motor_enabled && !ms2.cl_active && !ms2.cl_armed && !mir2.output_enabled
                &&& act.all_off && act.exti == Some(false) && act.msg == Msg::ClOffKilled
                &&& ms2.interval_us == ms.interval_us
            }
            &&& !ms.cl_active && mir.output_enabled && mir.six_step ==> {
                &&& ms2.cl_armed && !ms2.cl_active && ms2.motor_enabled == ms.motor_enabled
                &&& ms2.interval_us == 0 && ms2.avg_interval_acc == 0
                &&& ms2.last_qzc_us == 0xFFFF_FFFF && ms2.windows_since_qzc == 0
                &&& !ms2.cl_reacq && ms2.cl_noz_run == 0
                &&& ms2.amplitude_pct == ms.amplitude_pct && ms2.amp_target_pct
                    == ms.amp_target_pct
                &&& mir2 == mir && act.msg == Msg::ClArmed && act.exti is None && !act.all_off
                    && !act.arm_output
            }
            &&& !ms.cl_active && !(mir.output_enabled && mir.six_step) ==> ms2 == ms && mir2 == mir
                && act.msg == Msg::ClNeedsDrive && act.exti is None && !act.all_off
                && !act.arm_output
        }),
{
}

/// A free mode toggles, and twice is back; nothing else moves.
pub proof fn law_mode_toggles_back(ms: ModeState, mir: Mirror)
    requires
        !ms.cl_active && !ms.cl_armed,
    ensures
        ({
            let (ms2, mir2, act) = stepped(ms, mir, Cmd::ModeToggle);
            let (ms3, mir3, act3) = stepped(ms2, mir2, Cmd::ModeToggle);
            &&& ms2 == ms && mir2.six_step != mir.six_step
            &&& mir2.output_enabled == mir.output_enabled && mir2.hz == mir.hz
            &&& act.msg == Msg::ModeToggled && act.exti is None && !act.all_off && !act.arm_output
            &&& ms3 == ms && mir3 == mir
        }),
{
}

} // verus!
