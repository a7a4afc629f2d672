use minz_core::bus::{Bus, Context};
use minz_core::cells::{
    ControlCells, DiagCells, EdgeCells, KillCells, ModeCells, WindowCells, ZcCells,
};
use minz_core::guards::IsrKillKind;
use minz_core::mode::{Cmd, Mirror, Msg};
use minz_core::zc::{ConfirmAction, HeldEdge};
use portable_atomic::{AtomicBool, AtomicU16, AtomicU32, AtomicU8, Ordering};

const R: Ordering = Ordering::Relaxed;

struct Bench;

impl Context for Bench {}

fn bus() -> Bus {
    Bus::new(&Bench)
}

#[derive(Default)]
struct Zc {
    zc_clocked: AtomicBool,
    cand_zc_us: AtomicU32,
    cand_expected: AtomicBool,
    cand_confirms: AtomicU8,
    cand_gen: AtomicU8,
    window_gen: AtomicU8,
    window_qzc_us: AtomicU32,
    interval_us: AtomicU32,
    last_qzc_us: AtomicU32,
    windows_since_qzc: AtomicU8,
    last_qzc_10us: AtomicU32,
    cl_active: AtomicBool,
    cl_armed: AtomicBool,
    cl_reacq: AtomicBool,
    cl_noz_run: AtomicU8,
    cl_fast_path: AtomicBool,
    est_acc: AtomicU32,
    est_rej_floor: AtomicU32,
    est_rej_ceiling: AtomicU32,
    est_rej_rate: AtomicU32,
    est_rej_reseed: AtomicU32,
    est_rej_harmonic: AtomicU32,
    cl_am32_geom: AtomicBool,
    est_prev_period: AtomicU32,
    avg_interval_acc: AtomicU32,
}

impl Zc {
    fn new() -> Self {
        let z = Self::default();
        z.cand_zc_us.store(u32::MAX, R);
        z.window_qzc_us.store(u32::MAX, R);
        z.interval_us.store(600, R);
        z.last_qzc_us.store(9_400, R);
        z.windows_since_qzc.store(1, R);
        z.cl_noz_run.store(3, R);
        z
    }

    fn cells(&self) -> ZcCells<'_> {
        ZcCells {
            zc_clocked: &self.zc_clocked,
            cand_zc_us: &self.cand_zc_us,
            cand_expected: &self.cand_expected,
            cand_confirms: &self.cand_confirms,
            cand_gen: &self.cand_gen,
            window_gen: &self.window_gen,
            window_qzc_us: &self.window_qzc_us,
            interval_us: &self.interval_us,
            last_qzc_us: &self.last_qzc_us,
            windows_since_qzc: &self.windows_since_qzc,
            last_qzc_10us: &self.last_qzc_10us,
            cl_active: &self.cl_active,
            cl_armed: &self.cl_armed,
            cl_reacq: &self.cl_reacq,
            cl_noz_run: &self.cl_noz_run,
            cl_fast_path: &self.cl_fast_path,
            est_acc: &self.est_acc,
            est_rej_floor: &self.est_rej_floor,
            est_rej_ceiling: &self.est_rej_ceiling,
            est_rej_rate: &self.est_rej_rate,
            est_rej_reseed: &self.est_rej_reseed,
            est_rej_harmonic: &self.est_rej_harmonic,
            cl_am32_geom: &self.cl_am32_geom,
            est_prev_period: &self.est_prev_period,
            avg_interval_acc: &self.avg_interval_acc,
        }
    }
}

#[test]
fn cells_arm_confirm_and_accept_a_crossing() {
    let z = Zc::new();
    z.window_gen.store(9, R);
    z.cl_armed.store(true, R);
    let c = z.cells();
    assert_eq!(c.confirm_step(&mut bus(), true), ConfirmAction::Idle);
    assert_eq!(c.on_held_edge(&mut bus(), true, 10_000), HeldEdge::Armed);
    assert_eq!(c.on_held_edge(&mut bus(), true, 10_001), HeldEdge::Ignored);
    assert!(z.cand_expected.load(R));
    assert_eq!(z.cand_gen.load(R), 9);
    assert_eq!(z.cand_zc_us.load(R), 10_000);
    assert_eq!(c.confirm_step(&mut bus(), true), ConfirmAction::Progress);
    assert_eq!(z.cand_confirms.load(R), 1);
    assert_eq!(
        c.confirm_step(&mut bus(), true),
        ConfirmAction::AcceptPending { zc_us: 10_000, gen_snap: 9 }
    );
    assert_eq!(z.cand_zc_us.load(R), u32::MAX);
    assert!(c.accept_gen_current(&mut bus(), 9) && !c.accept_gen_current(&mut bus(), 8));
    assert_eq!(c.schedule_precheck(&mut bus(), 1), Some(600));
    let plan = c.accept_publish(&mut bus(), 1, 10_000, 1_000).unwrap();
    assert!(plan.engaged && plan.schedule);
    assert_eq!(plan.interval_us, 600);
    assert_eq!(z.window_qzc_us.load(R), 10_000);
    assert_eq!(z.last_qzc_us.load(R), 10_000);
    assert_eq!(z.last_qzc_10us.load(R), 1_000);
    assert_eq!(z.windows_since_qzc.load(R), 0);
    assert_eq!(z.cl_noz_run.load(R), 0);
    assert_eq!(z.est_acc.load(R), 1);
    assert!(z.cl_active.load(R) && !z.cl_armed.load(R));
    assert_eq!(c.accept_publish(&mut bus(), 1, 10_001, 1_000), None);
    assert_eq!(c.schedule_precheck(&mut bus(), 1), None);
}

#[test]
fn cells_discard_a_contradicted_candidate() {
    let z = Zc::new();
    z.cl_active.store(true, R);
    let c = z.cells();
    c.on_held_edge(&mut bus(), true, 10_000);
    assert_eq!(c.confirm_step(&mut bus(), false), ConfirmAction::Discarded { confirms: 0, cl_active: true });
    assert_eq!(z.cand_zc_us.load(R), u32::MAX);
    z.cl_fast_path.store(true, R);
    assert_eq!(c.on_held_edge(&mut bus(), true, 10_000), HeldEdge::AcceptNow);
    assert_eq!(z.cand_zc_us.load(R), u32::MAX);
}

#[test]
fn cells_consume_a_candidate_with_a_full_counter() {
    let z = Zc::new();
    let c = z.cells();
    c.on_held_edge(&mut bus(), true, 10_000);
    z.cand_confirms.store(255, R);
    assert_eq!(
        c.confirm_step(&mut bus(), true),
        ConfirmAction::AcceptPending { zc_us: 10_000, gen_snap: 0 }
    );
}

#[test]
fn cells_count_each_refusal() {
    let cases: [(u32, bool, bool, u32, usize); 5] = [
        (600, false, false, 30, 0),
        (600, false, false, 30_000, 1),
        (600, false, false, 800, 2),
        (600, true, false, 200, 3),
        (600, false, true, 299, 4),
    ];
    for (interval, reacq, geometry, period, which) in cases {
        let z = Zc::new();
        z.cl_active.store(true, R);
        z.interval_us.store(interval, R);
        z.cl_reacq.store(reacq, R);
        z.cl_am32_geom.store(geometry, R);
        assert!(z.cells().accept_publish(&mut bus(), 1, 9_400 + period, 1_000).is_some());
        let counts = [
            z.est_rej_floor.load(R),
            z.est_rej_ceiling.load(R),
            z.est_rej_rate.load(R),
            z.est_rej_reseed.load(R),
            z.est_rej_harmonic.load(R),
        ];
        let mut expected = [0; 5];
        expected[which] = 1;
        assert_eq!(counts, expected);
        assert_eq!(z.est_acc.load(R), 0);
        assert_eq!(z.interval_us.load(R), interval);
    }
}

#[test]
fn cells_average_the_geometry_intervals() {
    let z = Zc::new();
    z.cl_am32_geom.store(true, R);
    assert_eq!(z.cells().avg_interval_us(&mut bus()), 0);
    z.cells().accept_publish(&mut bus(), 1, 10_000, 1_000);
    assert_eq!(z.avg_interval_acc.load(R), 3_600);
    assert_eq!(z.cells().avg_interval_us(&mut bus()), 600);
    let huge = Zc::new();
    huge.cl_am32_geom.store(true, R);
    huge.cl_active.store(true, R);
    huge.interval_us.store(u32::MAX, R);
    huge.last_qzc_us.store(0, R);
    assert_eq!(huge.cells().accept_publish(&mut bus(), 1, u32::MAX - 1, 0), None);
    assert_eq!(huge.window_qzc_us.load(R), u32::MAX - 1);
    assert_eq!((huge.interval_us.load(R), huge.last_qzc_us.load(R)), (u32::MAX, 0));
}

#[test]
fn an_accept_marks_the_window_before_it_reads_on() {
    // One cell stands for the mark and the interval: the estimator finds the
    // mark in it.
    let z = Zc::new();
    let mut c = z.cells();
    c.interval_us = &z.window_qzc_us;
    let plan = c.accept_publish(&mut bus(), 1, 10_000, 1_000).unwrap();
    assert_eq!(plan.interval_us, z.window_qzc_us.load(R));
    assert!(plan.interval_us <= 10_000);
}

#[test]
fn an_accept_engages_on_the_flag_as_it_is_then() {
    // One cell stands for the armed flag and for re-acquisition, which the
    // accept ends before it looks at the armed flag.
    let z = Zc::new();
    z.cl_active.store(true, R);
    z.cl_reacq.store(true, R);
    let mut c = z.cells();
    c.cl_armed = &z.cl_reacq;
    let plan = c.accept_publish(&mut bus(), 1, 10_000, 1_000).unwrap();
    assert!(!z.cl_reacq.load(R));
    assert!(!plan.engaged && plan.schedule);
    z.window_qzc_us.store(u32::MAX, R);
    z.cl_armed.store(true, R);
    z.windows_since_qzc.store(1, R);
    assert!(z.cells().accept_publish(&mut bus(), 1, 10_600, 1_060).unwrap().engaged);
}

#[derive(Default)]
struct Window {
    sector_start_us: AtomicU32,
    qzc_us: AtomicU32,
    first_zc_us: AtomicU32,
    raw: AtomicU32,
    valid: AtomicU32,
    i_sum: AtomicU32,
    i_n: AtomicU32,
    i_min: AtomicU16,
    i_max: AtomicU16,
    cand_zc_us: AtomicU32,
    window_gen: AtomicU8,
    interval_us: AtomicU32,
    last_qzc_us: AtomicU32,
    windows_since_qzc: AtomicU8,
    cl_active: AtomicBool,
    cl_noz_run: AtomicU8,
    cl_reacq: AtomicBool,
    stream_on: AtomicBool,
    wrec_decim: AtomicU32,
    wrec_seq: AtomicU8,
    vbat_min: AtomicU16,
    vbat_live: AtomicU16,
    last_comm_10us: AtomicU32,
}

impl Window {
    fn new() -> Self {
        let w = Self::default();
        w.sector_start_us.store(10_000, R);
        w.qzc_us.store(10_300, R);
        w.first_zc_us.store(10_250, R);
        w.raw.store(40, R);
        w.valid.store(6, R);
        w.i_sum.store(3_000, R);
        w.i_n.store(30, R);
        w.i_min.store(80, R);
        w.i_max.store(140, R);
        w.window_gen.store(255, R);
        w.interval_us.store(600, R);
        w.last_qzc_us.store(10_300, R);
        w.stream_on.store(true, R);
        w.wrec_decim.store(4, R);
        w.wrec_seq.store(255, R);
        w.vbat_min.store(1_000, R);
        w.vbat_live.store(1_083, R);
        w
    }

    fn control(&self) -> ControlCells<'_> {
        ControlCells {
            sector_start_us: &self.sector_start_us,
            qzc_us: &self.qzc_us,
            first_zc_us: &self.first_zc_us,
            cand_zc_us: &self.cand_zc_us,
            window_gen: &self.window_gen,
            interval_us: &self.interval_us,
            last_qzc_us: &self.last_qzc_us,
            windows_since_qzc: &self.windows_since_qzc,
            cl_active: &self.cl_active,
            cl_noz_run: &self.cl_noz_run,
            cl_reacq: &self.cl_reacq,
            stream_on: &self.stream_on,
            wrec_decim: &self.wrec_decim,
            wrec_seq: &self.wrec_seq,
            last_comm_10us: &self.last_comm_10us,
            raw: &self.raw,
        }
    }

    fn diag(&self) -> DiagCells<'_> {
        DiagCells {
            raw: &self.raw,
            valid: &self.valid,
            i_sum: &self.i_sum,
            i_n: &self.i_n,
            i_min: &self.i_min,
            i_max: &self.i_max,
            vbat_min: &self.vbat_min,
            vbat_live: &self.vbat_live,
        }
    }

    fn whole(&self) -> WindowCells<'_> {
        WindowCells {
            sector_start_us: &self.sector_start_us,
            qzc_us: &self.qzc_us,
            first_zc_us: &self.first_zc_us,
            raw: &self.raw,
            valid: &self.valid,
            i_sum: &self.i_sum,
            i_n: &self.i_n,
            i_min: &self.i_min,
            i_max: &self.i_max,
            cand_zc_us: &self.cand_zc_us,
            window_gen: &self.window_gen,
            interval_us: &self.interval_us,
            last_qzc_us: &self.last_qzc_us,
            windows_since_qzc: &self.windows_since_qzc,
            cl_active: &self.cl_active,
            cl_noz_run: &self.cl_noz_run,
            cl_reacq: &self.cl_reacq,
            stream_on: &self.stream_on,
            wrec_decim: &self.wrec_decim,
            wrec_seq: &self.wrec_seq,
            vbat_min: &self.vbat_min,
            vbat_live: &self.vbat_live,
            last_comm_10us: &self.last_comm_10us,
        }
    }

    fn words(&self) -> Vec<u32> {
        vec![
            self.sector_start_us.load(R),
            self.qzc_us.load(R),
            self.first_zc_us.load(R),
            self.raw.load(R),
            self.valid.load(R),
            self.i_sum.load(R),
            self.i_n.load(R),
            self.i_min.load(R) as u32,
            self.i_max.load(R) as u32,
            self.cand_zc_us.load(R),
            self.window_gen.load(R) as u32,
            self.interval_us.load(R),
            self.last_qzc_us.load(R),
            self.windows_since_qzc.load(R) as u32,
            self.cl_noz_run.load(R) as u32,
            self.cl_reacq.load(R) as u32,
            self.wrec_decim.load(R),
            self.wrec_seq.load(R) as u32,
            self.vbat_min.load(R) as u32,
            self.last_comm_10us.load(R),
        ]
    }
}

#[test]
fn window_cells_close_and_reset() {
    let w = Window::new();
    let out = w.whole().close_float_window(&mut bus(), 1, 1_060, 10_600);
    let rec = out.rec.unwrap();
    assert_eq!((rec.seq, rec.sector, rec.vbat_raw), (255, 1, 1_000));
    assert_eq!((rec.len_us, rec.qzc_off_us, rec.zc_off_us), (600, 300, 250));
    assert_eq!((rec.i_min, rec.i_max, rec.i_avg), (80, 140, 100));
    assert_eq!(rec.pred_err_us, 0);
    assert_eq!(out.bb, [None, None]);
    let max = u32::MAX;
    assert_eq!(
        w.words(),
        [
            10_600, max, max, 0, 0, 0, 0, 0x0FFF, 0, max, 0, 600, 10_300, 1, 0, 0, 5, 0, 0xFFFF,
            1_060
        ]
    );
    w.vbat_live.store(999, R);
    assert_eq!(w.whole().close_float_window(&mut bus(), 2, 1_120, 11_200).rec.unwrap().vbat_raw, 999);
}

#[test]
fn window_cells_close_in_halves() {
    let a = Window::new();
    let b = Window::new();
    for w in [&a, &b] {
        w.cl_active.store(true, R);
        w.qzc_us.store(u32::MAX, R);
        w.cl_noz_run.store(1, R);
    }
    let whole = a.whole().close_float_window(&mut bus(), 2, 1_060, 10_600);
    let (bb, sc) = b.control().window_control_step(&mut bus(), 2, 1_060, 10_600);
    let rec = b.diag().build_window_rec(&mut bus(), &sc);
    assert_eq!(whole.bb, bb);
    assert_eq!(whole.rec, rec);
    assert!(bb[1].is_some());
    assert_eq!(a.words(), b.words());
    assert!(a.cl_reacq.load(R));
    assert_eq!(a.last_qzc_us.load(R), u32::MAX);
}

#[test]
fn a_close_reads_the_interval_where_it_needs_it() {
    // One cell stands for the chain and the interval: the break that the
    // close writes is the interval that it reports and streams by.
    let w = Window::new();
    w.cl_active.store(true, R);
    w.qzc_us.store(u32::MAX, R);
    w.cl_noz_run.store(1, R);
    w.last_qzc_us.store(120, R);
    let mut c = w.control();
    c.interval_us = &w.last_qzc_us;
    let (bb, sc) = c.window_control_step(&mut bus(), 2, 1_060, 10_600);
    assert_eq!(bb[1].unwrap().1, 0xFFFF);
    assert!(sc.record);
    assert_eq!(w.last_qzc_us.load(R), u32::MAX);
}

#[test]
fn quiet_windows_keep_the_sequence() {
    let w = Window::new();
    w.stream_on.store(false, R);
    let (_, sc) = w.control().window_control_step(&mut bus(), 2, 1_060, 10_600);
    assert!(!sc.record && sc.seq == 0);
    assert_eq!((w.wrec_seq.load(R), w.wrec_decim.load(R)), (255, 5));
    assert_eq!(w.diag().build_window_rec(&mut bus(), &sc), None);
    assert_eq!(w.vbat_min.load(R), u16::MAX);
}

#[derive(Default)]
struct Mode {
    flags: [AtomicBool; 4],
    bytes: [AtomicU8; 4],
    words: [AtomicU32; 3],
    vbat: [AtomicU16; 2],
}

impl Mode {
    fn cells(&self) -> ModeCells<'_> {
        ModeCells {
            motor_enabled: &self.flags[0],
            cl_active: &self.flags[1],
            cl_armed: &self.flags[2],
            cl_reacq: &self.flags[3],
            cl_noz_run: &self.bytes[0],
            interval_us: &self.words[0],
            avg_interval_acc: &self.words[1],
            last_qzc_us: &self.words[2],
            windows_since_qzc: &self.bytes[1],
            amplitude_pct: &self.bytes[2],
            amp_target_pct: &self.bytes[3],
            vbat_baseline_raw: &self.vbat[0],
            vbat_live: &self.vbat[1],
        }
    }

    fn flags(&self) -> [bool; 3] {
        [self.flags[0].load(R), self.flags[1].load(R), self.flags[2].load(R)]
    }
}

#[test]
fn mode_cells_follow_the_commands() {
    let m = Mode::default();
    m.vbat[1].store(1_080, R);
    m.words[0].store(144, R);
    m.words[1].store(7, R);
    m.bytes[0].store(5, R);
    m.bytes[1].store(6, R);
    m.flags[3].store(true, R);
    let c = m.cells();
    let mut mir = Mirror { output_enabled: false, six_step: true, hz: 0, amp_pct: 0 };
    assert_eq!(c.step(&mut bus(), &mut mir, Cmd::ClToggle).msg, Msg::ClNeedsDrive);
    assert_eq!(c.step(&mut bus(), &mut mir, Cmd::Arm { hz: 60, amp_pct: 15 }).msg, Msg::Armed);
    assert_eq!(m.flags(), [true, false, false]);
    assert_eq!(m.vbat[0].load(R), 1_080);
    assert_eq!((m.bytes[2].load(R), m.bytes[3].load(R)), (15, 15));
    assert_eq!(m.words[0].load(R), 144);
    assert_eq!(c.step(&mut bus(), &mut mir, Cmd::ClToggle).msg, Msg::ClArmed);
    assert_eq!(m.flags(), [true, false, true]);
    assert_eq!(
        (m.words[0].load(R), m.words[1].load(R), m.words[2].load(R)),
        (0, 0, u32::MAX)
    );
    assert_eq!((m.bytes[0].load(R), m.bytes[1].load(R)), (0, 0));
    assert!(!m.flags[3].load(R));
    assert_eq!(c.step(&mut bus(), &mut mir, Cmd::ModeToggle).msg, Msg::ClBlocked);
    m.flags[1].store(true, R);
    assert_eq!(c.step(&mut bus(), &mut mir, Cmd::Arm { hz: 1, amp_pct: 1 }).msg, Msg::ClBlocked);
    assert_eq!(m.bytes[2].load(R), 15);
    assert_eq!(c.step(&mut bus(), &mut mir, Cmd::ClToggle).msg, Msg::ClOffKilled);
    assert_eq!(m.flags(), [false, false, false]);
    m.flags[0].store(true, R);
    m.flags[1].store(true, R);
    assert_eq!(c.step(&mut bus(), &mut mir, Cmd::Kill).msg, Msg::Silent);
    assert_eq!(m.flags(), [false, false, false]);
}

#[test]
fn kill_cells_set_the_whole_flag_set() {
    let kinds = [
        (IsrKillKind::Desync, 1),
        (IsrKillKind::Starved, 2),
        (IsrKillKind::Overcurrent, 3),
        (IsrKillKind::Sag, 4),
    ];
    for (kind, code) in kinds {
        let f: [AtomicBool; 8] = Default::default();
        let last_kill = AtomicU8::new(0);
        for flag in &f[..3] {
            flag.store(true, R);
        }
        let c = KillCells {
            motor_enabled: &f[0],
            cl_active: &f[1],
            cl_armed: &f[2],
            cl_desync: &f[3],
            cl_starved: &f[4],
            oc_tripped: &f[5],
            vbat_sagged: &f[6],
            bb_frozen: &f[7],
            last_kill: &last_kill,
        };
        c.apply_isr_kill(&mut bus(), kind);
        assert_eq!(last_kill.load(R), code);
        let held: Vec<bool> = f.iter().map(|b| b.load(R)).collect();
        let lost = code <= 2;
        assert_eq!(
            held,
            [false, false, false, lost, code == 2, code == 3, code == 4, lost]
        );
    }
}

#[test]
fn edge_cells_flip_every_second_wrap() {
    let (phase, half) = (AtomicU8::new(0), AtomicU8::new(1));
    let start = AtomicU32::new(100);
    let freeze = AtomicBool::new(false);
    let c = EdgeCells {
        rev_phase: &phase,
        active_half: &half,
        half_start_tick: &start,
        freeze: &freeze,
    };
    assert_eq!(c.on_rev_wrap(&mut bus(), 200), None);
    assert_eq!((phase.load(R), half.load(R), start.load(R)), (1, 1, 100));
    let plan = c.on_rev_wrap(&mut bus(), 300).unwrap();
    assert_eq!((plan.old_active, plan.new_active, plan.old_half_start), (1, 0, 100));
    assert_eq!((phase.load(R), half.load(R), start.load(R)), (0, 0, 300));
    freeze.store(true, R);
    assert_eq!(c.on_rev_wrap(&mut bus(), 400), None);
    assert_eq!(c.on_rev_wrap(&mut bus(), 500), None);
    assert_eq!((phase.load(R), half.load(R), start.load(R)), (0, 0, 300));
}
