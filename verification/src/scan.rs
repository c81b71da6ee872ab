//! Row-scan refresh state machine.
//!
//! The physical protocol is driven by two interrupt sources that never run
//! concurrently (each masks the other before touching shared state): a
//! periodic alarm that paces one row per tick, and a transfer-completion
//! signal that reclaims the bus once a row's bulk transfer has drained.
//! This module holds the decisions of those two handlers as a sequential
//! state machine: each handler call maps the current state to the next
//! state plus the actions the hardware layer must perform (sync pulses,
//! starting one bulk transfer, releasing the vertical-sync bracket).
//!
//! The shared serial pins serve two roles — plain digital outputs for the
//! bit-banged sync framing, and the bus peripheral's data/clock lines for
//! the bulk transfer — so ownership of the bus is handed back and forth
//! every row and is tracked here as a two-variant sum, never as both forms
//! at once.

use vstd::prelude::*;

verus! {

use crate::framebuffer::ROWS;

/// Who holds the shared serial resource. Exactly one variant holds it at
/// any instant; the mode switch is a full resource conversion.
#[derive(Clone, Copy, Debug, PartialEq, Eq, Structural)]
pub enum BusMode {
    /// The pins are plain digital outputs, available for sync bit-banging.
    BitBang,
    /// The bus peripheral and its channel are committed to an in-flight
    /// bulk transfer of the given row.
    InFlight { row: usize },
}

/// What one alarm tick asks the hardware layer to do.
#[derive(Clone, Copy, Debug, PartialEq, Eq, Structural)]
pub enum AlarmAction {
    /// The bus is still committed to an unfinished transfer, so the tick
    /// is skipped silently; the completion handler resumes the pipeline.
    Skipped,
    /// Scan one tick: emit the horizontal-sync pulse; open the
    /// vertical-sync bracket iff `vsync` (first row of a frame, also the
    /// point where the scan-out frame is latched); start the bulk transfer
    /// of row `row` iff `transfer` (false only on the idle tick between
    /// frames).
    Ticked { row: usize, vsync: bool, transfer: bool },
}

/// The refresh machine's own state: the row cursor and the bus owner.
/// On the target this record lives behind interrupt masking and a critical
/// section; the handlers below are its only mutators.
pub struct ScanState {
    cursor: usize,
    bus: BusMode,
}

impl ScanState {
    /// The next row to scan; `ROWS` is the idle tick reserved for the
    /// vertical-sync bracket between frames.
    pub closed spec fn spec_cursor(&self) -> int {
        self.cursor as int
    }

    /// Who currently holds the serial resource.
    pub closed spec fn spec_bus(&self) -> BusMode {
        self.bus
    }

    /// The machine invariant: the cursor stays within one frame plus the
    /// idle tick, and an in-flight transfer is always of the row just
    /// before the cursor.
    pub open spec fn wf(&self) -> bool {
        &&& 0 <= self.spec_cursor() <= ROWS as int
        &&& match self.spec_bus() {
            BusMode::BitBang => true,
            BusMode::InFlight { row } => row < ROWS && self.spec_cursor() == row + 1,
        }
    }

    /// Boot state: cursor at row 0, bus held in bit-bang form.
    pub fn new() -> (s: ScanState)
        ensures
            s.wf(),
            s.spec_cursor() == 0,
            s.spec_bus() == BusMode::BitBang,
    {
        ScanState { cursor: 0, bus: BusMode::BitBang }
    }

    /// The alarm handler's decision for one cadence tick.
    ///
    /// If the bus is still owned by an in-flight transfer the tick is
    /// skipped without touching anything (the completion handler will
    /// resume the pipeline). Otherwise the current row is scanned: the
    /// hardware layer emits the sync pulses and, for a real row, receives
    /// the bus in bulk-transfer form; on the idle tick the bus stays in
    /// bit-bang form. The cursor advances modulo `ROWS + 1`.
    pub fn on_alarm(&mut self) -> (a: AlarmAction)
        requires
            old(self).wf(),
        ensures
            final(self).wf(),
            alarm_rel(*old(self), *final(self), a),
    {
        match self.bus {
            BusMode::InFlight { .. } => AlarmAction::Skipped,
            BusMode::BitBang => {
                let row = self.cursor;
                let vsync = row == 0;
                let transfer = row < ROWS;
                if transfer {
                    self.bus = BusMode::InFlight { row };
                }
                self.cursor = if row >= ROWS {
                    0
                } else {
                    row + 1
                };
                AlarmAction::Ticked { row, vsync, transfer }
            },
        }
    }

    /// The completion handler's decision: the in-flight transfer has
    /// drained, so the bus returns to bit-bang form; the caller lowers the
    /// vertical-sync line iff the completed row was row 0 (closing the
    /// bracket the alarm handler opened).
    pub fn on_transfer_done(&mut self) -> (lower_vsync: bool)
        requires
            old(self).wf(),
            old(self).spec_bus() is InFlight,
        ensures
            final(self).wf(),
            done_rel(*old(self), *final(self), lower_vsync),
    {
        let row: usize = match self.bus {
            BusMode::InFlight { row } => row,
            BusMode::BitBang => vstd::pervasive::unreached(),
        };
        self.bus = BusMode::BitBang;
        row == 0
    }
}

/// How one alarm tick changes the machine and what it asks of the
/// hardware layer.
pub open spec fn alarm_rel(pre: ScanState, post: ScanState, a: AlarmAction) -> bool {
    match pre.spec_bus() {
        BusMode::InFlight { .. } => a == AlarmAction::Skipped && post == pre,
        BusMode::BitBang => {
            let r = pre.spec_cursor();
            &&& a == (AlarmAction::Ticked {
                row: r as usize,
                vsync: r == 0,
                transfer: r < ROWS as int,
            })
            &&& post.spec_cursor() == (if r == ROWS as int { 0int } else { r + 1 })
            &&& post.spec_bus() == (if r < ROWS as int {
                BusMode::InFlight { row: r as usize }
            } else {
                BusMode::BitBang
            })
        },
    }
}

/// How one transfer completion changes the machine: the bus converts back
/// to bit-bang form, the cursor stays, and the vertical-sync line is
/// lowered exactly after row 0's transfer.
pub open spec fn done_rel(pre: ScanState, post: ScanState, lower_vsync: bool) -> bool {
    match pre.spec_bus() {
        BusMode::BitBang => false,
        BusMode::InFlight { row } => {
            &&& post.spec_bus() == BusMode::BitBang
            &&& post.spec_cursor() == pre.spec_cursor()
            &&& lower_vsync == (row == 0)
        },
    }
}

/// One full row round as the hardware layer drives it: an alarm tick,
/// followed by the completion of the transfer it started, if it started
/// one.
pub open spec fn round_rel(pre: ScanState, post: ScanState, a: AlarmAction) -> bool {
    exists|mid: ScanState, lower: bool|
        #[trigger] alarm_rel(pre, mid, a) && if (a matches AlarmAction::Ticked {
            transfer: true,
            ..
        }) {
            #[trigger] done_rel(mid, post, lower)
        } else {
            post == mid
        }
}

/// Ownership handoff exclusivity: in every reachable instant exactly one
/// of {bit-bang form, in-flight transfer} holds the bus — never both,
/// never neither — and while a transfer is outstanding the alarm handler
/// starts no second one: it skips the tick and leaves the state untouched.
pub proof fn lemma_handoff_exclusive(pre: ScanState, post: ScanState, a: AlarmAction)
    requires
        pre.wf(),
        alarm_rel(pre, post, a),
    ensures
        (pre.spec_bus() is BitBang) != (pre.spec_bus() is InFlight),
        pre.spec_bus() is InFlight ==> a == AlarmAction::Skipped && post == pre,
        pre.spec_bus() is BitBang && post.spec_bus() is InFlight ==> (a
            matches AlarmAction::Ticked { transfer: true, .. }),
{
}

/// Cursor progress along one scan cycle: starting a cycle at row `0` with
/// the bus free, after `n` complete rounds the cursor stands at row `n`
/// with the bus free again, and round `k` transferred exactly row `k`.
proof fn lemma_scan_progress(states: Seq<ScanState>, acts: Seq<AlarmAction>, n: int)
    requires
        states.len() == acts.len() + 1,
        acts.len() <= ROWS as int,
        states[0].spec_cursor() == 0,
        states[0].spec_bus() == BusMode::BitBang,
        forall|k: int| 0 <= k < acts.len() ==> #[trigger] round_rel(states[k], states[k + 1], acts[k]),
        0 <= n <= acts.len(),
    ensures
        states[n].spec_cursor() == n,
        states[n].spec_bus() == BusMode::BitBang,
        forall|k: int|
            0 <= k < n ==> acts[k] == (AlarmAction::Ticked {
                row: k as usize,
                vsync: k == 0,
                transfer: true,
            }),
    decreases n,
{
    if n > 0 {
        lemma_scan_progress(states, acts, n - 1);
        let k = n - 1;
        assert(round_rel(states[k], states[k + 1], acts[k]));
        assert(round_rel(states[n - 1], states[n], acts[n - 1]));
        let (mid, lower) = choose|mid: ScanState, lower: bool|
            #[trigger] alarm_rel(states[n - 1], mid, acts[n - 1]) && if (acts[n - 1]
                matches AlarmAction::Ticked { transfer: true, .. }) {
                #[trigger] done_rel(mid, states[n], lower)
            } else {
                states[n] == mid
            };
        assert(acts[n - 1] == (AlarmAction::Ticked {
            row: (n - 1) as usize,
            vsync: n - 1 == 0,
            transfer: true,
        }));
    }
}

/// Row order invariant: across one full scan cycle of `ROWS` rounds the
/// rows handed to the bulk-transfer step are exactly `0, 1, .., ROWS - 1`
/// in order — strictly increasing, no repeats, no gaps — and every round
/// does start a transfer.
pub proof fn lemma_row_order(states: Seq<ScanState>, acts: Seq<AlarmAction>)
    requires
        states.len() == acts.len() + 1,
        acts.len() == ROWS as int,
        states[0].spec_cursor() == 0,
        states[0].spec_bus() == BusMode::BitBang,
        forall|k: int| 0 <= k < acts.len() ==> #[trigger] round_rel(states[k], states[k + 1], acts[k]),
    ensures
        forall|k: int|
            0 <= k < ROWS as int ==> acts[k] == (AlarmAction::Ticked {
                row: k as usize,
                vsync: k == 0,
                transfer: true,
            }),
{
    lemma_scan_progress(states, acts, ROWS as int);
}

} // verus!
