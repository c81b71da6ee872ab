use rowscan::framebuffer::ROWS;
use rowscan::scan::{AlarmAction, ScanState};

#[test]
fn full_cycle_row_order() {
    let mut scan = ScanState::new();
    let mut rows = Vec::new();
    for _ in 0..ROWS {
        match scan.on_alarm() {
            AlarmAction::Ticked { row, vsync, transfer } => {
                assert!(transfer);
                assert_eq!(vsync, row == 0);
                rows.push(row);
                let lower = scan.on_transfer_done();
                assert_eq!(lower, row == 0);
            }
            AlarmAction::Skipped => panic!("tick skipped with the bus free"),
        }
    }
    let expected: Vec<usize> = (0..ROWS).collect();
    assert_eq!(rows, expected);
}

#[test]
fn idle_tick_between_frames() {
    let mut scan = ScanState::new();
    for _ in 0..ROWS {
        match scan.on_alarm() {
            AlarmAction::Ticked { transfer: true, .. } => {
                scan.on_transfer_done();
            }
            other => panic!("expected a transfer tick, got {:?}", other),
        }
    }
    // The tick after the last row is the idle tick: sync pulses only, no
    // transfer, and the cursor wraps to row 0.
    assert_eq!(
        scan.on_alarm(),
        AlarmAction::Ticked { row: ROWS, vsync: false, transfer: false }
    );
    assert_eq!(
        scan.on_alarm(),
        AlarmAction::Ticked { row: 0, vsync: true, transfer: true }
    );
}

#[test]
fn tick_skipped_while_transfer_in_flight() {
    let mut scan = ScanState::new();
    assert_eq!(
        scan.on_alarm(),
        AlarmAction::Ticked { row: 0, vsync: true, transfer: true }
    );
    // The transfer has not completed: the next cadence tick must skip and
    // must not start a second transfer.
    assert_eq!(scan.on_alarm(), AlarmAction::Skipped);
    assert_eq!(scan.on_alarm(), AlarmAction::Skipped);
    assert!(scan.on_transfer_done());
    // The pipeline resumes with the next row.
    assert_eq!(
        scan.on_alarm(),
        AlarmAction::Ticked { row: 1, vsync: false, transfer: true }
    );
}

#[test]
fn vsync_bracket_closes_only_after_row_zero() {
    let mut scan = ScanState::new();
    scan.on_alarm();
    assert!(scan.on_transfer_done());
    scan.on_alarm();
    assert!(!scan.on_transfer_done());
}
