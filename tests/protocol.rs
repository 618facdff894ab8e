use magic_modbus::enums::{
    AppMode, CellState, CellType, ConnectionStatus, ModbusCommandQueue, PopupType, SelectedBottomTab,
    SelectedTopTab,
};
use magic_modbus::macro_parser::IpAddress;
use magic_modbus::session::Session;
use magic_modbus::worker::{DeviceOp, ModbusError, OpOutcome, WorkerJob, WorkerReport};

fn connected_session() -> Session {
    let mut s = Session::new();
    assert!(!s.on_connect(IpAddress::V4(10, 0, 0, 5), 502));
    s
}

#[test]
fn transport_failure_mid_batch_keeps_cells_pending() {
    let mut s = connected_session();
    s.selected_top_tab = SelectedTopTab::HoldingRegisters;
    for a in [1u16, 2, 3] {
        s.queue_go_to_cell(SelectedTopTab::HoldingRegisters, a);
        assert!(s.table_queue_current_cell(a * 10));
    }
    let request = s.write_request().unwrap();
    let mut job = WorkerJob::new(request);
    assert_eq!(job.next_op(), Some(DeviceOp::WriteSingleRegister(1, 10)));
    assert_eq!(job.on_outcome(OpOutcome::Completed(vec![])), None);
    assert_eq!(job.next_op(), Some(DeviceOp::WriteSingleRegister(2, 20)));
    assert_eq!(job.on_outcome(OpOutcome::TransportFailed("reset".to_string())), None);
    assert_eq!(job.next_op(), None);
    let report = job.finish();
    assert_eq!(report, WorkerReport::Failed(ModbusError::ConnectionLost("reset".to_string())));
    s.handle_report(report);
    assert_eq!(s.connection_status, ConnectionStatus::NotConnected);
    assert_eq!(s.endpoint, None);
    assert_eq!(s.app_mode, AppMode::Popup(PopupType::Error("reset".to_string())));
    for a in [1u16, 2, 3] {
        let c = s.holding_registers.cell(a);
        assert_eq!(c.state, CellState::Queued);
        assert_eq!(c.original_content, CellType::Word(0));
    }
    assert_eq!(s.pending_items().len(), 3);
}

#[test]
fn successful_write_batch_confirms_cells() {
    let mut s = connected_session();
    s.queue_go_to_cell(SelectedTopTab::Coils, 4);
    assert!(s.table_toggle_current_cell());
    s.queue_go_to_cell(SelectedTopTab::HoldingRegisters, 9);
    assert!(s.table_queue_current_cell(77));
    let mut job = WorkerJob::new(s.write_request().unwrap());
    let mut ops = Vec::new();
    while let Some(op) = job.next_op() {
        ops.push(op);
        job.on_outcome(OpOutcome::Completed(vec![]));
    }
    assert_eq!(ops, vec![DeviceOp::WriteSingleCoil(4, true), DeviceOp::WriteSingleRegister(9, 77)]);
    let report = job.finish();
    s.handle_report(report);
    assert!(s.pending_items().is_empty());
    assert_eq!(s.coils.cell(4).original_content, CellType::Coil(true));
    assert_eq!(s.holding_registers.cell(9).original_content, CellType::Word(77));
    assert_eq!(s.connection_status, ConnectionStatus::Connected);
}

#[test]
fn rejected_write_stops_batch_and_keeps_connection() {
    let cmds = vec![
        (SelectedTopTab::Coils, 1, CellType::Coil(true)),
        (SelectedTopTab::Coils, 2, CellType::Coil(true)),
    ];
    let mut job = WorkerJob::new(ModbusCommandQueue::Write(cmds));
    assert_eq!(job.next_op(), Some(DeviceOp::WriteSingleCoil(1, true)));
    assert_eq!(job.on_outcome(OpOutcome::Rejected("illegal address".to_string())), None);
    assert_eq!(job.next_op(), None);
    let report = job.finish();
    assert_eq!(report, WorkerReport::Failed(ModbusError::ProtocolError("illegal address".to_string())));
    let mut s = connected_session();
    s.handle_report(report);
    assert_eq!(s.connection_status, ConnectionStatus::Connected);
    assert_eq!(s.app_mode, AppMode::Popup(PopupType::Error("illegal address".to_string())));
}

#[test]
fn write_batch_skips_read_only_commands() {
    let cmds = vec![
        (SelectedTopTab::InputRegisters, 1, CellType::Word(1)),
        (SelectedTopTab::HoldingRegisters, 2, CellType::Word(2)),
        (SelectedTopTab::DiscreteInputs, 3, CellType::Coil(true)),
    ];
    let mut job = WorkerJob::new(ModbusCommandQueue::Write(cmds));
    assert_eq!(job.next_op(), Some(DeviceOp::WriteSingleRegister(2, 2)));
    job.on_outcome(OpOutcome::Completed(vec![]));
    assert_eq!(job.next_op(), None);
    assert_eq!(
        job.finish(),
        WorkerReport::Written(vec![(SelectedTopTab::HoldingRegisters, 2, CellType::Word(2))])
    );
}

#[test]
fn read_batches_are_consolidated() {
    let request = ModbusCommandQueue::Read(vec![
        (SelectedTopTab::Coils, 0, 3),
        (SelectedTopTab::InputRegisters, 10, 2),
        (SelectedTopTab::HoldingRegisters, 65533, 5),
    ]);
    let mut job = WorkerJob::new(request);
    assert_eq!(job.next_op(), Some(DeviceOp::ReadCoils(0, 3)));
    assert_eq!(job.on_outcome(OpOutcome::Completed(vec![1, 0, 1])), None);
    assert_eq!(job.next_op(), Some(DeviceOp::ReadInputRegisters(10, 2)));
    assert_eq!(
        job.on_outcome(OpOutcome::Rejected("busy".to_string())),
        Some(ModbusError::ProtocolError("busy".to_string()))
    );
    assert_eq!(job.next_op(), Some(DeviceOp::ReadHoldingRegisters(65533, 5)));
    job.on_outcome(OpOutcome::Completed(vec![7, 8, 9, 10, 11]));
    assert_eq!(job.next_op(), None);
    let report = job.finish();
    let expected = vec![
        (SelectedTopTab::Coils, 0, CellType::Coil(true)),
        (SelectedTopTab::Coils, 1, CellType::Coil(false)),
        (SelectedTopTab::Coils, 2, CellType::Coil(true)),
        (SelectedTopTab::HoldingRegisters, 65533, CellType::Word(7)),
        (SelectedTopTab::HoldingRegisters, 65534, CellType::Word(8)),
    ];
    assert_eq!(report, WorkerReport::Updates(expected));
    let mut s = connected_session();
    s.queue_go_to_cell(SelectedTopTab::Coils, 1);
    assert!(s.table_toggle_current_cell());
    s.handle_report(report);
    assert_eq!(s.coils.cell(0).original_content, CellType::Coil(true));
    assert_eq!(s.coils.cell(0).state, CellState::Normal);
    let staged = s.coils.cell(1);
    assert_eq!(staged.original_content, CellType::Coil(false));
    assert_eq!(staged.queued_content, CellType::Coil(true));
    assert_eq!(staged.state, CellState::Queued);
    assert_eq!(s.holding_registers.read(65534), CellType::Word(8));
}

#[test]
fn transport_failure_during_read_reports_no_values() {
    let mut job = WorkerJob::new(ModbusCommandQueue::Read(vec![
        (SelectedTopTab::Coils, 0, 2),
        (SelectedTopTab::DiscreteInputs, 0, 2),
    ]));
    job.on_outcome(OpOutcome::Completed(vec![1, 1]));
    job.on_outcome(OpOutcome::TransportFailed("eof".to_string()));
    assert_eq!(job.next_op(), None);
    assert_eq!(job.finish(), WorkerReport::Failed(ModbusError::ConnectionLost("eof".to_string())));
}

#[test]
fn pending_set_ordered_by_space_then_address() {
    let mut s = connected_session();
    s.queue_go_to_cell(SelectedTopTab::HoldingRegisters, 50);
    assert!(s.table_queue_current_cell(1));
    s.queue_go_to_cell(SelectedTopTab::Coils, 900);
    assert!(s.table_toggle_current_cell());
    s.queue_go_to_cell(SelectedTopTab::HoldingRegisters, 2);
    assert!(s.table_queue_current_cell(5));
    s.queue_go_to_cell(SelectedTopTab::Coils, 3);
    assert!(s.table_toggle_current_cell());
    let items = s.pending_items();
    let keys: Vec<(usize, u16)> = items.iter().map(|i| (i.table_index, i.address)).collect();
    assert_eq!(keys, vec![(0, 3), (0, 900), (3, 2), (3, 50)]);
    let cmds = s.table_get_queued_commands();
    assert_eq!(
        cmds,
        vec![
            (SelectedTopTab::Coils, 3, CellType::Coil(true)),
            (SelectedTopTab::Coils, 900, CellType::Coil(true)),
            (SelectedTopTab::HoldingRegisters, 2, CellType::Word(5)),
            (SelectedTopTab::HoldingRegisters, 50, CellType::Word(1)),
        ]
    );
    s.revert_item(SelectedTopTab::Coils, 900);
    assert_eq!(s.pending_items().len(), 3);
}

#[test]
fn read_only_spaces_refuse_staging() {
    let mut s = connected_session();
    s.selected_top_tab = SelectedTopTab::InputRegisters;
    assert!(!s.table_queue_current_cell(5));
    assert!(!s.table_toggle_current_cell());
    s.selected_top_tab = SelectedTopTab::DiscreteInputs;
    assert!(!s.table_queue_current_cell(1));
    assert!(s.pending_items().is_empty());
}

#[test]
fn staging_a_word_on_coils_sets_the_bit() {
    let mut s = connected_session();
    assert!(s.table_queue_current_cell(2));
    assert_eq!(s.coils.read(0), CellType::Coil(true));
    assert!(s.table_queue_current_cell(0));
    assert_eq!(s.coils.cell(0).state, CellState::Normal);
    s.table_revert_current_cell();
    assert!(s.pending_items().is_empty());
}

#[test]
fn requests_need_a_connection() {
    let mut s = Session::new();
    assert_eq!(s.write_request(), None);
    assert_eq!(s.read_page_request(), None);
    assert!(!s.on_connect(IpAddress::V4(1, 1, 1, 1), 5020));
    assert!(s.on_connect(IpAddress::V4(1, 1, 1, 2), 5020));
    assert_eq!(s.endpoint, Some((IpAddress::V4(1, 1, 1, 2), 5020)));
    assert_eq!(s.write_request(), Some(ModbusCommandQueue::Write(vec![])));
    s.on_disconnect();
    assert_eq!(s.connection_status, ConnectionStatus::NotConnected);
    assert_eq!(s.write_request(), None);
}

#[test]
fn read_page_request_covers_the_page() {
    let mut s = connected_session();
    s.queue_go_to_cell(SelectedTopTab::Coils, 300);
    assert_eq!(
        s.read_page_request(),
        Some(ModbusCommandQueue::Read(vec![(SelectedTopTab::Coils, 256, 128)]))
    );
    s.queue_go_to_cell(SelectedTopTab::InputRegisters, 65500);
    assert_eq!(
        s.read_page_request(),
        Some(ModbusCommandQueue::Read(vec![(SelectedTopTab::InputRegisters, 65472, 63)]))
    );
}

#[test]
fn protocol_error_notice_keeps_connection() {
    let mut s = connected_session();
    s.handle_error(ModbusError::ProtocolError("exception".to_string()));
    assert_eq!(s.connection_status, ConnectionStatus::Connected);
    assert_eq!(s.app_mode, AppMode::Popup(PopupType::Error("exception".to_string())));
}

#[test]
fn tab_navigation_saturates() {
    assert_eq!(SelectedTopTab::Coils.previous(), SelectedTopTab::Coils);
    assert_eq!(SelectedTopTab::Coils.next(), SelectedTopTab::DiscreteInputs);
    assert_eq!(SelectedTopTab::HoldingRegisters.next(), SelectedTopTab::HoldingRegisters);
    assert_eq!(SelectedTopTab::HoldingRegisters.previous(), SelectedTopTab::InputRegisters);
    assert_eq!(SelectedBottomTab::Connection.next(), SelectedBottomTab::Queue);
    assert_eq!(SelectedBottomTab::Queue.next(), SelectedBottomTab::Queue);
    assert_eq!(SelectedBottomTab::Queue.previous(), SelectedBottomTab::Connection);
    let mut s = Session::new();
    s.previous_top_tab();
    assert_eq!(s.selected_top_tab, SelectedTopTab::Coils);
    s.next_top_tab();
    s.next_top_tab();
    assert_eq!(s.selected_top_tab, SelectedTopTab::InputRegisters);
}

#[test]
fn new_session_has_default_viewports() {
    let s = Session::new();
    for (t, cols) in [(&s.coils, 16), (&s.discrete_inputs, 16), (&s.input_registers, 8), (&s.holding_registers, 8)] {
        assert_eq!(t.table_rows, 8);
        assert_eq!(t.table_cols, cols);
        assert_eq!((t.page_offset, t.selected_row, t.selected_col), (0, 0, 0));
        assert!(t.data.is_empty());
    }
    assert_eq!(s.endpoint, None);
    assert_eq!(s.app_mode, AppMode::Main);
}
