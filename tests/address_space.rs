use magic_modbus::app_table::{AppTable, TableCell};
use magic_modbus::enums::{CellState, CellType, SelectedTopTab};

fn cursor(t: &AppTable) -> (usize, usize, usize) {
    (t.page_offset, t.selected_row, t.selected_col)
}

#[test]
fn address_and_cursor_are_inverse() {
    let mut t = AppTable::new(SelectedTopTab::Coils);
    for (rows, cols) in [(1usize, 1usize), (8, 16), (8, 8), (3, 7), (255, 255), (1, 65535), (65535, 2)] {
        t.resize(rows, cols);
        for a in [0usize, 1, 7, 127, 128, 1000, 65533, 65534] {
            let (p, r, c) = t.index_to_cell(a);
            assert!(r < rows && c < cols);
            assert_eq!(t.cell_to_index(p, r, c), a);
        }
    }
}

#[test]
fn index_to_cell_exact_values() {
    let t = AppTable::new(SelectedTopTab::Coils);
    assert_eq!(t.page_size(), 128);
    assert_eq!(t.index_to_cell(0), (0, 0, 0));
    assert_eq!(t.index_to_cell(17), (0, 1, 1));
    assert_eq!(t.index_to_cell(130), (1, 0, 2));
    assert_eq!(t.last_cell(), (511, 7, 14));
    assert_eq!(t.cell_to_index(511, 7, 14), 65534);
}

#[test]
fn stage_then_apply_coil() {
    let mut t = AppTable::new(SelectedTopTab::Coils);
    assert_eq!(t.read(10), CellType::Coil(false));
    t.stage_write(10, CellType::Coil(true));
    let c = t.cell(10);
    assert_eq!(c.state, CellState::Queued);
    assert_eq!(c.queued_content, CellType::Coil(true));
    assert_eq!(c.original_content, CellType::Coil(false));
    assert_eq!(t.read(10), CellType::Coil(true));
    t.apply(10);
    let c = t.cell(10);
    assert_eq!(c.original_content, CellType::Coil(true));
    assert_eq!(c.state, CellState::Normal);
}

#[test]
fn stage_apply_twice_leaves_one_clean_cell() {
    let mut t = AppTable::new(SelectedTopTab::HoldingRegisters);
    for _ in 0..2 {
        t.stage_write(100, CellType::Word(1234));
        t.apply(100);
    }
    assert_eq!(t.data.len(), 1);
    let c = t.cell(100);
    assert_eq!(c.original_content, CellType::Word(1234));
    assert_eq!(c.queued_content, CellType::Word(1234));
    assert_eq!(c.state, CellState::Normal);
    assert!(t.get_queue_items().is_empty());
}

#[test]
fn revert_after_stage_restores_original() {
    let mut t = AppTable::new(SelectedTopTab::HoldingRegisters);
    t.set_cell(7, CellType::Word(42));
    t.stage_write(7, CellType::Word(9));
    assert_eq!(t.cell(7).state, CellState::Queued);
    t.revert(7);
    let c = t.cell(7);
    assert_eq!(c.queued_content, CellType::Word(42));
    assert_eq!(c.original_content, CellType::Word(42));
    assert_eq!(c.state, CellState::Normal);
}

#[test]
fn staging_the_original_value_is_clean() {
    let mut t = AppTable::new(SelectedTopTab::Coils);
    t.stage_write(3, CellType::Coil(false));
    assert_eq!(t.cell(3).state, CellState::Normal);
    t.stage_write(3, CellType::Coil(true));
    t.stage_write(3, CellType::Coil(true));
    assert_eq!(t.cell(3).state, CellState::Queued);
    t.stage_write(3, CellType::Coil(false));
    assert_eq!(t.cell(3).state, CellState::Normal);
}

#[test]
fn toggle_flips_bits_only() {
    let mut t = AppTable::new(SelectedTopTab::Coils);
    t.go_to_cell(5);
    t.toggle_current_coil();
    assert_eq!(t.read(5), CellType::Coil(true));
    assert_eq!(t.cell(5).state, CellState::Queued);
    t.toggle_current_coil();
    assert_eq!(t.cell(5).state, CellState::Normal);
    let mut w = AppTable::new(SelectedTopTab::InputRegisters);
    w.toggle(5);
    assert!(w.data.is_empty());
}

#[test]
fn device_value_keeps_staged_value() {
    let mut t = AppTable::new(SelectedTopTab::HoldingRegisters);
    t.stage_write(1, CellType::Word(5));
    t.set_cell(1, CellType::Word(3));
    let c = t.cell(1);
    assert_eq!(c.original_content, CellType::Word(3));
    assert_eq!(c.queued_content, CellType::Word(5));
    assert_eq!(c.state, CellState::Queued);
    t.set_cell(1, CellType::Word(5));
    assert_eq!(t.cell(1).state, CellState::Normal);
    t.set_cell(2, CellType::Word(8));
    assert_eq!(t.read(2), CellType::Word(8));
    assert_eq!(t.cell(2).state, CellState::Normal);
}

#[test]
fn pending_items_sorted_by_address() {
    let mut t = AppTable::new(SelectedTopTab::HoldingRegisters);
    for a in [500u16, 3, 77, 65534, 0, 12] {
        t.stage_write(a, CellType::Word(a + 1));
    }
    t.stage_write(77, CellType::Word(0));
    let items = t.get_queue_items();
    let addrs: Vec<u16> = items.iter().map(|i| i.address).collect();
    assert_eq!(addrs, vec![0, 3, 12, 500, 65534]);
    assert!(items.iter().all(|i| i.table_index == 3));
}

#[test]
fn untouched_cell_is_zero() {
    let c = TableCell::new(SelectedTopTab::InputRegisters);
    assert_eq!(c.original_content, CellType::Word(0));
    assert_eq!(c.value(), CellType::Word(0));
    let t = AppTable::new(SelectedTopTab::DiscreteInputs);
    assert_eq!(t.read(65534), CellType::Coil(false));
}

#[test]
fn visible_data_covers_range() {
    let mut t = AppTable::new(SelectedTopTab::Coils);
    t.stage_write(2, CellType::Coil(true));
    let v = t.get_visible_data(0, 3);
    assert_eq!(v.len(), 4);
    assert_eq!(v[2].queued_content, CellType::Coil(true));
    assert_eq!(v[3].queued_content, CellType::Coil(false));
}

#[test]
fn move_right_wraps_within_row() {
    let mut t = AppTable::new(SelectedTopTab::Coils);
    t.move_right();
    assert_eq!(cursor(&t), (0, 0, 1));
    assert_eq!(t.table_address, 1);
    for _ in 0..15 {
        t.move_right();
    }
    assert_eq!(cursor(&t), (0, 0, 0));
}

#[test]
fn move_left_wraps_and_clamps() {
    let mut t = AppTable::new(SelectedTopTab::Coils);
    t.move_left();
    assert_eq!(cursor(&t), (0, 0, 15));
    t.go_to_cell(65520);
    assert_eq!(cursor(&t), (511, 7, 0));
    t.move_left();
    assert_eq!(cursor(&t), (511, 7, 14));
    assert_eq!(t.table_address, 65534);
    t.move_right();
    assert_eq!(cursor(&t), (0, 0, 0));
    assert_eq!(t.table_address, 0);
}

#[test]
fn move_up_rolls_to_previous_page() {
    let mut t = AppTable::new(SelectedTopTab::HoldingRegisters);
    t.go_to_cell(64 + 8 + 3);
    assert_eq!(cursor(&t), (1, 1, 3));
    t.move_up();
    assert_eq!(cursor(&t), (1, 0, 3));
    t.move_up();
    assert_eq!(cursor(&t), (0, 7, 3));
    assert_eq!(t.table_address, 59);
    t.go_to_cell(7);
    t.move_up();
    // last page holds addresses 65472..=65534: row 7 is partly past the end
    assert_eq!(cursor(&t), (1023, 7, 6));
    assert_eq!(t.table_address, 65534);
}

#[test]
fn move_down_rolls_to_next_page_and_wraps() {
    let mut t = AppTable::new(SelectedTopTab::HoldingRegisters);
    t.go_to_cell(56 + 2);
    t.move_down();
    assert_eq!(cursor(&t), (1, 0, 2));
    assert_eq!(t.table_address, 66);
    t.go_to_cell(65534);
    t.move_down();
    assert_eq!(cursor(&t), (0, 0, 0));
    assert_eq!(t.table_address, 0);
    t.go_to_cell(65472 + 48 + 6);
    t.move_down();
    assert_eq!(cursor(&t), (1023, 7, 6));
    assert_eq!(t.table_address, 65534);
    t.go_to_cell(65472 + 48 + 7);
    t.move_down();
    assert_eq!(cursor(&t), (0, 0, 0));
    let mut c = AppTable::new(SelectedTopTab::Coils);
    c.go_to_cell(65519);
    assert_eq!(cursor(&c), (511, 6, 15));
    c.move_down();
    assert_eq!(cursor(&c), (0, 0, 0));
    assert_eq!(c.table_address, 0);
}

#[test]
fn page_up_and_down_roll_over() {
    let mut t = AppTable::new(SelectedTopTab::Coils);
    t.go_to_cell(16 * 7 + 15);
    t.page_up();
    assert_eq!(cursor(&t), (511, 7, 14));
    assert_eq!(t.table_address, 65534);
    t.page_down();
    assert_eq!(cursor(&t), (0, 7, 14));
    t.page_down();
    assert_eq!(cursor(&t), (1, 7, 14));
    assert_eq!(t.table_address, 128 + 126);
}

#[test]
fn resize_keeps_address() {
    let mut t = AppTable::new(SelectedTopTab::Coils);
    t.go_to_cell(1000);
    t.resize(4, 10);
    assert_eq!(t.table_address, 1000);
    assert_eq!(cursor(&t), (25, 0, 0));
    t.resize(1, 1);
    assert_eq!(cursor(&t), (1000, 0, 0));
}

#[test]
fn table_cell_transitions() {
    let mut c = TableCell::new(SelectedTopTab::Coils);
    assert_eq!(c.state, CellState::Normal);
    c.queue(CellType::Coil(true));
    assert_eq!(c.state, CellState::Queued);
    c.revert();
    assert_eq!(c.queued_content, CellType::Coil(false));
    assert_eq!(c.state, CellState::Normal);
    c.toggle();
    assert_eq!(c.queued_content, CellType::Coil(true));
    c.apply();
    assert_eq!(c.original_content, CellType::Coil(true));
    assert_eq!(c.state, CellState::Normal);
    c.set(CellType::Coil(false));
    assert_eq!(c.value(), CellType::Coil(false));
    let mut w = TableCell::new(SelectedTopTab::HoldingRegisters);
    w.toggle();
    assert_eq!(w, TableCell::new(SelectedTopTab::HoldingRegisters));
}
