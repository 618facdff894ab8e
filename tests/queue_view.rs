use magic_modbus::app_table::TableCell;
use magic_modbus::enums::{CellState, CellType, SelectedTopTab};
use magic_modbus::input::{parse_goto_address, parse_register_value, InputError};
use magic_modbus::queue::QueueItem;

fn item(space: SelectedTopTab, address: u16, original: CellType, queued: CellType) -> QueueItem {
    QueueItem {
        address,
        cell: TableCell {
            original_content: original,
            queued_content: queued,
            state: CellState::Queued,
            table_type: space,
        },
        table_index: 0,
    }
}

#[test]
fn memory_address_uses_space_prefix_and_hex() {
    let i = item(SelectedTopTab::Coils, 10, CellType::Coil(false), CellType::Coil(true));
    assert_eq!(i.memory_address(), "0x0000A");
    let i = item(SelectedTopTab::DiscreteInputs, 0xBEEF, CellType::Coil(false), CellType::Coil(true));
    assert_eq!(i.memory_address(), "0x1BEEF");
    let i = item(SelectedTopTab::InputRegisters, 0x0123, CellType::Word(0), CellType::Word(1));
    assert_eq!(i.memory_address(), "0x30123");
    let i = item(SelectedTopTab::HoldingRegisters, 65534, CellType::Word(0), CellType::Word(1));
    assert_eq!(i.memory_address(), "0x4FFFE");
}

#[test]
fn contents_are_five_decimal_digits() {
    let i = item(SelectedTopTab::HoldingRegisters, 1, CellType::Word(1234), CellType::Word(65535));
    assert_eq!(i.original_content(), "01234");
    assert_eq!(i.queued_content(), "65535");
    let i = item(SelectedTopTab::Coils, 1, CellType::Coil(false), CellType::Coil(true));
    assert_eq!(i.original_content(), "00000");
    assert_eq!(i.queued_content(), "00001");
}

#[test]
fn table_names() {
    let i = item(SelectedTopTab::DiscreteInputs, 1, CellType::Coil(false), CellType::Coil(true));
    assert_eq!(i.table_name(), "Discrete Inputs");
    assert_eq!(SelectedTopTab::HoldingRegisters.name(), "Holding Registers");
    assert_eq!(CellType::Coil(true).to_u16(), 1);
    assert_eq!(CellType::Word(77).to_u16(), 77);
}

#[test]
fn typed_numbers_are_validated() {
    assert_eq!(parse_register_value(b"1234"), Ok(1234));
    assert_eq!(parse_register_value(b"065535"), Ok(65535));
    assert_eq!(parse_register_value(b"65536"), Err(InputError::OutOfRange));
    assert_eq!(parse_register_value(b"99999999999"), Err(InputError::OutOfRange));
    assert_eq!(parse_register_value(b""), Err(InputError::Empty));
    assert_eq!(parse_register_value(b"12a"), Err(InputError::NotANumber));
    assert_eq!(parse_goto_address(b"1"), Ok(0));
    assert_eq!(parse_goto_address(b"65535"), Ok(65534));
    assert_eq!(parse_goto_address(b"0"), Err(InputError::OutOfRange));
    assert_eq!(parse_goto_address(b"-3"), Err(InputError::NotANumber));
}
