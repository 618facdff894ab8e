use magic_modbus::enums::{CellType, SelectedTopTab};
use magic_modbus::macro_parser::{replay_mode, IpAddress, MagModCommandList, ReplayMode};
use magic_modbus::utils::{BufReader, CodecError};
use magic_modbus::worker::DeviceOp;

fn sample_macro() -> MagModCommandList {
    MagModCommandList::new(
        IpAddress::V4(10, 0, 0, 5),
        502,
        vec![
            (SelectedTopTab::Coils, 5, CellType::Coil(true)),
            (SelectedTopTab::HoldingRegisters, 100, CellType::Word(1234)),
        ],
    )
}

#[test]
fn encode_layout_of_two_commands() {
    let m = sample_macro();
    let bytes = m.to_bytes();
    assert_eq!(&bytes[0..6], b"MAGMOD");
    assert_eq!(bytes[6], 4);
    assert_eq!(&bytes[7..11], &[10, 0, 0, 5]);
    assert_eq!(&bytes[11..13], &[0x01, 0xF6]);
    assert_eq!(&bytes[13..17], &[0, 0, 0, 2]);
    assert_eq!(bytes.len(), 17 + 10);
    assert_eq!(&bytes[17..22], &[5, 0, 5, 0xFF, 0x00]);
    assert_eq!(&bytes[22..27], &[6, 0, 100, 0x04, 0xD2]);
    let decoded = MagModCommandList::from_bytes(&bytes).unwrap();
    assert_eq!(decoded, m);
}

#[test]
fn round_trip_ipv6_and_many_commands() {
    let mut cmds = Vec::new();
    for i in 0..300u16 {
        if i % 2 == 0 {
            cmds.push((SelectedTopTab::Coils, i, CellType::Coil(i % 4 == 0)));
        } else {
            cmds.push((SelectedTopTab::HoldingRegisters, 65534 - i, CellType::Word(i.wrapping_mul(257))));
        }
    }
    let m = MagModCommandList::new(
        IpAddress::V6(0xfe80, 0, 0, 0, 0x1234, 0xabcd, 0xffff, 1),
        65535,
        cmds,
    );
    let bytes = m.to_bytes();
    assert_eq!(bytes[6], 6);
    assert_eq!(bytes.len(), 6 + 17 + 2 + 4 + 300 * 5);
    let decoded = MagModCommandList::from_bytes(&bytes).unwrap();
    assert_eq!(decoded, m);
    assert_eq!(decoded.command_count(), 300);
    assert_eq!(decoded.port(), 65535);
    assert_eq!(decoded.ip_addr(), IpAddress::V6(0xfe80, 0, 0, 0, 0x1234, 0xabcd, 0xffff, 1));
}

#[test]
fn empty_command_list_round_trips() {
    let m = MagModCommandList::new(IpAddress::V4(127, 0, 0, 1), 1, vec![]);
    let bytes = m.to_bytes();
    assert_eq!(bytes.len(), 17);
    assert_eq!(MagModCommandList::from_bytes(&bytes).unwrap(), m);
}

#[test]
fn encode_skips_commands_of_read_only_spaces() {
    let m = MagModCommandList::new(
        IpAddress::V4(1, 2, 3, 4),
        502,
        vec![
            (SelectedTopTab::InputRegisters, 1, CellType::Word(3)),
            (SelectedTopTab::Coils, 2, CellType::Coil(false)),
            (SelectedTopTab::DiscreteInputs, 3, CellType::Coil(true)),
        ],
    );
    let bytes = m.to_bytes();
    assert_eq!(&bytes[13..17], &[0, 0, 0, 1]);
    assert_eq!(&bytes[17..], &[5, 0, 2, 0, 0]);
    let decoded = MagModCommandList::from_bytes(&bytes).unwrap();
    assert_eq!(decoded.commands(), &vec![(SelectedTopTab::Coils, 2, CellType::Coil(false))]);
}

#[test]
fn bad_magic_is_rejected() {
    let mut bytes = sample_macro().to_bytes();
    bytes[0] = b'X';
    assert_eq!(MagModCommandList::from_bytes(&bytes), Err(CodecError::BadMagic));
    assert_eq!(MagModCommandList::from_bytes(b"NOTMAGIC"), Err(CodecError::BadMagic));
}

#[test]
fn short_files_are_truncated() {
    assert_eq!(MagModCommandList::from_bytes(b""), Err(CodecError::Truncated));
    assert_eq!(MagModCommandList::from_bytes(b"MAG"), Err(CodecError::Truncated));
    assert_eq!(MagModCommandList::from_bytes(b"MAGMOD"), Err(CodecError::Truncated));
    let bytes = sample_macro().to_bytes();
    for n in [7usize, 10, 12, 16, 18, 21, 26] {
        assert_eq!(MagModCommandList::from_bytes(&bytes[..n]), Err(CodecError::Truncated));
    }
}

#[test]
fn unknown_ip_version_is_rejected() {
    let mut bytes = sample_macro().to_bytes();
    bytes[6] = 5;
    assert_eq!(MagModCommandList::from_bytes(&bytes), Err(CodecError::UnknownIpVersion(5)));
}

#[test]
fn unknown_function_code_is_rejected() {
    let mut bytes = sample_macro().to_bytes();
    bytes[22] = 3;
    assert_eq!(MagModCommandList::from_bytes(&bytes), Err(CodecError::UnknownFunctionCode(3)));
}

#[test]
fn invalid_coil_value_is_rejected() {
    let mut bytes = sample_macro().to_bytes();
    bytes[21] = 0x01;
    assert_eq!(MagModCommandList::from_bytes(&bytes), Err(CodecError::InvalidCoilValue(0xFF01)));
}

#[test]
fn trailing_bytes_are_ignored() {
    let m = sample_macro();
    let mut bytes = m.to_bytes();
    bytes.extend_from_slice(&[9, 9, 9]);
    assert_eq!(MagModCommandList::from_bytes(&bytes).unwrap(), m);
}

#[test]
fn set_endpoint_keeps_commands() {
    let mut m = sample_macro();
    m.set_endpoint(IpAddress::V4(192, 168, 1, 2), 1502);
    assert_eq!(m.ip_addr(), IpAddress::V4(192, 168, 1, 2));
    assert_eq!(m.port(), 1502);
    assert_eq!(m.commands().len(), 2);
}

#[test]
fn replay_modes() {
    assert_eq!(replay_mode(true, false), Some(ReplayMode::CheckConnection));
    assert_eq!(replay_mode(false, true), Some(ReplayMode::DryRun));
    assert_eq!(replay_mode(false, false), Some(ReplayMode::Execute));
    assert_eq!(replay_mode(true, true), None);
}

#[test]
fn replay_ops_follow_file_order() {
    let ops = sample_macro().replay_ops();
    assert_eq!(ops, vec![DeviceOp::WriteSingleCoil(5, true), DeviceOp::WriteSingleRegister(100, 1234)]);
}

#[test]
fn buf_reader_reads_big_endian() {
    let data = [1u8, 2, 3, 4, 5, 6, 7, 8, 9];
    let mut r = BufReader::new(&data);
    assert_eq!(r.read_u8(), Ok(1));
    assert_eq!(r.read_u16(), Ok(0x0203));
    assert_eq!(r.read_u32(), Ok(0x04050607));
    assert_eq!(r.read_exact(3), Err(CodecError::Truncated));
    assert_eq!(r.read_exact(2), Ok(vec![8, 9]));
    assert_eq!(r.read_u8(), Err(CodecError::Truncated));
}
