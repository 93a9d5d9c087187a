use zapf::proto::modbus::{ModbusProto, RegisterRead, CHUNK, MB_ADDR_FMT, MB_PORT};
use zapf::{Error, IoFailure, IoKind, ModbusFailure};

/// A device whose register `i` holds `0x100 * (i % 251) + (i % 7)`.
struct Device {
    reads: Vec<(u16, u16)>,
}

impl Device {
    fn register(i: usize) -> u16 {
        (0x100 * (i % 251) + (i % 7)) as u16
    }

    fn read_holding_registers(&mut self, addr: u16, count: u16) -> Vec<u16> {
        self.reads.push((addr, count));
        (0..count as usize).map(|k| Self::register(addr as usize + k)).collect()
    }
}

fn invalid(addr: &str) -> bool {
    matches!(ModbusProto::new(addr), Err(Error::InvalidAddress(f)) if f == MB_ADDR_FMT)
}

#[test]
fn modbus_address_with_port_and_slave() {
    let p = ModbusProto::new("modbus://127.0.0.1:5002/0").unwrap();
    assert_eq!(p.host(), "127.0.0.1");
    assert_eq!(p.port(), 5002);
    assert_eq!(p.slave(), 0);
    assert_eq!(p.offset(), 0);
    assert!(p.needs_connect());
}

#[test]
fn modbus_address_defaults() {
    assert_eq!(MB_PORT, 502);
    let p = ModbusProto::new("modbus://plc").unwrap();
    assert_eq!((p.host(), p.port(), p.slave()), ("plc", 502, 0));
    let q = ModbusProto::new("modbus://plc/17").unwrap();
    assert_eq!((q.host(), q.port(), q.slave()), ("plc", 502, 17));
    let r = ModbusProto::new("modbus://plc:1502").unwrap();
    assert_eq!((r.host(), r.port(), r.slave()), ("plc", 1502, 0));
    let s = ModbusProto::new("modbus://plc:1502/").unwrap();
    assert_eq!((s.host(), s.port(), s.slave()), ("plc", 1502, 0));
    let t = ModbusProto::new("modbus://plc:65535/255").unwrap();
    assert_eq!((t.host(), t.port(), t.slave()), ("plc", 65535, 255));
}

#[test]
fn modbus_malformed_addresses_are_invalid() {
    assert!(invalid("plc:502/1"));
    assert!(invalid("modbus://"));
    assert!(invalid(""));
    assert!(invalid("modbus://plc:65536"));
    assert!(invalid("modbus://plc:502/256"));
    assert!(invalid("modbus://plc/999"));
}

#[test]
fn modbus_port_must_be_a_number() {
    assert!(invalid("modbus://h:abc"));
    assert!(invalid("modbus://h:"));
    assert!(invalid("modbus://h:5x"));
    assert!(invalid("modbus://h:-5"));
    assert!(invalid("modbus://h:1:2"));
    assert!(invalid("modbus://[::1]:502"));
}

#[test]
fn modbus_takes_one_host_one_port_one_slave() {
    assert!(invalid("modbus://h:502/1/2"));
    assert!(invalid("modbus://h/1/2"));
    assert!(invalid("modbus://a/b"));
    assert!(invalid("modbus://h/x"));
    assert!(invalid("modbus:///1"));
    assert!(invalid("modbus://:502"));
    assert!(ModbusProto::new("modbus://h:502/1").is_ok());
}

#[test]
fn modbus_text_before_the_scheme_is_invalid() {
    assert!(invalid("xmodbus://h:502/1"));
    assert!(invalid(" modbus://h"));
    assert!(invalid("MODBUS://h"));
    assert!(invalid("ads://modbus://h"));
}

fn groups_of(texts: &[Option<&str>]) -> Option<Vec<Option<String>>> {
    Some(texts.iter().map(|t| t.map(|t| t.to_string())).collect())
}

#[test]
fn modbus_from_groups_reads_the_groups() {
    let addr = "modbus://h:+7";
    let p = ModbusProto::from_groups(addr, groups_of(&[Some(addr), Some("h"), Some("+7"), None]))
        .unwrap();
    assert_eq!((p.host(), p.port(), p.slave()), ("h", 7, 0));
    assert!(matches!(ModbusProto::from_groups(addr, None), Err(Error::InvalidAddress(_))));
    assert!(matches!(ModbusProto::from_groups(addr, Some(vec![])), Err(Error::InvalidAddress(_))));
    let no_host = groups_of(&[Some(addr), None, None, None]);
    assert!(matches!(ModbusProto::from_groups(addr, no_host), Err(Error::InvalidAddress(_))));
    let bad_slave = groups_of(&[Some(addr), Some("h"), None, Some("1x")]);
    assert!(matches!(ModbusProto::from_groups(addr, bad_slave), Err(Error::InvalidAddress(_))));
}

#[test]
fn modbus_from_groups_asks_for_a_match_of_the_whole_address() {
    let found = "modbus://h:502/1";
    let groups = || groups_of(&[Some(found), Some("h"), Some("502"), Some("1")]);
    assert!(ModbusProto::from_groups(found, groups()).is_ok());
    for addr in ["xmodbus://h:502/1", "modbus://h:502/1/2", "modbus://h:502/", ""] {
        assert!(matches!(ModbusProto::from_groups(addr, groups()), Err(Error::InvalidAddress(_))));
    }
    let other = "modbux://h:502/1";
    let same = groups_of(&[Some(other), Some("h"), Some("502"), Some("1")]);
    assert!(matches!(ModbusProto::from_groups(other, same), Err(Error::InvalidAddress(_))));
}

#[test]
fn modbus_from_groups_refuses_a_host_with_separators() {
    let addr = "modbus://h";
    for host in ["h:abc", "h:502/1", "a/b", "", ":", "/"] {
        let groups = groups_of(&[Some(addr), Some(host), None, None]);
        assert!(matches!(ModbusProto::from_groups(addr, groups), Err(Error::InvalidAddress(_))));
    }
}

#[test]
fn byte_addresses_become_register_indices() {
    let mut p = ModbusProto::new("modbus://plc").unwrap();
    assert_eq!(p.convert_addr(0), Ok(0));
    assert_eq!(p.convert_addr(1), Ok(0));
    assert_eq!(p.convert_addr(2), Ok(1));
    assert_eq!(p.convert_addr(0x1FFFF), Ok(0xFFFF));
    p.set_offset(0x6000);
    assert_eq!(p.offset(), 0x6000);
    assert_eq!(p.convert_addr(0), Ok(0x3000));
    assert_eq!(p.convert_addr(7), Ok(0x3003));
}

#[test]
fn addresses_beyond_the_registers_are_too_big() {
    let mut p = ModbusProto::new("modbus://plc").unwrap();
    let too_big = Err(Error::Modbus(ModbusFailure::AddressTooBig));
    assert_eq!(p.convert_addr(0x20000), too_big);
    assert_eq!(p.convert_addr(usize::MAX), too_big);
    p.set_offset(0x1FFFE);
    assert_eq!(p.convert_addr(1), Ok(0xFFFF));
    assert_eq!(p.convert_addr(2), too_big);
    p.set_offset(usize::MAX);
    assert_eq!(p.convert_addr(1), too_big);
    assert_eq!(p.convert_addr(usize::MAX), too_big);
}

#[test]
fn short_read_is_one_chunk() {
    let p = ModbusProto::new("modbus://plc").unwrap();
    assert_eq!(p.read_plan(10, 4), Ok(vec![RegisterRead { register: 5, count: 2, offset: 0 }]));
    assert_eq!(p.read_plan(10, 250), Ok(vec![RegisterRead { register: 5, count: 125, offset: 0 }]));
    assert_eq!(p.read_plan(10, 0), Ok(vec![]));
}

#[test]
fn long_read_is_split_at_250_bytes() {
    assert_eq!(CHUNK, 250);
    let mut p = ModbusProto::new("modbus://plc").unwrap();
    p.set_offset(0x6000);
    assert_eq!(
        p.read_plan(4, 252),
        Ok(vec![
            RegisterRead { register: 0x3002, count: 125, offset: 0 },
            RegisterRead { register: 0x3002 + 125, count: 1, offset: 250 },
        ])
    );
    assert_eq!(
        p.read_plan(0, 600),
        Ok(vec![
            RegisterRead { register: 0x3000, count: 125, offset: 0 },
            RegisterRead { register: 0x3000 + 125, count: 125, offset: 250 },
            RegisterRead { register: 0x3000 + 250, count: 50, offset: 500 },
        ])
    );
    assert_eq!(p.read_plan(0, 500).unwrap().len(), 2);
}

#[test]
fn chunked_read_equals_one_read_of_the_range() {
    let mut p = ModbusProto::new("modbus://plc").unwrap();
    p.set_offset(0x8000);
    let mut device = Device { reads: vec![] };
    let mut data = vec![0u8; 1234];
    let plan = p.read_plan(6, data.len()).unwrap();
    for chunk in &plan {
        let regs = device.read_holding_registers(chunk.register, chunk.count);
        assert_eq!(ModbusProto::store_registers(&mut data, chunk, &regs), Ok(()));
    }
    assert_eq!(
        device.reads,
        vec![(0x4003, 125), (0x4003 + 125, 125), (0x4003 + 250, 125), (0x4003 + 375, 125), (0x4003 + 500, 117)]
    );
    let mut whole = Device { reads: vec![] };
    let all = whole.read_holding_registers(0x4003, 617);
    let mut expected = Vec::new();
    for reg in all {
        expected.push(reg as u8);
        expected.push((reg >> 8) as u8);
    }
    assert_eq!(data, expected);
}

#[test]
fn read_plan_refusals_come_in_order() {
    let p = ModbusProto::new("modbus://plc").unwrap();
    assert_eq!(p.read_plan(0x20000, 3), Err(Error::Modbus(ModbusFailure::AddressTooBig)));
    assert_eq!(p.read_plan(0, 3), Err(Error::Modbus(ModbusFailure::OddLength)));
    assert_eq!(p.read_plan(0, 1), Err(Error::Modbus(ModbusFailure::OddLength)));
    assert_eq!(p.read_plan(0x1FFFE, 4), Err(Error::Modbus(ModbusFailure::AddressTooBig)));
    assert_eq!(
        p.read_plan(0x1FFFE, 2),
        Ok(vec![RegisterRead { register: 0xFFFF, count: 1, offset: 0 }])
    );
    assert_eq!(p.read_plan(0, 0x20000).unwrap().len(), 525);
    assert_eq!(p.read_plan(0, 0x20002), Err(Error::Modbus(ModbusFailure::AddressTooBig)));
    assert_eq!(p.read_plan(2, 0x20000), Err(Error::Modbus(ModbusFailure::AddressTooBig)));
}

#[test]
fn registers_are_stored_low_byte_first() {
    let mut data = [0xEEu8; 8];
    let chunk = RegisterRead { register: 0, count: 2, offset: 2 };
    assert_eq!(ModbusProto::store_registers(&mut data, &chunk, &[0x1234, 0xABCD]), Ok(()));
    assert_eq!(data, [0xEE, 0xEE, 0x34, 0x12, 0xCD, 0xAB, 0xEE, 0xEE]);
}

#[test]
fn registers_that_do_not_fit_the_read_are_refused() {
    let mut data = [0xEEu8; 4];
    let wrong = Err(Error::Modbus(ModbusFailure::UnexpectedReplySize));
    let chunk = RegisterRead { register: 0, count: 2, offset: 0 };
    assert_eq!(ModbusProto::store_registers(&mut data, &chunk, &[1]), wrong);
    assert_eq!(ModbusProto::store_registers(&mut data, &chunk, &[1, 2, 3]), wrong);
    let beyond = RegisterRead { register: 0, count: 2, offset: 2 };
    assert_eq!(ModbusProto::store_registers(&mut data, &beyond, &[1, 2]), wrong);
    let far = RegisterRead { register: 0, count: 0, offset: 5 };
    assert_eq!(ModbusProto::store_registers(&mut data, &far, &[]), wrong);
    assert_eq!(data, [0xEE; 4]);
    let end = RegisterRead { register: 0, count: 0, offset: 4 };
    assert_eq!(ModbusProto::store_registers(&mut data, &end, &[]), Ok(()));
}

#[test]
fn write_packs_byte_pairs_low_byte_first() {
    let mut p = ModbusProto::new("modbus://plc").unwrap();
    p.set_offset(0x6000);
    assert_eq!(p.write_plan(4, &[0x34, 0x12, 0xCD, 0xAB]), Ok((0x3002, vec![0x1234, 0xABCD])));
    assert_eq!(p.write_plan(4, &[]), Ok((0x3002, vec![])));
    assert_eq!(p.write_plan(4, &[1, 2, 3]), Err(Error::Modbus(ModbusFailure::OddLength)));
    assert_eq!(p.write_plan(0x20000, &[1, 2]), Err(Error::Modbus(ModbusFailure::AddressTooBig)));
    p.set_offset(0);
    assert_eq!(p.write_plan(0x1FFFE, &[1, 2]), Ok((0xFFFF, vec![0x0201])));
    assert_eq!(p.write_plan(0x1FFFE, &[1, 2, 3, 4]), Err(Error::Modbus(ModbusFailure::AddressTooBig)));
}

#[test]
fn transport_failure_disconnects_and_is_annotated() {
    let mut p = ModbusProto::new("modbus://plc").unwrap();
    p.connected();
    assert!(!p.needs_connect());
    let io = ModbusFailure::Io(IoFailure { kind: IoKind::TimedOut, detail: "timed out".to_string() });
    let e = p.failed(io.clone(), "read");
    assert_eq!(e, Error::Wrapped(Box::new(Error::Modbus(io)), "read"));
    assert!(p.needs_connect());
}

#[test]
fn other_failure_keeps_the_session() {
    let mut p = ModbusProto::new("modbus://plc").unwrap();
    p.connected();
    let e = p.failed(ModbusFailure::Device("modbus exception: IllegalDataAddress".to_string()), "write");
    assert_eq!(e, Error::Modbus(ModbusFailure::Device("modbus exception: IllegalDataAddress".to_string())));
    assert!(!p.needs_connect());
    p.disconnect();
    assert!(p.needs_connect());
}

#[test]
fn modbus_probe_offsets() {
    assert_eq!(ModbusProto::get_offsets(), &[0, 0x6000, 0x8000]);
}
