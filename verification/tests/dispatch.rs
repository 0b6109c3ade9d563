use modbus_slave::handler::{handle_request, Request, Response, SlaveRequest, UpdatePayload};
use modbus_slave::store::{DataArea, ExceptionCode, ModbusStore};

fn served(req: Request) -> SlaveRequest {
    SlaveRequest { slave: 1, request: req }
}

#[test]
fn read_requests_return_the_requested_ranges() {
    let mut store = ModbusStore::new(16);
    store.coils[2] = true;
    store.discrete_inputs[0] = true;
    store.input_registers[5] = 123;
    store.holding_registers[9] = 456;

    let (r, upd) = handle_request(&mut store, 0, served(Request::ReadCoils(1, 3)));
    assert_eq!(r, Ok(Some(Response::ReadCoils(vec![false, true, false]))));
    assert!(upd.is_none());

    let (r, _) = handle_request(&mut store, 0, served(Request::ReadDiscreteInputs(0, 2)));
    assert_eq!(r, Ok(Some(Response::ReadDiscreteInputs(vec![true, false]))));

    let (r, _) = handle_request(&mut store, 0, served(Request::ReadInputRegisters(4, 3)));
    assert_eq!(r, Ok(Some(Response::ReadInputRegisters(vec![0, 123, 0]))));

    let (r, _) = handle_request(&mut store, 0, served(Request::ReadHoldingRegisters(9, 1)));
    assert_eq!(r, Ok(Some(Response::ReadHoldingRegisters(vec![456]))));
}

#[test]
fn writes_mutate_store_echo_and_notify() {
    let mut store = ModbusStore::new(16);

    let (r, upd) = handle_request(&mut store, 0, served(Request::WriteSingleCoil(3, true)));
    assert_eq!(r, Ok(Some(Response::WriteSingleCoil(3, true))));
    assert!(store.coils[3]);
    assert_eq!(
        upd,
        Some(UpdatePayload { area: DataArea::Coils, offset: 3, values: vec![1] })
    );

    let (r, upd) = handle_request(
        &mut store,
        0,
        served(Request::WriteMultipleCoils(4, vec![true, false, true])),
    );
    assert_eq!(r, Ok(Some(Response::WriteMultipleCoils(4, 3))));
    assert_eq!(&store.coils[4..7], &[true, false, true]);
    assert_eq!(
        upd,
        Some(UpdatePayload { area: DataArea::Coils, offset: 4, values: vec![1, 0, 1] })
    );

    let (r, upd) = handle_request(&mut store, 0, served(Request::WriteSingleRegister(7, 99)));
    assert_eq!(r, Ok(Some(Response::WriteSingleRegister(7, 99))));
    assert_eq!(store.holding_registers[7], 99);
    assert_eq!(
        upd,
        Some(UpdatePayload {
            area: DataArea::HoldingRegisters,
            offset: 7,
            values: vec![99],
        })
    );

    let (r, upd) = handle_request(
        &mut store,
        0,
        served(Request::WriteMultipleRegisters(8, vec![11, 22])),
    );
    assert_eq!(r, Ok(Some(Response::WriteMultipleRegisters(8, 2))));
    assert_eq!(&store.holding_registers[8..10], &[11, 22]);
    assert_eq!(
        upd,
        Some(UpdatePayload {
            area: DataArea::HoldingRegisters,
            offset: 8,
            values: vec![11, 22],
        })
    );
}

#[test]
fn mask_write_applies_and_then_or() {
    // current = 0b1010, andMask = 0b1100, orMask = 0b0001:
    // (0b1010 & 0b1100) | 0b0001 == 0b1001.
    let mut store = ModbusStore::new(4);
    store.holding_registers[2] = 0b1010;
    let (r, upd) = handle_request(
        &mut store,
        0,
        served(Request::MaskWriteRegister(2, 0b1100, 0b0001)),
    );
    assert_eq!(r, Ok(Some(Response::MaskWriteRegister(2, 0b1100, 0b0001))));
    assert_eq!(store.holding_registers[2], 0b1001);
    assert_eq!(
        upd,
        Some(UpdatePayload {
            area: DataArea::HoldingRegisters,
            offset: 2,
            values: vec![0b1001],
        })
    );
}

#[test]
fn read_write_multiple_registers_reads_after_writing() {
    // Overlapping read and write ranges: the read observes the new values.
    let mut store = ModbusStore::new(8);
    store.holding_registers[0] = 1;
    store.holding_registers[1] = 2;
    store.holding_registers[2] = 3;
    let (r, upd) = handle_request(
        &mut store,
        0,
        served(Request::ReadWriteMultipleRegisters(0, 3, 1, vec![70, 80])),
    );
    assert_eq!(
        r,
        Ok(Some(Response::ReadWriteMultipleRegisters(vec![1, 70, 80])))
    );
    assert_eq!(&store.holding_registers[0..3], &[1, 70, 80]);
    assert_eq!(
        upd,
        Some(UpdatePayload {
            area: DataArea::HoldingRegisters,
            offset: 1,
            values: vec![70, 80],
        })
    );
}

#[test]
fn read_write_multiple_registers_write_applies_even_if_read_fails() {
    let mut store = ModbusStore::new(4);
    let (r, upd) = handle_request(
        &mut store,
        0,
        served(Request::ReadWriteMultipleRegisters(3, 2, 0, vec![5])),
    );
    assert_eq!(r, Err(ExceptionCode::IllegalDataAddress));
    assert_eq!(store.holding_registers[0], 5);
    assert!(upd.is_some());
}

#[test]
fn out_of_range_requests_yield_illegal_data_address() {
    let mut store = ModbusStore::new(4);
    let cases = vec![
        Request::ReadCoils(3, 2),
        Request::ReadDiscreteInputs(4, 1),
        Request::ReadInputRegisters(0, 5),
        Request::ReadHoldingRegisters(65535, 65535),
        Request::WriteSingleCoil(4, true),
        Request::WriteMultipleCoils(2, vec![true, true, true]),
        Request::WriteSingleRegister(4, 1),
        Request::WriteMultipleRegisters(3, vec![1, 2]),
        Request::MaskWriteRegister(4, 0, 0),
        Request::ReadWriteMultipleRegisters(0, 1, 3, vec![1, 2]),
    ];
    for req in cases {
        let (r, upd) = handle_request(&mut store, 0, served(req));
        assert_eq!(r, Err(ExceptionCode::IllegalDataAddress));
        assert!(upd.is_none());
        assert!(store.coils.iter().all(|b| !*b));
        assert!(store.holding_registers.iter().all(|w| *w == 0));
    }
}

#[test]
fn unit_id_mismatch_is_silently_ignored() {
    let mut store = ModbusStore::new(4);
    let (r, upd) = handle_request(
        &mut store,
        9,
        SlaveRequest { slave: 3, request: Request::WriteSingleRegister(0, 42) },
    );
    assert_eq!(r, Ok(None));
    assert!(upd.is_none());
    assert_eq!(store.holding_registers[0], 0);
}

#[test]
fn unit_id_zero_accepts_every_request() {
    let mut store = ModbusStore::new(4);
    for slave in [0u8, 3, 255] {
        let (r, _) = handle_request(
            &mut store,
            0,
            SlaveRequest { slave, request: Request::ReadCoils(0, 1) },
        );
        assert_eq!(r, Ok(Some(Response::ReadCoils(vec![false]))));
    }
}

#[test]
fn matching_unit_id_is_served() {
    let mut store = ModbusStore::new(4);
    let (r, _) = handle_request(
        &mut store,
        9,
        SlaveRequest { slave: 9, request: Request::ReadCoils(0, 1) },
    );
    assert_eq!(r, Ok(Some(Response::ReadCoils(vec![false]))));
}

#[test]
fn unsupported_functions_yield_illegal_function() {
    let mut store = ModbusStore::new(4);
    let cases = vec![
        Request::ReportServerId,
        Request::ReadDeviceIdentification(1, 0),
        Request::Custom(0x41, vec![1, 2, 3]),
    ];
    for req in cases {
        let (r, upd) = handle_request(&mut store, 0, served(req));
        assert_eq!(r, Err(ExceptionCode::IllegalFunction));
        assert!(upd.is_none());
    }
}

#[test]
fn unsupported_function_with_mismatched_unit_id_is_ignored() {
    // The unit-id filter is checked before dispatch, so even an unsupported
    // function addressed to another unit gets no response.
    let mut store = ModbusStore::new(4);
    let (r, upd) = handle_request(
        &mut store,
        5,
        SlaveRequest { slave: 6, request: Request::ReportServerId },
    );
    assert_eq!(r, Ok(None));
    assert!(upd.is_none());
}
