//! The request dispatcher: maps one decoded request and a unit-id filter
//! onto store operations, producing a response or a protocol exception and
//! a change notification for every successful write.

use vstd::prelude::*;

use crate::store::{
    bool_word, bools_to_u16, encode_bools, overwritten, read_single_u16, same_contents, slice_bool,
    slice_u16, write_bool, write_bools, write_u16, write_u16s, DataArea, ExceptionCode,
    ModbusStore,
};

verus! {

/// One decoded Modbus request, as the wire codec hands it over: plain
/// addresses, quantities and values.
#[derive(Clone, Debug, PartialEq)]
pub enum Request {
    ReadCoils(u16, u16),
    ReadDiscreteInputs(u16, u16),
    ReadInputRegisters(u16, u16),
    ReadHoldingRegisters(u16, u16),
    WriteSingleCoil(u16, bool),
    WriteMultipleCoils(u16, Vec<bool>),
    WriteSingleRegister(u16, u16),
    WriteMultipleRegisters(u16, Vec<u16>),
    MaskWriteRegister(u16, u16, u16),
    ReadWriteMultipleRegisters(u16, u16, u16, Vec<u16>),
    ReportServerId,
    ReadDeviceIdentification(u8, u8),
    Custom(u8, Vec<u8>),
}

impl Request {
    /// The wire format carries quantities as 16-bit counts, so a decoded
    /// request never holds a longer run of values than that.
    pub open spec fn valid(self) -> bool {
        match self {
            Request::WriteMultipleCoils(_, coils) => coils@.len() <= 65535,
            Request::WriteMultipleRegisters(_, words) => words@.len() <= 65535,
            Request::ReadWriteMultipleRegisters(_, _, _, words) => words@.len() <= 65535,
            _ => true,
        }
    }
}

/// A decoded request together with the unit id it is addressed to.
#[derive(Clone, Debug, PartialEq)]
pub struct SlaveRequest {
    pub slave: u8,
    pub request: Request,
}

/// The response answering one supported request.
#[derive(Clone, Debug, PartialEq)]
pub enum Response {
    ReadCoils(Vec<bool>),
    ReadDiscreteInputs(Vec<bool>),
    ReadInputRegisters(Vec<u16>),
    ReadHoldingRegisters(Vec<u16>),
    WriteSingleCoil(u16, bool),
    WriteMultipleCoils(u16, u16),
    WriteSingleRegister(u16, u16),
    WriteMultipleRegisters(u16, u16),
    MaskWriteRegister(u16, u16, u16),
    ReadWriteMultipleRegisters(Vec<u16>),
}

/// The change notification emitted once per successful write: the area, the
/// first cell written, and the written values in the uniform numeric
/// encoding (bits as 0/1).
#[derive(Clone, Debug, PartialEq)]
pub struct UpdatePayload {
    pub area: DataArea,
    pub offset: u16,
    pub values: Vec<u16>,
}

/// A request is served when the configured unit id accepts every request
/// (id 0) or the request is addressed to the configured id.
pub open spec fn unit_matches(unit_id: u8, slave: u8) -> bool {
    unit_id == 0 || slave == unit_id
}

/// The mask-write rule: keep the bits the AND mask selects, then set the
/// bits of the OR mask.
pub open spec fn mask_write(current: u16, and_mask: u16, or_mask: u16) -> u16 {
    (current & and_mask) | or_mask
}

/// All areas except the coils are unchanged.
pub open spec fn only_coils_written(pre: ModbusStore, post: ModbusStore) -> bool {
    &&& post.discrete_inputs@ == pre.discrete_inputs@
    &&& post.input_registers@ == pre.input_registers@
    &&& post.holding_registers@ == pre.holding_registers@
}

/// All areas except the holding registers are unchanged.
pub open spec fn only_holding_written(pre: ModbusStore, post: ModbusStore) -> bool {
    &&& post.coils@ == pre.coils@
    &&& post.discrete_inputs@ == pre.discrete_inputs@
    &&& post.input_registers@ == pre.input_registers@
}

fn singleton_u16(x: u16) -> (v: Vec<u16>)
    ensures
        v@ == seq![x],
{
    let mut v: Vec<u16> = Vec::new();
    v.push(x);
    proof {
        assert(v@ =~= seq![x]);
    }
    v
}

/// Serves one decoded request against the store. A request whose unit id
/// does not match a non-zero filter is silently ignored (`Ok(None)`, no
/// write, no notification). A served read copies the requested range; a
/// served write overwrites exactly the requested range and reports it as a
/// change notification; an address or quantity that leaves the store yields
/// `IllegalDataAddress`; an unsupported function code yields
/// `IllegalFunction`, never a silent drop.
pub fn handle_request(store: &mut ModbusStore, unit_id: u8, req: SlaveRequest) -> (r: (
    Result<Option<Response>, ExceptionCode>,
    Option<UpdatePayload>,
))
    requires
        old(store).wf(),
        req.request.valid(),
    ensures
        final(store).wf(),
        final(store).size() == old(store).size(),
        !unit_matches(unit_id, req.slave) ==> ({
            &&& same_contents(*old(store), *final(store))
            &&& r.0 matches Ok(resp) && resp is None
            &&& r.1 is None
        }),
        unit_matches(unit_id, req.slave) ==> match req.request {
            Request::ReadCoils(addr, qty) => {
                &&& same_contents(*old(store), *final(store))
                &&& r.1 is None
                &&& if addr + qty <= old(store).size() {
                    r.0 matches Ok(Some(Response::ReadCoils(v))) && v@ == old(
                        store,
                    ).coils@.subrange(addr as int, addr as int + qty as int)
                } else {
                    r.0 == Err::<Option<Response>, ExceptionCode>(ExceptionCode::IllegalDataAddress)
                }
            },
            Request::ReadDiscreteInputs(addr, qty) => {
                &&& same_contents(*old(store), *final(store))
                &&& r.1 is None
                &&& if addr + qty <= old(store).size() {
                    r.0 matches Ok(Some(Response::ReadDiscreteInputs(v))) && v@ == old(
                        store,
                    ).discrete_inputs@.subrange(addr as int, addr as int + qty as int)
                } else {
                    r.0 == Err::<Option<Response>, ExceptionCode>(ExceptionCode::IllegalDataAddress)
                }
            },
            Request::ReadInputRegisters(addr, qty) => {
                &&& same_contents(*old(store), *final(store))
                &&& r.1 is None
                &&& if addr + qty <= old(store).size() {
                    r.0 matches Ok(Some(Response::ReadInputRegisters(v))) && v@ == old(
                        store,
                    ).input_registers@.subrange(addr as int, addr as int + qty as int)
                } else {
                    r.0 == Err::<Option<Response>, ExceptionCode>(ExceptionCode::IllegalDataAddress)
                }
            },
            Request::ReadHoldingRegisters(addr, qty) => {
                &&& same_contents(*old(store), *final(store))
                &&& r.1 is None
                &&& if addr + qty <= old(store).size() {
                    r.0 matches Ok(Some(Response::ReadHoldingRegisters(v))) && v@ == old(
                        store,
                    ).holding_registers@.subrange(addr as int, addr as int + qty as int)
                } else {
                    r.0 == Err::<Option<Response>, ExceptionCode>(ExceptionCode::IllegalDataAddress)
                }
            },
            Request::WriteSingleCoil(addr, coil) => {
                if addr < old(store).size() {
                    &&& final(store).coils@ == old(store).coils@.update(addr as int, coil)
                    &&& only_coils_written(*old(store), *final(store))
                    &&& r.0 matches Ok(Some(Response::WriteSingleCoil(a, c))) && a == addr && c
                        == coil
                    &&& r.1 matches Some(u) && u.area == DataArea::Coils && u.offset == addr
                        && u.values@ == seq![bool_word(coil)]
                } else {
                    &&& r.0 == Err::<Option<Response>, ExceptionCode>(
                        ExceptionCode::IllegalDataAddress,
                    )
                    &&& same_contents(*old(store), *final(store))
                    &&& r.1 is None
                }
            },
            Request::WriteMultipleCoils(addr, coils) => {
                if addr + coils@.len() <= old(store).size() {
                    &&& final(store).coils@ == overwritten(old(store).coils@, addr as int, coils@)
                    &&& only_coils_written(*old(store), *final(store))
                    &&& r.0 matches Ok(Some(Response::WriteMultipleCoils(a, n))) && a == addr && n
                        == coils@.len()
                    &&& r.1 matches Some(u) && u.area == DataArea::Coils && u.offset == addr
                        && u.values@ == encode_bools(coils@)
                } else {
                    &&& r.0 == Err::<Option<Response>, ExceptionCode>(
                        ExceptionCode::IllegalDataAddress,
                    )
                    &&& same_contents(*old(store), *final(store))
                    &&& r.1 is None
                }
            },
            Request::WriteSingleRegister(addr, word) => {
                if addr < old(store).size() {
                    &&& final(store).holding_registers@ == old(store).holding_registers@.update(
                        addr as int,
                        word,
                    )
                    &&& only_holding_written(*old(store), *final(store))
                    &&& r.0 matches Ok(Some(Response::WriteSingleRegister(a, w))) && a == addr && w
                        == word
                    &&& r.1 matches Some(u) && u.area == DataArea::HoldingRegisters && u.offset
                        == addr && u.values@ == seq![word]
                } else {
                    &&& r.0 == Err::<Option<Response>, ExceptionCode>(
                        ExceptionCode::IllegalDataAddress,
                    )
                    &&& same_contents(*old(store), *final(store))
                    &&& r.1 is None
                }
            },
            Request::WriteMultipleRegisters(addr, words) => {
                if addr + words@.len() <= old(store).size() {
                    &&& final(store).holding_registers@ == overwritten(
                        old(store).holding_registers@,
                        addr as int,
                        words@,
                    )
                    &&& only_holding_written(*old(store), *final(store))
                    &&& r.0 matches Ok(Some(Response::WriteMultipleRegisters(a, n))) && a == addr
                        && n == words@.len()
                    &&& r.1 matches Some(u) && u.area == DataArea::HoldingRegisters && u.offset
                        == addr && u.values@ == words@
                } else {
                    &&& r.0 == Err::<Option<Response>, ExceptionCode>(
                        ExceptionCode::IllegalDataAddress,
                    )
                    &&& same_contents(*old(store), *final(store))
                    &&& r.1 is None
                }
            },
            Request::MaskWriteRegister(addr, and_mask, or_mask) => {
                if addr < old(store).size() {
                    &&& final(store).holding_registers@ == old(store).holding_registers@.update(
                        addr as int,
                        mask_write(old(store).holding_registers@[addr as int], and_mask, or_mask),
                    )
                    &&& only_holding_written(*old(store), *final(store))
                    &&& r.0 matches Ok(Some(Response::MaskWriteRegister(a, am, om))) && a == addr
                        && am == and_mask && om == or_mask
                    &&& r.1 matches Some(u) && u.area == DataArea::HoldingRegisters && u.offset
                        == addr && u.values@ == seq![
                        mask_write(old(store).holding_registers@[addr as int], and_mask, or_mask),
                    ]
                } else {
                    &&& r.0 == Err::<Option<Response>, ExceptionCode>(
                        ExceptionCode::IllegalDataAddress,
                    )
                    &&& same_contents(*old(store), *final(store))
                    &&& r.1 is None
                }
            },
            Request::ReadWriteMultipleRegisters(raddr, rqty, waddr, words) => {
                if waddr + words@.len() <= old(store).size() {
                    &&& final(store).holding_registers@ == overwritten(
                        old(store).holding_registers@,
                        waddr as int,
                        words@,
                    )
                    &&& only_holding_written(*old(store), *final(store))
                    &&& r.1 matches Some(u) && u.area == DataArea::HoldingRegisters && u.offset
                        == waddr && u.values@ == words@
                    &&& if raddr + rqty <= old(store).size() {
                        r.0 matches Ok(Some(Response::ReadWriteMultipleRegisters(v))) && v@
                            == final(store).holding_registers@.subrange(
                            raddr as int,
                            raddr as int + rqty as int,
                        )
                    } else {
                        r.0 == Err::<Option<Response>, ExceptionCode>(
                            ExceptionCode::IllegalDataAddress,
                        )
                    }
                } else {
                    &&& r.0 == Err::<Option<Response>, ExceptionCode>(
                        ExceptionCode::IllegalDataAddress,
                    )
                    &&& same_contents(*old(store), *final(store))
                    &&& r.1 is None
                }
            },
            Request::ReportServerId => {
                &&& r.0 == Err::<Option<Response>, ExceptionCode>(ExceptionCode::IllegalFunction)
                &&& same_contents(*old(store), *final(store))
                &&& r.1 is None
            },
            Request::ReadDeviceIdentification(_, _) => {
                &&& r.0 == Err::<Option<Response>, ExceptionCode>(ExceptionCode::IllegalFunction)
                &&& same_contents(*old(store), *final(store))
                &&& r.1 is None
            },
            Request::Custom(_, _) => {
                &&& r.0 == Err::<Option<Response>, ExceptionCode>(ExceptionCode::IllegalFunction)
                &&& same_contents(*old(store), *final(store))
                &&& r.1 is None
            },
        },
{
    if unit_id != 0 && req.slave != unit_id {
        return (Ok(None), None);
    }
    match req.request {
        Request::ReadCoils(addr, qty) => {
            match slice_bool(&store.coils, addr, qty) {
                Ok(values) => (Ok(Some(Response::ReadCoils(values))), None),
                Err(e) => (Err(e), None),
            }
        },
        Request::ReadDiscreteInputs(addr, qty) => {
            match slice_bool(&store.discrete_inputs, addr, qty) {
                Ok(values) => (Ok(Some(Response::ReadDiscreteInputs(values))), None),
                Err(e) => (Err(e), None),
            }
        },
        Request::ReadInputRegisters(addr, qty) => {
            match slice_u16(&store.input_registers, addr, qty) {
                Ok(values) => (Ok(Some(Response::ReadInputRegisters(values))), None),
                Err(e) => (Err(e), None),
            }
        },
        Request::ReadHoldingRegisters(addr, qty) => {
            match slice_u16(&store.holding_registers, addr, qty) {
                Ok(values) => (Ok(Some(Response::ReadHoldingRegisters(values))), None),
                Err(e) => (Err(e), None),
            }
        },
        Request::WriteSingleCoil(addr, coil) => {
            match write_bool(&mut store.coils, addr, coil) {
                Ok(_) => {
                    let update = UpdatePayload {
                        area: DataArea::Coils,
                        offset: addr,
                        values: singleton_u16(if coil {
                            1
                        } else {
                            0
                        }),
                    };
                    (Ok(Some(Response::WriteSingleCoil(addr, coil))), Some(update))
                },
                Err(e) => (Err(e), None),
            }
        },
        Request::WriteMultipleCoils(addr, coils) => {
            match write_bools(&mut store.coils, addr, &coils) {
                Ok(written) => {
                    let update = UpdatePayload {
                        area: DataArea::Coils,
                        offset: addr,
                        values: bools_to_u16(&coils),
                    };
                    (Ok(Some(Response::WriteMultipleCoils(addr, written))), Some(update))
                },
                Err(e) => (Err(e), None),
            }
        },
        Request::WriteSingleRegister(addr, word) => {
            match write_u16(&mut store.holding_registers, addr, word) {
                Ok(_) => {
                    let update = UpdatePayload {
                        area: DataArea::HoldingRegisters,
                        offset: addr,
                        values: singleton_u16(word),
                    };
                    (Ok(Some(Response::WriteSingleRegister(addr, word))), Some(update))
                },
                Err(e) => (Err(e), None),
            }
        },
        Request::WriteMultipleRegisters(addr, words) => {
            match write_u16s(&mut store.holding_registers, addr, &words) {
                Ok(written) => {
                    let update = UpdatePayload {
                        area: DataArea::HoldingRegisters,
                        offset: addr,
                        values: words,
                    };
                    (Ok(Some(Response::WriteMultipleRegisters(addr, written))), Some(update))
                },
                Err(e) => (Err(e), None),
            }
        },
        Request::MaskWriteRegister(addr, and_mask, or_mask) => {
            match read_single_u16(&store.holding_registers, addr) {
                Ok(current) => {
                    let next: u16 = (current & and_mask) | or_mask;
                    match write_u16(&mut store.holding_registers, addr, next) {
                        Ok(_) => {
                            let update = UpdatePayload {
                                area: DataArea::HoldingRegisters,
                                offset: addr,
                                values: singleton_u16(next),
                            };
                            (
                                Ok(Some(Response::MaskWriteRegister(addr, and_mask, or_mask))),
                                Some(update),
                            )
                        },
                        Err(e) => (Err(e), None),
                    }
                },
                Err(e) => (Err(e), None),
            }
        },
        Request::ReadWriteMultipleRegisters(raddr, rqty, waddr, words) => {
            match write_u16s(&mut store.holding_registers, waddr, &words) {
                Ok(_) => {
                    let update = UpdatePayload {
                        area: DataArea::HoldingRegisters,
                        offset: waddr,
                        values: words,
                    };
                    match slice_u16(&store.holding_registers, raddr, rqty) {
                        Ok(values) => (
                            Ok(Some(Response::ReadWriteMultipleRegisters(values))),
                            Some(update),
                        ),
                        Err(e) => (Err(e), Some(update)),
                    }
                },
                Err(e) => (Err(e), None),
            }
        },
        Request::ReportServerId => (Err(ExceptionCode::IllegalFunction), None),
        Request::ReadDeviceIdentification(_, _) => (Err(ExceptionCode::IllegalFunction), None),
        Request::Custom(_, _) => (Err(ExceptionCode::IllegalFunction), None),
    }
}

/// Overlap law for read/write multiple registers: a returned cell that lies
/// inside the just-written range holds the written value, because the write
/// is applied before the read.
pub proof fn lemma_read_write_overlap(
    s: Seq<u16>,
    waddr: int,
    data: Seq<u16>,
    raddr: int,
    rqty: int,
    i: int,
)
    requires
        0 <= waddr,
        waddr + data.len() <= s.len(),
        0 <= raddr,
        raddr + rqty <= s.len(),
        raddr <= i < raddr + rqty,
        waddr <= i < waddr + data.len(),
    ensures
        overwritten(s, waddr, data).subrange(raddr, raddr + rqty)[i - raddr] == data[i - waddr],
{
}

} // verus!
