//! The register store: four fixed-length data areas (coils, discrete inputs,
//! input registers, holding registers), all of one size chosen at
//! construction, with bounds-checked range reads and writes.

use vstd::prelude::*;

verus! {

/// Number of cells in each data area of the default store.
pub const STORE_SIZE: usize = 1000;

/// Identifies which of the four data areas an operation targets.
#[derive(Clone, Copy, Debug, PartialEq, Eq, Structural)]
pub enum DataArea {
    Coils,
    DiscreteInputs,
    InputRegisters,
    HoldingRegisters,
}

/// Protocol exception codes the engine can answer a request with.
#[derive(Clone, Copy, Debug, PartialEq, Eq, Structural)]
pub enum ExceptionCode {
    /// The address/quantity combination falls outside the store.
    IllegalDataAddress,
    /// The function code is not supported.
    IllegalFunction,
    /// An internal guard failed; the host maps lock poisoning here.
    ServerDeviceFailure,
}

/// The numeric encoding of a single bit value: `true` is 1, `false` is 0.
pub open spec fn bool_word(b: bool) -> u16 {
    if b {
        1u16
    } else {
        0u16
    }
}

/// A bit area as the management API reports it: each bit as 0 or 1.
pub open spec fn encode_bools(s: Seq<bool>) -> Seq<u16> {
    s.map_values(|b: bool| bool_word(b))
}

/// `s` with the cells `addr .. addr + data.len()` replaced by `data` and
/// every other cell unchanged.
pub open spec fn overwritten<T>(s: Seq<T>, addr: int, data: Seq<T>) -> Seq<T> {
    Seq::new(
        s.len(),
        |j: int|
            if addr <= j < addr + data.len() {
                data[j - addr]
            } else {
                s[j]
            },
    )
}

/// Encoding a subrange of bits is the subrange of the encoding.
pub proof fn lemma_encode_subrange(s: Seq<bool>, i: int, j: int)
    requires
        0 <= i <= j <= s.len(),
    ensures
        encode_bools(s.subrange(i, j)) == encode_bools(s).subrange(i, j),
{
    assert(encode_bools(s.subrange(i, j)) =~= encode_bools(s).subrange(i, j));
}

/// Encoding commutes with overwriting a range of bits.
pub proof fn lemma_encode_overwritten(s: Seq<bool>, addr: int, data: Seq<bool>)
    ensures
        encode_bools(overwritten(s, addr, data)) == overwritten(
            encode_bools(s),
            addr,
            encode_bools(data),
        ),
{
    assert(encode_bools(overwritten(s, addr, data)) =~= overwritten(
        encode_bools(s),
        addr,
        encode_bools(data),
    ));
}

/// Round-trip law: a range overwritten with `data` reads back as exactly
/// `data` at the same coordinates.
pub proof fn lemma_overwritten_round_trip<T>(s: Seq<T>, addr: int, data: Seq<T>)
    requires
        0 <= addr,
        addr + data.len() <= s.len(),
    ensures
        overwritten(s, addr, data).subrange(addr, addr + data.len() as int) == data,
{
    assert(overwritten(s, addr, data).subrange(addr, addr + data.len() as int) =~= data);
}

/// One value for a single cell, as the management API accepts it: either a
/// bit or a 16-bit word.
#[derive(Clone, Copy, Debug)]
pub enum RegisterValue {
    Bool(bool),
    Number(u16),
}

impl RegisterValue {
    /// The value as a bit: a number counts as set when it is non-zero.
    pub open spec fn spec_bool(self) -> bool {
        match self {
            RegisterValue::Bool(b) => b,
            RegisterValue::Number(w) => w != 0,
        }
    }

    /// The value as a word: a bit is encoded as 0 or 1.
    pub open spec fn spec_word(self) -> u16 {
        match self {
            RegisterValue::Bool(b) => bool_word(b),
            RegisterValue::Number(w) => w,
        }
    }

    pub fn as_bool(&self) -> (r: bool)
        ensures
            r == self.spec_bool(),
    {
        match self {
            RegisterValue::Bool(value) => *value,
            RegisterValue::Number(value) => *value != 0,
        }
    }

    pub fn as_u16(&self) -> (r: u16)
        ensures
            r == self.spec_word(),
    {
        match self {
            RegisterValue::Bool(value) => {
                if *value {
                    1
                } else {
                    0
                }
            },
            RegisterValue::Number(value) => *value,
        }
    }
}

/// A run of values for a range write: either bits or 16-bit words.
#[derive(Clone, Debug)]
pub enum RegisterValues {
    Bools(Vec<bool>),
    Numbers(Vec<u16>),
}

impl RegisterValues {
    /// The values as bits: a number counts as set when it is non-zero.
    pub open spec fn spec_bools(self) -> Seq<bool> {
        match self {
            RegisterValues::Bools(v) => v@,
            RegisterValues::Numbers(v) => v@.map_values(|w: u16| w != 0),
        }
    }

    /// The values as words: bits are encoded as 0 or 1.
    pub open spec fn spec_words(self) -> Seq<u16> {
        match self {
            RegisterValues::Bools(v) => encode_bools(v@),
            RegisterValues::Numbers(v) => v@,
        }
    }

    /// How many values the run holds, whichever kind they are.
    pub open spec fn spec_len(self) -> nat {
        match self {
            RegisterValues::Bools(v) => v@.len(),
            RegisterValues::Numbers(v) => v@.len(),
        }
    }

    pub fn into_bools(self) -> (r: Vec<bool>)
        ensures
            r@ == self.spec_bools(),
    {
        match self {
            RegisterValues::Bools(values) => values,
            RegisterValues::Numbers(values) => {
                let mut out: Vec<bool> = Vec::new();
                let mut i: usize = 0;
                while i < values.len()
                    invariant
                        i <= values@.len(),
                        out@.len() == i,
                        forall|j: int| 0 <= j < i ==> out@[j] == (values@[j] != 0),
                    decreases values@.len() - i,
                {
                    out.push(values[i] != 0);
                    i += 1;
                }
                proof {
                    assert(out@ =~= values@.map_values(|w: u16| w != 0));
                }
                out
            },
        }
    }

    pub fn into_u16s(self) -> (r: Vec<u16>)
        ensures
            r@ == self.spec_words(),
    {
        match self {
            RegisterValues::Bools(values) => {
                let mut out: Vec<u16> = Vec::new();
                let mut i: usize = 0;
                while i < values.len()
                    invariant
                        i <= values@.len(),
                        out@.len() == i,
                        forall|j: int| 0 <= j < i ==> out@[j] == bool_word(values@[j]),
                    decreases values@.len() - i,
                {
                    out.push(if values[i] { 1 } else { 0 });
                    i += 1;
                }
                proof {
                    assert(out@ =~= encode_bools(values@));
                }
                out
            },
            RegisterValues::Numbers(values) => values,
        }
    }
}

/// The half-open cell range `addr .. addr + qty` of an area of length `len`,
/// checked in machine-word arithmetic so a 16-bit sum cannot wrap.
pub fn range(len: usize, addr: u16, qty: u16) -> (r: Result<(usize, usize), ExceptionCode>)
    ensures
        match r {
            Ok(se) => se.0 == addr as int && se.1 == addr as int + qty as int && se.1 <= len,
            Err(e) => e == ExceptionCode::IllegalDataAddress && addr as int + qty as int > len,
        },
{
    let start: usize = addr as usize;
    let end: usize = start + qty as usize;
    if end > len {
        return Err(ExceptionCode::IllegalDataAddress);
    }
    Ok((start, end))
}

/// A copy of the bit cells `addr .. addr + qty`, or `IllegalDataAddress`
/// exactly when that range leaves the area.
pub fn slice_bool(values: &Vec<bool>, addr: u16, qty: u16) -> (r: Result<Vec<bool>, ExceptionCode>)
    ensures
        match r {
            Ok(v) => addr as int + qty as int <= values@.len() && v@ == values@.subrange(
                addr as int,
                addr as int + qty as int,
            ),
            Err(e) => e == ExceptionCode::IllegalDataAddress && addr as int + qty as int
                > values@.len(),
        },
{
    let (start, end) = match range(values.len(), addr, qty) {
        Ok(se) => se,
        Err(e) => {
            return Err(e);
        },
    };
    let mut out: Vec<bool> = Vec::new();
    let mut i: usize = start;
    while i < end
        invariant
            start <= i <= end,
            end <= values@.len(),
            out@.len() == i - start,
            forall|j: int| 0 <= j < out@.len() ==> out@[j] == values@[start + j],
        decreases end - i,
    {
        out.push(values[i]);
        i += 1;
    }
    proof {
        assert(out@ =~= values@.subrange(start as int, end as int));
    }
    Ok(out)
}

/// A copy of the word cells `addr .. addr + qty`, or `IllegalDataAddress`
/// exactly when that range leaves the area.
pub fn slice_u16(values: &Vec<u16>, addr: u16, qty: u16) -> (r: Result<Vec<u16>, ExceptionCode>)
    ensures
        match r {
            Ok(v) => addr as int + qty as int <= values@.len() && v@ == values@.subrange(
                addr as int,
                addr as int + qty as int,
            ),
            Err(e) => e == ExceptionCode::IllegalDataAddress && addr as int + qty as int
                > values@.len(),
        },
{
    let (start, end) = match range(values.len(), addr, qty) {
        Ok(se) => se,
        Err(e) => {
            return Err(e);
        },
    };
    let mut out: Vec<u16> = Vec::new();
    let mut i: usize = start;
    while i < end
        invariant
            start <= i <= end,
            end <= values@.len(),
            out@.len() == i - start,
            forall|j: int| 0 <= j < out@.len() ==> out@[j] == values@[start + j],
        decreases end - i,
    {
        out.push(values[i]);
        i += 1;
    }
    proof {
        assert(out@ =~= values@.subrange(start as int, end as int));
    }
    Ok(out)
}

/// The word at `addr`, or `IllegalDataAddress` exactly when `addr` leaves
/// the area.
pub fn read_single_u16(values: &Vec<u16>, addr: u16) -> (r: Result<u16, ExceptionCode>)
    ensures
        match r {
            Ok(v) => addr < values@.len() && v == values@[addr as int],
            Err(e) => e == ExceptionCode::IllegalDataAddress && addr >= values@.len(),
        },
{
    let index: usize = addr as usize;
    if index >= values.len() {
        return Err(ExceptionCode::IllegalDataAddress);
    }
    Ok(values[index])
}

/// Overwrites the bit cell at `addr`, or fails with `IllegalDataAddress`
/// exactly when `addr` leaves the area, changing nothing.
pub fn write_bool(values: &mut Vec<bool>, addr: u16, value: bool) -> (r: Result<
    (),
    ExceptionCode,
>)
    ensures
        match r {
            Ok(_) => addr < old(values)@.len() && final(values)@ == old(values)@.update(
                addr as int,
                value,
            ),
            Err(e) => e == ExceptionCode::IllegalDataAddress && addr >= old(values)@.len() && final(values)@ == old(values)@,
        },
{
    let index: usize = addr as usize;
    if index >= values.len() {
        return Err(ExceptionCode::IllegalDataAddress);
    }
    values.set(index, value);
    Ok(())
}

/// Overwrites the bit cells `addr .. addr + data.len()` with `data`, or
/// fails with `IllegalDataAddress` exactly when that range leaves the area,
/// changing nothing. Returns the count written.
pub fn write_bools(values: &mut Vec<bool>, addr: u16, data: &Vec<bool>) -> (r: Result<
    u16,
    ExceptionCode,
>)
    requires
        data@.len() <= 65535,
    ensures
        match r {
            Ok(n) => addr + data@.len() <= old(values)@.len() && n == data@.len() && final(values)@
                == overwritten(old(values)@, addr as int, data@),
            Err(e) => e == ExceptionCode::IllegalDataAddress && addr + data@.len() > old(values)@.len() && final(values)@ == old(values)@,
        },
{
    let start: usize = addr as usize;
    let end: usize = start + data.len();
    if end > values.len() {
        return Err(ExceptionCode::IllegalDataAddress);
    }
    let mut i: usize = 0;
    while i < data.len()
        invariant
            i <= data@.len(),
            start == addr as int,
            end == start + data@.len(),
            end <= values@.len(),
            values@.len() == old(values)@.len(),
            forall|j: int|
                0 <= j < values@.len() && !(start <= j < start + i) ==> values@[j] == old(
                    values,
                )@[j],
            forall|j: int| start <= j < start + i ==> values@[j] == data@[j - start],
        decreases data@.len() - i,
    {
        values.set(start + i, data[i]);
        i += 1;
    }
    proof {
        assert(values@ =~= overwritten(old(values)@, addr as int, data@));
    }
    Ok(data.len() as u16)
}

/// Overwrites the word cell at `addr`, or fails with `IllegalDataAddress`
/// exactly when `addr` leaves the area, changing nothing.
pub fn write_u16(values: &mut Vec<u16>, addr: u16, value: u16) -> (r: Result<(), ExceptionCode>)
    ensures
        match r {
            Ok(_) => addr < old(values)@.len() && final(values)@ == old(values)@.update(
                addr as int,
                value,
            ),
            Err(e) => e == ExceptionCode::IllegalDataAddress && addr >= old(values)@.len() && final(values)@ == old(values)@,
        },
{
    let index: usize = addr as usize;
    if index >= values.len() {
        return Err(ExceptionCode::IllegalDataAddress);
    }
    values.set(index, value);
    Ok(())
}

/// Overwrites the word cells `addr .. addr + data.len()` with `data`, or
/// fails with `IllegalDataAddress` exactly when that range leaves the area,
/// changing nothing. Returns the count written.
pub fn write_u16s(values: &mut Vec<u16>, addr: u16, data: &Vec<u16>) -> (r: Result<
    u16,
    ExceptionCode,
>)
    requires
        data@.len() <= 65535,
    ensures
        match r {
            Ok(n) => addr + data@.len() <= old(values)@.len() && n == data@.len() && final(values)@
                == overwritten(old(values)@, addr as int, data@),
            Err(e) => e == ExceptionCode::IllegalDataAddress && addr + data@.len() > old(values)@.len() && final(values)@ == old(values)@,
        },
{
    let start: usize = addr as usize;
    let end: usize = start + data.len();
    if end > values.len() {
        return Err(ExceptionCode::IllegalDataAddress);
    }
    let mut i: usize = 0;
    while i < data.len()
        invariant
            i <= data@.len(),
            start == addr as int,
            end == start + data@.len(),
            end <= values@.len(),
            values@.len() == old(values)@.len(),
            forall|j: int|
                0 <= j < values@.len() && !(start <= j < start + i) ==> values@[j] == old(
                    values,
                )@[j],
            forall|j: int| start <= j < start + i ==> values@[j] == data@[j - start],
        decreases data@.len() - i,
    {
        values.set(start + i, data[i]);
        i += 1;
    }
    proof {
        assert(values@ =~= overwritten(old(values)@, addr as int, data@));
    }
    Ok(data.len() as u16)
}

/// Each bit as a word: `true` as 1, `false` as 0.
pub fn bools_to_u16(values: &Vec<bool>) -> (r: Vec<u16>)
    ensures
        r@ == encode_bools(values@),
{
    let mut out: Vec<u16> = Vec::new();
    let mut i: usize = 0;
    while i < values.len()
        invariant
            i <= values@.len(),
            out@.len() == i,
            forall|j: int| 0 <= j < i ==> out@[j] == bool_word(values@[j]),
        decreases values@.len() - i,
    {
        out.push(if values[i] { 1 } else { 0 });
        i += 1;
    }
    proof {
        assert(out@ =~= encode_bools(values@));
    }
    out
}

/// In-memory arrays for the four Modbus data areas.
#[derive(Debug)]
pub struct ModbusStore {
    pub coils: Vec<bool>,
    pub discrete_inputs: Vec<bool>,
    pub input_registers: Vec<u16>,
    pub holding_registers: Vec<u16>,
}

/// True of the two single-bit areas.
pub open spec fn is_bit_area(area: DataArea) -> bool {
    area == DataArea::Coils || area == DataArea::DiscreteInputs
}

/// The two stores hold the same cells in every area.
pub open spec fn same_contents(pre: ModbusStore, post: ModbusStore) -> bool {
    &&& post.coils@ == pre.coils@
    &&& post.discrete_inputs@ == pre.discrete_inputs@
    &&& post.input_registers@ == pre.input_registers@
    &&& post.holding_registers@ == pre.holding_registers@
}

impl ModbusStore {
    /// All four areas have the same length, fixed at construction.
    pub open spec fn wf(self) -> bool {
        &&& self.discrete_inputs@.len() == self.coils@.len()
        &&& self.input_registers@.len() == self.coils@.len()
        &&& self.holding_registers@.len() == self.coils@.len()
    }

    /// The common length of the four areas.
    pub open spec fn size(self) -> int {
        self.coils@.len() as int
    }

    /// The uniform numeric view of one data area: bits as 0/1, words as
    /// themselves.
    pub open spec fn area_view(self, area: DataArea) -> Seq<u16> {
        match area {
            DataArea::Coils => encode_bools(self.coils@),
            DataArea::DiscreteInputs => encode_bools(self.discrete_inputs@),
            DataArea::InputRegisters => self.input_registers@,
            DataArea::HoldingRegisters => self.holding_registers@,
        }
    }

    pub fn new(size: usize) -> (s: Self)
        ensures
            s.wf(),
            s.size() == size,
            forall|j: int| 0 <= j < size ==> s.coils@[j] == false,
            forall|j: int| 0 <= j < size ==> s.discrete_inputs@[j] == false,
            forall|j: int| 0 <= j < size ==> s.input_registers@[j] == 0u16,
            forall|j: int| 0 <= j < size ==> s.holding_registers@[j] == 0u16,
    {
        Self {
            coils: vec![false; size],
            discrete_inputs: vec![false; size],
            input_registers: vec![0u16; size],
            holding_registers: vec![0u16; size],
        }
    }

    /// A copy of the cells `addr .. addr + qty` of one area in the uniform
    /// numeric encoding, or `IllegalDataAddress` exactly when that range
    /// leaves the store. The store is never changed.
    pub fn read_range(&self, area: DataArea, addr: u16, qty: u16) -> (r: Result<
        Vec<u16>,
        ExceptionCode,
    >)
        requires
            self.wf(),
        ensures
            match r {
                Ok(v) => addr + qty <= self.size() && v@ == self.area_view(area).subrange(
                    addr as int,
                    addr as int + qty as int,
                ),
                Err(e) => e == ExceptionCode::IllegalDataAddress && addr + qty > self.size(),
            },
    {
        match area {
            DataArea::Coils => {
                match slice_bool(&self.coils, addr, qty) {
                    Ok(bits) => {
                        proof {
                            lemma_encode_subrange(self.coils@, addr as int, addr as int + qty as int);
                        }
                        Ok(bools_to_u16(&bits))
                    },
                    Err(e) => Err(e),
                }
            },
            DataArea::DiscreteInputs => {
                match slice_bool(&self.discrete_inputs, addr, qty) {
                    Ok(bits) => {
                        proof {
                            lemma_encode_subrange(
                                self.discrete_inputs@,
                                addr as int,
                                addr as int + qty as int,
                            );
                        }
                        Ok(bools_to_u16(&bits))
                    },
                    Err(e) => Err(e),
                }
            },
            DataArea::InputRegisters => slice_u16(&self.input_registers, addr, qty),
            DataArea::HoldingRegisters => slice_u16(&self.holding_registers, addr, qty),
        }
    }

    /// The cell at `addr` of one area in the uniform numeric encoding, or
    /// `IllegalDataAddress` exactly when `addr` leaves the store.
    pub fn read_one(&self, area: DataArea, addr: u16) -> (r: Result<u16, ExceptionCode>)
        requires
            self.wf(),
        ensures
            match r {
                Ok(v) => addr < self.size() && v == self.area_view(area)[addr as int],
                Err(e) => e == ExceptionCode::IllegalDataAddress && addr >= self.size(),
            },
    {
        let index: usize = addr as usize;
        match area {
            DataArea::Coils => {
                if index >= self.coils.len() {
                    Err(ExceptionCode::IllegalDataAddress)
                } else {
                    Ok(if self.coils[index] {
                        1
                    } else {
                        0
                    })
                }
            },
            DataArea::DiscreteInputs => {
                if index >= self.discrete_inputs.len() {
                    Err(ExceptionCode::IllegalDataAddress)
                } else {
                    Ok(if self.discrete_inputs[index] {
                        1
                    } else {
                        0
                    })
                }
            },
            DataArea::InputRegisters => read_single_u16(&self.input_registers, addr),
            DataArea::HoldingRegisters => read_single_u16(&self.holding_registers, addr),
        }
    }

    /// Overwrites the cell at `addr` of one area with `value`, converted to
    /// the area's kind (a number is a set bit when non-zero; a bit is the
    /// word 0 or 1), or fails with `IllegalDataAddress` exactly when `addr`
    /// leaves the store, changing nothing. No other area is touched.
    pub fn write_one(&mut self, area: DataArea, addr: u16, value: RegisterValue) -> (r: Result<
        (),
        ExceptionCode,
    >)
        requires
            old(self).wf(),
        ensures
            final(self).wf(),
            final(self).size() == old(self).size(),
            match r {
                Ok(_) => addr < old(self).size() && final(self).area_view(area) == old(
                    self,
                ).area_view(area).update(addr as int, encode_one(area, value)) && (forall|
                    other: DataArea,
                |
                    other != area ==> #[trigger] final(self).area_view(other) == old(
                        self,
                    ).area_view(other)),
                Err(e) => e == ExceptionCode::IllegalDataAddress && addr >= old(self).size()
                    && same_contents(*old(self), *final(self)),
            },
    {
        let r = match area {
            DataArea::Coils => write_bool(&mut self.coils, addr, value.as_bool()),
            DataArea::DiscreteInputs => write_bool(&mut self.discrete_inputs, addr, value.as_bool()),
            DataArea::InputRegisters => write_u16(&mut self.input_registers, addr, value.as_u16()),
            DataArea::HoldingRegisters => write_u16(
                &mut self.holding_registers,
                addr,
                value.as_u16(),
            ),
        };
        proof {
            if r is Ok && is_bit_area(area) {
                let bits = if area == DataArea::Coils {
                    old(self).coils@
                } else {
                    old(self).discrete_inputs@
                };
                assert(encode_bools(bits.update(addr as int, value.spec_bool())) =~= encode_bools(
                    bits,
                ).update(addr as int, bool_word(value.spec_bool())));
            }
        }
        r
    }

    /// Overwrites the cells `addr .. addr + values.spec_len()` of one area
    /// with `values`, converted to the area's kind, or fails with
    /// `IllegalDataAddress` exactly when that range leaves the store,
    /// changing nothing. Returns the count written. No other area is
    /// touched.
    pub fn write_range(&mut self, area: DataArea, addr: u16, values: RegisterValues) -> (r: Result<
        u16,
        ExceptionCode,
    >)
        requires
            old(self).wf(),
            values.spec_len() <= 65535,
        ensures
            final(self).wf(),
            final(self).size() == old(self).size(),
            match r {
                Ok(n) => addr + values.spec_len() <= old(self).size() && n == values.spec_len()
                    && final(self).area_view(area) == overwritten(
                    old(self).area_view(area),
                    addr as int,
                    encode_run(area, values),
                ) && (forall|other: DataArea|
                    other != area ==> #[trigger] final(self).area_view(other) == old(
                        self,
                    ).area_view(other)),
                Err(e) => e == ExceptionCode::IllegalDataAddress && addr + values.spec_len() > old(
                    self,
                ).size() && same_contents(*old(self), *final(self)),
            },
    {
        match area {
            DataArea::Coils => {
                let data = values.into_bools();
                let r = write_bools(&mut self.coils, addr, &data);
                proof {
                    if r is Ok {
                        lemma_encode_overwritten(old(self).coils@, addr as int, data@);
                    }
                }
                r
            },
            DataArea::DiscreteInputs => {
                let data = values.into_bools();
                let r = write_bools(&mut self.discrete_inputs, addr, &data);
                proof {
                    if r is Ok {
                        lemma_encode_overwritten(old(self).discrete_inputs@, addr as int, data@);
                    }
                }
                r
            },
            DataArea::InputRegisters => {
                let data = values.into_u16s();
                write_u16s(&mut self.input_registers, addr, &data)
            },
            DataArea::HoldingRegisters => {
                let data = values.into_u16s();
                write_u16s(&mut self.holding_registers, addr, &data)
            },
        }
    }
}

/// The stored numeric form of one value written to an area: on a bit area
/// the bit it sets, encoded 0/1; on a register area the word itself.
pub open spec fn encode_one(area: DataArea, v: RegisterValue) -> u16 {
    if is_bit_area(area) {
        bool_word(v.spec_bool())
    } else {
        v.spec_word()
    }
}

/// The stored numeric form of a run of values written to an area.
pub open spec fn encode_run(area: DataArea, vs: RegisterValues) -> Seq<u16> {
    if is_bit_area(area) {
        encode_bools(vs.spec_bools())
    } else {
        vs.spec_words()
    }
}

/// Round-trip law: writing a range and then reading the same coordinates of
/// the same area returns exactly the written values, in the store's uniform
/// numeric encoding. The hypotheses are `write_range`'s success contract;
/// the conclusion is the value `read_range` is bound to return.
pub proof fn lemma_write_read_round_trip(
    pre: ModbusStore,
    post: ModbusStore,
    area: DataArea,
    addr: u16,
    data: Seq<u16>,
)
    requires
        pre.wf(),
        addr + data.len() <= pre.size(),
        post.area_view(area) == overwritten(pre.area_view(area), addr as int, data),
    ensures
        post.area_view(area).subrange(addr as int, addr as int + data.len() as int) == data,
{
    lemma_overwritten_round_trip(pre.area_view(area), addr as int, data);
}

} // verus!
