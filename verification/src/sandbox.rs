//! Values and traps that cross the border between the node and a sandboxed
//! guest.

use vstd::prelude::*;

verus! {

/// A trap code describing the reason for a trap.
///
/// All trap instructions have an explicit trap code.
#[non_exhaustive]
#[derive(Clone, Copy, PartialEq, Eq, Debug)]
pub enum TrapCode {
    /// The current stack space was exhausted.
    StackOverflow,
    /// An out-of-bounds memory access.
    MemoryOutOfBounds,
    /// A wasm atomic operation was presented with a not-naturally-aligned
    /// linear-memory address.
    HeapMisaligned,
    /// An out-of-bounds access to a table.
    TableOutOfBounds,
    /// Indirect call to a null table entry.
    IndirectCallToNull,
    /// Signature mismatch on indirect call.
    BadSignature,
    /// An integer arithmetic operation caused an overflow.
    IntegerOverflow,
    /// An integer division by zero.
    IntegerDivisionByZero,
    /// Failed conversion of a number to an integer.
    BadConversionToInteger,
    /// Code that was supposed to have been unreachable was reached.
    UnreachableCodeReached,
    /// Execution has potentially run too long and may be interrupted.
    Interrupt,
    /// An error of the host.
    HostError,
    /// An error of unknown kind.
    Unknown,
}

/// Wasm Trap
#[derive(Debug)]
pub struct Trap {
    /// Trap code
    pub code: TrapCode,
    /// Wasm backtrace
    pub trace: Vec<String>,
}

/// The reason that the guest's engine gives for a trap.
#[derive(Clone, Copy, PartialEq, Eq, Debug)]
pub enum EngineTrapCode {
    StackOverflow,
    MemoryOutOfBounds,
    HeapMisaligned,
    TableOutOfBounds,
    IndirectCallToNull,
    BadSignature,
    IntegerOverflow,
    IntegerDivisionByZero,
    BadConversionToInteger,
    UnreachableCodeReached,
    Interrupt,
    /// A reason that this node has no name for.
    Other,
}

/// The trap code of the node for the reason that the engine gives, and
/// `Unknown` where it gives none or one without a name.
pub open spec fn trap_code_of(code: Option<EngineTrapCode>) -> TrapCode {
    match code {
        Some(EngineTrapCode::StackOverflow) => TrapCode::StackOverflow,
        Some(EngineTrapCode::MemoryOutOfBounds) => TrapCode::MemoryOutOfBounds,
        Some(EngineTrapCode::HeapMisaligned) => TrapCode::HeapMisaligned,
        Some(EngineTrapCode::TableOutOfBounds) => TrapCode::TableOutOfBounds,
        Some(EngineTrapCode::IndirectCallToNull) => TrapCode::IndirectCallToNull,
        Some(EngineTrapCode::BadSignature) => TrapCode::BadSignature,
        Some(EngineTrapCode::IntegerOverflow) => TrapCode::IntegerOverflow,
        Some(EngineTrapCode::IntegerDivisionByZero) => TrapCode::IntegerDivisionByZero,
        Some(EngineTrapCode::BadConversionToInteger) => TrapCode::BadConversionToInteger,
        Some(EngineTrapCode::UnreachableCodeReached) => TrapCode::UnreachableCodeReached,
        Some(EngineTrapCode::Interrupt) => TrapCode::Interrupt,
        Some(EngineTrapCode::Other) => TrapCode::Unknown,
        None => TrapCode::Unknown,
    }
}

impl Trap {
    /// The trap of the node for a trap of the engine: its reason under the
    /// node's name, and the lines of its report as the backtrace.
    pub fn from_engine(code: Option<EngineTrapCode>, lines: Vec<String>) -> (trap: Trap)
        ensures
            trap.code == trap_code_of(code),
            trap.trace == lines,
    {
        let code: TrapCode = match code {
            Some(cc) => match cc {
                EngineTrapCode::BadConversionToInteger => TrapCode::BadConversionToInteger,
                EngineTrapCode::BadSignature => TrapCode::BadSignature,
                EngineTrapCode::HeapMisaligned => TrapCode::HeapMisaligned,
                EngineTrapCode::IndirectCallToNull => TrapCode::IndirectCallToNull,
                EngineTrapCode::IntegerDivisionByZero => TrapCode::IntegerDivisionByZero,
                EngineTrapCode::IntegerOverflow => TrapCode::IntegerOverflow,
                EngineTrapCode::Interrupt => TrapCode::Interrupt,
                EngineTrapCode::MemoryOutOfBounds => TrapCode::MemoryOutOfBounds,
                EngineTrapCode::StackOverflow => TrapCode::StackOverflow,
                EngineTrapCode::TableOutOfBounds => TrapCode::TableOutOfBounds,
                EngineTrapCode::UnreachableCodeReached => TrapCode::UnreachableCodeReached,
                EngineTrapCode::Other => TrapCode::Unknown,
            },
            None => TrapCode::Unknown,
        };
        Trap { code, trace: lines }
    }

    /// The lines of the backtrace, one behind the other without anything
    /// between them.
    pub open spec fn text(&self) -> Seq<char> {
        joined(self.trace@)
    }

    /// The trap as text: the lines of its backtrace, one behind the other.
    pub fn to_text(&self) -> (text: String)
        ensures
            text@ == self.text(),
    {
        let mut text: String = String::new();
        let mut i: usize = 0;
        while i < self.trace.len()
            invariant
                i <= self.trace@.len(),
                text@ == joined(self.trace@.subrange(0, i as int)),
            decreases self.trace@.len() - i,
        {
            assert(self.trace@.subrange(0, i + 1).drop_last() == self.trace@.subrange(0, i as int));
            text.append(self.trace[i].as_str());
            i += 1;
        }
        assert(self.trace@.subrange(0, self.trace@.len() as int) == self.trace@);
        text
    }
}

/// The texts, one behind the other.
pub open spec fn joined(lines: Seq<String>) -> Seq<char>
    decreases lines.len(),
{
    if lines.len() == 0 {
        Seq::empty()
    } else {
        joined(lines.drop_last()) + lines.last()@
    }
}

/// A value of the guest as the node sees it. The two kinds of numbers with a
/// fraction are held by their bits.
#[derive(Clone, Copy, PartialEq, Eq, Debug)]
pub enum Value {
    I32(i32),
    I64(i64),
    F32(u32),
    F64(u64),
}

/// What a call into the guest, or of the guest into the host, gives back.
#[derive(Clone, Copy, PartialEq, Eq, Debug)]
pub enum ReturnValue {
    /// Nothing.
    Unit,
    /// One value.
    Value(Value),
}

/// A value of the guest as its engine sees it.
#[derive(Clone, Copy, PartialEq, Eq, Debug)]
pub enum Val {
    I32(i32),
    I64(i64),
    F32(u32),
    F64(u64),
    /// A 128-bit vector.
    V128(u128),
    /// A reference to a function.
    FuncRef,
    /// A reference to a value of the host.
    ExternRef,
}

/// The node's value for a value of the engine, `None` for the kinds that the
/// node has no value for.
pub open spec fn value_of(v: Val) -> Option<Value> {
    match v {
        Val::F32(v) => Some(Value::F32(v)),
        Val::I32(v) => Some(Value::I32(v)),
        Val::F64(v) => Some(Value::F64(v)),
        Val::I64(v) => Some(Value::I64(v)),
        _ => None,
    }
}

/// The engine's value for a value of the node.
pub open spec fn val_of(v: Value) -> Val {
    match v {
        Value::F32(v) => Val::F32(v),
        Value::F64(v) => Val::F64(v),
        Value::I32(v) => Val::I32(v),
        Value::I64(v) => Val::I64(v),
    }
}

/// The node's value for a value of the engine.
pub fn from_val(v: Val) -> (r: Option<Value>)
    ensures
        r == value_of(v),
{
    match v {
        Val::F32(v) => Some(Value::F32(v)),
        Val::I32(v) => Some(Value::I32(v)),
        Val::F64(v) => Some(Value::F64(v)),
        Val::I64(v) => Some(Value::I64(v)),
        _ => None,
    }
}

/// The engine's value for a value of the node.
pub fn to_val(v: Value) -> (r: Val)
    ensures
        r == val_of(v),
{
    match v {
        Value::F32(v) => Val::F32(v),
        Value::F64(v) => Val::F64(v),
        Value::I32(v) => Val::I32(v),
        Value::I64(v) => Val::I64(v),
    }
}

/// What a call gives back to the node, for a value of the engine.
pub fn to_ret_val(v: Val) -> (r: Option<ReturnValue>)
    ensures
        r == (match value_of(v) {
            Some(value) => Some(ReturnValue::Value(value)),
            None => None,
        }),
{
    match from_val(v) {
        Some(value) => Some(ReturnValue::Value(value)),
        None => None,
    }
}

/// The engine's value for what a call of the host gives back, `None`
/// where it gives back nothing.
pub fn from_ret_val(v: ReturnValue) -> (r: Option<Val>)
    ensures
        r == (match v {
            ReturnValue::Value(value) => Some(val_of(value)),
            ReturnValue::Unit => None,
        }),
{
    match v {
        ReturnValue::Value(v) => match v {
            Value::I64(v) => Some(Val::I64(v)),
            Value::F64(v) => Some(Val::F64(v)),
            Value::I32(v) => Some(Val::I32(v)),
            Value::F32(v) => Some(Val::F32(v)),
        },
        ReturnValue::Unit => None,
    }
}

/// Converts the arguments of a call of the guest into the host. `None` where
/// one of them is of a kind that the node has no value for.
pub fn from_vals(args: &Vec<Val>) -> (r: Option<Vec<Value>>)
    ensures
        match r {
            Some(values) => {
                &&& values@.len() == args@.len()
                &&& forall|i: int|
                    0 <= i < args@.len() ==> value_of(args@[i]) == Some(#[trigger] values@[i])
            },
            None => exists|i: int| 0 <= i < args@.len() && value_of(#[trigger] args@[i]) is None,
        },
{
    let mut inner_args: Vec<Value> = Vec::new();
    let mut i: usize = 0;
    while i < args.len()
        invariant
            i <= args@.len(),
            inner_args@.len() == i,
            forall|j: int| 0 <= j < i ==> value_of(args@[j]) == Some(#[trigger] inner_args@[j]),
        decreases args@.len() - i,
    {
        match from_val(args[i]) {
            Some(arg) => {
                inner_args.push(arg);
            },
            None => {
                return None;
            },
        }
        i += 1;
    }
    Some(inner_args)
}

/// A value of the node and back is the same value.
pub proof fn lemma_value_round_trip(v: Value)
    ensures
        value_of(val_of(v)) == Some(v),
{
}

/// Why the sandbox failed.
#[derive(Debug)]
pub enum Error {
    /// Module is not valid, couldn't be instantiated.
    Module,
    /// Access to a memory or table was made with an address or an index
    /// which is out of bounds.
    OutOfBounds,
    /// Failed to invoke the start function or an exported function for some
    /// reason.
    Execution,
    /// The guest trapped.
    Trap(Trap),
}

/// Construct a range from an offset to a data length after the offset.
/// Returns None if the end of the range would exceed some maximum offset.
pub fn checked_range(offset: usize, len: usize, max: usize) -> (r: Option<std::ops::Range<usize>>)
    ensures
        r == (if offset + len <= max {
            Some((std::ops::Range { start: offset, end: (offset + len) as usize }))
        } else {
            None
        }),
{
    let end: usize = match offset.checked_add(len) {
        Some(end) => end,
        None => {
            return None;
        },
    };
    if end <= max {
        Some(offset..end)
    } else {
        None
    }
}

/// Reads `len` bytes of the guest's memory at `ptr`.
pub fn memory_get(memory: &[u8], ptr: u32, len: usize) -> (r: Result<Vec<u8>, Error>)
    ensures
        match r {
            Ok(buf) => ptr + len <= memory@.len() && buf@ == memory@.subrange(
                ptr as int,
                ptr + len,
            ),
            Err(e) => e is OutOfBounds && ptr + len > memory@.len(),
        },
{
    match checked_range(ptr as usize, len, memory.len()) {
        Some(range) => Ok(crate::block_tracing::parser::copy_range(memory, range.start, range.end)),
        None => Err(Error::OutOfBounds),
    }
}

/// Writes `buf` into the guest's memory at `ptr`.
pub fn memory_set(memory: &mut Vec<u8>, ptr: u32, buf: &[u8]) -> (r: Result<(), Error>)
    ensures
        match r {
            Ok(()) => {
                &&& ptr + buf@.len() <= old(memory)@.len()
                &&& final(memory)@ == old(memory)@.subrange(0, ptr as int) + buf@ + old(
                    memory,
                )@.subrange(ptr + buf@.len(), old(memory)@.len() as int)
            },
            Err(e) => e is OutOfBounds && ptr + buf@.len() > old(memory)@.len() && *final(memory)
                == *old(memory),
        },
{
    match checked_range(ptr as usize, buf.len(), memory.len()) {
        Some(range) => {
            let start: usize = range.start;
            let end: usize = range.end;
            let mut i: usize = 0;
            while i < buf.len()
                invariant
                    i <= buf@.len(),
                    start + buf@.len() == end,
                    end <= memory@.len(),
                    memory@.len() == old(memory)@.len(),
                    forall|j: int| 0 <= j < start ==> memory@[j] == old(memory)@[j],
                    forall|j: int| 0 <= j < i ==> memory@[start + j] == buf@[j],
                    forall|j: int| start + i <= j < memory@.len() ==> memory@[j] == old(memory)@[j],
                decreases buf@.len() - i,
            {
                memory.set(start + i, buf[i]);
                i += 1;
            }
            assert(memory@ =~= old(memory)@.subrange(0, ptr as int) + buf@ + old(memory)@.subrange(
                ptr + buf@.len(),
                old(memory)@.len() as int,
            ));
            Ok(())
        },
        None => Err(Error::OutOfBounds),
    }
}

} // verus!
