//! The virtual machine: a byte stack, registers, labels and data objects, and
//! the meaning of each instruction.
use vstd::prelude::*;
use crate::assembler::{AssemblyFile, Data, DataModel, data_model, insts_model};
use crate::instruction::{Instruction, InstModel};
use crate::reg::Reg;
use crate::runnable::{Effect, EffectModel, Loaded, MachineError, MachineState, Status, StatusModel, Unloaded};
use crate::table::Table;
use crate::text::chars_of;
use crate::value::{Value, ValueModel};

verus! {

/// The number of bytes of the stack.
pub const STACK_SIZE: usize = 480;

/// The state of a machine, apart from its program.
pub struct MachineModel {
    /// The stack's bytes.
    pub stack: Seq<u8>,
    /// The registers that hold a value (the link register only after a call).
    pub registers: Map<Reg, i32>,
    /// The index of each label's instruction.
    pub labels: Map<Seq<char>, usize>,
    /// The index of the current instruction.
    pub counter: usize,
    /// The stack address of each data object.
    pub data: Map<Seq<char>, usize>,
}

/// A state every machine is in: a full-size stack, and every register but the
/// link register holding a value.
pub open spec fn model_wf(m: MachineModel) -> bool {
    &&& m.stack.len() == STACK_SIZE
    &&& forall|r: Reg| r != Reg::Link ==> #[trigger] m.registers.contains_key(r)
}

/// The state of a new machine: a zeroed stack, the general registers, the
/// stack pointer and the comparison flag at zero, no labels or data.
pub open spec fn initial_model() -> MachineModel {
    MachineModel {
        stack: Seq::new(STACK_SIZE as nat, |i: int| 0u8),
        registers: Map::new(|r: Reg| r != Reg::Link, |r: Reg| 0i32),
        labels: Map::empty(),
        counter: 0,
        data: Map::empty(),
    }
}

/// The value a register reads as: its value, or zero where it holds none.
pub open spec fn reg_value(m: MachineModel, r: Reg) -> i32 {
    if m.registers.contains_key(r) {
        m.registers[r]
    } else {
        0
    }
}

/// `m` with register `r` set to `v`.
pub open spec fn with_reg(m: MachineModel, r: Reg, v: i32) -> MachineModel {
    MachineModel { registers: m.registers.insert(r, v), ..m }
}

/// The value of an operand, or `None` where evaluating it fails (a
/// dereference outside the stack, an unknown data object).
pub open spec fn eval(m: MachineModel, v: ValueModel) -> Option<i32>
    decreases v,
{
    match v {
        ValueModel::Reg(r) => Some(reg_value(m, r)),
        ValueModel::Lit(n) => Some(n),
        ValueModel::Deref(b) => match eval(m, *b) {
            Some(a) => if 0 <= a < STACK_SIZE {
                Some(m.stack[a as int] as i32)
            } else {
                None
            },
            None => None,
        },
        ValueModel::Data(name) => if m.data.contains_key(name) {
            Some(m.data[name] as i32)
        } else {
            None
        },
    }
}

/// The operations of one operand.
#[derive(Clone, Copy, Debug, PartialEq, Eq, Structural)]
pub enum Op2 {
    Mov,
    Not,
    Neg,
}

/// The operations of two operands.
#[derive(Clone, Copy, Debug, PartialEq, Eq, Structural)]
pub enum Op3 {
    Add,
    Sub,
    Mul,
    Div,
    And,
    Or,
    Xor,
    NAnd,
    NOr,
    NXor,
}

/// `x` in `i32`, or `None` where it is out of range (where the arithmetic overflows).
pub open spec fn in_i32(x: int) -> Option<i32> {
    if i32::MIN <= x <= i32::MAX {
        Some(x as i32)
    } else {
        None
    }
}

/// The result of a one-operand operation; `None` where it overflows.
pub open spec fn op2(op: Op2, x: i32) -> Option<i32> {
    match op {
        Op2::Mov => Some(x),
        Op2::Not => Some(!x),
        Op2::Neg => in_i32(-x),
    }
}

/// The result of a two-operand operation; `None` where it overflows or
/// divides by zero. Division rounds toward zero.
pub open spec fn op3(op: Op3, x: i32, y: i32) -> Option<i32> {
    match op {
        Op3::Add => in_i32(x + y),
        Op3::Sub => in_i32(x - y),
        Op3::Mul => in_i32(x * y),
        Op3::Div => x.checked_div(y),
        Op3::And => Some(x & y),
        Op3::Or => Some(x | y),
        Op3::Xor => Some(x ^ y),
        Op3::NAnd => Some(!(x & y)),
        Op3::NOr => Some(!(x | y)),
        Op3::NXor => Some(!(x ^ y)),
    }
}

/// How control goes on after an instruction.
pub enum Flow {
    /// On to the next instruction, after the effect if there is one.
    Next(Option<EffectModel>),
    /// The program ends here.
    Exit,
    /// An assertion failed.
    Failed,
}

/// `m` with `dest` set to `op(a)`.
pub open spec fn two_spec(m: MachineModel, dest: Reg, a: ValueModel, op: Op2) -> Option<(MachineModel, Flow)> {
    match eval(m, a) {
        Some(x) => match op2(op, x) {
            Some(v) => Some((with_reg(m, dest, v), Flow::Next(None))),
            None => None,
        },
        None => None,
    }
}

/// `m` with `dest` set to `op(a, b)`.
pub open spec fn three_spec(m: MachineModel, dest: Reg, a: ValueModel, b: ValueModel, op: Op3) -> Option<(MachineModel, Flow)> {
    match (eval(m, a), eval(m, b)) {
        (Some(x), Some(y)) => match op3(op, x, y) {
            Some(v) => Some((with_reg(m, dest, v), Flow::Next(None))),
            None => None,
        },
        _ => None,
    }
}

/// The comparison flag is set.
pub open spec fn flag_set(m: MachineModel) -> bool {
    m.registers[Reg::Cmp] == 1
}

/// `m` jumped to `label`, or `None` for an unknown label.
pub open spec fn branch(m: MachineModel, label: Seq<char>) -> Option<(MachineModel, Flow)> {
    if m.labels.contains_key(label) {
        Some((MachineModel { counter: m.labels[label], ..m }, Flow::Next(None)))
    } else {
        None
    }
}

/// `m` jumped to `label` with the link register set to the current index.
pub open spec fn branch_link(m: MachineModel, label: Seq<char>) -> Option<(MachineModel, Flow)> {
    branch(with_reg(m, Reg::Link, m.counter as i32), label)
}

/// `m` back at the index in the link register, or `None` where it holds none.
pub open spec fn link_back(m: MachineModel) -> Option<(MachineModel, Flow)> {
    if m.registers.contains_key(Reg::Link) {
        Some((MachineModel { counter: m.registers[Reg::Link] as usize, ..m }, Flow::Next(None)))
    } else {
        None
    }
}

/// The stack address `sp + offset`, where it lies within the stack.
pub open spec fn stack_addr(m: MachineModel, offset: i32) -> Option<int> {
    let a = reg_value(m, Reg::StackPtr) + offset;
    if i32::MIN <= a <= i32::MAX && 0 <= a < STACK_SIZE {
        Some(a)
    } else {
        None
    }
}

/// `str a offset`: the low byte of `a` stored at `sp + offset`.
pub open spec fn store_spec(m: MachineModel, a: ValueModel, offset: ValueModel) -> Option<(MachineModel, Flow)> {
    match (eval(m, a), eval(m, offset)) {
        (Some(v), Some(o)) => match stack_addr(m, o) {
            Some(addr) => Some(
                (MachineModel { stack: m.stack.update(addr, v as u8), ..m }, Flow::Next(None)),
            ),
            None => None,
        },
        _ => None,
    }
}

/// `ldr dest offset`: `dest` set to the byte at `sp + offset`.
pub open spec fn load_spec(m: MachineModel, dest: Reg, offset: ValueModel) -> Option<(MachineModel, Flow)> {
    match eval(m, offset) {
        Some(o) => match stack_addr(m, o) {
            Some(addr) => Some((with_reg(m, dest, m.stack[addr] as i32), Flow::Next(None))),
            None => None,
        },
        None => None,
    }
}

/// `push a`: the low byte of `a` stored at `sp`, then `sp` increased by one.
pub open spec fn push_spec(m: MachineModel, a: ValueModel) -> Option<(MachineModel, Flow)> {
    match eval(m, a) {
        Some(v) => {
            let sp = reg_value(m, Reg::StackPtr);
            if 0 <= sp < STACK_SIZE {
                let m2 = MachineModel { stack: m.stack.update(sp as int, v as u8), ..m };
                Some((with_reg(m2, Reg::StackPtr, (sp + 1) as i32), Flow::Next(None)))
            } else {
                None
            }
        },
        None => None,
    }
}

/// `pop dest`: `sp` decreased by one, then `dest` set to the byte at `sp`.
pub open spec fn pop_spec(m: MachineModel, dest: Reg) -> Option<(MachineModel, Flow)> {
    let sp = reg_value(m, Reg::StackPtr) - 1;
    if 0 <= sp < STACK_SIZE {
        let m2 = with_reg(m, Reg::StackPtr, sp as i32);
        Some((with_reg(m2, dest, m.stack[sp] as i32), Flow::Next(None)))
    } else {
        None
    }
}

/// The system call whose number is in `%a`: 1 ends the process, 3 reads
/// `%d` bytes from descriptor `%b` into the stack at `%c`, 4 writes the `%d`
/// stack bytes at `%c` to descriptor `%b`; any other number does nothing.
/// `None` where the bytes would lie outside the stack.
pub open spec fn syscall(m: MachineModel) -> Option<(MachineModel, Flow)> {
    let code = m.registers[Reg::A];
    let fd = m.registers[Reg::B];
    let at = m.registers[Reg::C];
    let len = m.registers[Reg::D];
    let fits = 0 <= at < STACK_SIZE && 0 <= len && at + len <= STACK_SIZE;
    if code == 1 {
        Some((m, Flow::Next(Some(EffectModel::Terminate))))
    } else if code == 3 {
        if fits {
            Some(
                (
                    m,
                    Flow::Next(
                        Some(EffectModel::Read { fd, addr: at as usize, len: len as usize }),
                    ),
                ),
            )
        } else {
            None
        }
    } else if code == 4 {
        if fits {
            Some(
                (
                    m,
                    Flow::Next(
                        Some(
                            EffectModel::Write {
                                fd,
                                bytes: m.stack.subrange(at as int, at + len),
                            },
                        ),
                    ),
                ),
            )
        } else {
            None
        }
    } else {
        Some((m, Flow::Next(None)))
    }
}

#[verifier::opaque]
/// What an instruction does to the machine, and how control goes on; `None`
/// where the instruction fails (overflow, division by zero, an address
/// outside the stack, an unknown label or data object, a return without a call).
pub open spec fn exec_inst(m: MachineModel, i: InstModel) -> Option<(MachineModel, Flow)> {
    match i {
        InstModel::Add { dest, a, b } => three_spec(m, dest, a, b, Op3::Add),
        InstModel::Sub { dest, a, b } => three_spec(m, dest, a, b, Op3::Sub),
        InstModel::Mul { dest, a, b } => three_spec(m, dest, a, b, Op3::Mul),
        InstModel::Div { dest, a, b } => three_spec(m, dest, a, b, Op3::Div),
        InstModel::And { dest, a, b } => three_spec(m, dest, a, b, Op3::And),
        InstModel::Or { dest, a, b } => three_spec(m, dest, a, b, Op3::Or),
        InstModel::Xor { dest, a, b } => three_spec(m, dest, a, b, Op3::Xor),
        InstModel::NAnd { dest, a, b } => three_spec(m, dest, a, b, Op3::NAnd),
        InstModel::NOr { dest, a, b } => three_spec(m, dest, a, b, Op3::NOr),
        InstModel::NXor { dest, a, b } => three_spec(m, dest, a, b, Op3::NXor),
        InstModel::Mov { dest, a } => two_spec(m, dest, a, Op2::Mov),
        InstModel::Not { dest, a } => two_spec(m, dest, a, Op2::Not),
        InstModel::Neg { dest, a } => two_spec(m, dest, a, Op2::Neg),
        InstModel::Store { a, offset } => store_spec(m, a, offset),
        InstModel::Load { dest, offset } => load_spec(m, dest, offset),
        InstModel::Push { a } => push_spec(m, a),
        InstModel::Pop { dest } => pop_spec(m, dest),
        InstModel::Label { .. } => Some((m, Flow::Next(None))),
        InstModel::Br { label } => branch(m, label),
        InstModel::BrIf { label } => if flag_set(m) {
            branch(m, label)
        } else {
            Some((m, Flow::Next(None)))
        },
        InstModel::Bl { label } => branch_link(m, label),
        InstModel::BlIf { label } => if flag_set(m) {
            branch_link(m, label)
        } else {
            Some((m, Flow::Next(None)))
        },
        InstModel::Ret => link_back(m),
        InstModel::RetIf => if flag_set(m) {
            link_back(m)
        } else {
            Some((m, Flow::Next(None)))
        },
        InstModel::End => Some((m, Flow::Exit)),
        InstModel::Put { a } => match eval(m, a) {
            Some(v) => Some((m, Flow::Next(Some(EffectModel::Print(v))))),
            None => None,
        },
        InstModel::SysCall => syscall(m),
        InstModel::Assert => if flag_set(m) {
            Some((m, Flow::Next(None)))
        } else {
            Some((m, Flow::Failed))
        },
        InstModel::Eq { a, b } => match (eval(m, a), eval(m, b)) {
            (Some(x), Some(y)) => Some(
                (with_reg(m, Reg::Cmp, if x == y { 1i32 } else { 0i32 }), Flow::Next(None)),
            ),
            _ => None,
        },
        InstModel::NEq { a, b } => match (eval(m, a), eval(m, b)) {
            (Some(x), Some(y)) => Some(
                (with_reg(m, Reg::Cmp, if x != y { 1i32 } else { 0i32 }), Flow::Next(None)),
            ),
            _ => None,
        },
    }
}

/// One step of a program: the current instruction is executed, and unless
/// the program ended or an assertion failed, the index moves one past where
/// the instruction left it. `None` where the step fails (no current
/// instruction, the instruction fails, the index overflows).
pub open spec fn step_spec(m: MachineModel, insts: Seq<InstModel>) -> Option<(MachineModel, Result<StatusModel, MachineError>)> {
    if m.counter >= insts.len() {
        None
    } else {
        match exec_inst(m, insts[m.counter as int]) {
            Some((m2, Flow::Exit)) => Some((m2, Ok(StatusModel::Exit))),
            Some((m2, Flow::Failed)) => Some((m2, Err(MachineError::AssertionFailed))),
            Some((m2, Flow::Next(e))) => if m2.counter == usize::MAX {
                None
            } else {
                let m3 = MachineModel { counter: (m2.counter + 1) as usize, ..m2 };
                match e {
                    Some(e) => Some((m3, Ok(StatusModel::Effect(e)))),
                    None => Some((m3, Ok(StatusModel::Continue))),
                }
            },
            None => None,
        }
    }
}

/// Where running from `m` for at most `fuel` steps gets.
pub enum RunModel {
    /// Stopped in this state with this result: `Ok(None)` when the program
    /// ended or ran past its last instruction, `Ok(Some(e))` at an effect.
    Done(MachineModel, Result<Option<EffectModel>, MachineError>),
    /// A step failed.
    Fault,
    /// Still running after `fuel` steps.
    Running,
}

/// How far a bounded run got (see `Machine::run_steps`).
#[derive(Debug)]
pub enum Progress {
    /// The run stopped: the program ended or ran past its last instruction
    /// (`Ok(None)`), asked for an effect (`Ok(Some(effect))`) or failed an
    /// assertion (`Err`).
    Stopped(Result<Option<Effect>, MachineError>),
    /// A step could not be carried out after this many steps went on; the
    /// machine is at that step.
    Fault(usize),
    /// The run took all its steps and goes on.
    Running,
}

/// Running a program from `m`: steps until it ends, runs past its last
/// instruction, fails an assertion or asks for an effect.
pub open spec fn run_n(m: MachineModel, insts: Seq<InstModel>, fuel: nat) -> RunModel
    decreases fuel,
{
    if m.counter >= insts.len() {
        RunModel::Done(m, Ok(None))
    } else if fuel == 0 {
        RunModel::Running
    } else {
        match step_spec(m, insts) {
            Some((m2, Ok(StatusModel::Continue))) => run_n(m2, insts, (fuel - 1) as nat),
            Some((m2, Ok(StatusModel::Exit))) => RunModel::Done(m2, Ok(None)),
            Some((m2, Ok(StatusModel::Effect(e)))) => RunModel::Done(m2, Ok(Some(e))),
            Some((m2, Err(e))) => RunModel::Done(m2, Err(e)),
            None => RunModel::Fault,
        }
    }
}

/// Running from `m` stops within some number of steps without a failing step.
pub open spec fn stops(m: MachineModel, insts: Seq<InstModel>) -> bool {
    exists|fuel: nat| run_n(m, insts, fuel) is Done
}

/// Where running from `m` stops (meaningful where `stops(m, insts)`).
pub open spec fn run_result(m: MachineModel, insts: Seq<InstModel>) -> RunModel {
    run_n(m, insts, choose|fuel: nat| run_n(m, insts, fuel) is Done)
}


/// The slot of a register in the register file.
pub open spec fn reg_slot_spec(r: Reg) -> int {
    match r {
        Reg::A => 0,
        Reg::B => 1,
        Reg::C => 2,
        Reg::D => 3,
        Reg::E => 4,
        Reg::F => 5,
        Reg::G => 6,
        Reg::H => 7,
        Reg::I => 8,
        Reg::J => 9,
        Reg::Cmp => 10,
        Reg::Link => 11,
        Reg::StackPtr => 12,
    }
}

fn reg_slot(r: Reg) -> (i: usize)
    ensures
        i == reg_slot_spec(r),
        i < 13,
{
    match r {
        Reg::A => 0,
        Reg::B => 1,
        Reg::C => 2,
        Reg::D => 3,
        Reg::E => 4,
        Reg::F => 5,
        Reg::G => 6,
        Reg::H => 7,
        Reg::I => 8,
        Reg::J => 9,
        Reg::Cmp => 10,
        Reg::Link => 11,
        Reg::StackPtr => 12,
    }
}

/// The registers that a register file holds values for.
pub open spec fn regs_map(regs: Seq<Option<i32>>) -> Map<Reg, i32> {
    Map::new(|r: Reg| regs[reg_slot_spec(r)] is Some, |r: Reg| regs[reg_slot_spec(r)]->0)
}

/// The state of a machine.
pub struct MachineInternal {
    stack: [u8; STACK_SIZE],
    registers: [Option<i32>; 13],
    labels: Table<usize>,
    instruction_counter: usize,
    instructions: Vec<Instruction>,
    data: Table<usize>,
}

impl MachineInternal {
    /// The state as a model.
    pub closed spec fn model(&self) -> MachineModel {
        MachineModel {
            stack: self.stack@,
            registers: regs_map(self.registers@),
            labels: self.labels@,
            counter: self.instruction_counter,
            data: self.data@,
        }
    }

    /// The tables are well formed and the model is a machine state.
    pub closed spec fn wf(&self) -> bool {
        &&& self.labels.wf()
        &&& self.data.wf()
        &&& model_wf(self.model())
    }

    /// A new machine state (see `initial_model`).
    fn new() -> (m: Box<Self>)
        ensures
            m.wf(),
            m.model() == initial_model(),
    {
        let m = Box::new(
            MachineInternal {
                stack: [0u8; STACK_SIZE],
                registers: init_reg(),
                labels: Table::new(),
                instruction_counter: 0,
                instructions: Vec::new(),
                data: Table::new(),
            },
        );
        assert(m.stack@ =~= initial_model().stack);
        assert(m.model() =~= initial_model());
        m
    }
}

/// The register file of a new machine: the general registers, the stack
/// pointer and the comparison flag at zero; no link.
fn init_reg() -> (regs: [Option<i32>; 13])
    ensures
        regs_map(regs@) == initial_model().registers,
{
    let mut regs: [Option<i32>; 13] = [None; 13];
    let mut i: i32 = 1;
    while i <= 10
        invariant
            1 <= i <= 11,
            forall|k: int| 0 <= k < i - 1 ==> #[trigger] regs@[k] == Some(0i32),
            forall|k: int| i - 1 <= k < 13 ==> #[trigger] regs@[k] is None,
        decreases 11 - i,
    {
        match Reg::try_from_number(i) {
            Ok(r) => {
                let slot = reg_slot(r);
                assert(slot == i - 1);
                regs[slot] = Some(0);
            },
            Err(_) => {},
        }
        i = i + 1;
    }
    regs[reg_slot(Reg::StackPtr)] = Some(0);
    regs[reg_slot(Reg::Cmp)] = Some(0);
    assert(regs_map(regs@) =~= initial_model().registers);
    regs
}


/// The number of stack bytes a data object takes.
pub open spec fn data_bytes(d: DataModel) -> Seq<u8> {
    match d {
        DataModel::Array(b) => b.push(0u8),
        DataModel::Number(n) => seq![n as u8],
    }
}

/// The number of stack bytes that data objects take together.
pub open spec fn data_len(ds: Seq<(Seq<char>, DataModel)>) -> nat
    decreases ds.len(),
{
    if ds.len() == 0 {
        0
    } else {
        data_len(ds.drop_last()) + data_bytes(ds.last().1).len()
    }
}

/// `s` with `b` written from `at` on.
pub open spec fn write_bytes(s: Seq<u8>, at: int, b: Seq<u8>) -> Seq<u8> {
    Seq::new(s.len(), |i: int| if at <= i < at + b.len() { b[i - at] } else { s[i] })
}

/// `m` with the data objects `ds` laid out one after another from stack
/// address 0 (an array as its bytes and a zero, a number as its low byte),
/// each name mapped to its object's address.
pub open spec fn load_data_spec(m: MachineModel, ds: Seq<(Seq<char>, DataModel)>) -> MachineModel
    decreases ds.len(),
{
    if ds.len() == 0 {
        m
    } else {
        let m2 = load_data_spec(m, ds.drop_last());
        let at = data_len(ds.drop_last());
        MachineModel {
            stack: write_bytes(m2.stack, at as int, data_bytes(ds.last().1)),
            data: m2.data.insert(ds.last().0, at as usize),
            ..m2
        }
    }
}

proof fn lemma_data_len_prefix(ds: Seq<(Seq<char>, DataModel)>, k: int)
    requires
        0 <= k <= ds.len(),
    ensures
        data_len(ds.take(k)) <= data_len(ds),
    decreases ds.len() - k,
{
    if k < ds.len() {
        assert(ds.drop_last().take(k) == ds.take(k));
        lemma_data_len_prefix(ds.drop_last(), k);
    } else {
        assert(ds.take(k) == ds);
    }
}

proof fn lemma_load_data_shape(m: MachineModel, ds: Seq<(Seq<char>, DataModel)>)
    ensures
        load_data_spec(m, ds).stack.len() == m.stack.len(),
        load_data_spec(m, ds).registers == m.registers,
        load_data_spec(m, ds).labels == m.labels,
        load_data_spec(m, ds).counter == m.counter,
    decreases ds.len(),
{
    if ds.len() > 0 {
        lemma_load_data_shape(m, ds.drop_last());
    }
}

/// Whether data objects fit on the stack together (what `load_data` and
/// `load_all` require).
pub fn data_fits(data: &Vec<(String, Data)>) -> (b: bool)
    ensures
        b == (data_len(data_model(data@)) <= STACK_SIZE),
{
    let ghost ds = data_model(data@);
    let mut total: usize = 0;
    let mut i: usize = 0;
    while i < data.len()
        invariant
            i <= data@.len(),
            ds == data_model(data@),
            total == data_len(ds.take(i as int)),
            total <= STACK_SIZE,
        decreases data@.len() - i,
    {
        assert(ds.take(i + 1).drop_last() == ds.take(i as int));
        assert(ds.take(i + 1).last() == ds[i as int]);
        let size: usize = match &data[i].1 {
            Data::Array(bytes) => if bytes.len() < STACK_SIZE {
                bytes.len() + 1
            } else {
                STACK_SIZE + 1
            },
            Data::Number(_) => 1,
        };
        if size > STACK_SIZE - total {
            proof {
                lemma_data_len_prefix(ds, i + 1);
            }
            return false;
        }
        total = total + size;
        i = i + 1;
    }
    assert(ds.take(data@.len() as int) == ds);
    true
}

/// The index of each label: `labels` with the label instructions among the
/// first `n` of `insts` added in order, each mapped to its index.
pub open spec fn labels_spec(labels: Map<Seq<char>, usize>, insts: Seq<InstModel>, n: nat) -> Map<Seq<char>, usize>
    decreases n,
{
    if n == 0 {
        labels
    } else {
        let l = labels_spec(labels, insts, (n - 1) as nat);
        match insts[n - 1] {
            InstModel::Label { name } => l.insert(name, (n - 1) as usize),
            _ => l,
        }
    }
}

/// A machine in a load state: its state, and in `Loaded` its program.
pub struct Machine<S: MachineState> {
    internal: Box<MachineInternal>,
    state: S,
}

impl<S: MachineState> Machine<S> {
    /// The machine's state is well formed.
    pub closed spec fn wf(&self) -> bool {
        self.internal.wf()
    }

    /// The machine's state as a model.
    pub closed spec fn model(&self) -> MachineModel {
        self.internal.model()
    }

    /// The load state (and in `Loaded` the program).
    pub closed spec fn load_state(&self) -> S {
        self.state
    }

    /// Lays out the data objects on the stack from address 0 and records each
    /// one's address (see `load_data_spec`). Requires that they fit on the
    /// stack (see `data_fits`).
    pub fn load_data(&mut self, data: Vec<(String, Data)>)
        requires
            old(self).wf(),
            data_len(data_model(data@)) <= STACK_SIZE,
        ensures
            final(self).wf(),
            final(self).model() == load_data_spec(old(self).model(), data_model(data@)),
            final(self).load_state() == old(self).load_state(),
    {
        let ghost ds = data_model(data@);
        let ghost m0 = self.model();
        let mut sp: usize = 0;
        let mut i: usize = 0;
        while i < data.len()
            invariant
                ds == data_model(data@),
                data_len(ds) <= STACK_SIZE,
                i <= data@.len(),
                self.wf(),
                self.load_state() == old(self).load_state(),
                sp == data_len(ds.take(i as int)),
                self.model() == load_data_spec(m0, ds.take(i as int)),
            decreases data@.len() - i,
        {
            let ghost prev = ds.take(i as int);
            assert(ds.take(i + 1).drop_last() == prev);
            assert(ds.take(i + 1).last() == ds[i as int]);
            proof {
                lemma_data_len_prefix(ds, i + 1);
                lemma_load_data_shape(m0, prev);
            }
            let ghost before = self.model();
            let entry = &data[i];
            let key = chars_of(entry.0.as_str());
            self.internal.data.insert(key, sp);
            match &entry.1 {
                Data::Array(bytes) => {
                    let mut j: usize = 0;
                    while j < bytes.len()
                        invariant
                            self.wf(),
                            self.load_state() == old(self).load_state(),
                            sp + bytes@.len() + 1 <= STACK_SIZE,
                            j <= bytes@.len(),
                            self.model().stack == write_bytes(before.stack, data_len(prev) as int, bytes@.take(j as int)),
                            self.model().registers == before.registers,
                            self.model().labels == before.labels,
                            self.model().counter == before.counter,
                            self.model().data == before.data.insert(entry.0@, sp),
                            sp == data_len(prev),
                        decreases bytes@.len() - j,
                    {
                        self.internal.stack[sp + j] = bytes[j];
                        j = j + 1;
                        assert(self.model().stack =~= write_bytes(before.stack, data_len(prev) as int, bytes@.take(j as int)));
                    }
                    self.internal.stack[sp + j] = 0;
                    assert(bytes@.take(j as int) == bytes@);
                    sp = sp + j + 1;
                },
                Data::Number(n) => {
                    self.internal.stack[sp] = *n as u8;
                    sp = sp + 1;
                },
            }
            i = i + 1;
            assert(self.model().stack =~= load_data_spec(m0, ds.take(i as int)).stack);
            assert(self.model() == load_data_spec(m0, ds.take(i as int)));
        }
        assert(ds.take(data@.len() as int) == ds);
    }

    /// The machine with its state kept and `instructions` as its program.
    pub fn load_instructions(self, instructions: Vec<Instruction>) -> (m: Machine<Loaded>)
        requires
            self.wf(),
        ensures
            m.wf(),
            m.model() == self.model(),
            m.program() == insts_model(instructions@),
    {
        Machine { internal: self.internal, state: Loaded { instructions } }
    }

    /// The machine with a file's program, data objects and labels loaded.
    /// Requires that the data objects fit on the stack (see `data_fits`).
    pub fn load_all(self, file: AssemblyFile) -> (m: Machine<Loaded>)
        requires
            self.wf(),
            data_len(data_model(file.data@)) <= STACK_SIZE,
        ensures
            m.wf(),
            m.program() == insts_model(file.instructions@),
            m.model() == ({
                let d = load_data_spec(self.model(), data_model(file.data@));
                MachineModel { labels: labels_spec(d.labels, m.program(), m.program().len()), ..d }
            }),
    {
        proof { lemma_load_data_shape(self.model(), data_model(file.data@)); }
        let mut machine = self.load_instructions(file.instructions);
        machine.load_data(file.data);
        machine.load_labels();
        machine
    }
}

impl Machine<Unloaded> {
    /// A new machine without a program (see `initial_model`).
    pub fn new() -> (m: Self)
        ensures
            m.wf(),
            m.model() == initial_model(),
    {
        Machine { internal: MachineInternal::new(), state: Unloaded {} }
    }
}

impl Machine<Loaded> {
    /// The program.
    pub closed spec fn program(&self) -> Seq<InstModel> {
        insts_model(self.state.instructions@)
    }

    /// A new machine (see `initial_model`) with `instructions` as its program.
    pub fn new(instructions: Vec<Instruction>) -> (m: Machine<Loaded>)
        ensures
            m.wf(),
            m.model() == initial_model(),
            m.program() == insts_model(instructions@),
    {
        Machine { internal: MachineInternal::new(), state: Loaded { instructions } }
    }

    /// Records the index of every label of the program, a later label of the
    /// same name replacing an earlier one (see `labels_spec`).
    pub fn load_labels(&mut self)
        requires
            old(self).wf(),
        ensures
            final(self).wf(),
            final(self).program() == old(self).program(),
            final(self).model() == (MachineModel {
                labels: labels_spec(old(self).model().labels, old(self).program(), old(self).program().len()),
                ..old(self).model()
            }),
    {
        let ghost m0 = self.model();
        let n = self.state.instructions.len();
        let mut i: usize = 0;
        while i < n
            invariant
                self.wf(),
                n == self.state.instructions@.len(),
                self.program() == old(self).program(),
                i <= n,
                self.model() == (MachineModel {
                    labels: labels_spec(m0.labels, self.program(), i as nat),
                    ..m0
                }),
            decreases n - i,
        {
            let ghost before = self.model();
            assert(self.program()[i as int] == self.state.instructions@[i as int]@);
            match &self.state.instructions[i] {
                Instruction::Label { name } => {
                    self.internal.set_label(name.as_str(), i);
                },
                _ => {},
            }
            i = i + 1;
            assert(self.model().labels =~= labels_spec(m0.labels, self.program(), i as nat));
            assert(self.model().registers =~= before.registers);
        }
    }
}


/// How control goes on after an instruction (see `Flow`).
pub enum Control {
    Next(Option<Effect>),
    Exit,
    Failed,
}

impl View for Control {
    type V = Flow;

    open spec fn view(&self) -> Flow {
        match self {
            Control::Next(Some(e)) => Flow::Next(Some(e@)),
            Control::Next(None) => Flow::Next(None),
            Control::Exit => Flow::Exit,
            Control::Failed => Flow::Failed,
        }
    }
}

/// The result of a one-operand operation (see `op2`).
fn apply2(op: Op2, x: i32) -> (r: Option<i32>)
    ensures
        r == op2(op, x),
{
    match op {
        Op2::Mov => Some(x),
        Op2::Not => Some(!x),
        Op2::Neg => if x == i32::MIN {
            None
        } else {
            Some(-x)
        },
    }
}

/// The result of a two-operand operation (see `op3`).
fn apply3(op: Op3, x: i32, y: i32) -> (r: Option<i32>)
    ensures
        r == op3(op, x, y),
{
    match op {
        Op3::Add => x.checked_add(y),
        Op3::Sub => x.checked_sub(y),
        Op3::Mul => x.checked_mul(y),
        Op3::Div => x.checked_div(y),
        Op3::And => Some(x & y),
        Op3::Or => Some(x | y),
        Op3::Xor => Some(x ^ y),
        Op3::NAnd => Some(!(x & y)),
        Op3::NOr => Some(!(x | y)),
        Op3::NXor => Some(!(x ^ y)),
    }
}

/// A byte of the stack as an `i32`.
fn byte_value(b: u8) -> (v: i32)
    ensures
        v == b as i32,
{
    b as i32
}

/// The low byte of an `i32`.
fn low_byte(v: i32) -> (b: u8)
    ensures
        b == v as u8,
{
    v as u8
}

/// A stack address given as an `i32` that lies within the stack, as an index.
fn stack_index(a: i32) -> (i: usize)
    requires
        0 <= a < STACK_SIZE,
    ensures
        i == a,
{
    a as usize
}

impl MachineInternal {
    /// The value of a register, if it holds one.
    fn reg_get(&self, r: Reg) -> (v: Option<i32>)
        requires
            self.wf(),
        ensures
            v == (if self.model().registers.contains_key(r) {
                Some(self.model().registers[r])
            } else {
                None::<i32>
            }),
    {
        self.registers[reg_slot(r)]
    }

    /// Sets a register.
    fn set_reg(&mut self, dest: Reg, value: i32)
        requires
            old(self).wf(),
        ensures
            final(self).wf(),
            final(self).model() == with_reg(old(self).model(), dest, value),
    {
        self.registers[reg_slot(dest)] = Some(value);
        assert(regs_map(self.registers@) =~= regs_map(old(self).registers@).insert(dest, value));
        assert(self.model() =~= with_reg(old(self).model(), dest, value));
    }

    /// The value of an operand (see `eval`).
    fn evaluate(&self, value: &Value) -> (r: Option<i32>)
        requires
            self.wf(),
        ensures
            r == eval(self.model(), value@),
        decreases value,
    {
        match value {
            Value::Reg(reg) => match self.reg_get(*reg) {
                Some(v) => Some(v),
                None => Some(0),
            },
            Value::Lit(n) => Some(*n),
            Value::Deref(inner) => match self.evaluate(&**inner) {
                Some(a) => if 0 <= a && a < 480 {
                    Some(byte_value(self.stack[stack_index(a)]))
                } else {
                    None
                },
                None => None,
            },
            Value::Data(name) => {
                let key = chars_of(name.as_str());
                match self.data.get(key.as_slice()) {
                    Some(addr) => Some(*addr as i32),
                    None => None,
                }
            },
        }
    }

    /// The value of the stack pointer.
    fn stack_pointer(&self) -> (sp: i32)
        requires
            self.wf(),
        ensures
            sp == reg_value(self.model(), Reg::StackPtr),
    {
        match self.reg_get(Reg::StackPtr) {
            Some(v) => v,
            None => 0,
        }
    }

    /// Sets `dest` to `op(a)` (see `two_spec`); `None` and no change where it fails.
    fn two_arg(&mut self, dest: Reg, a: &Value, op: Op2) -> (r: Option<()>)
        requires
            old(self).wf(),
        ensures
            final(self).wf(),
            match r {
                Some(_) => two_spec(old(self).model(), dest, a@, op) == Some((final(self).model(), Flow::Next(None))),
                None => two_spec(old(self).model(), dest, a@, op) is None && final(self).model() == old(self).model(),
            },
    {
        let x = match self.evaluate(a) {
            Some(x) => x,
            None => return None,
        };
        match apply2(op, x) {
            Some(v) => {
                self.set_reg(dest, v);
                Some(())
            },
            None => None,
        }
    }

    /// Sets `dest` to `op(a, b)` (see `three_spec`); `None` and no change where it fails.
    fn three_arg(&mut self, dest: Reg, a: &Value, b: &Value, op: Op3) -> (r: Option<()>)
        requires
            old(self).wf(),
        ensures
            final(self).wf(),
            match r {
                Some(_) => three_spec(old(self).model(), dest, a@, b@, op) == Some((final(self).model(), Flow::Next(None))),
                None => three_spec(old(self).model(), dest, a@, b@, op) is None && final(self).model() == old(self).model(),
            },
    {
        let x = match self.evaluate(a) {
            Some(x) => x,
            None => return None,
        };
        let y = match self.evaluate(b) {
            Some(y) => y,
            None => return None,
        };
        match apply3(op, x, y) {
            Some(v) => {
                self.set_reg(dest, v);
                Some(())
            },
            None => None,
        }
    }
}


impl MachineInternal {
    /// The value of a register that always holds one.
    fn reg_of(&self, r: Reg) -> (v: i32)
        requires
            self.wf(),
            r != Reg::Link,
        ensures
            v == self.model().registers[r],
    {
        match self.reg_get(r) {
            Some(v) => v,
            None => 0,
        }
    }

    /// Writes a byte to the stack.
    fn set_byte(&mut self, i: usize, b: u8)
        requires
            old(self).wf(),
            i < STACK_SIZE,
        ensures
            final(self).wf(),
            final(self).model() == (MachineModel { stack: old(self).model().stack.update(i as int, b), ..old(self).model() }),
    {
        self.stack[i] = b;
        assert(self.stack@ =~= old(self).stack@.update(i as int, b));
    }

    /// The stack address `sp + offset` as an index (see `stack_addr`).
    fn stack_index_at(&self, offset: i32) -> (r: Option<usize>)
        requires
            self.wf(),
        ensures
            match r {
                Some(i) => stack_addr(self.model(), offset) == Some(i as int),
                None => stack_addr(self.model(), offset) is None,
            },
    {
        let sp = self.stack_pointer();
        match sp.checked_add(offset) {
            Some(a) => if 0 <= a && a < 480 {
                Some(stack_index(a))
            } else {
                None
            },
            None => None,
        }
    }

    /// Adds one to the stack pointer.
    fn incr_stack_pointer(&mut self)
        requires
            old(self).wf(),
            reg_value(old(self).model(), Reg::StackPtr) < i32::MAX,
        ensures
            final(self).wf(),
            final(self).model() == with_reg(old(self).model(), Reg::StackPtr, (reg_value(old(self).model(), Reg::StackPtr) + 1) as i32),
    {
        let sp = self.stack_pointer();
        self.set_reg(Reg::StackPtr, sp + 1);
    }

    /// Takes one from the stack pointer.
    fn decr_stack_pointer(&mut self)
        requires
            old(self).wf(),
            reg_value(old(self).model(), Reg::StackPtr) > i32::MIN,
        ensures
            final(self).wf(),
            final(self).model() == with_reg(old(self).model(), Reg::StackPtr, (reg_value(old(self).model(), Reg::StackPtr) - 1) as i32),
    {
        let sp = self.stack_pointer();
        self.set_reg(Reg::StackPtr, sp - 1);
    }

    /// `str a offset` (see `store_spec`); `None` and no change where it fails.
    fn store(&mut self, a: &Value, offset: &Value) -> (r: Option<()>)
        requires
            old(self).wf(),
        ensures
            final(self).wf(),
            match r {
                Some(_) => store_spec(old(self).model(), a@, offset@) == Some((final(self).model(), Flow::Next(None))),
                None => store_spec(old(self).model(), a@, offset@) is None && final(self).model() == old(self).model(),
            },
    {
        let value = match self.evaluate(a) {
            Some(v) => v,
            None => return None,
        };
        let off = match self.evaluate(offset) {
            Some(v) => v,
            None => return None,
        };
        match self.stack_index_at(off) {
            Some(i) => {
                self.set_byte(i, low_byte(value));
                Some(())
            },
            None => None,
        }
    }

    /// `ldr dest offset` (see `load_spec`); `None` and no change where it fails.
    fn load_register(&mut self, dest: Reg, offset: &Value) -> (r: Option<()>)
        requires
            old(self).wf(),
        ensures
            final(self).wf(),
            match r {
                Some(_) => load_spec(old(self).model(), dest, offset@) == Some((final(self).model(), Flow::Next(None))),
                None => load_spec(old(self).model(), dest, offset@) is None && final(self).model() == old(self).model(),
            },
    {
        let off = match self.evaluate(offset) {
            Some(v) => v,
            None => return None,
        };
        match self.stack_index_at(off) {
            Some(i) => {
                let v = byte_value(self.stack[i]);
                self.set_reg(dest, v);
                Some(())
            },
            None => None,
        }
    }

    /// `push a` (see `push_spec`); `None` and no change where it fails.
    fn push(&mut self, a: &Value) -> (r: Option<()>)
        requires
            old(self).wf(),
        ensures
            final(self).wf(),
            match r {
                Some(_) => push_spec(old(self).model(), a@) == Some((final(self).model(), Flow::Next(None))),
                None => push_spec(old(self).model(), a@) is None && final(self).model() == old(self).model(),
            },
    {
        let v = match self.evaluate(a) {
            Some(v) => v,
            None => return None,
        };
        let sp = self.stack_pointer();
        if !(0 <= sp && sp < 480) {
            return None;
        }
        self.set_byte(stack_index(sp), low_byte(v));
        self.incr_stack_pointer();
        Some(())
    }

    /// `pop dest` (see `pop_spec`); `None` and no change where it fails.
    fn pop(&mut self, dest: Reg) -> (r: Option<()>)
        requires
            old(self).wf(),
        ensures
            final(self).wf(),
            match r {
                Some(_) => pop_spec(old(self).model(), dest) == Some((final(self).model(), Flow::Next(None))),
                None => pop_spec(old(self).model(), dest) is None && final(self).model() == old(self).model(),
            },
    {
        let sp = self.stack_pointer();
        if !(1 <= sp && sp <= 480) {
            return None;
        }
        self.decr_stack_pointer();
        let v = byte_value(self.stack[stack_index(sp - 1)]);
        self.set_reg(dest, v);
        Some(())
    }

    /// Jumps to `label` (see `branch`); `None` and no change where it fails.
    fn br_label(&mut self, label: &String) -> (r: Option<()>)
        requires
            old(self).wf(),
        ensures
            final(self).wf(),
            match r {
                Some(_) => branch(old(self).model(), label@) == Some((final(self).model(), Flow::Next(None))),
                None => branch(old(self).model(), label@) is None && final(self).model() == old(self).model(),
            },
    {
        let key = chars_of(label.as_str());
        match self.labels.get(key.as_slice()) {
            Some(target) => {
                self.instruction_counter = *target;
                Some(())
            },
            None => None,
        }
    }

    /// Jumps to `label` with the link register set (see `branch_link`);
    /// `None` and no change where it fails.
    fn bl_label(&mut self, label: &String) -> (r: Option<()>)
        requires
            old(self).wf(),
        ensures
            final(self).wf(),
            match r {
                Some(_) => branch_link(old(self).model(), label@) == Some((final(self).model(), Flow::Next(None))),
                None => branch_link(old(self).model(), label@) is None && final(self).model() == old(self).model(),
            },
    {
        let key = chars_of(label.as_str());
        if self.labels.get(key.as_slice()).is_none() {
            return None;
        }
        let here = self.instruction_counter as i32;
        self.set_reg(Reg::Link, here);
        self.br_label(label)
    }

    /// Returns to the index in the link register (see `link_back`); `None`
    /// and no change where it fails.
    fn link_back(&mut self) -> (r: Option<()>)
        requires
            old(self).wf(),
        ensures
            final(self).wf(),
            match r {
                Some(_) => link_back(old(self).model()) == Some((final(self).model(), Flow::Next(None))),
                None => link_back(old(self).model()) is None && final(self).model() == old(self).model(),
            },
    {
        match self.reg_get(Reg::Link) {
            Some(l) => {
                self.instruction_counter = l as usize;
                Some(())
            },
            None => None,
        }
    }

    /// Moves to instruction `c`.
    fn set_counter(&mut self, c: usize)
        requires
            old(self).wf(),
        ensures
            final(self).wf(),
            final(self).model() == (MachineModel { counter: c, ..old(self).model() }),
    {
        self.instruction_counter = c;
    }

    /// Records the index of a label.
    fn set_label(&mut self, name: &str, i: usize)
        requires
            old(self).wf(),
        ensures
            final(self).wf(),
            final(self).model() == (MachineModel { labels: old(self).model().labels.insert(name@, i), ..old(self).model() }),
    {
        let key = chars_of(name);
        self.labels.insert(key, i);
    }
}


/// The model of an optional effect.
pub open spec fn effect_model(e: Option<Effect>) -> Option<EffectModel> {
    match e {
        Some(e) => Some(e@),
        None => None,
    }
}

impl MachineInternal {
    /// Sets the comparison flag to whether `a` equals `b` (`equal`) or
    /// differs from it (`!equal`); `None` and no change where an operand fails.
    fn set_cmp(&mut self, a: &Value, b: &Value, equal: bool) -> (r: Option<()>)
        requires
            old(self).wf(),
        ensures
            final(self).wf(),
            match r {
                Some(_) => match (eval(old(self).model(), a@), eval(old(self).model(), b@)) {
                    (Some(x), Some(y)) => final(self).model() == with_reg(
                        old(self).model(),
                        Reg::Cmp,
                        if (x == y) == equal {
                            1i32
                        } else {
                            0i32
                        },
                    ),
                    _ => false,
                },
                None => (eval(old(self).model(), a@) is None || eval(old(self).model(), b@) is None)
                    && final(self).model() == old(self).model(),
            },
    {
        let x = match self.evaluate(a) {
            Some(v) => v,
            None => return None,
        };
        let y = match self.evaluate(b) {
            Some(v) => v,
            None => return None,
        };
        let flag = if (x == y) == equal {
            1
        } else {
            0
        };
        self.set_reg(Reg::Cmp, flag);
        Some(())
    }

    /// Whether the comparison flag is set (see `flag_set`).
    fn cmp(&self) -> (b: bool)
        requires
            self.wf(),
        ensures
            b == flag_set(self.model()),
    {
        self.reg_of(Reg::Cmp) == 1
    }

    /// The number `put a` prints; `None` where `a` fails.
    fn put(&self, a: &Value) -> (r: Option<i32>)
        requires
            self.wf(),
        ensures
            r == eval(self.model(), a@),
    {
        self.evaluate(a)
    }

    /// The system call in `%a` (see `syscall`): the effect it asks for, or
    /// `None` where it fails.
    fn system_call(&self) -> (r: Option<Option<Effect>>)
        requires
            self.wf(),
        ensures
            match r {
                Some(e) => syscall(self.model()) == Some((self.model(), Flow::Next(effect_model(e)))),
                None => syscall(self.model()) is None,
            },
    {
        let code = self.reg_of(Reg::A);
        let fd = self.reg_of(Reg::B);
        let at = self.reg_of(Reg::C);
        let len = self.reg_of(Reg::D);
        let fits = 0 <= at && at < 480 && 0 <= len && len <= 480 - at;
        if code == 1 {
            Some(Some(Effect::Terminate))
        } else if code == 3 {
            if fits {
                Some(Some(Effect::Read { fd, addr: at as usize, len: len as usize }))
            } else {
                None
            }
        } else if code == 4 {
            if fits {
                let start = at as usize;
                let end = start + len as usize;
                let mut bytes: Vec<u8> = Vec::new();
                let mut i: usize = start;
                while i < end
                    invariant
                        self.wf(),
                        start <= i <= end <= STACK_SIZE,
                        bytes@ == self.model().stack.subrange(start as int, i as int),
                    decreases end - i,
                {
                    bytes.push(self.stack[i]);
                    i = i + 1;
                }
                Some(Some(Effect::Write { fd, bytes }))
            } else {
                None
            }
        } else {
            Some(None)
        }
    }

    /// Executes one instruction (see `exec_inst`); `None` and no change where
    /// it fails.
    fn execute_instruction(&mut self, instruction: &Instruction) -> (r: Option<Control>)
        requires
            old(self).wf(),
        ensures
            final(self).wf(),
            match r {
                Some(c) => exec_inst(old(self).model(), instruction@) == Some((final(self).model(), c@)),
                None => exec_inst(old(self).model(), instruction@) is None && final(self).model() == old(self).model(),
            },
    {
        reveal(exec_inst);
        let done = match instruction {
            Instruction::Add { dest, a, b } => self.three_arg(*dest, a, b, Op3::Add),
            Instruction::Sub { dest, a, b } => self.three_arg(*dest, a, b, Op3::Sub),
            Instruction::Mul { dest, a, b } => self.three_arg(*dest, a, b, Op3::Mul),
            Instruction::Div { dest, a, b } => self.three_arg(*dest, a, b, Op3::Div),
            Instruction::And { dest, a, b } => self.three_arg(*dest, a, b, Op3::And),
            Instruction::Or { dest, a, b } => self.three_arg(*dest, a, b, Op3::Or),
            Instruction::Xor { dest, a, b } => self.three_arg(*dest, a, b, Op3::Xor),
            Instruction::NAnd { dest, a, b } => self.three_arg(*dest, a, b, Op3::NAnd),
            Instruction::NOr { dest, a, b } => self.three_arg(*dest, a, b, Op3::NOr),
            Instruction::NXor { dest, a, b } => self.three_arg(*dest, a, b, Op3::NXor),
            Instruction::Mov { dest, a } => self.two_arg(*dest, a, Op2::Mov),
            Instruction::Not { dest, a } => self.two_arg(*dest, a, Op2::Not),
            Instruction::Neg { dest, a } => self.two_arg(*dest, a, Op2::Neg),
            Instruction::Store { a, offset } => self.store(a, offset),
            Instruction::Load { dest, offset } => self.load_register(*dest, offset),
            Instruction::Push { a } => self.push(a),
            Instruction::Pop { dest } => self.pop(*dest),
            Instruction::Label { name: _ } => Some(()),
            Instruction::Br { label } => self.br_label(label),
            Instruction::BrIf { label } => if self.cmp() {
                self.br_label(label)
            } else {
                Some(())
            },
            Instruction::Bl { label } => self.bl_label(label),
            Instruction::BlIf { label } => if self.cmp() {
                self.bl_label(label)
            } else {
                Some(())
            },
            Instruction::Ret => self.link_back(),
            Instruction::RetIf => if self.cmp() {
                self.link_back()
            } else {
                Some(())
            },
            Instruction::End => {
                return Some(Control::Exit);
            },
            Instruction::Put { a } => {
                return match self.put(a) {
                    Some(v) => Some(Control::Next(Some(Effect::Print(v)))),
                    None => None,
                };
            },
            Instruction::SysCall => {
                return match self.system_call() {
                    Some(e) => Some(Control::Next(e)),
                    None => None,
                };
            },
            Instruction::Assert => {
                if !self.cmp() {
                    return Some(Control::Failed);
                }
                Some(())
            },
            Instruction::Eq { a, b } => self.set_cmp(a, b, true),
            Instruction::NEq { a, b } => self.set_cmp(a, b, false),
        };
        match done {
            Some(_) => Some(Control::Next(None)),
            None => None,
        }
    }
}


/// The model of a step's result.
pub open spec fn status_result(r: Result<Status, MachineError>) -> Result<StatusModel, MachineError> {
    match r {
        Ok(s) => Ok(s@),
        Err(e) => Err(e),
    }
}

/// The model of a run's result.
pub open spec fn run_outcome(r: Result<Option<Effect>, MachineError>) -> Result<Option<EffectModel>, MachineError> {
    match r {
        Ok(e) => Ok(effect_model(e)),
        Err(e) => Err(e),
    }
}

/// `m` at the `@start` label.
pub open spec fn at_start(m: MachineModel) -> MachineModel {
    MachineModel { counter: m.labels["@start"@], ..m }
}

impl Machine<Loaded> {
    /// Executes the current instruction and moves on (see `step_spec`);
    /// `None`, with the machine unchanged, where the step fails.
    pub fn step_checked(&mut self) -> (r: Option<Result<Status, MachineError>>)
        requires
            old(self).wf(),
        ensures
            final(self).wf(),
            final(self).program() == old(self).program(),
            match r {
                Some(res) => step_spec(old(self).model(), old(self).program()) == Some(
                    (final(self).model(), status_result(res)),
                ),
                None => step_spec(old(self).model(), old(self).program()) is None
                    && final(self).model() == old(self).model(),
            },
    {
        let pc = self.internal.instruction_counter;
        if pc >= self.state.instructions.len() {
            return None;
        }
        assert(self.program()[pc as int] == self.state.instructions@[pc as int]@);
        let ghost before = self.model();
        let saved_registers = self.internal.registers;
        match self.internal.execute_instruction(&self.state.instructions[pc]) {
            Some(Control::Exit) => Some(Ok(Status::Exit)),
            Some(Control::Failed) => Some(Err(MachineError::AssertionFailed)),
            Some(Control::Next(e)) => {
                if self.internal.instruction_counter == usize::MAX {
                    proof {
                        lemma_exec_keeps_layout(before, self.program()[pc as int]);
                        lemma_jump_keeps_stack(before, self.program()[pc as int]);
                    }
                    self.internal.registers = saved_registers;
                    self.internal.instruction_counter = pc;
                    assert(self.model() =~= before);
                    return None;
                }
                self.internal.instruction_counter = self.internal.instruction_counter + 1;
                match e {
                    Some(e) => Some(Ok(Status::Effect(e))),
                    None => Some(Ok(Status::Continue)),
                }
            },
            None => None,
        }
    }

    /// Executes the current instruction and moves on (see `step_spec`):
    /// `Exit` at `end`, `Err` where an assertion fails, `Effect` where the
    /// instruction asks for outside work. Requires that the step does not fail
    /// (see `step_checked`).
    pub fn step(&mut self) -> (r: Result<Status, MachineError>)
        requires
            old(self).wf(),
            step_spec(old(self).model(), old(self).program()) is Some,
        ensures
            final(self).wf(),
            final(self).program() == old(self).program(),
            step_spec(old(self).model(), old(self).program()) == Some(
                (final(self).model(), status_result(r)),
            ),
    {
        match self.step_checked() {
            Some(r) => r,
            None => Ok(Status::Continue),
        }
    }

    /// Runs from the current instruction (see `run_n`) until the program
    /// ends (`Ok(None)`), runs past its last instruction (`Ok(None)`), fails
    /// an assertion (`Err`) or asks for outside work (`Ok(Some(effect))`,
    /// the machine past that instruction). Requires that this happens without
    /// a failing step.
    pub fn resume(&mut self) -> (r: Result<Option<Effect>, MachineError>)
        requires
            old(self).wf(),
            stops(old(self).model(), old(self).program()),
        ensures
            final(self).wf(),
            final(self).program() == old(self).program(),
            run_result(old(self).model(), old(self).program()) == RunModel::Done(
                final(self).model(),
                run_outcome(r),
            ),
    {
        let ghost p = self.program();
        let ghost fuel = choose|f: nat| run_n(old(self).model(), p, f) is Done;
        let ghost target = run_n(old(self).model(), p, fuel);
        let ghost mut left: nat = fuel;
        while self.internal.instruction_counter < self.state.instructions.len()
            invariant
                self.wf(),
                self.program() == p,
                p == old(self).program(),
                p.len() == self.state.instructions@.len(),
                target is Done,
                run_n(self.model(), p, left) == target,
                target == run_result(old(self).model(), p),
            decreases left,
        {
            let ghost cur = self.model();
            assert(left > 0) by {
                if left == 0 {
                    assert(run_n(cur, p, 0) is Running);
                }
            }
            match self.step_checked() {
                Some(Ok(Status::Continue)) => {
                    assert(run_n(cur, p, left) == run_n(self.model(), p, (left - 1) as nat));
                    proof {
                        left = (left - 1) as nat;
                    }
                },
                Some(Ok(Status::Exit)) => {
                    return Ok(None);
                },
                Some(Ok(Status::Effect(e))) => {
                    return Ok(Some(e));
                },
                Some(Err(e)) => {
                    return Err(e);
                },
                None => {
                    assert(false);
                    return Ok(None);
                },
            }
        }
        Ok(None)
    }

    /// Runs from the current instruction for at most `max_steps` steps (see
    /// `run_n`): `Stopped` where the run stops within them, `Fault` at a step
    /// that cannot be carried out, `Running` after `max_steps` steps that all
    /// went on. Running on from where it left off is running on from where
    /// it began.
    pub fn run_steps(&mut self, max_steps: usize) -> (r: Progress)
        requires
            old(self).wf(),
        ensures
            final(self).wf(),
            final(self).program() == old(self).program(),
            match r {
                Progress::Stopped(res) => run_n(old(self).model(), old(self).program(), max_steps as nat)
                    == RunModel::Done(final(self).model(), run_outcome(res)),
                Progress::Fault(n) => run_n(old(self).model(), old(self).program(), max_steps as nat) is Fault
                    && n < max_steps
                    && final(self).model().counter < old(self).program().len()
                    && step_spec(final(self).model(), old(self).program()) is None
                    && forall|k: nat|
                    #[trigger] run_n(final(self).model(), old(self).program(), k) == run_n(
                        old(self).model(),
                        old(self).program(),
                        n as nat + k,
                    ),
                Progress::Running => run_n(old(self).model(), old(self).program(), max_steps as nat) is Running
                    && forall|k: nat|
                    #[trigger] run_n(final(self).model(), old(self).program(), k) == run_n(
                        old(self).model(),
                        old(self).program(),
                        max_steps as nat + k,
                    ),
            },
    {
        let ghost p = self.program();
        let ghost m0 = self.model();
        let mut used: usize = 0;
        while used < max_steps
            invariant
                self.wf(),
                self.program() == p,
                p == old(self).program(),
                m0 == old(self).model(),
                p.len() == self.state.instructions@.len(),
                used <= max_steps,
                forall|k: nat| #[trigger] run_n(self.model(), p, k) == run_n(m0, p, used as nat + k),
            decreases max_steps - used,
        {
            let ghost cur = self.model();
            let ghost left: nat = (max_steps - used) as nat;
            assert(run_n(cur, p, left) == run_n(m0, p, used as nat + left));
            if self.internal.instruction_counter >= self.state.instructions.len() {
                return Progress::Stopped(Ok(None));
            }
            match self.step_checked() {
                Some(Ok(Status::Continue)) => {
                    proof {
                        assert forall|k: nat| #[trigger] run_n(self.model(), p, k) == run_n(m0, p, (used + 1) as nat + k) by {
                            assert(run_n(cur, p, k + 1) == run_n(self.model(), p, k));
                            assert(run_n(cur, p, k + 1) == run_n(m0, p, used as nat + (k + 1)));
                        }
                    }
                    used = used + 1;
                },
                Some(Ok(Status::Exit)) => {
                    return Progress::Stopped(Ok(None));
                },
                Some(Ok(Status::Effect(e))) => {
                    return Progress::Stopped(Ok(Some(e)));
                },
                Some(Err(e)) => {
                    return Progress::Stopped(Err(e));
                },
                None => {
                    assert(forall|k: nat| #[trigger] run_n(self.model(), p, k) == run_n(m0, p, used as nat + k));
                    return Progress::Fault(used);
                },
            }
        }
        assert(run_n(self.model(), p, 0) == run_n(m0, p, used as nat));
        if self.internal.instruction_counter >= self.state.instructions.len() {
            return Progress::Stopped(Ok(None));
        }
        Progress::Running
    }

    /// Moves to the `@start` label; `false`, with nothing changed, where the
    /// program has none.
    pub fn start(&mut self) -> (found: bool)
        requires
            old(self).wf(),
        ensures
            final(self).wf(),
            final(self).program() == old(self).program(),
            found == old(self).model().labels.contains_key("@start"@),
            found ==> final(self).model() == at_start(old(self).model()),
            !found ==> final(self).model() == old(self).model(),
    {
        let key = chars_of("@start");
        let target = match self.internal.labels.get(key.as_slice()) {
            Some(t) => *t,
            None => return false,
        };
        self.internal.set_counter(target);
        true
    }

    /// Runs the program from its `@start` label (see `resume`). Requires that
    /// the program has a `@start` label and that running stops without a
    /// failing step.
    pub fn run(&mut self) -> (r: Result<Option<Effect>, MachineError>)
        requires
            old(self).wf(),
            old(self).model().labels.contains_key("@start"@),
            stops(at_start(old(self).model()), old(self).program()),
        ensures
            final(self).wf(),
            final(self).program() == old(self).program(),
            run_result(at_start(old(self).model()), old(self).program()) == RunModel::Done(
                final(self).model(),
                run_outcome(r),
            ),
    {
        self.start();
        self.resume()
    }

    /// Copies `bytes` into the stack from `addr` on (the answer to a read
    /// effect).
    pub fn store_bytes(&mut self, addr: usize, bytes: &[u8])
        requires
            old(self).wf(),
            addr + bytes@.len() <= STACK_SIZE,
        ensures
            final(self).wf(),
            final(self).program() == old(self).program(),
            final(self).model() == (MachineModel {
                stack: write_bytes(old(self).model().stack, addr as int, bytes@),
                ..old(self).model()
            }),
    {
        let mut i: usize = 0;
        assert(write_bytes(old(self).model().stack, addr as int, bytes@.take(0)) =~= old(self).model().stack);
        while i < bytes.len()
            invariant
                self.wf(),
                self.program() == old(self).program(),
                addr + bytes@.len() <= STACK_SIZE,
                i <= bytes@.len(),
                self.model() == (MachineModel {
                    stack: write_bytes(old(self).model().stack, addr as int, bytes@.take(i as int)),
                    ..old(self).model()
                }),
            decreases bytes@.len() - i,
        {
            self.internal.set_byte(addr + i, bytes[i]);
            i = i + 1;
            assert(self.model().stack =~= write_bytes(old(self).model().stack, addr as int, bytes@.take(i as int)));
        }
        assert(bytes@.take(bytes@.len() as int) == bytes@);
    }

    /// The program.
    pub fn instructions(&self) -> (v: &Vec<Instruction>)
        ensures
            insts_model(v@) == self.program(),
    {
        &self.state.instructions
    }
}

impl<S: MachineState> Machine<S> {
    /// The stack's bytes.
    pub fn stack(&self) -> (s: &[u8; STACK_SIZE])
        requires
            self.wf(),
        ensures
            s@ == self.model().stack,
    {
        &self.internal.stack
    }

    /// The value of a register, if it holds one.
    pub fn register(&self, r: Reg) -> (v: Option<i32>)
        requires
            self.wf(),
        ensures
            v == (if self.model().registers.contains_key(r) {
                Some(self.model().registers[r])
            } else {
                None::<i32>
            }),
    {
        self.internal.reg_get(r)
    }

    /// The index of the current instruction.
    pub fn instruction_counter(&self) -> (c: usize)
        ensures
            c == self.model().counter,
    {
        self.internal.instruction_counter
    }
}

} // verus!
verus! {

/// Pushing a value and popping it into a register gives that register the
/// value's low byte and leaves the stack pointer where it was.
pub proof fn lemma_push_pop(m: MachineModel, a: ValueModel, dest: Reg)
    requires
        model_wf(m),
        eval(m, a) is Some,
        0 <= reg_value(m, Reg::StackPtr) < STACK_SIZE,
    ensures
        exec_inst(m, InstModel::Push { a }) matches Some((m1, Flow::Next(None)))
            && exec_inst(m1, InstModel::Pop { dest }) matches Some((m2, Flow::Next(None)))
            && reg_value(m2, dest) == (eval(m, a)->0 as u8) as i32
            && (dest != Reg::StackPtr ==> reg_value(m2, Reg::StackPtr) == reg_value(m, Reg::StackPtr))
            && m2.stack == m1.stack,
{
    reveal(exec_inst);
}

/// A load from the address a store just wrote reads the stored value's low
/// byte: the store puts that byte at `sp + offset`, and a load whose offset
/// operand still gives the same address after the store reads it back,
/// leaving the stack as the store left it.
pub proof fn lemma_store_load(m: MachineModel, a: ValueModel, offset: ValueModel, dest: Reg)
    requires
        model_wf(m),
        eval(m, a) is Some,
        eval(m, offset) is Some,
        stack_addr(m, eval(m, offset)->0) is Some,
    ensures
        exec_inst(m, InstModel::Store { a, offset }) matches Some((m1, Flow::Next(None)))
            && m1.stack == m.stack.update(stack_addr(m, eval(m, offset)->0)->0, eval(m, a)->0 as u8)
            && (eval(m1, offset) == eval(m, offset) ==> (exec_inst(m1, InstModel::Load { dest, offset })
            matches Some((m2, Flow::Next(None))) && reg_value(m2, dest) == (eval(m, a)->0 as u8) as i32
            && m2.stack == m1.stack)),
{
    reveal(exec_inst);
}

/// `push a` is a store of `a` at offset 0 followed by increasing the stack
/// pointer by one.
pub proof fn lemma_push_is_store_then_increment(m: MachineModel, a: ValueModel)
    requires
        model_wf(m),
        eval(m, a) is Some,
        0 <= reg_value(m, Reg::StackPtr) < STACK_SIZE,
    ensures
        exec_inst(m, InstModel::Store { a, offset: ValueModel::Lit(0) }) matches Some((m1, Flow::Next(None)))
            && exec_inst(m, InstModel::Push { a }) == Some(
            (with_reg(m1, Reg::StackPtr, (reg_value(m, Reg::StackPtr) + 1) as i32), Flow::Next(None)),
        ),
{
    reveal(exec_inst);
}

/// Every recorded label points at a label instruction of that name among the
/// first `n` instructions, and at the last of them.
pub proof fn lemma_labels_point_to_labels(insts: Seq<InstModel>, n: nat, name: Seq<char>)
    requires
        n <= insts.len() <= usize::MAX,
        labels_spec(Map::empty(), insts, n).contains_key(name),
    ensures
        ({
            let k = labels_spec(Map::empty(), insts, n)[name];
            &&& k < n
            &&& insts[k as int] == InstModel::Label { name }
            &&& forall|j: int| k < j < n ==> insts[j] != InstModel::Label { name }
        }),
    decreases n,
{
    if n == 0 {
        assert(labels_spec(Map::empty(), insts, 0) == Map::<Seq<char>, usize>::empty());
        return;
    }
    let l = labels_spec(Map::empty(), insts, (n - 1) as nat);
    let full = labels_spec(Map::empty(), insts, n);
    match insts[n - 1] {
        InstModel::Label { name: x } => {
            if x != name {
                assert(l.contains_key(name));
                lemma_labels_point_to_labels(insts, (n - 1) as nat, name);
                assert(full[name] == l[name]);
            } else {
                assert(full[name] == (n - 1) as usize);
            }
        },
        _ => {
            assert(full == l);
            lemma_labels_point_to_labels(insts, (n - 1) as nat, name);
        },
    }
}


/// Each data object's bytes lie at its address, and the last object of a
/// name is the one the name maps to.
pub proof fn lemma_data_layout(m: MachineModel, ds: Seq<(Seq<char>, DataModel)>, k: int)
    requires
        m.stack.len() == STACK_SIZE,
        data_len(ds) <= STACK_SIZE,
        0 <= k < ds.len(),
    ensures
        ({
            let r = load_data_spec(m, ds);
            let at = data_len(ds.take(k));
            let b = data_bytes(ds[k].1);
            &&& at + b.len() <= data_len(ds)
            &&& forall|j: int| 0 <= j < b.len() ==> r.stack[at + j] == b[j]
            &&& (forall|l: int| k < l < ds.len() ==> ds[l].0 != ds[k].0) ==> r.data[ds[k].0]
                == at as usize
        }),
    decreases ds.len(),
{
    let p = ds.drop_last();
    lemma_load_data_shape(m, p);
    lemma_data_len_prefix(ds, k + 1);
    assert(ds.take(k + 1).drop_last() == ds.take(k));
    assert(ds.take(k + 1).last() == ds[k]);
    if k == ds.len() - 1 {
        assert(ds.take(k) == p);
    } else {
        lemma_data_len_prefix(p, k + 1);
        assert(p.take(k) == ds.take(k));
        assert(p.take(k + 1) == ds.take(k + 1));
        assert(p[k] == ds[k]);
        lemma_data_layout(m, p, k);
        if forall|l: int| k < l < ds.len() ==> ds[l].0 != ds[k].0 {
            assert forall|l2: int| k < l2 < p.len() implies p[l2].0 != p[k].0 by {
                assert(p[l2] == ds[l2]);
            }
            assert(ds[ds.len() - 1] == ds.last());
        }
    }
}

} // verus!
verus! {

/// A step never moves a label or a data object, and keeps the machine's
/// shape: the stack's size, and a value in every register but the link
/// register.
pub proof fn lemma_step_keeps_layout(m: MachineModel, insts: Seq<InstModel>)
    requires
        model_wf(m),
        step_spec(m, insts) is Some,
    ensures
        ({
            let m2 = (step_spec(m, insts)->0).0;
            &&& model_wf(m2)
            &&& m2.labels == m.labels
            &&& m2.data == m.data
        }),
{
    lemma_exec_keeps_layout(m, insts[m.counter as int]);
}

/// An instruction that moves the index leaves the stack as it was.
proof fn lemma_jump_keeps_stack(m: MachineModel, i: InstModel)
    requires
        exec_inst(m, i) matches Some((m1, Flow::Next(_))) && m1.counter != m.counter,
    ensures
        (exec_inst(m, i)->0).0.stack == m.stack,
{
    reveal(exec_inst);
    match i {
        InstModel::Store { a, offset } => {},
        InstModel::Push { a } => {},
        _ => {},
    }
}

proof fn lemma_exec_keeps_layout(m: MachineModel, i: InstModel)
    requires
        model_wf(m),
        exec_inst(m, i) is Some,
    ensures
        ({
            let m1 = (exec_inst(m, i)->0).0;
            &&& model_wf(m1)
            &&& m1.labels == m.labels
            &&& m1.data == m.data
        }),
{
    reveal(exec_inst);
    match i {
        InstModel::Add { dest, a, b } => {},
        InstModel::Sub { dest, a, b } => {},
        InstModel::Mul { dest, a, b } => {},
        InstModel::Div { dest, a, b } => {},
        InstModel::And { dest, a, b } => {},
        InstModel::Or { dest, a, b } => {},
        InstModel::Xor { dest, a, b } => {},
        InstModel::NAnd { dest, a, b } => {},
        InstModel::NOr { dest, a, b } => {},
        InstModel::NXor { dest, a, b } => {},
        InstModel::Mov { dest, a } => {},
        InstModel::Not { dest, a } => {},
        InstModel::Neg { dest, a } => {},
        InstModel::Store { a, offset } => {},
        InstModel::Load { dest, offset } => {},
        InstModel::Push { a } => {},
        InstModel::Pop { dest } => {},
        InstModel::Bl { label } => {},
        InstModel::BlIf { label } => {},
        _ => {},
    }
}

/// A call (`bl`) keeps its own index in the link register and goes on after
/// the label; a return (`ret`) with that index in the link register goes on
/// right after the call.
pub proof fn lemma_call_return(m: MachineModel, insts: Seq<InstModel>, label: Seq<char>, r: MachineModel)
    requires
        m.counter < insts.len(),
        m.counter <= i32::MAX,
        insts[m.counter as int] == (InstModel::Bl { label }),
        m.labels.contains_key(label),
        m.labels[label] < usize::MAX,
        r.counter < insts.len(),
        insts[r.counter as int] == InstModel::Ret,
        r.registers.contains_key(Reg::Link),
        r.registers[Reg::Link] == m.counter as i32,
    ensures
        step_spec(m, insts) matches Some((m1, Ok(StatusModel::Continue))) && m1.counter
            == m.labels[label] + 1 && m1.registers[Reg::Link] == m.counter as i32,
        step_spec(r, insts) matches Some((r1, Ok(StatusModel::Continue))) && r1.counter
            == m.counter + 1,
{
    reveal(exec_inst);
}

} // verus!
verus! {

/// A step whose instruction goes on without an effect moves one past where
/// the instruction left the machine.
proof fn lemma_step_next(m: MachineModel, insts: Seq<InstModel>, p: MachineModel)
    requires
        m.counter < insts.len(),
        exec_inst(m, insts[m.counter as int]) == Some((p, Flow::Next(None))),
        p.counter < usize::MAX,
    ensures
        step_spec(m, insts) == Some(
            (MachineModel { counter: (p.counter + 1) as usize, ..p }, Ok::<StatusModel, MachineError>(StatusModel::Continue)),
        ),
{
}

/// Two steps of a program, a `push a` then a `pop dest`: the register gets the
/// low byte of `a`, the stack pointer is back where it was (unless it is
/// `dest`), the stack keeps the pushed byte, and the program goes on after
/// the pop.
pub proof fn lemma_push_pop_steps(m: MachineModel, insts: Seq<InstModel>, a: ValueModel, dest: Reg)
    requires
        model_wf(m),
        insts.len() <= usize::MAX,
        m.counter + 1 < insts.len(),
        insts[m.counter as int] == (InstModel::Push { a }),
        insts[m.counter + 1] == (InstModel::Pop { dest }),
        eval(m, a) is Some,
        0 <= reg_value(m, Reg::StackPtr) < STACK_SIZE,
    ensures
        step_spec(m, insts) matches Some((m1, Ok(StatusModel::Continue)))
            && step_spec(m1, insts) matches Some((m2, Ok(StatusModel::Continue)))
            && reg_value(m2, dest) == (eval(m, a)->0 as u8) as i32
            && (dest != Reg::StackPtr ==> reg_value(m2, Reg::StackPtr) == reg_value(m, Reg::StackPtr))
            && m2.stack == m.stack.update(reg_value(m, Reg::StackPtr) as int, eval(m, a)->0 as u8)
            && m2.counter == m.counter + 2,
{
    let sp = reg_value(m, Reg::StackPtr);
    let v = eval(m, a)->0;
    let p1 = with_reg(MachineModel { stack: m.stack.update(sp as int, v as u8), ..m }, Reg::StackPtr, (sp + 1) as i32);
    assert(exec_inst(m, insts[m.counter as int]) == Some((p1, Flow::Next(None)))) by {
        reveal(exec_inst);
    }
    let m1 = MachineModel { counter: (m.counter + 1) as usize, ..p1 };
    lemma_step_next(m, insts, p1);
    assert(reg_value(m1, Reg::StackPtr) == sp + 1);
    let p2 = with_reg(with_reg(m1, Reg::StackPtr, sp as i32), dest, m1.stack[sp as int] as i32);
    assert(exec_inst(m1, insts[m1.counter as int]) == Some((p2, Flow::Next(None)))) by {
        reveal(exec_inst);
    }
    lemma_step_next(m1, insts, p2);
}

/// Two steps of a program, a `str a offset` then an `ldr dest offset`
/// whose offset operand gives the same address after the store: the register
/// gets the low byte of `a`, which the stack holds at `sp + offset`, and the
/// program goes on after the load.
pub proof fn lemma_store_load_steps(m: MachineModel, insts: Seq<InstModel>, a: ValueModel, offset: ValueModel, dest: Reg)
    requires
        model_wf(m),
        insts.len() <= usize::MAX,
        m.counter + 1 < insts.len(),
        insts[m.counter as int] == (InstModel::Store { a, offset }),
        insts[m.counter + 1] == (InstModel::Load { dest, offset }),
        eval(m, a) is Some,
        eval(m, offset) is Some,
        stack_addr(m, eval(m, offset)->0) is Some,
        eval((exec_inst(m, InstModel::Store { a, offset })->0).0, offset) == eval(m, offset),
    ensures
        step_spec(m, insts) matches Some((m1, Ok(StatusModel::Continue)))
            && step_spec(m1, insts) matches Some((m2, Ok(StatusModel::Continue)))
            && reg_value(m2, dest) == (eval(m, a)->0 as u8) as i32
            && m2.stack == m1.stack
            && m1.stack == m.stack.update(stack_addr(m, eval(m, offset)->0)->0, eval(m, a)->0 as u8)
            && m2.counter == m.counter + 2,
{
    let o = eval(m, offset)->0;
    let addr = stack_addr(m, o)->0;
    let v = eval(m, a)->0;
    let p1 = MachineModel { stack: m.stack.update(addr, v as u8), ..m };
    assert(exec_inst(m, insts[m.counter as int]) == Some((p1, Flow::Next(None)))) by {
        reveal(exec_inst);
    }
    let m1 = MachineModel { counter: (m.counter + 1) as usize, ..p1 };
    lemma_step_next(m, insts, p1);
    assert(eval(m1, offset) == eval(p1, offset)) by {
        lemma_eval_ignores_counter(p1, offset, m1);
    }
    assert(stack_addr(m1, o) == Some(addr));
    let p2 = with_reg(m1, dest, m1.stack[addr] as i32);
    assert(exec_inst(m1, insts[m1.counter as int]) == Some((p2, Flow::Next(None)))) by {
        reveal(exec_inst);
    }
    lemma_step_next(m1, insts, p2);
}

/// Evaluating an operand does not look at the instruction index.
proof fn lemma_eval_ignores_counter(m: MachineModel, v: ValueModel, n: MachineModel)
    requires
        n == (MachineModel { counter: n.counter, ..m }),
    ensures
        eval(n, v) == eval(m, v),
    decreases v,
{
    match v {
        ValueModel::Deref(b) => lemma_eval_ignores_counter(m, *b, n),
        _ => {},
    }
}

} // verus!
verus! {

/// What the control instructions do: `br` moves to its label; `bl` moves
/// to its label and keeps the calling index in the link register; `ret`
/// moves to the index in the link register; an unknown label, or `ret`
/// without a link, cannot be carried out. Their conditional forms (`brif`,
/// `blif`, `retif`) do exactly the same when the comparison flag is set, and
/// nothing when it is clear. Nothing else changes.
pub proof fn lemma_control_transfer(m: MachineModel, label: Seq<char>)
    ensures
        m.labels.contains_key(label) ==> exec_inst(m, InstModel::Br { label }) == Some(
            (MachineModel { counter: m.labels[label], ..m }, Flow::Next(None)),
        ),
        m.labels.contains_key(label) ==> exec_inst(m, InstModel::Bl { label }) == Some(
            (
                MachineModel {
                    counter: m.labels[label],
                    registers: m.registers.insert(Reg::Link, m.counter as i32),
                    ..m
                },
                Flow::Next(None),
            ),
        ),
        !m.labels.contains_key(label) ==> exec_inst(m, InstModel::Br { label }) is None
            && exec_inst(m, InstModel::Bl { label }) is None,
        m.registers.contains_key(Reg::Link) ==> exec_inst(m, InstModel::Ret) == Some(
            (MachineModel { counter: m.registers[Reg::Link] as usize, ..m }, Flow::Next(None)),
        ),
        !m.registers.contains_key(Reg::Link) ==> exec_inst(m, InstModel::Ret) is None,
        m.registers[Reg::Cmp] == 1 ==> exec_inst(m, InstModel::BrIf { label }) == exec_inst(m, InstModel::Br { label })
            && exec_inst(m, InstModel::BlIf { label }) == exec_inst(m, InstModel::Bl { label })
            && exec_inst(m, InstModel::RetIf) == exec_inst(m, InstModel::Ret),
        m.registers[Reg::Cmp] != 1 ==> exec_inst(m, InstModel::BrIf { label }) == Some((m, Flow::Next(None)))
            && exec_inst(m, InstModel::BlIf { label }) == Some((m, Flow::Next(None)))
            && exec_inst(m, InstModel::RetIf) == Some((m, Flow::Next(None))),
{
    reveal(exec_inst);
}

/// A taken conditional call (`blif` with the flag set) is a call: it moves
/// past its label with its own index in the link register, and a `ret` with
/// that index in the link register goes on right after it.
pub proof fn lemma_conditional_call_return(m: MachineModel, insts: Seq<InstModel>, label: Seq<char>, r: MachineModel)
    requires
        m.counter < insts.len(),
        m.counter <= i32::MAX,
        insts[m.counter as int] == (InstModel::BlIf { label }),
        m.registers[Reg::Cmp] == 1,
        m.labels.contains_key(label),
        m.labels[label] < usize::MAX,
        r.counter < insts.len(),
        insts[r.counter as int] == InstModel::Ret,
        r.registers.contains_key(Reg::Link),
        r.registers[Reg::Link] == m.counter as i32,
    ensures
        step_spec(m, insts) matches Some((m1, Ok(StatusModel::Continue))) && m1.counter
            == m.labels[label] + 1 && m1.registers[Reg::Link] == m.counter as i32,
        step_spec(r, insts) matches Some((r1, Ok(StatusModel::Continue))) && r1.counter
            == m.counter + 1,
{
    reveal(exec_inst);
}

} // verus!
