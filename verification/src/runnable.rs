//! What a step of the machine reports, the machine's load states, and the
//! interface of a loadable, runnable machine.
use vstd::prelude::*;
use crate::assembler::{Data, DataModel, data_model, insts_model};
use crate::instruction::{Instruction, InstModel};

verus! {

/// Work outside the machine that an instruction asks for. The machine has
/// already done its own part (and moved past the instruction) when it reports one.
#[derive(Debug)]
pub enum Effect {
    /// `put`: print a number on its own line.
    Print(i32),
    /// System call 1: end the process with status 0.
    Terminate,
    /// System call 3: read at most `len` bytes from file descriptor `fd` into
    /// the stack from `addr` on (see `Machine::store_bytes`).
    Read { fd: i32, addr: usize, len: usize },
    /// System call 4: write `bytes` (taken from the stack) to file descriptor `fd`.
    Write { fd: i32, bytes: Vec<u8> },
}

/// The mathematical form of an `Effect`.
pub enum EffectModel {
    Print(i32),
    Terminate,
    Read { fd: i32, addr: usize, len: usize },
    Write { fd: i32, bytes: Seq<u8> },
}

impl View for Effect {
    type V = EffectModel;

    open spec fn view(&self) -> EffectModel {
        match self {
            Effect::Print(n) => EffectModel::Print(*n),
            Effect::Terminate => EffectModel::Terminate,
            Effect::Read { fd, addr, len } => EffectModel::Read { fd: *fd, addr: *addr, len: *len },
            Effect::Write { fd, bytes } => EffectModel::Write { fd: *fd, bytes: bytes@ },
        }
    }
}

/// What one step of the machine reports.
#[derive(Debug)]
pub enum Status {
    /// Go on with the next instruction.
    Continue,
    /// The program ended (`end`).
    Exit,
    /// Go on after performing the effect.
    Effect(Effect),
}

/// The mathematical form of a `Status`.
pub enum StatusModel {
    Continue,
    Exit,
    Effect(EffectModel),
}

impl View for Status {
    type V = StatusModel;

    open spec fn view(&self) -> StatusModel {
        match self {
            Status::Continue => StatusModel::Continue,
            Status::Exit => StatusModel::Exit,
            Status::Effect(e) => StatusModel::Effect(e@),
        }
    }
}

/// Why running a program failed.
#[derive(Clone, Copy, Debug, PartialEq, Eq, Structural)]
pub enum MachineError {
    /// `assert` found the comparison flag clear.
    AssertionFailed,
}

/// A machine that has been given its program.
pub struct Loaded {
    pub instructions: Vec<Instruction>,
}

/// A machine without a program.
pub struct Unloaded {}

/// The load states of a machine.
pub trait MachineState {

}

impl MachineState for Loaded {

}

impl MachineState for Unloaded {

}

/// A machine that takes data and a program, finds its labels and runs it.
/// An implementation names, by the spec functions below, the state that each
/// loading step leaves it in; `load_all` is the three steps in order.
pub trait Runnable<'a>: Sized {
    /// The state after loading the data objects `data`.
    spec fn with_data(self, data: Seq<(Seq<char>, DataModel)>) -> Self;

    /// The state after loading the program `instructions`.
    spec fn with_instructions(self, instructions: Seq<InstModel>) -> Self;

    /// The state after recording the labels of the program.
    spec fn with_labels(self) -> Self;

    fn load_data(&mut self, data: &[(String, Data)])
        ensures
            *final(self) == old(self).with_data(data_model(data@)),
    ;

    fn load_instructions(&mut self, instructions: &'a [Instruction])
        ensures
            *final(self) == old(self).with_instructions(insts_model(instructions@)),
    ;

    fn load_labels(&mut self)
        ensures
            *final(self) == old(self).with_labels(),
    ;

    /// Loads the data objects, then the program, then records the labels.
    fn load_all(&mut self, data: &[(String, Data)], instructions: &'a [Instruction])
        ensures
            *final(self) == old(self).with_data(data_model(data@)).with_instructions(
                insts_model(instructions@),
            ).with_labels(),
    {
        self.load_data(data);
        self.load_instructions(instructions);
        self.load_labels();
    }

    fn run(&mut self) -> Result<(), MachineError>;

    fn step(&mut self) -> Result<Status, MachineError>;
}

} // verus!
