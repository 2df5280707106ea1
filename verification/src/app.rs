//! The editing state of the interactive front end.
use vstd::prelude::*;
use crate::reg::Reg;

verus! {

/// What keys currently act on.
#[derive(Clone, Copy, Debug, PartialEq, Eq, Structural)]
pub enum EditMode {
    Normal,
    /// Entering a command.
    Command,
    /// Editing instructions.
    Instruction,
    /// Editing the stack.
    Stack,
    /// Editing a register.
    Registers,
}

/// The front end's editing state: the command being typed, the command
/// history, and the position in each part of the program being edited (kept
/// here so that it survives a change of mode).
pub struct App {
    command: String,
    command_history: Vec<String>,
    command_history_idx: usize,
    command_edit_idx: usize,
    instruction_position: usize,
    stack_position: usize,
    register_being_edited: Reg,
    mode: EditMode,
}

/// The mathematical form of an `App`.
pub struct AppModel {
    pub command: Seq<char>,
    pub command_history: Seq<Seq<char>>,
    pub command_history_idx: usize,
    pub command_edit_idx: usize,
    pub instruction_position: usize,
    pub stack_position: usize,
    pub register_being_edited: Reg,
    pub mode: EditMode,
}

impl View for App {
    type V = AppModel;

    closed spec fn view(&self) -> AppModel {
        AppModel {
            command: self.command@,
            command_history: self.command_history@.map_values(|s: String| s@),
            command_history_idx: self.command_history_idx,
            command_edit_idx: self.command_edit_idx,
            instruction_position: self.instruction_position,
            stack_position: self.stack_position,
            register_being_edited: self.register_being_edited,
            mode: self.mode,
        }
    }
}

/// The mode that a key pressed in normal mode switches to: `c` command,
/// `r` registers, `s` stack; other keys keep `mode`.
pub open spec fn normal_key_mode(mode: EditMode, c: char) -> EditMode {
    if c == 'c' {
        EditMode::Command
    } else if c == 'r' {
        EditMode::Registers
    } else if c == 's' {
        EditMode::Stack
    } else {
        mode
    }
}

impl App {
    /// The starting state: normal mode, no command or history, every position
    /// at zero, editing register `%a`.
    pub fn new() -> (a: Self)
        ensures
            a@ == (AppModel {
                command: Seq::empty(),
                command_history: Seq::empty(),
                command_history_idx: 0,
                command_edit_idx: 0,
                instruction_position: 0,
                stack_position: 0,
                register_being_edited: Reg::A,
                mode: EditMode::Normal,
            }),
    {
        let a = Self {
            command: String::new(),
            command_history: Vec::new(),
            command_history_idx: 0,
            command_edit_idx: 0,
            instruction_position: 0,
            stack_position: 0,
            register_being_edited: Reg::A,
            mode: EditMode::Normal,
        };
        assert(a@.command_history =~= Seq::<Seq<char>>::empty());
        a
    }

    /// Handles a key pressed in normal mode: `q` asks to quit (returns
    /// `true`); `c`, `r` and `s` switch mode (see `normal_key_mode`); nothing
    /// else changes.
    pub fn match_normal_command(&mut self, c: char) -> (quit: bool)
        ensures
            quit == (c == 'q'),
            final(self)@ == (AppModel { mode: normal_key_mode(old(self)@.mode, c), ..old(self)@ }),
            c == 'c' ==> final(self)@.mode == EditMode::Command,
            c == 'r' ==> final(self)@.mode == EditMode::Registers,
            c == 's' ==> final(self)@.mode == EditMode::Stack,
            c != 'c' && c != 'r' && c != 's' ==> final(self)@ == old(self)@,
    {
        match c {
            'q' => {
                return true;
            },
            'c' => self.mode = EditMode::Command,
            'r' => self.mode = EditMode::Registers,
            's' => self.mode = EditMode::Stack,
            _ => {},
        };
        false
    }

    /// The current mode.
    pub fn mode(&self) -> (m: EditMode)
        ensures
            m == self@.mode,
    {
        self.mode
    }
}

/// In normal mode only three keys change the mode: `c` to entering a
/// command, `r` to editing registers, `s` to editing the stack; every other
/// key, `q` included, leaves the mode as it was.
pub proof fn lemma_normal_keys(mode: EditMode, c: char)
    ensures
        c == 'c' ==> normal_key_mode(mode, c) == EditMode::Command,
        c == 'r' ==> normal_key_mode(mode, c) == EditMode::Registers,
        c == 's' ==> normal_key_mode(mode, c) == EditMode::Stack,
        c != 'c' && c != 'r' && c != 's' ==> normal_key_mode(mode, c) == mode,
{
}

} // verus!
