//! Code generators, one per target machine.

use vstd::prelude::*;
use crate::error::{CompileError, CompileErrorView};
use crate::ir::ast::{Program, StatementView};

pub mod address_space;
pub mod chip8;
pub mod emitter;
pub mod execution;

verus! {

/// What the result of a compilation stands for.
pub open spec fn compiled_view(result: Result<Vec<u8>, CompileError>) -> Result<
    Seq<u8>,
    CompileErrorView,
> {
    match result {
        Ok(code) => Ok(code@),
        Err(error) => Err(error@),
    }
}

/// A code generator.
pub trait Backend {
    /// The machine code that the backend, in the state it is in, gives for
    /// a program; or the error that the program runs into.
    spec fn lowered(&self, program: Seq<StatementView>) -> Result<Seq<u8>, CompileErrorView>;

    /// Compiles a program to machine code.
    fn compile(&mut self, program: &Program) -> (result: Result<Vec<u8>, CompileError>)
        ensures
            compiled_view(result) == old(self).lowered(program@),
    ;
}

impl Backend for chip8::Chip8Backend {
    open spec fn lowered(&self, program: Seq<StatementView>) -> Result<Seq<u8>, CompileErrorView> {
        match self@.lower_program(program).error {
            None => Ok(self@.lower_program(program).state.code),
            Some(error) => Err(error),
        }
    }

    fn compile(&mut self, program: &Program) -> (result: Result<Vec<u8>, CompileError>) {
        self.compile_program(program)
    }
}

/// The targets that the compiler knows.
#[derive(Debug, Clone, Copy, PartialEq, Eq, Structural)]
pub enum BackendType {
    /// The CHIP-8 virtual machine.
    Chip8,
}

impl BackendType {
    /// The name that selects the target on the command line.
    pub open spec fn name_spec(self) -> Seq<char> {
        match self {
            BackendType::Chip8 => "chip8"@,
        }
    }

    /// A line that says what the target is.
    pub open spec fn description_spec(self) -> Seq<char> {
        match self {
            BackendType::Chip8 => "CHIP-8 virtual machine"@,
        }
    }

    /// Every target, in the order in which they are listed.
    pub fn all() -> (targets: Vec<BackendType>)
        ensures
            targets@ == seq![BackendType::Chip8],
    {
        let mut targets: Vec<BackendType> = Vec::new();
        targets.push(BackendType::Chip8);
        assert(targets@ =~= seq![BackendType::Chip8]);
        targets
    }

    /// The name that selects the target on the command line.
    pub fn name(&self) -> (name: &'static str)
        ensures
            name@ == self.name_spec(),
    {
        match self {
            BackendType::Chip8 => "chip8",
        }
    }

    /// A line that says what the target is.
    pub fn description(&self) -> (description: &'static str)
        ensures
            description@ == self.description_spec(),
    {
        match self {
            BackendType::Chip8 => "CHIP-8 virtual machine",
        }
    }

    /// The target of the given name, if there is one.
    pub open spec fn named(name: Seq<char>) -> Option<BackendType> {
        if name == BackendType::Chip8.name_spec() {
            Some(BackendType::Chip8)
        } else {
            None
        }
    }

    /// Looks a target up by its name.
    pub fn from_name(name: &str) -> (target: Option<BackendType>)
        ensures
            target == BackendType::named(name@),
    {
        if crate::text::same_text(name, BackendType::Chip8.name()) {
            Some(BackendType::Chip8)
        } else {
            None
        }
    }

    /// A fresh code generator for the target.
    pub fn create(&self) -> (backend: AnyBackend)
        ensures
            backend.target() == *self,
            backend.state() == emitter::Emitter::new(),
    {
        match self {
            BackendType::Chip8 => AnyBackend::Chip8(chip8::Chip8Backend::new()),
        }
    }
}

/// A code generator for any of the targets. Each carries the state of its
/// own emission; nothing is shared between them.
pub enum AnyBackend {
    Chip8(chip8::Chip8Backend),
}

impl AnyBackend {
    /// The target that the code generator is for.
    pub open spec fn target(&self) -> BackendType {
        match self {
            AnyBackend::Chip8(_) => BackendType::Chip8,
        }
    }

    /// The state of the emission.
    pub open spec fn state(&self) -> emitter::Emitter {
        match self {
            AnyBackend::Chip8(backend) => backend@,
        }
    }
}

impl Backend for AnyBackend {
    open spec fn lowered(&self, program: Seq<StatementView>) -> Result<Seq<u8>, CompileErrorView> {
        match self {
            AnyBackend::Chip8(backend) => backend.lowered(program),
        }
    }

    fn compile(&mut self, program: &Program) -> (result: Result<Vec<u8>, CompileError>) {
        match self {
            AnyBackend::Chip8(backend) => backend.compile_program(program),
        }
    }
}

} // verus!
