//! A small stack-based bytecode interpreter, verified with Verus.
//!
//! A program is a flat stream of signed 32-bit words. The engine executes it
//! against a bounded operand stack. Every function of the engine is specified
//! against an abstract machine ([`machine::Machine`]) whose single-step
//! relation ([`machine::step`]) is the definition of the instruction set.

pub mod fault;
pub mod inspect;
pub mod laws;
pub mod loader;
pub mod machine;
pub mod opcode;
pub mod repl;
pub mod text;
pub mod vm;

pub use fault::Fault;
pub use machine::STACK_CAPACITY;
pub use opcode::OpCode;
pub use repl::Repl;
pub use vm::Vm;
