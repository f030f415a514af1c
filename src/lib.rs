// The processor and address space of a Game-Boy-class machine.
//
// - registers: the register file, its byte halves and its flags
// - bus: the memory map, the backing stores and address routing
// - decode: the operand selectors of the opcode bitfields
// - engine: the instruction set and the step of the processor
// - game_boy: the machine that owns a processor and its bus

pub mod bus;
pub mod decode;
pub mod engine;
pub mod game_boy;
pub mod registers;
