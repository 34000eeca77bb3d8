//! A ppc64 (64-bit PowerPC, little-endian, ELFv2) code generator back end.
//!
//! Instructions are values of `inst::Inst`. `emit` turns them into words, on a log that
//! a `buffer::MachBuffer` keeps; the contracts say which words, by the mnemonics of
//! `mnem`. `constants` finds the fewest loads, ors, rotations and inversions, with at most
//! an add behind them, that build a constant. `abi`, `arg_locs` and `reg_sets` are the
//! calling convention, `operands` and `print` what a register allocator and a reader see
//! of an instruction, `isle` what lowering rules call upon, and `backend` the target.
//!
//! What the words do is stated in the modules whose names start with `laws`, over
//! models of the hardware: `machine` for fixed-point code, `memory` for memory and
//! vectors, `lanes` for vectors element by element, `laws_swap` for memory that is
//! shared, `laws_call` for calls, and `floating` for floating-point code.
pub mod abi;
pub mod arg_locs;
pub mod args;
pub mod backend;
pub mod buffer;
pub mod bytes;
pub mod constants;
pub mod cvt;
pub mod disas;
pub mod emit;
pub mod emit_atomic;
pub mod emit_fp;
pub mod emit_int;
pub mod emit_mem;
pub mod emit_vec;
pub mod encode;
pub mod fiber;
pub mod floating;
pub mod frame;
pub mod inst;
pub mod insts;
pub mod ir;
pub mod isle;
pub mod label_use;
pub mod lanes;
pub mod laws_access;
pub mod laws_args;
pub mod laws_atomic;
pub mod laws_call;
pub mod laws_const;
pub mod laws_emit;
pub mod laws_float;
pub mod laws_flow;
pub mod laws_fpu;
pub mod laws_frame;
pub mod laws_inst;
pub mod laws_int;
pub mod laws_lane;
pub mod laws_mem;
pub mod laws_ops;
pub mod laws_swap;
pub mod laws_tail;
pub mod laws_vec;
pub mod machine;
pub mod memory;
pub mod mnem;
pub mod names;
pub mod operands;
pub mod preg_set;
pub mod print;
pub mod reg_sets;
pub mod regs;
pub mod settings;
pub mod systemv;
pub mod text;
pub mod unwinder;
pub mod words;
