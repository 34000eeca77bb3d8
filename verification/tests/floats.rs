//! Floating-point code: the emitted words are run on real doubles.
use ppc64::args::{CondBrTarget, FloatCompare, IntegerCompare};
use ppc64::buffer::{Emission, MachBuffer, MachLabel};
use ppc64::emit::{EmitInfo, EmitState};
use ppc64::frame::FrameLayout;
use ppc64::inst::Inst;
use ppc64::ir::{FloatCC, FunctionCalls, IntCC, Ppc64Flags, SharedFlags, TrapCode, Type};
use ppc64::regs::{fpr, gpr, Reg, Writable};

#[derive(Clone)]
struct Cpu {
    gpr: [u64; 32],
    fpr: [f64; 32],
    /// Less, greater, equal, unordered.
    cr: [bool; 4],
}

#[derive(Debug, PartialEq)]
enum End {
    Done,
    Trapped(TrapCode),
    Jumped(u32),
}

fn cpu() -> Cpu {
    Cpu { gpr: [0; 32], fpr: [0.0; 32], cr: [false; 4] }
}

fn step(c: &mut Cpu, w: u32) {
    let f1 = (w >> 21 & 31) as usize;
    let f2 = (w >> 16 & 31) as usize;
    let f3 = (w >> 11 & 31) as usize;
    let imm = (w & 0xFFFF) as u16;
    let base = if f2 == 0 { 0 } else { c.gpr[f2] };
    match (w >> 26, w >> 1 & 0x3FF) {
        (14, _) => c.gpr[f1] = base.wrapping_add(imm as i16 as u64),
        (15, _) => c.gpr[f1] = base.wrapping_add((imm as i16 as i64 * 0x1_0000) as u64),
        (24, _) => c.gpr[f2] = c.gpr[f1] | imm as u64,
        (25, _) => c.gpr[f2] = c.gpr[f1] | (imm as u64) << 16,
        (30, _) => {
            let turned = c.gpr[f1].rotate_left((w >> 11 & 31) | (w >> 1 & 1) << 5);
            let bound = (w >> 6 & 31) | (w >> 5 & 1) << 5;
            c.gpr[f2] = match w >> 2 & 7 {
                0 => turned & (u64::MAX >> bound),
                _ => turned & (u64::MAX << (63 - bound)),
            };
        }
        (21, _) => {
            let turned = (c.gpr[f1] as u32).rotate_left(f3 as u32) as u64;
            let (begin, end) = (w >> 6 & 31, w >> 1 & 31);
            c.gpr[f2] = turned & (u32::MAX >> begin) as u64 & u64::MAX << (31 - end);
        }
        (31, 124) => c.gpr[f2] = !(c.gpr[f1] | c.gpr[f3]),
        (31, 51) => c.gpr[f2] = c.fpr[f1].to_bits(),
        (31, 179) => c.fpr[f1] = f64::from_bits(c.gpr[f2]),
        (31, 0) => {
            let (a, b) = (c.gpr[f2] as i64, c.gpr[f3] as i64);
            c.cr = [a < b, a > b, a == b, false];
        }
        (31, 32) => {
            let (a, b) = (c.gpr[f2], c.gpr[f3]);
            c.cr = [a < b, a > b, a == b, false];
        }
        (31, xo) if xo & 31 == 15 => {
            let bit = c.cr[(w >> 6 & 31) as usize];
            c.gpr[f1] = if bit { base } else { c.gpr[f3] };
        }
        (63, 0) => {
            let (a, b) = (c.fpr[f2], c.fpr[f3]);
            c.cr = [a < b, a > b, a == b, a.is_nan() || b.is_nan()];
        }
        (19, 449) => c.cr[f1] = c.cr[f2] || c.cr[f3],
        (63, 815) => c.fpr[f1] = f64::from_bits(c.fpr[f3] as i64 as u64),
        (63, 943) => c.fpr[f1] = f64::from_bits(c.fpr[f3] as u64),
        (63, 15) => c.fpr[f1] = f64::from_bits(c.fpr[f3] as i32 as i64 as u64),
        (63, 143) => c.fpr[f1] = f64::from_bits(c.fpr[f3] as u32 as u64),
        (63, 21) => c.fpr[f1] = c.fpr[f2] + c.fpr[f3],
        (60, _) => {
            let (a, b) = (c.fpr[f2], c.fpr[f3]);
            c.fpr[f1] = match w >> 3 & 0xFF {
                160 => a.max(b),
                168 => a.min(b),
                _ => panic!("another operation"),
            };
        }
        _ => panic!("{w:#010x}"),
    }
}

fn run(c: &mut Cpu, inst: Inst) -> End {
    let frame = FrameLayout {
        word_bytes: 8,
        incoming_args_size: 0,
        tail_args_size: 0,
        setup_area_size: 16,
        clobber_size: 0,
        fixed_frame_storage_size: 0,
        stackslots_size: 0,
        outgoing_args_size: 0,
        clobbered_callee_saves: vec![],
        function_calls: FunctionCalls::Regular,
    };
    let shared = SharedFlags {
        preserve_frame_pointers: false,
        unwind_info: false,
        enable_multi_ret_implicit_sret: false,
    };
    let info = EmitInfo::new(shared, Ppc64Flags { has_isa_3_0: false, has_isa_3_1: false });
    let mut sink = MachBuffer::new();
    inst.emit(&mut sink, &info, &mut EmitState::new(frame));
    let log = sink.log();
    let mut pc = 0;
    let mut label = None;
    while pc < log.len() {
        match &log[pc] {
            Emission::Word(x) if x >> 26 == 16 || x >> 26 == 18 => {
                let bit = c.cr[(x >> 16 & 3) as usize];
                let taken = x >> 26 == 18 || (x >> 21 & 31 == 12) == bit;
                let mut words = (x & 0xFFFC) / 4;
                if taken && words == 0 {
                    return End::Jumped(label.unwrap());
                }
                if !taken {
                    words = 1;
                }
                while words > 0 {
                    if let Emission::Word(_) = log[pc] {
                        words -= 1;
                    }
                    pc += 1;
                }
                continue;
            }
            Emission::Word(x) => step(c, *x),
            Emission::Trap { code } => return End::Trapped(*code),
            Emission::UseLabel { label: l, .. } => label = Some(l.index),
            _ => {}
        }
        pc += 1;
    }
    End::Done
}

fn w(r: Reg) -> Writable<Reg> {
    Writable::from_reg(r)
}

fn to_int(x: f64, signed: bool, sat: bool, in_ty: Type, out_ty: Type) -> (End, u64) {
    let mut c = cpu();
    c.fpr[2] = x;
    let end = run(
        &mut c,
        Inst::FpuToInt { rd: w(gpr(3)), tmp: w(fpr(4)), rn: fpr(2), signed, sat, in_ty, out_ty },
    );
    (end, c.gpr[3])
}

#[test]
fn conversions_trap_outside_their_type() {
    let bad = End::Trapped(TrapCode::BadConversionToInteger);
    let overflow = End::Trapped(TrapCode::IntegerOverflow);
    let s = |x, ty| to_int(x, true, false, Type::F64, ty);
    let u = |x, ty| to_int(x, false, false, Type::F64, ty);
    assert_eq!(s(f64::NAN, Type::I32).0, bad);
    assert_eq!(u(f64::NAN, Type::I64).0, bad);
    // The whole range converts, and not a step further.
    assert_eq!(s(127.9, Type::I8), (End::Done, 127));
    assert_eq!(s(128.0, Type::I8).0, overflow);
    assert_eq!(s(-128.9, Type::I8), (End::Done, -128i64 as u64));
    assert_eq!(s(-129.0, Type::I8).0, overflow);
    assert_eq!(u(255.9, Type::I8), (End::Done, 255));
    assert_eq!(u(256.0, Type::I8).0, overflow);
    assert_eq!(u(-0.9, Type::I8), (End::Done, 0));
    assert_eq!(u(-1.0, Type::I8).0, overflow);
    assert_eq!(s(32767.9, Type::I16), (End::Done, 32767));
    assert_eq!(s(32768.0, Type::I16).0, overflow);
    assert_eq!(s(2147483647.9, Type::I32), (End::Done, 2147483647));
    assert_eq!(s(2147483648.0, Type::I32).0, overflow);
    assert_eq!(s(-2147483648.9, Type::I32), (End::Done, -2147483648i64 as u64));
    assert_eq!(s(-2147483649.0, Type::I32).0, overflow);
    assert_eq!(u(4294967295.9, Type::I32), (End::Done, 4294967295));
    assert_eq!(u(4294967296.0, Type::I32).0, overflow);
    assert_eq!(s(-9223372036854775808.0, Type::I64), (End::Done, 1 << 63));
    assert_eq!(s(9223372036854775808.0, Type::I64).0, overflow);
    assert_eq!(u(18446744073709549568.0, Type::I64), (End::Done, 18446744073709549568));
    assert_eq!(u(18446744073709551616.0, Type::I64).0, overflow);
    assert_eq!(s(f64::INFINITY, Type::I64).0, overflow);
    assert_eq!(s(f64::NEG_INFINITY, Type::I32).0, overflow);
    // A single has no number strictly between its bound and the range.
    let single = to_int(-2147483648.0, true, false, Type::F32, Type::I32);
    assert_eq!(single, (End::Done, -2147483648i64 as u64));
    assert_eq!(to_int(-2147483904.0, true, false, Type::F32, Type::I32).0, overflow);
}

#[test]
fn conversions_saturate() {
    let s = |x, ty| to_int(x, true, true, Type::F64, ty);
    let u = |x, ty| to_int(x, false, true, Type::F64, ty);
    assert_eq!(s(f64::NAN, Type::I64), (End::Done, 0));
    assert_eq!(u(f64::NAN, Type::I32), (End::Done, 0));
    assert_eq!(s(1e30, Type::I64), (End::Done, i64::MAX as u64));
    assert_eq!(s(-1e30, Type::I64), (End::Done, i64::MIN as u64));
    assert_eq!(u(-5.0, Type::I64), (End::Done, 0));
    assert_eq!(s(-7.9, Type::I64), (End::Done, -7i64 as u64));
    assert_eq!(u(1e10, Type::I32).1 as u32, u32::MAX);
}

#[test]
fn minimum_and_maximum_pass_on_what_is_no_number() {
    let both = |a: f64, b: f64, is_max| {
        let mut c = cpu();
        c.fpr[2] = a;
        c.fpr[3] = b;
        let inst = Inst::FpuMinMax { rd: w(fpr(1)), ra: fpr(2), rb: fpr(3), is_max };
        assert_eq!(run(&mut c, inst), End::Done);
        c.fpr[1]
    };
    assert_eq!(both(1.0, 2.0, true), 2.0);
    assert_eq!(both(1.0, 2.0, false), 1.0);
    assert!(both(f64::NAN, 2.0, false).is_nan());
    assert!(both(1.0, f64::NAN, true).is_nan());
}

fn conditions() -> Vec<(FloatCC, [bool; 4])> {
    // Less, greater, equal, unordered.
    vec![
        (FloatCC::Ordered, [true, true, true, false]),
        (FloatCC::Unordered, [false, false, false, true]),
        (FloatCC::Equal, [false, false, true, false]),
        (FloatCC::NotEqual, [true, true, false, true]),
        (FloatCC::OrderedNotEqual, [true, true, false, false]),
        (FloatCC::UnorderedOrEqual, [false, false, true, true]),
        (FloatCC::LessThan, [true, false, false, false]),
        (FloatCC::LessThanOrEqual, [true, false, true, false]),
        (FloatCC::GreaterThan, [false, true, false, false]),
        (FloatCC::GreaterThanOrEqual, [false, true, true, false]),
        (FloatCC::UnorderedOrLessThan, [true, false, false, true]),
        (FloatCC::UnorderedOrLessThanOrEqual, [true, false, true, true]),
        (FloatCC::UnorderedOrGreaterThan, [false, true, false, true]),
        (FloatCC::UnorderedOrGreaterThanOrEqual, [false, true, true, true]),
    ]
}

fn pairs() -> [(f64, f64); 4] {
    [(1.0, 2.0), (2.0, 1.0), (1.5, 1.5), (1.0, f64::NAN)]
}

#[test]
fn a_float_comparison_becomes_a_register() {
    for (cc, holds) in conditions() {
        for (k, (a, b)) in pairs().into_iter().enumerate() {
            let mut c = cpu();
            c.fpr[2] = a;
            c.fpr[3] = b;
            let kind = FloatCompare { kind: cc, rs1: fpr(2), rs2: fpr(3) };
            assert_eq!(run(&mut c, Inst::FpuCmpSet { rd: w(gpr(5)), kind }), End::Done);
            assert_eq!(c.gpr[5], holds[k] as u64);
        }
    }
}

#[test]
fn a_float_comparison_branches() {
    let taken = CondBrTarget::Label(MachLabel { index: 1 });
    let other = CondBrTarget::Label(MachLabel { index: 2 });
    for (cc, holds) in conditions() {
        for (k, (a, b)) in pairs().into_iter().enumerate() {
            let mut c = cpu();
            c.fpr[2] = a;
            c.fpr[3] = b;
            let kind = FloatCompare { kind: cc, rs1: fpr(2), rs2: fpr(3) };
            let end = run(&mut c, Inst::FpuCondBr { taken, not_taken: other, kind });
            assert_eq!(end, End::Jumped(if holds[k] { 1 } else { 2 }));
        }
    }
}

#[test]
fn a_double_is_chosen() {
    for (cc, x, y, first) in [
        (IntCC::SignedLessThan, 1, 2, true),
        (IntCC::SignedLessThan, 2, 1, false),
        (IntCC::SignedGreaterThanOrEqual, 2, 1, true),
        (IntCC::NotEqual, 3, 3, false),
        (IntCC::Equal, 3, 3, true),
    ] {
        let mut c = cpu();
        c.gpr[4] = x;
        c.gpr[5] = y;
        c.fpr[2] = 0.5;
        c.fpr[3] = 0.25;
        let kind = IntegerCompare { kind: cc, rs1: gpr(4), rs2: gpr(5), is_64: true };
        let inst = Inst::FpuSelect { rd: w(fpr(1)), kind, rt: fpr(2), rf: fpr(3) };
        assert_eq!(run(&mut c, inst), End::Done);
        assert_eq!(c.fpr[1], if first { 0.5 } else { 0.25 });
    }
}
