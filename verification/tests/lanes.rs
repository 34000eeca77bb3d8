//! Vectors, lane by lane: the emitted words are run on concrete values.
use ppc64::args::AMode;
use ppc64::buffer::{Emission, MachBuffer};
use ppc64::emit::{EmitInfo, EmitState};
use ppc64::frame::FrameLayout;
use ppc64::inst::{Inst, VecAluOp};
use ppc64::ir::{FunctionCalls, MemFlagsData, Ppc64Flags, SharedFlags, Type};
use ppc64::regs::{fpr, gpr, vr, Reg, Writable};

struct Cpu {
    gpr: [u64; 32],
    /// The most significant byte first.
    vsr: [[u8; 16]; 64],
    mem: Vec<u8>,
    every: bool,
    none: bool,
}

fn cpu() -> Cpu {
    let mut c = Cpu {
        gpr: [0; 32],
        vsr: [[0; 16]; 64],
        mem: vec![0; 256],
        every: false,
        none: false,
    };
    c.gpr[1] = 128;
    for n in 2..32 {
        c.gpr[n] = 0x0102_0304_0506_0708u64.wrapping_mul(n as u64 + 7);
    }
    for n in 0..64 {
        for k in 0..16 {
            c.vsr[n][k] = (n * 16 + k * 3) as u8;
        }
    }
    c
}

fn step(c: &mut Cpu, w: u32) {
    let f1 = (w >> 21 & 31) as usize;
    let f2 = (w >> 16 & 31) as usize;
    let f3 = (w >> 11 & 31) as usize;
    let base = if f2 == 0 { 0 } else { c.gpr[f2] };
    let d = base.wrapping_add((w & 0xFFFF) as u16 as i16 as u64) as usize;
    let x = base.wrapping_add(c.gpr[f3]) as usize;
    let xt = f1 + 32 * (w & 1) as usize;
    let put = |mem: &mut Vec<u8>, at: usize, v: u64, n: usize| {
        mem[at..at + n].copy_from_slice(&v.to_le_bytes()[..n]);
    };
    match (w >> 26, w >> 1 & 0x3FF) {
        (14, _) => c.gpr[f1] = base.wrapping_add((w & 0xFFFF) as u16 as i16 as u64),
        (38, _) => put(&mut c.mem, d, c.gpr[f1], 1),
        (44, _) => put(&mut c.mem, d, c.gpr[f1], 2),
        (36, _) => put(&mut c.mem, d, c.gpr[f1], 4),
        (62, _) => put(&mut c.mem, d, c.gpr[f1], 8),
        (54, _) => {
            let mut v = [0; 8];
            v.copy_from_slice(&c.vsr[f1][..8]);
            put(&mut c.mem, d, u64::from_be_bytes(v), 8);
        }
        (31, 51) => {
            let mut v = [0; 8];
            v.copy_from_slice(&c.vsr[xt][..8]);
            c.gpr[f2] = u64::from_be_bytes(v);
        }
        (31, 179) => {
            let v = c.gpr[f2].to_be_bytes();
            c.vsr[xt] = [0xEE; 16];
            c.vsr[xt][..8].copy_from_slice(&v);
        }
        (31, 268) => {
            for k in 0..16 {
                c.vsr[xt][k] = c.mem[x + 15 - k];
            }
        }
        (31, 396) => {
            for k in 0..16 {
                c.mem[x + 15 - k] = c.vsr[xt][k];
            }
        }
        (31, 844) => {
            for k in 0..8 {
                c.vsr[xt][k] = c.mem[x + 7 - k];
                c.vsr[xt][8 + k] = c.mem[x + 15 - k];
            }
        }
        (31, 972) => {
            for k in 0..8 {
                c.mem[x + 7 - k] = c.vsr[xt][k];
                c.mem[x + 15 - k] = c.vsr[xt][8 + k];
            }
        }
        (31, xo) if xo & 31 == 15 => {
            let bit = match w >> 6 & 31 {
                24 => c.every,
                26 => c.none,
                _ => panic!("another condition"),
            };
            c.gpr[f1] = if bit { base } else { c.gpr[f3] };
        }
        (60, _) => {
            let a = c.vsr[f2 + 32 * (w >> 2 & 1) as usize];
            let b = c.vsr[f3 + 32 * (w >> 1 & 1) as usize];
            let xo = w >> 3 & 0xFF;
            let mut v = [0; 16];
            if xo & 0x9F == 10 {
                let i = 8 * (xo >> 6 & 1) as usize;
                let j = 8 * (xo >> 5 & 1) as usize;
                v[..8].copy_from_slice(&a[i..i + 8]);
                v[8..].copy_from_slice(&b[j..j + 8]);
            } else {
                for k in 0..16 {
                    v[k] = match xo {
                        130 => a[k] & b[k],
                        138 => a[k] & !b[k],
                        146 => a[k] | b[k],
                        154 => a[k] ^ b[k],
                        162 => !(a[k] | b[k]),
                        _ => panic!("another operation"),
                    };
                }
            }
            c.vsr[xt] = v;
        }
        (4, _) => {
            let a = c.vsr[32 + f2];
            let b = c.vsr[32 + f3];
            let xo = w & 0x7FF;
            let mut v = [0; 16];
            if let Some(n) = [(524, 1), (588, 2), (652, 4)].iter().find(|p| p.0 == xo) {
                for k in 0..16 {
                    v[k] = b[f2 * n.1 + k % n.1];
                }
            } else if let Some(n) =
                [(1030, 1), (1094, 2), (1158, 4), (1223, 8)].iter().find(|p| p.0 == xo)
            {
                let same: Vec<bool> =
                    (0..16 / n.1).map(|k| a[k * n.1..][..n.1] == b[k * n.1..][..n.1]).collect();
                c.every = same.iter().all(|x| *x);
                c.none = !same.iter().any(|x| *x);
            } else {
                panic!("another operation");
            }
            c.vsr[32 + f1] = v;
        }
        _ => panic!("{w:#010x}"),
    }
}

fn run(c: &mut Cpu, inst: Inst, isa_3_0: bool) {
    let frame = FrameLayout {
        word_bytes: 8,
        incoming_args_size: 0,
        tail_args_size: 0,
        setup_area_size: 16,
        clobber_size: 0,
        fixed_frame_storage_size: 0,
        stackslots_size: 0,
        outgoing_args_size: 0,
        clobbered_callee_saves: vec![],
        function_calls: FunctionCalls::Regular,
    };
    let shared = SharedFlags {
        preserve_frame_pointers: false,
        unwind_info: false,
        enable_multi_ret_implicit_sret: false,
    };
    let info = EmitInfo::new(shared, Ppc64Flags { has_isa_3_0: isa_3_0, has_isa_3_1: false });
    let mut sink = MachBuffer::new();
    inst.emit(&mut sink, &info, &mut EmitState::new(frame));
    for op in sink.log() {
        match op {
            Emission::Word(x) => step(c, *x),
            _ => panic!("not a word"),
        }
    }
}

fn w(r: Reg) -> Writable<Reg> {
    Writable::from_reg(r)
}

/// A lane, counted from the least significant end.
fn lane(v: &[u8; 16], n: usize, i: usize) -> u64 {
    (0..n).map(|j| (v[15 - i * n - j] as u64) << (8 * j)).sum()
}

fn low(x: u64, n: usize) -> u64 {
    if n == 8 {
        x
    } else {
        x & ((1 << (8 * n)) - 1)
    }
}

fn types() -> Vec<(Type, usize)> {
    vec![(Type::I8X16, 1), (Type::I16X8, 2), (Type::I32X4, 4), (Type::I64X2, 8)]
}

#[test]
fn a_lane_moves_out() {
    for (ty, n) in types() {
        for i in 0..16 / n {
            let mut c = cpu();
            let v = c.vsr[32 + 5];
            let move_out =
                Inst::VecExtractLaneInt { rd: w(gpr(4)), rn: vr(5), ty, lane: i as u8 };
            run(&mut c, move_out, false);
            assert_eq!(low(c.gpr[4], n), lane(&v, n, i));
        }
    }
}

#[test]
fn a_lane_moves_in() {
    for isa_3_0 in [false, true] {
        for (ty, n) in types() {
            for i in 0..16 / n {
                let mut c = cpu();
                let v = c.vsr[32 + 5];
                let r = c.gpr[7];
                let move_in =
                    Inst::VecInsertLane { rd: w(vr(6)), rv: vr(5), rs: gpr(7), ty, lane: i as u8 };
                run(&mut c, move_in, isa_3_0);
                for k in 0..16 / n {
                    let want = if k == i { low(r, n) } else { lane(&v, n, k) };
                    assert_eq!(lane(&c.vsr[32 + 6], n, k), want);
                }
                assert_eq!(c.vsr[32 + 5], v);
                let move_out =
                    Inst::VecExtractLaneInt { rd: w(gpr(4)), rn: vr(6), ty, lane: i as u8 };
                run(&mut c, move_out, isa_3_0);
                assert_eq!(low(c.gpr[4], n), low(r, n));
            }
        }
    }
}

#[test]
fn a_double_moves_in() {
    let mut c = cpu();
    let v = c.vsr[32 + 5];
    let x = lane(&c.vsr[3], 8, 1);
    let move_in =
        Inst::VecInsertLane { rd: w(vr(6)), rv: vr(5), rs: fpr(3), ty: Type::F64X2, lane: 0 };
    run(&mut c, move_in, false);
    assert_eq!(lane(&c.vsr[32 + 6], 8, 0), x);
    assert_eq!(lane(&c.vsr[32 + 6], 8, 1), lane(&v, 8, 1));
}

#[test]
fn a_scalar_fills_every_lane() {
    for (ty, n) in types() {
        let mut c = cpu();
        let r = c.gpr[9];
        run(&mut c, Inst::MovToVec { rd: w(vr(3)), rn: gpr(9) }, false);
        run(&mut c, Inst::VecSplatLane { rd: w(vr(4)), rn: vr(3), ty }, false);
        for k in 0..16 / n {
            assert_eq!(lane(&c.vsr[32 + 4], n, k), low(r, n));
        }
    }
}

#[test]
fn a_vector_goes_to_memory_and_back() {
    for (out, back) in [(false, false), (false, true), (true, false), (true, true)] {
        let mut c = cpu();
        let v = c.vsr[32 + 5];
        c.gpr[4] = 64;
        let flags = MemFlagsData::trusted();
        let store = Inst::VecStore { to: AMode::RegOffset(gpr(4), 16), flags, rs: vr(5) };
        run(&mut c, store, out);
        // The first lane lies lowest.
        for k in 0..16 {
            assert_eq!(c.mem[80 + k] as u64, lane(&v, 1, k));
        }
        let load = Inst::VecLoad { rd: w(vr(6)), flags, from: AMode::RegOffset(gpr(4), 16) };
        run(&mut c, load, back);
        assert_eq!(c.vsr[32 + 6], v);
    }
}

#[test]
fn lanes_are_tested() {
    for (ty, n) in types() {
        for (byte, all, any) in [(0, false, false), (7, true, true)] {
            let mut c = cpu();
            c.vsr[32 + 5] = [byte; 16];
            run(&mut c, Inst::VecTestLanes { rd: w(gpr(4)), rn: vr(5), ty, all: true }, false);
            assert_eq!(c.gpr[4], all as u64);
            run(&mut c, Inst::VecTestLanes { rd: w(gpr(4)), rn: vr(5), ty, all: false }, false);
            assert_eq!(c.gpr[4], any as u64);
        }
        // One byte in one lane.
        let mut c = cpu();
        c.vsr[32 + 5] = [0; 16];
        c.vsr[32 + 5][6] = 1;
        run(&mut c, Inst::VecTestLanes { rd: w(gpr(4)), rn: vr(5), ty, all: true }, false);
        assert_eq!(c.gpr[4], 0);
        run(&mut c, Inst::VecTestLanes { rd: w(gpr(4)), rn: vr(5), ty, all: false }, false);
        assert_eq!(c.gpr[4], 1);
        assert!(16 / n > 1);
    }
}

#[test]
fn logic_goes_byte_by_byte() {
    let ops = [VecAluOp::And, VecAluOp::Or, VecAluOp::Xor, VecAluOp::Nor, VecAluOp::AndC];
    for (i, op) in ops.iter().enumerate() {
        let mut c = cpu();
        let (a, b) = (c.vsr[32 + 5], c.vsr[32 + 6]);
        let inst = Inst::VecAluRRR {
            op: *op,
            rd: w(vr(7)),
            ra: vr(5),
            rb: vr(6),
            ty: Type::I32X4,
        };
        run(&mut c, inst, false);
        for k in 0..16 {
            let want = [a[k] & b[k], a[k] | b[k], a[k] ^ b[k], !(a[k] | b[k]), a[k] & !b[k]][i];
            assert_eq!(c.vsr[32 + 7][k], want);
        }
    }
}

#[test]
fn a_move_copies_a_vector() {
    let mut c = cpu();
    let v = c.vsr[32 + 5];
    run(&mut c, Inst::gen_move(w(vr(9)), vr(5), Type::I8X16), false);
    assert_eq!(c.vsr[32 + 9], v);
    // A move to itself is nothing.
    run(&mut c, Inst::gen_move(w(vr(9)), vr(9), Type::I8X16), false);
    assert_eq!(c.vsr[32 + 9], v);
}
