//! What vector instructions leave in each lane.
use vstd::prelude::*;
use vstd::arithmetic::power2::pow2;
use crate::buffer::{BufferView, Emission};
use crate::emit;
use crate::emit::{EmitInfo, EmitState};
use crate::emit_vec;
use crate::floating::Rounding;
use crate::inst::{
    FpuRoundMode, Inst, VecAluOp, VecAluOp4, VecCvtOp, VecFpuOp1, VecFpuOp2, VecUnaryOp,
};
use crate::ir::Type;
use crate::lanes;
use crate::lanes::{LaneArithmetic, Operation};
use crate::machine;
use crate::memory;
use crate::memory::State;
use crate::mnem;
use crate::regs::{Reg, RegClass, Writable};

verus! {

/// The number in a lane of so many bytes. Lanes count from the least significant end.
pub open spec fn lane(v: Seq<u8>, n: int, k: int) -> int {
    lanes::element(v, n, 16int / n - 1 - k)
}

/// The number in a lane, read with a sign.
pub open spec fn signed_lane(v: Seq<u8>, n: int, k: int) -> int {
    lanes::signed(lane(v, n, k), n)
}

/// What a vector register holds.
pub open spec fn held(s: State, r: Reg) -> Seq<u8> {
    s.vsr[r.vsr() as int]
}

/// The width of the lanes that an operation on lanes of so many bytes makes.
pub open spec fn made_width(op: VecAluOp, n: int) -> int {
    match op {
        VecAluOp::PackMod | VecAluOp::PackSS | VecAluOp::PackSU | VecAluOp::PackUU => n / 2,
        VecAluOp::MulEvenS | VecAluOp::MulEvenU | VecAluOp::MulOddS | VecAluOp::MulOddU => 2 * n,
        _ => n,
    }
}

/// What an operation is to leave in a lane, modulo what fits: sums, differences, products
/// and averages of lanes, the lesser or the greater one, all ones where a compare holds,
/// shifts and rotations by as many bits as the low bits of the other lane say, and results
/// held within the range of the lane. Merges interleave the lower or the upper lanes, packs
/// put the lanes of the second vector below those of the first one, and multiplications of
/// every other lane make lanes of twice the width.
pub open spec fn lane_result(op: VecAluOp, n: int, a: Seq<u8>, b: Seq<u8>, k: int) -> int {
    let count = 16int / n;
    let p = memory::power256(n);
    let q = memory::power256(n / 2);
    let (x, y) = (lane(a, n, k), lane(b, n, k));
    let (sx, sy) = (signed_lane(a, n, k), signed_lane(b, n, k));
    let scale = pow2((y % (8 * n)) as nat) as int;
    // The lane that a pack takes.
    let wide = if k < count {
        lane(b, n, k)
    } else {
        lane(a, n, k - count)
    };
    match op {
        VecAluOp::Add => x + y,
        VecAluOp::Sub => x - y,
        VecAluOp::MulWord => x * y,
        VecAluOp::CmpEq => if x == y {
            p - 1
        } else {
            0
        },
        VecAluOp::CmpGtS => if sx > sy {
            p - 1
        } else {
            0
        },
        VecAluOp::CmpGtU => if x > y {
            p - 1
        } else {
            0
        },
        VecAluOp::MinS => if sx < sy {
            x
        } else {
            y
        },
        VecAluOp::MinU => if x < y {
            x
        } else {
            y
        },
        VecAluOp::MaxS => if sx < sy {
            y
        } else {
            x
        },
        VecAluOp::MaxU => if x < y {
            y
        } else {
            x
        },
        VecAluOp::Shl => x * scale,
        VecAluOp::ShrU => x / scale,
        VecAluOp::ShrS => sx / scale,
        VecAluOp::Rotl => x * scale + x * scale / p,
        VecAluOp::AvgRoundS => (sx + sy + 1) / 2,
        VecAluOp::AvgRoundU => (x + y + 1) / 2,
        VecAluOp::SAddSat => lanes::clamped(sx + sy, -(p / 2), p / 2 - 1),
        VecAluOp::UAddSat => lanes::clamped(x + y, 0, p - 1),
        VecAluOp::SSubSat => lanes::clamped(sx - sy, -(p / 2), p / 2 - 1),
        VecAluOp::USubSat => lanes::clamped(x - y, 0, p - 1),
        VecAluOp::MergeLow => if k % 2 == 0 {
            lane(b, n, k / 2)
        } else {
            lane(a, n, k / 2)
        },
        VecAluOp::MergeHigh => if k % 2 == 0 {
            lane(b, n, count / 2 + k / 2)
        } else {
            lane(a, n, count / 2 + k / 2)
        },
        VecAluOp::MergeEvenWord => if k % 2 == 0 {
            lane(b, n, k + 1)
        } else {
            lane(a, n, k)
        },
        VecAluOp::PackMod => wide,
        VecAluOp::PackSS => lanes::clamped(lanes::signed(wide, n), -(q / 2), q / 2 - 1),
        VecAluOp::PackSU => lanes::clamped(lanes::signed(wide, n), 0, q - 1),
        VecAluOp::PackUU => lanes::clamped(wide, 0, q - 1),
        VecAluOp::MulEvenS => signed_lane(a, n, 2 * k + 1) * signed_lane(b, n, 2 * k + 1),
        VecAluOp::MulEvenU => lane(a, n, 2 * k + 1) * lane(b, n, 2 * k + 1),
        VecAluOp::MulOddS => signed_lane(a, n, 2 * k) * signed_lane(b, n, 2 * k),
        VecAluOp::MulOddU => lane(a, n, 2 * k) * lane(b, n, 2 * k),
        _ => 0,
    }
}

/// The operation of the vector unit that an operation on lanes is.
spec fn unit_operation(op: VecAluOp) -> Operation {
    match op {
        VecAluOp::Add => Operation::Sum,
        VecAluOp::Sub => Operation::Difference,
        VecAluOp::MulWord => Operation::Product,
        VecAluOp::CmpEq => Operation::Equal,
        VecAluOp::CmpGtS => Operation::GreaterSigned,
        VecAluOp::CmpGtU => Operation::GreaterUnsigned,
        VecAluOp::MinS => Operation::LeastSigned,
        VecAluOp::MinU => Operation::LeastUnsigned,
        VecAluOp::MaxS => Operation::GreatestSigned,
        VecAluOp::MaxU => Operation::GreatestUnsigned,
        VecAluOp::Shl => Operation::ShiftLeft,
        VecAluOp::ShrU => Operation::ShiftRight,
        VecAluOp::ShrS => Operation::ShiftRightSigned,
        VecAluOp::Rotl => Operation::RotateLeft,
        VecAluOp::AvgRoundS => Operation::AverageSigned,
        VecAluOp::AvgRoundU => Operation::AverageUnsigned,
        VecAluOp::SAddSat => Operation::SumHeldSigned,
        VecAluOp::UAddSat => Operation::SumHeldUnsigned,
        VecAluOp::SSubSat => Operation::DifferenceHeldSigned,
        VecAluOp::USubSat => Operation::DifferenceHeldUnsigned,
        VecAluOp::MergeLow => Operation::MergeLow,
        VecAluOp::MergeHigh => Operation::MergeHigh,
        VecAluOp::MergeEvenWord => Operation::MergeEven,
        VecAluOp::PackSS => Operation::PackSignedHeldSigned,
        VecAluOp::PackSU => Operation::PackSignedHeldUnsigned,
        VecAluOp::PackUU => Operation::PackUnsignedHeldUnsigned,
        VecAluOp::MulEvenS => Operation::MultiplyEvenSigned,
        VecAluOp::MulEvenU => Operation::MultiplyEvenUnsigned,
        VecAluOp::MulOddS => Operation::MultiplyOddSigned,
        VecAluOp::MulOddU => Operation::MultiplyOddUnsigned,
        _ => Operation::Pack,
    }
}

/// The extended opcode of an operation is the one that the vector unit has for it.
proof fn lemma_decoded(op: VecAluOp, bits: u32)
    requires
        !op.is_bitwise(),
        emit_vec::has_width(op, bits),
    ensures
        lanes::decoded(emit_vec::spec_vx_xo(op, bits)) == Some(
            (unit_operation(op), bits as int / 8),
        ),
        emit_vec::spec_vx_xo(op, bits) < 2048,
        emit_vec::spec_vx_xo(op, bits) % 64 < 32,
{
    reveal(lanes::decoded);
    if bits == 8 {
    } else if bits == 16 {
    } else if bits == 32 {
    } else {
    }
}

/// An element fits its width.
proof fn lemma_element_fits(v: Seq<u8>, n: int, j: int)
    requires
        v.len() == 16,
        n == 1 || n == 2 || n == 4 || n == 8,
        0 <= j,
        (j + 1) * n <= 16,
    ensures
        0 <= lanes::element(v, n, j) < memory::power256(n),
{
    reveal(lanes::element);
    let r = memory::reversed(v.subrange(j * n, j * n + n));
    assert(0 <= j * n && j * n + n <= 16) by (nonlinear_arith)
        requires
            0 <= j,
            n >= 1,
            (j + 1) * n <= 16,
    ;
    assert(r.len() == n);
}

/// Whether an operation takes lanes that stand in the same place.
spec fn stays_in_place(op: VecAluOp) -> bool {
    match op {
        VecAluOp::MergeHigh | VecAluOp::MergeLow | VecAluOp::MergeEvenWord | VecAluOp::PackMod
        | VecAluOp::PackSS | VecAluOp::PackSU | VecAluOp::PackUU | VecAluOp::MulEvenS
        | VecAluOp::MulEvenU | VecAluOp::MulOddS | VecAluOp::MulOddU => false,
        _ => true,
    }
}

/// An operation on lanes in the same place.
proof fn lemma_in_place(op: VecAluOp, n: int, a: Seq<u8>, b: Seq<u8>, k: int)
    requires
        !op.is_bitwise(),
        stays_in_place(op),
        n == 1 || n == 2 || n == 4 || n == 8,
        0 <= lane(a, n, k) < memory::power256(n),
        0 <= lane(b, n, k) < memory::power256(n),
    ensures
        unit_element(op, n, a, b, 16int / n - 1 - k) % memory::power256(n) == lane_result(
            op,
            n,
            a,
            b,
            k,
        ) % memory::power256(n),
{
    let p = memory::power256(n);
    let r = lane_result(op, n, a, b, k);
    lemma_near(op, n, a, b, k);
    vstd::arithmetic::div_mod::lemma_mod_sub_multiples_vanish(r, p);
}

/// What the vector unit makes of lanes in the same place is what the operation is named
/// for, or less by as much as vanishes.
proof fn lemma_near(op: VecAluOp, n: int, a: Seq<u8>, b: Seq<u8>, k: int)
    requires
        !op.is_bitwise(),
        stays_in_place(op),
        n == 1 || n == 2 || n == 4 || n == 8,
        0 <= lane(a, n, k) < memory::power256(n),
        0 <= lane(b, n, k) < memory::power256(n),
    ensures
        ({
            let u = unit_element(op, n, a, b, 16int / n - 1 - k);
            let r = lane_result(op, n, a, b, k);
            u == r || u == -memory::power256(n) + r
        }),
        memory::power256(n) > 0,
{
    let (x, y) = (lane(a, n, k), lane(b, n, k));
    let u = lanes::elementwise(unit_operation(op), n, x, y);
    assert(unit_element(op, n, a, b, 16int / n - 1 - k) == u);
    match op {
        VecAluOp::CmpEq | VecAluOp::CmpGtS | VecAluOp::CmpGtU => {},
        VecAluOp::MinS | VecAluOp::MaxS => {},
        _ => {
            assert(u == lane_result(op, n, a, b, k));
        },
    }
}

/// The number of lanes of a width.
proof fn lemma_count(n: int)
    ensures
        n == 1 ==> 16int / n == 16,
        n == 2 ==> 16int / n == 8,
        n == 4 ==> 16int / n == 4,
        n == 8 ==> 16int / n == 2,
{
}

/// An operation that moves lanes.
proof fn lemma_moved(op: VecAluOp, n: int, a: Seq<u8>, b: Seq<u8>, k: int)
    requires
        !op.is_bitwise(),
        !stays_in_place(op),
        emit_vec::has_width(op, (8 * n) as u32),
        n == 1 || n == 2 || n == 4 || n == 8,
        0 <= k,
        (k + 1) * made_width(op, n) <= 16,
    ensures
        unit_element(op, n, a, b, 16int / made_width(op, n) - 1 - k) == lane_result(op, n, a, b, k),
{
    let count = 16int / n;
    let m = made_width(op, n);
    let j = 16int / m - 1 - k;
    lemma_count(n);
    lemma_count(m);
    assert(count == 16 || count == 8 || count == 4 || count == 2);
    match op {
        VecAluOp::MergeHigh | VecAluOp::MergeLow => {
            assert(j == count - 1 - k);
            assert(j % 2 == 1 - k % 2);
            assert(j / 2 == count / 2 - 1 - k / 2);
        },
        VecAluOp::MergeEvenWord => {
            assert(n == 4);
            assert(j == 3 - k);
        },
        VecAluOp::PackMod | VecAluOp::PackSS | VecAluOp::PackSU | VecAluOp::PackUU => {
            assert(n != 1 && m == n / 2);
            assert(j == 2 * count - 1 - k);
        },
        _ => {
            assert(n != 8 && m == 2 * n);
            assert(j == count / 2 - 1 - k);
            assert(count == 2 * (count / 2));
            assert(2 * j == count - 1 - (2 * k + 1));
            assert(2 * j + 1 == count - 1 - 2 * k);
        },
    }
}

/// What the vector unit makes of two vectors, lane by lane.
proof fn lemma_combined(op: VecAluOp, n: int, a: Seq<u8>, b: Seq<u8>, k: int)
    requires
        !op.is_bitwise(),
        emit_vec::has_width(op, (8 * n) as u32),
        n == 1 || n == 2 || n == 4 || n == 8,
        a.len() == 16,
        b.len() == 16,
        0 <= k,
        (k + 1) * made_width(op, n) <= 16,
    ensures
        lane(lanes::combined(unit_operation(op), n, a, b), made_width(op, n), k) == lane_result(
            op,
            n,
            a,
            b,
            k,
        ) % memory::power256(made_width(op, n)),
{
    let m = made_width(op, n);
    lemma_place(m, k);
    lemma_unit_element(op, n, a, b, 16int / m - 1 - k);
    if stays_in_place(op) {
        lemma_element_fits(a, n, 16int / n - 1 - k);
        lemma_element_fits(b, n, 16int / n - 1 - k);
        lemma_in_place(op, n, a, b, k);
    } else {
        lemma_moved(op, n, a, b, k);
    }
}

/// The element of a lane.
proof fn lemma_place(m: int, k: int)
    requires
        m == 1 || m == 2 || m == 4 || m == 8,
        0 <= k,
        (k + 1) * m <= 16,
    ensures
        0 <= 16int / m - 1 - k,
        (16int / m - 1 - k + 1) * m <= 16,
{
    if m == 1 {
    } else if m == 2 {
    } else if m == 4 {
    } else {
    }
}

/// The element that the vector unit makes at an index.
spec fn unit_element(op: VecAluOp, n: int, a: Seq<u8>, b: Seq<u8>, j: int) -> int {
    let u = unit_operation(op);
    let count = 16int / n;
    match op {
        VecAluOp::MergeHigh => if j % 2 == 0 {
            lanes::element(a, n, j / 2)
        } else {
            lanes::element(b, n, j / 2)
        },
        VecAluOp::MergeLow => if j % 2 == 0 {
            lanes::element(a, n, count / 2 + j / 2)
        } else {
            lanes::element(b, n, count / 2 + j / 2)
        },
        VecAluOp::MergeEvenWord => if j % 2 == 0 {
            lanes::element(a, n, j)
        } else {
            lanes::element(b, n, j - 1)
        },
        VecAluOp::PackMod | VecAluOp::PackSS | VecAluOp::PackSU | VecAluOp::PackUU => lanes::packed(
            u,
            n,
            if j < count {
                lanes::element(a, n, j)
            } else {
                lanes::element(b, n, j - count)
            },
        ),
        VecAluOp::MulEvenS => lanes::signed(lanes::element(a, n, 2 * j), n) * lanes::signed(
            lanes::element(b, n, 2 * j),
            n,
        ),
        VecAluOp::MulEvenU => lanes::element(a, n, 2 * j) * lanes::element(b, n, 2 * j),
        VecAluOp::MulOddS => lanes::signed(lanes::element(a, n, 2 * j + 1), n) * lanes::signed(
            lanes::element(b, n, 2 * j + 1),
            n,
        ),
        VecAluOp::MulOddU => lanes::element(a, n, 2 * j + 1) * lanes::element(b, n, 2 * j + 1),
        _ => lanes::elementwise(u, n, lanes::element(a, n, j), lanes::element(b, n, j)),
    }
}

/// The elements of what the vector unit makes.
proof fn lemma_unit_element(op: VecAluOp, n: int, a: Seq<u8>, b: Seq<u8>, j: int)
    requires
        !op.is_bitwise(),
        emit_vec::has_width(op, (8 * n) as u32),
        n == 1 || n == 2 || n == 4 || n == 8,
        0 <= j,
        (j + 1) * made_width(op, n) <= 16,
    ensures
        lanes::element(lanes::combined(unit_operation(op), n, a, b), made_width(op, n), j)
            == unit_element(op, n, a, b, j) % memory::power256(made_width(op, n)),
{
    let u = unit_operation(op);
    let m = made_width(op, n);
    let count = 16int / n;
    assert(m == 1 || m == 2 || m == 4 || m == 8);
    match op {
        VecAluOp::MergeHigh => {
            let f = |j: int|
                if j % 2 == 0 {
                    lanes::element(a, n, j / 2)
                } else {
                    lanes::element(b, n, j / 2)
                };
            lanes::lemma_element(n, f, j);
        },
        VecAluOp::MergeLow => {
            let f = |j: int|
                if j % 2 == 0 {
                    lanes::element(a, n, count / 2 + j / 2)
                } else {
                    lanes::element(b, n, count / 2 + j / 2)
                };
            lanes::lemma_element(n, f, j);
        },
        VecAluOp::MergeEvenWord => {
            let f = |j: int|
                if j % 2 == 0 {
                    lanes::element(a, n, j)
                } else {
                    lanes::element(b, n, j - 1)
                };
            lanes::lemma_element(n, f, j);
        },
        VecAluOp::PackMod | VecAluOp::PackSS | VecAluOp::PackSU | VecAluOp::PackUU => {
            let f = |j: int|
                lanes::packed(
                    u,
                    n,
                    if j < count {
                        lanes::element(a, n, j)
                    } else {
                        lanes::element(b, n, j - count)
                    },
                );
            lanes::lemma_element(m, f, j);
        },
        VecAluOp::MulEvenS => {
            let f = |j: int|
                lanes::signed(lanes::element(a, n, 2 * j), n) * lanes::signed(
                    lanes::element(b, n, 2 * j),
                    n,
                );
            lanes::lemma_element(m, f, j);
        },
        VecAluOp::MulEvenU => {
            let f = |j: int| lanes::element(a, n, 2 * j) * lanes::element(b, n, 2 * j);
            lanes::lemma_element(m, f, j);
        },
        VecAluOp::MulOddS => {
            let f = |j: int|
                lanes::signed(lanes::element(a, n, 2 * j + 1), n) * lanes::signed(
                    lanes::element(b, n, 2 * j + 1),
                    n,
                );
            lanes::lemma_element(m, f, j);
        },
        VecAluOp::MulOddU => {
            let f = |j: int| lanes::element(a, n, 2 * j + 1) * lanes::element(b, n, 2 * j + 1);
            lanes::lemma_element(m, f, j);
        },
        _ => {
            let f = |j: int|
                lanes::elementwise(u, n, lanes::element(a, n, j), lanes::element(b, n, j));
            lanes::lemma_element(n, f, j);
        },
    }
}

/// A vector operation on two registers leaves in each lane of its register what it is
/// named for, and changes nothing else.
pub proof fn law_vector_operation(
    f: LaneArithmetic,
    b: BufferView,
    s: State,
    op: VecAluOp,
    rd: Writable<Reg>,
    ra: Reg,
    rb: Reg,
    ty: Type,
    info: EmitInfo,
    state: EmitState,
)
    requires
        memory::wf(s),
        emit::encodable(Inst::VecAluRRR { op, rd, ra, rb, ty }, state.frame_layout),
        !op.is_bitwise(),
    ensures
        ({
            let n = ty.lane_bits() as int / 8;
            let m = made_width(op, n);
            let d = rd.reg.vsr();
            lanes::run(
                f,
                emit::emitted(Inst::VecAluRRR { op, rd, ra, rb, ty }, b, info, state).ops,
                b.ops.len() as int,
                s,
            ) matches Some(t) && t == memory::set_vsr(s, d, held(t, rd.reg)) && forall|k: int|
                0 <= k && (k + 1) * m <= 16 ==> #[trigger] lane(held(t, rd.reg), m, k)
                    == lane_result(op, n, held(s, ra), held(s, rb), k) % memory::power256(m)
        }),
{
    reveal(emit::emitted_lane);
    let bits = ty.lane_bits();
    let n = bits as int / 8;
    let m = made_width(op, n);
    let (d, x, y) = (rd.reg.vsr(), ra.vsr(), rb.vsr());
    let ops = emit::emitted(Inst::VecAluRRR { op, rd, ra, rb, ty }, b, info, state).ops;
    let pc = b.ops.len() as int;
    let xo = emit_vec::spec_vx_xo(op, bits);
    let w = mnem::vx((d - 32) as u32, (x - 32) as u32, (y - 32) as u32, xo);
    assert(ops[pc] == Emission::Word(w));
    lemma_decoded(op, bits);
    lanes::lemma_vx(f, s, (d - 32) as u32, (x - 32) as u32, (y - 32) as u32, xo);
    let v = lanes::combined(unit_operation(op), n, held(s, ra), held(s, rb));
    let t = memory::set_vsr(s, d, v);
    assert(lanes::run(f, ops, pc + 1, t) == Some(t));
    assert forall|k: int| 0 <= k && (k + 1) * m <= 16 implies #[trigger] lane(
        held(t, rd.reg),
        m,
        k,
    ) == lane_result(op, n, held(s, ra), held(s, rb), k) % memory::power256(m) by {
        lemma_combined(op, n, held(s, ra), held(s, rb), k);
    }
}

// One word.

/// An instruction of one word.
proof fn lemma_one(
    f: LaneArithmetic,
    b: BufferView,
    s: State,
    ops: Seq<Emission>,
    w: u32,
    t: State,
)
    requires
        ops == b.word(w).ops,
        lanes::step(f, s, w) == Some(t),
    ensures
        lanes::run(f, ops, b.ops.len() as int, s) == Some(t),
{
    let pc = b.ops.len() as int;
    assert(ops[pc] == Emission::Word(w));
    assert(lanes::run(f, ops, pc + 1, t) == Some(t));
}

// One vector.

/// What an operation on one vector is to leave in a lane: the number of ones of a lane, or
/// a lane of the lower or the upper half, with its sign, in a lane of twice the width.
pub open spec fn unary_result(op: VecUnaryOp, n: int, v: Seq<u8>, k: int) -> int {
    match op {
        VecUnaryOp::Popcnt => machine::ones(lane(v, n, k)),
        VecUnaryOp::WidenSLow => signed_lane(v, n, k),
        VecUnaryOp::WidenSHigh => signed_lane(v, n, 8int / n + k),
    }
}

/// The width of the lanes that come out, in bytes.
pub open spec fn unary_width(op: VecUnaryOp, n: int) -> int {
    match op {
        VecUnaryOp::Popcnt => n,
        VecUnaryOp::WidenSLow | VecUnaryOp::WidenSHigh => 2 * n,
    }
}

/// What the vector unit makes of one vector.
proof fn lemma_alone(op: VecUnaryOp, n: int, v: Seq<u8>)
    requires
        n == 1 || n == 2 || n == 4 || (n == 8 && op == VecUnaryOp::Popcnt),
    ensures
        ({
            let xo = emit_vec::vec_unary_xo(op, (8 * n) as u32);
            let m = unary_width(op, n);
            &&& xo < 2048
            &&& xo % 64 < 32
            &&& lanes::decoded(xo) is None
            &&& lanes::alone(xo, 0, v) is Some
            &&& forall|k: int|
                0 <= k && (k + 1) * m <= 16 ==> #[trigger] lane(lanes::alone(xo, 0, v)->0, m, k)
                    == unary_result(op, n, v, k) % memory::power256(m)
        }),
{
    reveal(lanes::alone);
    let xo = emit_vec::vec_unary_xo(op, (8 * n) as u32);
    let m = unary_width(op, n);
    let r = lanes::alone(xo, 0, v)->0;
    assert(lanes::decoded(xo) is None) by {
        reveal(lanes::decoded);
    }
    assert forall|k: int| 0 <= k && (k + 1) * m <= 16 implies #[trigger] lane(r, m, k)
        == unary_result(op, n, v, k) % memory::power256(m) by {
        lemma_place(m, k);
        lemma_count(n);
        lemma_count(m);
        let j = 16int / m - 1 - k;
        match op {
            VecUnaryOp::Popcnt => {
                let g = |j: int| machine::ones(lanes::element(v, n, j));
                lanes::lemma_element(n, g, j);
                assert(r == lanes::of_elements(n, g));
            },
            VecUnaryOp::WidenSLow => {
                let g = |j: int| lanes::signed(lanes::element(v, n, 8int / n + j), n);
                lanes::lemma_element(2 * n, g, j);
                assert(r == lanes::of_elements(2 * n, g));
                assert(8int / n + j == 16int / n - 1 - k);
            },
            VecUnaryOp::WidenSHigh => {
                let g = |j: int| lanes::signed(lanes::element(v, n, j), n);
                lanes::lemma_element(2 * n, g, j);
                assert(r == lanes::of_elements(2 * n, g));
                assert(j == 16int / n - 1 - (8int / n + k));
            },
        }
    }
}

/// An operation on one vector leaves in each lane what it is named for, and changes
/// nothing else.
pub proof fn law_vector_unary(
    f: LaneArithmetic,
    b: BufferView,
    s: State,
    op: VecUnaryOp,
    rd: Writable<Reg>,
    rn: Reg,
    ty: Type,
    info: EmitInfo,
    state: EmitState,
)
    requires
        memory::wf(s),
        emit::encodable(Inst::VecUnary { op, rd, rn, ty }, state.frame_layout),
    ensures
        ({
            let n = ty.lane_bits() as int / 8;
            let m = unary_width(op, n);
            lanes::run(
                f,
                emit::emitted(Inst::VecUnary { op, rd, rn, ty }, b, info, state).ops,
                b.ops.len() as int,
                s,
            ) matches Some(t) && t == memory::set_vsr(s, rd.reg.vsr(), held(t, rd.reg)) && forall|
                k: int,
            |
                0 <= k && (k + 1) * m <= 16 ==> #[trigger] lane(held(t, rd.reg), m, k)
                    == unary_result(op, n, held(s, rn), k) % memory::power256(m)
        }),
{
    reveal(emit::emitted_vector);
    let bits = ty.lane_bits();
    let n = bits as int / 8;
    let (d, x) = (rd.reg.vsr(), rn.vsr());
    let ops = emit::emitted(Inst::VecUnary { op, rd, rn, ty }, b, info, state).ops;
    let xo = emit_vec::vec_unary_xo(op, bits);
    let w = mnem::vx((d - 32) as u32, 0, (x - 32) as u32, xo);
    lemma_alone(op, n, held(s, rn));
    lanes::lemma_vx(f, s, (d - 32) as u32, 0, (x - 32) as u32, xo);
    let v = lanes::alone(xo, 0, held(s, rn))->0;
    let t = memory::set_vsr(s, d, v);
    let m = unary_width(op, n);
    assert((8 * n) as u32 == bits);
    lemma_one(f, b, s, ops, w, t);
    assert(held(t, rd.reg) == v);
}

/// The low five bits of an immediate.
proof fn lemma_immediate(imm: i8)
    requires
        -16 <= imm < 16,
    ensures
        (imm as u32) & 0x1F == (if imm < 0 {
            32 + imm
        } else {
            imm as int
        }),
        (imm as u32) & 0x1F < 32,
{
    assert((imm as u32) & 0x1F == (if imm < 0 {
        32 + imm
    } else {
        imm as int
    }) && (imm as u32) & 0x1F < 32) by (bit_vector)
        requires
            -16 <= imm < 16,
    ;
}

/// A splat of an immediate leaves it in every lane, and changes nothing else.
pub proof fn law_immediate_is_splatted(
    f: LaneArithmetic,
    b: BufferView,
    s: State,
    rd: Writable<Reg>,
    imm: i8,
    ty: Type,
    info: EmitInfo,
    state: EmitState,
)
    requires
        memory::wf(s),
        emit::encodable(Inst::VecSpltImm { rd, imm, ty }, state.frame_layout),
        -16 <= imm < 16,
        ty.lane_bits() == 8 || ty.lane_bits() == 16 || ty.lane_bits() == 32,
    ensures
        ({
            let n = ty.lane_bits() as int / 8;
            lanes::run(
                f,
                emit::emitted(Inst::VecSpltImm { rd, imm, ty }, b, info, state).ops,
                b.ops.len() as int,
                s,
            ) matches Some(t) && t == memory::set_vsr(s, rd.reg.vsr(), held(t, rd.reg)) && forall|
                k: int,
            |
                0 <= k && (k + 1) * n <= 16 ==> #[trigger] lane(held(t, rd.reg), n, k) == imm as int
                    % memory::power256(n)
        }),
{
    reveal(emit::emitted_vector);
    reveal(lanes::alone);
    let n = ty.lane_bits() as int / 8;
    let d = rd.reg.vsr();
    let ops = emit::emitted(Inst::VecSpltImm { rd, imm, ty }, b, info, state).ops;
    let w = emit_vec::vec_splt_imm(d, imm, ty.lane_bits());
    let xo: u32 = if n == 1 {
        780
    } else if n == 2 {
        844
    } else {
        908
    };
    let uim = (imm as u32) & 0x1F;
    lemma_immediate(imm);
    assert(lanes::decoded(xo) is None) by {
        reveal(lanes::decoded);
    }
    lanes::lemma_vx(f, s, (d - 32) as u32, uim, 0, xo);
    let g = |j: int|
        if uim >= 16 {
            uim - 32
        } else {
            uim as int
        };
    let v = lanes::of_elements(n, g);
    assert(lanes::alone(xo, uim, s.vsr[32]) == Some(v));
    lemma_one(f, b, s, ops, w, memory::set_vsr(s, d, v));
    assert forall|k: int| 0 <= k && (k + 1) * n <= 16 implies #[trigger] lane(v, n, k) == imm as int
        % memory::power256(n) by {
        lemma_place(n, k);
        lanes::lemma_element(n, g, 16int / n - 1 - k);
    }
}

// Three vectors.

/// An operation on three vectors leaves what it is named for, and changes nothing else: a
/// product of halfwords plus a third one, the rounded upper half of a doubled product plus
/// a third one and held in range, or bytes picked from two vectors, the most significant
/// first, by the indices in the third one.
pub proof fn law_vector_of_three(
    f: LaneArithmetic,
    b: BufferView,
    s: State,
    op: VecAluOp4,
    rd: Writable<Reg>,
    ra: Reg,
    rb: Reg,
    rc: Reg,
    info: EmitInfo,
    state: EmitState,
)
    requires
        memory::wf(s),
        emit::encodable(Inst::VecAluRRRR { op, rd, ra, rb, rc }, state.frame_layout),
    ensures
        ({
            let (x, y, z) = (held(s, ra), held(s, rb), held(s, rc));
            lanes::run(
                f,
                emit::emitted(Inst::VecAluRRRR { op, rd, ra, rb, rc }, b, info, state).ops,
                b.ops.len() as int,
                s,
            ) matches Some(t) && t == memory::set_vsr(s, rd.reg.vsr(), held(t, rd.reg)) && match op {
                VecAluOp4::Perm => forall|i: int|
                    0 <= i < 16 ==> #[trigger] held(t, rd.reg)[i] == (x + y)[z[i] as int % 32],
                VecAluOp4::MulAddUH => forall|k: int|
                    0 <= k < 8 ==> #[trigger] lane(held(t, rd.reg), 2, k) == (lane(x, 2, k) * lane(
                        y,
                        2,
                        k,
                    ) + lane(z, 2, k)) % 0x1_0000,
                VecAluOp4::MulHiRoundAddSHS => forall|k: int|
                    0 <= k < 8 ==> #[trigger] lane(held(t, rd.reg), 2, k) == lanes::clamped(
                        (signed_lane(x, 2, k) * signed_lane(y, 2, k) + 0x4000) / 0x8000
                            + signed_lane(z, 2, k),
                        -0x8000,
                        0x7FFF,
                    ) % 0x1_0000,
            }
        }),
{
    reveal(emit::emitted_vector);
    let (x, y, z) = (held(s, ra), held(s, rb), held(s, rc));
    let ops = emit::emitted(Inst::VecAluRRRR { op, rd, ra, rb, rc }, b, info, state).ops;
    let xo: u32 = match op {
        VecAluOp4::MulAddUH => 34,
        VecAluOp4::MulHiRoundAddSHS => 33,
        VecAluOp4::Perm => 43,
    };
    let d = rd.reg.vsr();
    let w = emit_vec::vec_alu_rrrr(op, d, ra.vsr(), rb.vsr(), rc.vsr());
    lanes::lemma_va(
        f,
        s,
        (d - 32) as u32,
        (ra.vsr() - 32) as u32,
        (rb.vsr() - 32) as u32,
        (rc.vsr() - 32) as u32,
        xo,
    );
    let v = lanes::of_three(xo, x, y, z)->0;
    lemma_one(f, b, s, ops, w, memory::set_vsr(s, d, v));
    let g = |j: int|
        lanes::element(x, 2, j) * lanes::element(y, 2, j) + lanes::element(z, 2, j);
    let h = |j: int|
        lanes::clamped(
            (lanes::signed(lanes::element(x, 2, j), 2) * lanes::signed(lanes::element(y, 2, j), 2)
                + 0x4000) / 0x8000 + lanes::signed(lanes::element(z, 2, j), 2),
            -0x8000,
            0x7FFF,
        );
    assert forall|k: int| 0 <= k < 8 && op != VecAluOp4::Perm implies #[trigger] lane(v, 2, k) == (
    if op == VecAluOp4::MulAddUH {
        g(7 - k)
    } else {
        h(7 - k)
    }) % 0x1_0000 by {
        lanes::lemma_element(2, g, 7 - k);
        lanes::lemma_element(2, h, 7 - k);
    }
}

// Bits.

/// A selection takes each bit from one vector where the mask has a one, and else from the
/// other, and changes nothing else.
pub proof fn law_vector_selection(
    f: LaneArithmetic,
    b: BufferView,
    s: State,
    rd: Writable<Reg>,
    if_set: Reg,
    if_clear: Reg,
    mask: Reg,
    info: EmitInfo,
    state: EmitState,
)
    requires
        memory::wf(s),
        emit::encodable(Inst::VecSel { rd, if_set, if_clear, mask }, state.frame_layout),
    ensures
        lanes::run(
            f,
            emit::emitted(Inst::VecSel { rd, if_set, if_clear, mask }, b, info, state).ops,
            b.ops.len() as int,
            s,
        ) matches Some(t) && t == memory::set_vsr(s, rd.reg.vsr(), held(t, rd.reg)) && forall|i: int|
            0 <= i < 16 ==> #[trigger] held(t, rd.reg)[i] == (held(s, if_clear)[i] & !held(
                s,
                mask,
            )[i]) | (held(s, if_set)[i] & held(s, mask)[i]),
{
    reveal(emit::emitted_vector);
    let ops = emit::emitted(Inst::VecSel { rd, if_set, if_clear, mask }, b, info, state).ops;
    let d = rd.reg.vsr();
    let w = mnem::xxsel(d, if_clear.vsr(), if_set.vsr(), mask.vsr());
    lanes::lemma_vsx(d, if_clear.vsr(), if_set.vsr(), mask.vsr(), 0, 0, 0);
    let v = lanes::vsx_vector(f, s, w)->0;
    assert(lanes::step(f, s, w) == Some(memory::set_vsr(s, d, v))) by {
        reveal(lanes::step);
    }
    lemma_one(f, b, s, ops, w, memory::set_vsr(s, d, v));
}

// Floating point.

/// What a floating-point operation on two vectors is to leave in a lane.
pub open spec fn float_result(
    f: LaneArithmetic,
    op: VecFpuOp2,
    single: bool,
    x: int,
    y: int,
) -> int {
    let (x, y) = (x as u64, y as u64);
    match op {
        VecFpuOp2::Add => (f.sum)(single, x, y) as int,
        VecFpuOp2::Sub => (f.difference)(single, x, y) as int,
        VecFpuOp2::Mul => (f.product)(single, x, y) as int,
        VecFpuOp2::Div => (f.quotient)(single, x, y) as int,
        VecFpuOp2::CmpEq => lanes::truth((f.equal)(single, x, y)),
        VecFpuOp2::CmpGt => lanes::truth((f.greater)(single, x, y)),
        VecFpuOp2::CmpGe => lanes::truth((f.at_least)(single, x, y)),
        VecFpuOp2::Min => (f.least)(single, x, y) as int,
        VecFpuOp2::Max => (f.greatest)(single, x, y) as int,
    }
}

/// A floating-point operation on two vectors leaves in each lane what it is named for,
/// all ones where a compare holds, and changes nothing else.
pub proof fn law_float_lanes(
    f: LaneArithmetic,
    b: BufferView,
    s: State,
    op: VecFpuOp2,
    rd: Writable<Reg>,
    ra: Reg,
    rb: Reg,
    ty: Type,
    info: EmitInfo,
    state: EmitState,
)
    requires
        memory::wf(s),
        emit::encodable(Inst::VecFpuRRR { op, rd, ra, rb, ty }, state.frame_layout),
    ensures
        ({
            let single = ty.lane_bits() == 32;
            let n: int = if single {
                4
            } else {
                8
            };
            lanes::run(
                f,
                emit::emitted(Inst::VecFpuRRR { op, rd, ra, rb, ty }, b, info, state).ops,
                b.ops.len() as int,
                s,
            ) matches Some(t) && t == memory::set_vsr(s, rd.reg.vsr(), held(t, rd.reg)) && forall|
                k: int,
            |
                0 <= k && (k + 1) * n <= 16 ==> #[trigger] lane(held(t, rd.reg), n, k)
                    == float_result(
                    f,
                    op,
                    single,
                    lane(held(s, ra), n, k),
                    lane(held(s, rb), n, k),
                ) % memory::power256(n)
        }),
{
    reveal(emit::emitted_vector);
    let single = ty.lane_bits() == 32;
    let n: int = if single {
        4
    } else {
        8
    };
    let ops = emit::emitted(Inst::VecFpuRRR { op, rd, ra, rb, ty }, b, info, state).ops;
    let (d, x, y) = (rd.reg.vsr(), ra.vsr(), rb.vsr());
    let xo = emit_vec::vec_fpu_rrr_xo(op, single);
    let w = mnem::xx3(d, x, y, xo);
    memory::law_xx3_fields(d, x, y, xo);
    lanes::lemma_vsx(d, x, y, 0, 0, xo, 0);
    let (p, q) = (held(s, ra), held(s, rb));
    let g = |j: int|
        lanes::float_pair(
            f,
            xo,
            single,
            lanes::element(p, n, j) as u64,
            lanes::element(q, n, j) as u64,
        )->0;
    let v = lanes::of_elements(n, g);
    lemma_pair_known(f, op, single);
    lemma_not_one(f, s, w, xo, single);
    assert(lanes::float_vector(f, s, w, single) == Some(v));
    assert(lanes::step(f, s, w) == Some(memory::set_vsr(s, d, v))) by {
        reveal(lanes::step);
    }
    lemma_one(f, b, s, ops, w, memory::set_vsr(s, d, v));
    assert forall|k: int| 0 <= k && (k + 1) * n <= 16 implies #[trigger] lane(v, n, k)
        == float_result(f, op, single, lane(p, n, k), lane(q, n, k)) % memory::power256(n) by {
        lemma_place(n, k);
        lanes::lemma_element(n, g, 16int / n - 1 - k);
    }
}

/// The extended opcodes of floating-point operations on two vectors.
proof fn lemma_pair_known(f: LaneArithmetic, op: VecFpuOp2, single: bool)
    ensures
        emit_vec::vec_fpu_rrr_xo(op, single) < 256,
        (emit_vec::vec_fpu_rrr_xo(op, single) / 2) % 4 != 3,
        lanes::float_pair(f, emit_vec::vec_fpu_rrr_xo(op, single), single, 0, 0) is Some,
        lanes::float_pair(f, emit_vec::vec_fpu_rrr_xo(op, single), !single, 0, 0) is None,
{
}

/// An operation on two doubles is none on singles.
proof fn lemma_not_one(f: LaneArithmetic, s: State, w: u32, xo: u32, single: bool)
    requires
        memory::xo8(w) == xo,
        lanes::xo9(w) == 2 * xo || lanes::xo9(w) == 2 * xo + 1,
        lanes::float_pair(f, xo, single, 0, 0) is Some,
        lanes::float_pair(f, xo, !single, 0, 0) is None,
    ensures
        lanes::float_vector(f, s, w, !single) is None,
{
}

/// What an instruction on the floating-point lanes of one vector is to leave in a lane:
/// square roots, signs by the bits, numbers rounded to integral ones, numbers as integers
/// and the numbers nearest to integers.
pub open spec fn float_one_result(f: LaneArithmetic, inst: Inst, single: bool, x: int) -> Option<
    int,
> {
    let n: int = if single {
        4
    } else {
        8
    };
    let y = x as u64;
    match inst {
        Inst::VecFpuRR { op, .. } => Some(
            match op {
                VecFpuOp1::Sqrt => (f.root)(single, y) as int,
                VecFpuOp1::Neg => lanes::negated(y as int, n),
                VecFpuOp1::Abs => lanes::unsigned(y as int, n),
            },
        ),
        Inst::VecRound { mode, .. } => Some(
            (f.integral)(
                single,
                match mode {
                    FpuRoundMode::Floor => Rounding::Down,
                    FpuRoundMode::Ceil => Rounding::Up,
                    FpuRoundMode::Trunc => Rounding::TowardZero,
                    FpuRoundMode::Nearest => Rounding::Current,
                },
                y,
            ) as int,
        ),
        Inst::VecCvt { op, .. } => match op {
            VecCvtOp::F32ToI32S | VecCvtOp::F64ToI64S => Some((f.to_integer)(single, true, y) as int),
            VecCvtOp::F32ToI32U | VecCvtOp::F64ToI64U => Some((f.to_integer)(single, false, y) as int),
            VecCvtOp::I32ToF32S | VecCvtOp::I64ToF64S => Some(
                (f.nearest)(single, lanes::signed(y as int, n)) as int,
            ),
            VecCvtOp::I32ToF32U | VecCvtOp::I64ToF64U => Some((f.nearest)(single, y as int) as int),
            _ => None,
        },
        _ => None,
    }
}

/// Whether such an instruction is on singles.
pub open spec fn on_singles(inst: Inst) -> bool {
    match inst {
        Inst::VecFpuRR { ty, .. } => ty.lane_bits() == 32,
        Inst::VecRound { ty, .. } => ty.lane_bits() == 32,
        Inst::VecCvt { op, .. } => match op {
            VecCvtOp::F32ToI32S | VecCvtOp::F32ToI32U | VecCvtOp::I32ToF32S
            | VecCvtOp::I32ToF32U => true,
            _ => false,
        },
        _ => false,
    }
}

/// The registers of such an instruction.
pub open spec fn one_registers(inst: Inst) -> (Reg, Reg) {
    match inst {
        Inst::VecFpuRR { rd, rn, .. } => (rd.reg, rn),
        Inst::VecRound { rd, rn, .. } => (rd.reg, rn),
        Inst::VecCvt { rd, rn, .. } => (rd.reg, rn),
        _ => (Reg { index: 0, class: RegClass::Int }, Reg { index: 0, class: RegClass::Int }),
    }
}

/// The extended opcode of such an instruction.
spec fn one_opcode(inst: Inst) -> u32 {
    match inst {
        Inst::VecFpuRR { op, ty, .. } => emit_vec::vec_fpu_rr_xo(op, ty.lane_bits() == 32),
        Inst::VecRound { mode, ty, .. } => emit_vec::vec_round_xo(mode, ty.lane_bits() == 32),
        Inst::VecCvt { op, .. } => emit_vec::vec_cvt_xo(op),
        _ => 0,
    }
}

/// The extended opcodes of such instructions are those that the hardware has for them.
proof fn lemma_one_known(f: LaneArithmetic, inst: Inst, x: int)
    requires
        float_one_result(f, inst, on_singles(inst), x) is Some,
    ensures
        ({
            let xo = one_opcode(inst);
            let single = on_singles(inst);
            &&& xo < 512
            &&& (xo / 4) % 4 != 3
            &&& lanes::float_pair(f, (xo / 2) as u32, true, 0, 0) is None
            &&& lanes::float_pair(f, (xo / 2) as u32, false, 0, 0) is None
            &&& lanes::float_one(f, xo, single, x as u64) == float_one_result(f, inst, single, x)
            &&& lanes::float_one(f, xo, single, 0) is Some
            &&& lanes::float_one(f, xo, !single, 0) is None
        }),
{
}

/// An instruction on the floating-point lanes of one vector leaves in each lane what it is
/// named for, and changes nothing else.
pub proof fn law_float_lane(
    f: LaneArithmetic,
    b: BufferView,
    s: State,
    inst: Inst,
    info: EmitInfo,
    state: EmitState,
)
    requires
        memory::wf(s),
        emit::encodable(inst, state.frame_layout),
        float_one_result(f, inst, on_singles(inst), 0) is Some,
    ensures
        ({
            let single = on_singles(inst);
            let n: int = if single {
                4
            } else {
                8
            };
            let (d, x) = one_registers(inst);
            lanes::run(
                f,
                emit::emitted(inst, b, info, state).ops,
                b.ops.len() as int,
                s,
            ) matches Some(t) && t == memory::set_vsr(s, d.vsr(), held(t, d)) && forall|k: int|
                0 <= k && (k + 1) * n <= 16 ==> #[trigger] lane(held(t, d), n, k)
                    == float_one_result(f, inst, single, lane(held(s, x), n, k))->0
                    % memory::power256(n)
        }),
{
    reveal(emit::emitted_vector);
    let single = on_singles(inst);
    let n: int = if single {
        4
    } else {
        8
    };
    let (d, x) = one_registers(inst);
    let ops = emit::emitted(inst, b, info, state).ops;
    let xo = one_opcode(inst);
    let w = mnem::xx2(d.vsr(), x.vsr(), xo);
    lemma_one_known(f, inst, 0);
    lanes::lemma_vsx(d.vsr(), 0, x.vsr(), 0, 0, 0, xo);
    let p = held(s, x);
    let g = |j: int| lanes::float_one(f, xo, single, lanes::element(p, n, j) as u64)->0;
    let v = lanes::of_elements(n, g);
    assert(lanes::float_vector(f, s, w, single) == Some(v));
    assert(lanes::float_vector(f, s, w, !single) is None);
    assert(lanes::step(f, s, w) == Some(memory::set_vsr(s, d.vsr(), v))) by {
        reveal(lanes::step);
    }
    lemma_one(f, b, s, ops, w, memory::set_vsr(s, d.vsr(), v));
    assert forall|k: int| 0 <= k && (k + 1) * n <= 16 implies #[trigger] lane(v, n, k)
        == float_one_result(f, inst, single, lane(p, n, k))->0 % memory::power256(n) by {
        lemma_place(n, k);
        lanes::lemma_element(n, g, 16int / n - 1 - k);
        lemma_one_known(f, inst, lane(p, n, k));
    }
}

/// Conversions between singles and doubles: each double goes to the upper one of two
/// singles, or comes from it. Nothing else changes.
pub proof fn law_precision_is_changed(
    f: LaneArithmetic,
    b: BufferView,
    s: State,
    op: VecCvtOp,
    rd: Writable<Reg>,
    rn: Reg,
    info: EmitInfo,
    state: EmitState,
)
    requires
        memory::wf(s),
        emit::encodable(Inst::VecCvt { op, rd, rn }, state.frame_layout),
        op == VecCvtOp::F64ToF32 || op == VecCvtOp::F32ToF64,
    ensures
        lanes::run(
            f,
            emit::emitted(Inst::VecCvt { op, rd, rn }, b, info, state).ops,
            b.ops.len() as int,
            s,
        ) matches Some(t) && t == memory::set_vsr(s, rd.reg.vsr(), held(t, rd.reg)) && forall|k: int|
            0 <= k < 2 ==> if op == VecCvtOp::F64ToF32 {
                lane(held(t, rd.reg), 4, 2 * k + 1) == (f.narrowed)(
                    #[trigger] lane(held(s, rn), 8, k) as u64,
                ) as int % 0x1_0000_0000
            } else {
                #[trigger] lane(held(t, rd.reg), 8, k) == (f.widened)(
                    lane(held(s, rn), 4, 2 * k + 1) as u64,
                ) as int % 0x1_0000_0000_0000_0000
            },
{
    reveal(emit::emitted_vector);
    let ops = emit::emitted(Inst::VecCvt { op, rd, rn }, b, info, state).ops;
    let (d, x) = (rd.reg.vsr(), rn.vsr());
    let xo = emit_vec::vec_cvt_xo(op);
    let w = mnem::xx2(d, x, xo);
    lanes::lemma_vsx(d, 0, x, 0, 0, 0, xo);
    let p = held(s, rn);
    assert(lanes::float_vector(f, s, w, true) is None);
    assert(lanes::float_vector(f, s, w, false) is None);
    let g = |j: int|
        if j % 2 == 0 {
            (f.narrowed)(lanes::element(p, 8, j / 2) as u64) as int
        } else {
            lanes::element(s.rest + s.rest, 4, j)
        };
    let h = |j: int| (f.widened)(lanes::element(p, 4, 2 * j) as u64) as int;
    let v = if op == VecCvtOp::F64ToF32 {
        lanes::of_elements(4, g)
    } else {
        lanes::of_elements(8, h)
    };
    assert(lanes::vsx_vector(f, s, w) == Some(v));
    assert(lanes::step(f, s, w) == Some(memory::set_vsr(s, d, v))) by {
        reveal(lanes::step);
    }
    lemma_one(f, b, s, ops, w, memory::set_vsr(s, d, v));
    lanes::lemma_element(4, g, 0);
    lanes::lemma_element(4, g, 2);
    lanes::lemma_element(8, h, 0);
    lanes::lemma_element(8, h, 1);
}

/// A splat of the single in a floating-point register puts its upper word in every lane,
/// and changes nothing else.
pub proof fn law_float_is_splatted(
    f: LaneArithmetic,
    b: BufferView,
    s: State,
    rd: Writable<Reg>,
    rn: Reg,
    info: EmitInfo,
    state: EmitState,
)
    requires
        memory::wf(s),
        emit::encodable(Inst::VecSplatFpr { rd, rn, is_f32: true }, state.frame_layout),
    ensures
        lanes::run(
            f,
            emit::emitted(Inst::VecSplatFpr { rd, rn, is_f32: true }, b, info, state).ops,
            b.ops.len() as int,
            s,
        ) matches Some(t) && t == memory::set_vsr(s, rd.reg.vsr(), held(t, rd.reg)) && forall|k: int|
            0 <= k < 4 ==> #[trigger] lane(held(t, rd.reg), 4, k) == lane(held(s, rn), 4, 3)
                % 0x1_0000_0000,
{
    reveal(emit::emitted_vector);
    let inst = Inst::VecSplatFpr { rd, rn, is_f32: true };
    let ops = emit::emitted(inst, b, info, state).ops;
    let (d, x) = (rd.reg.vsr(), rn.vsr());
    let w = mnem::xxspltw(d, x, 0);
    lanes::lemma_vsx(d, 0, x, 0, 0, 0, 164);
    let p = held(s, rn);
    assert(lanes::float_vector(f, s, w, true) is None);
    assert(lanes::float_vector(f, s, w, false) is None);
    let g = |j: int| lanes::element(p, 4, (machine::f2(w) % 4) as int);
    let v = lanes::of_elements(4, g);
    assert(lanes::vsx_vector(f, s, w) == Some(v));
    assert(lanes::step(f, s, w) == Some(memory::set_vsr(s, d, v))) by {
        reveal(lanes::step);
    }
    lemma_one(f, b, s, ops, w, memory::set_vsr(s, d, v));
    assert forall|k: int| 0 <= k < 4 implies #[trigger] lane(v, 4, k) == lane(p, 4, 3)
        % 0x1_0000_0000 by {
        lanes::lemma_element(4, g, 3 - k);
    }
}

} // verus!
