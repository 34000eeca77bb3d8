//! What the instructions of loads, stores and byte swaps do to memory.
use vstd::prelude::*;
use crate::args::{LoadOP, StoreOP};
use crate::buffer::BufferView;
use crate::constants;
use crate::constants::Build;
use crate::emit_fp;
use crate::emit_int;
use crate::emit_mem;
use crate::encode::BCL_20_31_PLUS4;
use crate::ir::{ExternalName, Reloc, Type};
use crate::laws_flow;
use crate::laws_const;
use crate::laws_int;
use crate::machine;
use crate::memory;
use crate::memory::State;
use crate::mnem;

verus! {

// Fixed-point words.

/// Whether a word is one of those that constants are made by.
pub open spec fn is_plain(w: u32) -> bool {
    let o = machine::opcd(w);
    o == 14 || o == 15 || o == 24 || o == 25 || o == 30 || o == 21 || (o == 31 && machine::xo10(w)
        == 124 && machine::xo5(w) == 28)
}

/// A fixed-point word changes the fixed-point part only.
pub proof fn lemma_plain(s: State, w: u32)
    requires
        is_plain(w),
    ensures
        memory::step(s, w) == (match machine::step(s.cpu, w) {
            Some(cpu) => Some(State { cpu, ..s }),
            None => None,
        }),
{
    reveal(memory::step);
}

/// Fixed-point words change the fixed-point part only.
pub proof fn lemma_plain_words(s: State, ws: Seq<u32>)
    requires
        forall|i: int| 0 <= i < ws.len() ==> is_plain(#[trigger] ws[i]),
    ensures
        memory::run_words(s, ws) == (match machine::run_words(s.cpu, ws) {
            Some(cpu) => Some(State { cpu, ..s }),
            None => None,
        }),
    decreases ws.len(),
{
    if ws.len() > 0 {
        lemma_plain_words(s, ws.drop_last());
        assert(is_plain(ws[ws.len() - 1]));
        match memory::run_words(s, ws.drop_last()) {
            Some(t) => lemma_plain(t, ws.last()),
            None => {},
        }
    } else {
        assert(State { cpu: s.cpu, ..s } == s);
    }
}

/// The words of a constant.
pub proof fn lemma_constant_is_plain(rd: u32, imm: u64)
    requires
        rd < 32,
    ensures
        forall|i: int|
            0 <= i < emit_int::load_constant(rd, imm).len() ==> is_plain(
                #[trigger] emit_int::load_constant(rd, imm)[i],
            ),
{
    laws_const::law_constant_is_built(0, imm, rd != 0);
    let ops = constants::shortest(imm, rd != 0);
    assert forall|i: int| 0 <= i < ops.len() implies is_plain(
        #[trigger] emit_int::load_constant(rd, imm)[i],
    ) by {
        assert(constants::valid(ops[i]));
        match ops[i] {
            Build::Li(h) => machine::law_d_fields(14, rd, 0, h as u32),
            Build::Lis(h) => machine::law_d_fields(15, rd, 0, h as u32),
            Build::Ori(h) => machine::law_d_fields(24, rd, rd, h as u32),
            Build::Oris(h) => machine::law_d_fields(25, rd, rd, h as u32),
            Build::Rldicr(sh, me) => machine::law_md_fields(rd, rd, sh, me, 1),
            Build::Rldicl(sh, mb) => machine::law_md_fields(rd, rd, sh, mb, 0),
            Build::Rlwinm(sh, mb, me) => machine::law_m_fields(rd, rd, sh, mb, me),
            Build::Not => machine::law_x_fields(31, rd, rd, rd, 124),
            Build::Addi(h) => machine::law_d_fields(14, rd, rd, h as u32),
            Build::Addis(h) => machine::law_d_fields(15, rd, rd, h as u32),
        }
    }
}

/// The words of an access.
pub open spec fn access_words(rt: u32, base: u32, offset: int, a: emit_mem::Access) -> Seq<u32> {
    laws_int::access_setup(offset, a) + seq![laws_int::access_word(rt, base, offset, a)]
}

/// Up to the access itself, an access changes at most r0.
proof fn lemma_access(
    b: BufferView,
    s: State,
    rt: u32,
    base: u32,
    offset: int,
    a: emit_mem::Access,
) -> (u: State)
    requires
        memory::wf(s),
        rt < 32,
        0 < base < 32,
        i64::MIN <= offset <= i64::MAX,
        (exists|op: LoadOP| a == #[trigger] emit_mem::load_access(op)) || (exists|op: StoreOP|
            a == #[trigger] emit_mem::store_access(op)),
    ensures
        emit_mem::mem_access(b, rt, base, offset, a) == b.words(access_words(rt, base, offset, a)),
        memory::run_words(s, access_words(rt, base, offset, a)) == memory::step(
            u,
            laws_int::access_word(rt, base, offset, a),
        ),
        u == (State { cpu: u.cpu, ..s }),
        machine::same_but(s.cpu, u.cpu, 0, 0),
        laws_int::access_setup(offset, a).len() == 0 ==> u == s,
        memory::effective_address(u.cpu, laws_int::access_word(rt, base, offset, a))
            == machine::wrap(s.cpu.gpr[base as int] + offset),
        machine::f1(laws_int::access_word(rt, base, offset, a)) == rt,
{
    let setup = laws_int::access_setup(offset, a);
    let w = laws_int::access_word(rt, base, offset, a);
    laws_int::law_access_goes_to_its_address(b, s.cpu, rt, base, offset, a);
    laws_int::lemma_words_push(b, setup, w);
    lemma_constant_is_plain(0, offset as i64 as u64);
    lemma_plain_words(s, setup);
    memory::lemma_run_push(s, setup, w);
    memory::run_words(s, setup)->0
}

/// The bytes that a store of a general-purpose register writes, if it is one.
pub open spec fn stored_width(op: StoreOP) -> Option<nat> {
    match op {
        StoreOP::Stb => Some(1),
        StoreOP::Sth => Some(2),
        StoreOP::Stw => Some(4),
        StoreOP::Std => Some(8),
        StoreOP::Stfs | StoreOP::Stfd => None,
    }
}

/// The bytes that a load of a general-purpose register reads, if it is one.
pub open spec fn loaded_width(op: LoadOP) -> Option<nat> {
    match op {
        LoadOP::Lbz => Some(1),
        LoadOP::Lhz => Some(2),
        LoadOP::Lwz => Some(4),
        LoadOP::Ld => Some(8),
        LoadOP::Lfs | LoadOP::Lfd => None,
    }
}

/// What the word of an access says of itself.
pub proof fn lemma_access_kind(rt: u32, base: u32, offset: int, a: emit_mem::Access)
    requires
        rt < 32,
        base < 32,
        i64::MIN <= offset <= i64::MAX,
        a.wf(),
    ensures
        ({
            let w = laws_int::access_word(rt, base, offset, a);
            ||| machine::opcd(w) == a.d_opcd && (a.ds_xo matches Some(xo) ==> w & 3 == xo)
            ||| machine::opcd(w) == 31 && machine::xo10(w) == a.x_xo
        }),
{
    if emit_mem::fits_d(offset) && (a.ds_xo is Some ==> offset % 4 == 0) {
        match a.ds_xo {
            Some(xo2) => {
                laws_int::lemma_ds_fields(a.d_opcd, rt, base, offset as i16, xo2);
            },
            None => {
                machine::law_d_fields(a.d_opcd, rt, base, offset as i16 as u16 as u32);
            },
        }
    } else {
        machine::law_x_fields(31, rt, base, 0, a.x_xo);
    }
}

/// A store writes the low bytes of its register at the base register plus the
/// offset, the least significant first, and changes nothing else but at most r0.
pub proof fn law_scalar_is_stored(
    b: BufferView,
    s: State,
    src: u32,
    base: u32,
    offset: int,
    op: StoreOP,
)
    requires
        memory::wf(s),
        src < 32,
        0 < base < 32,
        i64::MIN <= offset <= i64::MAX,
        stored_width(op) is Some,
        src == 0 ==> laws_int::access_setup(offset, emit_mem::store_access(op)).len() == 0,
    ensures
        ({
            let a = emit_mem::store_access(op);
            let ws = access_words(src, base, offset, a);
            let place = machine::wrap(s.cpu.gpr[base as int] + offset);
            let bytes = memory::low_bytes(s.cpu.gpr[src as int], stored_width(op)->0);
            &&& emit_mem::mem_access(b, src, base, offset, a) == b.words(ws)
            &&& memory::run_words(s, ws) matches Some(t) && t == (State {
                cpu: t.cpu,
                ..memory::write(s, place, bytes)
            }) && machine::same_but(s.cpu, t.cpu, 0, 0)
        }),
{
    let a = emit_mem::store_access(op);
    let u = lemma_access(b, s, src, base, offset, a);
    lemma_access_kind(src, base, offset, a);
    reveal(memory::step);
}

/// A load reads bytes at the base register plus the offset, the least significant
/// first, and zero-extends them into its register. Besides that register it changes
/// at most r0.
pub proof fn law_scalar_is_loaded(
    b: BufferView,
    s: State,
    rd: u32,
    base: u32,
    offset: int,
    op: LoadOP,
)
    requires
        memory::wf(s),
        rd < 32,
        0 < base < 32,
        i64::MIN <= offset <= i64::MAX,
        loaded_width(op) is Some,
    ensures
        ({
            let a = emit_mem::load_access(op);
            let ws = access_words(rd, base, offset, a);
            let place = machine::wrap(s.cpu.gpr[base as int] + offset);
            let bytes = memory::load_bytes(s.mem, place, loaded_width(op)->0);
            &&& emit_mem::mem_access(b, rd, base, offset, a) == b.words(ws)
            &&& memory::run_words(s, ws) matches Some(t) && t == (State { cpu: t.cpu, ..s })
                && t.cpu.gpr[rd as int] == memory::doubleword(bytes) && machine::same_but(
                s.cpu,
                t.cpu,
                rd,
                0,
            )
        }),
{
    let a = emit_mem::load_access(op);
    let u = lemma_access(b, s, rd, base, offset, a);
    lemma_access_kind(rd, base, offset, a);
    reveal(memory::step);
}

/// A load of a double leaves in the first half of its register what the bytes at
/// the base register plus the offset make, and changes nothing else but at most r0.
pub proof fn law_double_is_loaded(b: BufferView, s: State, rd: u32, base: u32, offset: int)
    requires
        memory::wf(s),
        rd < 32,
        0 < base < 32,
        i64::MIN <= offset <= i64::MAX,
    ensures
        ({
            let a = emit_mem::load_access(LoadOP::Lfd);
            let ws = access_words(rd, base, offset, a);
            let place = machine::wrap(s.cpu.gpr[base as int] + offset);
            let bytes = memory::load_bytes(s.mem, place, 8);
            &&& emit_mem::mem_access(b, rd, base, offset, a) == b.words(ws)
            &&& memory::run_words(s, ws) matches Some(t) && t == (State {
                cpu: t.cpu,
                ..memory::set_vsr(s, rd, memory::reversed(bytes) + s.rest)
            }) && machine::same_but(s.cpu, t.cpu, 0, 0)
        }),
{
    let a = emit_mem::load_access(LoadOP::Lfd);
    let u = lemma_access(b, s, rd, base, offset, a);
    lemma_access_kind(rd, base, offset, a);
    reveal(memory::step);
}

/// A store of a double writes the first half of its register at the base register
/// plus the offset, the least significant byte first, and changes nothing else but
/// at most r0.
pub proof fn law_double_is_stored(b: BufferView, s: State, src: u32, base: u32, offset: int)
    requires
        memory::wf(s),
        src < 32,
        0 < base < 32,
        i64::MIN <= offset <= i64::MAX,
    ensures
        ({
            let a = emit_mem::store_access(StoreOP::Stfd);
            let ws = access_words(src, base, offset, a);
            let place = machine::wrap(s.cpu.gpr[base as int] + offset);
            let bytes = memory::reversed(s.vsr[src as int].subrange(0, 8));
            &&& emit_mem::mem_access(b, src, base, offset, a) == b.words(ws)
            &&& memory::run_words(s, ws) matches Some(t) && t == (State {
                cpu: t.cpu,
                ..memory::write(s, place, bytes)
            }) && machine::same_but(s.cpu, t.cpu, 0, 0)
        }),
{
    let a = emit_mem::store_access(StoreOP::Stfd);
    let u = lemma_access(b, s, src, base, offset, a);
    lemma_access_kind(src, base, offset, a);
    reveal(memory::step);
}

/// Running words and then others.
pub proof fn lemma_run_concat(s: State, a: Seq<u32>, b: Seq<u32>)
    ensures
        memory::run_words(s, a + b) == (match memory::run_words(s, a) {
            Some(t) => memory::run_words(t, b),
            None => None,
        }),
    decreases b.len(),
{
    if b.len() == 0 {
        assert(a + b =~= a);
    } else {
        lemma_run_concat(s, a, b.drop_last());
        assert((a + b).drop_last() =~= a + b.drop_last());
        assert((a + b).last() == b.last());
    }
}

/// What is read back of a whole write.
pub proof fn lemma_load_whole(mem: spec_fn(u64) -> u8, a: u64, v: Seq<u8>)
    requires
        v.len() <= 16,
    ensures
        memory::load_bytes(memory::store_bytes(mem, a, v), a, v.len()) == v,
{
    memory::lemma_load_inside(mem, a, v, 0, v.len());
    assert(machine::wrap(a + 0) == a);
    assert(v.subrange(0, v.len() as int) =~= v);
}

/// A load of the place that a store went to gives back what was stored, as far as
/// the access is wide: the low bytes of the register, zero-extended.
pub proof fn law_load_gives_back_the_store(
    s: State,
    src: u32,
    rd: u32,
    base: u32,
    offset: int,
    to: StoreOP,
    from: LoadOP,
)
    requires
        memory::wf(s),
        src < 32,
        rd < 32,
        0 < base < 32,
        i64::MIN <= offset <= i64::MAX,
        stored_width(to) is Some,
        loaded_width(from) == stored_width(to),
        src == 0 ==> laws_int::access_setup(offset, emit_mem::store_access(to)).len() == 0,
    ensures
        ({
            let ws = access_words(src, base, offset, emit_mem::store_access(to)) + access_words(
                rd,
                base,
                offset,
                emit_mem::load_access(from),
            );
            memory::run_words(s, ws) matches Some(t) && t.cpu.gpr[rd as int]
                == s.cpu.gpr[src as int] as int % memory::power256(stored_width(to)->0 as int)
                && machine::same_but(s.cpu, t.cpu, rd, 0) && t.vsr == s.vsr
        }),
{
    let b = BufferView { ops: Seq::empty(), size: 0, labels: 0, deadline: 0 };
    let n = stored_width(to)->0;
    let place = machine::wrap(s.cpu.gpr[base as int] + offset);
    let v = memory::low_bytes(s.cpu.gpr[src as int], n);
    let first = access_words(src, base, offset, emit_mem::store_access(to));
    let second = access_words(rd, base, offset, emit_mem::load_access(from));
    law_scalar_is_stored(b, s, src, base, offset, to);
    let u = memory::run_words(s, first)->0;
    law_scalar_is_loaded(b, u, rd, base, offset, from);
    lemma_load_whole(s.mem, place, v);
    memory::lemma_number_of_bytes(s.cpu.gpr[src as int], n);
    lemma_run_concat(s, first, second);
}

/// A load of a double from the place that a store of one went to gives it back.
pub proof fn law_load_gives_back_the_double(s: State, src: u32, rd: u32, base: u32, offset: int)
    requires
        memory::wf(s),
        src < 32,
        rd < 32,
        0 < base < 32,
        i64::MIN <= offset <= i64::MAX,
    ensures
        ({
            let ws = access_words(src, base, offset, emit_mem::store_access(StoreOP::Stfd))
                + access_words(rd, base, offset, emit_mem::load_access(LoadOP::Lfd));
            memory::run_words(s, ws) matches Some(t) && t.vsr[rd as int].subrange(0, 8)
                == s.vsr[src as int].subrange(0, 8) && machine::same_but(s.cpu, t.cpu, 0, 0) && (
            forall|i: int| 0 <= i < 64 && i != rd ==> #[trigger] t.vsr[i] == s.vsr[i])
        }),
{
    let b = BufferView { ops: Seq::empty(), size: 0, labels: 0, deadline: 0 };
    let place = machine::wrap(s.cpu.gpr[base as int] + offset);
    let out = emit_mem::store_access(StoreOP::Stfd);
    let back = emit_mem::load_access(LoadOP::Lfd);
    let h = s.vsr[src as int].subrange(0, 8);
    let v = memory::reversed(h);
    law_double_is_stored(b, s, src, base, offset);
    let u = memory::run_words(s, access_words(src, base, offset, out))->0;
    law_double_is_loaded(b, u, rd, base, offset);
    lemma_load_whole(s.mem, place, v);
    assert(memory::reversed(v) =~= h);
    assert((h + s.rest).subrange(0, 8) =~= h);
    lemma_run_concat(
        s,
        access_words(src, base, offset, out),
        access_words(rd, base, offset, back),
    );
}

// Byte swaps.

/// The bytes of a type that bytes are swapped of.
pub open spec fn swap_width(ty: Type) -> nat {
    match ty {
        Type::I16 => 2,
        Type::I32 => 4,
        _ => 8,
    }
}

/// The words of a byte swap.
pub open spec fn swap_words(rd: u32, rn: u32, ty: Type) -> Seq<u32> {
    seq![
        mnem::addi(0, 1, 0xFFF0),
        match ty {
            Type::I16 => mnem::d_access(44, rn, 1, 0xFFF0),
            Type::I32 => mnem::d_access(36, rn, 1, 0xFFF0),
            _ => mnem::std_ds(rn, -16i16, 1),
        },
        match ty {
            Type::I16 => mnem::x_access(rd, 0, 0, 790),
            Type::I32 => mnem::x_access(rd, 0, 0, 534),
            _ => mnem::x_access(rd, 0, 0, 532),
        },
    ]
}

/// `addi` on the machine.
pub proof fn lemma_addi(s: State, rt: u32, ra: u32, si: u16)
    requires
        memory::wf(s),
        rt < 32,
        0 < ra < 32,
    ensures
        memory::step(s, mnem::addi(rt, ra, si)) == Some(
            memory::set_gpr(
                s,
                rt,
                machine::wrap(s.cpu.gpr[ra as int] + machine::signed16(si as u32)),
            ),
        ),
{
    machine::law_d_fields(14, rt, ra, si as u32);
    lemma_plain(s, mnem::addi(rt, ra, si));
    reveal(machine::step);
}

/// Running three words.
proof fn lemma_run_three(s: State, w0: u32, w1: u32, w2: u32)
    ensures
        memory::run_words(s, seq![w0, w1, w2]) == (match memory::step(s, w0) {
            Some(t) => match memory::step(t, w1) {
                Some(u) => memory::step(u, w2),
                None => None,
            },
            None => None,
        }),
{
    let e = Seq::<u32>::empty();
    memory::lemma_run_push(s, e, w0);
    memory::lemma_run_push(s, e + seq![w0], w1);
    memory::lemma_run_push(s, e + seq![w0] + seq![w1], w2);
    assert(e + seq![w0] + seq![w1] + seq![w2] =~= seq![w0, w1, w2]);
}

/// A byte swap leaves the low bytes of its operand in the destination in the other
/// order, zero-extended. Besides the destination and r0 it changes the bytes of the
/// red zone that it goes through.
pub proof fn law_bytes_are_swapped(b: BufferView, s: State, rd: u32, rn: u32, ty: Type)
    requires
        memory::wf(s),
        rd < 32,
        0 < rn < 32,
        ty == Type::I16 || ty == Type::I32 || ty == Type::I64,
    ensures
        ({
            let n = swap_width(ty);
            let bytes = memory::low_bytes(s.cpu.gpr[rn as int], n);
            let place = machine::wrap(s.cpu.gpr[1] - 16);
            &&& emit_fp::bswap(b, rd, rn, ty) == b.words(swap_words(rd, rn, ty))
            &&& memory::run_words(s, swap_words(rd, rn, ty)) matches Some(t) && t == (State {
                cpu: t.cpu,
                ..memory::write(s, place, bytes)
            }) && (forall|j: int|
                0 <= j < 8 ==> #[trigger] memory::byte(t.cpu.gpr[rd as int], j) == (if j < n {
                    memory::byte(s.cpu.gpr[rn as int], n - 1 - j)
                } else {
                    0
                })) && machine::same_but(s.cpu, t.cpu, rd, 0)
        }),
{
    let n = swap_width(ty);
    let ws = swap_words(rd, rn, ty);
    let place = machine::wrap(s.cpu.gpr[1] - 16);
    let bytes = memory::low_bytes(s.cpu.gpr[rn as int], n);
    assert(emit_fp::bswap(b, rd, rn, ty) =~= b.words(ws));
    lemma_addi(s, 0, 1, 0xFFF0);
    let u = memory::set_gpr(s, 0, place);
    laws_int::lemma_displacement(-16i16);
    assert(-16i16 as u16 == 0xFFF0);
    machine::law_d_fields(44, rn, 1, 0xFFF0);
    machine::law_d_fields(36, rn, 1, 0xFFF0);
    laws_int::lemma_ds_fields(62, rn, 1, -16i16, 0);
    let v = memory::write(u, place, bytes);
    assert(memory::step(u, ws[1]) == Some(v)) by {
        reveal(memory::step);
    }
    machine::law_x_fields(31, rd, 0, 0, 790);
    machine::law_x_fields(31, rd, 0, 0, 534);
    machine::law_x_fields(31, rd, 0, 0, 532);
    lemma_load_whole(s.mem, place, bytes);
    let back = memory::reversed(bytes);
    let t = memory::set_gpr(v, rd, memory::doubleword(back));
    assert(machine::wrap(0 + place) == place);
    assert(memory::step(v, ws[2]) == Some(t)) by {
        reveal(memory::step);
    }
    lemma_run_three(s, ws[0], ws[1], ws[2]);
    assert(ws =~= seq![ws[0], ws[1], ws[2]]);
    memory::lemma_byte_of_number(back);
}

// Addresses of names.

/// The log of the address of a name up to the literal.
pub open spec fn before_literal(
    b: BufferView,
    rd: u32,
    name: ExternalName,
    offset: i64,
) -> BufferView {
    b.word(BCL_20_31_PLUS4).word(mnem::mflr(rd)).word(mnem::ld(rd, 12, rd)).word(
        mnem::b(12),
    ).reloc(Reloc::Abs8, name, offset)
}

/// The address of a name is what the relocated literal holds: with the link register
/// at the second instruction, where the first one leaves it, the register is loaded
/// from the literal, and the branch goes to the end of the code, over the literal.
pub proof fn law_name_is_loaded(
    b: BufferView,
    s: State,
    start: u64,
    rd: u32,
    name: ExternalName,
    offset: i64,
)
    requires
        memory::wf(s),
        0 < rd < 32,
        s.cpu.lr == machine::wrap(start + b.size + 4),
    ensures
        ({
            let before = before_literal(b, rd, name, offset);
            let all = emit_mem::load_ext_name(b, rd, name, offset);
            &&& all == before.quad(0)
            &&& memory::run_words(s, seq![mnem::mflr(rd), mnem::ld(rd, 12, rd)]) matches Some(t)
                && t.cpu.gpr[rd as int] == memory::doubleword(
                memory::load_bytes(s.mem, machine::wrap(start + before.size), 8),
            ) && machine::same_but(s.cpu, t.cpu, rd, rd) && t.mem == s.mem && t.vsr == s.vsr
            &&& machine::opcd(mnem::b(12)) == 18
            &&& before.size - 4 + machine::low16(mnem::b(12)) == all.size
        }),
{
    let before = before_literal(b, rd, name, offset);
    let w0 = mnem::mflr(rd);
    let w1 = mnem::ld(rd, 12, rd);
    laws_flow::lemma_link_register();
    machine::law_x_fields(31, rd, 8, 0, 339);
    let s1 = memory::set_gpr(s, rd, s.cpu.lr);
    assert(memory::step(s, w0) == Some(s1)) by {
        reveal(memory::step);
        reveal(machine::step);
    }
    laws_int::lemma_displacement(12);
    laws_int::lemma_ds_fields(58, rd, rd, 12, 0);
    let place = machine::wrap(start + before.size);
    assert(machine::wrap(s.cpu.lr + 12) == place);
    let v = memory::doubleword(memory::load_bytes(s.mem, place, 8));
    assert(memory::step(s1, w1) == Some(memory::set_gpr(s1, rd, v))) by {
        reveal(memory::step);
    }
    memory::lemma_run_push(s, Seq::empty(), w0);
    memory::lemma_run_push(s, Seq::<u32>::empty() + seq![w0], w1);
    assert(Seq::<u32>::empty() + seq![w0] + seq![w1] =~= seq![w0, w1]);
    machine::law_b_fields(12);
}

} // verus!
