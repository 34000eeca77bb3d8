//! That argument locations keep out of each other's way.
use vstd::prelude::*;
use crate::arg_locs;
use crate::arg_locs::{ABIArgSlot, ArgLoc, ArgsOrRets, Placed, Scheme, Taken, STACK_ARG_BASE};
use crate::inst;
use crate::ir::{AbiParam, ArgumentExtension, CallConv, SharedFlags, Type};
use crate::regs::RegClass;

verus! {

/// Whether two places for parts of values have nothing in common: two registers
/// are different ones, and two places on the stack do not overlap.
pub open spec fn apart(x: ABIArgSlot, y: ABIArgSlot) -> bool {
    match (x, y) {
        (ABIArgSlot::Reg { reg: a, .. }, ABIArgSlot::Reg { reg: b, .. }) => a != b,
        (ABIArgSlot::Stack { offset: a, ty: s, .. }, ABIArgSlot::Stack { offset: b, ty: t, .. }) => {
            a + arg_locs::part_size(s) <= b || b + arg_locs::part_size(t) <= a
        },
        _ => true,
    }
}

/// Whether a place on the stack is a doubleword-aligned one below a limit, and,
/// for an argument, above the header.
pub open spec fn inside(x: ABIArgSlot, s: Scheme, limit: int) -> bool {
    x matches ABIArgSlot::Stack { offset, ty, .. } ==> {
        &&& offset % 8 == 0
        &&& offset >= if s.for_args {
            STACK_ARG_BASE as int
        } else {
            0
        }
        &&& offset + arg_locs::part_size(ty) <= limit
    }
}

/// The end of the stack area in use.
spec fn stack_end(a: Taken, s: Scheme) -> int {
    if s.positional {
        if a.slot_idx > 8 {
            STACK_ARG_BASE + a.slot_idx * 8
        } else {
            0
        }
    } else {
        a.next_stack
    }
}

/// Whether a place is among those taken.
spec fn taken(a: Taken, s: Scheme, x: ABIArgSlot) -> bool {
    match x {
        ABIArgSlot::Reg { reg, .. } => match reg.class {
            RegClass::Int => reg.hw_enc < if s.positional {
                3 + a.slot_idx
            } else {
                a.next_x_reg
            },
            RegClass::Float => reg.hw_enc < a.next_f_reg,
            RegClass::Vector => reg.hw_enc < a.next_v_reg,
        },
        ABIArgSlot::Stack { .. } => inside(x, s, stack_end(a, s)),
    }
}

/// What holds throughout: each register in use has a slot, where allocation is
/// positional.
spec fn steady(a: Taken, s: Scheme) -> bool {
    &&& 3 <= a.next_x_reg <= 11
    &&& 1 <= a.next_f_reg <= 14
    &&& 2 <= a.next_v_reg <= 14
    &&& a.next_stack % 8 == 0
    &&& 0 <= a.next_stack
    &&& 0 <= a.slot_idx
    &&& s.positional ==> s.for_args && a.next_f_reg - 1 <= a.slot_idx && 2 * (a.next_v_reg - 2)
        <= a.slot_idx
    &&& !s.positional && s.for_args ==> a.next_stack == 0 || a.next_stack >= STACK_ARG_BASE
}

/// Whether offsets are small enough to be 64-bit numbers.
spec fn small(a: Taken) -> bool {
    &&& a.next_stack <= 0x1_0000_0000
    &&& a.slot_idx <= 0x1_0000_0000
}

/// A part of a class and a type that go together.
spec fn part_ok(rc: RegClass, ty: Type) -> bool {
    &&& ty.bytes() <= 16
    &&& rc != RegClass::Vector ==> ty.bytes() <= 8
}

/// The size of a part is one doubleword or two.
proof fn lemma_part_size(ty: Type)
    requires
        ty.bytes() <= 16,
    ensures
        arg_locs::part_size(ty) == 8 || arg_locs::part_size(ty) == 16,
{
}

/// Placing a part keeps what is taken, takes a place that was not, and keeps what
/// holds throughout.
proof fn lemma_place_part(
    a: Taken,
    s: Scheme,
    rc: RegClass,
    ty: Type,
    extension: ArgumentExtension,
)
    requires
        steady(a, s),
        part_ok(rc, ty),
        small(a.after(s, rc, ty)),
    ensures
        steady(a.after(s, rc, ty), s),
        taken(a.after(s, rc, ty), s, a.slot_for(s, rc, ty, extension)),
        forall|x: ABIArgSlot| taken(a, s, x) ==> #[trigger] taken(a.after(s, rc, ty), s, x) && apart(
            x,
            a.slot_for(s, rc, ty, extension),
        ),
{
    lemma_part_size(ty);
    let n = arg_locs::part_size(ty);
    let base = if a.next_stack == 0 && s.for_args {
        STACK_ARG_BASE as int
    } else {
        a.next_stack
    };
    if n == 8 {
        assert(arg_locs::spec_align_to(base, 8) == base);
    } else {
        assert(arg_locs::spec_align_to(base, 16) % 8 == 0);
        assert(base <= arg_locs::spec_align_to(base, 16) <= base + 15);
    }
}

/// Placing the parts of a parameter, one after the other.
proof fn lemma_place_parts(
    a: Taken,
    s: Scheme,
    rcs: Seq<RegClass>,
    tys: Seq<Type>,
    extension: ArgumentExtension,
    k: nat,
)
    requires
        steady(a, s),
        small(arg_locs::alloc_parts(a, s, rcs, tys, k)),
        rcs.len() == tys.len(),
        k <= rcs.len(),
        forall|j: int| 0 <= j < rcs.len() ==> part_ok(#[trigger] rcs[j], tys[j]),
    ensures
        ({
            let b = arg_locs::alloc_parts(a, s, rcs, tys, k);
            let slots = arg_locs::place_parts(a, s, rcs, tys, extension);
            &&& steady(b, s)
            &&& forall|x: ABIArgSlot| taken(a, s, x) ==> #[trigger] taken(b, s, x)
            &&& forall|j: int| 0 <= j < k ==> #[trigger] taken(b, s, slots[j])
            &&& forall|x: ABIArgSlot, j: int|
                0 <= j < k && #[trigger] taken(a, s, x) ==> apart(x, #[trigger] slots[j])
            &&& forall|i: int, j: int|
                0 <= i < j < k ==> apart(#[trigger] slots[i], #[trigger] slots[j])
        }),
    decreases k,
{
    if k > 0 {
        let slots = arg_locs::place_parts(a, s, rcs, tys, extension);
        let b = arg_locs::alloc_parts(a, s, rcs, tys, (k - 1) as nat);
        let c = arg_locs::alloc_parts(a, s, rcs, tys, k);
        arg_locs::lemma_parts_grow(a, s, rcs, tys, (k - 1) as nat);
        arg_locs::lemma_parts_grow(b, s, seq![rcs[k - 1]], seq![tys[k - 1]], 1);
        reveal_with_fuel(arg_locs::alloc_parts, 2);
        lemma_place_parts(a, s, rcs, tys, extension, (k - 1) as nat);
        assert(part_ok(rcs[k - 1], tys[k - 1]));
        lemma_place_part(b, s, rcs[k - 1], tys[k - 1], extension);
        assert(slots[k - 1] == b.slot_for(s, rcs[k - 1], tys[k - 1], extension));
        assert forall|x: ABIArgSlot, j: int| 0 <= j < k && #[trigger] taken(a, s, x) implies apart(
            x,
            #[trigger] slots[j],
        ) by {
            assert(taken(b, s, x));
            assert(taken(c, s, x));
        }
        assert forall|j: int| 0 <= j < k implies #[trigger] taken(c, s, slots[j]) by {
            if j < k - 1 {
                assert(taken(b, s, slots[j]));
            }
        }
        assert forall|i: int, j: int| 0 <= i < j < k implies apart(
            #[trigger] slots[i],
            #[trigger] slots[j],
        ) by {
            if j == k - 1 {
                assert(taken(b, s, slots[i]));
                assert(taken(c, s, slots[i]));
            }
        }
    }
}

/// Whether every place is taken, and no two have anything in common.
spec fn settled(p: Placed, s: Scheme) -> bool {
    &&& forall|i: int, k: int|
        0 <= i < p.locs.len() && 0 <= k < p.locs[i].slots.len() ==> taken(
            p.alloc,
            s,
            #[trigger] p.locs[i].slots[k],
        )
    &&& forall|i: int, k: int, j: int, l: int|
        0 <= i < p.locs.len() && 0 <= k < p.locs[i].slots.len() && 0 <= j < p.locs.len() && 0 <= l
            < p.locs[j].slots.len() && (i < j || (i == j && k < l)) ==> apart(
            #[trigger] p.locs[i].slots[k],
            #[trigger] p.locs[j].slots[l],
        )
}

/// Placing one more parameter.
proof fn lemma_place_one(
    p: Placed,
    s: Scheme,
    param: AbiParam,
    may_spill: bool,
)
    requires
        steady(p.alloc, s),
        small(arg_locs::place_one(p, s, param, may_spill).alloc),
        settled(p, s),
    ensures
        steady(arg_locs::place_one(p, s, param, may_spill).alloc, s),
        settled(arg_locs::place_one(p, s, param, may_spill), s),
        forall|x: ABIArgSlot| taken(p.alloc, s, x) ==> #[trigger] taken(
            arg_locs::place_one(p, s, param, may_spill).alloc,
            s,
            x,
        ),
        forall|x: ABIArgSlot, k: int|
            #![trigger taken(p.alloc, s, x), arg_locs::place_one(p, s, param, may_spill).locs[p.locs.len() as int].slots[k]]
            taken(p.alloc, s, x) && arg_locs::place_one(p, s, param, may_spill).locs.len()
                > p.locs.len() && 0 <= k < arg_locs::place_one(
                p,
                s,
                param,
                may_spill,
            ).locs[p.locs.len() as int].slots.len() ==> apart(
                x,
                arg_locs::place_one(p, s, param, may_spill).locs[p.locs.len() as int].slots[k],
            ),
{
    let q = arg_locs::place_one(p, s, param, may_spill);
    if p.error is None {
        arg_locs::lemma_parts(param.value_type);
        if let Some((rcs, tys)) = inst::reg_parts(param.value_type) {
            let a = p.alloc.before(s, rcs);
            assert(steady(a, s));
            assert forall|x: ABIArgSlot| taken(p.alloc, s, x) implies #[trigger] taken(a, s, x) by {
            }
            if q.error is None {
                let slots = arg_locs::place_parts(a, s, rcs, tys, param.extension);
                let n = p.locs.len() as int;
                lemma_place_parts(a, s, rcs, tys, param.extension, rcs.len());
                assert(q.locs[n].slots == slots);
                assert forall|i: int, k: int|
                    0 <= i < q.locs.len() && 0 <= k < q.locs[i].slots.len() implies taken(
                    q.alloc,
                    s,
                    #[trigger] q.locs[i].slots[k],
                ) by {
                    if i < n {
                        assert(q.locs[i] == p.locs[i]);
                        assert(taken(p.alloc, s, p.locs[i].slots[k]));
                        assert(taken(a, s, p.locs[i].slots[k]));
                    }
                }
                assert forall|i: int, k: int, j: int, l: int|
                    0 <= i < q.locs.len() && 0 <= k < q.locs[i].slots.len() && 0 <= j < q.locs.len()
                        && 0 <= l < q.locs[j].slots.len() && (i < j || (i == j && k
                        < l)) implies apart(
                    #[trigger] q.locs[i].slots[k],
                    #[trigger] q.locs[j].slots[l],
                ) by {
                    if i < n {
                        assert(q.locs[i] == p.locs[i]);
                        assert(taken(p.alloc, s, p.locs[i].slots[k]));
                        assert(taken(a, s, p.locs[i].slots[k]));
                        if j < n {
                            assert(q.locs[j] == p.locs[j]);
                        }
                    }
                }
                assert forall|x: ABIArgSlot| taken(p.alloc, s, x) implies #[trigger] taken(
                    q.alloc,
                    s,
                    x,
                ) by {
                    assert(taken(a, s, x));
                }
                assert forall|x: ABIArgSlot, k: int|
                    #![trigger taken(p.alloc, s, x), q.locs[n].slots[k]]
                    taken(p.alloc, s, x) && 0 <= k < q.locs[n].slots.len() implies apart(
                    x,
                    q.locs[n].slots[k],
                ) by {
                    assert(taken(a, s, x));
                }
            }
        }
    }
}

/// Placing parameters in order.
proof fn lemma_place_params(start: Taken, s: Scheme, params: Seq<AbiParam>, may_spill: bool)
    requires
        steady(start, s),
        arg_locs::counted(start, s),
        small(arg_locs::place_params(start, s, params, may_spill).alloc),
    ensures
        steady(arg_locs::place_params(start, s, params, may_spill).alloc, s),
        settled(arg_locs::place_params(start, s, params, may_spill), s),
        forall|x: ABIArgSlot| taken(start, s, x) ==> #[trigger] taken(
            arg_locs::place_params(start, s, params, may_spill).alloc,
            s,
            x,
        ),
        forall|x: ABIArgSlot, i: int, k: int|
            #![trigger taken(start, s, x), arg_locs::place_params(start, s, params, may_spill).locs[i].slots[k]]
            taken(start, s, x) && 0 <= i < arg_locs::place_params(
                start,
                s,
                params,
                may_spill,
            ).locs.len() && 0 <= k < arg_locs::place_params(
                start,
                s,
                params,
                may_spill,
            ).locs[i].slots.len() ==> apart(
                x,
                arg_locs::place_params(start, s, params, may_spill).locs[i].slots[k],
            ),
    decreases params.len(),
{
    if params.len() > 0 {
        let rest = params.drop_last();
        let p = arg_locs::place_params(start, s, rest, may_spill);
        let q = arg_locs::place_params(start, s, params, may_spill);
        arg_locs::lemma_counted(start, s, rest, may_spill);
        arg_locs::lemma_one_grows(p, s, params.last(), may_spill);
        lemma_place_params(start, s, rest, may_spill);
        lemma_place_one(p, s, params.last(), may_spill);
        assert forall|x: ABIArgSlot, i: int, k: int|
            #![trigger taken(start, s, x), q.locs[i].slots[k]]
            taken(start, s, x) && 0 <= i < q.locs.len() && 0 <= k
                < q.locs[i].slots.len() implies apart(x, q.locs[i].slots[k]) by {
            assert(taken(p.alloc, s, x));
            if i < p.locs.len() {
                assert(q.locs[i] == p.locs[i]);
            } else {
                assert(i == p.locs.len());
            }
        }
    }
}

/// No two parts of parameters share a register or overlap on the stack.
pub proof fn law_argument_places_are_apart(
    call_conv: CallConv,
    flags: SharedFlags,
    params: Seq<AbiParam>,
    args_or_rets: ArgsOrRets,
    add_ret_area_ptr: bool,
    i: int,
    k: int,
    j: int,
    l: int,
)
    requires
        arg_locs::fits(call_conv, flags, params, args_or_rets, add_ret_area_ptr),
        ({
            let locs = arg_locs::arg_locs_outcome(
                call_conv,
                flags,
                params,
                args_or_rets,
                add_ret_area_ptr,
            ).locs;
            &&& 0 <= i < locs.len()
            &&& 0 <= j < locs.len()
            &&& 0 <= k < locs[i].slots.len()
            &&& 0 <= l < locs[j].slots.len()
            &&& i < j || (i == j && k < l)
        }),
    ensures
        ({
            let locs = arg_locs::arg_locs_outcome(
                call_conv,
                flags,
                params,
                args_or_rets,
                add_ret_area_ptr,
            ).locs;
            apart(locs[i].slots[k], locs[j].slots[l])
        }),
{
    let s = arg_locs::scheme(call_conv, args_or_rets);
    let start = Taken::start(add_ret_area_ptr);
    let may_spill = args_or_rets == ArgsOrRets::Args || flags.enable_multi_ret_implicit_sret;
    arg_locs::lemma_counted(start, s, params, may_spill);
    lemma_place_params(start, s, params, may_spill);
}

/// The register of the pointer to the return area carries nothing else.
pub proof fn law_return_area_register_is_its_own(
    call_conv: CallConv,
    flags: SharedFlags,
    params: Seq<AbiParam>,
    i: int,
    k: int,
)
    requires
        arg_locs::fits(call_conv, flags, params, ArgsOrRets::Args, true),
        ({
            let locs = arg_locs::arg_locs_outcome(
                call_conv,
                flags,
                params,
                ArgsOrRets::Args,
                true,
            ).locs;
            0 <= i < locs.len() && 0 <= k < locs[i].slots.len()
        }),
    ensures
        ({
            let locs = arg_locs::arg_locs_outcome(
                call_conv,
                flags,
                params,
                ArgsOrRets::Args,
                true,
            ).locs;
            apart(arg_locs::ret_area_loc().slots[0], locs[i].slots[k])
        }),
{
    let s = arg_locs::scheme(call_conv, ArgsOrRets::Args);
    let start = Taken::start(true);
    arg_locs::lemma_counted(start, s, params, true);
    lemma_place_params(start, s, params, true);
    assert(taken(start, s, arg_locs::ret_area_loc().slots[0]));
}

/// What is passed on the stack lies inside the stack space, at doublewords, and
/// arguments above the header; the stack space is a multiple of the stack
/// alignment, and holds the header where the callee may write to it.
pub proof fn law_stack_space_holds_the_arguments(
    call_conv: CallConv,
    flags: SharedFlags,
    params: Seq<AbiParam>,
    args_or_rets: ArgsOrRets,
    add_ret_area_ptr: bool,
)
    requires
        arg_locs::fits(call_conv, flags, params, args_or_rets, add_ret_area_ptr),
    ensures
        ({
            let out = arg_locs::arg_locs_outcome(
                call_conv,
                flags,
                params,
                args_or_rets,
                add_ret_area_ptr,
            );
            let s = arg_locs::scheme(call_conv, args_or_rets);
            let space = arg_locs::stack_space(out.alloc, s, call_conv);
            &&& space % 16 == 0
            &&& s.for_args && call_conv != CallConv::Tail ==> space >= STACK_ARG_BASE
            &&& forall|i: int, k: int|
                0 <= i < out.locs.len() && 0 <= k < out.locs[i].slots.len() ==> inside(
                    #[trigger] out.locs[i].slots[k],
                    s,
                    space,
                )
        }),
{
    let s = arg_locs::scheme(call_conv, args_or_rets);
    let start = Taken::start(add_ret_area_ptr);
    let may_spill = args_or_rets == ArgsOrRets::Args || flags.enable_multi_ret_implicit_sret;
    arg_locs::lemma_counted(start, s, params, may_spill);
    lemma_place_params(start, s, params, may_spill);
    let out = arg_locs::arg_locs_outcome(
        call_conv,
        flags,
        params,
        args_or_rets,
        add_ret_area_ptr,
    );
    let space = arg_locs::stack_space(out.alloc, s, call_conv);
    assert(space >= stack_end(out.alloc, s));
    assert forall|i: int, k: int|
        0 <= i < out.locs.len() && 0 <= k < out.locs[i].slots.len() implies inside(
        #[trigger] out.locs[i].slots[k],
        s,
        space,
    ) by {
        assert(taken(out.alloc, s, out.locs[i].slots[k]));
    }
}

/// Whether a place is one of a parameter: it has its purpose, and a slot for each part
/// of its type.
pub open spec fn is_place_of(loc: ArgLoc, param: AbiParam) -> bool {
    &&& loc.purpose == param.purpose
    &&& inst::reg_parts(param.value_type) matches Some((rcs, tys)) && loc.slots.len() == rcs.len()
}

/// Where parameters can be placed, each has one place, in order; where one cannot, those
/// before it have.
pub proof fn law_one_place_per_parameter(
    call_conv: CallConv,
    flags: SharedFlags,
    params: Seq<AbiParam>,
    args_or_rets: ArgsOrRets,
    add_ret_area_ptr: bool,
)
    ensures
        ({
            let out = arg_locs::arg_locs_outcome(
                call_conv,
                flags,
                params,
                args_or_rets,
                add_ret_area_ptr,
            );
            &&& out.error is None ==> out.locs.len() == params.len()
            &&& out.error is Some ==> out.locs.len() < params.len()
            &&& forall|i: int|
                0 <= i < out.locs.len() ==> is_place_of(#[trigger] out.locs[i], params[i])
        }),
{
    lemma_one_place(
        Taken::start(add_ret_area_ptr),
        arg_locs::scheme(call_conv, args_or_rets),
        params,
        args_or_rets == ArgsOrRets::Args || flags.enable_multi_ret_implicit_sret,
    );
}

/// One place per parameter, from a start on.
proof fn lemma_one_place(start: Taken, s: Scheme, params: Seq<AbiParam>, may_spill: bool)
    ensures
        ({
            let out = arg_locs::place_params(start, s, params, may_spill);
            &&& out.error is None ==> out.locs.len() == params.len()
            &&& out.error is Some ==> out.locs.len() < params.len()
            &&& forall|i: int|
                0 <= i < out.locs.len() ==> is_place_of(#[trigger] out.locs[i], params[i])
        }),
    decreases params.len(),
{
    if params.len() > 0 {
        let rest = params.drop_last();
        lemma_one_place(start, s, rest, may_spill);
        let p = arg_locs::place_params(start, s, rest, may_spill);
        let out = arg_locs::place_params(start, s, params, may_spill);
        assert forall|i: int| 0 <= i < out.locs.len() implies is_place_of(
            #[trigger] out.locs[i],
            params[i],
        ) by {
            if i < p.locs.len() {
                assert(out.locs[i] == p.locs[i]);
                assert(rest[i] == params[i]);
            }
        }
    }
}

/// Parameters take at most three slots and thirty-one bytes of stack each.
proof fn lemma_taken_at_most(start: Taken, s: Scheme, params: Seq<AbiParam>, may_spill: bool)
    requires
        0 <= start.slot_idx <= 1,
        start.next_stack == 0,
    ensures
        ({
            let a = arg_locs::place_params(start, s, params, may_spill).alloc;
            &&& 0 <= a.slot_idx <= 1 + 3 * params.len()
            &&& 0 <= a.next_stack <= 32 + 31 * params.len()
        }),
    decreases params.len(),
{
    if params.len() > 0 {
        let rest = params.drop_last();
        let param = params.last();
        lemma_taken_at_most(start, s, rest, may_spill);
        let p = arg_locs::place_params(start, s, rest, may_spill);
        arg_locs::lemma_one_grows(p, s, param, may_spill);
        arg_locs::lemma_parts(param.value_type);
        if let Some((rcs, tys)) = inst::reg_parts(param.value_type) {
            let a = p.alloc.before(s, rcs);
            reveal_with_fuel(arg_locs::alloc_parts, 3);
            lemma_part_size(tys[0]);
            assert(p.alloc.slot_idx <= a.slot_idx <= p.alloc.slot_idx + 1);
            lemma_part_at_most(a, s, rcs[0], tys[0]);
            if rcs.len() == 2 {
                lemma_part_at_most(a.after(s, rcs[0], tys[0]), s, rcs[1], tys[1]);
            }
        }
    }
}

/// What one part takes at most.
proof fn lemma_part_at_most(a: Taken, s: Scheme, rc: RegClass, ty: Type)
    requires
        0 <= a.next_stack,
        part_ok(rc, ty),
    ensures
        a.after(s, rc, ty).slot_idx <= a.slot_idx + if rc == RegClass::Vector {
            2int
        } else {
            1int
        },
        a.after(s, rc, ty).next_stack <= a.next_stack + if rc == RegClass::Vector {
            31int
        } else {
            15int
        } || (a.next_stack == 0 && a.after(s, rc, ty).next_stack <= 48),
{
    lemma_part_size(ty);
    if arg_locs::part_size(ty) == 8 {
        assert(arg_locs::spec_align_to(a.next_stack, 8) <= a.next_stack + 7);
        assert(arg_locs::spec_align_to(STACK_ARG_BASE as int, 8) == 32);
    } else {
        assert(arg_locs::spec_align_to(a.next_stack, 16) <= a.next_stack + 15);
        assert(arg_locs::spec_align_to(STACK_ARG_BASE as int, 16) == 32);
    }
}

/// Up to 128 Mi parameters fit, whatever their types: more of them than the stack
/// arguments that are supported.
pub proof fn law_few_parameters_fit(
    call_conv: CallConv,
    flags: SharedFlags,
    params: Seq<AbiParam>,
    args_or_rets: ArgsOrRets,
    add_ret_area_ptr: bool,
)
    requires
        params.len() <= 0x800_0000,
    ensures
        arg_locs::fits(call_conv, flags, params, args_or_rets, add_ret_area_ptr),
{
    lemma_taken_at_most(
        Taken::start(add_ret_area_ptr),
        arg_locs::scheme(call_conv, args_or_rets),
        params,
        args_or_rets == ArgsOrRets::Args || flags.enable_multi_ret_implicit_sret,
    );
}

} // verus!
