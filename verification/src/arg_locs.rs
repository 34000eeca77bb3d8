//! Where arguments and return values go.
//!
//! Argument registers per ELFv2: integers in r3-r10, floats in f1-f13, vectors in
//! v2-v13. Return values in r3-r4, f1-f2 and v2-v3.
//!
//! For everything except the tail convention the allocation is positional, as
//! ELFv2 requires for native interoperation: each parameter owns a doubleword
//! slot in the caller's parameter save area starting at SP + 32, whether or not
//! it is passed in a register. An integer parameter uses the register that
//! corresponds to its slot, while slots remain; a float parameter uses the next
//! floating-point register but still consumes its slot, so a later integer skips
//! that register. Stack-passed parameters live at their slot, not densely packed.
//!
//! The tail convention packs the register classes and the stack densely instead,
//! which is private to code compiled here.
use vstd::prelude::*;
use crate::inst;
use crate::inst::Inst;
use crate::ir::{
    AbiParam, ArgumentExtension, ArgumentPurpose, CallConv, CodegenError, SharedFlags, Type,
};
use crate::regs::{RealReg, RegClass};

verus! {

/// Offset of the stack-argument area from the stack pointer at entry: the header
/// that ELFv2 reserves (back-chain, CR save, LR save, TOC save).
pub const STACK_ARG_BASE: u32 = 32;

/// Whether arguments or return values are placed.
#[derive(Clone, Copy, Debug, PartialEq, Eq, Structural)]
pub enum ArgsOrRets {
    Args,
    Rets,
}

/// Where one part of a value goes.
#[derive(Clone, Copy, Debug, PartialEq, Eq, Structural)]
pub enum ABIArgSlot {
    /// In a register.
    Reg { reg: RealReg, ty: Type, extension: ArgumentExtension },
    /// At an offset on the stack.
    Stack { offset: i64, ty: Type, extension: ArgumentExtension },
}

/// Where a value goes.
#[derive(Debug)]
pub struct ABIArg {
    pub slots: Vec<ABIArgSlot>,
    pub purpose: ArgumentPurpose,
}

/// What an argument location says.
pub struct ArgLoc {
    pub slots: Seq<ABIArgSlot>,
    pub purpose: ArgumentPurpose,
}

impl View for ABIArg {
    type V = ArgLoc;

    open spec fn view(&self) -> ArgLoc {
        ArgLoc { slots: self.slots@, purpose: self.purpose }
    }
}

/// What argument locations say.
pub open spec fn arg_views(args: Seq<ABIArg>) -> Seq<ArgLoc> {
    args.map_values(|a: ABIArg| a@)
}

/// The least multiple of `align` that is not below `x`.
pub open spec fn spec_align_to(x: int, align: int) -> int {
    if x % align == 0 {
        x
    } else {
        x + (align - x % align)
    }
}

/// The least multiple of `align` that is not below `x`.
pub fn align_to(x: u32, align: u32) -> (y: u32)
    requires
        align > 0,
        x + align <= u32::MAX,
    ensures
        y == spec_align_to(x as int, align as int),
        x <= y < x + align,
{
    let r: u32 = x % align;
    if r == 0 {
        x
    } else {
        x + (align - r)
    }
}

/// How locations are chosen.
#[derive(Clone, Copy, Debug, PartialEq, Eq, Structural)]
pub struct Scheme {
    /// By doubleword slot, rather than densely.
    pub positional: bool,
    /// For arguments, rather than return values.
    pub for_args: bool,
}

impl Scheme {
    /// The last general-purpose register.
    pub open spec fn x_end(self) -> int {
        if self.for_args {
            10
        } else {
            4
        }
    }

    /// The last floating-point register.
    pub open spec fn f_end(self) -> int {
        if self.for_args {
            13
        } else {
            2
        }
    }

    /// The last vector register.
    pub open spec fn v_end(self) -> int {
        if self.for_args {
            13
        } else {
            3
        }
    }
}

/// What is taken so far.
#[derive(Clone, Copy, Debug, PartialEq, Eq, Structural)]
pub struct ArgAlloc {
    /// The next general-purpose register, where packing is dense.
    pub next_x_reg: u8,
    /// The next floating-point register.
    pub next_f_reg: u8,
    /// The next vector register.
    pub next_v_reg: u8,
    /// The end of the stack area in use, where packing is dense.
    pub next_stack: u64,
    /// The next doubleword slot, where allocation is positional.
    pub slot_idx: u64,
}

/// What is taken so far, in numbers without a limit.
#[verifier::ext_equal]
pub struct Taken {
    /// The next general-purpose register, where packing is dense.
    pub next_x_reg: int,
    /// The next floating-point register.
    pub next_f_reg: int,
    /// The next vector register.
    pub next_v_reg: int,
    /// The end of the stack area in use, where packing is dense.
    pub next_stack: int,
    /// The next doubleword slot, where allocation is positional.
    pub slot_idx: int,
}

impl View for ArgAlloc {
    type V = Taken;

    open spec fn view(&self) -> Taken {
        Taken {
            next_x_reg: self.next_x_reg as int,
            next_f_reg: self.next_f_reg as int,
            next_v_reg: self.next_v_reg as int,
            next_stack: self.next_stack as int,
            slot_idx: self.slot_idx as int,
        }
    }
}

impl Taken {
    /// Nothing taken yet, but for the pointer to the return area, if there is
    /// one, in the first register.
    pub open spec fn start(ret_area_ptr: bool) -> Taken {
        Taken {
            next_x_reg: if ret_area_ptr {
                4
            } else {
                3
            },
            next_f_reg: 1,
            next_v_reg: 2,
            next_stack: 0,
            slot_idx: if ret_area_ptr {
                1
            } else {
                0
            },
        }
    }

    /// The register that the next part of a class goes in, if one is left.
    pub open spec fn reg_for(self, s: Scheme, rc: RegClass) -> Option<RealReg> {
        match rc {
            RegClass::Int => if s.positional {
                if self.slot_idx < 8 {
                    Some(RealReg { hw_enc: (3 + self.slot_idx) as u8, class: RegClass::Int })
                } else {
                    None
                }
            } else if self.next_x_reg <= s.x_end() {
                Some(RealReg { hw_enc: self.next_x_reg as u8, class: RegClass::Int })
            } else {
                None
            },
            RegClass::Float => if self.next_f_reg <= s.f_end() {
                Some(RealReg { hw_enc: self.next_f_reg as u8, class: RegClass::Float })
            } else {
                None
            },
            RegClass::Vector => if self.next_v_reg <= s.v_end() {
                Some(RealReg { hw_enc: self.next_v_reg as u8, class: RegClass::Vector })
            } else {
                None
            },
        }
    }

    /// The offset that a part goes at where no register is left: its own slot, or
    /// behind what is on the stack, aligned to its size. The header stays
    /// reserved at the base of an argument area.
    pub open spec fn offset_for(self, s: Scheme, ty: Type) -> int {
        if s.positional {
            STACK_ARG_BASE + self.slot_idx * 8
        } else {
            let base = if self.next_stack == 0 && s.for_args {
                STACK_ARG_BASE as int
            } else {
                self.next_stack
            };
            spec_align_to(base, part_size(ty))
        }
    }

    /// Where the next part goes.
    pub open spec fn slot_for(
        self,
        s: Scheme,
        rc: RegClass,
        ty: Type,
        extension: ArgumentExtension,
    ) -> ABIArgSlot {
        match self.reg_for(s, rc) {
            Some(reg) => ABIArgSlot::Reg { reg, ty, extension },
            None => ABIArgSlot::Stack { offset: self.offset_for(s, ty) as i64, ty, extension },
        }
    }

    /// What is taken after a part was placed.
    pub open spec fn after(self, s: Scheme, rc: RegClass, ty: Type) -> Taken {
        let in_reg = self.reg_for(s, rc) is Some;
        Taken {
            next_x_reg: if in_reg && rc == RegClass::Int && !s.positional {
                self.next_x_reg + 1
            } else {
                self.next_x_reg
            },
            next_f_reg: if in_reg && rc == RegClass::Float {
                self.next_f_reg + 1
            } else {
                self.next_f_reg
            },
            next_v_reg: if in_reg && rc == RegClass::Vector {
                self.next_v_reg + 1
            } else {
                self.next_v_reg
            },
            next_stack: if in_reg || s.positional {
                self.next_stack
            } else {
                self.offset_for(s, ty) + part_size(ty)
            },
            slot_idx: if s.positional {
                self.slot_idx + if rc == RegClass::Vector {
                    2int
                } else {
                    1int
                }
            } else {
                self.slot_idx
            },
        }
    }

    /// What is taken before a parameter of the given classes is placed: a vector
    /// takes a quadword-aligned pair of slots.
    pub open spec fn before(self, s: Scheme, rcs: Seq<RegClass>) -> Taken {
        if s.positional && rcs == seq![RegClass::Vector] {
            Taken { slot_idx: spec_align_to(self.slot_idx, 2), ..self }
        } else {
            self
        }
    }
}

/// The bytes that a part takes on the stack: a doubleword at least.
pub open spec fn part_size(ty: Type) -> int {
    if ty.bytes() < 8 {
        8
    } else {
        ty.bytes() as int
    }
}

/// What is taken after the first `k` parts of a parameter.
pub open spec fn alloc_parts(
    a: Taken,
    s: Scheme,
    rcs: Seq<RegClass>,
    tys: Seq<Type>,
    k: nat,
) -> Taken
    decreases k,
{
    if k == 0 {
        a
    } else {
        alloc_parts(a, s, rcs, tys, (k - 1) as nat).after(s, rcs[k - 1], tys[k - 1])
    }
}

/// Where the parts of a parameter go.
pub open spec fn place_parts(
    a: Taken,
    s: Scheme,
    rcs: Seq<RegClass>,
    tys: Seq<Type>,
    extension: ArgumentExtension,
) -> Seq<ABIArgSlot> {
    Seq::new(
        rcs.len(),
        |k: int| alloc_parts(a, s, rcs, tys, k as nat).slot_for(s, rcs[k], tys[k], extension),
    )
}

/// Whether every part of a parameter has a register.
pub open spec fn all_in_regs(a: Taken, s: Scheme, rcs: Seq<RegClass>, tys: Seq<Type>) -> bool {
    forall|k: int|
        0 <= k < rcs.len() ==> (#[trigger] alloc_parts(a, s, rcs, tys, k as nat)).reg_for(
            s,
            rcs[k],
        ) is Some
}

/// The outcome of placing parameters.
#[verifier::ext_equal]
pub struct Placed {
    /// Where they go, up to the first that cannot be placed.
    pub locs: Seq<ArgLoc>,
    /// What is taken.
    pub alloc: Taken,
    /// Why the first that cannot be placed cannot.
    pub error: Option<CodegenError>,
}

/// Place one more parameter. Return values must be in registers, unless they may
/// implicitly go through memory.
pub open spec fn place_one(p: Placed, s: Scheme, param: AbiParam, may_spill: bool) -> Placed {
    match (p.error, inst::reg_parts(param.value_type)) {
        (Some(_), _) => p,
        (None, None) => Placed {
            error: Some(CodegenError::UnsupportedType(param.value_type)),
            ..p
        },
        (None, Some((rcs, tys))) => {
            let a = p.alloc.before(s, rcs);
            if !may_spill && !all_in_regs(a, s, rcs, tys) {
                Placed { error: Some(CodegenError::TooManyReturnValues), ..p }
            } else {
                Placed {
                    locs: p.locs.push(
                        ArgLoc {
                            slots: place_parts(a, s, rcs, tys, param.extension),
                            purpose: param.purpose,
                        },
                    ),
                    alloc: alloc_parts(a, s, rcs, tys, rcs.len()),
                    error: None,
                }
            }
        },
    }
}

/// Place parameters in order.
pub open spec fn place_params(
    start: Taken,
    s: Scheme,
    params: Seq<AbiParam>,
    may_spill: bool,
) -> Placed
    decreases params.len(),
{
    if params.len() == 0 {
        Placed { locs: Seq::empty(), alloc: start, error: None }
    } else {
        place_one(
            place_params(start, s, params.drop_last(), may_spill),
            s,
            params.last(),
            may_spill,
        )
    }
}

/// The scheme of a convention.
pub open spec fn scheme(call_conv: CallConv, args_or_rets: ArgsOrRets) -> Scheme {
    Scheme {
        positional: args_or_rets == ArgsOrRets::Args && call_conv != CallConv::Tail,
        for_args: args_or_rets == ArgsOrRets::Args,
    }
}

/// The stack space that placed parameters need. Positional allocation covers
/// every slot from the first where any parameter is on the stack. A callee of a
/// native convention owns the header at the bottom of its caller's frame, so the
/// header is reserved even when nothing is passed on the stack. The space is a
/// multiple of the stack alignment.
pub open spec fn stack_space(a: Taken, s: Scheme, call_conv: CallConv) -> int {
    let used = if s.positional && a.slot_idx > 8 {
        STACK_ARG_BASE + a.slot_idx * 8
    } else {
        a.next_stack
    };
    let reserved = if s.for_args && call_conv != CallConv::Tail && used < STACK_ARG_BASE {
        STACK_ARG_BASE as int
    } else {
        used
    };
    spec_align_to(reserved, 16)
}

/// The argument that carries the pointer to the return area.
pub open spec fn ret_area_loc() -> ArgLoc {
    ArgLoc {
        slots: seq![
            ABIArgSlot::Reg {
                reg: RealReg { hw_enc: 3, class: RegClass::Int },
                ty: Type::I64,
                extension: ArgumentExtension::Unextended,
            },
        ],
        purpose: ArgumentPurpose::Normal,
    }
}

/// How far allocation has gone by the time of the next part: registers up to one
/// behind the last, and a place on the stack that is not beyond a limit.
pub open spec fn in_bounds(a: Taken, limit: int) -> bool {
    &&& 3 <= a.next_x_reg <= 11
    &&& 1 <= a.next_f_reg <= 14
    &&& 2 <= a.next_v_reg <= 14
    &&& 0 <= a.slot_idx <= limit
    &&& 0 <= a.next_stack <= limit
}

/// The least multiple of `align` that is not below `x`.
fn align_up(x: u64, align: u64) -> (y: u64)
    requires
        align > 0,
        x + align <= u64::MAX,
    ensures
        y == spec_align_to(x as int, align as int),
        x <= y < x + align,
{
    let r: u64 = x % align;
    if r == 0 {
        x
    } else {
        x + (align - r)
    }
}

/// The classes of a type's parts: all the same, and at most two, or one vector.
pub proof fn lemma_parts(ty: Type)
    ensures
        inst::reg_parts(ty) matches Some((rcs, tys)) ==> {
            &&& rcs.len() == tys.len()
            &&& 1 <= rcs.len() <= 2
            &&& rcs.len() == 1 ==> (rcs == seq![RegClass::Vector] <==> rcs[0] == RegClass::Vector)
            &&& rcs.len() == 2 ==> rcs != seq![RegClass::Vector] && rcs[0] == RegClass::Int
                && rcs[1] == RegClass::Int && tys[0] == Type::I64 && tys[1] == Type::I64
            &&& rcs[0] == RegClass::Vector ==> tys[0].bytes() <= 16
            &&& rcs[0] != RegClass::Vector ==> tys[0].bytes() <= 8
            &&& forall|j: int| 0 <= j < tys.len() ==> (#[trigger] tys[j]).bytes() <= 16
        },
{
    if let Some((rcs, tys)) = inst::reg_parts(ty) {
        if rcs.len() == 1 {
            if rcs[0] == RegClass::Vector {
                assert(rcs =~= seq![RegClass::Vector]);
            } else {
                assert(seq![RegClass::Vector][0] == RegClass::Vector);
            }
        } else {
            assert(seq![RegClass::Vector].len() == 1);
        }
    }
}

/// Place one part: gives back where it goes, or nothing where it would have to
/// go on the stack and may not.
fn place_part(
    a: &mut ArgAlloc,
    s: Scheme,
    rc: RegClass,
    ty: Type,
    extension: ArgumentExtension,
    may_spill: bool,
    Ghost(limit): Ghost<int>,
) -> (slot: Option<ABIArgSlot>)
    requires
        0 <= limit <= 0x1000_0000_0000,
        in_bounds(old(a)@, limit),
        ty.bytes() <= 16,
    ensures
        slot is None <==> !may_spill && old(a)@.reg_for(s, rc) is None,
        slot is Some ==> slot->0 == old(a)@.slot_for(s, rc, ty, extension),
        slot is Some ==> final(a)@ == old(a)@.after(s, rc, ty),
        slot is Some ==> in_bounds(final(a)@, limit + 64),
{
    let reg: Option<RealReg> = match rc {
        RegClass::Int => if s.positional {
            if a.slot_idx < 8 {
                Some(RealReg { hw_enc: 3 + a.slot_idx as u8, class: RegClass::Int })
            } else {
                None
            }
        } else if a.next_x_reg <= (if s.for_args {
            10
        } else {
            4
        }) {
            let n: u8 = a.next_x_reg;
            a.next_x_reg = n + 1;
            Some(RealReg { hw_enc: n, class: RegClass::Int })
        } else {
            None
        },
        RegClass::Float => if a.next_f_reg <= (if s.for_args {
            13
        } else {
            2
        }) {
            let n: u8 = a.next_f_reg;
            a.next_f_reg = n + 1;
            Some(RealReg { hw_enc: n, class: RegClass::Float })
        } else {
            None
        },
        RegClass::Vector => if a.next_v_reg <= (if s.for_args {
            13
        } else {
            3
        }) {
            let n: u8 = a.next_v_reg;
            a.next_v_reg = n + 1;
            Some(RealReg { hw_enc: n, class: RegClass::Vector })
        } else {
            None
        },
    };
    let slot = match reg {
        Some(reg) => ABIArgSlot::Reg { reg, ty, extension },
        None => {
            if !may_spill {
                return None;
            }
            let offset: u64 = if s.positional {
                // The parameter's own doubleword slot.
                STACK_ARG_BASE as u64 + a.slot_idx * 8
            } else {
                // Keep the header reserved at the base of the outgoing-argument
                // area; the return area is a separate buffer.
                if a.next_stack == 0 && s.for_args {
                    a.next_stack = STACK_ARG_BASE as u64;
                }
                let bytes: u64 = ty.bytes() as u64;
                let size: u64 = if bytes < 8 {
                    8
                } else {
                    bytes
                };
                let off: u64 = align_up(a.next_stack, size);
                a.next_stack = off + size;
                off
            };
            ABIArgSlot::Stack { offset: offset as i64, ty, extension }
        },
    };
    if s.positional {
        a.slot_idx = a.slot_idx + (match rc {
            RegClass::Vector => 2,
            _ => 1,
        });
    }
    Some(slot)
}

/// Place the parts of one parameter: gives back where they go, or nothing where
/// one would have to go on the stack and may not.
fn place_value(
    a: &mut ArgAlloc,
    s: Scheme,
    rcs: &Vec<RegClass>,
    tys: &Vec<Type>,
    extension: ArgumentExtension,
    may_spill: bool,
    Ghost(ty): Ghost<Type>,
    Ghost(limit): Ghost<int>,
) -> (slots: Option<Vec<ABIArgSlot>>)
    requires
        inst::reg_parts(ty) == Some((rcs@, tys@)),
        0 <= limit <= 0xFFF_0000_0000,
        in_bounds(old(a)@, limit),
    ensures
        slots is None <==> !may_spill && !all_in_regs(old(a)@, s, rcs@, tys@),
        slots is Some ==> slots->0@ == place_parts(old(a)@, s, rcs@, tys@, extension),
        slots is Some ==> final(a)@ == alloc_parts(old(a)@, s, rcs@, tys@, rcs@.len()),
        slots is Some ==> in_bounds(final(a)@, limit + 128),
{
    proof {
        lemma_parts(ty);
    }
    let ghost start = a@;
    let mut slots: Vec<ABIArgSlot> = Vec::new();
    let mut k: usize = 0;
    while k < rcs.len()
        invariant
            k <= rcs@.len(),
            rcs@.len() == tys@.len(),
            1 <= rcs@.len() <= 2,
            forall|j: int| 0 <= j < tys@.len() ==> (#[trigger] tys@[j]).bytes() <= 16,
            0 <= limit <= 0xFFF_0000_0000,
            start == old(a)@,
            a@ == alloc_parts(start, s, rcs@, tys@, k as nat),
            slots@ =~= place_parts(start, s, rcs@, tys@, extension).take(k as int),
            in_bounds(a@, limit + 64 * k),
            !may_spill ==> forall|j: int|
                0 <= j < k ==> (#[trigger] alloc_parts(start, s, rcs@, tys@, j as nat)).reg_for(
                    s,
                    rcs@[j],
                ) is Some,
        decreases rcs@.len() - k,
    {
        assert(tys@[k as int].bytes() <= 16);
        match place_part(
            a,
            s,
            rcs[k],
            tys[k],
            extension,
            may_spill,
            Ghost(limit + 64 * k),
        ) {
            Some(slot) => {
                slots.push(slot);
            },
            None => {
                assert(!all_in_regs(start, s, rcs@, tys@)) by {
                    let j = k as int;
                    assert(alloc_parts(start, s, rcs@, tys@, j as nat).reg_for(s, rcs@[j])
                        is None);
                }
                return None;
            },
        }
        k = k + 1;
    }
    assert(slots@ =~= place_parts(start, s, rcs@, tys@, extension));
    Some(slots)
}

/// The outcome of `compute_arg_locs`: the stack space and the position of the
/// argument that carries the pointer to the return area, or why a parameter
/// cannot be placed.
pub open spec fn arg_locs_outcome(
    call_conv: CallConv,
    flags: SharedFlags,
    params: Seq<AbiParam>,
    args_or_rets: ArgsOrRets,
    add_ret_area_ptr: bool,
) -> Placed {
    place_params(
        Taken::start(add_ret_area_ptr),
        scheme(call_conv, args_or_rets),
        params,
        args_or_rets == ArgsOrRets::Args || flags.enable_multi_ret_implicit_sret,
    )
}

/// Whether the stack space that parameters need is a 32-bit number.
pub open spec fn fits(
    call_conv: CallConv,
    flags: SharedFlags,
    params: Seq<AbiParam>,
    args_or_rets: ArgsOrRets,
    add_ret_area_ptr: bool,
) -> bool {
    stack_space(
        arg_locs_outcome(call_conv, flags, params, args_or_rets, add_ret_area_ptr).alloc,
        scheme(call_conv, args_or_rets),
        call_conv,
    ) <= u32::MAX
}

/// Decide where each parameter goes, and add the locations to `args`. Gives back
/// the stack space that they need, and the position of the added argument that
/// carries the pointer to the return area, if one was asked for.
pub fn compute_arg_locs(
    call_conv: CallConv,
    flags: &SharedFlags,
    params: &Vec<AbiParam>,
    args_or_rets: ArgsOrRets,
    add_ret_area_ptr: bool,
    args: &mut Vec<ABIArg>,
) -> (r: Result<(u32, Option<usize>), CodegenError>)
    requires
        call_conv != CallConv::Winch,
        add_ret_area_ptr ==> args_or_rets == ArgsOrRets::Args,
        fits(call_conv, *flags, params@, args_or_rets, add_ret_area_ptr),
        old(args)@.len() + params@.len() < usize::MAX,
        forall|i: int|
            0 <= i < params@.len() ==> !((#[trigger] params@[i]).purpose is StructArgument),
    ensures
        ({
            let out = arg_locs_outcome(call_conv, *flags, params@, args_or_rets, add_ret_area_ptr);
            let s = scheme(call_conv, args_or_rets);
            match r {
                Ok((space, pos)) => {
                    &&& out.error is None
                    &&& space == stack_space(out.alloc, s, call_conv)
                    &&& arg_views(final(args)@) == arg_views(old(args)@) + out.locs + (
                    if add_ret_area_ptr {
                        seq![ret_area_loc()]
                    } else {
                        seq![]
                    })
                    &&& pos == (if add_ret_area_ptr {
                        Some((old(args)@.len() + params@.len()) as usize)
                    } else {
                        None
                    })
                },
                Err(e) => {
                    &&& out.error == Some(e)
                    &&& arg_views(final(args)@) == arg_views(old(args)@) + out.locs
                },
            }
        }),
{
    let for_args: bool = args_or_rets == ArgsOrRets::Args;
    let s = Scheme { positional: for_args && call_conv != CallConv::Tail, for_args };
    let may_spill: bool = for_args || flags.enable_multi_ret_implicit_sret;
    let mut a = ArgAlloc {
        next_x_reg: if add_ret_area_ptr {
            4
        } else {
            3
        },
        next_f_reg: 1,
        next_v_reg: 2,
        next_stack: 0,
        slot_idx: if add_ret_area_ptr {
            1
        } else {
            0
        },
    };
    let ghost start = a@;
    let ghost before = arg_views(args@);
    proof {
        lemma_counted(start, s, params@, may_spill);
    }
    let mut i: usize = 0;
    assert(params@.take(0) =~= Seq::<AbiParam>::empty());
    while i < params.len()
        invariant
            i <= params@.len(),
            fits(call_conv, *flags, params@, args_or_rets, add_ret_area_ptr),
            counted(place_params(start, s, params@, may_spill).alloc, s),
            old(args)@.len() + params@.len() < usize::MAX,
            args@.len() == old(args)@.len() + i,
            s == scheme(call_conv, args_or_rets),
            may_spill == (args_or_rets == ArgsOrRets::Args || flags.enable_multi_ret_implicit_sret),
            start == Taken::start(add_ret_area_ptr),
            before == arg_views(old(args)@),
            in_bounds(a@, 0x1_0000_0000),
            place_params(start, s, params@.take(i as int), may_spill).error is None,
            place_params(start, s, params@.take(i as int), may_spill).alloc == a@,
            arg_views(args@) =~= before + place_params(
                start,
                s,
                params@.take(i as int),
                may_spill,
            ).locs,
        decreases params@.len() - i,
    {
        let param = params[i];
        let ghost placed = place_params(start, s, params@.take(i as int), may_spill);
        proof {
            assert(params@.take(i + 1).drop_last() =~= params@.take(i as int));
            assert(params@.take(i + 1).last() == param);
            lemma_error_sticks(start, s, params@, may_spill, i + 1);
            lemma_parts(param.value_type);
            lemma_grows(start, s, params@, may_spill, i + 1);
        }
        match Inst::rc_for_type(&param.value_type) {
            Err(e) => {
                return Err(e);
            },
            Ok((rcs, tys)) => {
                let is_vector: bool = rcs.len() == 1 && rcs[0] == RegClass::Vector;
                if s.positional && is_vector {
                    a.slot_idx = align_up(a.slot_idx, 2);
                }
                assert(a@ == placed.alloc.before(s, rcs@));
                match place_value(
                    &mut a,
                    s,
                    &rcs,
                    &tys,
                    param.extension,
                    may_spill,
                    Ghost(param.value_type),
                    Ghost(0x1_0000_0001),
                ) {
                    None => {
                        return Err(CodegenError::TooManyReturnValues);
                    },
                    Some(slots) => {
                        let arg = ABIArg { slots, purpose: param.purpose };
                        let ghost old_args = args@;
                        args.push(arg);
                        assert(arg_views(args@) =~= arg_views(old_args).push(arg@));
                    },
                }
            },
        }
        i = i + 1;
    }
    assert(params@.take(i as int) =~= params@);

    let mut next_stack: u64 = a.next_stack;
    // Under the positional scheme, any stack-passed parameter implies that the
    // parameter save area covers every slot from the first.
    if s.positional && a.slot_idx > 8 {
        next_stack = STACK_ARG_BASE as u64 + a.slot_idx * 8;
    }
    let pos = if add_ret_area_ptr {
        let mut slots: Vec<ABIArgSlot> = Vec::new();
        slots.push(
            ABIArgSlot::Reg {
                reg: RealReg { hw_enc: 3, class: RegClass::Int },
                ty: Type::I64,
                extension: ArgumentExtension::Unextended,
            },
        );
        let arg = ABIArg { slots, purpose: ArgumentPurpose::Normal };
        assert(arg@.slots =~= ret_area_loc().slots);
        let ghost old_args = args@;
        args.push(arg);
        assert(arg_views(args@) =~= arg_views(old_args).push(arg@));
        Some(args.len() - 1)
    } else {
        None
    };
    // The header at the bottom of the caller's frame is the callee's to write:
    // saving LR there is the first thing that a native prologue does. Callees of
    // the tail convention never write to the caller's frame.
    if for_args && call_conv != CallConv::Tail && next_stack < STACK_ARG_BASE as u64 {
        next_stack = STACK_ARG_BASE as u64;
    }
    next_stack = align_up(next_stack, 16);
    Ok((next_stack as u32, pos))
}

/// Whether only the one of the two ways to count is used: slots where allocation is
/// positional, and else the end of the stack area.
pub open spec fn counted(a: Taken, s: Scheme) -> bool {
    &&& s.positional ==> a.next_stack == 0
    &&& !s.positional ==> a.slot_idx <= 1
}

/// Placing parts keeps to the one way to count, and takes nothing back.
pub proof fn lemma_parts_grow(a: Taken, s: Scheme, rcs: Seq<RegClass>, tys: Seq<Type>, k: nat)
    requires
        0 <= a.next_stack,
    ensures
        counted(a, s) ==> counted(alloc_parts(a, s, rcs, tys, k), s),
        a.slot_idx <= alloc_parts(a, s, rcs, tys, k).slot_idx,
        a.next_stack <= alloc_parts(a, s, rcs, tys, k).next_stack,
    decreases k,
{
    if k > 0 {
        lemma_parts_grow(a, s, rcs, tys, (k - 1) as nat);
    }
}

/// Placing one more parameter keeps to the one way to count, and takes nothing back.
pub proof fn lemma_one_grows(p: Placed, s: Scheme, param: AbiParam, may_spill: bool)
    requires
        0 <= p.alloc.next_stack,
    ensures
        counted(p.alloc, s) ==> counted(place_one(p, s, param, may_spill).alloc, s),
        p.alloc.slot_idx <= place_one(p, s, param, may_spill).alloc.slot_idx,
        p.alloc.next_stack <= place_one(p, s, param, may_spill).alloc.next_stack,
{
    if let Some((rcs, tys)) = inst::reg_parts(param.value_type) {
        lemma_parts_grow(p.alloc.before(s, rcs), s, rcs, tys, rcs.len());
    }
}

/// Placing parameters keeps to the one way to count.
pub proof fn lemma_counted(start: Taken, s: Scheme, params: Seq<AbiParam>, may_spill: bool)
    requires
        counted(start, s),
        0 <= start.next_stack,
        0 <= start.slot_idx,
    ensures
        counted(place_params(start, s, params, may_spill).alloc, s),
        0 <= place_params(start, s, params, may_spill).alloc.next_stack,
        0 <= place_params(start, s, params, may_spill).alloc.slot_idx,
    decreases params.len(),
{
    if params.len() > 0 {
        let rest = params.drop_last();
        lemma_counted(start, s, rest, may_spill);
        lemma_one_grows(place_params(start, s, rest, may_spill), s, params.last(), may_spill);
    }
}

/// The first so many parameters take no more than all of them.
pub proof fn lemma_grows(
    start: Taken,
    s: Scheme,
    params: Seq<AbiParam>,
    may_spill: bool,
    n: int,
)
    requires
        0 <= n <= params.len(),
        counted(start, s),
        0 <= start.next_stack,
        0 <= start.slot_idx,
    ensures
        place_params(start, s, params.take(n), may_spill).alloc.slot_idx <= place_params(
            start,
            s,
            params,
            may_spill,
        ).alloc.slot_idx,
        place_params(start, s, params.take(n), may_spill).alloc.next_stack <= place_params(
            start,
            s,
            params,
            may_spill,
        ).alloc.next_stack,
    decreases params.len() - n,
{
    if n < params.len() {
        lemma_grows(start, s, params, may_spill, n + 1);
        assert(params.take(n + 1).drop_last() =~= params.take(n));
        lemma_counted(start, s, params.take(n), may_spill);
        lemma_one_grows(
            place_params(start, s, params.take(n), may_spill),
            s,
            params.take(n + 1).last(),
            may_spill,
        );
    } else {
        assert(params.take(n) =~= params);
    }
}

/// Once a parameter cannot be placed, placing more changes nothing.
proof fn lemma_error_sticks(
    start: Taken,
    s: Scheme,
    params: Seq<AbiParam>,
    may_spill: bool,
    n: int,
)
    requires
        0 <= n <= params.len(),
    ensures
        place_params(start, s, params.take(n), may_spill).error is Some ==> place_params(
            start,
            s,
            params,
            may_spill,
        ) == place_params(start, s, params.take(n), may_spill),
    decreases params.len() - n,
{
    if n < params.len() {
        lemma_error_sticks(start, s, params, may_spill, n + 1);
        assert(params.take(n + 1).drop_last() =~= params.take(n));
    } else {
        assert(params.take(n) =~= params);
    }
}

} // verus!
