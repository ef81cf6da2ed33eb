//! The intermediate representation and its builder.
//!
//! A module holds the declarations of the callees and the body of the
//! entry function. The body is a flat instruction list: a value is named
//! by the index of the instruction that produced it, and each instruction
//! records the basic block it was appended to, so a consumer recovers the
//! block layout by filtering the list in order. The builder keeps one
//! construction position (the current block) and, beside every
//! instruction, the integer constant it is statically known to produce,
//! if any — what an immutable `let` requires of its right-hand side.

use vstd::prelude::*;
use crate::ast::Operator;

verus! {

/// A declared callee: name and arity.
#[derive(Debug, Clone, PartialEq, Eq)]
pub struct FuncSig {
    pub name: String,
    pub arity: usize,
}

/// Mathematical image of a declared callee.
pub struct FuncSigV {
    pub name: Seq<char>,
    pub arity: int,
}

impl View for FuncSig {
    type V = FuncSigV;

    open spec fn view(&self) -> FuncSigV {
        FuncSigV { name: self.name@, arity: self.arity as int }
    }
}

/// The image of a vector of value names.
pub open spec fn ints_view(s: Seq<usize>) -> Seq<int> {
    s.map_values(|a: usize| a as int)
}

/// The image of a signature vector.
pub open spec fn sigs_view(sigs: Seq<FuncSig>) -> Seq<FuncSigV> {
    sigs.map_values(|s: FuncSig| s@)
}

/// One SSA instruction of the entry function's body.
#[derive(Debug, Clone, PartialEq, Eq)]
pub enum Inst {
    /// An integer constant.
    ConstInt(i32),
    /// A binary arithmetic operation over two earlier values.
    Bin(Operator, usize, usize),
    /// Integer equality comparison of two earlier values.
    IcmpEq(usize, usize),
    /// Conditional branch: if the first value is true go to the first
    /// block, else to the second.
    CondBr(usize, usize, usize),
    /// A merge point with exactly two incoming edges: the preheader edge
    /// and the latch edge. The latch value is pending (`None`) until the
    /// loop body has been lowered, then patched.
    Phi { pre_val: usize, pre_block: usize, latch_val: Option<usize>, latch_block: usize },
    /// A fresh addressable integer cell.
    Alloca,
    /// A read of an addressable cell.
    Load(usize),
    /// A write of a value into an addressable cell.
    Store(usize, usize),
    /// A call of a declared function with the given argument values.
    Call(String, Vec<usize>),
    /// Return of the entry function.
    Ret(usize),
}

/// Mathematical image of one instruction.
pub enum InstV {
    ConstInt(i32),
    Bin(Operator, int, int),
    IcmpEq(int, int),
    CondBr(int, int, int),
    Phi { pre_val: int, pre_block: int, latch_val: Option<int>, latch_block: int },
    Alloca,
    Load(int),
    Store(int, int),
    Call(Seq<char>, Seq<int>),
    Ret(int),
}

impl View for Inst {
    type V = InstV;

    open spec fn view(&self) -> InstV {
        match *self {
            Inst::ConstInt(i) => InstV::ConstInt(i),
            Inst::Bin(op, a, b) => InstV::Bin(op, a as int, b as int),
            Inst::IcmpEq(a, b) => InstV::IcmpEq(a as int, b as int),
            Inst::CondBr(c, t, f) => InstV::CondBr(c as int, t as int, f as int),
            Inst::Phi { pre_val, pre_block, latch_val, latch_block } => InstV::Phi {
                pre_val: pre_val as int,
                pre_block: pre_block as int,
                latch_val: match latch_val {
                    Some(v) => Some(v as int),
                    None => None,
                },
                latch_block: latch_block as int,
            },
            Inst::Alloca => InstV::Alloca,
            Inst::Load(p) => InstV::Load(p as int),
            Inst::Store(v, p) => InstV::Store(v as int, p as int),
            Inst::Call(ref name, ref args) => InstV::Call(name@, ints_view(args@)),
            Inst::Ret(v) => InstV::Ret(v as int),
        }
    }
}

/// What one operator yields on two known constants; `None` where the
/// operation is not defined (division by zero, or the one overflowing
/// division). Add, sub and mul wrap, as the backend's machine words do.
pub open spec fn op_eval(op: Operator, x: i32, y: i32) -> Option<i32> {
    match op {
        Operator::Add => Some(x.wrapping_add(y)),
        Operator::Sub => Some(x.wrapping_sub(y)),
        Operator::Mul => Some(x.wrapping_mul(y)),
        Operator::Div => x.checked_div(y),
    }
}

/// Compute [`op_eval`].
pub fn op_fold(op: Operator, x: i32, y: i32) -> (r: Option<i32>)
    ensures
        r == op_eval(op, x, y),
{
    match op {
        Operator::Add => Some(x.wrapping_add(y)),
        Operator::Sub => Some(x.wrapping_sub(y)),
        Operator::Mul => Some(x.wrapping_mul(y)),
        Operator::Div => x.checked_div(y),
    }
}

/// The builder's mathematical state.
pub struct BuilderV {
    /// Images of the instructions, in construction order.
    pub insts: Seq<InstV>,
    /// Beside each instruction, the constant it is known to produce.
    pub consts: Seq<Option<i32>>,
    /// Beside each instruction, the basic block it belongs to.
    pub block_of: Seq<int>,
    /// How many basic blocks exist.
    pub n_blocks: int,
    /// The construction position: instructions are appended to this block.
    pub cur: int,
}

/// The builder invariant: the three columns stay aligned and the position
/// names an existing block.
pub open spec fn bv_wf(b: BuilderV) -> bool {
    &&& b.consts.len() == b.insts.len()
    &&& b.block_of.len() == b.insts.len()
    &&& 0 <= b.cur < b.n_blocks
}

/// The state a fresh builder starts from: no instructions, one empty
/// entry block, positioned there.
pub open spec fn bv_new() -> BuilderV {
    BuilderV {
        insts: Seq::empty(),
        consts: Seq::empty(),
        block_of: Seq::empty(),
        n_blocks: 1,
        cur: 0,
    }
}

/// Appending one instruction at the current position; yields the new
/// state and the value it defines.
pub open spec fn bv_push(b: BuilderV, i: InstV, c: Option<i32>) -> (BuilderV, int) {
    (
        BuilderV {
            insts: b.insts.push(i),
            consts: b.consts.push(c),
            block_of: b.block_of.push(b.cur),
            n_blocks: b.n_blocks,
            cur: b.cur,
        },
        b.insts.len() as int,
    )
}

/// Appending one fresh empty basic block; yields the new state and the
/// block's name.
pub open spec fn bv_new_block(b: BuilderV) -> (BuilderV, int) {
    (
        BuilderV {
            insts: b.insts,
            consts: b.consts,
            block_of: b.block_of,
            n_blocks: b.n_blocks + 1,
            cur: b.cur,
        },
        b.n_blocks,
    )
}

/// Moving the construction position.
pub open spec fn bv_position(b: BuilderV, blk: int) -> BuilderV {
    BuilderV {
        insts: b.insts,
        consts: b.consts,
        block_of: b.block_of,
        n_blocks: b.n_blocks,
        cur: blk,
    }
}

/// Resolving a merge point's pending latch edge with the value that flows
/// along the back-edge.
pub open spec fn bv_patch(b: BuilderV, phi: int, v: int) -> BuilderV {
    if 0 <= phi < b.insts.len() {
        match b.insts[phi] {
            InstV::Phi { pre_val, pre_block, latch_val, latch_block } => BuilderV {
                insts: b.insts.update(
                    phi,
                    InstV::Phi { pre_val, pre_block, latch_val: Some(v), latch_block },
                ),
                consts: b.consts,
                block_of: b.block_of,
                n_blocks: b.n_blocks,
                cur: b.cur,
            },
            _ => b,
        }
    } else {
        b
    }
}

/// The constant a value is known to produce, if any.
pub open spec fn bv_const_of(b: BuilderV, v: int) -> Option<i32> {
    if 0 <= v < b.consts.len() {
        b.consts[v]
    } else {
        None
    }
}

/// What a binary instruction over the two values is known to produce:
/// the fold of the operator over their known constants.
pub open spec fn fold_const(b: BuilderV, op: Operator, x: int, y: int) -> Option<i32> {
    match (bv_const_of(b, x), bv_const_of(b, y)) {
        (Some(cx), Some(cy)) => op_eval(op, cx, cy),
        _ => None,
    }
}

/// The construction state of the entry function's body.
#[derive(Debug, Clone, PartialEq, Eq)]
pub struct Builder {
    pub insts: Vec<Inst>,
    pub consts: Vec<Option<i32>>,
    pub block_of: Vec<usize>,
    /// One unit marker per basic block; a vector rather than a counter so
    /// that opening a block can never overflow.
    pub blocks: Vec<()>,
    pub cur: usize,
}

impl View for Builder {
    type V = BuilderV;

    open spec fn view(&self) -> BuilderV {
        BuilderV {
            insts: self.insts@.map_values(|i: Inst| i@),
            consts: self.consts@,
            block_of: self.block_of@.map_values(|b: usize| b as int),
            n_blocks: self.blocks@.len() as int,
            cur: self.cur as int,
        }
    }
}

impl Builder {
    /// A fresh builder: one empty entry block, positioned there.
    pub fn new() -> (r: Builder)
        ensures
            r@ == bv_new(),
            bv_wf(r@),
    {
        let mut blocks: Vec<()> = Vec::new();
        blocks.push(());
        let r = Builder { insts: Vec::new(), consts: Vec::new(), block_of: Vec::new(), blocks, cur: 0 };
        proof {
            assert(r@.insts =~= bv_new().insts);
            assert(r@.consts =~= bv_new().consts);
            assert(r@.block_of =~= bv_new().block_of);
        }
        r
    }

    /// Append `i` at the current position; the result names the value it
    /// defines.
    pub fn push_inst(&mut self, i: Inst, c: Option<i32>) -> (r: usize)
        requires
            bv_wf(old(self)@),
        ensures
            (final(self)@, r as int) == bv_push(old(self)@, i@, c),
            bv_wf(final(self)@),
    {
        let r = self.insts.len();
        let cur = self.cur;
        self.insts.push(i);
        self.consts.push(c);
        self.block_of.push(cur);
        proof {
            let (b2, v) = bv_push(old(self)@, i@, c);
            assert(final(self)@.insts =~= b2.insts);
            assert(final(self)@.block_of =~= b2.block_of);
        }
        r
    }

    /// Append a fresh empty basic block; the result is its name.
    pub fn new_block(&mut self) -> (r: usize)
        requires
            bv_wf(old(self)@),
        ensures
            (final(self)@, r as int) == bv_new_block(old(self)@),
            bv_wf(final(self)@),
    {
        let r = self.blocks.len();
        self.blocks.push(());
        r
    }

    /// Move the construction position to `blk`.
    pub fn position_at(&mut self, blk: usize)
        requires
            bv_wf(old(self)@),
            blk < old(self)@.n_blocks,
        ensures
            final(self)@ == bv_position(old(self)@, blk as int),
            bv_wf(final(self)@),
    {
        self.cur = blk;
    }

    /// Resolve the pending latch edge of the merge point `phi`.
    pub fn patch_phi(&mut self, phi: usize, v: usize)
        requires
            bv_wf(old(self)@),
        ensures
            final(self)@ == bv_patch(old(self)@, phi as int, v as int),
            bv_wf(final(self)@),
    {
        if phi < self.insts.len() {
            let new_inst = match self.insts[phi] {
                Inst::Phi { pre_val, pre_block, latch_val: _, latch_block } => Some(
                    Inst::Phi { pre_val, pre_block, latch_val: Some(v), latch_block },
                ),
                _ => None,
            };
            match new_inst {
                Some(inst) => {
                    self.insts[phi] = inst;
                    proof {
                        assert(final(self)@.insts =~= bv_patch(
                            old(self)@,
                            phi as int,
                            v as int,
                        ).insts);
                    }
                }
                None => {
                    proof {
                        assert(final(self)@ == bv_patch(old(self)@, phi as int, v as int));
                    }
                }
            }
        }
    }

    /// The constant `v` is known to produce, if any.
    pub fn const_of(&self, v: usize) -> (r: Option<i32>)
        requires
            bv_wf(self@),
        ensures
            r == bv_const_of(self@, v as int),
    {
        if v < self.consts.len() {
            self.consts[v]
        } else {
            None
        }
    }
}

/// A finished module: the callee declarations, the body of the entry
/// function, and the value it returns.
#[derive(Debug, Clone, PartialEq, Eq)]
pub struct Module {
    pub decls: Vec<FuncSig>,
    pub body: Builder,
    pub ret: usize,
}

/// Mathematical image of a finished module.
pub struct ModuleV {
    pub decls: Seq<FuncSigV>,
    pub body: BuilderV,
    pub ret: int,
}

impl View for Module {
    type V = ModuleV;

    open spec fn view(&self) -> ModuleV {
        ModuleV { decls: sigs_view(self.decls@), body: self.body@, ret: self.ret as int }
    }
}

} // verus!
