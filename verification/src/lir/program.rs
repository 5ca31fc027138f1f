//! Programs of the low-level representation: functions made of labelled blocks.
use vstd::prelude::*;
use crate::hir::signature::ConstantValue;
use crate::hir::keyed::{distinct_keys, lemma_filter_push};

verus! {

/// A whole program.
#[derive(Debug)]
pub struct LirProgram {
    pub functions: Vec<LirFunction>,
    pub extern_functions: Vec<LirExternFunction>,
    pub structs: Vec<LirStruct>,
    pub unions: Vec<LirUnion>,
}

#[derive(Debug)]
pub struct LirExternFunction {
    pub name: String,
    pub args: Vec<LirTy>,
    pub return_type: Option<LirTy>,
}

/// A union definition, e.g. `union Value { a: int32, b: float32 }`; variants in the order
/// they are emitted.
#[derive(Debug)]
pub struct LirUnion {
    pub name: String,
    pub variants: Vec<(String, LirTy)>,
}

/// A structure definition, e.g. `struct Point { x: int32, y: int32 }`; fields in the order
/// they are emitted. Methods are functions of the program.
#[derive(Debug)]
pub struct LirStruct {
    pub name: String,
    pub fields: Vec<(String, LirTy)>,
}

impl LirStruct {
    /// The fields are keyed by name: no two fields share one.
    pub open spec fn wf(&self) -> bool {
        distinct_keys(self.fields@)
    }
}

#[derive(Debug)]
pub struct LirFunction {
    pub name: String,
    pub args: Vec<LirTy>,
    pub return_type: Option<LirTy>,
    pub blocks: Vec<LirBlock>,
}

#[derive(Debug)]
pub struct LirBlock {
    pub label: String,
    pub instructions: Vec<LirInstr>,
    pub terminator: LirTerminator,
}

#[derive(Debug)]
pub enum LirTy {
    Int8,
    Int16,
    Int32,
    Int64,
    UInt8,
    UInt16,
    UInt32,
    UInt64,
    Float32,
    Float64,
    Boolean,
    Str,
    /// A Unicode scalar value.
    Char,
    Unit,
    Ptr { is_const: bool, inner: Box<LirTy> },
    StructType(String),
    UnionType(String),
    ArrayTy { inner: Box<LirTy>, size: usize },
}

/// Size in bytes of a value of type `t`.
pub open spec fn lir_size(t: LirTy) -> nat
    decreases t,
{
    match t {
        LirTy::Int8 | LirTy::UInt8 | LirTy::Boolean => 1,
        LirTy::Int16 | LirTy::UInt16 => 2,
        LirTy::Int32 | LirTy::UInt32 | LirTy::Float32 => 4,
        LirTy::Int64 | LirTy::UInt64 | LirTy::Float64 => 8,
        LirTy::Char => 4,
        LirTy::ArrayTy { inner, size } => lir_size(*inner) * (size as nat),
        _ => 8,
    }
}

/// Every size computed on the way to `lir_size(t)` fits in a `usize`.
pub open spec fn size_fits(t: LirTy) -> bool
    decreases t,
{
    lir_size(t) <= usize::MAX && match t {
        LirTy::ArrayTy { inner, .. } => size_fits(*inner),
        _ => true,
    }
}

/// Two types are the same (names compared by their text).
pub open spec fn same_ty(a: LirTy, b: LirTy) -> bool
    decreases a,
{
    match (a, b) {
        (LirTy::Ptr { is_const: c1, inner: i1 }, LirTy::Ptr { is_const: c2, inner: i2 }) => c1 == c2 && same_ty(*i1, *i2),
        (LirTy::StructType(n1), LirTy::StructType(n2)) => n1@ == n2@,
        (LirTy::UnionType(n1), LirTy::UnionType(n2)) => n1@ == n2@,
        (LirTy::ArrayTy { inner: i1, size: s1 }, LirTy::ArrayTy { inner: i2, size: s2 }) => s1 == s2 && same_ty(*i1, *i2),
        (LirTy::Int8, LirTy::Int8) | (LirTy::Int16, LirTy::Int16) | (LirTy::Int32, LirTy::Int32) | (LirTy::Int64, LirTy::Int64)
        | (LirTy::UInt8, LirTy::UInt8) | (LirTy::UInt16, LirTy::UInt16) | (LirTy::UInt32, LirTy::UInt32) | (LirTy::UInt64, LirTy::UInt64)
        | (LirTy::Float32, LirTy::Float32) | (LirTy::Float64, LirTy::Float64) | (LirTy::Boolean, LirTy::Boolean) | (LirTy::Str, LirTy::Str)
        | (LirTy::Char, LirTy::Char) | (LirTy::Unit, LirTy::Unit) => true,
        _ => false,
    }
}

impl LirTy {
    /// Size in bytes of a value of this type (structs, unions, strings and pointers count
    /// as one pointer).
    pub fn size_of(&self) -> (n: usize)
        requires
            size_fits(*self),
        ensures
            n == lir_size(*self),
        decreases self,
    {
        match self {
            LirTy::Int8 | LirTy::UInt8 | LirTy::Boolean => 1,
            LirTy::Int16 | LirTy::UInt16 => 2,
            LirTy::Int32 | LirTy::UInt32 | LirTy::Float32 => 4,
            LirTy::Int64 | LirTy::UInt64 | LirTy::Float64 => 8,
            LirTy::Char => 4,
            LirTy::Str | LirTy::Unit | LirTy::Ptr { .. } | LirTy::StructType(_) | LirTy::UnionType(_) => 8,
            LirTy::ArrayTy { inner, size } => inner.size_of() * size,
        }
    }

    /// Whether this is the unit type.
    pub fn is_unit(&self) -> (b: bool)
        ensures
            b == (*self is Unit),
    {
        match self {
            LirTy::Unit => true,
            _ => false,
        }
    }

    /// Whether two types are the same.
    pub fn same_as(&self, other: &LirTy) -> (b: bool)
        ensures
            b == same_ty(*self, *other),
        decreases self,
    {
        match (self, other) {
            (LirTy::Ptr { is_const: c1, inner: i1 }, LirTy::Ptr { is_const: c2, inner: i2 }) => *c1 == *c2 && i1.same_as(i2),
            (LirTy::StructType(n1), LirTy::StructType(n2)) => *n1 == *n2,
            (LirTy::UnionType(n1), LirTy::UnionType(n2)) => *n1 == *n2,
            (LirTy::ArrayTy { inner: i1, size: s1 }, LirTy::ArrayTy { inner: i2, size: s2 }) => *s1 == *s2 && i1.same_as(i2),
            (LirTy::Int8, LirTy::Int8) | (LirTy::Int16, LirTy::Int16) | (LirTy::Int32, LirTy::Int32) | (LirTy::Int64, LirTy::Int64)
            | (LirTy::UInt8, LirTy::UInt8) | (LirTy::UInt16, LirTy::UInt16) | (LirTy::UInt32, LirTy::UInt32) | (LirTy::UInt64, LirTy::UInt64)
            | (LirTy::Float32, LirTy::Float32) | (LirTy::Float64, LirTy::Float64) | (LirTy::Boolean, LirTy::Boolean) | (LirTy::Str, LirTy::Str)
            | (LirTy::Char, LirTy::Char) | (LirTy::Unit, LirTy::Unit) => true,
            _ => false,
        }
    }
}

#[derive(Debug)]
pub enum LirInstr {
    Add { ty: LirTy, dest: LirOperand, a: LirOperand, b: LirOperand },
    Sub { ty: LirTy, dest: LirOperand, a: LirOperand, b: LirOperand },
    Mul { ty: LirTy, dest: LirOperand, a: LirOperand, b: LirOperand },
    Div { ty: LirTy, dest: LirOperand, a: LirOperand, b: LirOperand },
    Mod { ty: LirTy, dest: LirOperand, a: LirOperand, b: LirOperand },
    LessThan { ty: LirTy, dest: LirOperand, a: LirOperand, b: LirOperand },
    LessThanOrEqual { ty: LirTy, dest: LirOperand, a: LirOperand, b: LirOperand },
    GreaterThan { ty: LirTy, dest: LirOperand, a: LirOperand, b: LirOperand },
    GreaterThanOrEqual { ty: LirTy, dest: LirOperand, a: LirOperand, b: LirOperand },
    Equal { ty: LirTy, dest: LirOperand, a: LirOperand, b: LirOperand },
    NotEqual { ty: LirTy, dest: LirOperand, a: LirOperand, b: LirOperand },
    Negate { ty: LirTy, dest: LirOperand, src: LirOperand },
    Not { ty: LirTy, dest: LirOperand, src: LirOperand },
    Index { ty: LirTy, dst: LirOperand, src: LirOperand, index: LirOperand },
    /// Load an immediate value into a temporary.
    LoadImm { ty: LirTy, dst: LirOperand, value: LirOperand },
    /// Load a constant (from the constant pool) into a temporary.
    LoadConst { dst: LirOperand, value: LirOperand },
    Call { ty: LirTy, dst: Option<LirOperand>, func_name: String, args: Vec<LirOperand> },
    ExternCall { ty: LirTy, dst: Option<LirOperand>, func_name: String, args: Vec<LirOperand> },
    /// Allocate a value of the given type and call a constructor on it
    /// (`ctor_kind` is one of `__ctor`, `__copy_ctor`, `__move_ctor`, `__default_ctor`).
    Construct { ty: LirTy, dst: LirOperand, args: Vec<LirOperand>, ctor_kind: String },
    ConstructArray { ty: LirTy, dst: LirOperand, size: usize },
    /// A union value with its field values, in the order they are written.
    ConstructUnion { ty: LirTy, dst: LirOperand, field_values: Vec<(String, LirOperand)> },
    /// Destroy a value; a pointer is also freed when `should_free` holds.
    Delete { ty: LirTy, src: LirOperand, should_free: bool },
    FieldAccess { ty: LirTy, dst: LirOperand, src: LirOperand, field_name: String },
    Assign { ty: LirTy, dst: LirOperand, src: LirOperand },
    Cast { ty: LirTy, from: LirTy, dst: LirOperand, src: LirOperand },
    /// Copy a whole aggregate (array, struct or union) value.
    AggregateCopy { ty: LirTy, dst: LirOperand, src: LirOperand },
    /// Copy a value into freshly allocated heap memory.
    HeapAllocCopy { ty: LirTy, dst: LirOperand, src: LirOperand },
}

#[derive(Debug)]
pub enum LirOperand {
    /// A temporary variable, e.g. `t1`.
    Temp(u32),
    Arg(u8),
    Const(ConstantValue),
    Deref(Box<LirOperand>),
    AsRef(Box<LirOperand>),
    FieldAccess { src: Box<LirOperand>, field_name: String, ty: LirTy, is_arrow: bool },
    Index { src: Box<LirOperand>, index: Box<LirOperand> },
    ImmInt(i64),
    ImmUInt(u64),
    /// A floating-point immediate, held as its decimal text.
    ImmFloat(String),
    ImmBool(bool),
    ImmChar(char),
    ImmUnit,
}

impl LirOperand {
    pub fn is_temp(&self) -> (b: bool)
        ensures
            b == (*self is Temp),
    {
        match self {
            LirOperand::Temp(_) => true,
            _ => false,
        }
    }

    pub fn is_arg(&self) -> (b: bool)
        ensures
            b == (*self is Arg),
    {
        match self {
            LirOperand::Arg(_) => true,
            _ => false,
        }
    }

    pub fn get_temp_id(&self) -> (r: Option<u32>)
        ensures
            r == (match *self {
                LirOperand::Temp(id) => Some(id),
                _ => None::<u32>,
            }),
    {
        match self {
            LirOperand::Temp(id) => Some(*id),
            _ => None,
        }
    }
}

#[derive(Debug)]
pub enum LirTerminator {
    Return { value: Option<LirOperand> },
    Branch { target: String },
    BranchIf { condition: LirOperand, then_label: String, else_label: String },
    /// Program halt.
    Halt,
    /// No terminator yet.
    Unterminated,
}


/// Labels that a terminator may jump to.
pub open spec fn jump_targets(t: LirTerminator) -> Seq<Seq<char>> {
    match t {
        LirTerminator::Branch { target } => seq![target@],
        LirTerminator::BranchIf { then_label, else_label, .. } => seq![then_label@, else_label@],
        _ => seq![],
    }
}

/// Some block before index `i` may jump to `label`.
pub open spec fn targeted_before(blocks: Seq<LirBlock>, i: int, label: Seq<char>) -> bool {
    exists|j: int| 0 <= j < i && #[trigger] jump_targets(blocks[j].terminator).contains(label)
}

/// `label` is the entry block's label or a branch target of `blocks`.
pub open spec fn is_referenced(blocks: Seq<LirBlock>, label: Seq<char>) -> bool {
    ||| (blocks.len() > 0 && blocks[0].label@ == label)
    ||| targeted_before(blocks, blocks.len() as int, label)
}

pub open spec fn label_in(labels: Seq<String>, label: Seq<char>) -> bool {
    exists|k: int| 0 <= k < labels.len() && #[trigger] labels[k]@ == label
}

/// A block is kept when it is referenced, holds an instruction, or has a terminator.
pub open spec fn is_kept(blocks: Seq<LirBlock>, b: LirBlock) -> bool {
    is_referenced(blocks, b.label@) || !(b.instructions.len() == 0 && b.terminator is Unterminated)
}

/// The blocks that a dead-block pass keeps, in their order.
pub open spec fn live_blocks(blocks: Seq<LirBlock>) -> Seq<LirBlock> {
    blocks.filter(|b: LirBlock| is_kept(blocks, b))
}

/// Whether `label` is among `labels`.
fn has_label(labels: &Vec<String>, label: &String) -> (b: bool)
    ensures
        b == label_in(labels@, label@),
{
    let mut k: usize = 0;
    while k < labels.len()
        invariant
            k <= labels.len(),
            forall|q: int| 0 <= q < k ==> labels@[q]@ != label@,
        decreases labels.len() - k,
    {
        if labels[k] == *label {
            return true;
        }
        k = k + 1;
    }
    false
}

impl LirFunction {
    /// Removes the blocks that are empty (no instruction, no terminator) and that no branch
    /// (nor the entry) refers to; the other blocks stay, in their order.
    pub fn remove_dead_blocks(&mut self)
        ensures
            final(self).name == old(self).name,
            final(self).args == old(self).args,
            final(self).return_type == old(self).return_type,
            final(self).blocks@ == live_blocks(old(self).blocks@),
    {
        let ghost all = self.blocks@;
        let mut labels: Vec<String> = Vec::new();
        if self.blocks.len() > 0 {
            labels.push(self.blocks[0].label.clone());
        }
        proof {
            assert forall|l: Seq<char>| #[trigger] label_in(labels@, l) <==> (
                (all.len() > 0 && all[0].label@ == l) || targeted_before(all, 0, l)) by {
                if all.len() > 0 && all[0].label@ == l {
                    assert(labels@[0]@ == l);
                }
            }
        }
        let mut i: usize = 0;
        while i < self.blocks.len()
            invariant
                self.blocks@ == all,
                i <= all.len(),
                forall|l: Seq<char>| #[trigger] label_in(labels@, l) <==> (
                    (all.len() > 0 && all[0].label@ == l) || targeted_before(all, i as int, l)),
            decreases all.len() - i,
        {
            let ghost before = labels@;
            let ghost t = jump_targets(all[i as int].terminator);
            match &self.blocks[i].terminator {
                LirTerminator::Branch { target } => {
                    labels.push(target.clone());
                },
                LirTerminator::BranchIf { then_label, else_label, .. } => {
                    labels.push(then_label.clone());
                    labels.push(else_label.clone());
                },
                _ => {},
            }
            proof {
                assert(labels@.len() == before.len() + t.len());
                assert(forall|q: int| 0 <= q < t.len() ==> #[trigger] labels@[before.len() + q]@ == t[q]);
                assert(forall|k: int| 0 <= k < before.len() ==> #[trigger] labels@[k] == before[k]);
                assert forall|l: Seq<char>| #[trigger] label_in(labels@, l) <==> (
                    (all.len() > 0 && all[0].label@ == l) || targeted_before(all, i + 1, l)) by {
                    if label_in(labels@, l) {
                        let k = choose|k: int| 0 <= k < labels@.len() && #[trigger] labels@[k]@ == l;
                        if k >= before.len() {
                            assert(t[k - before.len()] == l);
                            assert(t.contains(l));
                            assert(jump_targets(all[i as int].terminator).contains(l));
                            assert(targeted_before(all, i + 1, l));
                        } else {
                            assert(before[k]@ == l);
                            assert(label_in(before, l));
                        }
                    }
                    if targeted_before(all, i + 1, l) {
                        let j = choose|j: int| 0 <= j < i + 1 && #[trigger] jump_targets(all[j].terminator).contains(l);
                        if j == i {
                            let q = choose|q: int| 0 <= q < t.len() && t[q] == l;
                            assert(labels@[before.len() + q]@ == l);
                            assert(label_in(labels@, l));
                        } else {
                            assert(targeted_before(all, i as int, l));
                            assert(label_in(before, l));
                            let k = choose|k: int| 0 <= k < before.len() && #[trigger] before[k]@ == l;
                            assert(labels@[k]@ == l);
                        }
                    }
                    if all.len() > 0 && all[0].label@ == l {
                        assert(label_in(before, l));
                        let k = choose|k: int| 0 <= k < before.len() && #[trigger] before[k]@ == l;
                        assert(labels@[k]@ == l);
                    }
                }
            }
            i = i + 1;
        }
        let mut old_blocks: Vec<LirBlock> = Vec::new();
        std::mem::swap(&mut old_blocks, &mut self.blocks);
        let mut reversed: Vec<LirBlock> = Vec::new();
        while old_blocks.len() > 0
            invariant
                old_blocks@ + reversed@.reverse() == all,
            decreases old_blocks.len(),
        {
            let b = old_blocks.pop().unwrap();
            proof {
                assert(reversed@.push(b).reverse() =~= seq![b] + reversed@.reverse());
            }
            reversed.push(b);
        }
        let ghost pred = |b: LirBlock| is_kept(all, b);
        let mut kept: Vec<LirBlock> = Vec::new();
        let ghost mut taken: Seq<LirBlock> = seq![];
        while reversed.len() > 0
            invariant
                taken + reversed@.reverse() == all,
                kept@ == taken.filter(pred),
                pred == (|x: LirBlock| is_kept(all, x)),
                forall|l: Seq<char>| #[trigger] label_in(labels@, l) <==> is_referenced(all, l),
            decreases reversed.len(),
        {
            let ghost prev = reversed@;
            let b = reversed.pop().unwrap();
            proof {
                assert(prev =~= reversed@.push(b));
            }
            let referenced = has_label(&labels, &b.label);
            let empty = b.instructions.len() == 0 && match b.terminator {
                LirTerminator::Unterminated => true,
                _ => false,
            };
            let keep = referenced || !empty;
            proof {
                let nt = taken.push(b);
                assert(reversed@.push(b).reverse() =~= seq![b] + reversed@.reverse());
                assert(nt + reversed@.reverse() =~= taken + reversed@.push(b).reverse());
                assert(label_in(labels@, b.label@) == is_referenced(all, b.label@));
                assert(pred(b) == keep);
                lemma_filter_push(taken, b, pred);
            }
            if keep {
                kept.push(b);
            }
            proof {
                taken = taken.push(b);
            }
        }
        proof {
            assert(reversed@.reverse() =~= Seq::<LirBlock>::empty());
            assert(taken =~= all);
        }
        self.blocks = kept;
    }
}


proof fn lemma_filter_all(s: Seq<LirBlock>, pred: spec_fn(LirBlock) -> bool)
    requires
        forall|i: int| 0 <= i < s.len() ==> #[trigger] pred(s[i]),
    ensures
        s.filter(pred) == s,
    decreases s.len(),
{
    reveal(Seq::filter);
    if s.len() > 0 {
        lemma_filter_all(s.drop_last(), pred);
        assert(s.drop_last().push(s.last()) =~= s);
    }
}

proof fn lemma_filter_head(s: Seq<LirBlock>, pred: spec_fn(LirBlock) -> bool)
    requires
        s.len() > 0,
        pred(s[0]),
    ensures
        s.filter(pred).len() > 0,
        s.filter(pred)[0] == s[0],
    decreases s.len(),
{
    reveal(Seq::filter);
    if s.len() > 1 {
        lemma_filter_head(s.drop_last(), pred);
    } else {
        assert(s.drop_last().filter(pred) =~= Seq::<LirBlock>::empty());
    }
}

/// The entry block is always kept, and stays the entry block.
pub proof fn lemma_entry_block_kept(blocks: Seq<LirBlock>)
    requires
        blocks.len() > 0,
    ensures
        live_blocks(blocks).len() > 0,
        live_blocks(blocks)[0] == blocks[0],
{
    lemma_filter_head(blocks, |b: LirBlock| is_kept(blocks, b));
}

/// A label is referenced in the kept blocks exactly when it was referenced before: the blocks
/// that go have no terminator, so they branch nowhere.
pub proof fn lemma_live_blocks_same_references(blocks: Seq<LirBlock>, label: Seq<char>)
    ensures
        is_referenced(live_blocks(blocks), label) == is_referenced(blocks, label),
{
    let pred = |b: LirBlock| is_kept(blocks, b);
    let f = live_blocks(blocks);
    broadcast use Seq::lemma_filter_pred, Seq::lemma_filter_contains, Seq::lemma_filter_contains_rev;
    if blocks.len() > 0 {
        lemma_entry_block_kept(blocks);
    } else {
        blocks.lemma_filter_len(pred);
    }
    if targeted_before(f, f.len() as int, label) {
        let j = choose|j: int| 0 <= j < f.len() && #[trigger] jump_targets(f[j].terminator).contains(label);
        assert(f.contains(f[j]));
        assert(blocks.contains(f[j]));
        let k = choose|k: int| 0 <= k < blocks.len() && blocks[k] == f[j];
        assert(jump_targets(blocks[k].terminator).contains(label));
        assert(targeted_before(blocks, blocks.len() as int, label));
    }
    if targeted_before(blocks, blocks.len() as int, label) {
        let j = choose|j: int| 0 <= j < blocks.len() && #[trigger] jump_targets(blocks[j].terminator).contains(label);
        assert(!(blocks[j].terminator is Unterminated));
        assert(pred(blocks[j]));
        assert(f.contains(blocks[j]));
        let k = choose|k: int| 0 <= k < f.len() && f[k] == blocks[j];
        assert(jump_targets(f[k].terminator).contains(label));
        assert(targeted_before(f, f.len() as int, label));
    }
}

/// Removing dead blocks a second time changes nothing.
pub proof fn lemma_live_blocks_idempotent(blocks: Seq<LirBlock>)
    ensures
        live_blocks(live_blocks(blocks)) == live_blocks(blocks),
{
    let f = live_blocks(blocks);
    let p_all = |b: LirBlock| is_kept(blocks, b);
    let p_f = |b: LirBlock| is_kept(f, b);
    assert forall|b: LirBlock| #[trigger] p_f(b) == p_all(b) by {
        lemma_live_blocks_same_references(blocks, b.label@);
    }
    assert(p_f =~= p_all);
    assert forall|i: int| 0 <= i < f.len() implies #[trigger] p_f(f[i]) by {
        blocks.lemma_filter_pred(p_all, i);
    }
    lemma_filter_all(f, p_f);
}

} // verus!
