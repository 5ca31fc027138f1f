//! C code generation from the low-level representation.
//!
//! Every piece of emitted text is described by a spec function below; the executable
//! functions of `CCodeGen` are proved to append exactly that text.
use vstd::prelude::*;
use vstd::string::{StrSliceExecFns, StringExecFns};
use crate::hir::signature::ConstantValue;
use crate::lir::program::{LirBlock, LirFunction, LirInstr, LirOperand, LirProgram, LirStruct,
    LirTerminator, LirTy, LirUnion, same_ty};
use crate::text::{escape_default, int_text, join, nat_text, push_escaped, push_i64, push_u64,
    push_usize, views, join_strings};

verus! {

/// Name of the generated header, included by the generated C file.
pub const HEADER_NAME: &'static str = "__atlas77_header.h";

/// `n` tab characters.
pub open spec fn tabs(n: nat) -> Seq<char> {
    Seq::new(n, |i: int| '\t')
}

/// One line of output: `indent` tabs, the content, a newline.
pub open spec fn line(indent: nat, content: Seq<char>) -> Seq<char> {
    (tabs(indent) + content).push('\n')
}

pub open spec fn ends_with_star(s: Seq<char>) -> bool {
    s.len() > 0 && s.last() == '*'
}

/// `s` without its trailing `*` characters.
pub open spec fn trim_stars(s: Seq<char>) -> Seq<char>
    decreases s.len(),
{
    if ends_with_star(s) {
        trim_stars(s.drop_last())
    } else {
        s
    }
}

/// The C spelling of a type. A pointer to a type whose spelling already ends in `*`
/// keeps that spelling (no double pointers).
pub open spec fn c_type(t: LirTy) -> Seq<char>
    decreases t,
{
    match t {
        LirTy::Unit => "void"@,
        LirTy::Int64 => "int64_t"@,
        LirTy::Int32 => "int32_t"@,
        LirTy::Int16 => "int16_t"@,
        LirTy::Int8 => "int8_t"@,
        LirTy::Float32 => "float"@,
        LirTy::Float64 => "double"@,
        LirTy::UInt64 => "uint64_t"@,
        LirTy::UInt32 => "uint32_t"@,
        LirTy::UInt16 => "uint16_t"@,
        LirTy::UInt8 => "uint8_t"@,
        LirTy::Boolean => "bool"@,
        LirTy::Char => "uint32_t"@,
        LirTy::Str => "char*"@,
        LirTy::Ptr { is_const, inner } => {
            let it = c_type(*inner);
            if ends_with_star(it) {
                it
            } else {
                (if is_const { "const "@ } else { Seq::<char>::empty() }) + it.push('*')
            }
        },
        LirTy::StructType(name) => name@,
        LirTy::UnionType(name) => name@,
        LirTy::ArrayTy { inner, size } => (c_type(*inner).push('[') + nat_text(size as nat)).push(']'),
    }
}

/// The operand holds no list constant (those have no C spelling).
pub open spec fn operand_ok(o: LirOperand) -> bool
    decreases o,
{
    match o {
        LirOperand::Const(c) => !(c is List),
        LirOperand::Deref(d) => operand_ok(*d),
        LirOperand::AsRef(a) => operand_ok(*a),
        LirOperand::FieldAccess { src, .. } => operand_ok(*src),
        LirOperand::Index { src, index } => operand_ok(*src) && operand_ok(*index),
        _ => true,
    }
}

pub open spec fn bool_text(b: bool) -> Seq<char> {
    if b { "true"@ } else { "false"@ }
}

pub open spec fn char_literal(c: char) -> Seq<char> {
    seq!['\'', c, '\'']
}

/// The C spelling of an operand.
pub open spec fn operand_text(o: LirOperand) -> Seq<char>
    decreases o,
{
    match o {
        LirOperand::Arg(a) => "arg_"@ + nat_text(a as nat),
        LirOperand::Temp(t) => "temp_"@ + nat_text(t as nat),
        LirOperand::Const(c) => match c {
            ConstantValue::Int(i) => int_text(i as int),
            ConstantValue::UInt(u) => nat_text(u as nat),
            ConstantValue::Float(t) => t@,
            ConstantValue::Bool(b) => bool_text(b),
            ConstantValue::Char(ch) => char_literal(ch),
            ConstantValue::String(s) => (seq!['"'] + escape_default(s@)).push('"'),
            ConstantValue::Unit => "void"@,
            ConstantValue::List(_) => Seq::<char>::empty(),
        },
        LirOperand::ImmBool(b) => bool_text(b),
        LirOperand::ImmInt(i) => int_text(i as int),
        LirOperand::ImmUInt(u) => nat_text(u as nat),
        LirOperand::ImmFloat(t) => t@,
        LirOperand::ImmChar(c) => char_literal(c),
        LirOperand::ImmUnit => "void"@,
        LirOperand::Deref(d) => (seq!['(', '*'] + operand_text(*d)).push(')'),
        LirOperand::AsRef(a) => (seq!['(', '&'] + operand_text(*a)).push(')'),
        LirOperand::FieldAccess { src, field_name, is_arrow, .. } => {
            if is_arrow && !(*src is Deref) {
                operand_text(*src) + "->"@ + field_name@
            } else {
                (seq!['('] + operand_text(*src)).push(')').push('.') + field_name@
            }
        },
        LirOperand::Index { src, index } => (operand_text(*src).push('[') + operand_text(*index)).push(']'),
    }
}


/// Every operand of the sequence has a C spelling.
pub open spec fn ops_ok(s: Seq<LirOperand>) -> bool {
    forall|k: int| 0 <= k < s.len() ==> #[trigger] operand_ok(s[k])
}

pub open spec fn operand_texts(s: Seq<LirOperand>) -> Seq<Seq<char>> {
    s.map_values(|o: LirOperand| operand_text(o))
}

/// Call arguments, separated by `, `.
pub open spec fn args_text(s: Seq<LirOperand>) -> Seq<char> {
    join(operand_texts(s), ", "@)
}

/// `T d = a <sym> b;` where `sym` carries its surrounding spaces.
pub open spec fn binary_text(ty: LirTy, dest: LirOperand, a: LirOperand, b: LirOperand, sym: Seq<char>) -> Seq<char> {
    (c_type(ty).push(' ') + operand_text(dest) + " = "@ + operand_text(a) + sym + operand_text(b)).push(';')
}

/// `T d = <prefix>s;` for the unary operators.
pub open spec fn unary_text(ty: LirTy, dest: LirOperand, src: LirOperand, prefix: Seq<char>) -> Seq<char> {
    (c_type(ty).push(' ') + operand_text(dest) + prefix + operand_text(src)).push(';')
}

/// A call, storing its result when there is a destination.
pub open spec fn call_text(ty: LirTy, dst: Option<LirOperand>, name: Seq<char>, args: Seq<LirOperand>) -> Seq<char> {
    match dst {
        Some(d) => c_type(ty).push(' ') + operand_text(d) + " = "@ + name + seq!['('] + args_text(args) + ");"@,
        None => name + seq!['('] + args_text(args) + ");"@,
    }
}

/// `memcpy(d, s, sizeof(T) * n);`
pub open spec fn memcpy_array_text(dst: LirOperand, src: LirOperand, inner: LirTy, size: usize) -> Seq<char> {
    "memcpy("@ + operand_text(dst) + ", "@ + operand_text(src) + ", sizeof("@ + c_type(inner) + ") * "@
        + nat_text(size as nat) + ");"@
}

/// `d = s;`
pub open spec fn assign_text(dst: LirOperand, src: LirOperand) -> Seq<char> {
    (operand_text(dst) + " = "@ + operand_text(src)).push(';')
}

/// The destructor call, if any, that deleting a value of type `ty` makes.
pub open spec fn dtor_text(ty: LirTy, src: LirOperand, ind: nat) -> Seq<char> {
    match ty {
        LirTy::StructType(name) => line(ind, name@ + "___dtor(&"@ + operand_text(src) + ");"@),
        LirTy::Ptr { inner, .. } => match *inner {
            LirTy::StructType(name) => line(ind, name@ + "___dtor("@ + operand_text(src) + ");"@),
            _ => Seq::<char>::empty(),
        },
        _ => Seq::<char>::empty(),
    }
}

/// `T d = {0};` then, on the next line, the constructor call on `&d`.
pub open spec fn construct_text(ty: LirTy, dst: LirOperand, args: Seq<LirOperand>, kind: Seq<char>) -> Seq<char> {
    let t = c_type(ty);
    let d = operand_text(dst);
    let call = trim_stars(t).push('_') + kind + seq!['('] + join(seq![seq!['&'] + d] + operand_texts(args), ", "@) + seq![')'];
    t.push(' ') + d + " = {0};\n\t"@ + call.push(';')
}

/// Heap allocation of a `T`, a check of the allocation, and a copy of the source into it.
pub open spec fn heap_alloc_text(ty: LirTy, dst: LirOperand, src: LirOperand) -> Seq<char> {
    let t = c_type(ty);
    let d = operand_text(dst);
    t + "* "@ + d + " = ("@ + t + "*)malloc(sizeof("@ + t + "));\nif ("@ + d
        + " == NULL) {\nprintf(\"Failed to allocate memory for "@ + t
        + "*\\n\");\nexit(1);\n}\nmemcpy("@ + d + ", &"@ + operand_text(src) + ", sizeof("@ + t + "));"@
}

/// `.name = value` for each field of a union value.
pub open spec fn field_inits(fields: Seq<(String, LirOperand)>) -> Seq<Seq<char>> {
    fields.map_values(|f: (String, LirOperand)| seq!['.'] + f.0@ + " = "@ + operand_text(f.1))
}

pub open spec fn fields_ok(fields: Seq<(String, LirOperand)>) -> bool {
    forall|k: int| 0 <= k < fields.len() ==> #[trigger] operand_ok(fields[k].1)
}

/// The instruction can be written: its operands have a C spelling, and an array
/// construction has an array type.
pub open spec fn instr_ok(i: LirInstr) -> bool {
    match i {
        LirInstr::Add { dest, a, b, .. } | LirInstr::Sub { dest, a, b, .. } | LirInstr::Mul { dest, a, b, .. }
        | LirInstr::Div { dest, a, b, .. } | LirInstr::Mod { dest, a, b, .. } | LirInstr::LessThan { dest, a, b, .. }
        | LirInstr::LessThanOrEqual { dest, a, b, .. } | LirInstr::GreaterThan { dest, a, b, .. }
        | LirInstr::GreaterThanOrEqual { dest, a, b, .. } | LirInstr::Equal { dest, a, b, .. }
        | LirInstr::NotEqual { dest, a, b, .. } => operand_ok(dest) && operand_ok(a) && operand_ok(b),
        LirInstr::Negate { dest, src, .. } | LirInstr::Not { dest, src, .. } => operand_ok(dest) && operand_ok(src),
        LirInstr::LoadImm { dst, value, .. } | LirInstr::LoadConst { dst, value } => operand_ok(dst) && operand_ok(value),
        LirInstr::Call { dst, args, .. } | LirInstr::ExternCall { dst, args, .. } =>
            (dst matches Some(d) ==> operand_ok(d)) && ops_ok(args@),
        LirInstr::Assign { dst, src, .. } | LirInstr::AggregateCopy { dst, src, .. }
        | LirInstr::HeapAllocCopy { dst, src, .. } => operand_ok(dst) && operand_ok(src),
        LirInstr::Cast { dst, src, .. } => operand_ok(dst) && operand_ok(src),
        LirInstr::Delete { src, .. } => operand_ok(src),
        LirInstr::Construct { dst, args, .. } => operand_ok(dst) && ops_ok(args@),
        LirInstr::ConstructArray { ty, dst, .. } => operand_ok(dst) && ty is ArrayTy,
        LirInstr::ConstructUnion { dst, field_values, .. } => operand_ok(dst) && fields_ok(field_values@),
        LirInstr::Index { .. } | LirInstr::FieldAccess { .. } => true,
    }
}

/// The text written to the C file for an instruction at indentation `ind`. Index and
/// field-access instructions have no C form and write nothing.
pub open spec fn instr_text(i: LirInstr, ind: nat) -> Seq<char> {
    match i {
        LirInstr::Add { ty, dest, a, b } => line(ind, binary_text(ty, dest, a, b, " + "@)),
        LirInstr::Sub { ty, dest, a, b } => line(ind, binary_text(ty, dest, a, b, " - "@)),
        LirInstr::Mul { ty, dest, a, b } => line(ind, binary_text(ty, dest, a, b, " * "@)),
        LirInstr::Div { ty, dest, a, b } => line(ind, binary_text(ty, dest, a, b, " / "@)),
        LirInstr::Mod { ty, dest, a, b } => line(ind, binary_text(ty, dest, a, b, " % "@)),
        LirInstr::LessThan { ty, dest, a, b } => line(ind, binary_text(ty, dest, a, b, " < "@)),
        LirInstr::LessThanOrEqual { ty, dest, a, b } => line(ind, binary_text(ty, dest, a, b, " <= "@)),
        LirInstr::GreaterThan { ty, dest, a, b } => line(ind, binary_text(ty, dest, a, b, " > "@)),
        LirInstr::GreaterThanOrEqual { ty, dest, a, b } => line(ind, binary_text(ty, dest, a, b, " >= "@)),
        LirInstr::Equal { ty, dest, a, b } => line(ind, binary_text(ty, dest, a, b, " == "@)),
        LirInstr::NotEqual { ty, dest, a, b } => line(ind, binary_text(ty, dest, a, b, " != "@)),
        LirInstr::Negate { ty, dest, src } => line(ind, unary_text(ty, dest, src, " = -"@)),
        LirInstr::Not { ty, dest, src } => line(ind, unary_text(ty, dest, src, " = !"@)),
        LirInstr::LoadImm { ty, dst, value } => line(ind, unary_text(ty, dst, value, " = "@)),
        LirInstr::LoadConst { dst, value } =>
            line(ind, ("char* "@ + operand_text(dst) + " = "@ + operand_text(value)).push(';')),
        LirInstr::Call { ty, dst, func_name, args } => line(ind, call_text(ty, dst, func_name@, args@)),
        LirInstr::ExternCall { ty, dst, func_name, args } =>
            line(ind, call_text(ty, if ty is Unit { None } else { dst }, func_name@, args@)),
        LirInstr::Assign { ty, dst, src } => line(ind, match ty {
            LirTy::ArrayTy { inner, size } => memcpy_array_text(dst, src, *inner, size),
            _ => assign_text(dst, src),
        }),
        LirInstr::AggregateCopy { ty, dst, src } => line(ind, match ty {
            LirTy::ArrayTy { inner, size } => memcpy_array_text(dst, src, *inner, size),
            LirTy::StructType(name) | LirTy::UnionType(name) =>
                "memcpy("@ + operand_text(dst) + ", "@ + operand_text(src) + ", sizeof("@ + name@ + "));"@,
            _ => assign_text(dst, src),
        }),
        LirInstr::Delete { ty, src, should_free } => dtor_text(ty, src, ind)
            + (if should_free { line(ind, "free("@ + operand_text(src) + ");"@) } else { Seq::<char>::empty() }),
        LirInstr::Construct { ty, dst, args, ctor_kind } => line(ind, construct_text(ty, dst, args@, ctor_kind@)),
        LirInstr::HeapAllocCopy { ty, dst, src } => line(ind, heap_alloc_text(ty, dst, src)),
        LirInstr::ConstructArray { ty, dst, size } => match ty {
            LirTy::ArrayTy { inner, .. } => line(ind, trim_stars(c_type(*inner)).push(' ') + operand_text(dst)
                + seq!['['] + nat_text(size as nat) + "] = {0};"@),
            _ => Seq::<char>::empty(),
        },
        LirInstr::ConstructUnion { ty, dst, field_values } => line(ind, trim_stars(c_type(ty)).push(' ')
            + operand_text(dst) + " = { "@ + join(field_inits(field_values@), ", "@) + " };"@),
        LirInstr::Cast { ty, from, dst, src } => if !same_ty(ty, from) {
            line(ind, (c_type(ty).push(' ') + operand_text(dst) + " = ("@ + c_type(ty)).push(')')
                + operand_text(src).push(';'))
        } else {
            line(ind, "//No-op cast, needs to be removed"@) + line(ind, unary_text(ty, dst, src, " = "@))
        },
        LirInstr::Index { .. } | LirInstr::FieldAccess { .. } => Seq::<char>::empty(),
    }
}


pub open spec fn term_ok(t: LirTerminator) -> bool {
    match t {
        LirTerminator::Return { value } => value matches Some(v) ==> operand_ok(v),
        LirTerminator::BranchIf { condition, .. } => operand_ok(condition),
        _ => true,
    }
}

/// The text written for a terminator at indentation `ind`; a missing terminator writes
/// nothing.
pub open spec fn term_text(t: LirTerminator, ind: nat) -> Seq<char> {
    match t {
        LirTerminator::Return { value } => match value {
            Some(v) => line(ind, "return "@ + operand_text(v).push(';')),
            None => line(ind, "return;"@),
        },
        LirTerminator::BranchIf { condition, then_label, else_label } =>
            line(ind, "if ("@ + operand_text(condition) + ") {"@)
            + line(ind + 1, "goto "@ + then_label@.push(';'))
            + line(ind, "}"@)
            + line(ind, "else {"@)
            + line(ind + 1, "goto "@ + else_label@.push(';'))
            + line(ind, "}"@),
        LirTerminator::Branch { target } => line(ind, "goto "@ + target@.push(';')),
        LirTerminator::Halt => line(ind, "exit(0);"@),
        LirTerminator::Unterminated => Seq::<char>::empty(),
    }
}

pub open spec fn block_ok(b: LirBlock) -> bool {
    &&& forall|k: int| 0 <= k < b.instructions@.len() ==> #[trigger] instr_ok(b.instructions@[k])
    &&& term_ok(b.terminator)
}

pub open spec fn instrs_text(s: Seq<LirInstr>, ind: nat) -> Seq<char>
    decreases s.len(),
{
    if s.len() == 0 {
        Seq::<char>::empty()
    } else {
        instrs_text(s.drop_last(), ind) + instr_text(s.last(), ind)
    }
}

/// A block at indentation `ind`: its label one tab to the left, then its instructions
/// and its terminator.
pub open spec fn block_text(b: LirBlock, ind: nat) -> Seq<char> {
    line((ind - 1) as nat, b.label@.push(':')) + instrs_text(b.instructions@, ind) + term_text(b.terminator, ind)
}

pub open spec fn blocks_text(s: Seq<LirBlock>, ind: nat) -> Seq<char>
    decreases s.len(),
{
    if s.len() == 0 {
        Seq::<char>::empty()
    } else {
        blocks_text(s.drop_last(), ind) + block_text(s.last(), ind)
    }
}

/// The declaration of the argument at position `i`; array arguments keep their size.
pub open spec fn arg_decl(i: nat, t: LirTy) -> Seq<char> {
    match t {
        LirTy::ArrayTy { inner, size } =>
            ((c_type(*inner) + " arg_"@ + nat_text(i)).push('[') + nat_text(size as nat)).push(']'),
        _ => c_type(t) + " arg_"@ + nat_text(i),
    }
}

pub open spec fn arg_decls(args: Seq<LirTy>) -> Seq<Seq<char>> {
    Seq::new(args.len(), |i: int| arg_decl(i as nat, args[i]))
}

/// `R name(T0 arg_0, T1 arg_1, ...)`
pub open spec fn signature_text(name: Seq<char>, args: Seq<LirTy>, ret: LirTy) -> Seq<char> {
    ((c_type(ret).push(' ') + name).push('(') + join(arg_decls(args), ", "@)).push(')')
}

pub open spec fn return_ty(f: LirFunction) -> LirTy {
    match f.return_type {
        Some(t) => t,
        None => LirTy::Unit,
    }
}

pub open spec fn function_ok(f: LirFunction) -> bool {
    forall|k: int| 0 <= k < f.blocks@.len() ==> #[trigger] block_ok(f.blocks@[k])
}

/// The prototype a function puts in the header.
pub open spec fn prototype_text(f: LirFunction, ind: nat) -> Seq<char> {
    line(ind, signature_text(f.name@, f.args@, return_ty(f)).push(';'))
}

/// The definition a function puts in the C file.
pub open spec fn function_text(f: LirFunction, ind: nat) -> Seq<char> {
    line(ind, signature_text(f.name@, f.args@, return_ty(f)) + " {"@)
        + blocks_text(f.blocks@, ind + 1)
        + line(ind, "}\n"@)
}

pub open spec fn concat(parts: Seq<Seq<char>>) -> Seq<char>
    decreases parts.len(),
{
    if parts.len() == 0 {
        Seq::<char>::empty()
    } else {
        concat(parts.drop_last()) + parts.last()
    }
}

/// A union member line.
pub open spec fn variant_decl(v: (String, LirTy)) -> Seq<char> {
    (seq!['\t'] + c_type(v.1)).push(' ') + v.0@ + ";\n"@
}

/// A struct member line; array members keep their size.
pub open spec fn field_decl(f: (String, LirTy)) -> Seq<char> {
    match f.1 {
        LirTy::ArrayTy { inner, size } =>
            ((seq!['\t'] + c_type(*inner)).push(' ') + f.0@).push('[') + nat_text(size as nat) + "];\n"@,
        _ => (seq!['\t'] + c_type(f.1)).push(' ') + f.0@ + ";\n"@,
    }
}

pub open spec fn union_def(u: LirUnion) -> Seq<char> {
    "typedef union "@ + u.name@ + " {\n"@
        + concat(u.variants@.map_values(|v: (String, LirTy)| variant_decl(v)))
        + "} "@ + u.name@ + ";\n\n"@
}

pub open spec fn struct_def(st: LirStruct) -> Seq<char> {
    "typedef struct "@ + st.name@ + " {\n"@
        + concat(st.fields@.map_values(|f: (String, LirTy)| field_decl(f)))
        + "} "@ + st.name@ + ";\n\n"@
}

/// `typedef <kind> n n;`
pub open spec fn typedef_text(kind: Seq<char>, n: Seq<char>) -> Seq<char> {
    ("typedef "@ + kind).push(' ') + n.push(' ') + n.push(';')
}

/// `rest` with a typedef line for each name put on top in turn, so that the last name
/// ends first.
pub open spec fn typedefs_on_top(kind: Seq<char>, names: Seq<Seq<char>>, rest: Seq<char>) -> Seq<char>
    decreases names.len(),
{
    if names.len() == 0 {
        rest
    } else {
        typedef_text(kind, names.last()).push('\n') + typedefs_on_top(kind, names.drop_last(), rest)
    }
}

/// The header after the union definitions: each union is appended, then a `typedef union`
/// line for every struct name known so far is put on top.
pub open spec fn header_after_unions(h: Seq<char>, struct_names: Seq<Seq<char>>, ind: nat, us: Seq<LirUnion>) -> Seq<char>
    decreases us.len(),
{
    if us.len() == 0 {
        h
    } else {
        typedefs_on_top("union"@, struct_names,
            header_after_unions(h, struct_names, ind, us.drop_last()) + line(ind, union_def(us.last())))
    }
}

pub open spec fn struct_names_of(ss: Seq<LirStruct>) -> Seq<Seq<char>> {
    ss.map_values(|st: LirStruct| st.name@)
}

pub open spec fn union_names_of(us: Seq<LirUnion>) -> Seq<Seq<char>> {
    us.map_values(|u: LirUnion| u.name@)
}

/// The header after the struct definitions: each struct is appended and its name
/// recorded, then a `typedef struct` line for every struct name known so far is put on
/// top.
pub open spec fn header_after_structs(h: Seq<char>, names: Seq<Seq<char>>, ind: nat, ss: Seq<LirStruct>) -> Seq<char>
    decreases ss.len(),
{
    if ss.len() == 0 {
        h
    } else {
        typedefs_on_top("struct"@, names + struct_names_of(ss),
            header_after_structs(h, names, ind, ss.drop_last()) + line(ind, struct_def(ss.last())))
    }
}

pub open spec fn prototypes_text(fs: Seq<LirFunction>, ind: nat) -> Seq<char>
    decreases fs.len(),
{
    if fs.len() == 0 {
        Seq::<char>::empty()
    } else {
        prototypes_text(fs.drop_last(), ind) + prototype_text(fs.last(), ind)
    }
}

pub open spec fn functions_text(fs: Seq<LirFunction>, ind: nat) -> Seq<char>
    decreases fs.len(),
{
    if fs.len() == 0 {
        Seq::<char>::empty()
    } else {
        functions_text(fs.drop_last(), ind) + function_text(fs.last(), ind)
    }
}

pub open spec fn program_ok(p: LirProgram) -> bool {
    forall|k: int| 0 <= k < p.functions@.len() ==> #[trigger] function_ok(p.functions@[k])
}

/// A pointer type is always spelled with a trailing `*`.
pub proof fn lemma_pointer_ends_with_star(is_const: bool, inner: LirTy)
    ensures
        ends_with_star(c_type(LirTy::Ptr { is_const, inner: Box::new(inner) })),
{
    let it = c_type(inner);
    if !ends_with_star(it) {
        let p = (if is_const { "const "@ } else { Seq::<char>::empty() }) + it.push('*');
        assert(p.last() == '*');
    }
}

/// No double pointers: a pointer to a pointer is spelled as the inner pointer.
pub proof fn lemma_no_double_pointers(outer_const: bool, inner_const: bool, t: LirTy)
    ensures
        c_type(LirTy::Ptr { is_const: outer_const, inner: Box::new(LirTy::Ptr { is_const: inner_const, inner: Box::new(t) }) })
            == c_type(LirTy::Ptr { is_const: inner_const, inner: Box::new(t) }),
{
    lemma_pointer_ends_with_star(inner_const, t);
}

/// Only the C file differs between the two generator states.
pub open spec fn only_file_changed(a: CCodeGen, b: CCodeGen) -> bool {
    &&& a.c_header == b.c_header
    &&& a.struct_names == b.struct_names
    &&& a.union_names == b.union_names
    &&& a.indent_level == b.indent_level
}

/// The generator: the C file and header written so far, the names of the structs and
/// unions defined so far, and the current indentation.
pub struct CCodeGen {
    pub c_file: String,
    /// Function prototypes and all struct and union definitions.
    pub c_header: String,
    pub struct_names: Vec<String>,
    pub union_names: Vec<String>,
    /// Tabs in front of each line written to the C file.
    pub indent_level: usize,
}

impl CCodeGen {
    /// An empty generator.
    pub fn new() -> (r: Self)
        ensures
            r.c_file@ == Seq::<char>::empty(),
            r.c_header@ == Seq::<char>::empty(),
            r.struct_names@.len() == 0,
            r.union_names@.len() == 0,
            r.indent_level == 0,
    {
        CCodeGen {
            c_file: String::new(),
            c_header: String::new(),
            struct_names: Vec::new(),
            union_names: Vec::new(),
            indent_level: 0,
        }
    }

    /// Appends one line: `indent_level` tabs, `content`, a newline.
    pub fn write_to_file(file: &mut String, content: &str, indent_level: usize)
        ensures
            final(file)@ == old(file)@ + line(indent_level as nat, content@),
    {
        let mut i: usize = 0;
        while i < indent_level
            invariant
                i <= indent_level,
                file@ == old(file)@ + tabs(i as nat),
            decreases indent_level - i,
        {
            proof {
                assert(tabs((i + 1) as nat) =~= tabs(i as nat).push('\t'));
            }
            file.push('\t');
            i = i + 1;
        }
        file.append(content);
        file.push('\n');
        proof {
            assert(file@ =~= old(file)@ + line(indent_level as nat, content@));
        }
    }

    /// Puts `content` and a newline before everything written so far.
    pub fn write_to_top(file: &mut String, content: &str)
        ensures
            final(file)@ == content@.push('\n') + old(file)@,
    {
        let mut entry = String::from_str(content);
        entry.push('\n');
        entry.append(file.as_str());
        *file = entry;
    }

    /// The C spelling of a type.
    pub fn codegen_type(&mut self, ty: &LirTy) -> (r: String)
        ensures
            r@ == c_type(*ty),
            *final(self) == *old(self),
        decreases ty,
    {
        match ty {
            LirTy::Unit => String::from_str("void"),
            LirTy::Int64 => String::from_str("int64_t"),
            LirTy::Int32 => String::from_str("int32_t"),
            LirTy::Int16 => String::from_str("int16_t"),
            LirTy::Int8 => String::from_str("int8_t"),
            LirTy::Float32 => String::from_str("float"),
            LirTy::Float64 => String::from_str("double"),
            LirTy::UInt64 => String::from_str("uint64_t"),
            LirTy::UInt32 => String::from_str("uint32_t"),
            LirTy::UInt16 => String::from_str("uint16_t"),
            LirTy::UInt8 => String::from_str("uint8_t"),
            LirTy::Boolean => String::from_str("bool"),
            LirTy::Char => String::from_str("uint32_t"),
            LirTy::Str => String::from_str("char*"),
            LirTy::Ptr { is_const, inner } => {
                let inner_type = self.codegen_type(inner);
                let n = inner_type.as_str().unicode_len();
                if n > 0 && inner_type.as_str().get_char(n - 1) == '*' {
                    inner_type
                } else {
                    let mut out = if *is_const {
                        String::from_str("const ")
                    } else {
                        String::new()
                    };
                    out.append(inner_type.as_str());
                    out.push('*');
                    out
                }
            },
            LirTy::StructType(name) => name.clone(),
            LirTy::UnionType(name) => name.clone(),
            LirTy::ArrayTy { inner, size } => {
                let mut out = self.codegen_type(inner);
                out.push('[');
                push_usize(&mut out, *size);
                out.push(']');
                out
            },
        }
    }



    /// Writes the C form of a block terminator to the C file.
    pub fn codegen_terminator(&mut self, terminator: &LirTerminator)
        requires
            term_ok(*terminator),
            old(self).indent_level < usize::MAX,
        ensures
            final(self).c_file@ == old(self).c_file@ + term_text(*terminator, old(self).indent_level as nat),
            only_file_changed(*old(self), *final(self)),
    {
        let ind = self.indent_level;
        match terminator {
            LirTerminator::Return { value } => {
                match value {
                    Some(val) => {
                        let value_str = self.codegen_operand(val);
                        let mut l = String::from_str("return ");
                        l.append(value_str.as_str());
                        l.push(';');
                        Self::write_to_file(&mut self.c_file, l.as_str(), ind);
                    },
                    None => {
                        Self::write_to_file(&mut self.c_file, "return;", ind);
                    },
                }
            },
            LirTerminator::BranchIf { condition, then_label, else_label } => {
                let condition_str = self.codegen_operand(condition);
                let mut l = String::from_str("if (");
                l.append(condition_str.as_str());
                l.append(") {");
                Self::write_to_file(&mut self.c_file, l.as_str(), ind);
                let mut then_line = String::from_str("goto ");
                then_line.append(then_label.as_str());
                then_line.push(';');
                Self::write_to_file(&mut self.c_file, then_line.as_str(), ind + 1);
                Self::write_to_file(&mut self.c_file, "}", ind);
                Self::write_to_file(&mut self.c_file, "else {", ind);
                let mut else_line = String::from_str("goto ");
                else_line.append(else_label.as_str());
                else_line.push(';');
                Self::write_to_file(&mut self.c_file, else_line.as_str(), ind + 1);
                Self::write_to_file(&mut self.c_file, "}", ind);
            },
            LirTerminator::Branch { target } => {
                let mut l = String::from_str("goto ");
                l.append(target.as_str());
                l.push(';');
                Self::write_to_file(&mut self.c_file, l.as_str(), ind);
            },
            LirTerminator::Halt => {
                Self::write_to_file(&mut self.c_file, "exit(0);", ind);
            },
            LirTerminator::Unterminated => {},
        }
        proof {
            assert(self.c_file@ =~= old(self).c_file@ + term_text(*terminator, ind as nat));
        }
    }

    /// Writes a block: its label one tab to the left of the current indentation, then its
    /// instructions and its terminator.
    pub fn codegen_block(&mut self, block: &LirBlock)
        requires
            block_ok(*block),
            1 <= old(self).indent_level < usize::MAX,
        ensures
            final(self).c_file@ == old(self).c_file@ + block_text(*block, old(self).indent_level as nat),
            only_file_changed(*old(self), *final(self)),
    {
        let ind = self.indent_level;
        let mut label = block.label.clone();
        label.push(':');
        Self::write_to_file(&mut self.c_file, label.as_str(), ind - 1);
        let ghost after_label = self.c_file@;
        let ghost start = *self;
        let mut i: usize = 0;
        while i < block.instructions.len()
            invariant
                i <= block.instructions.len(),
                block_ok(*block),
                self.indent_level == ind,
                only_file_changed(start, *self),
                self.c_file@ == after_label + instrs_text(block.instructions@.subrange(0, i as int), ind as nat),
            decreases block.instructions.len() - i,
        {
            self.codegen_instruction(&block.instructions[i]);
            proof {
                assert(block.instructions@.subrange(0, i + 1).drop_last() =~= block.instructions@.subrange(0, i as int));
                assert(self.c_file@ =~= after_label + instrs_text(block.instructions@.subrange(0, i + 1), ind as nat));
            }
            i = i + 1;
        }
        proof {
            assert(block.instructions@.subrange(0, block.instructions.len() as int) =~= block.instructions@);
        }
        self.codegen_terminator(&block.terminator);
        proof {
            assert(self.c_file@ =~= old(self).c_file@ + block_text(*block, ind as nat));
        }
    }

    /// `R name(T0 arg_0, T1 arg_1, ...)`
    pub fn codegen_signature(&mut self, name: &str, args: &[LirTy], ret: &LirTy) -> (r: String)
        ensures
            r@ == signature_text(name@, args@, *ret),
            *final(self) == *old(self),
    {
        let ghost start = *self;
        let mut prototype = self.codegen_type(ret);
        prototype.push(' ');
        prototype.append(name);
        prototype.push('(');
        let ghost head = prototype@;
        let mut i: usize = 0;
        while i < args.len()
            invariant
                i <= args.len(),
                *self == start,
                prototype@ == head + join(arg_decls(args@.subrange(0, i as int)), ", "@),
            decreases args.len() - i,
        {
            let arg_sig = match &args[i] {
                LirTy::ArrayTy { inner, size } => {
                    let mut a = self.codegen_type(inner);
                    a.append(" arg_");
                    push_usize(&mut a, i);
                    a.push('[');
                    push_usize(&mut a, *size);
                    a.push(']');
                    a
                },
                _ => {
                    let mut a = self.codegen_type(&args[i]);
                    a.append(" arg_");
                    push_usize(&mut a, i);
                    a
                },
            };
            proof {
                assert(arg_sig@ =~= arg_decl(i as nat, args@[i as int]));
                let d = arg_decls(args@.subrange(0, i + 1));
                assert(d.drop_last() =~= arg_decls(args@.subrange(0, i as int)));
                assert(d.last() == arg_sig@);
            }
            if i > 0 {
                prototype.append(", ");
            } else {
                proof {
                    assert(arg_decls(args@.subrange(0, 0)) =~= Seq::<Seq<char>>::empty());
                }
            }
            prototype.append(arg_sig.as_str());
            proof {
                assert(prototype@ =~= head + join(arg_decls(args@.subrange(0, i + 1)), ", "@));
            }
            i = i + 1;
        }
        proof {
            assert(args@.subrange(0, args.len() as int) =~= args@);
        }
        prototype.push(')');
        prototype
    }

    /// Writes a function: its prototype to the header, its definition to the C file.
    pub fn codegen_function(&mut self, func: &LirFunction)
        requires
            function_ok(*func),
            old(self).indent_level + 2 <= usize::MAX,
        ensures
            final(self).c_file@ == old(self).c_file@ + function_text(*func, old(self).indent_level as nat),
            final(self).c_header@ == old(self).c_header@ + prototype_text(*func, old(self).indent_level as nat),
            final(self).struct_names == old(self).struct_names,
            final(self).union_names == old(self).union_names,
            final(self).indent_level == old(self).indent_level,
    {
        let ind = self.indent_level;
        let unit = LirTy::Unit;
        let ret: &LirTy = match &func.return_type {
            Some(t) => t,
            None => &unit,
        };
        let signature = self.codegen_signature(func.name.as_str(), func.args.as_slice(), ret);
        let mut proto = signature.clone();
        proto.push(';');
        Self::write_to_file(&mut self.c_header, proto.as_str(), ind);
        let mut open_line = signature;
        open_line.append(" {");
        Self::write_to_file(&mut self.c_file, open_line.as_str(), ind);
        self.indent_level = ind + 1;
        let ghost after_open = self.c_file@;
        let ghost start = *self;
        let mut i: usize = 0;
        while i < func.blocks.len()
            invariant
                i <= func.blocks.len(),
                function_ok(*func),
                self.indent_level == ind + 1,
                ind + 2 <= usize::MAX,
                only_file_changed(start, *self),
                self.c_file@ == after_open + blocks_text(func.blocks@.subrange(0, i as int), (ind + 1) as nat),
            decreases func.blocks.len() - i,
        {
            self.codegen_block(&func.blocks[i]);
            proof {
                assert(func.blocks@.subrange(0, i + 1).drop_last() =~= func.blocks@.subrange(0, i as int));
                assert(self.c_file@ =~= after_open + blocks_text(func.blocks@.subrange(0, i + 1), (ind + 1) as nat));
            }
            i = i + 1;
        }
        proof {
            assert(func.blocks@.subrange(0, func.blocks.len() as int) =~= func.blocks@);
        }
        self.indent_level = ind;
        Self::write_to_file(&mut self.c_file, "}\n", ind);
        proof {
            assert(self.c_file@ =~= old(self).c_file@ + function_text(*func, ind as nat));
            assert(self.c_header@ =~= old(self).c_header@ + prototype_text(*func, ind as nat));
        }
    }

    /// Appends a union definition to the header and records its name.
    pub fn codegen_union(&mut self, union: &LirUnion)
        ensures
            final(self).c_header@ == old(self).c_header@ + line(old(self).indent_level as nat, union_def(*union)),
            final(self).union_names@ == old(self).union_names@.push(union.name),
            final(self).c_file == old(self).c_file,
            final(self).struct_names == old(self).struct_names,
            final(self).indent_level == old(self).indent_level,
    {
        let ghost start = *self;
        let mut union_def_str = String::from_str("typedef union ");
        union_def_str.append(union.name.as_str());
        union_def_str.append(" {\n");
        let ghost head = union_def_str@;
        let mut i: usize = 0;
        while i < union.variants.len()
            invariant
                i <= union.variants.len(),
                *self == start,
                union_def_str@ == head + concat(union.variants@.subrange(0, i as int).map_values(|v: (String, LirTy)| variant_decl(v))),
            decreases union.variants.len() - i,
        {
            let variant_type_str = self.codegen_type(&union.variants[i].1);
            let ghost before = union_def_str@;
            union_def_str.push('\t');
            union_def_str.append(variant_type_str.as_str());
            union_def_str.push(' ');
            union_def_str.append(union.variants[i].0.as_str());
            union_def_str.append(";\n");
            proof {
                let m = union.variants@.subrange(0, i + 1).map_values(|v: (String, LirTy)| variant_decl(v));
                assert(m.drop_last() =~= union.variants@.subrange(0, i as int).map_values(|v: (String, LirTy)| variant_decl(v)));
                assert(union_def_str@ =~= before + variant_decl(union.variants@[i as int]));
            }
            i = i + 1;
        }
        proof {
            assert(union.variants@.subrange(0, union.variants.len() as int) =~= union.variants@);
        }
        union_def_str.append("} ");
        union_def_str.append(union.name.as_str());
        union_def_str.append(";\n\n");
        self.union_names.push(union.name.clone());
        let ind = self.indent_level;
        Self::write_to_file(&mut self.c_header, union_def_str.as_str(), ind);
        proof {
            assert(union_def_str@ =~= union_def(*union));
        }
    }

    /// Appends a struct definition to the header and records its name.
    pub fn codegen_struct(&mut self, strukt: &LirStruct)
        ensures
            final(self).c_header@ == old(self).c_header@ + line(old(self).indent_level as nat, struct_def(*strukt)),
            final(self).struct_names@ == old(self).struct_names@.push(strukt.name),
            final(self).c_file == old(self).c_file,
            final(self).union_names == old(self).union_names,
            final(self).indent_level == old(self).indent_level,
    {
        let ghost start = *self;
        let mut struct_def_str = String::from_str("typedef struct ");
        struct_def_str.append(strukt.name.as_str());
        struct_def_str.append(" {\n");
        let ghost head = struct_def_str@;
        let mut i: usize = 0;
        while i < strukt.fields.len()
            invariant
                i <= strukt.fields.len(),
                *self == start,
                struct_def_str@ == head + concat(strukt.fields@.subrange(0, i as int).map_values(|f: (String, LirTy)| field_decl(f))),
            decreases strukt.fields.len() - i,
        {
            let ghost before = struct_def_str@;
            match &strukt.fields[i].1 {
                LirTy::ArrayTy { inner, size } => {
                    let t = self.codegen_type(inner);
                    struct_def_str.push('\t');
                    struct_def_str.append(t.as_str());
                    struct_def_str.push(' ');
                    struct_def_str.append(strukt.fields[i].0.as_str());
                    struct_def_str.push('[');
                    push_usize(&mut struct_def_str, *size);
                    struct_def_str.append("];\n");
                },
                _ => {
                    let t = self.codegen_type(&strukt.fields[i].1);
                    struct_def_str.push('\t');
                    struct_def_str.append(t.as_str());
                    struct_def_str.push(' ');
                    struct_def_str.append(strukt.fields[i].0.as_str());
                    struct_def_str.append(";\n");
                },
            }
            proof {
                let m = strukt.fields@.subrange(0, i + 1).map_values(|f: (String, LirTy)| field_decl(f));
                assert(m.drop_last() =~= strukt.fields@.subrange(0, i as int).map_values(|f: (String, LirTy)| field_decl(f)));
                assert(struct_def_str@ =~= before + field_decl(strukt.fields@[i as int]));
            }
            i = i + 1;
        }
        proof {
            assert(strukt.fields@.subrange(0, strukt.fields.len() as int) =~= strukt.fields@);
        }
        struct_def_str.append("} ");
        struct_def_str.append(strukt.name.as_str());
        struct_def_str.append(";\n\n");
        self.struct_names.push(strukt.name.clone());
        let ind = self.indent_level;
        Self::write_to_file(&mut self.c_header, struct_def_str.as_str(), ind);
        proof {
            assert(struct_def_str@ =~= struct_def(*strukt));
        }
    }


    /// Generates the whole program: union and struct definitions (each followed by the
    /// typedef lines put on top of the header), then every function; finally puts the
    /// include lines on top of the C file and `portable_header` on top of the header.
    pub fn emit_c(&mut self, program: &LirProgram, portable_header: &str) -> (r: Result<(), String>)
        requires
            program_ok(*program),
            old(self).indent_level + 2 <= usize::MAX,
        ensures
            r is Ok,
            final(self).c_file@ == STD_INCLUDES@.push('\n') + header_include().push('\n') + old(self).c_file@
                + functions_text(program.functions@, old(self).indent_level as nat),
            final(self).c_header@ == portable_header@.push('\n') + header_after_structs(
                header_after_unions(old(self).c_header@, views(old(self).struct_names@), old(self).indent_level as nat, program.unions@),
                views(old(self).struct_names@), old(self).indent_level as nat, program.structs@)
                + prototypes_text(program.functions@, old(self).indent_level as nat),
            views(final(self).struct_names@) == views(old(self).struct_names@) + struct_names_of(program.structs@),
            views(final(self).union_names@) == views(old(self).union_names@) + union_names_of(program.unions@),
            final(self).indent_level == old(self).indent_level,
    {
        let ind = self.indent_level;
        let ghost h0 = self.c_header@;
        let ghost f0 = self.c_file@;
        let ghost sn0 = views(self.struct_names@);
        let ghost un0 = views(self.union_names@);
        let mut i: usize = 0;
        while i < program.unions.len()
            invariant
                i <= program.unions.len(),
                self.indent_level == ind,
                self.c_file@ == f0,
                views(self.struct_names@) == sn0,
                views(self.union_names@) == un0 + union_names_of(program.unions@.subrange(0, i as int)),
                self.c_header@ == header_after_unions(h0, sn0, ind as nat, program.unions@.subrange(0, i as int)),
            decreases program.unions.len() - i,
        {
            let ghost un_before = self.union_names@;
            self.codegen_union(&program.unions[i]);
            let ghost base = self.c_header@;
            let ghost un_after = self.union_names@;
            let mut j: usize = 0;
            while j < self.struct_names.len()
                invariant
                    j <= self.struct_names.len(),
                    self.indent_level == ind,
                    self.c_file@ == f0,
                    self.union_names@ == un_after,
                    views(self.struct_names@) == sn0,
                    self.c_header@ == typedefs_on_top("union"@, sn0.subrange(0, j as int), base),
                decreases self.struct_names.len() - j,
            {
                let t = typedef_string("union", &self.struct_names[j]);
                Self::write_to_top(&mut self.c_header, t.as_str());
                proof {
                    assert(sn0.subrange(0, j + 1).drop_last() =~= sn0.subrange(0, j as int));
                    assert(sn0[j as int] == self.struct_names@[j as int]@);
                }
                j = j + 1;
            }
            proof {
                assert(sn0.subrange(0, sn0.len() as int) =~= sn0);
                let us = program.unions@.subrange(0, i + 1);
                assert(us.drop_last() =~= program.unions@.subrange(0, i as int));
                assert(views(un_before.push(program.unions@[i as int].name)) =~= views(un_before).push(program.unions@[i as int].name@));
                assert(union_names_of(us) =~= union_names_of(program.unions@.subrange(0, i as int)).push(program.unions@[i as int].name@));
            }
            i = i + 1;
        }
        proof {
            assert(program.unions@.subrange(0, program.unions.len() as int) =~= program.unions@);
        }
        let ghost h1 = self.c_header@;
        let mut i: usize = 0;
        while i < program.structs.len()
            invariant
                i <= program.structs.len(),
                self.indent_level == ind,
                self.c_file@ == f0,
                views(self.struct_names@) == sn0 + struct_names_of(program.structs@.subrange(0, i as int)),
                views(self.union_names@) == un0 + union_names_of(program.unions@),
                self.c_header@ == header_after_structs(h1, sn0, ind as nat, program.structs@.subrange(0, i as int)),
            decreases program.structs.len() - i,
        {
            let ghost sn_before = self.struct_names@;
            self.codegen_struct(&program.structs[i]);
            let ghost names = views(self.struct_names@);
            proof {
                let ss = program.structs@.subrange(0, i + 1);
                assert(ss.drop_last() =~= program.structs@.subrange(0, i as int));
                assert(views(sn_before.push(program.structs@[i as int].name)) =~= views(sn_before).push(program.structs@[i as int].name@));
                assert(struct_names_of(ss) =~= struct_names_of(program.structs@.subrange(0, i as int)).push(program.structs@[i as int].name@));
                assert(names =~= sn0 + struct_names_of(ss));
            }
            let ghost base = self.c_header@;
            let mut j: usize = 0;
            while j < self.struct_names.len()
                invariant
                    j <= self.struct_names.len(),
                    self.indent_level == ind,
                    self.c_file@ == f0,
                    views(self.union_names@) == un0 + union_names_of(program.unions@),
                    views(self.struct_names@) == names,
                    self.c_header@ == typedefs_on_top("struct"@, names.subrange(0, j as int), base),
                decreases self.struct_names.len() - j,
            {
                let t = typedef_string("struct", &self.struct_names[j]);
                Self::write_to_top(&mut self.c_header, t.as_str());
                proof {
                    assert(names.subrange(0, j + 1).drop_last() =~= names.subrange(0, j as int));
                    assert(names[j as int] == self.struct_names@[j as int]@);
                }
                j = j + 1;
            }
            proof {
                assert(names.subrange(0, names.len() as int) =~= names);
            }
            i = i + 1;
        }
        proof {
            assert(program.structs@.subrange(0, program.structs.len() as int) =~= program.structs@);
        }
        let ghost h2 = self.c_header@;
        let mut i: usize = 0;
        while i < program.functions.len()
            invariant
                i <= program.functions.len(),
                program_ok(*program),
                self.indent_level == ind,
                ind + 2 <= usize::MAX,
                self.c_file@ == f0 + functions_text(program.functions@.subrange(0, i as int), ind as nat),
                self.c_header@ == h2 + prototypes_text(program.functions@.subrange(0, i as int), ind as nat),
                views(self.struct_names@) == sn0 + struct_names_of(program.structs@),
                views(self.union_names@) == un0 + union_names_of(program.unions@),
            decreases program.functions.len() - i,
        {
            self.codegen_function(&program.functions[i]);
            proof {
                let fs = program.functions@.subrange(0, i + 1);
                assert(fs.drop_last() =~= program.functions@.subrange(0, i as int));
                assert(self.c_file@ =~= f0 + functions_text(fs, ind as nat));
                assert(self.c_header@ =~= h2 + prototypes_text(fs, ind as nat));
            }
            i = i + 1;
        }
        proof {
            assert(program.functions@.subrange(0, program.functions.len() as int) =~= program.functions@);
        }
        let include_line = header_include_string();
        Self::write_to_top(&mut self.c_file, include_line.as_str());
        Self::write_to_top(&mut self.c_header, portable_header);
        Self::write_to_top(&mut self.c_file, STD_INCLUDES);
        proof {
            assert(self.c_file@ =~= STD_INCLUDES@.push('\n') + header_include().push('\n') + f0
                + functions_text(program.functions@, ind as nat));
        }
        Ok(())
    }

    fn binary_line(&mut self, ty: &LirTy, dest: &LirOperand, a: &LirOperand, b: &LirOperand, sym: &str) -> (r: String)
        requires
            operand_ok(*dest),
            operand_ok(*a),
            operand_ok(*b),
        ensures
            r@ == binary_text(*ty, *dest, *a, *b, sym@),
            *final(self) == *old(self),
    {
        let dest_str = self.codegen_operand(dest);
        let a_str = self.codegen_operand(a);
        let b_str = self.codegen_operand(b);
        let mut out = self.codegen_type(ty);
        out.push(' ');
        out.append(dest_str.as_str());
        out.append(" = ");
        out.append(a_str.as_str());
        out.append(sym);
        out.append(b_str.as_str());
        out.push(';');
        proof {
            assert(out@ =~= binary_text(*ty, *dest, *a, *b, sym@));
        }
        out
    }

    fn unary_line(&mut self, ty: &LirTy, dest: &LirOperand, src: &LirOperand, prefix: &str) -> (r: String)
        requires
            operand_ok(*dest),
            operand_ok(*src),
        ensures
            r@ == unary_text(*ty, *dest, *src, prefix@),
            *final(self) == *old(self),
    {
        let dest_str = self.codegen_operand(dest);
        let src_str = self.codegen_operand(src);
        let mut out = self.codegen_type(ty);
        out.push(' ');
        out.append(dest_str.as_str());
        out.append(prefix);
        out.append(src_str.as_str());
        out.push(';');
        proof {
            assert(out@ =~= unary_text(*ty, *dest, *src, prefix@));
        }
        out
    }

    /// The spellings of the operands, in order.
    fn operand_strings(&mut self, args: &Vec<LirOperand>) -> (r: Vec<String>)
        requires
            ops_ok(args@),
        ensures
            views(r@) == operand_texts(args@),
            *final(self) == *old(self),
    {
        let ghost start = *self;
        let mut out: Vec<String> = Vec::new();
        let mut i: usize = 0;
        while i < args.len()
            invariant
                i <= args.len(),
                ops_ok(args@),
                *self == start,
                views(out@) =~= operand_texts(args@.subrange(0, i as int)),
            decreases args.len() - i,
        {
            let t = self.codegen_operand(&args[i]);
            proof {
                assert(views(out@.push(t)) =~= views(out@).push(t@));
                assert(operand_texts(args@.subrange(0, i + 1)) =~= operand_texts(args@.subrange(0, i as int)).push(operand_text(args@[i as int])));
            }
            out.push(t);
            i = i + 1;
        }
        proof {
            assert(args@.subrange(0, args.len() as int) =~= args@);
        }
        out
    }

    fn call_line(&mut self, ty: &LirTy, dst: &Option<LirOperand>, func_name: &String, args: &Vec<LirOperand>) -> (r: String)
        requires
            *dst matches Some(d) ==> operand_ok(d),
            ops_ok(args@),
        ensures
            r@ == call_text(*ty, *dst, func_name@, args@),
            *final(self) == *old(self),
    {
        let args_str = self.operand_strings(args);
        let args_joined = join_strings(&args_str, ", ");
        let mut out = match dst {
            Some(dest_op) => {
                let dest_str = self.codegen_operand(dest_op);
                let mut o = self.codegen_type(ty);
                o.push(' ');
                o.append(dest_str.as_str());
                o.append(" = ");
                o
            },
            None => String::new(),
        };
        out.append(func_name.as_str());
        out.push('(');
        out.append(args_joined.as_str());
        out.append(");");
        proof {
            assert(out@ =~= call_text(*ty, *dst, func_name@, args@));
        }
        out
    }

    fn memcpy_array_line(&mut self, dst: &LirOperand, src: &LirOperand, inner: &LirTy, size: usize) -> (r: String)
        requires
            operand_ok(*dst),
            operand_ok(*src),
        ensures
            r@ == memcpy_array_text(*dst, *src, *inner, size),
            *final(self) == *old(self),
    {
        let dest_str = self.codegen_operand(dst);
        let src_str = self.codegen_operand(src);
        let type_str = self.codegen_type(inner);
        let mut out = String::from_str("memcpy(");
        out.append(dest_str.as_str());
        out.append(", ");
        out.append(src_str.as_str());
        out.append(", sizeof(");
        out.append(type_str.as_str());
        out.append(") * ");
        push_usize(&mut out, size);
        out.append(");");
        proof {
            assert(out@ =~= memcpy_array_text(*dst, *src, *inner, size));
        }
        out
    }

    fn assign_line(&mut self, dst: &LirOperand, src: &LirOperand) -> (r: String)
        requires
            operand_ok(*dst),
            operand_ok(*src),
        ensures
            r@ == assign_text(*dst, *src),
            *final(self) == *old(self),
    {
        let mut out = self.codegen_operand(dst);
        let src_str = self.codegen_operand(src);
        out.append(" = ");
        out.append(src_str.as_str());
        out.push(';');
        proof {
            assert(out@ =~= assign_text(*dst, *src));
        }
        out
    }

    fn construct_line(&mut self, ty: &LirTy, dst: &LirOperand, args: &Vec<LirOperand>, ctor_kind: &String) -> (r: String)
        requires
            operand_ok(*dst),
            ops_ok(args@),
        ensures
            r@ == construct_text(*ty, *dst, args@, ctor_kind@),
            *final(self) == *old(self),
    {
        let dest_str = self.codegen_operand(dst);
        let type_str = self.codegen_type(ty);
        let type_name_str = trim_end_stars(&type_str);
        let rest = self.operand_strings(args);
        let mut all: Vec<String> = Vec::new();
        let mut first = String::new();
        first.push('&');
        first.append(dest_str.as_str());
        all.push(first);
        let mut i: usize = 0;
        while i < rest.len()
            invariant
                i <= rest.len(),
                views(all@) =~= seq![seq!['&'] + dest_str@] + views(rest@.subrange(0, i as int)),
            decreases rest.len() - i,
        {
            let ghost prev = all@;
            all.push(rest[i].clone());
            proof {
                assert(views(all@) =~= views(prev).push(rest@[i as int]@));
                assert(views(rest@.subrange(0, i + 1)) =~= views(rest@.subrange(0, i as int)).push(rest@[i as int]@));
            }
            i = i + 1;
        }
        proof {
            assert(rest@.subrange(0, rest.len() as int) =~= rest@);
        }
        let joined = join_strings(&all, ", ");
        let mut out = type_str;
        out.push(' ');
        out.append(dest_str.as_str());
        out.append(" = {0};\n\t");
        out.append(type_name_str.as_str());
        out.push('_');
        out.append(ctor_kind.as_str());
        out.push('(');
        out.append(joined.as_str());
        out.push(')');
        out.push(';');
        proof {
            assert(out@ =~= construct_text(*ty, *dst, args@, ctor_kind@));
        }
        out
    }


    fn heap_alloc_line(&mut self, ty: &LirTy, dst: &LirOperand, src: &LirOperand) -> (r: String)
        requires
            operand_ok(*dst),
            operand_ok(*src),
        ensures
            r@ == heap_alloc_text(*ty, *dst, *src),
            *final(self) == *old(self),
    {
        let dest_str = self.codegen_operand(dst);
        let src_str = self.codegen_operand(src);
        let type_str = self.codegen_type(ty);
        let mut out = String::new();
        out.append(type_str.as_str());
        out.append("* ");
        out.append(dest_str.as_str());
        out.append(" = (");
        out.append(type_str.as_str());
        out.append("*)malloc(sizeof(");
        out.append(type_str.as_str());
        out.append("));\nif (");
        out.append(dest_str.as_str());
        out.append(" == NULL) {\nprintf(\"Failed to allocate memory for ");
        out.append(type_str.as_str());
        out.append("*\\n\");\nexit(1);\n}\nmemcpy(");
        out.append(dest_str.as_str());
        out.append(", &");
        out.append(src_str.as_str());
        out.append(", sizeof(");
        out.append(type_str.as_str());
        out.append("));");
        proof {
            assert(out@ =~= heap_alloc_text(*ty, *dst, *src));
        }
        out
    }

    fn union_line(&mut self, ty: &LirTy, dst: &LirOperand, field_values: &Vec<(String, LirOperand)>) -> (r: String)
        requires
            operand_ok(*dst),
            fields_ok(field_values@),
        ensures
            r@ == trim_stars(c_type(*ty)).push(' ') + operand_text(*dst) + " = { "@
                + join(field_inits(field_values@), ", "@) + " };"@,
            *final(self) == *old(self),
    {
        let ghost start = *self;
        let dest_str = self.codegen_operand(dst);
        let type_str = self.codegen_type(ty);
        let type_name_str = trim_end_stars(&type_str);
        let mut inits: Vec<String> = Vec::new();
        let mut i: usize = 0;
        while i < field_values.len()
            invariant
                i <= field_values.len(),
                fields_ok(field_values@),
                *self == start,
                views(inits@) =~= field_inits(field_values@.subrange(0, i as int)),
            decreases field_values.len() - i,
        {
            let value_str = self.codegen_operand(&field_values[i].1);
            let mut init = String::new();
            init.push('.');
            init.append(field_values[i].0.as_str());
            init.append(" = ");
            init.append(value_str.as_str());
            let ghost prev = inits@;
            inits.push(init);
            proof {
                let f = field_values@[i as int];
                assert(init@ =~= seq!['.'] + f.0@ + " = "@ + operand_text(f.1));
                assert(views(inits@) =~= views(prev).push(init@));
                assert(field_inits(field_values@.subrange(0, i + 1)) =~= field_inits(field_values@.subrange(0, i as int)).push(init@));
            }
            i = i + 1;
        }
        proof {
            assert(field_values@.subrange(0, field_values.len() as int) =~= field_values@);
        }
        let joined = join_strings(&inits, ", ");
        let mut out = type_name_str;
        out.push(' ');
        out.append(dest_str.as_str());
        out.append(" = { ");
        out.append(joined.as_str());
        out.append(" };");
        out
    }

    /// Writes the C form of an instruction to the C file, at the current indentation.
    pub fn codegen_instruction(&mut self, instr: &LirInstr)
        requires
            instr_ok(*instr),
        ensures
            final(self).c_file@ == old(self).c_file@ + instr_text(*instr, old(self).indent_level as nat),
            only_file_changed(*old(self), *final(self)),
    {
        let ind = self.indent_level;
        match instr {
            LirInstr::Add { ty, dest, a, b } => {
                let l = self.binary_line(ty, dest, a, b, " + ");
                Self::write_to_file(&mut self.c_file, l.as_str(), ind);
            },
            LirInstr::Sub { ty, dest, a, b } => {
                let l = self.binary_line(ty, dest, a, b, " - ");
                Self::write_to_file(&mut self.c_file, l.as_str(), ind);
            },
            LirInstr::Mul { ty, dest, a, b } => {
                let l = self.binary_line(ty, dest, a, b, " * ");
                Self::write_to_file(&mut self.c_file, l.as_str(), ind);
            },
            LirInstr::Div { ty, dest, a, b } => {
                let l = self.binary_line(ty, dest, a, b, " / ");
                Self::write_to_file(&mut self.c_file, l.as_str(), ind);
            },
            LirInstr::Mod { ty, dest, a, b } => {
                let l = self.binary_line(ty, dest, a, b, " % ");
                Self::write_to_file(&mut self.c_file, l.as_str(), ind);
            },
            LirInstr::LessThan { ty, dest, a, b } => {
                let l = self.binary_line(ty, dest, a, b, " < ");
                Self::write_to_file(&mut self.c_file, l.as_str(), ind);
            },
            LirInstr::LessThanOrEqual { ty, dest, a, b } => {
                let l = self.binary_line(ty, dest, a, b, " <= ");
                Self::write_to_file(&mut self.c_file, l.as_str(), ind);
            },
            LirInstr::GreaterThan { ty, dest, a, b } => {
                let l = self.binary_line(ty, dest, a, b, " > ");
                Self::write_to_file(&mut self.c_file, l.as_str(), ind);
            },
            LirInstr::GreaterThanOrEqual { ty, dest, a, b } => {
                let l = self.binary_line(ty, dest, a, b, " >= ");
                Self::write_to_file(&mut self.c_file, l.as_str(), ind);
            },
            LirInstr::Equal { ty, dest, a, b } => {
                let l = self.binary_line(ty, dest, a, b, " == ");
                Self::write_to_file(&mut self.c_file, l.as_str(), ind);
            },
            LirInstr::NotEqual { ty, dest, a, b } => {
                let l = self.binary_line(ty, dest, a, b, " != ");
                Self::write_to_file(&mut self.c_file, l.as_str(), ind);
            },
            LirInstr::Negate { ty, dest, src } => {
                let l = self.unary_line(ty, dest, src, " = -");
                Self::write_to_file(&mut self.c_file, l.as_str(), ind);
            },
            LirInstr::Not { ty, dest, src } => {
                let l = self.unary_line(ty, dest, src, " = !");
                Self::write_to_file(&mut self.c_file, l.as_str(), ind);
            },
            LirInstr::LoadImm { ty, dst, value } => {
                let l = self.unary_line(ty, dst, value, " = ");
                Self::write_to_file(&mut self.c_file, l.as_str(), ind);
            },
            LirInstr::LoadConst { dst, value } => {
                let value_str = self.codegen_operand(value);
                let dest_str = self.codegen_operand(dst);
                let mut l = String::from_str("char* ");
                l.append(dest_str.as_str());
                l.append(" = ");
                l.append(value_str.as_str());
                l.push(';');
                Self::write_to_file(&mut self.c_file, l.as_str(), ind);
            },
            LirInstr::Call { ty, dst, func_name, args } => {
                let l = self.call_line(ty, dst, func_name, args);
                Self::write_to_file(&mut self.c_file, l.as_str(), ind);
            },
            LirInstr::ExternCall { ty, dst, func_name, args } => {
                let l = if ty.is_unit() {
                    let none: Option<LirOperand> = None;
                    self.call_line(ty, &none, func_name, args)
                } else {
                    self.call_line(ty, dst, func_name, args)
                };
                Self::write_to_file(&mut self.c_file, l.as_str(), ind);
            },
            LirInstr::Assign { ty, dst, src } => {
                let l = match ty {
                    LirTy::ArrayTy { inner, size } => self.memcpy_array_line(dst, src, inner, *size),
                    _ => self.assign_line(dst, src),
                };
                Self::write_to_file(&mut self.c_file, l.as_str(), ind);
            },
            LirInstr::AggregateCopy { ty, dst, src } => {
                let l = match ty {
                    LirTy::ArrayTy { inner, size } => self.memcpy_array_line(dst, src, inner, *size),
                    LirTy::StructType(name) | LirTy::UnionType(name) => {
                        let dest_str = self.codegen_operand(dst);
                        let src_str = self.codegen_operand(src);
                        let mut o = String::from_str("memcpy(");
                        o.append(dest_str.as_str());
                        o.append(", ");
                        o.append(src_str.as_str());
                        o.append(", sizeof(");
                        o.append(name.as_str());
                        o.append("));");
                        o
                    },
                    _ => self.assign_line(dst, src),
                };
                Self::write_to_file(&mut self.c_file, l.as_str(), ind);
            },
            LirInstr::Delete { ty, src, should_free } => {
                let src_str = self.codegen_operand(src);
                match ty {
                    LirTy::StructType(name) => {
                        let mut l = name.clone();
                        l.append("___dtor(&");
                        l.append(src_str.as_str());
                        l.append(");");
                        Self::write_to_file(&mut self.c_file, l.as_str(), ind);
                    },
                    LirTy::Ptr { inner, .. } => {
                        match &**inner {
                            LirTy::StructType(name) => {
                                let mut l = name.clone();
                                l.append("___dtor(");
                                l.append(src_str.as_str());
                                l.append(");");
                                Self::write_to_file(&mut self.c_file, l.as_str(), ind);
                            },
                            _ => {},
                        }
                    },
                    _ => {},
                }
                let ghost mid = self.c_file@;
                if *should_free {
                    let mut l = String::from_str("free(");
                    l.append(src_str.as_str());
                    l.append(");");
                    Self::write_to_file(&mut self.c_file, l.as_str(), ind);
                }
                proof {
                    assert(mid == old(self).c_file@ + dtor_text(*ty, *src, ind as nat));
                }
            },
            LirInstr::Construct { ty, dst, args, ctor_kind } => {
                let l = self.construct_line(ty, dst, args, ctor_kind);
                Self::write_to_file(&mut self.c_file, l.as_str(), ind);
            },
            LirInstr::HeapAllocCopy { ty, dst, src } => {
                let l = self.heap_alloc_line(ty, dst, src);
                Self::write_to_file(&mut self.c_file, l.as_str(), ind);
            },
            LirInstr::ConstructArray { ty, dst, size } => {
                let dest_str = self.codegen_operand(dst);
                match ty {
                    LirTy::ArrayTy { inner, .. } => {
                        let type_str = self.codegen_type(inner);
                        let mut l = trim_end_stars(&type_str);
                        l.push(' ');
                        l.append(dest_str.as_str());
                        l.push('[');
                        push_usize(&mut l, *size);
                        l.append("] = {0};");
                        Self::write_to_file(&mut self.c_file, l.as_str(), ind);
                    },
                    _ => {},
                }
            },
            LirInstr::ConstructUnion { ty, dst, field_values } => {
                let l = self.union_line(ty, dst, field_values);
                Self::write_to_file(&mut self.c_file, l.as_str(), ind);
            },
            LirInstr::Cast { ty, from, dst, src } => {
                if !ty.same_as(from) {
                    let dest_str = self.codegen_operand(dst);
                    let src_str = self.codegen_operand(src);
                    let type_str = self.codegen_type(ty);
                    let mut l = type_str.clone();
                    l.push(' ');
                    l.append(dest_str.as_str());
                    l.append(" = (");
                    l.append(type_str.as_str());
                    l.push(')');
                    l.append(src_str.as_str());
                    l.push(';');
                    Self::write_to_file(&mut self.c_file, l.as_str(), ind);
                } else {
                    let l = self.unary_line(ty, dst, src, " = ");
                    Self::write_to_file(&mut self.c_file, "//No-op cast, needs to be removed", ind);
                    Self::write_to_file(&mut self.c_file, l.as_str(), ind);
                }
            },
            LirInstr::Index { .. } | LirInstr::FieldAccess { .. } => {},
        }
        proof {
            assert(self.c_file@ =~= old(self).c_file@ + instr_text(*instr, ind as nat));
        }
    }

    /// The C spelling of an operand.
    pub fn codegen_operand(&mut self, operand: &LirOperand) -> (r: String)
        requires
            operand_ok(*operand),
        ensures
            r@ == operand_text(*operand),
            *final(self) == *old(self),
        decreases operand,
    {
        match operand {
            LirOperand::Arg(a) => {
                let mut out = String::from_str("arg_");
                push_u64(&mut out, *a as u64);
                out
            },
            LirOperand::Temp(t) => {
                let mut out = String::from_str("temp_");
                push_u64(&mut out, *t as u64);
                out
            },
            LirOperand::Const(c) => match c {
                ConstantValue::Int(i) => {
                    let mut out = String::new();
                    push_i64(&mut out, *i);
                    out
                },
                ConstantValue::UInt(u) => {
                    let mut out = String::new();
                    push_u64(&mut out, *u);
                    out
                },
                ConstantValue::Float(t) => t.clone(),
                ConstantValue::Bool(b) => bool_string(*b),
                ConstantValue::Char(ch) => char_string(*ch),
                ConstantValue::String(s) => {
                    let mut out = String::new();
                    out.push('"');
                    push_escaped(&mut out, s.as_str());
                    out.push('"');
                    proof {
                        assert(out@ =~= (seq!['"'] + escape_default(s@)).push('"'));
                    }
                    out
                },
                ConstantValue::Unit => String::from_str("void"),
                ConstantValue::List(_) => String::new(),
            },
            LirOperand::ImmBool(b) => bool_string(*b),
            LirOperand::ImmInt(i) => {
                let mut out = String::new();
                push_i64(&mut out, *i);
                out
            },
            LirOperand::ImmUInt(u) => {
                let mut out = String::new();
                push_u64(&mut out, *u);
                out
            },
            LirOperand::ImmFloat(t) => t.clone(),
            LirOperand::ImmChar(c) => char_string(*c),
            LirOperand::ImmUnit => String::from_str("void"),
            LirOperand::Deref(d) => {
                let inner = self.codegen_operand(d);
                let mut out = String::new();
                out.push('(');
                out.push('*');
                out.append(inner.as_str());
                out.push(')');
                proof {
                    assert(out@ =~= (seq!['(', '*'] + inner@).push(')'));
                }
                out
            },
            LirOperand::AsRef(a) => {
                let inner = self.codegen_operand(a);
                let mut out = String::new();
                out.push('(');
                out.push('&');
                out.append(inner.as_str());
                out.push(')');
                proof {
                    assert(out@ =~= (seq!['(', '&'] + inner@).push(')'));
                }
                out
            },
            LirOperand::FieldAccess { src, field_name, is_arrow, .. } => {
                let src_str = self.codegen_operand(src);
                let src_is_deref = match &**src {
                    LirOperand::Deref(_) => true,
                    _ => false,
                };
                if *is_arrow && !src_is_deref {
                    let mut out = src_str;
                    out.append("->");
                    out.append(field_name.as_str());
                    out
                } else {
                    let mut out = String::new();
                    out.push('(');
                    out.append(src_str.as_str());
                    out.push(')');
                    out.push('.');
                    out.append(field_name.as_str());
                    proof {
                        assert(out@ =~= (seq!['('] + src_str@).push(')').push('.') + field_name@);
                    }
                    out
                }
            },
            LirOperand::Index { src, index } => {
                let src_str = self.codegen_operand(src);
                let index_str = self.codegen_operand(index);
                let mut out = src_str;
                out.push('[');
                out.append(index_str.as_str());
                out.push(']');
                out
            },
        }
    }
}

/// The standard C headers every generated file includes.
pub const STD_INCLUDES: &'static str = "#include <stdint.h>\n#include <stdbool.h>\n#include <stdio.h>\n#include <stdlib.h>\n#include <string.h>\n#include <math.h>\n#include <time.h>\n";

/// `#include "<HEADER_NAME>"` and a blank line.
pub open spec fn header_include() -> Seq<char> {
    "#include \""@ + HEADER_NAME@ + "\"\n\n"@
}

fn header_include_string() -> (r: String)
    ensures
        r@ == header_include(),
{
    let mut out = String::from_str("#include \"");
    out.append(HEADER_NAME);
    out.append("\"\n\n");
    out
}

/// `typedef <kind> name name;`
fn typedef_string(kind: &str, name: &String) -> (r: String)
    ensures
        r@ == typedef_text(kind@, name@),
{
    let mut out = String::from_str("typedef ");
    out.append(kind);
    out.push(' ');
    out.append(name.as_str());
    out.push(' ');
    out.append(name.as_str());
    out.push(';');
    proof {
        assert(out@ =~= typedef_text(kind@, name@));
    }
    out
}

/// The text without its trailing `*` characters.
fn trim_end_stars(s: &String) -> (r: String)
    ensures
        r@ == trim_stars(s@),
{
    let n = s.as_str().unicode_len();
    let mut end: usize = n;
    proof {
        assert(s@.subrange(0, n as int) =~= s@);
    }
    while end > 0 && s.as_str().get_char(end - 1) == '*'
        invariant
            end <= n,
            n == s@.len(),
            trim_stars(s@.subrange(0, end as int)) == trim_stars(s@),
        decreases end,
    {
        proof {
            assert(s@.subrange(0, end - 1) =~= s@.subrange(0, end as int).drop_last());
        }
        end = end - 1;
    }
    proof {
        assert(!ends_with_star(s@.subrange(0, end as int)));
    }
    String::from_str(s.as_str().substring_char(0, end))
}

/// `true` or `false`.
fn bool_string(b: bool) -> (r: String)
    ensures
        r@ == bool_text(b),
{
    if b {
        String::from_str("true")
    } else {
        String::from_str("false")
    }
}

/// The character between single quotes.
fn char_string(c: char) -> (r: String)
    ensures
        r@ == char_literal(c),
{
    let mut out = String::new();
    out.push('\'');
    out.push(c);
    out.push('\'');
    proof {
        assert(out@ =~= char_literal(c));
    }
    out
}


/// The C statement `T d = a <op> b;` on its own line at indentation `ind`: the type, the
/// destination, `=`, the first operand, the operator between single blanks, the second
/// operand.
pub open spec fn c_binary_statement(ind: nat, ty: LirTy, dest: LirOperand, a: LirOperand, b: LirOperand,
    op: Seq<char>) -> Seq<char> {
    tabs(ind) + c_type(ty) + " "@ + operand_text(dest) + " = "@ + operand_text(a) + " "@ + op + " "@
        + operand_text(b) + ";\n"@
}

/// Two such statements with the same operands are the same text only with the same operator.
pub proof fn lemma_statement_operator_injective(ind: nat, ty: LirTy, dest: LirOperand, a: LirOperand,
    b: LirOperand, o1: Seq<char>, o2: Seq<char>)
    requires
        c_binary_statement(ind, ty, dest, a, b, o1) == c_binary_statement(ind, ty, dest, a, b, o2),
    ensures
        o1 == o2,
{
    let p = tabs(ind) + c_type(ty) + " "@ + operand_text(dest) + " = "@ + operand_text(a) + " "@;
    let s = " "@ + operand_text(b) + ";\n"@;
    let t1 = c_binary_statement(ind, ty, dest, a, b, o1);
    let t2 = c_binary_statement(ind, ty, dest, a, b, o2);
    assert(t1 =~= p + o1 + s);
    assert(t2 =~= p + o2 + s);
    assert(o1.len() == o2.len());
    assert(o1 =~= t1.subrange(p.len() as int, (p.len() + o1.len()) as int));
    assert(o2 =~= t2.subrange(p.len() as int, (p.len() + o2.len()) as int));
}

/// A binary statement line is `c_binary_statement` with the operator between blanks.
proof fn lemma_line_of_binary_text(ind: nat, ty: LirTy, dest: LirOperand, a: LirOperand, b: LirOperand)
    ensures
        forall|o: Seq<char>| #[trigger] c_binary_statement(ind, ty, dest, a, b, o)
            == line(ind, binary_text(ty, dest, a, b, " "@ + o + " "@)),
{
    reveal_strlit(" ");
    reveal_strlit(" = ");
    reveal_strlit(";\n");
    assert forall|o: Seq<char>| #[trigger] c_binary_statement(ind, ty, dest, a, b, o)
        == line(ind, binary_text(ty, dest, a, b, " "@ + o + " "@)) by {
        assert(c_binary_statement(ind, ty, dest, a, b, o) =~= line(ind, binary_text(ty, dest, a, b, " "@ + o + " "@)));
    }
}

/// Each binary LIR instruction is emitted as the C statement with the operator of the same
/// meaning: `+ - * / %` for the arithmetic ones, `< <= > >= == !=` for the comparisons.
pub proof fn lemma_binary_instructions_keep_their_operator(ind: nat, ty: LirTy, dest: LirOperand, a: LirOperand,
    b: LirOperand)
    ensures
        instr_text(LirInstr::Add { ty, dest, a, b }, ind) == c_binary_statement(ind, ty, dest, a, b, "+"@),
        instr_text(LirInstr::Sub { ty, dest, a, b }, ind) == c_binary_statement(ind, ty, dest, a, b, "-"@),
        instr_text(LirInstr::Mul { ty, dest, a, b }, ind) == c_binary_statement(ind, ty, dest, a, b, "*"@),
        instr_text(LirInstr::Div { ty, dest, a, b }, ind) == c_binary_statement(ind, ty, dest, a, b, "/"@),
        instr_text(LirInstr::Mod { ty, dest, a, b }, ind) == c_binary_statement(ind, ty, dest, a, b, "%"@),
        instr_text(LirInstr::LessThan { ty, dest, a, b }, ind) == c_binary_statement(ind, ty, dest, a, b, "<"@),
        instr_text(LirInstr::LessThanOrEqual { ty, dest, a, b }, ind) == c_binary_statement(ind, ty, dest, a, b, "<="@),
        instr_text(LirInstr::GreaterThan { ty, dest, a, b }, ind) == c_binary_statement(ind, ty, dest, a, b, ">"@),
        instr_text(LirInstr::GreaterThanOrEqual { ty, dest, a, b }, ind) == c_binary_statement(ind, ty, dest, a, b, ">="@),
        instr_text(LirInstr::Equal { ty, dest, a, b }, ind) == c_binary_statement(ind, ty, dest, a, b, "=="@),
        instr_text(LirInstr::NotEqual { ty, dest, a, b }, ind) == c_binary_statement(ind, ty, dest, a, b, "!="@),
{
    lemma_line_of_binary_text(ind, ty, dest, a, b);
    assert(" + "@ == " "@ + "+"@ + " "@) by {
        reveal_strlit(" + ");
        reveal_strlit("+");
        reveal_strlit(" ");
        assert(" + "@ =~= " "@ + "+"@ + " "@);
    }
    assert(" - "@ == " "@ + "-"@ + " "@) by {
        reveal_strlit(" - ");
        reveal_strlit("-");
        reveal_strlit(" ");
        assert(" - "@ =~= " "@ + "-"@ + " "@);
    }
    assert(" * "@ == " "@ + "*"@ + " "@) by {
        reveal_strlit(" * ");
        reveal_strlit("*");
        reveal_strlit(" ");
        assert(" * "@ =~= " "@ + "*"@ + " "@);
    }
    assert(" / "@ == " "@ + "/"@ + " "@) by {
        reveal_strlit(" / ");
        reveal_strlit("/");
        reveal_strlit(" ");
        assert(" / "@ =~= " "@ + "/"@ + " "@);
    }
    assert(" % "@ == " "@ + "%"@ + " "@) by {
        reveal_strlit(" % ");
        reveal_strlit("%");
        reveal_strlit(" ");
        assert(" % "@ =~= " "@ + "%"@ + " "@);
    }
    assert(" < "@ == " "@ + "<"@ + " "@) by {
        reveal_strlit(" < ");
        reveal_strlit("<");
        reveal_strlit(" ");
        assert(" < "@ =~= " "@ + "<"@ + " "@);
    }
    assert(" <= "@ == " "@ + "<="@ + " "@) by {
        reveal_strlit(" <= ");
        reveal_strlit("<=");
        reveal_strlit(" ");
        assert(" <= "@ =~= " "@ + "<="@ + " "@);
    }
    assert(" > "@ == " "@ + ">"@ + " "@) by {
        reveal_strlit(" > ");
        reveal_strlit(">");
        reveal_strlit(" ");
        assert(" > "@ =~= " "@ + ">"@ + " "@);
    }
    assert(" >= "@ == " "@ + ">="@ + " "@) by {
        reveal_strlit(" >= ");
        reveal_strlit(">=");
        reveal_strlit(" ");
        assert(" >= "@ =~= " "@ + ">="@ + " "@);
    }
    assert(" == "@ == " "@ + "=="@ + " "@) by {
        reveal_strlit(" == ");
        reveal_strlit("==");
        reveal_strlit(" ");
        assert(" == "@ =~= " "@ + "=="@ + " "@);
    }
    assert(" != "@ == " "@ + "!="@ + " "@) by {
        reveal_strlit(" != ");
        reveal_strlit("!=");
        reveal_strlit(" ");
        assert(" != "@ =~= " "@ + "!="@ + " "@);
    }
}

/// No two binary LIR instructions give the same text for the same operands: each keeps
/// its own operator.
pub proof fn lemma_binary_instructions_distinct(ind: nat, ty: LirTy, dest: LirOperand, a: LirOperand, b: LirOperand)
    ensures
        instr_text(LirInstr::Add { ty, dest, a, b }, ind) != instr_text(LirInstr::Sub { ty, dest, a, b }, ind),
        instr_text(LirInstr::Add { ty, dest, a, b }, ind) != instr_text(LirInstr::Mul { ty, dest, a, b }, ind),
        instr_text(LirInstr::Add { ty, dest, a, b }, ind) != instr_text(LirInstr::Div { ty, dest, a, b }, ind),
        instr_text(LirInstr::Add { ty, dest, a, b }, ind) != instr_text(LirInstr::Mod { ty, dest, a, b }, ind),
        instr_text(LirInstr::Add { ty, dest, a, b }, ind) != instr_text(LirInstr::LessThan { ty, dest, a, b }, ind),
        instr_text(LirInstr::Add { ty, dest, a, b }, ind) != instr_text(LirInstr::LessThanOrEqual { ty, dest, a, b }, ind),
        instr_text(LirInstr::Add { ty, dest, a, b }, ind) != instr_text(LirInstr::GreaterThan { ty, dest, a, b }, ind),
        instr_text(LirInstr::Add { ty, dest, a, b }, ind) != instr_text(LirInstr::GreaterThanOrEqual { ty, dest, a, b }, ind),
        instr_text(LirInstr::Add { ty, dest, a, b }, ind) != instr_text(LirInstr::Equal { ty, dest, a, b }, ind),
        instr_text(LirInstr::Add { ty, dest, a, b }, ind) != instr_text(LirInstr::NotEqual { ty, dest, a, b }, ind),
        instr_text(LirInstr::Sub { ty, dest, a, b }, ind) != instr_text(LirInstr::Mul { ty, dest, a, b }, ind),
        instr_text(LirInstr::Sub { ty, dest, a, b }, ind) != instr_text(LirInstr::Div { ty, dest, a, b }, ind),
        instr_text(LirInstr::Sub { ty, dest, a, b }, ind) != instr_text(LirInstr::Mod { ty, dest, a, b }, ind),
        instr_text(LirInstr::Sub { ty, dest, a, b }, ind) != instr_text(LirInstr::LessThan { ty, dest, a, b }, ind),
        instr_text(LirInstr::Sub { ty, dest, a, b }, ind) != instr_text(LirInstr::LessThanOrEqual { ty, dest, a, b }, ind),
        instr_text(LirInstr::Sub { ty, dest, a, b }, ind) != instr_text(LirInstr::GreaterThan { ty, dest, a, b }, ind),
        instr_text(LirInstr::Sub { ty, dest, a, b }, ind) != instr_text(LirInstr::GreaterThanOrEqual { ty, dest, a, b }, ind),
        instr_text(LirInstr::Sub { ty, dest, a, b }, ind) != instr_text(LirInstr::Equal { ty, dest, a, b }, ind),
        instr_text(LirInstr::Sub { ty, dest, a, b }, ind) != instr_text(LirInstr::NotEqual { ty, dest, a, b }, ind),
        instr_text(LirInstr::Mul { ty, dest, a, b }, ind) != instr_text(LirInstr::Div { ty, dest, a, b }, ind),
        instr_text(LirInstr::Mul { ty, dest, a, b }, ind) != instr_text(LirInstr::Mod { ty, dest, a, b }, ind),
        instr_text(LirInstr::Mul { ty, dest, a, b }, ind) != instr_text(LirInstr::LessThan { ty, dest, a, b }, ind),
        instr_text(LirInstr::Mul { ty, dest, a, b }, ind) != instr_text(LirInstr::LessThanOrEqual { ty, dest, a, b }, ind),
        instr_text(LirInstr::Mul { ty, dest, a, b }, ind) != instr_text(LirInstr::GreaterThan { ty, dest, a, b }, ind),
        instr_text(LirInstr::Mul { ty, dest, a, b }, ind) != instr_text(LirInstr::GreaterThanOrEqual { ty, dest, a, b }, ind),
        instr_text(LirInstr::Mul { ty, dest, a, b }, ind) != instr_text(LirInstr::Equal { ty, dest, a, b }, ind),
        instr_text(LirInstr::Mul { ty, dest, a, b }, ind) != instr_text(LirInstr::NotEqual { ty, dest, a, b }, ind),
        instr_text(LirInstr::Div { ty, dest, a, b }, ind) != instr_text(LirInstr::Mod { ty, dest, a, b }, ind),
        instr_text(LirInstr::Div { ty, dest, a, b }, ind) != instr_text(LirInstr::LessThan { ty, dest, a, b }, ind),
        instr_text(LirInstr::Div { ty, dest, a, b }, ind) != instr_text(LirInstr::LessThanOrEqual { ty, dest, a, b }, ind),
        instr_text(LirInstr::Div { ty, dest, a, b }, ind) != instr_text(LirInstr::GreaterThan { ty, dest, a, b }, ind),
        instr_text(LirInstr::Div { ty, dest, a, b }, ind) != instr_text(LirInstr::GreaterThanOrEqual { ty, dest, a, b }, ind),
        instr_text(LirInstr::Div { ty, dest, a, b }, ind) != instr_text(LirInstr::Equal { ty, dest, a, b }, ind),
        instr_text(LirInstr::Div { ty, dest, a, b }, ind) != instr_text(LirInstr::NotEqual { ty, dest, a, b }, ind),
        instr_text(LirInstr::Mod { ty, dest, a, b }, ind) != instr_text(LirInstr::LessThan { ty, dest, a, b }, ind),
        instr_text(LirInstr::Mod { ty, dest, a, b }, ind) != instr_text(LirInstr::LessThanOrEqual { ty, dest, a, b }, ind),
        instr_text(LirInstr::Mod { ty, dest, a, b }, ind) != instr_text(LirInstr::GreaterThan { ty, dest, a, b }, ind),
        instr_text(LirInstr::Mod { ty, dest, a, b }, ind) != instr_text(LirInstr::GreaterThanOrEqual { ty, dest, a, b }, ind),
        instr_text(LirInstr::Mod { ty, dest, a, b }, ind) != instr_text(LirInstr::Equal { ty, dest, a, b }, ind),
        instr_text(LirInstr::Mod { ty, dest, a, b }, ind) != instr_text(LirInstr::NotEqual { ty, dest, a, b }, ind),
        instr_text(LirInstr::LessThan { ty, dest, a, b }, ind) != instr_text(LirInstr::LessThanOrEqual { ty, dest, a, b }, ind),
        instr_text(LirInstr::LessThan { ty, dest, a, b }, ind) != instr_text(LirInstr::GreaterThan { ty, dest, a, b }, ind),
        instr_text(LirInstr::LessThan { ty, dest, a, b }, ind) != instr_text(LirInstr::GreaterThanOrEqual { ty, dest, a, b }, ind),
        instr_text(LirInstr::LessThan { ty, dest, a, b }, ind) != instr_text(LirInstr::Equal { ty, dest, a, b }, ind),
        instr_text(LirInstr::LessThan { ty, dest, a, b }, ind) != instr_text(LirInstr::NotEqual { ty, dest, a, b }, ind),
        instr_text(LirInstr::LessThanOrEqual { ty, dest, a, b }, ind) != instr_text(LirInstr::GreaterThan { ty, dest, a, b }, ind),
        instr_text(LirInstr::LessThanOrEqual { ty, dest, a, b }, ind) != instr_text(LirInstr::GreaterThanOrEqual { ty, dest, a, b }, ind),
        instr_text(LirInstr::LessThanOrEqual { ty, dest, a, b }, ind) != instr_text(LirInstr::Equal { ty, dest, a, b }, ind),
        instr_text(LirInstr::LessThanOrEqual { ty, dest, a, b }, ind) != instr_text(LirInstr::NotEqual { ty, dest, a, b }, ind),
        instr_text(LirInstr::GreaterThan { ty, dest, a, b }, ind) != instr_text(LirInstr::GreaterThanOrEqual { ty, dest, a, b }, ind),
        instr_text(LirInstr::GreaterThan { ty, dest, a, b }, ind) != instr_text(LirInstr::Equal { ty, dest, a, b }, ind),
        instr_text(LirInstr::GreaterThan { ty, dest, a, b }, ind) != instr_text(LirInstr::NotEqual { ty, dest, a, b }, ind),
        instr_text(LirInstr::GreaterThanOrEqual { ty, dest, a, b }, ind) != instr_text(LirInstr::Equal { ty, dest, a, b }, ind),
        instr_text(LirInstr::GreaterThanOrEqual { ty, dest, a, b }, ind) != instr_text(LirInstr::NotEqual { ty, dest, a, b }, ind),
        instr_text(LirInstr::Equal { ty, dest, a, b }, ind) != instr_text(LirInstr::NotEqual { ty, dest, a, b }, ind),
{
    lemma_binary_instructions_keep_their_operator(ind, ty, dest, a, b);
    assert(instr_text(LirInstr::Add { ty, dest, a, b }, ind) != instr_text(LirInstr::Sub { ty, dest, a, b }, ind)) by {
        reveal_strlit("+");
        reveal_strlit("-");
        if instr_text(LirInstr::Add { ty, dest, a, b }, ind) == instr_text(LirInstr::Sub { ty, dest, a, b }, ind) {
            lemma_statement_operator_injective(ind, ty, dest, a, b, "+"@, "-"@);
            assert("+"@[0] != "-"@[0] || "+"@.len() != "-"@.len());
        }
    }
    assert(instr_text(LirInstr::Add { ty, dest, a, b }, ind) != instr_text(LirInstr::Mul { ty, dest, a, b }, ind)) by {
        reveal_strlit("+");
        reveal_strlit("*");
        if instr_text(LirInstr::Add { ty, dest, a, b }, ind) == instr_text(LirInstr::Mul { ty, dest, a, b }, ind) {
            lemma_statement_operator_injective(ind, ty, dest, a, b, "+"@, "*"@);
            assert("+"@[0] != "*"@[0] || "+"@.len() != "*"@.len());
        }
    }
    assert(instr_text(LirInstr::Add { ty, dest, a, b }, ind) != instr_text(LirInstr::Div { ty, dest, a, b }, ind)) by {
        reveal_strlit("+");
        reveal_strlit("/");
        if instr_text(LirInstr::Add { ty, dest, a, b }, ind) == instr_text(LirInstr::Div { ty, dest, a, b }, ind) {
            lemma_statement_operator_injective(ind, ty, dest, a, b, "+"@, "/"@);
            assert("+"@[0] != "/"@[0] || "+"@.len() != "/"@.len());
        }
    }
    assert(instr_text(LirInstr::Add { ty, dest, a, b }, ind) != instr_text(LirInstr::Mod { ty, dest, a, b }, ind)) by {
        reveal_strlit("+");
        reveal_strlit("%");
        if instr_text(LirInstr::Add { ty, dest, a, b }, ind) == instr_text(LirInstr::Mod { ty, dest, a, b }, ind) {
            lemma_statement_operator_injective(ind, ty, dest, a, b, "+"@, "%"@);
            assert("+"@[0] != "%"@[0] || "+"@.len() != "%"@.len());
        }
    }
    assert(instr_text(LirInstr::Add { ty, dest, a, b }, ind) != instr_text(LirInstr::LessThan { ty, dest, a, b }, ind)) by {
        reveal_strlit("+");
        reveal_strlit("<");
        if instr_text(LirInstr::Add { ty, dest, a, b }, ind) == instr_text(LirInstr::LessThan { ty, dest, a, b }, ind) {
            lemma_statement_operator_injective(ind, ty, dest, a, b, "+"@, "<"@);
            assert("+"@[0] != "<"@[0] || "+"@.len() != "<"@.len());
        }
    }
    assert(instr_text(LirInstr::Add { ty, dest, a, b }, ind) != instr_text(LirInstr::LessThanOrEqual { ty, dest, a, b }, ind)) by {
        reveal_strlit("+");
        reveal_strlit("<=");
        if instr_text(LirInstr::Add { ty, dest, a, b }, ind) == instr_text(LirInstr::LessThanOrEqual { ty, dest, a, b }, ind) {
            lemma_statement_operator_injective(ind, ty, dest, a, b, "+"@, "<="@);
            assert("+"@[0] != "<="@[0] || "+"@.len() != "<="@.len());
        }
    }
    assert(instr_text(LirInstr::Add { ty, dest, a, b }, ind) != instr_text(LirInstr::GreaterThan { ty, dest, a, b }, ind)) by {
        reveal_strlit("+");
        reveal_strlit(">");
        if instr_text(LirInstr::Add { ty, dest, a, b }, ind) == instr_text(LirInstr::GreaterThan { ty, dest, a, b }, ind) {
            lemma_statement_operator_injective(ind, ty, dest, a, b, "+"@, ">"@);
            assert("+"@[0] != ">"@[0] || "+"@.len() != ">"@.len());
        }
    }
    assert(instr_text(LirInstr::Add { ty, dest, a, b }, ind) != instr_text(LirInstr::GreaterThanOrEqual { ty, dest, a, b }, ind)) by {
        reveal_strlit("+");
        reveal_strlit(">=");
        if instr_text(LirInstr::Add { ty, dest, a, b }, ind) == instr_text(LirInstr::GreaterThanOrEqual { ty, dest, a, b }, ind) {
            lemma_statement_operator_injective(ind, ty, dest, a, b, "+"@, ">="@);
            assert("+"@[0] != ">="@[0] || "+"@.len() != ">="@.len());
        }
    }
    assert(instr_text(LirInstr::Add { ty, dest, a, b }, ind) != instr_text(LirInstr::Equal { ty, dest, a, b }, ind)) by {
        reveal_strlit("+");
        reveal_strlit("==");
        if instr_text(LirInstr::Add { ty, dest, a, b }, ind) == instr_text(LirInstr::Equal { ty, dest, a, b }, ind) {
            lemma_statement_operator_injective(ind, ty, dest, a, b, "+"@, "=="@);
            assert("+"@[0] != "=="@[0] || "+"@.len() != "=="@.len());
        }
    }
    assert(instr_text(LirInstr::Add { ty, dest, a, b }, ind) != instr_text(LirInstr::NotEqual { ty, dest, a, b }, ind)) by {
        reveal_strlit("+");
        reveal_strlit("!=");
        if instr_text(LirInstr::Add { ty, dest, a, b }, ind) == instr_text(LirInstr::NotEqual { ty, dest, a, b }, ind) {
            lemma_statement_operator_injective(ind, ty, dest, a, b, "+"@, "!="@);
            assert("+"@[0] != "!="@[0] || "+"@.len() != "!="@.len());
        }
    }
    assert(instr_text(LirInstr::Sub { ty, dest, a, b }, ind) != instr_text(LirInstr::Mul { ty, dest, a, b }, ind)) by {
        reveal_strlit("-");
        reveal_strlit("*");
        if instr_text(LirInstr::Sub { ty, dest, a, b }, ind) == instr_text(LirInstr::Mul { ty, dest, a, b }, ind) {
            lemma_statement_operator_injective(ind, ty, dest, a, b, "-"@, "*"@);
            assert("-"@[0] != "*"@[0] || "-"@.len() != "*"@.len());
        }
    }
    assert(instr_text(LirInstr::Sub { ty, dest, a, b }, ind) != instr_text(LirInstr::Div { ty, dest, a, b }, ind)) by {
        reveal_strlit("-");
        reveal_strlit("/");
        if instr_text(LirInstr::Sub { ty, dest, a, b }, ind) == instr_text(LirInstr::Div { ty, dest, a, b }, ind) {
            lemma_statement_operator_injective(ind, ty, dest, a, b, "-"@, "/"@);
            assert("-"@[0] != "/"@[0] || "-"@.len() != "/"@.len());
        }
    }
    assert(instr_text(LirInstr::Sub { ty, dest, a, b }, ind) != instr_text(LirInstr::Mod { ty, dest, a, b }, ind)) by {
        reveal_strlit("-");
        reveal_strlit("%");
        if instr_text(LirInstr::Sub { ty, dest, a, b }, ind) == instr_text(LirInstr::Mod { ty, dest, a, b }, ind) {
            lemma_statement_operator_injective(ind, ty, dest, a, b, "-"@, "%"@);
            assert("-"@[0] != "%"@[0] || "-"@.len() != "%"@.len());
        }
    }
    assert(instr_text(LirInstr::Sub { ty, dest, a, b }, ind) != instr_text(LirInstr::LessThan { ty, dest, a, b }, ind)) by {
        reveal_strlit("-");
        reveal_strlit("<");
        if instr_text(LirInstr::Sub { ty, dest, a, b }, ind) == instr_text(LirInstr::LessThan { ty, dest, a, b }, ind) {
            lemma_statement_operator_injective(ind, ty, dest, a, b, "-"@, "<"@);
            assert("-"@[0] != "<"@[0] || "-"@.len() != "<"@.len());
        }
    }
    assert(instr_text(LirInstr::Sub { ty, dest, a, b }, ind) != instr_text(LirInstr::LessThanOrEqual { ty, dest, a, b }, ind)) by {
        reveal_strlit("-");
        reveal_strlit("<=");
        if instr_text(LirInstr::Sub { ty, dest, a, b }, ind) == instr_text(LirInstr::LessThanOrEqual { ty, dest, a, b }, ind) {
            lemma_statement_operator_injective(ind, ty, dest, a, b, "-"@, "<="@);
            assert("-"@[0] != "<="@[0] || "-"@.len() != "<="@.len());
        }
    }
    assert(instr_text(LirInstr::Sub { ty, dest, a, b }, ind) != instr_text(LirInstr::GreaterThan { ty, dest, a, b }, ind)) by {
        reveal_strlit("-");
        reveal_strlit(">");
        if instr_text(LirInstr::Sub { ty, dest, a, b }, ind) == instr_text(LirInstr::GreaterThan { ty, dest, a, b }, ind) {
            lemma_statement_operator_injective(ind, ty, dest, a, b, "-"@, ">"@);
            assert("-"@[0] != ">"@[0] || "-"@.len() != ">"@.len());
        }
    }
    assert(instr_text(LirInstr::Sub { ty, dest, a, b }, ind) != instr_text(LirInstr::GreaterThanOrEqual { ty, dest, a, b }, ind)) by {
        reveal_strlit("-");
        reveal_strlit(">=");
        if instr_text(LirInstr::Sub { ty, dest, a, b }, ind) == instr_text(LirInstr::GreaterThanOrEqual { ty, dest, a, b }, ind) {
            lemma_statement_operator_injective(ind, ty, dest, a, b, "-"@, ">="@);
            assert("-"@[0] != ">="@[0] || "-"@.len() != ">="@.len());
        }
    }
    assert(instr_text(LirInstr::Sub { ty, dest, a, b }, ind) != instr_text(LirInstr::Equal { ty, dest, a, b }, ind)) by {
        reveal_strlit("-");
        reveal_strlit("==");
        if instr_text(LirInstr::Sub { ty, dest, a, b }, ind) == instr_text(LirInstr::Equal { ty, dest, a, b }, ind) {
            lemma_statement_operator_injective(ind, ty, dest, a, b, "-"@, "=="@);
            assert("-"@[0] != "=="@[0] || "-"@.len() != "=="@.len());
        }
    }
    assert(instr_text(LirInstr::Sub { ty, dest, a, b }, ind) != instr_text(LirInstr::NotEqual { ty, dest, a, b }, ind)) by {
        reveal_strlit("-");
        reveal_strlit("!=");
        if instr_text(LirInstr::Sub { ty, dest, a, b }, ind) == instr_text(LirInstr::NotEqual { ty, dest, a, b }, ind) {
            lemma_statement_operator_injective(ind, ty, dest, a, b, "-"@, "!="@);
            assert("-"@[0] != "!="@[0] || "-"@.len() != "!="@.len());
        }
    }
    assert(instr_text(LirInstr::Mul { ty, dest, a, b }, ind) != instr_text(LirInstr::Div { ty, dest, a, b }, ind)) by {
        reveal_strlit("*");
        reveal_strlit("/");
        if instr_text(LirInstr::Mul { ty, dest, a, b }, ind) == instr_text(LirInstr::Div { ty, dest, a, b }, ind) {
            lemma_statement_operator_injective(ind, ty, dest, a, b, "*"@, "/"@);
            assert("*"@[0] != "/"@[0] || "*"@.len() != "/"@.len());
        }
    }
    assert(instr_text(LirInstr::Mul { ty, dest, a, b }, ind) != instr_text(LirInstr::Mod { ty, dest, a, b }, ind)) by {
        reveal_strlit("*");
        reveal_strlit("%");
        if instr_text(LirInstr::Mul { ty, dest, a, b }, ind) == instr_text(LirInstr::Mod { ty, dest, a, b }, ind) {
            lemma_statement_operator_injective(ind, ty, dest, a, b, "*"@, "%"@);
            assert("*"@[0] != "%"@[0] || "*"@.len() != "%"@.len());
        }
    }
    assert(instr_text(LirInstr::Mul { ty, dest, a, b }, ind) != instr_text(LirInstr::LessThan { ty, dest, a, b }, ind)) by {
        reveal_strlit("*");
        reveal_strlit("<");
        if instr_text(LirInstr::Mul { ty, dest, a, b }, ind) == instr_text(LirInstr::LessThan { ty, dest, a, b }, ind) {
            lemma_statement_operator_injective(ind, ty, dest, a, b, "*"@, "<"@);
            assert("*"@[0] != "<"@[0] || "*"@.len() != "<"@.len());
        }
    }
    assert(instr_text(LirInstr::Mul { ty, dest, a, b }, ind) != instr_text(LirInstr::LessThanOrEqual { ty, dest, a, b }, ind)) by {
        reveal_strlit("*");
        reveal_strlit("<=");
        if instr_text(LirInstr::Mul { ty, dest, a, b }, ind) == instr_text(LirInstr::LessThanOrEqual { ty, dest, a, b }, ind) {
            lemma_statement_operator_injective(ind, ty, dest, a, b, "*"@, "<="@);
            assert("*"@[0] != "<="@[0] || "*"@.len() != "<="@.len());
        }
    }
    assert(instr_text(LirInstr::Mul { ty, dest, a, b }, ind) != instr_text(LirInstr::GreaterThan { ty, dest, a, b }, ind)) by {
        reveal_strlit("*");
        reveal_strlit(">");
        if instr_text(LirInstr::Mul { ty, dest, a, b }, ind) == instr_text(LirInstr::GreaterThan { ty, dest, a, b }, ind) {
            lemma_statement_operator_injective(ind, ty, dest, a, b, "*"@, ">"@);
            assert("*"@[0] != ">"@[0] || "*"@.len() != ">"@.len());
        }
    }
    assert(instr_text(LirInstr::Mul { ty, dest, a, b }, ind) != instr_text(LirInstr::GreaterThanOrEqual { ty, dest, a, b }, ind)) by {
        reveal_strlit("*");
        reveal_strlit(">=");
        if instr_text(LirInstr::Mul { ty, dest, a, b }, ind) == instr_text(LirInstr::GreaterThanOrEqual { ty, dest, a, b }, ind) {
            lemma_statement_operator_injective(ind, ty, dest, a, b, "*"@, ">="@);
            assert("*"@[0] != ">="@[0] || "*"@.len() != ">="@.len());
        }
    }
    assert(instr_text(LirInstr::Mul { ty, dest, a, b }, ind) != instr_text(LirInstr::Equal { ty, dest, a, b }, ind)) by {
        reveal_strlit("*");
        reveal_strlit("==");
        if instr_text(LirInstr::Mul { ty, dest, a, b }, ind) == instr_text(LirInstr::Equal { ty, dest, a, b }, ind) {
            lemma_statement_operator_injective(ind, ty, dest, a, b, "*"@, "=="@);
            assert("*"@[0] != "=="@[0] || "*"@.len() != "=="@.len());
        }
    }
    assert(instr_text(LirInstr::Mul { ty, dest, a, b }, ind) != instr_text(LirInstr::NotEqual { ty, dest, a, b }, ind)) by {
        reveal_strlit("*");
        reveal_strlit("!=");
        if instr_text(LirInstr::Mul { ty, dest, a, b }, ind) == instr_text(LirInstr::NotEqual { ty, dest, a, b }, ind) {
            lemma_statement_operator_injective(ind, ty, dest, a, b, "*"@, "!="@);
            assert("*"@[0] != "!="@[0] || "*"@.len() != "!="@.len());
        }
    }
    assert(instr_text(LirInstr::Div { ty, dest, a, b }, ind) != instr_text(LirInstr::Mod { ty, dest, a, b }, ind)) by {
        reveal_strlit("/");
        reveal_strlit("%");
        if instr_text(LirInstr::Div { ty, dest, a, b }, ind) == instr_text(LirInstr::Mod { ty, dest, a, b }, ind) {
            lemma_statement_operator_injective(ind, ty, dest, a, b, "/"@, "%"@);
            assert("/"@[0] != "%"@[0] || "/"@.len() != "%"@.len());
        }
    }
    assert(instr_text(LirInstr::Div { ty, dest, a, b }, ind) != instr_text(LirInstr::LessThan { ty, dest, a, b }, ind)) by {
        reveal_strlit("/");
        reveal_strlit("<");
        if instr_text(LirInstr::Div { ty, dest, a, b }, ind) == instr_text(LirInstr::LessThan { ty, dest, a, b }, ind) {
            lemma_statement_operator_injective(ind, ty, dest, a, b, "/"@, "<"@);
            assert("/"@[0] != "<"@[0] || "/"@.len() != "<"@.len());
        }
    }
    assert(instr_text(LirInstr::Div { ty, dest, a, b }, ind) != instr_text(LirInstr::LessThanOrEqual { ty, dest, a, b }, ind)) by {
        reveal_strlit("/");
        reveal_strlit("<=");
        if instr_text(LirInstr::Div { ty, dest, a, b }, ind) == instr_text(LirInstr::LessThanOrEqual { ty, dest, a, b }, ind) {
            lemma_statement_operator_injective(ind, ty, dest, a, b, "/"@, "<="@);
            assert("/"@[0] != "<="@[0] || "/"@.len() != "<="@.len());
        }
    }
    assert(instr_text(LirInstr::Div { ty, dest, a, b }, ind) != instr_text(LirInstr::GreaterThan { ty, dest, a, b }, ind)) by {
        reveal_strlit("/");
        reveal_strlit(">");
        if instr_text(LirInstr::Div { ty, dest, a, b }, ind) == instr_text(LirInstr::GreaterThan { ty, dest, a, b }, ind) {
            lemma_statement_operator_injective(ind, ty, dest, a, b, "/"@, ">"@);
            assert("/"@[0] != ">"@[0] || "/"@.len() != ">"@.len());
        }
    }
    assert(instr_text(LirInstr::Div { ty, dest, a, b }, ind) != instr_text(LirInstr::GreaterThanOrEqual { ty, dest, a, b }, ind)) by {
        reveal_strlit("/");
        reveal_strlit(">=");
        if instr_text(LirInstr::Div { ty, dest, a, b }, ind) == instr_text(LirInstr::GreaterThanOrEqual { ty, dest, a, b }, ind) {
            lemma_statement_operator_injective(ind, ty, dest, a, b, "/"@, ">="@);
            assert("/"@[0] != ">="@[0] || "/"@.len() != ">="@.len());
        }
    }
    assert(instr_text(LirInstr::Div { ty, dest, a, b }, ind) != instr_text(LirInstr::Equal { ty, dest, a, b }, ind)) by {
        reveal_strlit("/");
        reveal_strlit("==");
        if instr_text(LirInstr::Div { ty, dest, a, b }, ind) == instr_text(LirInstr::Equal { ty, dest, a, b }, ind) {
            lemma_statement_operator_injective(ind, ty, dest, a, b, "/"@, "=="@);
            assert("/"@[0] != "=="@[0] || "/"@.len() != "=="@.len());
        }
    }
    assert(instr_text(LirInstr::Div { ty, dest, a, b }, ind) != instr_text(LirInstr::NotEqual { ty, dest, a, b }, ind)) by {
        reveal_strlit("/");
        reveal_strlit("!=");
        if instr_text(LirInstr::Div { ty, dest, a, b }, ind) == instr_text(LirInstr::NotEqual { ty, dest, a, b }, ind) {
            lemma_statement_operator_injective(ind, ty, dest, a, b, "/"@, "!="@);
            assert("/"@[0] != "!="@[0] || "/"@.len() != "!="@.len());
        }
    }
    assert(instr_text(LirInstr::Mod { ty, dest, a, b }, ind) != instr_text(LirInstr::LessThan { ty, dest, a, b }, ind)) by {
        reveal_strlit("%");
        reveal_strlit("<");
        if instr_text(LirInstr::Mod { ty, dest, a, b }, ind) == instr_text(LirInstr::LessThan { ty, dest, a, b }, ind) {
            lemma_statement_operator_injective(ind, ty, dest, a, b, "%"@, "<"@);
            assert("%"@[0] != "<"@[0] || "%"@.len() != "<"@.len());
        }
    }
    assert(instr_text(LirInstr::Mod { ty, dest, a, b }, ind) != instr_text(LirInstr::LessThanOrEqual { ty, dest, a, b }, ind)) by {
        reveal_strlit("%");
        reveal_strlit("<=");
        if instr_text(LirInstr::Mod { ty, dest, a, b }, ind) == instr_text(LirInstr::LessThanOrEqual { ty, dest, a, b }, ind) {
            lemma_statement_operator_injective(ind, ty, dest, a, b, "%"@, "<="@);
            assert("%"@[0] != "<="@[0] || "%"@.len() != "<="@.len());
        }
    }
    assert(instr_text(LirInstr::Mod { ty, dest, a, b }, ind) != instr_text(LirInstr::GreaterThan { ty, dest, a, b }, ind)) by {
        reveal_strlit("%");
        reveal_strlit(">");
        if instr_text(LirInstr::Mod { ty, dest, a, b }, ind) == instr_text(LirInstr::GreaterThan { ty, dest, a, b }, ind) {
            lemma_statement_operator_injective(ind, ty, dest, a, b, "%"@, ">"@);
            assert("%"@[0] != ">"@[0] || "%"@.len() != ">"@.len());
        }
    }
    assert(instr_text(LirInstr::Mod { ty, dest, a, b }, ind) != instr_text(LirInstr::GreaterThanOrEqual { ty, dest, a, b }, ind)) by {
        reveal_strlit("%");
        reveal_strlit(">=");
        if instr_text(LirInstr::Mod { ty, dest, a, b }, ind) == instr_text(LirInstr::GreaterThanOrEqual { ty, dest, a, b }, ind) {
            lemma_statement_operator_injective(ind, ty, dest, a, b, "%"@, ">="@);
            assert("%"@[0] != ">="@[0] || "%"@.len() != ">="@.len());
        }
    }
    assert(instr_text(LirInstr::Mod { ty, dest, a, b }, ind) != instr_text(LirInstr::Equal { ty, dest, a, b }, ind)) by {
        reveal_strlit("%");
        reveal_strlit("==");
        if instr_text(LirInstr::Mod { ty, dest, a, b }, ind) == instr_text(LirInstr::Equal { ty, dest, a, b }, ind) {
            lemma_statement_operator_injective(ind, ty, dest, a, b, "%"@, "=="@);
            assert("%"@[0] != "=="@[0] || "%"@.len() != "=="@.len());
        }
    }
    assert(instr_text(LirInstr::Mod { ty, dest, a, b }, ind) != instr_text(LirInstr::NotEqual { ty, dest, a, b }, ind)) by {
        reveal_strlit("%");
        reveal_strlit("!=");
        if instr_text(LirInstr::Mod { ty, dest, a, b }, ind) == instr_text(LirInstr::NotEqual { ty, dest, a, b }, ind) {
            lemma_statement_operator_injective(ind, ty, dest, a, b, "%"@, "!="@);
            assert("%"@[0] != "!="@[0] || "%"@.len() != "!="@.len());
        }
    }
    assert(instr_text(LirInstr::LessThan { ty, dest, a, b }, ind) != instr_text(LirInstr::LessThanOrEqual { ty, dest, a, b }, ind)) by {
        reveal_strlit("<");
        reveal_strlit("<=");
        if instr_text(LirInstr::LessThan { ty, dest, a, b }, ind) == instr_text(LirInstr::LessThanOrEqual { ty, dest, a, b }, ind) {
            lemma_statement_operator_injective(ind, ty, dest, a, b, "<"@, "<="@);
            assert("<"@[1] != "<="@[1] || "<"@.len() != "<="@.len());
        }
    }
    assert(instr_text(LirInstr::LessThan { ty, dest, a, b }, ind) != instr_text(LirInstr::GreaterThan { ty, dest, a, b }, ind)) by {
        reveal_strlit("<");
        reveal_strlit(">");
        if instr_text(LirInstr::LessThan { ty, dest, a, b }, ind) == instr_text(LirInstr::GreaterThan { ty, dest, a, b }, ind) {
            lemma_statement_operator_injective(ind, ty, dest, a, b, "<"@, ">"@);
            assert("<"@[0] != ">"@[0] || "<"@.len() != ">"@.len());
        }
    }
    assert(instr_text(LirInstr::LessThan { ty, dest, a, b }, ind) != instr_text(LirInstr::GreaterThanOrEqual { ty, dest, a, b }, ind)) by {
        reveal_strlit("<");
        reveal_strlit(">=");
        if instr_text(LirInstr::LessThan { ty, dest, a, b }, ind) == instr_text(LirInstr::GreaterThanOrEqual { ty, dest, a, b }, ind) {
            lemma_statement_operator_injective(ind, ty, dest, a, b, "<"@, ">="@);
            assert("<"@[0] != ">="@[0] || "<"@.len() != ">="@.len());
        }
    }
    assert(instr_text(LirInstr::LessThan { ty, dest, a, b }, ind) != instr_text(LirInstr::Equal { ty, dest, a, b }, ind)) by {
        reveal_strlit("<");
        reveal_strlit("==");
        if instr_text(LirInstr::LessThan { ty, dest, a, b }, ind) == instr_text(LirInstr::Equal { ty, dest, a, b }, ind) {
            lemma_statement_operator_injective(ind, ty, dest, a, b, "<"@, "=="@);
            assert("<"@[0] != "=="@[0] || "<"@.len() != "=="@.len());
        }
    }
    assert(instr_text(LirInstr::LessThan { ty, dest, a, b }, ind) != instr_text(LirInstr::NotEqual { ty, dest, a, b }, ind)) by {
        reveal_strlit("<");
        reveal_strlit("!=");
        if instr_text(LirInstr::LessThan { ty, dest, a, b }, ind) == instr_text(LirInstr::NotEqual { ty, dest, a, b }, ind) {
            lemma_statement_operator_injective(ind, ty, dest, a, b, "<"@, "!="@);
            assert("<"@[0] != "!="@[0] || "<"@.len() != "!="@.len());
        }
    }
    assert(instr_text(LirInstr::LessThanOrEqual { ty, dest, a, b }, ind) != instr_text(LirInstr::GreaterThan { ty, dest, a, b }, ind)) by {
        reveal_strlit("<=");
        reveal_strlit(">");
        if instr_text(LirInstr::LessThanOrEqual { ty, dest, a, b }, ind) == instr_text(LirInstr::GreaterThan { ty, dest, a, b }, ind) {
            lemma_statement_operator_injective(ind, ty, dest, a, b, "<="@, ">"@);
            assert("<="@[0] != ">"@[0] || "<="@.len() != ">"@.len());
        }
    }
    assert(instr_text(LirInstr::LessThanOrEqual { ty, dest, a, b }, ind) != instr_text(LirInstr::GreaterThanOrEqual { ty, dest, a, b }, ind)) by {
        reveal_strlit("<=");
        reveal_strlit(">=");
        if instr_text(LirInstr::LessThanOrEqual { ty, dest, a, b }, ind) == instr_text(LirInstr::GreaterThanOrEqual { ty, dest, a, b }, ind) {
            lemma_statement_operator_injective(ind, ty, dest, a, b, "<="@, ">="@);
            assert("<="@[0] != ">="@[0] || "<="@.len() != ">="@.len());
        }
    }
    assert(instr_text(LirInstr::LessThanOrEqual { ty, dest, a, b }, ind) != instr_text(LirInstr::Equal { ty, dest, a, b }, ind)) by {
        reveal_strlit("<=");
        reveal_strlit("==");
        if instr_text(LirInstr::LessThanOrEqual { ty, dest, a, b }, ind) == instr_text(LirInstr::Equal { ty, dest, a, b }, ind) {
            lemma_statement_operator_injective(ind, ty, dest, a, b, "<="@, "=="@);
            assert("<="@[0] != "=="@[0] || "<="@.len() != "=="@.len());
        }
    }
    assert(instr_text(LirInstr::LessThanOrEqual { ty, dest, a, b }, ind) != instr_text(LirInstr::NotEqual { ty, dest, a, b }, ind)) by {
        reveal_strlit("<=");
        reveal_strlit("!=");
        if instr_text(LirInstr::LessThanOrEqual { ty, dest, a, b }, ind) == instr_text(LirInstr::NotEqual { ty, dest, a, b }, ind) {
            lemma_statement_operator_injective(ind, ty, dest, a, b, "<="@, "!="@);
            assert("<="@[0] != "!="@[0] || "<="@.len() != "!="@.len());
        }
    }
    assert(instr_text(LirInstr::GreaterThan { ty, dest, a, b }, ind) != instr_text(LirInstr::GreaterThanOrEqual { ty, dest, a, b }, ind)) by {
        reveal_strlit(">");
        reveal_strlit(">=");
        if instr_text(LirInstr::GreaterThan { ty, dest, a, b }, ind) == instr_text(LirInstr::GreaterThanOrEqual { ty, dest, a, b }, ind) {
            lemma_statement_operator_injective(ind, ty, dest, a, b, ">"@, ">="@);
            assert(">"@[1] != ">="@[1] || ">"@.len() != ">="@.len());
        }
    }
    assert(instr_text(LirInstr::GreaterThan { ty, dest, a, b }, ind) != instr_text(LirInstr::Equal { ty, dest, a, b }, ind)) by {
        reveal_strlit(">");
        reveal_strlit("==");
        if instr_text(LirInstr::GreaterThan { ty, dest, a, b }, ind) == instr_text(LirInstr::Equal { ty, dest, a, b }, ind) {
            lemma_statement_operator_injective(ind, ty, dest, a, b, ">"@, "=="@);
            assert(">"@[0] != "=="@[0] || ">"@.len() != "=="@.len());
        }
    }
    assert(instr_text(LirInstr::GreaterThan { ty, dest, a, b }, ind) != instr_text(LirInstr::NotEqual { ty, dest, a, b }, ind)) by {
        reveal_strlit(">");
        reveal_strlit("!=");
        if instr_text(LirInstr::GreaterThan { ty, dest, a, b }, ind) == instr_text(LirInstr::NotEqual { ty, dest, a, b }, ind) {
            lemma_statement_operator_injective(ind, ty, dest, a, b, ">"@, "!="@);
            assert(">"@[0] != "!="@[0] || ">"@.len() != "!="@.len());
        }
    }
    assert(instr_text(LirInstr::GreaterThanOrEqual { ty, dest, a, b }, ind) != instr_text(LirInstr::Equal { ty, dest, a, b }, ind)) by {
        reveal_strlit(">=");
        reveal_strlit("==");
        if instr_text(LirInstr::GreaterThanOrEqual { ty, dest, a, b }, ind) == instr_text(LirInstr::Equal { ty, dest, a, b }, ind) {
            lemma_statement_operator_injective(ind, ty, dest, a, b, ">="@, "=="@);
            assert(">="@[0] != "=="@[0] || ">="@.len() != "=="@.len());
        }
    }
    assert(instr_text(LirInstr::GreaterThanOrEqual { ty, dest, a, b }, ind) != instr_text(LirInstr::NotEqual { ty, dest, a, b }, ind)) by {
        reveal_strlit(">=");
        reveal_strlit("!=");
        if instr_text(LirInstr::GreaterThanOrEqual { ty, dest, a, b }, ind) == instr_text(LirInstr::NotEqual { ty, dest, a, b }, ind) {
            lemma_statement_operator_injective(ind, ty, dest, a, b, ">="@, "!="@);
            assert(">="@[0] != "!="@[0] || ">="@.len() != "!="@.len());
        }
    }
    assert(instr_text(LirInstr::Equal { ty, dest, a, b }, ind) != instr_text(LirInstr::NotEqual { ty, dest, a, b }, ind)) by {
        reveal_strlit("==");
        reveal_strlit("!=");
        if instr_text(LirInstr::Equal { ty, dest, a, b }, ind) == instr_text(LirInstr::NotEqual { ty, dest, a, b }, ind) {
            lemma_statement_operator_injective(ind, ty, dest, a, b, "=="@, "!="@);
            assert("=="@[0] != "!="@[0] || "=="@.len() != "!="@.len());
        }
    }
}


/// The C statement `T d = <op>s;` on its own line at indentation `ind`.
pub open spec fn c_unary_statement(ind: nat, ty: LirTy, dest: LirOperand, src: LirOperand, op: Seq<char>) -> Seq<char> {
    tabs(ind) + c_type(ty) + " "@ + operand_text(dest) + " = "@ + op + operand_text(src) + ";\n"@
}

/// Negation is emitted with C's `-` and logical not with C's `!`, so the two differ for the
/// same operands.
pub proof fn lemma_unary_instructions_keep_their_operator(ind: nat, ty: LirTy, dest: LirOperand, src: LirOperand)
    ensures
        instr_text(LirInstr::Negate { ty, dest, src }, ind) == c_unary_statement(ind, ty, dest, src, "-"@),
        instr_text(LirInstr::Not { ty, dest, src }, ind) == c_unary_statement(ind, ty, dest, src, "!"@),
        instr_text(LirInstr::Negate { ty, dest, src }, ind) != instr_text(LirInstr::Not { ty, dest, src }, ind),
{
    reveal_strlit(" ");
    reveal_strlit(" = ");
    reveal_strlit(" = -");
    reveal_strlit(" = !");
    reveal_strlit("-");
    reveal_strlit("!");
    reveal_strlit(";\n");
    let n = instr_text(LirInstr::Negate { ty, dest, src }, ind);
    let t = instr_text(LirInstr::Not { ty, dest, src }, ind);
    assert(n =~= c_unary_statement(ind, ty, dest, src, "-"@));
    assert(t =~= c_unary_statement(ind, ty, dest, src, "!"@));
    let k = (tabs(ind) + c_type(ty) + " "@ + operand_text(dest) + " = "@).len();
    assert(n[k as int] == '-');
    assert(t[k as int] == '!');
}

} // verus!
