use atlas_77::lir::error::{CurrentFunctionDoesntExistError, NoReturnInFunctionError};
use atlas_77::codegen::{CCodeGen, STD_INCLUDES};
use atlas_77::hir::signature::ConstantValue;
use atlas_77::lir::program::{
    LirBlock, LirFunction, LirInstr, LirOperand, LirProgram, LirStruct, LirTerminator, LirTy, LirUnion,
};

fn temp(n: u32) -> LirOperand {
    LirOperand::Temp(n)
}

fn instr_text(instr: LirInstr, indent: usize) -> String {
    let mut cg = CCodeGen::new();
    cg.indent_level = indent;
    cg.codegen_instruction(&instr);
    cg.c_file
}

#[test]
fn c_types() {
    let mut cg = CCodeGen::new();
    assert_eq!(cg.codegen_type(&LirTy::Ptr { is_const: true, inner: Box::new(LirTy::Int32) }), "const int32_t*");
    assert_eq!(
        cg.codegen_type(&LirTy::Ptr { is_const: false, inner: Box::new(LirTy::Ptr { is_const: false, inner: Box::new(LirTy::Char) }) }),
        "uint32_t*"
    );
    assert_eq!(cg.codegen_type(&LirTy::ArrayTy { inner: Box::new(LirTy::Int8), size: 4 }), "int8_t[4]");
    assert_eq!(cg.codegen_type(&LirTy::Ptr { is_const: true, inner: Box::new(LirTy::Str) }), "char*");
    assert_eq!(cg.codegen_type(&LirTy::Unit), "void");
    assert_eq!(cg.codegen_type(&LirTy::StructType("Foo".to_string())), "Foo");
}

#[test]
fn c_operands() {
    let mut cg = CCodeGen::new();
    assert_eq!(cg.codegen_operand(&temp(3)), "temp_3");
    assert_eq!(cg.codegen_operand(&LirOperand::Arg(1)), "arg_1");
    assert_eq!(cg.codegen_operand(&LirOperand::ImmInt(-5)), "-5");
    assert_eq!(cg.codegen_operand(&LirOperand::ImmUInt(18446744073709551615)), "18446744073709551615");
    assert_eq!(cg.codegen_operand(&LirOperand::ImmChar('z')), "'z'");
    assert_eq!(cg.codegen_operand(&LirOperand::ImmUnit), "void");
    assert_eq!(cg.codegen_operand(&LirOperand::ImmBool(true)), "true");
    assert_eq!(cg.codegen_operand(&LirOperand::ImmFloat("2.5".to_string())), "2.5");
    assert_eq!(cg.codegen_operand(&LirOperand::Const(ConstantValue::String("a\"b\n".to_string()))), "\"a\\\"b\\n\"");
    assert_eq!(cg.codegen_operand(&LirOperand::Const(ConstantValue::Char('q'))), "'q'");
    assert_eq!(cg.codegen_operand(&LirOperand::Const(ConstantValue::Int(i64::MIN))), "-9223372036854775808");
    let deref = LirOperand::Deref(Box::new(temp(1)));
    assert_eq!(cg.codegen_operand(&deref), "(*temp_1)");
    assert_eq!(cg.codegen_operand(&LirOperand::AsRef(Box::new(temp(1)))), "(&temp_1)");
    let field = |src: LirOperand, is_arrow: bool| LirOperand::FieldAccess {
        src: Box::new(src),
        field_name: "x".to_string(),
        ty: LirTy::Int32,
        is_arrow,
    };
    assert_eq!(cg.codegen_operand(&field(LirOperand::Deref(Box::new(temp(1))), true)), "((*temp_1)).x");
    assert_eq!(cg.codegen_operand(&field(temp(1), true)), "temp_1->x");
    assert_eq!(cg.codegen_operand(&field(temp(1), false)), "(temp_1).x");
    let index = LirOperand::Index { src: Box::new(temp(1)), index: Box::new(LirOperand::ImmUInt(2)) };
    assert_eq!(cg.codegen_operand(&index), "temp_1[2]");
}

#[test]
fn arithmetic_and_comparison_lines() {
    let add = LirInstr::Add { ty: LirTy::Int64, dest: temp(0), a: temp(1), b: LirOperand::ImmInt(2) };
    assert_eq!(instr_text(add, 1), "\tint64_t temp_0 = temp_1 + 2;\n");
    let le = LirInstr::LessThanOrEqual { ty: LirTy::Boolean, dest: temp(0), a: temp(1), b: temp(2) };
    assert_eq!(instr_text(le, 0), "bool temp_0 = temp_1 <= temp_2;\n");
    let neg = LirInstr::Negate { ty: LirTy::Int32, dest: temp(0), src: temp(1) };
    assert_eq!(instr_text(neg, 0), "int32_t temp_0 = -temp_1;\n");
    let not = LirInstr::Not { ty: LirTy::Boolean, dest: temp(0), src: temp(1) };
    assert_eq!(instr_text(not, 2), "\t\tbool temp_0 = !temp_1;\n");
    let load = LirInstr::LoadConst { dst: temp(4), value: LirOperand::Const(ConstantValue::String("hi".to_string())) };
    assert_eq!(instr_text(load, 0), "char* temp_4 = \"hi\";\n");
}

#[test]
fn call_lines() {
    let call = LirInstr::Call { ty: LirTy::Int32, dst: Some(temp(0)), func_name: "f".to_string(), args: vec![LirOperand::Arg(0), LirOperand::Arg(1)] };
    assert_eq!(instr_text(call, 0), "int32_t temp_0 = f(arg_0, arg_1);\n");
    let call_void = LirInstr::Call { ty: LirTy::Unit, dst: None, func_name: "g".to_string(), args: vec![] };
    assert_eq!(instr_text(call_void, 0), "g();\n");
    let ext = LirInstr::ExternCall {
        ty: LirTy::Unit,
        dst: Some(temp(0)),
        func_name: "puts".to_string(),
        args: vec![LirOperand::Const(ConstantValue::String("hi".to_string()))],
    };
    assert_eq!(instr_text(ext, 0), "puts(\"hi\");\n");
}

#[test]
fn construction_lines() {
    let construct = LirInstr::Construct {
        ty: LirTy::Ptr { is_const: false, inner: Box::new(LirTy::StructType("Foo".to_string())) },
        dst: temp(0),
        args: vec![LirOperand::ImmInt(1)],
        ctor_kind: "__ctor".to_string(),
    };
    assert_eq!(instr_text(construct, 1), "\tFoo* temp_0 = {0};\n\tFoo___ctor(&temp_0, 1);\n");
    let heap = LirInstr::HeapAllocCopy { ty: LirTy::Int32, dst: temp(1), src: temp(0) };
    assert_eq!(
        instr_text(heap, 0),
        "int32_t* temp_1 = (int32_t*)malloc(sizeof(int32_t));\nif (temp_1 == NULL) {\nprintf(\"Failed to allocate memory for int32_t*\\n\");\nexit(1);\n}\nmemcpy(temp_1, &temp_0, sizeof(int32_t));\n"
    );
    let array = LirInstr::ConstructArray { ty: LirTy::ArrayTy { inner: Box::new(LirTy::Int32), size: 3 }, dst: temp(0), size: 3 };
    assert_eq!(instr_text(array, 0), "int32_t temp_0[3] = {0};\n");
    let union = LirInstr::ConstructUnion {
        ty: LirTy::UnionType("U".to_string()),
        dst: temp(0),
        field_values: vec![("a".to_string(), LirOperand::ImmInt(1)), ("b".to_string(), LirOperand::ImmInt(2))],
    };
    assert_eq!(instr_text(union, 0), "U temp_0 = { .a = 1, .b = 2 };\n");
}

#[test]
fn copy_delete_and_cast_lines() {
    let assign = LirInstr::Assign { ty: LirTy::ArrayTy { inner: Box::new(LirTy::Int8), size: 2 }, dst: temp(0), src: temp(1) };
    assert_eq!(instr_text(assign, 0), "memcpy(temp_0, temp_1, sizeof(int8_t) * 2);\n");
    let assign_plain = LirInstr::Assign { ty: LirTy::Int8, dst: temp(0), src: temp(1) };
    assert_eq!(instr_text(assign_plain, 0), "temp_0 = temp_1;\n");
    let copy = LirInstr::AggregateCopy { ty: LirTy::StructType("S".to_string()), dst: temp(0), src: temp(1) };
    assert_eq!(instr_text(copy, 0), "memcpy(temp_0, temp_1, sizeof(S));\n");
    let delete = LirInstr::Delete { ty: LirTy::StructType("Foo".to_string()), src: temp(2), should_free: true };
    assert_eq!(instr_text(delete, 0), "Foo___dtor(&temp_2);\nfree(temp_2);\n");
    let delete_ptr = LirInstr::Delete {
        ty: LirTy::Ptr { is_const: false, inner: Box::new(LirTy::StructType("Foo".to_string())) },
        src: temp(2),
        should_free: false,
    };
    assert_eq!(instr_text(delete_ptr, 0), "Foo___dtor(temp_2);\n");
    let delete_int = LirInstr::Delete { ty: LirTy::Int32, src: temp(2), should_free: false };
    assert_eq!(instr_text(delete_int, 0), "");
    let cast = LirInstr::Cast { ty: LirTy::Int64, from: LirTy::Int32, dst: temp(1), src: temp(0) };
    assert_eq!(instr_text(cast, 0), "int64_t temp_1 = (int64_t)temp_0;\n");
    let noop = LirInstr::Cast { ty: LirTy::Int32, from: LirTy::Int32, dst: temp(1), src: temp(0) };
    assert_eq!(instr_text(noop, 0), "//No-op cast, needs to be removed\nint32_t temp_1 = temp_0;\n");
    let field = LirInstr::FieldAccess { ty: LirTy::Int32, dst: temp(0), src: temp(1), field_name: "x".to_string() };
    assert_eq!(instr_text(field, 0), "");
}

#[test]
fn terminators() {
    let mut cg = CCodeGen::new();
    cg.indent_level = 1;
    cg.codegen_terminator(&LirTerminator::BranchIf { condition: temp(0), then_label: "a".to_string(), else_label: "b".to_string() });
    assert_eq!(cg.c_file, "\tif (temp_0) {\n\t\tgoto a;\n\t}\n\telse {\n\t\tgoto b;\n\t}\n");
    assert_eq!(cg.indent_level, 1);
    let mut cg = CCodeGen::new();
    cg.codegen_terminator(&LirTerminator::Return { value: Some(LirOperand::ImmInt(0)) });
    cg.codegen_terminator(&LirTerminator::Halt);
    cg.codegen_terminator(&LirTerminator::Unterminated);
    cg.codegen_terminator(&LirTerminator::Branch { target: "top".to_string() });
    assert_eq!(cg.c_file, "return 0;\nexit(0);\ngoto top;\n");
}

fn sample_function() -> LirFunction {
    LirFunction {
        name: "main".to_string(),
        args: vec![LirTy::Int32, LirTy::ArrayTy { inner: Box::new(LirTy::Int8), size: 4 }],
        return_type: None,
        blocks: vec![LirBlock { label: "entry".to_string(), instructions: vec![], terminator: LirTerminator::Return { value: None } }],
    }
}

#[test]
fn functions_and_signatures() {
    let mut cg = CCodeGen::new();
    assert_eq!(cg.codegen_signature("f", &[], &LirTy::Boolean), "bool f()");
    cg.codegen_function(&sample_function());
    assert_eq!(cg.c_header, "void main(int32_t arg_0, int8_t arg_1[4]);\n");
    assert_eq!(cg.c_file, "void main(int32_t arg_0, int8_t arg_1[4]) {\nentry:\n\treturn;\n}\n\n");
    assert_eq!(cg.indent_level, 0);
}

#[test]
fn struct_and_union_definitions() {
    let mut cg = CCodeGen::new();
    cg.codegen_struct(&LirStruct {
        name: "P".to_string(),
        fields: vec![("x".to_string(), LirTy::Int32), ("a".to_string(), LirTy::ArrayTy { inner: Box::new(LirTy::Char), size: 2 })],
    });
    assert_eq!(cg.c_header, "typedef struct P {\n\tint32_t x;\n\tuint32_t a[2];\n} P;\n\n\n");
    assert_eq!(cg.struct_names, vec!["P".to_string()]);
    let mut cg = CCodeGen::new();
    cg.codegen_union(&LirUnion { name: "U".to_string(), variants: vec![("i".to_string(), LirTy::Int64)] });
    assert_eq!(cg.c_header, "typedef union U {\n\tint64_t i;\n} U;\n\n\n");
    assert_eq!(cg.union_names, vec!["U".to_string()]);
}

#[test]
fn whole_program() {
    let program = LirProgram {
        functions: vec![sample_function()],
        extern_functions: vec![],
        structs: vec![LirStruct { name: "P".to_string(), fields: vec![("x".to_string(), LirTy::Int32)] }],
        unions: vec![],
    };
    let mut cg = CCodeGen::new();
    assert!(cg.emit_c(&program, "// portable").is_ok());
    assert_eq!(
        cg.c_header,
        "// portable\ntypedef struct P P;\ntypedef struct P {\n\tint32_t x;\n} P;\n\n\nvoid main(int32_t arg_0, int8_t arg_1[4]);\n"
    );
    let expected_file = format!(
        "{}\n#include \"__atlas77_header.h\"\n\n\nvoid main(int32_t arg_0, int8_t arg_1[4]) {{\nentry:\n\treturn;\n}}\n\n",
        STD_INCLUDES
    );
    assert_eq!(cg.c_file, expected_file);
}

#[test]
fn write_helpers() {
    let mut s = String::from("x");
    CCodeGen::write_to_file(&mut s, "y", 2);
    assert_eq!(s, "x\t\ty\n");
    CCodeGen::write_to_top(&mut s, "top");
    assert_eq!(s, "top\nx\t\ty\n");
}

#[test]
fn dead_blocks_are_removed() {
    let block = |label: &str, instructions: Vec<LirInstr>, terminator: LirTerminator| LirBlock {
        label: label.to_string(),
        instructions,
        terminator,
    };
    let mut f = LirFunction {
        name: "f".to_string(),
        args: vec![],
        return_type: None,
        blocks: vec![
            block("entry", vec![], LirTerminator::Branch { target: "b2".to_string() }),
            block("b1", vec![], LirTerminator::Unterminated),
            block("b2", vec![], LirTerminator::Unterminated),
            block("b3", vec![], LirTerminator::Halt),
            block("b4", vec![LirInstr::Assign { ty: LirTy::Int8, dst: temp(0), src: temp(1) }], LirTerminator::Unterminated),
        ],
    };
    f.remove_dead_blocks();
    let labels: Vec<&str> = f.blocks.iter().map(|b| b.label.as_str()).collect();
    assert_eq!(labels, vec!["entry", "b2", "b3", "b4"]);
}

#[test]
fn removing_dead_blocks_twice_changes_nothing() {
    let block = |label: &str, terminator: LirTerminator| LirBlock {
        label: label.to_string(),
        instructions: vec![],
        terminator,
    };
    let mut f = LirFunction {
        name: "g".to_string(),
        args: vec![],
        return_type: None,
        blocks: vec![
            block("entry", LirTerminator::Unterminated),
            block("dead", LirTerminator::Unterminated),
            block("cond", LirTerminator::BranchIf {
                condition: temp(0),
                then_label: "yes".to_string(),
                else_label: "entry".to_string(),
            }),
            block("yes", LirTerminator::Unterminated),
        ],
    };
    f.remove_dead_blocks();
    let once: Vec<String> = f.blocks.iter().map(|b| b.label.clone()).collect();
    assert_eq!(once, vec!["entry", "cond", "yes"]);
    f.remove_dead_blocks();
    let twice: Vec<String> = f.blocks.iter().map(|b| b.label.clone()).collect();
    assert_eq!(twice, once);
}

#[test]
fn sizes_of_types() {
    assert_eq!(LirTy::ArrayTy { inner: Box::new(LirTy::Int16), size: 5 }.size_of(), 10);
    assert_eq!(LirTy::Char.size_of(), 4);
    assert_eq!(LirTy::StructType("S".to_string()).size_of(), 8);
    assert_eq!(LirTy::Boolean.size_of(), 1);
}

#[test]
fn lowering_error_messages() {
    assert_eq!(
        CurrentFunctionDoesntExistError {}.to_string(),
        "Current function does not exist when trying to create a new block"
    );
    assert_eq!(NoReturnInFunctionError { name: "main".to_string() }.to_string(), "No return statement in function `main`");
}

#[test]
fn operand_kinds() {
    assert!(temp(3).is_temp());
    assert!(!temp(3).is_arg());
    assert_eq!(temp(3).get_temp_id(), Some(3));
    assert!(LirOperand::Arg(0).is_arg());
    assert_eq!(LirOperand::Arg(0).get_temp_id(), None);
}
