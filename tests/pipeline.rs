use patgen::ast::{AsmLine, AstTarget, OpVariant, Pattern, Variant};
use patgen::builder::{parse, process, process_block, strip_decoration};
use patgen::cond::{conditions, type_cond};
use patgen::emit::CodeEmitter;
use patgen::generate;
use patgen::grammar::{BlockItem, CodeParser, ParseError, PatternNode, Rule};
use patgen::template::{
    construct_assembly_build, first_to_uppercase, substitute_placeholders, tokenize, x86_specifc_arg,
};
use patgen::text::{split_str, to_decimal, trim_str};

const ADD_PATTERNS: &str = "def Pat<Add gr, gr -> gr> {
    asm -> lea $out, [$1 + $2]
}

def Pat<Add gr, imm -> gr> {
    rust -> if $out == $gr {
        asm -> add $out, $2
    rust -> } else {
        asm -> mov $out, $2
        asm -> add $out, $1
    rust -> }
}

def Pat<Add mem, mem -> mem> {
    asm -> mov %t1, $1
    asm -> add %t1, $2
    asm -> mov $out, %t1
}";

fn position(haystack: &str, needle: &str) -> usize {
    haystack.find(needle).unwrap_or_else(|| panic!("missing {needle:?} in {haystack}"))
}

#[test]
fn memory_displacement_expands_to_base_plus_offset() {
    let r = construct_assembly_build(AstTarget::X86, "lea $out, [$1 + $2]");
    assert_eq!(
        r,
        "Asm::with2(Mnemonic::Lea, node.get_out().into(), MemoryDispl::new(ls, MemoryOption::Plus, rs, ))"
    );
}

#[test]
fn memory_displacement_minus_and_literal() {
    let r = construct_assembly_build(AstTarget::X86, "mov $out, [rbp - 8]");
    assert_eq!(
        r,
        "Asm::with2(Mnemonic::Mov, node.get_out().into(), MemoryDispl::new(rbp, MemoryOption::Minus, 8, ))"
    );
}

#[test]
fn template_arity_and_placeholders() {
    assert_eq!(construct_assembly_build(AstTarget::X86, "ret"), "Asm::with0(Mnemonic::Ret)");
    assert_eq!(
        construct_assembly_build(AstTarget::X86, "add %t0, $3"),
        "Asm::with2(Mnemonic::Add, Operand::Tmp(0), op3)"
    );
}

#[test]
fn first_letter_is_capitalised() {
    assert_eq!(first_to_uppercase("lea"), "Lea");
    assert_eq!(first_to_uppercase("Mov"), "Mov");
    assert_eq!(first_to_uppercase(""), "");
}

#[test]
fn placeholders_are_rewritten_wherever_they_occur() {
    assert_eq!(
        substitute_placeholders("Mnemonic::Mov, $out, $1, $2, $3, %t0, %t1, %t2, %t3"),
        "Mnemonic::Mov, node.get_out().into(), ls, rs, op3, Operand::Tmp(0), Operand::Tmp(1), Operand::Tmp(2), %t3"
    );
    assert_eq!(
        construct_assembly_build(AstTarget::X86, "lea $out, [$1+$2]"),
        "Asm::with2(Mnemonic::Lea, node.get_out().into(), MemoryDispl::new(ls+rs, ))"
    );
    assert_eq!(construct_assembly_build(AstTarget::X86, "push []"), "Asm::with1(Mnemonic::Push, MemoryDispl::new())");
}

#[test]
fn raw_operands_are_appended() {
    let mut b = String::from("Mnemonic::Lea");
    let toks: Vec<String> = ["$out", "[", "$1", "+", "$2", "]"].iter().map(|t| t.to_string()).collect();
    assert_eq!(x86_specifc_arg(&mut b, &toks), 2);
    assert_eq!(b, "Mnemonic::Lea, $out, MemoryDispl::new($1, MemoryOption::Plus, $2, )");
}

#[test]
fn unicode_blanks_separate_tokens() {
    assert_eq!(tokenize("\u{c}mov\u{3000}$out,\u{b}$1 "), vec!["mov", "$out", "$1"]);
    assert_eq!(trim_str("\u{a0} x \u{2003}"), "x");
}

#[test]
fn tokens_split_on_blanks_commas_and_brackets() {
    assert_eq!(tokenize("lea $out, [$1+$2]"), vec!["lea", "$out", "[", "$1+$2", "]"]);
    assert_eq!(tokenize("  "), Vec::<String>::new());
}

#[test]
fn unsigned_lowers_to_negated_signed_check() {
    assert_eq!(type_cond("signed"), "node.get_ty().signed()");
    assert_eq!(type_cond("unsigned"), "!node.get_ty().signed()");
    assert_eq!(type_cond("int"), "node.get_ty().intenger()");
    assert_eq!(type_cond("float"), "node.get_ty().float()");
    assert_eq!(type_cond("no_float"), "!node.get_ty().float()");
    assert_eq!(type_cond("i64"), "node.is_ty(crate::IR::TypeMetadata::i64)");
}

#[test]
fn unsigned_annotation_in_a_pattern() {
    let file = parse("def Pat<Div gr, gr -> gr> (unsigned) {\n  asm -> div $2\n}").unwrap();
    let v = &file.patterns[0].variant;
    assert_eq!(v.ty.as_deref(), Some("unsigned"));
    let g = conditions(v);
    assert_eq!(g.last().unwrap(), "!node.get_ty().signed()");
    let file = parse("def Pat<Div gr, gr -> gr> (int) {\n  asm -> div $2\n}").unwrap();
    let g = conditions(&file.patterns[0].variant);
    assert_eq!(g.last().unwrap(), "node.get_ty().intenger()");
}

#[test]
fn vector_annotation_is_one_guard() {
    let file = parse("def Pat<Add gr, gr -> gr> <4xF32> {\n  asm -> add $out, $2\n}").unwrap();
    let g = conditions(&file.patterns[0].variant);
    assert_eq!(
        g,
        vec![
            "node.is_op_gr(0)",
            "node.is_op_gr(1)",
            "node.is_out_gr()",
            "node.is_ty(crate::IR::TypeMetadata::Vector(crate::IR::VecTy { size: 4, ty: crate::IR::StdTypeMetadata::F32}))",
        ]
    );
}

#[test]
fn wildcard_and_absent_constraints_add_no_guard() {
    let file = parse("def Pat<Mov any, imm, fp> {\n  asm -> mov $1, $2\n}").unwrap();
    let v = &file.patterns[0].variant;
    assert_eq!(v.ls, Some(OpVariant::Any));
    assert_eq!(v.rs, Some(OpVariant::Imm));
    assert_eq!(v.op3, Some(OpVariant::Fp));
    assert_eq!(v.out, None);
    assert_eq!(conditions(v), vec!["node.is_op_imm(1)", "node.is_op_fp(2)"]);
}

#[test]
fn invalid_operand_kind_aborts_without_output() {
    let text = "def Pat<Add reg, gr -> gr> {\n  asm -> add $out, $2\n}";
    assert_eq!(parse(text).err(), Some(ParseError::InvalidOpVariant { line: 1 }));
    assert_eq!(generate(text, AstTarget::X86), Err(ParseError::InvalidOpVariant { line: 1 }));
    let text = "def Pat<Add gr, gr -> reg> {\n}";
    assert_eq!(parse(text).err(), Some(ParseError::InvalidOpVariant { line: 1 }));
}

#[test]
fn each_fault_is_reported() {
    assert_eq!(parse("hello").err(), Some(ParseError::Syntax { line: 1 }));
    assert_eq!(parse("def Pat<Add gr> {\n  bogus\n}").err(), Some(ParseError::Syntax { line: 2 }));
    assert_eq!(parse("\ndef Pat<Add gr> {\n").err(), Some(ParseError::Unclosed { line: 2 }));
    assert_eq!(parse("def Pat<A-b gr> {\n}").err(), Some(ParseError::InvalidMnemonic { line: 1 }));
    assert_eq!(
        parse("def Pat<Add gr, gr, gr, gr> {\n}").err(),
        Some(ParseError::TooManyOperands { line: 1 })
    );
    assert_eq!(parse("def Pat<Add gr> () {\n}").err(), Some(ParseError::InvalidType { line: 1 }));
    assert_eq!(parse("def Pat<Add gr> <4F32> {\n}").err(), Some(ParseError::InvalidType { line: 1 }));
    assert_eq!(
        parse("def Pat<Add gr> {\n  asm -> lea $out, [$1\n}").err(),
        Some(ParseError::InvalidTemplate { line: 2 })
    );
    assert_eq!(
        parse("def Pat<Add gr> {\n  map %t0, imm\n}").err(),
        Some(ParseError::InvalidTemporary { line: 2 })
    );
    assert_eq!(
        parse("def Pat<Add gr> {\n  map t0, gr\n}").err(),
        Some(ParseError::InvalidTemporary { line: 2 })
    );
    assert_eq!(
        parse("def Pat<Add gr> {\n  clobber rax, , rdx\n}").err(),
        Some(ParseError::InvalidClobber { line: 2 })
    );
}

#[test]
fn grammar_reads_header_parts_and_block() {
    let text = "// comment\nasm_parser intel\n\ndef Pat<Add gr, imm -> gr> (int) {\n  map %t0, gr\n  clobber rax, rdx\n  hook after_add\n  asm -> add $out, $2;\n  rust -> if x {\n}\n";
    let tree = CodeParser::parse(text).unwrap();
    assert_eq!(tree.asm_parser.as_deref(), Some("intel"));
    assert_eq!(tree.patterns.len(), 1);
    let n = &tree.patterns[0];
    assert_eq!(n.line, 4);
    assert_eq!(n.mnemonic, "Add");
    assert_eq!(n.inputs, "gr, imm");
    assert_eq!(n.output, "gr");
    assert_eq!(n.ty, "(int)");
    assert_eq!(n.block.len(), 5);
    assert_eq!(n.block[3].text, "add $out, $2");
    assert_eq!(n.block[4].text, "if x {");

    let file = parse(text).unwrap();
    let p = &file.patterns[0];
    assert_eq!(p.maps.len(), 1);
    assert_eq!(p.maps[0].var, "%t0");
    assert_eq!(p.maps[0].ty, OpVariant::Gr);
    assert_eq!(p.clobbers, vec!["rax", "rdx"]);
    assert_eq!(p.hook.as_deref(), Some("after_add"));
    assert!(matches!(&p.lines[0], AsmLine::Asm(s) if s == "add $out, $2"));
    assert!(matches!(&p.lines[1], AsmLine::Rust(s) if s == "if x {"));
}

#[test]
fn annotation_decoration_is_stripped() {
    assert_eq!(strip_decoration("( unsigned )"), "unsigned");
    assert_eq!(strip_decoration("<4xF32>"), "<4xF32>");
}

#[test]
fn patterns_of_one_mnemonic_keep_input_order() {
    let out = generate(ADD_PATTERNS, AstTarget::X86).unwrap();
    let first = position(&out, "if node.is_op_gr(0) {\n      if node.is_op_gr(1) {");
    let second = position(&out, "if node.is_op_imm(1) {");
    let third = position(&out, "if node.is_op_mem(0) {");
    assert!(first < second && second < third);
    assert_eq!(out.matches("pub fn compile_Add(").count(), 1);
    assert_eq!(out.matches("DagOpCode::Add =>").count(), 1);
    assert!(out.contains("asm.push(Asm::with2(Mnemonic::Mov, Operand::Tmp(1), ls));"));
    assert!(out.contains("if $out == $gr {"));
}

#[test]
fn single_pattern_output_is_exact() {
    let out = generate("def Pat<Ret> {\n  asm -> ret\n}", AstTarget::X86).unwrap();
    let expected = "#[allow(warnings)]
pub fn compile(asm: &mut Vec<Asm>, node: DagNode, module: &mut crate::IR::Module) {
    match node.get_opcode() {
      DagOpCode::Ret => compile_Ret(asm, node, module),
      unimplemented => todo!(\"{:?}\", node),
    }
}

pub fn compile_Ret(asm: &mut Vec<Asm>, node: DagNode, module: &mut crate::IR::Module) {
    asm.push(Asm::with0(Mnemonic::Ret));
    return;
    todo!(\"not yet compilable variant: {} ({})\", node, node.get_ty())
}

pub fn tmps(node: &dag::DagNode) -> Vec<dag::DagTmpInfo> {
    Vec::new()
}

pub fn overwrittes(node: &dag::DagNode) -> Vec<Reg> {
    Vec::new()
}";
    assert_eq!(out, expected);
}

#[test]
fn one_pattern_per_mnemonic_has_empty_tables() {
    let text = "def Pat<Ret> {\n  asm -> ret\n}\ndef Pat<Nop> (int) {\n  asm -> nop\n}";
    let out = generate(text, AstTarget::X86).unwrap();
    assert!(out.contains("pub fn tmps(node: &dag::DagNode) -> Vec<dag::DagTmpInfo> {\n    Vec::new()\n}"));
    assert!(out.contains("pub fn overwrittes(node: &dag::DagNode) -> Vec<Reg> {\n    Vec::new()\n}"));
    assert!(out.contains("pub fn compile_Nop(asm: &mut Vec<Asm>, node: DagNode, module: &mut crate::IR::Module) {\n    if node.get_ty().intenger() {\n    asm.push(Asm::with0(Mnemonic::Nop));\n      return;\n    }\n"));
}

#[test]
fn generation_is_repeatable_and_keeps_first_seen_order() {
    let text = "def Pat<Sub gr, gr -> gr> {\n  asm -> sub $out, $2\n}\ndef Pat<Add gr, gr -> gr> {\n  asm -> add $out, $2\n}\ndef Pat<Sub gr, imm -> gr> {\n  asm -> sub $out, $2\n}";
    let a = generate(text, AstTarget::X86).unwrap();
    let b = generate(text, AstTarget::X86).unwrap();
    assert_eq!(a, b);
    assert!(position(&a, "pub fn compile_Sub(") < position(&a, "pub fn compile_Add("));
    assert!(position(&a, "DagOpCode::Sub =>") < position(&a, "DagOpCode::Add =>"));
}

#[test]
fn temporaries_and_clobbers_tables() {
    let text = "def Pat<Mul gr, gr -> gr> {\n  map %t0, fp\n  clobber rax, rdx\n  hook after_mul\n  asm -> mul $2\n}";
    let out = generate(text, AstTarget::X86).unwrap();
    assert!(out.contains("if let DagOpCode::Mul = node.get_opcode()  {if true  && node.is_op_gr(0) && node.is_op_gr(1) && node.is_out_gr() {"));
    assert!(out.contains("let ls_tmps = OperationHandler::new().tmp(&node.get_op(0), 0xF0);"));
    assert!(out.contains("let rs_tmps = OperationHandler::new().tmp(&node.get_op(1), 0xF1);"));
    assert!(out.contains("let mut tmp = dag::DagTmpInfo::new(0, node.get_ty());"));
    assert!(out.contains("tmp.require_fp();"));
    assert!(out.contains("overwrittes.push(Reg::rax);"));
    assert!(out.contains("overwrittes.push(Reg::rdx);"));
    assert!(out.contains("\treturn tmps;\n    }\t}"));
    assert!(out.contains("\treturn overwrittes;\n    }\t}"));
    assert!(out.contains("after_mul(asm, node);"));
    assert!(out.contains("let ls = {"));
    assert!(out.contains("Operand::Tmp(0xF1)"));
}

#[test]
fn emitter_used_directly() {
    let file = parse(ADD_PATTERNS).unwrap();
    let emitter = CodeEmitter { patterns: file.patterns };
    let out = emitter.gen(AstTarget::X86);
    assert!(out.starts_with("#[allow(warnings)]\npub fn compile("));
    let cond = emitter.construct_cond(&emitter.patterns[1]);
    assert_eq!(
        cond,
        "if let DagOpCode::Add = node.get_opcode()  {if true  && node.is_op_gr(0) && node.is_op_imm(1) && node.is_out_gr()"
    );
}

#[test]
fn text_helpers() {
    assert_eq!(to_decimal(0), "0");
    assert_eq!(to_decimal(12), "12");
    assert_eq!(to_decimal(305), "305");
    assert_eq!(trim_str(" \t a b \r"), "a b");
    assert_eq!(split_str("gr, imm ,mem"), vec!["gr", "imm", "mem"]);
    assert_eq!(OpVariant::from_str("mem"), Some(OpVariant::Mem));
    assert_eq!(OpVariant::from_str("reg"), None);
    assert_eq!(OpVariant::Fp.name(), "fp");
}

#[test]
fn empty_input_gives_only_fallbacks() {
    let file = parse("").unwrap();
    assert!(file.patterns.is_empty());
    assert_eq!(file.asm_parser, None);
    let out = generate("\n// nothing here\n", AstTarget::X86).unwrap();
    assert!(out.contains("match node.get_opcode() {\n      unimplemented => todo!"));
    assert!(!out.contains("pub fn compile_"));
}

#[test]
fn builder_on_hand_made_nodes() {
    let node = PatternNode {
        line: 7,
        mnemonic: "Shl".to_string(),
        inputs: "gr, imm".to_string(),
        output: "gr".to_string(),
        ty: "(signed)".to_string(),
        block: vec![BlockItem { line: 8, rule: Rule::AsmInstruction, text: "shl $out, $2".to_string() }],
    };
    let p = process(&node).unwrap();
    assert_eq!(p.variant.mnemonic, "Shl");
    assert_eq!(p.variant.ls, Some(OpVariant::Gr));
    assert_eq!(p.variant.rs, Some(OpVariant::Imm));
    assert_eq!(p.variant.out, Some(OpVariant::Gr));
    assert_eq!(p.variant.ty.as_deref(), Some("signed"));
    assert_eq!(p.lines.len(), 1);

    let mut q = Pattern {
        variant: Variant { mnemonic: "Nop".to_string(), ls: None, rs: None, op3: None, out: None, ty: None },
        lines: Vec::new(),
        maps: Vec::new(),
        clobbers: Vec::new(),
        hook: None,
    };
    let block = vec![
        BlockItem { line: 2, rule: Rule::RustInstruction, text: "let x = 1;".to_string() },
        BlockItem { line: 3, rule: Rule::Clobbers, text: "rcx".to_string() },
        BlockItem { line: 4, rule: Rule::TempMap, text: "%t3, mem".to_string() },
        BlockItem { line: 5, rule: Rule::AsmInstruction, text: "nop".to_string() },
        BlockItem { line: 6, rule: Rule::AsmInstruction, text: "lea [$1".to_string() },
    ];
    assert_eq!(process_block(&mut q, &block), Err(ParseError::InvalidTemplate { line: 6 }));
    assert_eq!(q.lines.len(), 2);
    assert!(q.clobbers.is_empty());
    assert!(q.maps.is_empty());

    let node = PatternNode {
        line: 1,
        mnemonic: "Nop".to_string(),
        inputs: String::new(),
        output: String::new(),
        ty: String::new(),
        block: vec![
            BlockItem { line: 2, rule: Rule::TempMap, text: "%t3, mem".to_string() },
            BlockItem { line: 3, rule: Rule::TempMap, text: "%t4, any".to_string() },
        ],
    };
    assert_eq!(process(&node).err(), Some(ParseError::InvalidTemporary { line: 3 }));
}

#[test]
fn semicolons_and_carriage_returns_are_dropped() {
    let file = parse("def Pat<Add gr> {\n  asm -> add $out;, $1;\n  clobber r\rax\n}").unwrap();
    assert!(matches!(&file.patterns[0].lines[0], AsmLine::Asm(s) if s == "add $out, $1"));
    let out = generate("def Pat<Add gr> {\n  clobber r\rax\n}", AstTarget::X86).unwrap();
    assert!(out.contains("overwrittes.push(Reg::rax);"));
}

#[test]
fn non_ascii_text_is_kept() {
    let text = "// größe\ndef Pat<Add gr> {\n  rust -> let s = \"é→ü\";\n}";
    let file = parse(text).unwrap();
    assert!(matches!(&file.patterns[0].lines[0], AsmLine::Rust(s) if s == "let s = \"é→ü\";"));
    assert_eq!(file.patterns[0].variant.mnemonic, "Add");
}

#[test]
fn variant_pattern_mnemonics_share_a_function() {
    let text = "def Pat<Call(_) gr> {\n  asm -> call $1\n}\ndef Pat<Call imm> {\n  asm -> call $1\n}";
    let out = generate(text, AstTarget::X86).unwrap();
    assert!(out.contains("  DagOpCode::Call(_) => compile_Call(asm, node, module),"));
    assert!(out.contains("  DagOpCode::Call => compile_Call(asm, node, module),"));
    assert_eq!(out.matches("pub fn compile_Call(").count(), 1);
    assert!(position(&out, "if node.is_op_gr(0) {") < position(&out, "if node.is_op_imm(0) {"));
    assert_eq!(parse("def Pat<(_) gr> {\n}").err(), Some(ParseError::InvalidMnemonic { line: 1 }));
}
