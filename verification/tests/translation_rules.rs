//! The translation's rules, each on inputs of its own.

use pliron_mlir_interop::ir::{
    ApInt, AtomicOrderingAttr, Attr, Block, Context, DirectOp, GepIndexAttr, IntegerAttr,
    IntegerTy, LinkageAttr, OpKind, Operation, Region, SegmentSizes, Signedness, Ty, Value,
};
use pliron_mlir_interop::printers::{
    mlir_dense_array, mlir_hex_float, mlir_string_literal, print_attr, print_generic_op, print_op,
    GenericOp, Indentation,
};
use pliron_mlir_interop::Error;

fn ctx0() -> Context {
    Context { structs: vec![] }
}

fn i32t() -> Ty {
    Ty::Integer { width: 32, signedness: Signedness::Signless }
}

fn val(name: &str, ty: Ty) -> Value {
    Value { name: name.to_string(), ty }
}

fn bare(kind: OpKind, results: Vec<Value>, operands: Vec<Value>) -> Operation {
    Operation { kind, results, operands, successors: vec![], regions: vec![], attributes: vec![], location: 0 }
}

/// Printing from `level` on, two spaces deeper per nesting level.
fn at(level: usize) -> Indentation {
    Indentation { level, width: 2 }
}

fn render(op: &Operation, level: usize) -> Result<String, Error> {
    let mut out = String::new();
    print_op(&ctx0(), op, at(level), &mut out).map(|()| out)
}

fn small_int(v: u32) -> IntegerAttr {
    IntegerAttr {
        ty: IntegerTy { width: 32, signedness: Signedness::Signless },
        value: ApInt::new(v.to_le_bytes().to_vec(), 32).unwrap(),
    }
}

#[test]
fn string_literal_escapes_everything_but_printable_ascii() {
    assert_eq!(mlir_string_literal("plain text ~!"), "\"plain text ~!\"");
    assert_eq!(mlir_string_literal("a\"b\\c\nd\te"), r#""a\"b\\c\nd\te""#);
    assert_eq!(mlir_string_literal("\u{1}\u{7f}é"), r#""\01\7F\C3\A9""#);
    assert_eq!(mlir_string_literal(""), "\"\"");
}

#[test]
fn hex_float_is_padded_to_the_width() {
    assert_eq!(mlir_hex_float(0x7FC00000, 32), "0x7FC00000");
    assert_eq!(mlir_hex_float(1, 16), "0x0001");
    assert_eq!(mlir_hex_float(0, 64), "0x0000000000000000");
    // Bits wider than the width are all printed.
    assert_eq!(mlir_hex_float(0x12345, 16), "0x12345");
}

#[test]
fn dense_array_without_elements_has_no_colon() {
    assert_eq!(mlir_dense_array("i32", &[]), "array<i32>");
    assert_eq!(mlir_dense_array("i64", &[1, -2, 300]), "array<i64: 1, -2, 300>");
}

#[test]
fn generic_fallback_forwards_attributes_but_given_names() {
    let mut op = bare(OpKind::Generic { op_id: "test.op".to_string() }, vec![val("v0", i32t())], vec![val("v1", i32t())]);
    op.attributes = vec![
        ("builtin_given_names".to_string(), Attr::Vec(vec![Attr::Str("x".to_string())])),
        ("flag".to_string(), Attr::Unit),
        ("n".to_string(), Attr::Integer(small_int(5))),
    ];
    assert_eq!(
        render(&op, 0).unwrap(),
        r#"%v0 = "test.op"(%v1) {flag = unit, n = 5 : i32} : (i32) -> (i32)"#
    );
    let mut out = String::new();
    print_generic_op(&ctx0(), &op, "other.name", at(0), &mut out).unwrap();
    assert_eq!(out, r#"%v0 = "other.name"(%v1) {flag = unit, n = 5 : i32} : (i32) -> (i32)"#);
}

#[test]
fn op_without_translation_is_an_error() {
    let op = bare(OpKind::Unsupported { op_id: "test.mystery".to_string() }, vec![], vec![]);
    let err = render(&op, 0).unwrap_err();
    assert_eq!(err.message(), "Op `test.mystery` does not implement ToMlirOp");
    // Nested inside a module, the error is the module's too.
    let module = Operation {
        kind: OpKind::Module { sym_name: "m".to_string() },
        results: vec![],
        operands: vec![],
        successors: vec![],
        regions: vec![Region { blocks: vec![Block { label: "b".to_string(), args: vec![], ops: vec![op] }] }],
        attributes: vec![],
        location: 0,
    };
    assert_eq!(render(&module, 0).unwrap_err().message(), "Op `test.mystery` does not implement ToMlirOp");
}

#[test]
fn atomic_access_without_alignment_is_an_error() {
    let p = || val("v0", Ty::Pointer { address_space: 0 });
    let load = bare(
        OpKind::AtomicLoad { ordering: AtomicOrderingAttr::Acquire, syncscope: None, alignment: None },
        vec![val("v1", i32t())],
        vec![p()],
    );
    let err = render(&load, 0).unwrap_err();
    assert_eq!(err.message(), "Cannot translate to MLIR: MLIR requires an alignment on an atomic memory access");
    let store = bare(
        OpKind::AtomicStore { ordering: AtomicOrderingAttr::Release, syncscope: None, alignment: None },
        vec![],
        vec![val("v1", i32t()), p()],
    );
    assert!(render(&store, 0).is_err());
}

#[test]
fn unsupported_linkage_fails_the_function() {
    let func = Operation {
        kind: OpKind::Func {
            sym_name: "f".to_string(),
            func_type: Ty::Func { result: Box::new(Ty::Void), args: vec![], var_arg: false },
            linkage: Some(LinkageAttr::DLLExportLinkage),
        },
        results: vec![],
        operands: vec![],
        successors: vec![],
        regions: vec![],
        attributes: vec![],
        location: 0,
    };
    assert_eq!(
        render(&func, 0).unwrap_err().message(),
        "Cannot translate to MLIR: DLLExportLinkage has no MLIR equivalent"
    );
}

#[test]
fn switch_without_cases_has_empty_case_segments() {
    let cond = || val("v0", i32t());
    let op = |case_values: Option<Vec<IntegerAttr>>| Operation {
        kind: OpKind::Switch { segments: SegmentSizes::new(vec![1, 0]).unwrap(), case_values },
        results: vec![],
        operands: vec![cond()],
        successors: vec!["d".to_string()],
        regions: vec![],
        attributes: vec![],
        location: 0,
    };
    let expected = r#""llvm.switch"(%v0) [^d] <{case_operand_segments = array<i32>, operandSegmentSizes = array<i32: 1, 0, 0>}> : (i32) -> ()"#;
    assert_eq!(render(&op(None), 0).unwrap(), expected);
    // An empty case value list is left off, as MLIR does.
    assert_eq!(render(&op(Some(vec![])), 0).unwrap(), expected);
}

#[test]
fn switch_case_operands_are_lumped_into_one_segment() {
    let n = || val("v0", i32t());
    let op = Operation {
        kind: OpKind::Switch {
            segments: SegmentSizes::new(vec![1, 2, 3, 0, 4]).unwrap(),
            case_values: Some(vec![small_int(1), small_int(2), small_int(3)]),
        },
        results: vec![],
        operands: vec![n()],
        successors: vec![],
        regions: vec![],
        attributes: vec![],
        location: 0,
    };
    assert_eq!(
        render(&op, 0).unwrap(),
        r#""llvm.switch"(%v0) <{case_operand_segments = array<i32: 3, 0, 4>, operandSegmentSizes = array<i32: 1, 2, 7>, case_values = dense<[1, 2, 3]> : vector<3xi32>}> : (i32) -> ()"#
    );
}

#[test]
fn segment_sizes_total_must_fit_a_u32() {
    assert!(SegmentSizes::new(vec![u32::MAX]).is_some());
    assert!(SegmentSizes::new(vec![u32::MAX, 1]).is_none());
    assert!(SegmentSizes::new(vec![]).is_some());
}

#[test]
fn indirect_branch_without_segments() {
    let op = bare(OpKind::IndirectBr { segments: vec![] }, vec![], vec![]);
    assert_eq!(
        render(&op, 0).unwrap(),
        r#""llvm.indirectbr"() <{indbr_operand_segments = array<i32>}> : () -> ()"#
    );
}

#[test]
fn void_results_are_dropped() {
    let inline = |ty: Ty| {
        bare(
            OpKind::InlineAsm { template: "x".to_string(), constraints: "".to_string(), convergent: None },
            vec![val("r", ty)],
            vec![],
        )
    };
    assert_eq!(
        render(&inline(Ty::Void), 0).unwrap(),
        r#""llvm.inline_asm"() <{asm_string = "x", constraints = ""}> : () -> ()"#
    );
    assert_eq!(
        render(&inline(i32t()), 0).unwrap(),
        r#"%r = "llvm.inline_asm"() <{asm_string = "x", constraints = ""}> : () -> (i32)"#
    );
}

#[test]
fn gep_indices_keep_constants_and_mark_operands() {
    let mut out = String::new();
    let attr = Attr::GepIndices(vec![
        GepIndexAttr::Constant(5),
        GepIndexAttr::OperandIdx(1),
        GepIndexAttr::OperandIdx(2),
        GepIndexAttr::Constant(-3i32 as u32),
    ]);
    print_attr(&ctx0(), &attr, &mut out).unwrap();
    assert_eq!(out, "array<i32: 5, -2147483648, -2147483648, -3>");
}

#[test]
fn large_numbers_print_in_full() {
    let mut out = String::new();
    print_attr(&ctx0(), &Attr::Alignment(u32::MAX), &mut out).unwrap();
    assert_eq!(out, "4294967295 : i64");
    let wide = IntegerAttr {
        ty: IntegerTy { width: 64, signedness: Signedness::Signed },
        value: ApInt::new(i64::MIN.to_le_bytes().to_vec(), 64).unwrap(),
    };
    let mut out = String::new();
    print_attr(&ctx0(), &Attr::Integer(wide), &mut out).unwrap();
    assert_eq!(out, "-9223372036854775808 : si64");
}

#[test]
fn zero_width_integers_do_not_exist() {
    assert!(ApInt::new(vec![1], 0).is_none());
}

#[test]
fn nested_regions_indent_by_two() {
    let inner = bare(OpKind::Direct(DirectOp::Unreachable), vec![], vec![]);
    let module = Operation {
        kind: OpKind::Module { sym_name: "m".to_string() },
        results: vec![],
        operands: vec![],
        successors: vec![],
        regions: vec![Region { blocks: vec![Block { label: "b".to_string(), args: vec![], ops: vec![inner] }] }],
        attributes: vec![],
        location: 0,
    };
    assert_eq!(
        render(&module, 4).unwrap(),
        "\"builtin.module\"() <{sym_name = \"m\"}> ({\n      ^b:\n        \"llvm.unreachable\"() : () -> ()\n    }) : () -> ()"
    );
}

#[test]
fn generic_op_builder() {
    let op = bare(OpKind::Generic { op_id: "x.y".to_string() }, vec![val("v0", i32t())], vec![val("v1", i32t())]);
    let unit = Attr::Unit;
    let printed = {
        let g = GenericOp::new(&op, "x.y")
            .prop_attr("a", &unit)
            .prop_attr_opt("b", None)
            .prop_raw("c", "1".to_string())
            .prop_raw_opt("d", None)
            .attr_raw("e", "2".to_string())
            .min_regions(2)
            .results(vec![]);
        let mut out = String::new();
        g.print(&ctx0(), at(0), &mut out).unwrap();
        out
    };
    assert_eq!(printed, r#""x.y"(%v1) <{a = unit, c = 1}> ({}, {}) {e = 2} : (i32) -> ()"#);
}

#[test]
fn error_messages() {
    assert_eq!(Error::Fmt.message(), "Error formatting to MLIR text");
    assert_eq!(Error::MissingTypeTranslation("t".to_string()).message(), "Type `t` does not implement ToMlirType");
    assert_eq!(Error::MissingAttrTranslation("a".to_string()).message(), "Attribute `a` does not implement ToMlirAttr");
    assert_eq!(Error::MissingOpTranslation("o".to_string()).message(), "Op `o` does not implement ToMlirOp");
    assert_eq!(Error::Untranslatable("why".to_string()).message(), "Cannot translate to MLIR: why");
}

/// The bytes that the body of an MLIR string literal stands for.
fn read_literal(lit: &str) -> Vec<u8> {
    let body = lit.strip_prefix('"').and_then(|s| s.strip_suffix('"')).expect("quoted");
    let chars: Vec<char> = body.chars().collect();
    let mut bytes = vec![];
    let mut i = 0;
    while i < chars.len() {
        if chars[i] == '\\' {
            match chars[i + 1] {
                '"' => bytes.push(b'"'),
                '\\' => bytes.push(b'\\'),
                'n' => bytes.push(b'\n'),
                't' => bytes.push(b'\t'),
                hi => {
                    let lo = chars[i + 2];
                    bytes.push((hi.to_digit(16).unwrap() * 16 + lo.to_digit(16).unwrap()) as u8);
                    i += 1;
                }
            }
            i += 2;
        } else {
            assert!((' '..='~').contains(&chars[i]));
            bytes.push(chars[i] as u8);
            i += 1;
        }
    }
    bytes
}

#[test]
fn string_literals_read_back() {
    for s in ["", "abc", "a\"b\\c", "tab\there\nnew", "\u{0}\u{1f}\u{7f}", "ünïcödé ✓"] {
        let lit = mlir_string_literal(s);
        assert!(lit.chars().all(|c| (' '..='~').contains(&c)));
        assert_eq!(read_literal(&lit), s.as_bytes());
    }
}

#[test]
fn gep_indices_read_back() {
    let indices = vec![
        GepIndexAttr::OperandIdx(1),
        GepIndexAttr::Constant(0),
        GepIndexAttr::Constant(-5i32 as u32),
        GepIndexAttr::OperandIdx(2),
    ];
    let mut out = String::new();
    print_attr(&ctx0(), &Attr::GepIndices(indices), &mut out).unwrap();
    let raw: Vec<i64> = out
        .strip_prefix("array<i32: ")
        .and_then(|s| s.strip_suffix('>'))
        .unwrap()
        .split(", ")
        .map(|n| n.parse().unwrap())
        .collect();
    let mut next = 1;
    let read: Vec<String> = raw
        .iter()
        .map(|&r| {
            if r == i32::MIN as i64 {
                next += 1;
                format!("operand {}", next - 1)
            } else {
                format!("constant {}", r as i32 as u32)
            }
        })
        .collect();
    assert_eq!(read, vec!["operand 1", "constant 0", "constant 4294967291", "operand 2"]);
}

#[test]
fn padding_never_drops_regions() {
    let region = || Region { blocks: vec![Block { label: "b".to_string(), args: vec![], ops: vec![] }] };
    let op = Operation {
        kind: OpKind::Generic { op_id: "x.two".to_string() },
        results: vec![],
        operands: vec![],
        successors: vec![],
        regions: vec![region(), region()],
        attributes: vec![],
        location: 0,
    };
    let print_with_min = |min: usize| {
        let mut out = String::new();
        GenericOp::new(&op, "x.two").min_regions(min).print(&ctx0(), at(0), &mut out).unwrap();
        out
    };
    let expected = "\"x.two\"() ({\n  ^b:\n}, {\n  ^b:\n}) : () -> ()";
    assert_eq!(print_with_min(0), expected);
    assert_eq!(print_with_min(1), expected);
    assert_eq!(print_with_min(2), expected);
    assert_eq!(print_with_min(3), "\"x.two\"() ({\n  ^b:\n}, {\n  ^b:\n}, {}) : () -> ()");
}

#[test]
fn empty_module() {
    let module = Operation {
        kind: OpKind::Module { sym_name: "a_module".to_string() },
        results: vec![],
        operands: vec![],
        successors: vec![],
        regions: vec![Region { blocks: vec![Block { label: "block1v1".to_string(), args: vec![], ops: vec![] }] }],
        attributes: vec![],
        location: 0,
    };
    assert_eq!(
        render(&module, 0).unwrap(),
        "\"builtin.module\"() <{sym_name = \"a_module\"}> ({\n  ^block1v1:\n}) : () -> ()"
    );
}

#[test]
fn indentation_width_is_the_callers() {
    let inner = bare(OpKind::Direct(DirectOp::Unreachable), vec![], vec![]);
    let module = Operation {
        kind: OpKind::Module { sym_name: "m".to_string() },
        results: vec![],
        operands: vec![],
        successors: vec![],
        regions: vec![Region { blocks: vec![Block { label: "b".to_string(), args: vec![], ops: vec![inner] }] }],
        attributes: vec![],
        location: 0,
    };
    let mut out = String::new();
    print_op(&ctx0(), &module, Indentation { level: 1, width: 4 }, &mut out).unwrap();
    assert_eq!(
        out,
        "\"builtin.module\"() <{sym_name = \"m\"}> ({\n     ^b:\n         \"llvm.unreachable\"() : () -> ()\n }) : () -> ()"
    );
}

#[test]
fn unset_linkage_prints_as_external() {
    let func = |linkage: Option<LinkageAttr>| Operation {
        kind: OpKind::Func {
            sym_name: "g".to_string(),
            func_type: Ty::Func { result: Box::new(i32t()), args: vec![], var_arg: false },
            linkage,
        },
        results: vec![],
        operands: vec![],
        successors: vec![],
        regions: vec![],
        attributes: vec![],
        location: 0,
    };
    let unset = render(&func(None), 0).unwrap();
    assert_eq!(unset, render(&func(Some(LinkageAttr::ExternalLinkage)), 0).unwrap());
    assert_eq!(
        unset,
        r#""llvm.func"() <{function_type = !llvm.func<i32 ()>, linkage = #llvm.linkage<external>, sym_name = "g"}> ({}) : () -> ()"#
    );
}
