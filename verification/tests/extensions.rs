//! Translations that other dialects give their own types, attributes and
//! operations; where errors are raised; and what is written before one.

use pliron_mlir_interop::ir::{
    AtomicOrderingAttr, Attr, Block, Context, DictValue, OpKind, Operation, Region, Signedness, Ty,
    Value,
};
use pliron_mlir_interop::printers::{print_attr, print_op, print_type, print_type_list, Indentation};
use pliron_mlir_interop::Error;

fn ctx0() -> Context {
    Context { structs: vec![] }
}

fn i32t() -> Ty {
    Ty::Integer { width: 32, signedness: Signedness::Signless }
}

fn val(name: &str, ty: Ty) -> Value {
    Value { name: name.to_string(), ty }
}

fn custom_ty(text: &str) -> Ty {
    Ty::Custom { text: text.to_string() }
}

fn bare(kind: OpKind, results: Vec<Value>, operands: Vec<Value>, location: usize) -> Operation {
    Operation { kind, results, operands, successors: vec![], regions: vec![], attributes: vec![], location }
}

fn render(op: &Operation) -> (Result<(), Error>, String) {
    let mut out = String::new();
    let r = print_op(&ctx0(), op, Indentation { level: 0, width: 2 }, &mut out);
    (r, out)
}

#[test]
fn custom_type_is_printed_verbatim() {
    let mut out = String::new();
    print_type(&ctx0(), &custom_ty("!mydialect.tensor<4xf32>"), &mut out).unwrap();
    assert_eq!(out, "!mydialect.tensor<4xf32>");
    let mut out = String::new();
    let ty = Ty::Array { size: 3, elem: Box::new(custom_ty("!my.t")) };
    print_type(&ctx0(), &ty, &mut out).unwrap();
    assert_eq!(out, "!llvm.array<3 x !my.t>");
}

#[test]
fn custom_attribute_is_printed_verbatim() {
    let mut out = String::new();
    print_attr(&ctx0(), &Attr::Custom { text: "#my.color<red>".to_string() }, &mut out).unwrap();
    assert_eq!(out, "#my.color<red>");
    let mut out = String::new();
    let v = Attr::Vec(vec![Attr::Custom { text: "#my.a".to_string() }, Attr::Unit]);
    print_attr(&ctx0(), &v, &mut out).unwrap();
    assert_eq!(out, "[#my.a, unit]");
}

#[test]
fn custom_op_prints_what_its_translation_gives() {
    let op = bare(
        OpKind::Custom {
            mnemonic: "my.add".to_string(),
            results: None,
            min_regions: 0,
            properties: vec![
                ("kind".to_string(), DictValue::Attr(Attr::Bool(true))),
                ("tag".to_string(), DictValue::Raw("#my.tag<1>".to_string())),
            ],
            attributes: vec![("note".to_string(), DictValue::Raw("\"hi\"".to_string()))],
        },
        vec![val("v2", custom_ty("!my.t"))],
        vec![val("v0", i32t()), val("v1", i32t())],
        0,
    );
    let (r, out) = render(&op);
    r.unwrap();
    assert_eq!(
        out,
        r#"%v2 = "my.add"(%v0, %v1) <{kind = true, tag = #my.tag<1>}> {note = "hi"} : (i32, i32) -> (!my.t)"#
    );
}

#[test]
fn custom_op_overrides_results_and_pads_regions() {
    let op = bare(
        OpKind::Custom {
            mnemonic: "my.call".to_string(),
            results: Some(vec![]),
            min_regions: 2,
            properties: vec![],
            attributes: vec![("callee".to_string(), DictValue::Attr(Attr::Identifier("f".to_string())))],
        },
        vec![val("v0", Ty::Void)],
        vec![],
        0,
    );
    let (r, out) = render(&op);
    r.unwrap();
    assert_eq!(out, r#""my.call"() ({}, {}) {callee = @f} : () -> ()"#);
}

#[test]
fn op_without_translation_carries_its_location() {
    let op = bare(OpKind::Unsupported { op_id: "test.mystery".to_string() }, vec![], vec![], 7);
    let (r, out) = render(&op);
    match r.unwrap_err() {
        Error::Located(7, inner) => assert!(matches!(*inner, Error::MissingOpTranslation(ref s) if s == "test.mystery")),
        other => panic!("unexpected error: {}", other.message()),
    }
    assert_eq!(out, "");
}

#[test]
fn atomic_access_without_alignment_carries_its_location() {
    let load = bare(
        OpKind::AtomicLoad { ordering: AtomicOrderingAttr::Acquire, syncscope: None, alignment: None },
        vec![val("v1", i32t())],
        vec![val("v0", Ty::Pointer { address_space: 0 })],
        3,
    );
    let (r, out) = render(&load);
    let err = r.unwrap_err();
    assert_eq!(err.message(), "Cannot translate to MLIR: MLIR requires an alignment on an atomic memory access");
    assert!(matches!(err, Error::Located(3, _)));
    assert_eq!(out, "");
}

#[test]
fn failed_type_writes_nothing() {
    let mut out = String::from("x");
    assert!(print_type(&ctx0(), &Ty::Other { type_id: "a.b".to_string() }, &mut out).is_err());
    assert_eq!(out, "x");
    let mut out = String::new();
    assert!(print_attr(&ctx0(), &Attr::Other { attr_id: "a.b".to_string() }, &mut out).is_err());
    assert_eq!(out, "");
    let mut out = String::new();
    assert!(print_attr(&ctx0(), &Attr::CaseValues(vec![]), &mut out).is_err());
    assert_eq!(out, "");
}

#[test]
fn failed_list_keeps_the_text_before_the_failure() {
    let mut out = String::new();
    let tys = vec![i32t(), Ty::Other { type_id: "a.b".to_string() }, Ty::FP32];
    let err = print_type_list(&ctx0(), &tys, &mut out).unwrap_err();
    assert_eq!(err.message(), "Type `a.b` does not implement ToMlirType");
    assert_eq!(out, "i32, ");
    let mut out = String::new();
    let ty = Ty::Array { size: 2, elem: Box::new(Ty::Other { type_id: "x.y".to_string() }) };
    assert!(print_type(&ctx0(), &ty, &mut out).is_err());
    assert_eq!(out, "!llvm.array<2 x ");
}

#[test]
fn failed_nested_op_keeps_the_text_before_it() {
    let inner = bare(OpKind::Unsupported { op_id: "t.x".to_string() }, vec![], vec![], 1);
    let module = Operation {
        kind: OpKind::Module { sym_name: "m".to_string() },
        results: vec![],
        operands: vec![],
        successors: vec![],
        regions: vec![Region { blocks: vec![Block { label: "b".to_string(), args: vec![], ops: vec![inner] }] }],
        attributes: vec![],
        location: 0,
    };
    let (r, out) = render(&module);
    assert!(matches!(r.unwrap_err(), Error::Located(1, _)));
    assert_eq!(out, "\"builtin.module\"() <{sym_name = \"m\"}> ({\n  ^b:\n    ");
}
