//! Translation of the builtin dialect to MLIR.

use pliron_mlir_interop::ir::{
    ApInt, Attr, Block, Context, IntegerAttr, IntegerTy, OpKind, Operation, Region, Signedness,
    Ty, Value, DirectOp,
};
use pliron_mlir_interop::printers::{print_attr, print_op, print_type, Indentation};

fn no_structs() -> Context {
    Context { structs: vec![] }
}

fn int_ty(width: u32, signedness: Signedness) -> Ty {
    Ty::Integer { width, signedness }
}

fn i32_ty() -> Ty {
    int_ty(32, Signedness::Signless)
}

fn type_text(ty: &Ty) -> String {
    let mut out = String::new();
    print_type(&no_structs(), ty, &mut out).expect("the type translates");
    out
}

fn attr_text(attr: &Attr) -> String {
    let mut out = String::new();
    print_attr(&no_structs(), attr, &mut out).expect("the attribute translates");
    out
}

fn op_text(op: &Operation) -> String {
    let mut out = String::new();
    print_op(&no_structs(), op, Indentation { level: 0, width: 2 }, &mut out).expect("the op translates");
    out
}

fn int_attr(width: u32, signedness: Signedness, bytes: Vec<u8>) -> IntegerAttr {
    IntegerAttr {
        ty: IntegerTy { width, signedness },
        value: ApInt::new(bytes, width as usize).expect("a nonzero width"),
    }
}

fn value(name: &str, ty: Ty) -> Value {
    Value { name: name.to_string(), ty }
}

fn operation(kind: OpKind, results: Vec<Value>, operands: Vec<Value>, regions: Vec<Region>) -> Operation {
    Operation { kind, results, operands, successors: vec![], regions, attributes: vec![], location: 0 }
}

#[test]
fn builtin_types() {
    let types = vec![
        int_ty(1, Signedness::Signless),
        int_ty(32, Signedness::Signless),
        int_ty(64, Signedness::Signed),
        int_ty(8, Signedness::Unsigned),
        Ty::FP16,
        Ty::FP32,
        Ty::FP64,
    ];
    let printed: Vec<String> = types.iter().map(type_text).collect();
    assert_eq!(printed.join("\n"), "i1\ni32\nsi64\nui8\nf16\nf32\nf64");
}

#[test]
fn function_type() {
    let no_args = Ty::Function { args: vec![], results: vec![] };
    let two_and_one = Ty::Function { args: vec![i32_ty(), Ty::FP64], results: vec![i32_ty()] };
    let printed = vec![type_text(&no_args), type_text(&two_and_one)];
    assert_eq!(printed.join("\n"), "() -> ()\n(i32, f64) -> (i32)");
}

#[test]
fn builtin_attributes() {
    let attrs = vec![
        Attr::Identifier("some_symbol".to_string()),
        Attr::Str("hello \"world\"\n\tand a \\ and \u{e9}".to_string()),
        Attr::Bytes(vec![0, 1, 255]),
        Attr::Bool(true),
        Attr::Bool(false),
        Attr::Integer(int_attr(32, Signedness::Signless, vec![42, 0, 0, 0])),
        Attr::Integer(int_attr(32, Signedness::Signed, (-7i32).to_le_bytes().to_vec())),
        Attr::FPHalf(0x3E00),
        Attr::FPSingle((-2.25f32).to_bits()),
        Attr::FPDouble(core::f64::consts::PI.to_string().parse::<f64>().unwrap().to_bits()),
        Attr::Unit,
        Attr::Type(i32_ty()),
        Attr::Vec(vec![Attr::Bool(true), Attr::Str("x".to_string())]),
        Attr::Dict(vec![
            ("a".to_string(), Attr::Bool(false)),
            ("b".to_string(), Attr::Str("y".to_string())),
        ]),
        Attr::OperandSegmentSizes(vec![1, 0, 2]),
    ];
    let printed: Vec<String> = attrs.iter().map(attr_text).collect();
    assert_eq!(
        printed.join("\n"),
        r#"@some_symbol
"hello \"world\"\n\tand a \\ and \C3\A9"
array<i8: 0, 1, -1>
true
false
42 : i32
-7 : si32
0x3E00 : f16
0xC0100000 : f32
0x400921FB54442D18 : f64
unit
i32
[true, "x"]
{a = false, b = "y"}
array<i32: 1, 0, 2>"#
    );
}

/// `builtin.module` / `builtin.func` / `builtin.constant`. MLIR's builtin
/// dialect has neither a function nor a constant op, so the latter two become
/// `func.func` and `arith.constant`.
#[test]
fn ops() {
    let constant = operation(
        OpKind::BuiltinConstant {
            value: Attr::Integer(int_attr(32, Signedness::Signless, vec![42, 0, 0, 0])),
        },
        vec![value("v1", i32_ty())],
        vec![],
        vec![],
    );
    let ret = operation(OpKind::Direct(DirectOp::Return), vec![], vec![value("v1", i32_ty())], vec![]);
    let func = operation(
        OpKind::BuiltinFunc {
            sym_name: "answer".to_string(),
            function_type: Ty::Function { args: vec![i32_ty()], results: vec![i32_ty()] },
        },
        vec![],
        vec![],
        vec![Region {
            blocks: vec![Block {
                label: "entry_block2v1".to_string(),
                args: vec![value("v0", i32_ty())],
                ops: vec![constant, ret],
            }],
        }],
    );
    // A body-less function is a declaration.
    let decl = operation(
        OpKind::BuiltinFunc {
            sym_name: "declared".to_string(),
            function_type: Ty::Function { args: vec![], results: vec![] },
        },
        vec![],
        vec![],
        vec![Region { blocks: vec![] }],
    );
    let module = operation(
        OpKind::Module { sym_name: "a_module".to_string() },
        vec![],
        vec![],
        vec![Region {
            blocks: vec![Block { label: "block1v1".to_string(), args: vec![], ops: vec![func, decl] }],
        }],
    );
    assert_eq!(
        op_text(&module),
        r#""builtin.module"() <{sym_name = "a_module"}> ({
  ^block1v1:
    "func.func"() <{function_type = (i32) -> (i32), sym_name = "answer"}> ({
      ^entry_block2v1(%v0: i32):
        %v1 = "arith.constant"() <{value = 42 : i32}> : () -> (i32)
        "llvm.return"(%v1) : (i32) -> ()
    }) : () -> ()
    "func.func"() <{function_type = () -> (), sym_name = "declared", sym_visibility = "private"}> ({
    }) : () -> ()
}) : () -> ()"#
    );
}
