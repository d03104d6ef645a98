//! Translation of the LLVM dialect's types to MLIR.

use pliron_mlir_interop::ir::{Context, Signedness, StructBody, StructLayout, Ty, VectorTypeKind};
use pliron_mlir_interop::printers::{print_type, print_type_list};

fn signless(width: u32) -> Ty {
    Ty::Integer { width, signedness: Signedness::Signless }
}

fn print_in(ctx: &Context, ty: &Ty) -> String {
    let mut out = String::new();
    print_type(ctx, ty, &mut out).expect("the type translates");
    out
}

#[test]
fn llvm_types_types() {
    let ctx = Context { structs: vec![] };
    let types = vec![
        Ty::Pointer { address_space: 0 },
        Ty::Pointer { address_space: 3 },
        Ty::Array { size: 4, elem: Box::new(signless(8)) },
        Ty::Vector { kind: VectorTypeKind::Fixed, num_elements: 4, elem: Box::new(signless(32)) },
        Ty::Vector { kind: VectorTypeKind::Scalable, num_elements: 2, elem: Box::new(Ty::FP32) },
        // `!llvm.void` is only ever a function result.
        Ty::Func { result: Box::new(Ty::Void), args: vec![signless(32)], var_arg: false },
        Ty::Func { result: Box::new(signless(32)), args: vec![signless(8)], var_arg: true },
        Ty::Func { result: Box::new(signless(32)), args: vec![], var_arg: true },
        Ty::UnnamedStruct { fields: vec![signless(32), Ty::FP32], layout: StructLayout::Unpacked },
        Ty::UnnamedStruct { fields: vec![signless(8), signless(32)], layout: StructLayout::Packed },
        Ty::NamedStruct { name: "Pair".to_string() },
    ];
    let printed: Vec<String> = types.iter().map(|ty| print_in(&ctx, ty)).collect();
    assert_eq!(
        printed.join("\n"),
        r#"!llvm.ptr
!llvm.ptr<3>
!llvm.array<4 x i8>
vector<4 x i32>
vector<[2] x f32>
!llvm.func<!llvm.void (i32)>
!llvm.func<i32 (i8, ...)>
!llvm.func<i32 (...)>
!llvm.struct<(i32, f32)>
!llvm.struct<packed (i8, i32)>
!llvm.struct<"Pair", opaque>"#
    );
}

/// A named struct whose body refers back to itself prints as
/// `!llvm.struct<"name">` on the recursive edge, exactly as MLIR does.
#[test]
fn recursive_struct() {
    let nested = Ty::UnnamedStruct {
        fields: vec![Ty::NamedStruct { name: "LinkedList".to_string() }, signless(64)],
        layout: StructLayout::Unpacked,
    };
    let ctx = Context {
        structs: vec![StructBody {
            name: "LinkedList".to_string(),
            fields: vec![signless(64), Ty::Pointer { address_space: 0 }, nested],
            layout: StructLayout::Unpacked,
        }],
    };
    let printed = print_in(&ctx, &Ty::NamedStruct { name: "LinkedList".to_string() });
    assert_eq!(
        printed,
        r#"!llvm.struct<"LinkedList", (i64, !llvm.ptr, !llvm.struct<(!llvm.struct<"LinkedList">, i64)>)>"#
    );
}

#[test]
fn mutually_recursive_structs_stop_at_the_first_repeat() {
    let ctx = Context {
        structs: vec![
            StructBody {
                name: "A".to_string(),
                fields: vec![Ty::NamedStruct { name: "B".to_string() }],
                layout: StructLayout::Unpacked,
            },
            StructBody {
                name: "B".to_string(),
                fields: vec![Ty::NamedStruct { name: "A".to_string() }],
                layout: StructLayout::Packed,
            },
        ],
    };
    let printed = print_in(&ctx, &Ty::NamedStruct { name: "A".to_string() });
    assert_eq!(
        printed,
        r#"!llvm.struct<"A", (!llvm.struct<"B", packed (!llvm.struct<"A">)>)>"#
    );
}

#[test]
fn type_list_is_comma_separated() {
    let ctx = Context { structs: vec![] };
    let mut out = String::new();
    print_type_list(&ctx, &vec![signless(1), Ty::FP64, Ty::Pointer { address_space: 1 }], &mut out)
        .unwrap();
    assert_eq!(out, "i1, f64, !llvm.ptr<1>");
}

#[test]
fn unknown_type_is_an_error() {
    let ctx = Context { structs: vec![] };
    let mut out = String::new();
    let err = print_type(&ctx, &Ty::Other { type_id: "test.mystery".to_string() }, &mut out)
        .unwrap_err();
    assert_eq!(err.message(), "Type `test.mystery` does not implement ToMlirType");
}

#[test]
fn array_of_unknown_type_is_an_error() {
    let ctx = Context { structs: vec![] };
    let mut out = String::new();
    let ty = Ty::Array { size: 2, elem: Box::new(Ty::Other { type_id: "x.y".to_string() }) };
    assert!(print_type(&ctx, &ty, &mut out).is_err());
}
