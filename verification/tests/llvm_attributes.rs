//! Translation of the LLVM dialect's attributes to MLIR.

use pliron_mlir_interop::ir::{
    ApInt, AtomicOrderingAttr, AtomicRmwKindAttr, Attr, Context, FCmpPredicateAttr, FastmathFlags,
    GepIndexAttr, ICmpPredicateAttr, IntegerAttr, IntegerTy, LinkageAttr, Signedness, Ty,
};
use pliron_mlir_interop::printers::print_attr;
use pliron_mlir_interop::Error;

const NNAN: u8 = 1;
const NINF: u8 = 2;
const ARCP: u8 = 8;
const FAST: u8 = 127;

fn empty_context() -> Context {
    Context { structs: vec![] }
}

fn translate_attr(attr: &Attr) -> Result<String, Error> {
    let mut out = String::new();
    print_attr(&empty_context(), attr, &mut out).map(|()| out)
}

fn i32_attr(v: u32) -> IntegerAttr {
    IntegerAttr {
        ty: IntegerTy { width: 32, signedness: Signedness::Signless },
        value: ApInt::new(v.to_le_bytes().to_vec(), 32).unwrap(),
    }
}

fn ptr() -> Ty {
    Ty::Pointer { address_space: 0 }
}

#[test]
fn llvm_attributes_attributes() {
    let attrs = vec![
        Attr::Linkage(LinkageAttr::InternalLinkage),
        Attr::Linkage(LinkageAttr::ExternalWeakLinkage),
        Attr::ICmpPredicate(ICmpPredicateAttr::SLT),
        Attr::ICmpPredicate(ICmpPredicateAttr::UGE),
        Attr::FCmpPredicate(FCmpPredicateAttr::OEQ),
        Attr::FCmpPredicate(FCmpPredicateAttr::True),
        Attr::AtomicOrdering(AtomicOrderingAttr::Monotonic),
        Attr::AtomicOrdering(AtomicOrderingAttr::SeqCst),
        Attr::AtomicRmwKind(AtomicRmwKindAttr::Add),
        Attr::AtomicRmwKind(AtomicRmwKindAttr::FMin),
        Attr::IntegerOverflowFlags { nsw: false, nuw: false },
        Attr::IntegerOverflowFlags { nsw: true, nuw: true },
        Attr::FastmathFlags(FastmathFlags { bits: 0 }),
        Attr::FastmathFlags(FastmathFlags { bits: NNAN | ARCP }),
        Attr::FastmathFlags(FastmathFlags { bits: FAST }),
        Attr::Alignment(8),
        Attr::AddressSpace(3),
        Attr::Zero(ptr()),
        Attr::Undef(ptr()),
        Attr::Poison(ptr()),
        Attr::InsertExtractValueIndices(vec![0, 2]),
        Attr::ShuffleVectorMask(vec![3, 1, -1, 0]),
        Attr::GepIndices(vec![
            GepIndexAttr::Constant(0),
            GepIndexAttr::OperandIdx(1),
            GepIndexAttr::Constant(7),
        ]),
        // LLVM GEP indices are signed; their raw bits are kept in a `u32`.
        Attr::GepIndices(vec![GepIndexAttr::Constant(-1i32 as u32)]),
        Attr::GepIndices(vec![]),
        Attr::CaseValues(vec![i32_attr(0), i32_attr(11)]),
    ];
    let printed: Vec<String> = attrs.iter().map(|a| translate_attr(a).unwrap()).collect();
    assert_eq!(
        printed.join("\n"),
        "#llvm.linkage<internal>
#llvm.linkage<extern_weak>
2 : i64
9 : i64
1 : i64
15 : i64
2 : i64
7 : i64
1 : i64
14 : i64
#llvm.overflow<none>
#llvm.overflow<nsw, nuw>
#llvm.fastmath<none>
#llvm.fastmath<nnan, arcp>
#llvm.fastmath<nnan, ninf, nsz, arcp, contract, afn, reassoc>
8 : i64
3 : i32
#llvm.zero
#llvm.undef
#llvm.poison
array<i64: 0, 2>
array<i32: 3, 1, -1, 0>
array<i32: 0, -2147483648, 7>
array<i32: -1>
array<i32>
dense<[0, 11]> : vector<2xi32>"
    );
}

/// LLVM-IR has linkage kinds that MLIR's LLVM dialect does not model.
#[test]
fn unsupported_linkage_is_an_error() {
    let err = translate_attr(&Attr::Linkage(LinkageAttr::DLLExportLinkage))
        .expect_err("an error must be set");
    assert_eq!(err.message(), "Cannot translate to MLIR: DLLExportLinkage has no MLIR equivalent");
}

/// MLIR spends `i32::MIN` on marking a dynamic index, so a constant index of
/// that value has no MLIR encoding.
#[test]
fn gep_constant_index_colliding_with_the_dynamic_marker_is_an_error() {
    let attr = Attr::GepIndices(vec![GepIndexAttr::Constant(i32::MIN as u32)]);
    let err = translate_attr(&attr).expect_err("an error must be set");
    assert_eq!(
        err.message(),
        "Cannot translate to MLIR: llvm.gep constant index -2147483648 is indistinguishable from MLIR's marker for a dynamic index"
    );
}

/// MLIR takes a GEP's dynamic indices from its operands in order, so indices
/// that name operands out of order cannot be translated.
#[test]
fn out_of_order_gep_indices_are_an_error() {
    let attr = Attr::GepIndices(vec![GepIndexAttr::OperandIdx(2), GepIndexAttr::OperandIdx(1)]);
    let err = translate_attr(&attr).expect_err("an error must be set");
    assert_eq!(
        err.message(),
        "Cannot translate to MLIR: llvm.gep dynamic index refers to operand 2, but MLIR consumes dynamic indices in operand order (expected operand 1)"
    );
}

#[test]
fn fastmath_flags_print_in_mlir_order() {
    let printed = translate_attr(&Attr::FastmathFlags(FastmathFlags { bits: NINF | NNAN })).unwrap();
    assert_eq!(printed, "#llvm.fastmath<nnan, ninf>");
}

#[test]
fn every_unsupported_linkage_is_an_error() {
    for (linkage, name) in [
        (LinkageAttr::LinkOnceODRAutoHideLinkage, "LinkOnceODRAutoHideLinkage"),
        (LinkageAttr::DLLImportLinkage, "DLLImportLinkage"),
        (LinkageAttr::GhostLinkage, "GhostLinkage"),
        (LinkageAttr::LinkerPrivateLinkage, "LinkerPrivateLinkage"),
        (LinkageAttr::LinkerPrivateWeakLinkage, "LinkerPrivateWeakLinkage"),
    ] {
        let err = translate_attr(&Attr::Linkage(linkage)).expect_err("unsupported linkage");
        assert_eq!(err.message(), format!("Cannot translate to MLIR: {name} has no MLIR equivalent"));
    }
}

#[test]
fn empty_case_values_are_an_error() {
    assert!(translate_attr(&Attr::CaseValues(vec![])).is_err());
}

#[test]
fn unknown_attribute_is_an_error() {
    let err = translate_attr(&Attr::Other { attr_id: "test.mystery".to_string() }).unwrap_err();
    assert_eq!(err.message(), "Attribute `test.mystery` does not implement ToMlirAttr");
}
