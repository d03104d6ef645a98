//! Translation of the LLVM dialect's ops to MLIR.

use pliron_mlir_interop::ir::{
    ApInt, AtomicOrderingAttr, AtomicRmwKindAttr, Attr, Block, Context, DirectOp,
    FCmpPredicateAttr, FastmathFlags, FastmathOp, GepIndexAttr, ICmpPredicateAttr, IntegerAttr,
    IntegerTy, LinkageAttr, NNegOp, OpKind, Operation, OverflowOp, Region, SegmentSizes,
    Signedness, StructLayout, Ty, Value, VectorTypeKind,
};
use pliron_mlir_interop::printers::{print_op, Indentation};
use pliron_mlir_interop::Error;

fn iw(width: u32) -> Ty {
    Ty::Integer { width, signedness: Signedness::Signless }
}

fn ptr_ty() -> Ty {
    Ty::Pointer { address_space: 0 }
}

fn fn_ty(result: Ty, args: Vec<Ty>, var_arg: bool) -> Ty {
    Ty::Func { result: Box::new(result), args, var_arg }
}

fn pair(a: Ty, b: Ty) -> Ty {
    Ty::UnnamedStruct { fields: vec![a, b], layout: StructLayout::Unpacked }
}

fn v(name: &str, ty: Ty) -> Value {
    Value { name: name.to_string(), ty }
}

fn int_value(width: u32, value: u64) -> Attr {
    Attr::Integer(IntegerAttr {
        ty: IntegerTy { width, signedness: Signedness::Signless },
        value: ApInt::new(value.to_le_bytes().to_vec(), width as usize).unwrap(),
    })
}

/// An op with the given results and operands, and nothing else.
fn op(kind: OpKind, results: Vec<Value>, operands: Vec<Value>) -> Operation {
    Operation { kind, results, operands, successors: vec![], regions: vec![], attributes: vec![], location: 0 }
}

/// A branching op.
fn branch(kind: OpKind, operands: Vec<Value>, successors: &[&str]) -> Operation {
    Operation {
        kind,
        results: vec![],
        operands,
        successors: successors.iter().map(|s| s.to_string()).collect(),
        regions: vec![],
        attributes: vec![],
        location: 0,
    }
}

fn ret() -> Operation {
    op(OpKind::Direct(DirectOp::Return), vec![], vec![])
}

fn block(label: &str, args: Vec<Value>, ops: Vec<Operation>) -> Block {
    Block { label: label.to_string(), args, ops }
}

/// `llvm.func @name`, with `blocks` as its body, if any.
fn llvm_func(name: &str, func_type: Ty, linkage: Option<LinkageAttr>, blocks: Option<Vec<Block>>) -> Operation {
    Operation {
        kind: OpKind::Func { sym_name: name.to_string(), func_type, linkage },
        results: vec![],
        operands: vec![],
        successors: vec![],
        regions: match blocks {
            Some(blocks) => vec![Region { blocks }],
            None => vec![],
        },
        attributes: vec![],
        location: 0,
    }
}

/// `builtin.module @m` holding `ops`.
fn module_of(ops: Vec<Operation>) -> Operation {
    Operation {
        kind: OpKind::Module { sym_name: "m".to_string() },
        results: vec![],
        operands: vec![],
        successors: vec![],
        regions: vec![Region { blocks: vec![block("block1v1", vec![], ops)] }],
        attributes: vec![],
        location: 0,
    }
}

/// A module with the function `f` taking `args`, whose entry block holds
/// `entry_ops` and which has `more_blocks` after it; then `more_ops`.
fn test_module(args: Vec<Value>, entry_ops: Vec<Operation>, more_blocks: Vec<Block>, more_ops: Vec<Operation>) -> Operation {
    let arg_types = args.iter().map(|a| copy_ty(&a.ty)).collect();
    let mut blocks = vec![block("entry_block2v1", args, entry_ops)];
    blocks.extend(more_blocks);
    let mut ops = vec![llvm_func("f", fn_ty(Ty::Void, arg_types, false), None, Some(blocks))];
    ops.extend(more_ops);
    module_of(ops)
}

fn copy_ty(ty: &Ty) -> Ty {
    match ty {
        Ty::Integer { width, signedness } => Ty::Integer { width: *width, signedness: *signedness },
        Ty::FP16 => Ty::FP16,
        Ty::FP32 => Ty::FP32,
        Ty::FP64 => Ty::FP64,
        Ty::Pointer { address_space } => Ty::Pointer { address_space: *address_space },
        Ty::Void => Ty::Void,
        Ty::UnnamedStruct { fields, layout } => Ty::UnnamedStruct {
            fields: fields.iter().map(copy_ty).collect(),
            layout: *layout,
        },
        Ty::Vector { kind, num_elements, elem } => Ty::Vector {
            kind: *kind,
            num_elements: *num_elements,
            elem: Box::new(copy_ty(elem)),
        },
        _ => panic!("not used in these tests"),
    }
}

fn translate(op: &Operation) -> Result<String, Error> {
    let mut out = String::new();
    print_op(&Context { structs: vec![] }, op, Indentation { level: 0, width: 2 }, &mut out).map(|()| out)
}

fn translated(op: &Operation) -> String {
    translate(op).expect("the op translates")
}

#[test]
fn integer_arithmetic() {
    let (a, b) = (|| v("v0", iw(32)), || v("v1", iw(32)));
    let binary = |name: &str, kind: OpKind| op(kind, vec![v(name, iw(32))], vec![a(), b()]);
    let no_flags = |o: OverflowOp| OpKind::Overflow { op: o, flags: None };
    let ops = vec![
        binary("v2", OpKind::Overflow { op: OverflowOp::Add, flags: Some((true, true)) }),
        binary("v3", no_flags(OverflowOp::Sub)),
        binary("v4", no_flags(OverflowOp::Mul)),
        binary("v5", no_flags(OverflowOp::Shl)),
        binary("v6", OpKind::Direct(DirectOp::UDiv)),
        binary("v7", OpKind::Direct(DirectOp::SDiv)),
        binary("v8", OpKind::Direct(DirectOp::URem)),
        binary("v9", OpKind::Direct(DirectOp::SRem)),
        binary("v10", OpKind::Direct(DirectOp::And)),
        binary("v11", OpKind::Direct(DirectOp::Or)),
        binary("v12", OpKind::Direct(DirectOp::Xor)),
        binary("v13", OpKind::Direct(DirectOp::LShr)),
        binary("v14", OpKind::Direct(DirectOp::AShr)),
        op(OpKind::ICmp { predicate: ICmpPredicateAttr::SLT }, vec![v("v15", iw(1))], vec![a(), b()]),
        ret(),
    ];
    let printed = translated(&test_module(vec![a(), b()], ops, vec![], vec![]));
    assert_eq!(
        printed,
        r#""builtin.module"() <{sym_name = "m"}> ({
  ^block1v1:
    "llvm.func"() <{function_type = !llvm.func<!llvm.void (i32, i32)>, linkage = #llvm.linkage<external>, sym_name = "f"}> ({
      ^entry_block2v1(%v0: i32, %v1: i32):
        %v2 = "llvm.add"(%v0, %v1) <{overflowFlags = #llvm.overflow<nsw, nuw>}> : (i32, i32) -> (i32)
        %v3 = "llvm.sub"(%v0, %v1) : (i32, i32) -> (i32)
        %v4 = "llvm.mul"(%v0, %v1) : (i32, i32) -> (i32)
        %v5 = "llvm.shl"(%v0, %v1) : (i32, i32) -> (i32)
        %v6 = "llvm.udiv"(%v0, %v1) : (i32, i32) -> (i32)
        %v7 = "llvm.sdiv"(%v0, %v1) : (i32, i32) -> (i32)
        %v8 = "llvm.urem"(%v0, %v1) : (i32, i32) -> (i32)
        %v9 = "llvm.srem"(%v0, %v1) : (i32, i32) -> (i32)
        %v10 = "llvm.and"(%v0, %v1) : (i32, i32) -> (i32)
        %v11 = "llvm.or"(%v0, %v1) : (i32, i32) -> (i32)
        %v12 = "llvm.xor"(%v0, %v1) : (i32, i32) -> (i32)
        %v13 = "llvm.lshr"(%v0, %v1) : (i32, i32) -> (i32)
        %v14 = "llvm.ashr"(%v0, %v1) : (i32, i32) -> (i32)
        %v15 = "llvm.icmp"(%v0, %v1) <{predicate = 2 : i64}> : (i32, i32) -> (i1)
        "llvm.return"() : () -> ()
    }) : () -> ()
}) : () -> ()"#
    );
}

#[test]
fn float_arithmetic() {
    let (a, b) = (|| v("v0", Ty::FP32), || v("v1", Ty::FP32));
    let binary = |name: &str, o: FastmathOp, flags: Option<FastmathFlags>| {
        op(OpKind::Fastmath { op: o, flags }, vec![v(name, Ty::FP32)], vec![a(), b()])
    };
    let ops = vec![
        binary("v2", FastmathOp::FAdd, Some(FastmathFlags { bits: 1 | 2 })),
        binary("v3", FastmathOp::FSub, None),
        binary("v4", FastmathOp::FMul, None),
        binary("v5", FastmathOp::FDiv, None),
        binary("v6", FastmathOp::FRem, None),
        op(
            OpKind::Fastmath { op: FastmathOp::FNeg, flags: Some(FastmathFlags { bits: 0 }) },
            vec![v("v7", Ty::FP32)],
            vec![a()],
        ),
        op(
            OpKind::FCmp { predicate: FCmpPredicateAttr::OEQ, flags: None },
            vec![v("v8", iw(1))],
            vec![a(), b()],
        ),
        ret(),
    ];
    let printed = translated(&test_module(vec![a(), b()], ops, vec![], vec![]));
    assert_eq!(
        printed,
        r#""builtin.module"() <{sym_name = "m"}> ({
  ^block1v1:
    "llvm.func"() <{function_type = !llvm.func<!llvm.void (f32, f32)>, linkage = #llvm.linkage<external>, sym_name = "f"}> ({
      ^entry_block2v1(%v0: f32, %v1: f32):
        %v2 = "llvm.fadd"(%v0, %v1) <{fastmathFlags = #llvm.fastmath<nnan, ninf>}> : (f32, f32) -> (f32)
        %v3 = "llvm.fsub"(%v0, %v1) : (f32, f32) -> (f32)
        %v4 = "llvm.fmul"(%v0, %v1) : (f32, f32) -> (f32)
        %v5 = "llvm.fdiv"(%v0, %v1) : (f32, f32) -> (f32)
        %v6 = "llvm.frem"(%v0, %v1) : (f32, f32) -> (f32)
        %v7 = "llvm.fneg"(%v0) <{fastmathFlags = #llvm.fastmath<none>}> : (f32) -> (f32)
        %v8 = "llvm.fcmp"(%v0, %v1) <{predicate = 1 : i64}> : (f32, f32) -> (i1)
        "llvm.return"() : () -> ()
    }) : () -> ()
}) : () -> ()"#
    );
}

#[test]
fn casts() {
    let (i, fl, p) = (|| v("v0", iw(32)), || v("v1", Ty::FP32), || v("v2", ptr_ty()));
    let cast = |kind: OpKind, name: &str, to: Ty, from: Value| op(kind, vec![v(name, to)], vec![from]);
    let direct = |d: DirectOp| OpKind::Direct(d);
    let ops = vec![
        cast(direct(DirectOp::Bitcast), "v3", Ty::FP32, i()),
        cast(direct(DirectOp::IntToPtr), "v4", ptr_ty(), i()),
        cast(direct(DirectOp::PtrToInt), "v5", iw(64), p()),
        cast(direct(DirectOp::AddrSpaceCast), "v6", Ty::Pointer { address_space: 1 }, p()),
        cast(direct(DirectOp::SExt), "v7", iw(64), i()),
        cast(OpKind::NNeg { op: NNegOp::ZExt, nneg: None }, "v8", iw(64), i()),
        cast(OpKind::NNeg { op: NNegOp::ZExt, nneg: Some(true) }, "v9", iw(64), i()),
        cast(direct(DirectOp::Trunc), "v10", iw(16), i()),
        cast(OpKind::Fastmath { op: FastmathOp::FPExt, flags: None }, "v11", Ty::FP64, fl()),
        cast(OpKind::Fastmath { op: FastmathOp::FPTrunc, flags: None }, "v12", Ty::FP32, fl()),
        cast(direct(DirectOp::FPToSI), "v13", iw(32), fl()),
        cast(direct(DirectOp::FPToUI), "v14", iw(32), fl()),
        cast(direct(DirectOp::SIToFP), "v15", Ty::FP32, i()),
        cast(OpKind::NNeg { op: NNegOp::UIToFP, nneg: Some(true) }, "v16", Ty::FP32, i()),
        ret(),
    ];
    let printed = translated(&test_module(vec![i(), fl(), p()], ops, vec![], vec![]));
    assert_eq!(
        printed,
        r#""builtin.module"() <{sym_name = "m"}> ({
  ^block1v1:
    "llvm.func"() <{function_type = !llvm.func<!llvm.void (i32, f32, !llvm.ptr)>, linkage = #llvm.linkage<external>, sym_name = "f"}> ({
      ^entry_block2v1(%v0: i32, %v1: f32, %v2: !llvm.ptr):
        %v3 = "llvm.bitcast"(%v0) : (i32) -> (f32)
        %v4 = "llvm.inttoptr"(%v0) : (i32) -> (!llvm.ptr)
        %v5 = "llvm.ptrtoint"(%v2) : (!llvm.ptr) -> (i64)
        %v6 = "llvm.addrspacecast"(%v2) : (!llvm.ptr) -> (!llvm.ptr<1>)
        %v7 = "llvm.sext"(%v0) : (i32) -> (i64)
        %v8 = "llvm.zext"(%v0) : (i32) -> (i64)
        %v9 = "llvm.zext"(%v0) <{nonNeg = unit}> : (i32) -> (i64)
        %v10 = "llvm.trunc"(%v0) : (i32) -> (i16)
        %v11 = "llvm.fpext"(%v1) : (f32) -> (f64)
        %v12 = "llvm.fptrunc"(%v1) : (f32) -> (f32)
        %v13 = "llvm.fptosi"(%v1) : (f32) -> (i32)
        %v14 = "llvm.fptoui"(%v1) : (f32) -> (i32)
        %v15 = "llvm.sitofp"(%v0) : (i32) -> (f32)
        %v16 = "llvm.uitofp"(%v0) <{nonNeg = unit}> : (i32) -> (f32)
        "llvm.return"() : () -> ()
    }) : () -> ()
}) : () -> ()"#
    );
}

#[test]
fn memory() {
    let (n, p) = (|| v("v0", iw(32)), || v("v1", ptr_ty()));
    let agent = || Some(Attr::Str("agent".to_string()));
    let ops = vec![
        op(OpKind::Alloca { elem_type: iw(32), alignment: Some(8) }, vec![v("v2", ptr_ty())], vec![n()]),
        op(OpKind::Load { alignment: Some(4) }, vec![v("v3", iw(32))], vec![v("v2", ptr_ty())]),
        op(OpKind::Store { alignment: None }, vec![], vec![v("v3", iw(32)), v("v2", ptr_ty())]),
        op(
            OpKind::GetElementPtr {
                elem_type: pair(iw(32), iw(32)),
                indices: vec![GepIndexAttr::OperandIdx(1), GepIndexAttr::Constant(1)],
            },
            vec![v("v4", ptr_ty())],
            vec![p(), n()],
        ),
        op(
            OpKind::AtomicRmw {
                kind: AtomicRmwKindAttr::Add,
                ordering: AtomicOrderingAttr::Monotonic,
                syncscope: None,
            },
            vec![v("v5", iw(32))],
            vec![p(), v("v3", iw(32))],
        ),
        op(
            OpKind::AtomicCmpxchg {
                success: AtomicOrderingAttr::AcqRel,
                failure: AtomicOrderingAttr::Monotonic,
                syncscope: agent(),
            },
            vec![v("v6", pair(iw(32), iw(1)))],
            vec![p(), v("v3", iw(32)), v("v3", iw(32))],
        ),
        op(OpKind::Fence { ordering: AtomicOrderingAttr::SeqCst, syncscope: agent() }, vec![], vec![]),
        op(
            OpKind::AtomicLoad { ordering: AtomicOrderingAttr::Acquire, syncscope: None, alignment: Some(4) },
            vec![v("v7", iw(32))],
            vec![p()],
        ),
        op(
            OpKind::AtomicStore { ordering: AtomicOrderingAttr::Release, syncscope: None, alignment: Some(4) },
            vec![],
            vec![v("v7", iw(32)), p()],
        ),
        ret(),
    ];
    let printed = translated(&test_module(vec![n(), p()], ops, vec![], vec![]));
    assert_eq!(
        printed,
        r#""builtin.module"() <{sym_name = "m"}> ({
  ^block1v1:
    "llvm.func"() <{function_type = !llvm.func<!llvm.void (i32, !llvm.ptr)>, linkage = #llvm.linkage<external>, sym_name = "f"}> ({
      ^entry_block2v1(%v0: i32, %v1: !llvm.ptr):
        %v2 = "llvm.alloca"(%v0) <{elem_type = i32, alignment = 8 : i64}> : (i32) -> (!llvm.ptr)
        %v3 = "llvm.load"(%v2) <{alignment = 4 : i64}> : (!llvm.ptr) -> (i32)
        "llvm.store"(%v3, %v2) : (i32, !llvm.ptr) -> ()
        %v4 = "llvm.getelementptr"(%v1, %v0) <{elem_type = !llvm.struct<(i32, i32)>, rawConstantIndices = array<i32: -2147483648, 1>}> : (!llvm.ptr, i32) -> (!llvm.ptr)
        %v5 = "llvm.atomicrmw"(%v1, %v3) <{bin_op = 1 : i64, ordering = 2 : i64}> : (!llvm.ptr, i32) -> (i32)
        %v6 = "llvm.cmpxchg"(%v1, %v3, %v3) <{failure_ordering = 2 : i64, success_ordering = 6 : i64, syncscope = "agent"}> : (!llvm.ptr, i32, i32) -> (!llvm.struct<(i32, i1)>)
        "llvm.fence"() <{ordering = 7 : i64, syncscope = "agent"}> : () -> ()
        %v7 = "llvm.load"(%v1) <{alignment = 4 : i64, ordering = 4 : i64}> : (!llvm.ptr) -> (i32)
        "llvm.store"(%v7, %v1) <{alignment = 4 : i64, ordering = 5 : i64}> : (i32, !llvm.ptr) -> ()
        "llvm.return"() : () -> ()
    }) : () -> ()
}) : () -> ()"#
    );
}

#[test]
fn aggregates_and_vectors() {
    let st = || pair(iw(32), Ty::FP32);
    let vec4 = || Ty::Vector { kind: VectorTypeKind::Fixed, num_elements: 4, elem: Box::new(iw(32)) };
    let (i, cond, agg, vec) = (|| v("v0", iw(32)), || v("v1", iw(1)), || v("v2", st()), || v("v3", vec4()));
    let ops = vec![
        op(OpKind::InsertValue { position: vec![0] }, vec![v("v4", st())], vec![agg(), i()]),
        op(OpKind::ExtractValue { position: vec![1] }, vec![v("v5", Ty::FP32)], vec![agg()]),
        op(OpKind::Direct(DirectOp::InsertElement), vec![v("v6", vec4())], vec![vec(), i(), i()]),
        op(OpKind::Direct(DirectOp::ExtractElement), vec![v("v7", iw(32))], vec![vec(), i()]),
        op(OpKind::ShuffleVector { mask: vec![3, 2, 1, 0] }, vec![v("v8", vec4())], vec![vec(), vec()]),
        op(OpKind::Select { flags: None }, vec![v("v9", iw(32))], vec![cond(), i(), i()]),
        op(OpKind::Direct(DirectOp::Freeze), vec![v("v10", iw(32))], vec![i()]),
        ret(),
    ];
    let printed = translated(&test_module(vec![i(), cond(), agg(), vec()], ops, vec![], vec![]));
    assert_eq!(
        printed,
        r#""builtin.module"() <{sym_name = "m"}> ({
  ^block1v1:
    "llvm.func"() <{function_type = !llvm.func<!llvm.void (i32, i1, !llvm.struct<(i32, f32)>, vector<4 x i32>)>, linkage = #llvm.linkage<external>, sym_name = "f"}> ({
      ^entry_block2v1(%v0: i32, %v1: i1, %v2: !llvm.struct<(i32, f32)>, %v3: vector<4 x i32>):
        %v4 = "llvm.insertvalue"(%v2, %v0) <{position = array<i64: 0>}> : (!llvm.struct<(i32, f32)>, i32) -> (!llvm.struct<(i32, f32)>)
        %v5 = "llvm.extractvalue"(%v2) <{position = array<i64: 1>}> : (!llvm.struct<(i32, f32)>) -> (f32)
        %v6 = "llvm.insertelement"(%v3, %v0, %v0) : (vector<4 x i32>, i32, i32) -> (vector<4 x i32>)
        %v7 = "llvm.extractelement"(%v3, %v0) : (vector<4 x i32>, i32) -> (i32)
        %v8 = "llvm.shufflevector"(%v3, %v3) <{mask = array<i32: 3, 2, 1, 0>}> : (vector<4 x i32>, vector<4 x i32>) -> (vector<4 x i32>)
        %v9 = "llvm.select"(%v1, %v0, %v0) : (i1, i32, i32) -> (i32)
        %v10 = "llvm.freeze"(%v0) : (i32) -> (i32)
        "llvm.return"() : () -> ()
    }) : () -> ()
}) : () -> ()"#
    );
}

#[test]
fn constants() {
    let constant = |name: &str, value: Attr, ty: Ty| op(OpKind::Constant { value }, vec![v(name, ty)], vec![]);
    let ops = vec![
        constant("v0", int_value(32, 42), iw(32)),
        // MLIR has dedicated ops for these, rather than a constant attribute.
        constant("v1", Attr::Zero(ptr_ty()), ptr_ty()),
        constant("v2", Attr::Undef(iw(32)), iw(32)),
        constant("v3", Attr::Poison(iw(32)), iw(32)),
        op(OpKind::Direct(DirectOp::Undef), vec![v("v4", iw(32))], vec![]),
        op(OpKind::Direct(DirectOp::Poison), vec![v("v5", iw(32))], vec![]),
        op(OpKind::Direct(DirectOp::Zero), vec![v("v6", ptr_ty())], vec![]),
        ret(),
    ];
    let printed = translated(&test_module(vec![], ops, vec![], vec![]));
    assert_eq!(
        printed,
        r#""builtin.module"() <{sym_name = "m"}> ({
  ^block1v1:
    "llvm.func"() <{function_type = !llvm.func<!llvm.void ()>, linkage = #llvm.linkage<external>, sym_name = "f"}> ({
      ^entry_block2v1:
        %v0 = "llvm.mlir.constant"() <{value = 42 : i32}> : () -> (i32)
        %v1 = "llvm.mlir.zero"() : () -> (!llvm.ptr)
        %v2 = "llvm.mlir.undef"() : () -> (i32)
        %v3 = "llvm.mlir.poison"() : () -> (i32)
        %v4 = "llvm.mlir.undef"() : () -> (i32)
        %v5 = "llvm.mlir.poison"() : () -> (i32)
        %v6 = "llvm.mlir.zero"() : () -> (!llvm.ptr)
        "llvm.return"() : () -> ()
    }) : () -> ()
}) : () -> ()"#
    );
}

#[test]
fn control_flow() {
    let (cond, n) = (|| v("v0", iw(1)), || v("v1", iw(32)));
    let entry = vec![branch(OpKind::Direct(DirectOp::Br), vec![n()], &["with_arg_block3v1"])];
    let segments = SegmentSizes::new(vec![1, 0, 0, 1]).unwrap();
    let blocks = vec![
        block(
            "with_arg_block3v1",
            vec![v("v2", iw(32))],
            vec![branch(
                OpKind::CondBr { segments: vec![1, 0, 0] },
                vec![cond()],
                &["joined_block4v1", "done_block5v1"],
            )],
        ),
        block(
            "joined_block4v1",
            vec![],
            vec![branch(
                OpKind::Switch {
                    segments,
                    case_values: Some(vec![
                        match int_value(32, 0) {
                            Attr::Integer(i) => i,
                            _ => unreachable!(),
                        },
                        match int_value(32, 7) {
                            Attr::Integer(i) => i,
                            _ => unreachable!(),
                        },
                    ]),
                },
                vec![n(), n()],
                &["done_block5v1", "done_block5v1", "with_arg_block3v1"],
            )],
        ),
        block("done_block5v1", vec![], vec![op(OpKind::Direct(DirectOp::Unreachable), vec![], vec![])]),
    ];
    let printed = translated(&test_module(vec![cond(), n()], entry, blocks, vec![]));
    assert_eq!(
        printed,
        r#""builtin.module"() <{sym_name = "m"}> ({
  ^block1v1:
    "llvm.func"() <{function_type = !llvm.func<!llvm.void (i1, i32)>, linkage = #llvm.linkage<external>, sym_name = "f"}> ({
      ^entry_block2v1(%v0: i1, %v1: i32):
        "llvm.br"(%v1) [^with_arg_block3v1] : (i32) -> ()
      ^with_arg_block3v1(%v2: i32):
        "llvm.cond_br"(%v0) [^joined_block4v1, ^done_block5v1] <{operandSegmentSizes = array<i32: 1, 0, 0>}> : (i1) -> ()
      ^joined_block4v1:
        "llvm.switch"(%v1, %v1) [^done_block5v1, ^done_block5v1, ^with_arg_block3v1] <{case_operand_segments = array<i32: 0, 1>, operandSegmentSizes = array<i32: 1, 0, 1>, case_values = dense<[0, 7]> : vector<2xi32>}> : (i32, i32) -> ()
      ^done_block5v1:
        "llvm.unreachable"() : () -> ()
    }) : () -> ()
}) : () -> ()"#
    );
}

#[test]
fn indirect_branches() {
    let (p, n) = (|| v("v0", ptr_ty()), || v("v1", iw(32)));
    let entry = vec![
        op(OpKind::BlockAddress { function: "f".to_string(), tag_id: 1 }, vec![v("v3", ptr_ty())], vec![]),
        branch(
            OpKind::IndirectBr { segments: vec![1, 0, 1] },
            vec![p(), n()],
            &["tagged_block3v1", "other_block4v1"],
        ),
    ];
    let unreachable = || op(OpKind::Direct(DirectOp::Unreachable), vec![], vec![]);
    let blocks = vec![
        block("tagged_block3v1", vec![], vec![op(OpKind::BlockTag { tag_id: 1 }, vec![], vec![]), unreachable()]),
        block("other_block4v1", vec![v("v2", iw(32))], vec![unreachable()]),
    ];
    let printed = translated(&test_module(vec![p(), n()], entry, blocks, vec![]));
    assert_eq!(
        printed,
        r#""builtin.module"() <{sym_name = "m"}> ({
  ^block1v1:
    "llvm.func"() <{function_type = !llvm.func<!llvm.void (!llvm.ptr, i32)>, linkage = #llvm.linkage<external>, sym_name = "f"}> ({
      ^entry_block2v1(%v0: !llvm.ptr, %v1: i32):
        %v3 = "llvm.blockaddress"() <{block_addr = #llvm.blockaddress<function = @f, tag = <id = 1>>}> : () -> (!llvm.ptr)
        "llvm.indirectbr"(%v0, %v1) [^tagged_block3v1, ^other_block4v1] <{indbr_operand_segments = array<i32: 0, 1>}> : (!llvm.ptr, i32) -> ()
      ^tagged_block3v1:
        "llvm.blocktag"() <{tag = #llvm.blocktag<id = 1>}> : () -> ()
        "llvm.unreachable"() : () -> ()
      ^other_block4v1(%v2: i32):
        "llvm.unreachable"() : () -> ()
    }) : () -> ()
}) : () -> ()"#
    );
}

#[test]
fn calls() {
    let (n, p) = (|| v("v0", iw(32)), || v("v1", ptr_ty()));
    let returns_i32 = || fn_ty(iw(32), vec![iw(32)], false);
    let returns_void = || fn_ty(Ty::Void, vec![iw(32)], false);
    let variadic = || fn_ty(iw(32), vec![ptr_ty()], true);
    let call = |callee: Option<&str>, callee_type: Ty, result: Value, operands: Vec<Value>| {
        op(
            OpKind::Call { callee: callee.map(|c| c.to_string()), flags: None, callee_type },
            vec![result],
            operands,
        )
    };
    let ops = vec![
        call(Some("takes_i32"), returns_i32(), v("v2", iw(32)), vec![n()]),
        // A void call has no MLIR result.
        call(Some("returns_nothing"), returns_void(), v("v3", Ty::Void), vec![n()]),
        call(Some("printf_like"), variadic(), v("v4", iw(32)), vec![p()]),
        call(None, returns_i32(), v("v5", iw(32)), vec![p(), n()]),
        op(
            OpKind::CallIntrinsic { name: "llvm.smax.i32".to_string(), flags: None },
            vec![v("v6", iw(32))],
            vec![n(), n()],
        ),
        op(
            OpKind::InlineAsm {
                template: "nop".to_string(),
                constraints: "=r,r".to_string(),
                convergent: Some(false),
            },
            vec![v("v7", iw(32))],
            vec![n()],
        ),
        op(
            OpKind::InlineAsm { template: "nop".to_string(), constraints: "".to_string(), convergent: Some(true) },
            vec![v("v8", Ty::Void)],
            vec![],
        ),
        op(OpKind::Direct(DirectOp::VAArg), vec![v("v9", iw(32))], vec![p()]),
        ret(),
    ];
    let decls = vec![
        llvm_func("takes_i32", returns_i32(), None, None),
        llvm_func("returns_nothing", returns_void(), None, None),
        llvm_func("printf_like", variadic(), None, None),
    ];
    let printed = translated(&test_module(vec![n(), p()], ops, vec![], decls));
    assert_eq!(
        printed,
        r#""builtin.module"() <{sym_name = "m"}> ({
  ^block1v1:
    "llvm.func"() <{function_type = !llvm.func<!llvm.void (i32, !llvm.ptr)>, linkage = #llvm.linkage<external>, sym_name = "f"}> ({
      ^entry_block2v1(%v0: i32, %v1: !llvm.ptr):
        %v2 = "llvm.call"(%v0) <{op_bundle_sizes = array<i32>, operandSegmentSizes = array<i32: 1, 0>, callee = @takes_i32}> : (i32) -> (i32)
        "llvm.call"(%v0) <{op_bundle_sizes = array<i32>, operandSegmentSizes = array<i32: 1, 0>, callee = @returns_nothing}> : (i32) -> ()
        %v4 = "llvm.call"(%v1) <{op_bundle_sizes = array<i32>, operandSegmentSizes = array<i32: 1, 0>, callee = @printf_like, var_callee_type = !llvm.func<i32 (!llvm.ptr, ...)>}> : (!llvm.ptr) -> (i32)
        %v5 = "llvm.call"(%v1, %v0) <{op_bundle_sizes = array<i32>, operandSegmentSizes = array<i32: 2, 0>}> : (!llvm.ptr, i32) -> (i32)
        %v6 = "llvm.call_intrinsic"(%v0, %v0) <{intrin = "llvm.smax.i32", op_bundle_sizes = array<i32>, operandSegmentSizes = array<i32: 2, 0>}> : (i32, i32) -> (i32)
        %v7 = "llvm.inline_asm"(%v0) <{asm_string = "nop", constraints = "=r,r"}> : (i32) -> (i32)
        "llvm.inline_asm"() <{asm_string = "nop", constraints = ""}> {llvm_convergent = unit} : () -> ()
        %v9 = "llvm.va_arg"(%v1) : (!llvm.ptr) -> (i32)
        "llvm.return"() : () -> ()
    }) : () -> ()
    "llvm.func"() <{function_type = !llvm.func<i32 (i32)>, linkage = #llvm.linkage<external>, sym_name = "takes_i32"}> ({}) : () -> ()
    "llvm.func"() <{function_type = !llvm.func<!llvm.void (i32)>, linkage = #llvm.linkage<external>, sym_name = "returns_nothing"}> ({}) : () -> ()
    "llvm.func"() <{function_type = !llvm.func<i32 (!llvm.ptr, ...)>, linkage = #llvm.linkage<external>, sym_name = "printf_like"}> ({}) : () -> ()
}) : () -> ()"#
    );
}

#[test]
fn globals() {
    let global = |name: &str, linkage: Option<LinkageAttr>, initializer: Option<Attr>, alignment: Option<u32>, regions: Vec<Region>| Operation {
        kind: OpKind::Global {
            sym_name: name.to_string(),
            global_type: iw(32),
            linkage,
            address_space: 0,
            initializer,
            alignment,
        },
        results: vec![],
        operands: vec![],
        successors: vec![],
        regions,
        attributes: vec![],
        location: 0,
    };
    // A global with a simple initializer value.
    let simple = global("counter", Some(LinkageAttr::InternalLinkage), Some(int_value(32, 7)), Some(4), vec![]);
    // A global with an initializer region.
    let init = block(
        "entry_block2v1",
        vec![],
        vec![
            op(OpKind::Constant { value: int_value(32, 3) }, vec![v("v0", iw(32))], vec![]),
            op(OpKind::Direct(DirectOp::Return), vec![], vec![v("v0", iw(32))]),
        ],
    );
    let with_region = global("computed", None, None, None, vec![Region { blocks: vec![init] }]);
    // A declaration: no initializer at all.
    let declared = global("elsewhere", None, None, None, vec![]);
    // And something that refers to one of them.
    let user = llvm_func(
        "use",
        fn_ty(Ty::Void, vec![], false),
        None,
        Some(vec![block(
            "entry_block3v1",
            vec![],
            vec![op(OpKind::AddressOf { global_name: "counter".to_string() }, vec![v("v1", ptr_ty())], vec![]), ret()],
        )]),
    );
    let printed = translated(&module_of(vec![simple, with_region, declared, user]));
    assert_eq!(
        printed,
        r#""builtin.module"() <{sym_name = "m"}> ({
  ^block1v1:
    "llvm.mlir.global"() <{addr_space = 0 : i32, global_type = i32, linkage = #llvm.linkage<internal>, sym_name = "counter", alignment = 4 : i64, value = 7 : i32}> ({}) : () -> ()
    "llvm.mlir.global"() <{addr_space = 0 : i32, global_type = i32, linkage = #llvm.linkage<external>, sym_name = "computed"}> ({
      ^entry_block2v1:
        %v0 = "llvm.mlir.constant"() <{value = 3 : i32}> : () -> (i32)
        "llvm.return"(%v0) : (i32) -> ()
    }) : () -> ()
    "llvm.mlir.global"() <{addr_space = 0 : i32, global_type = i32, linkage = #llvm.linkage<external>, sym_name = "elsewhere"}> ({}) : () -> ()
    "llvm.func"() <{function_type = !llvm.func<!llvm.void ()>, linkage = #llvm.linkage<external>, sym_name = "use"}> ({
      ^entry_block3v1:
        %v1 = "llvm.mlir.addressof"() <{global_name = @counter}> : () -> (!llvm.ptr)
        "llvm.return"() : () -> ()
    }) : () -> ()
}) : () -> ()"#
    );
}

/// A `llvm.func` with no body is a declaration in both dialects.
#[test]
fn function_declaration() {
    let decl = llvm_func(
        "declared",
        fn_ty(iw(32), vec![iw(32)], false),
        Some(LinkageAttr::ExternalWeakLinkage),
        None,
    );
    let printed = translated(&module_of(vec![decl]));
    assert_eq!(
        printed,
        r#""builtin.module"() <{sym_name = "m"}> ({
  ^block1v1:
    "llvm.func"() <{function_type = !llvm.func<i32 (i32)>, linkage = #llvm.linkage<extern_weak>, sym_name = "declared"}> ({}) : () -> ()
}) : () -> ()"#
    );
}
