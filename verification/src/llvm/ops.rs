//! MLIR translation for LLVM dialect ops.

use vstd::prelude::*;

use crate::builtin::attributes::{push_u32_array, u32_values};
use crate::builtin::ops::sym_name_text;
use crate::ir::{
    seq_total, Attr, Context, DirectOp, FastmathFlags, FastmathOp, IntegerAttr, LinkageAttr, NNegOp,
    OpKind, Operation, OverflowOp, Ty, Value, lemma_seq_total_suffix,
};
use crate::printers::{
    Indentation,
    dense_array_text, ints, lemma_op_text, mlir_string_literal, op_text, op_translation,
    opt_mlir_attr_view, refs_view, GenericOp, GenericOpView, MlirAttr,
};
use crate::text::{nat_decimal, push_decimal_u64};
use crate::{emitted, Error, ErrorView};

verus! {

/// The MLIR mnemonic of an op that carries only its operands, results and
/// successors.
pub open spec fn direct_mnemonic(d: DirectOp) -> Seq<char> {
    match d {
        DirectOp::Return => "llvm.return"@,
        DirectOp::Unreachable => "llvm.unreachable"@,
        DirectOp::Br => "llvm.br"@,
        DirectOp::UDiv => "llvm.udiv"@,
        DirectOp::SDiv => "llvm.sdiv"@,
        DirectOp::URem => "llvm.urem"@,
        DirectOp::SRem => "llvm.srem"@,
        DirectOp::And => "llvm.and"@,
        DirectOp::Or => "llvm.or"@,
        DirectOp::Xor => "llvm.xor"@,
        DirectOp::LShr => "llvm.lshr"@,
        DirectOp::AShr => "llvm.ashr"@,
        DirectOp::Bitcast => "llvm.bitcast"@,
        DirectOp::IntToPtr => "llvm.inttoptr"@,
        DirectOp::PtrToInt => "llvm.ptrtoint"@,
        DirectOp::AddrSpaceCast => "llvm.addrspacecast"@,
        DirectOp::SExt => "llvm.sext"@,
        DirectOp::Trunc => "llvm.trunc"@,
        DirectOp::FPToSI => "llvm.fptosi"@,
        DirectOp::FPToUI => "llvm.fptoui"@,
        DirectOp::SIToFP => "llvm.sitofp"@,
        DirectOp::Freeze => "llvm.freeze"@,
        DirectOp::Undef => "llvm.mlir.undef"@,
        DirectOp::Poison => "llvm.mlir.poison"@,
        DirectOp::Zero => "llvm.mlir.zero"@,
        DirectOp::InsertElement => "llvm.insertelement"@,
        DirectOp::ExtractElement => "llvm.extractelement"@,
        DirectOp::VAArg => "llvm.va_arg"@,
    }
}

/// The MLIR mnemonic of integer arithmetic that carries overflow flags.
pub open spec fn overflow_mnemonic(o: OverflowOp) -> Seq<char> {
    match o {
        OverflowOp::Add => "llvm.add"@,
        OverflowOp::Sub => "llvm.sub"@,
        OverflowOp::Mul => "llvm.mul"@,
        OverflowOp::Shl => "llvm.shl"@,
    }
}

/// The MLIR mnemonic of floating point arithmetic that carries fast-math
/// flags.
pub open spec fn fastmath_mnemonic(o: FastmathOp) -> Seq<char> {
    match o {
        FastmathOp::FAdd => "llvm.fadd"@,
        FastmathOp::FSub => "llvm.fsub"@,
        FastmathOp::FMul => "llvm.fmul"@,
        FastmathOp::FDiv => "llvm.fdiv"@,
        FastmathOp::FRem => "llvm.frem"@,
        FastmathOp::FNeg => "llvm.fneg"@,
        FastmathOp::FPExt => "llvm.fpext"@,
        FastmathOp::FPTrunc => "llvm.fptrunc"@,
    }
}

/// The MLIR mnemonic of a widening conversion that carries the `nneg` flag.
pub open spec fn nneg_mnemonic(o: NNegOp) -> Seq<char> {
    match o {
        NNegOp::ZExt => "llvm.zext"@,
        NNegOp::UIToFP => "llvm.uitofp"@,
    }
}

/// The overflow flags attribute, if the flags are set.
pub open spec fn overflow_flags_attr(flags: Option<(bool, bool)>) -> Option<Attr> {
    match flags {
        Some((nsw, nuw)) => Some(Attr::IntegerOverflowFlags { nsw, nuw }),
        None => None,
    }
}

/// The fast-math flags attribute, if the flags are set.
pub open spec fn fastmath_attr(flags: Option<FastmathFlags>) -> Option<Attr> {
    match flags {
        Some(f) => Some(Attr::FastmathFlags(f)),
        None => None,
    }
}

/// MLIR's `nonNeg` unit property: present exactly when the `nneg` flag is set
/// and true.
pub open spec fn nneg_attr(nneg: Option<bool>) -> Option<Attr> {
    if nneg == Some(true) {
        Some(Attr::Unit)
    } else {
        None
    }
}

/// MLIR's `alignment` property, absent when there is no alignment.
pub open spec fn alignment_attr(alignment: Option<u32>) -> Option<Attr> {
    match alignment {
        Some(a) => Some(Attr::Alignment(a)),
        None => None,
    }
}

/// The linkage, external when unset: MLIR always spells it out.
pub open spec fn linkage_or_external(linkage: Option<LinkageAttr>) -> LinkageAttr {
    match linkage {
        Some(l) => l,
        None => LinkageAttr::ExternalLinkage,
    }
}

/// `vals`, minus any of void type.
///
/// An op that produces nothing has a single result of void type; MLIR gives
/// it no result at all.
pub open spec fn non_void(vals: Seq<Value>) -> Seq<Value>
    decreases vals.len(),
{
    if vals.len() == 0 {
        seq![]
    } else {
        let rest = non_void(vals.drop_last());
        if vals.last().ty is Void {
            rest
        } else {
            rest.push(vals.last())
        }
    }
}

/// How many of `s`'s segments precede a switch's cases: the condition's
/// and the default destination's.
pub open spec fn switch_head_len(s: Seq<u32>) -> int {
    if s.len() < 2 {
        s.len() as int
    } else {
        2
    }
}

/// A switch's segments, one per case.
pub open spec fn switch_case_segments(s: Seq<u32>) -> Seq<u32> {
    s.skip(switch_head_len(s))
}

/// MLIR's operand segments of a switch: the condition's and the default
/// destination's, then all the cases' operands in one.
pub open spec fn switch_operand_segments(s: Seq<u32>) -> Seq<int> {
    u32_values(s.take(switch_head_len(s))).push(seq_total(switch_case_segments(s)) as int)
}

/// The case values attribute, left off when there are none.
pub open spec fn nonempty_case_values(values: Option<Vec<IntegerAttr>>) -> Option<Attr> {
    match values {
        Some(v) => if v@.len() > 0 {
            Some(Attr::CaseValues(v))
        } else {
            None
        },
        None => None,
    }
}

/// An indirect branch's segments, one per destination: all but the
/// address's.
pub open spec fn indirect_dest_segments(s: Seq<u32>) -> Seq<u32> {
    if s.len() == 0 {
        seq![]
    } else {
        s.skip(1)
    }
}

/// The op MLIR has for a constant `value`: a dedicated one for the values
/// that are not constant expressions, `llvm.mlir.constant` otherwise.
pub open spec fn constant_translation(value: Attr) -> GenericOpView {
    match value {
        Attr::Zero(_) => GenericOpView::new("llvm.mlir.zero"@),
        Attr::Undef(_) => GenericOpView::new("llvm.mlir.undef"@),
        Attr::Poison(_) => GenericOpView::new("llvm.mlir.poison"@),
        _ => GenericOpView::new("llvm.mlir.constant"@).prop("value"@, value),
    }
}

/// `#llvm.blockaddress<function = @f, tag = <id = n>>`.
pub open spec fn block_address_text(function: String, tag_id: u64) -> Seq<char> {
    "#llvm.blockaddress<function = @"@ + function@ + ", tag = <id = "@ + nat_decimal(tag_id as nat)
        + ">>"@
}

/// The operand segments of a call: all `n` operands are the callee's, none an
/// operand bundle's.
pub open spec fn call_segments_text(n: nat) -> Seq<char> {
    dense_array_text("i32"@, seq![(n as u32) as int, 0])
}

/// The callee type, when it is variadic: MLIR needs it spelled out then,
/// since the call's own operand types do not imply it.
pub open spec fn var_callee_type(callee_type: Ty) -> Option<Attr> {
    match callee_type {
        Ty::Func { var_arg, .. } => if var_arg {
            Some(Attr::Type(callee_type))
        } else {
            None
        },
        _ => None,
    }
}

/// The message for an atomic memory access without an alignment.
pub open spec fn missing_alignment_message() -> Seq<char> {
    "MLIR requires an alignment on an atomic memory access"@
}

/// An atomic `llvm.load` or `llvm.store`: MLIR insists on an alignment.
pub open spec fn atomic_access_translation(
    location: usize,
    mnemonic: Seq<char>,
    ordering: Attr,
    syncscope: Option<Attr>,
    alignment: Option<u32>,
) -> Result<GenericOpView, ErrorView> {
    match alignment {
        Some(a) => Ok(
            GenericOpView::new(mnemonic).prop("alignment"@, Attr::Alignment(a)).prop(
                "ordering"@,
                ordering,
            ).prop_opt("syncscope"@, syncscope),
        ),
        None => Err(
            ErrorView::Located(
                location as nat,
                Box::new(ErrorView::Untranslatable(missing_alignment_message())),
            ),
        ),
    }
}

/// What an LLVM operation translates to.
///
/// Defined for the LLVM operations: [op_translation] translates the others
/// before they would reach here.
pub open spec fn llvm_translation(op: Operation) -> Result<GenericOpView, ErrorView> {
    match op.kind {
        OpKind::Direct(d) => Ok(GenericOpView::new(direct_mnemonic(d))),
        OpKind::Overflow { op: o, flags } => Ok(
            GenericOpView::new(overflow_mnemonic(o)).prop_opt(
                "overflowFlags"@,
                overflow_flags_attr(flags),
            ),
        ),
        OpKind::Fastmath { op: o, flags } => Ok(
            GenericOpView::new(fastmath_mnemonic(o)).prop_opt("fastmathFlags"@, fastmath_attr(flags)),
        ),
        OpKind::NNeg { op: o, nneg } => Ok(
            GenericOpView::new(nneg_mnemonic(o)).prop_opt("nonNeg"@, nneg_attr(nneg)),
        ),
        OpKind::ICmp { predicate } => Ok(
            GenericOpView::new("llvm.icmp"@).prop("predicate"@, Attr::ICmpPredicate(predicate)),
        ),
        OpKind::FCmp { predicate, flags } => Ok(
            GenericOpView::new("llvm.fcmp"@).prop_opt("fastmathFlags"@, fastmath_attr(flags)).prop(
                "predicate"@,
                Attr::FCmpPredicate(predicate),
            ),
        ),
        OpKind::Select { flags } => Ok(
            GenericOpView::new("llvm.select"@).prop_opt("fastmathFlags"@, fastmath_attr(flags)),
        ),
        OpKind::Alloca { elem_type, alignment } => Ok(
            GenericOpView::new("llvm.alloca"@).prop("elem_type"@, Attr::Type(elem_type)).prop_opt(
                "alignment"@,
                alignment_attr(alignment),
            ),
        ),
        OpKind::GetElementPtr { elem_type, indices } => Ok(
            GenericOpView::new("llvm.getelementptr"@).prop("elem_type"@, Attr::Type(elem_type)).prop(
                "rawConstantIndices"@,
                Attr::GepIndices(indices),
            ),
        ),
        OpKind::Load { alignment } => Ok(
            GenericOpView::new("llvm.load"@).prop_opt("alignment"@, alignment_attr(alignment)),
        ),
        OpKind::Store { alignment } => Ok(
            GenericOpView::new("llvm.store"@).prop_opt("alignment"@, alignment_attr(alignment)),
        ),
        OpKind::AtomicLoad { ordering, syncscope, alignment } => atomic_access_translation(
            op.location,
            "llvm.load"@,
            Attr::AtomicOrdering(ordering),
            syncscope,
            alignment,
        ),
        OpKind::AtomicStore { ordering, syncscope, alignment } => atomic_access_translation(
            op.location,
            "llvm.store"@,
            Attr::AtomicOrdering(ordering),
            syncscope,
            alignment,
        ),
        OpKind::AtomicRmw { kind, ordering, syncscope } => Ok(
            GenericOpView::new("llvm.atomicrmw"@).prop("bin_op"@, Attr::AtomicRmwKind(kind)).prop(
                "ordering"@,
                Attr::AtomicOrdering(ordering),
            ).prop_opt("syncscope"@, syncscope),
        ),
        OpKind::AtomicCmpxchg { success, failure, syncscope } => Ok(
            GenericOpView::new("llvm.cmpxchg"@).prop(
                "failure_ordering"@,
                Attr::AtomicOrdering(failure),
            ).prop("success_ordering"@, Attr::AtomicOrdering(success)).prop_opt(
                "syncscope"@,
                syncscope,
            ),
        ),
        OpKind::Fence { ordering, syncscope } => Ok(
            GenericOpView::new("llvm.fence"@).prop("ordering"@, Attr::AtomicOrdering(ordering)).prop_opt(
                "syncscope"@,
                syncscope,
            ),
        ),
        OpKind::InsertValue { position } => Ok(
            GenericOpView::new("llvm.insertvalue"@).prop(
                "position"@,
                Attr::InsertExtractValueIndices(position),
            ),
        ),
        OpKind::ExtractValue { position } => Ok(
            GenericOpView::new("llvm.extractvalue"@).prop(
                "position"@,
                Attr::InsertExtractValueIndices(position),
            ),
        ),
        OpKind::ShuffleVector { mask } => Ok(
            GenericOpView::new("llvm.shufflevector"@).prop("mask"@, Attr::ShuffleVectorMask(mask)),
        ),
        OpKind::CondBr { segments } => Ok(
            GenericOpView::new("llvm.cond_br"@).prop(
                "operandSegmentSizes"@,
                Attr::OperandSegmentSizes(segments),
            ),
        ),
        OpKind::Switch { segments, case_values } => {
            let s = segments.sizes_view();
            Ok(
                GenericOpView::new("llvm.switch"@).prop_raw(
                    "case_operand_segments"@,
                    dense_array_text("i32"@, u32_values(switch_case_segments(s))),
                ).prop_raw(
                    "operandSegmentSizes"@,
                    dense_array_text("i32"@, switch_operand_segments(s)),
                ).prop_opt("case_values"@, nonempty_case_values(case_values)),
            )
        },
        OpKind::IndirectBr { segments } => Ok(
            GenericOpView::new("llvm.indirectbr"@).prop_raw(
                "indbr_operand_segments"@,
                dense_array_text("i32"@, u32_values(indirect_dest_segments(segments@))),
            ),
        ),
        OpKind::Constant { value } => Ok(constant_translation(value)),
        OpKind::AddressOf { global_name } => Ok(
            GenericOpView::new("llvm.mlir.addressof"@).prop(
                "global_name"@,
                Attr::Identifier(global_name),
            ),
        ),
        OpKind::BlockTag { tag_id } => Ok(
            GenericOpView::new("llvm.blocktag"@).prop_raw(
                "tag"@,
                "#llvm.blocktag<id = "@ + nat_decimal(tag_id as nat) + ">"@,
            ),
        ),
        OpKind::BlockAddress { function, tag_id } => Ok(
            GenericOpView::new("llvm.blockaddress"@).prop_raw(
                "block_addr"@,
                block_address_text(function, tag_id),
            ),
        ),
        OpKind::InlineAsm { template, constraints, convergent } => {
            let g = GenericOpView::new("llvm.inline_asm"@).with_results(
                non_void(op.results@),
            ).prop_raw("asm_string"@, sym_name_text(template)).prop_raw(
                "constraints"@,
                sym_name_text(constraints),
            );
            Ok(
                if convergent == Some(true) {
                    g.attr_raw("llvm_convergent"@, "unit"@)
                } else {
                    g
                },
            )
        },
        OpKind::Call { callee, flags, callee_type } => Ok(
            GenericOpView::new("llvm.call"@).with_results(non_void(op.results@)).prop_raw(
                "op_bundle_sizes"@,
                dense_array_text("i32"@, seq![]),
            ).prop_raw("operandSegmentSizes"@, call_segments_text(op.operands@.len())).prop_opt(
                "callee"@,
                match callee {
                    Some(c) => Some(Attr::Identifier(c)),
                    None => None,
                },
            ).prop_opt("fastmathFlags"@, fastmath_attr(flags)).prop_opt(
                "var_callee_type"@,
                var_callee_type(callee_type),
            ),
        ),
        OpKind::CallIntrinsic { name, flags } => Ok(
            GenericOpView::new("llvm.call_intrinsic"@).with_results(non_void(op.results@)).prop_raw(
                "intrin"@,
                sym_name_text(name),
            ).prop_raw("op_bundle_sizes"@, dense_array_text("i32"@, seq![])).prop_raw(
                "operandSegmentSizes"@,
                call_segments_text(op.operands@.len()),
            ).prop_opt("fastmathFlags"@, fastmath_attr(flags)),
        ),
        OpKind::Func { sym_name, func_type, linkage } => Ok(
            GenericOpView::new("llvm.func"@).prop("function_type"@, Attr::Type(func_type)).prop(
                "linkage"@,
                Attr::Linkage(linkage_or_external(linkage)),
            ).prop_raw("sym_name"@, sym_name_text(sym_name)).with_min_regions(1),
        ),
        OpKind::Global {
            sym_name,
            global_type,
            linkage,
            address_space,
            initializer,
            alignment,
        } => Ok(
            GenericOpView::new("llvm.mlir.global"@).prop_raw(
                "addr_space"@,
                nat_decimal(address_space as nat) + " : i32"@,
            ).prop("global_type"@, Attr::Type(global_type)).prop(
                "linkage"@,
                Attr::Linkage(linkage_or_external(linkage)),
            ).prop_raw("sym_name"@, sym_name_text(sym_name)).prop_opt(
                "alignment"@,
                alignment_attr(alignment),
            ).with_min_regions(1).prop_opt("value"@, initializer),
        ),
        _ => Err(ErrorView::MissingOpTranslation(seq![])),
    }
}

/// A dictionary entry for `a`, if there is an `a`.
pub open spec fn attr_entry(a: Option<Attr>) -> Option<crate::printers::MlirAttrView> {
    match a {
        Some(x) => Some(crate::printers::MlirAttrView::Attr(x)),
        None => None,
    }
}

/// [direct_mnemonic].
fn direct_mnemonic_str(d: DirectOp) -> (m: &'static str)
    ensures
        m@ == direct_mnemonic(d),
{
    match d {
        DirectOp::Return => "llvm.return",
        DirectOp::Unreachable => "llvm.unreachable",
        DirectOp::Br => "llvm.br",
        DirectOp::UDiv => "llvm.udiv",
        DirectOp::SDiv => "llvm.sdiv",
        DirectOp::URem => "llvm.urem",
        DirectOp::SRem => "llvm.srem",
        DirectOp::And => "llvm.and",
        DirectOp::Or => "llvm.or",
        DirectOp::Xor => "llvm.xor",
        DirectOp::LShr => "llvm.lshr",
        DirectOp::AShr => "llvm.ashr",
        DirectOp::Bitcast => "llvm.bitcast",
        DirectOp::IntToPtr => "llvm.inttoptr",
        DirectOp::PtrToInt => "llvm.ptrtoint",
        DirectOp::AddrSpaceCast => "llvm.addrspacecast",
        DirectOp::SExt => "llvm.sext",
        DirectOp::Trunc => "llvm.trunc",
        DirectOp::FPToSI => "llvm.fptosi",
        DirectOp::FPToUI => "llvm.fptoui",
        DirectOp::SIToFP => "llvm.sitofp",
        DirectOp::Freeze => "llvm.freeze",
        DirectOp::Undef => "llvm.mlir.undef",
        DirectOp::Poison => "llvm.mlir.poison",
        DirectOp::Zero => "llvm.mlir.zero",
        DirectOp::InsertElement => "llvm.insertelement",
        DirectOp::ExtractElement => "llvm.extractelement",
        DirectOp::VAArg => "llvm.va_arg",
    }
}

/// [overflow_mnemonic].
fn overflow_mnemonic_str(o: OverflowOp) -> (m: &'static str)
    ensures
        m@ == overflow_mnemonic(o),
{
    match o {
        OverflowOp::Add => "llvm.add",
        OverflowOp::Sub => "llvm.sub",
        OverflowOp::Mul => "llvm.mul",
        OverflowOp::Shl => "llvm.shl",
    }
}

/// [fastmath_mnemonic].
fn fastmath_mnemonic_str(o: FastmathOp) -> (m: &'static str)
    ensures
        m@ == fastmath_mnemonic(o),
{
    match o {
        FastmathOp::FAdd => "llvm.fadd",
        FastmathOp::FSub => "llvm.fsub",
        FastmathOp::FMul => "llvm.fmul",
        FastmathOp::FDiv => "llvm.fdiv",
        FastmathOp::FRem => "llvm.frem",
        FastmathOp::FNeg => "llvm.fneg",
        FastmathOp::FPExt => "llvm.fpext",
        FastmathOp::FPTrunc => "llvm.fptrunc",
    }
}

/// [nneg_mnemonic].
fn nneg_mnemonic_str(o: NNegOp) -> (m: &'static str)
    ensures
        m@ == nneg_mnemonic(o),
{
    match o {
        NNegOp::ZExt => "llvm.zext",
        NNegOp::UIToFP => "llvm.uitofp",
    }
}

/// A dictionary entry for `a`, if there is an `a`.
fn owned_entry(a: Option<Attr>) -> (res: Option<MlirAttr<'static>>)
    ensures
        opt_mlir_attr_view(res) == attr_entry(a),
{
    match a {
        Some(x) => Some(MlirAttr::Owned(x)),
        None => None,
    }
}

/// [fastmath_attr].
fn fastmath_entry(flags: Option<FastmathFlags>) -> (res: Option<MlirAttr<'static>>)
    ensures
        opt_mlir_attr_view(res) == attr_entry(fastmath_attr(flags)),
{
    match flags {
        Some(f) => owned_entry(Some(Attr::FastmathFlags(f))),
        None => owned_entry(None),
    }
}

/// [alignment_attr].
fn alignment_entry(alignment: Option<u32>) -> (res: Option<MlirAttr<'static>>)
    ensures
        opt_mlir_attr_view(res) == attr_entry(alignment_attr(alignment)),
{
    match alignment {
        Some(a) => owned_entry(Some(Attr::Alignment(a))),
        None => owned_entry(None),
    }
}

/// [linkage_or_external].
fn linkage_or_external_of(linkage: Option<LinkageAttr>) -> (res: LinkageAttr)
    ensures
        res == linkage_or_external(linkage),
{
    match linkage {
        Some(l) => l,
        None => LinkageAttr::ExternalLinkage,
    }
}

/// References to those of `vals` that are not of void type.
fn non_void_results(vals: &Vec<Value>) -> (res: Vec<&Value>)
    ensures
        refs_view(res@) == non_void(vals@),
{
    let mut res: Vec<&Value> = Vec::new();
    let mut i: usize = 0;
    while i < vals.len()
        invariant
            i <= vals@.len(),
            refs_view(res@) == non_void(vals@.take(i as int)),
        decreases vals.len() - i,
    {
        let ghost before = res@;
        assert(vals@.take(i + 1).drop_last() =~= vals@.take(i as int));
        assert(vals@.take(i + 1).last() == vals@[i as int]);
        let is_void = match &vals[i].ty {
            Ty::Void => true,
            _ => false,
        };
        if !is_void {
            res.push(&vals[i]);
            assert(refs_view(res@) =~= refs_view(before).push(vals@[i as int]));
        }
        i += 1;
    }
    assert(vals@.take(i as int) =~= vals@);
    res
}

/// Print `g`, which is what `op` translates to.
fn print_translation(ctx: &Context, op: &Operation, g: GenericOp, indent: Indentation, out: &mut String) -> (r:
    Result<(), Error>)
    requires
        g.op_view() == *op,
        op_translation(*op) == Ok::<GenericOpView, ErrorView>(g@),
    ensures
        emitted(old(out)@, final(out)@, r, op_text(*ctx, *op, indent)),
    decreases *op, 2nat,
{
    proof {
        lemma_op_text(*ctx, *op, indent);
    }
    g.print(ctx, indent, out)
}

/// An op that carries only its operands, results and successors.
fn direct_to_mlir(ctx: &Context, op: &Operation, d: DirectOp, indent: Indentation, out: &mut String) -> (r:
    Result<(), Error>)
    requires
        op.kind == OpKind::Direct(d),
    ensures
        emitted(old(out)@, final(out)@, r, op_text(*ctx, *op, indent)),
    decreases *op, 3nat,
{
    proof {
        reveal(op_translation);
    }
    let g = GenericOp::new(op, direct_mnemonic_str(d));
    print_translation(ctx, op, g, indent, out)
}

/// Integer arithmetic that carries LLVM's `nsw` / `nuw` flags.
fn overflow_to_mlir(
    ctx: &Context,
    op: &Operation,
    o: OverflowOp,
    flags: Option<(bool, bool)>,
    indent: Indentation,
    out: &mut String,
) -> (r: Result<(), Error>)
    requires
        op.kind == (OpKind::Overflow { op: o, flags }),
    ensures
        emitted(old(out)@, final(out)@, r, op_text(*ctx, *op, indent)),
    decreases *op, 3nat,
{
    proof {
        reveal(op_translation);
    }
    let attr = match flags {
        Some((nsw, nuw)) => Some(Attr::IntegerOverflowFlags { nsw, nuw }),
        None => None,
    };
    let g = GenericOp::new(op, overflow_mnemonic_str(o)).prop_entry_opt(
        "overflowFlags",
        owned_entry(attr),
    );
    print_translation(ctx, op, g, indent, out)
}

/// Floating point arithmetic that carries LLVM's fast-math flags.
fn fastmath_to_mlir(
    ctx: &Context,
    op: &Operation,
    o: FastmathOp,
    flags: Option<FastmathFlags>,
    indent: Indentation,
    out: &mut String,
) -> (r: Result<(), Error>)
    requires
        op.kind == (OpKind::Fastmath { op: o, flags }),
    ensures
        emitted(old(out)@, final(out)@, r, op_text(*ctx, *op, indent)),
    decreases *op, 3nat,
{
    proof {
        reveal(op_translation);
    }
    let g = GenericOp::new(op, fastmath_mnemonic_str(o)).prop_entry_opt(
        "fastmathFlags",
        fastmath_entry(flags),
    );
    print_translation(ctx, op, g, indent, out)
}

/// Widening conversions that carry LLVM's `nneg` flag (MLIR's `nonNeg`).
fn nneg_to_mlir(
    ctx: &Context,
    op: &Operation,
    o: NNegOp,
    nneg: Option<bool>,
    indent: Indentation,
    out: &mut String,
) -> (r: Result<(), Error>)
    requires
        op.kind == (OpKind::NNeg { op: o, nneg }),
    ensures
        emitted(old(out)@, final(out)@, r, op_text(*ctx, *op, indent)),
    decreases *op, 3nat,
{
    proof {
        reveal(op_translation);
    }
    let set = match nneg {
        Some(b) => b,
        None => false,
    };
    let attr = if set {
        Some(Attr::Unit)
    } else {
        None
    };
    let g = GenericOp::new(op, nneg_mnemonic_str(o)).prop_entry_opt("nonNeg", owned_entry(attr));
    print_translation(ctx, op, g, indent, out)
}

/// `llvm.icmp`. MLIR keeps the predicate as an integer property.
fn int_compare_to_mlir(
    ctx: &Context,
    op: &Operation,
    predicate: crate::ir::ICmpPredicateAttr,
    indent: Indentation,
    out: &mut String,
) -> (r: Result<(), Error>)
    requires
        op.kind == (OpKind::ICmp { predicate }),
    ensures
        emitted(old(out)@, final(out)@, r, op_text(*ctx, *op, indent)),
    decreases *op, 3nat,
{
    proof {
        reveal(op_translation);
    }
    let g = GenericOp::new(op, "llvm.icmp").prop_entry(
        "predicate",
        MlirAttr::Owned(Attr::ICmpPredicate(predicate)),
    );
    print_translation(ctx, op, g, indent, out)
}

/// `llvm.fcmp`. MLIR keeps the predicate as an integer property.
fn float_compare_to_mlir(
    ctx: &Context,
    op: &Operation,
    predicate: crate::ir::FCmpPredicateAttr,
    flags: Option<FastmathFlags>,
    indent: Indentation,
    out: &mut String,
) -> (r: Result<(), Error>)
    requires
        op.kind == (OpKind::FCmp { predicate, flags }),
    ensures
        emitted(old(out)@, final(out)@, r, op_text(*ctx, *op, indent)),
    decreases *op, 3nat,
{
    proof {
        reveal(op_translation);
    }
    let g = GenericOp::new(op, "llvm.fcmp").prop_entry_opt("fastmathFlags", fastmath_entry(flags)).prop_entry(
        "predicate",
        MlirAttr::Owned(Attr::FCmpPredicate(predicate)),
    );
    print_translation(ctx, op, g, indent, out)
}

/// `llvm.select`.
fn select_to_mlir(
    ctx: &Context,
    op: &Operation,
    flags: Option<FastmathFlags>,
    indent: Indentation,
    out: &mut String,
) -> (r: Result<(), Error>)
    requires
        op.kind == (OpKind::Select { flags }),
    ensures
        emitted(old(out)@, final(out)@, r, op_text(*ctx, *op, indent)),
    decreases *op, 3nat,
{
    proof {
        reveal(op_translation);
    }
    let g = GenericOp::new(op, "llvm.select").prop_entry_opt("fastmathFlags", fastmath_entry(flags));
    print_translation(ctx, op, g, indent, out)
}

/// `llvm.alloca`.
fn alloca_to_mlir(
    ctx: &Context,
    op: &Operation,
    elem_type: &Ty,
    alignment: Option<u32>,
    indent: Indentation,
    out: &mut String,
) -> (r: Result<(), Error>)
    requires
        op.kind == (OpKind::Alloca { elem_type: *elem_type, alignment }),
    ensures
        emitted(old(out)@, final(out)@, r, op_text(*ctx, *op, indent)),
    decreases *op, 3nat,
{
    proof {
        reveal(op_translation);
    }
    let g = GenericOp::new(op, "llvm.alloca").prop_entry("elem_type", MlirAttr::Type(elem_type)).prop_entry_opt(
        "alignment",
        alignment_entry(alignment),
    );
    print_translation(ctx, op, g, indent, out)
}

/// `llvm.getelementptr`.
fn get_element_ptr_to_mlir(
    ctx: &Context,
    op: &Operation,
    elem_type: &Ty,
    indices: &Vec<crate::ir::GepIndexAttr>,
    indent: Indentation,
    out: &mut String,
) -> (r: Result<(), Error>)
    requires
        op.kind == (OpKind::GetElementPtr { elem_type: *elem_type, indices: *indices }),
    ensures
        emitted(old(out)@, final(out)@, r, op_text(*ctx, *op, indent)),
    decreases *op, 3nat,
{
    proof {
        reveal(op_translation);
    }
    let g = GenericOp::new(op, "llvm.getelementptr").prop_entry(
        "elem_type",
        MlirAttr::Type(elem_type),
    ).prop_entry("rawConstantIndices", MlirAttr::GepIndices(indices));
    print_translation(ctx, op, g, indent, out)
}

/// `llvm.load` or `llvm.store`, with an optional alignment.
fn memory_access_to_mlir(
    ctx: &Context,
    op: &Operation,
    alignment: Option<u32>,
    indent: Indentation,
    out: &mut String,
) -> (r: Result<(), Error>)
    requires
        op.kind == (OpKind::Load { alignment }) || op.kind == (OpKind::Store { alignment }),
    ensures
        emitted(old(out)@, final(out)@, r, op_text(*ctx, *op, indent)),
    decreases *op, 3nat,
{
    proof {
        reveal(op_translation);
    }
    let mnemonic = match &op.kind {
        OpKind::Load { .. } => "llvm.load",
        _ => "llvm.store",
    };
    let g = GenericOp::new(op, mnemonic).prop_entry_opt("alignment", alignment_entry(alignment));
    print_translation(ctx, op, g, indent, out)
}

/// `llvm.load` or `llvm.store` with an atomic ordering: MLIR has no separate
/// atomic ops, and insists on an alignment.
fn atomic_access_to_mlir(
    ctx: &Context,
    op: &Operation,
    ordering: crate::ir::AtomicOrderingAttr,
    syncscope: &Option<Attr>,
    alignment: Option<u32>,
    indent: Indentation,
    out: &mut String,
) -> (r: Result<(), Error>)
    requires
        op.kind == (OpKind::AtomicLoad { ordering, syncscope: *syncscope, alignment })
            || op.kind == (OpKind::AtomicStore { ordering, syncscope: *syncscope, alignment }),
    ensures
        emitted(old(out)@, final(out)@, r, op_text(*ctx, *op, indent)),
    decreases *op, 3nat,
{
    proof {
        reveal(op_translation);
    }
    let a = match alignment {
        Some(a) => a,
        None => {
            proof {
                reveal_with_fuel(crate::error_view, 2);
                lemma_op_text(*ctx, *op, indent);
            }
            return Err(
                Error::Located(
                    op.location,
                    Box::new(
                        Error::Untranslatable(
                            String::from_str("MLIR requires an alignment on an atomic memory access"),
                        ),
                    ),
                ),
            );
        },
    };
    let mnemonic = match &op.kind {
        OpKind::AtomicLoad { .. } => "llvm.load",
        _ => "llvm.store",
    };
    let g = GenericOp::new(op, mnemonic).prop_entry("alignment", MlirAttr::Owned(Attr::Alignment(a))).prop_entry(
        "ordering",
        MlirAttr::Owned(Attr::AtomicOrdering(ordering)),
    ).prop_attr_opt("syncscope", syncscope.as_ref());
    print_translation(ctx, op, g, indent, out)
}

/// `llvm.atomicrmw`.
fn atomic_rmw_to_mlir(
    ctx: &Context,
    op: &Operation,
    kind: crate::ir::AtomicRmwKindAttr,
    ordering: crate::ir::AtomicOrderingAttr,
    syncscope: &Option<Attr>,
    indent: Indentation,
    out: &mut String,
) -> (r: Result<(), Error>)
    requires
        op.kind == (OpKind::AtomicRmw { kind, ordering, syncscope: *syncscope }),
    ensures
        emitted(old(out)@, final(out)@, r, op_text(*ctx, *op, indent)),
    decreases *op, 3nat,
{
    proof {
        reveal(op_translation);
    }
    let g = GenericOp::new(op, "llvm.atomicrmw").prop_entry(
        "bin_op",
        MlirAttr::Owned(Attr::AtomicRmwKind(kind)),
    ).prop_entry("ordering", MlirAttr::Owned(Attr::AtomicOrdering(ordering))).prop_attr_opt(
        "syncscope",
        syncscope.as_ref(),
    );
    print_translation(ctx, op, g, indent, out)
}

/// `llvm.cmpxchg`.
fn compare_exchange_to_mlir(
    ctx: &Context,
    op: &Operation,
    success: crate::ir::AtomicOrderingAttr,
    failure: crate::ir::AtomicOrderingAttr,
    syncscope: &Option<Attr>,
    indent: Indentation,
    out: &mut String,
) -> (r: Result<(), Error>)
    requires
        op.kind == (OpKind::AtomicCmpxchg { success, failure, syncscope: *syncscope }),
    ensures
        emitted(old(out)@, final(out)@, r, op_text(*ctx, *op, indent)),
    decreases *op, 3nat,
{
    proof {
        reveal(op_translation);
    }
    let g = GenericOp::new(op, "llvm.cmpxchg").prop_entry(
        "failure_ordering",
        MlirAttr::Owned(Attr::AtomicOrdering(failure)),
    ).prop_entry("success_ordering", MlirAttr::Owned(Attr::AtomicOrdering(success))).prop_attr_opt(
        "syncscope",
        syncscope.as_ref(),
    );
    print_translation(ctx, op, g, indent, out)
}

/// `llvm.fence`.
fn fence_to_mlir(
    ctx: &Context,
    op: &Operation,
    ordering: crate::ir::AtomicOrderingAttr,
    syncscope: &Option<Attr>,
    indent: Indentation,
    out: &mut String,
) -> (r: Result<(), Error>)
    requires
        op.kind == (OpKind::Fence { ordering, syncscope: *syncscope }),
    ensures
        emitted(old(out)@, final(out)@, r, op_text(*ctx, *op, indent)),
    decreases *op, 3nat,
{
    proof {
        reveal(op_translation);
    }
    let g = GenericOp::new(op, "llvm.fence").prop_entry(
        "ordering",
        MlirAttr::Owned(Attr::AtomicOrdering(ordering)),
    ).prop_attr_opt("syncscope", syncscope.as_ref());
    print_translation(ctx, op, g, indent, out)
}

/// `llvm.insertvalue` or `llvm.extractvalue`.
fn aggregate_value_to_mlir(
    ctx: &Context,
    op: &Operation,
    position: &Vec<u32>,
    indent: Indentation,
    out: &mut String,
) -> (r: Result<(), Error>)
    requires
        op.kind == (OpKind::InsertValue { position: *position }) || op.kind == (
        OpKind::ExtractValue { position: *position }),
    ensures
        emitted(old(out)@, final(out)@, r, op_text(*ctx, *op, indent)),
    decreases *op, 3nat,
{
    proof {
        reveal(op_translation);
    }
    let mnemonic = match &op.kind {
        OpKind::InsertValue { .. } => "llvm.insertvalue",
        _ => "llvm.extractvalue",
    };
    let g = GenericOp::new(op, mnemonic).prop_entry("position", MlirAttr::Position(position));
    print_translation(ctx, op, g, indent, out)
}

/// `llvm.shufflevector`.
fn shuffle_vector_to_mlir(
    ctx: &Context,
    op: &Operation,
    mask: &Vec<i32>,
    indent: Indentation,
    out: &mut String,
) -> (r: Result<(), Error>)
    requires
        op.kind == (OpKind::ShuffleVector { mask: *mask }),
    ensures
        emitted(old(out)@, final(out)@, r, op_text(*ctx, *op, indent)),
    decreases *op, 3nat,
{
    proof {
        reveal(op_translation);
    }
    let g = GenericOp::new(op, "llvm.shufflevector").prop_entry("mask", MlirAttr::Mask(mask));
    print_translation(ctx, op, g, indent, out)
}

/// `llvm.cond_br`: the segments (condition, true operands, false operands)
/// are MLIR's, in the same order.
fn cond_br_to_mlir(
    ctx: &Context,
    op: &Operation,
    segments: &Vec<u32>,
    indent: Indentation,
    out: &mut String,
) -> (r: Result<(), Error>)
    requires
        op.kind == (OpKind::CondBr { segments: *segments }),
    ensures
        emitted(old(out)@, final(out)@, r, op_text(*ctx, *op, indent)),
    decreases *op, 3nat,
{
    proof {
        reveal(op_translation);
    }
    let g = GenericOp::new(op, "llvm.cond_br").prop_entry(
        "operandSegmentSizes",
        MlirAttr::SegmentSizes(segments),
    );
    print_translation(ctx, op, g, indent, out)
}

/// `v[from..]`.
fn copy_from(v: &Vec<u32>, from: usize) -> (res: Vec<u32>)
    requires
        from <= v@.len(),
    ensures
        res@ == v@.skip(from as int),
{
    let mut res: Vec<u32> = Vec::new();
    let mut i: usize = from;
    while i < v.len()
        invariant
            from <= i <= v@.len(),
            res@ == v@.subrange(from as int, i as int),
        decreases v.len() - i,
    {
        res.push(v[i]);
        i += 1;
        assert(res@ =~= v@.subrange(from as int, i as int));
    }
    assert(res@ =~= v@.skip(from as int));
    res
}

/// `v` as MLIR's dense `i32` array.
fn dense_i32_array(v: &Vec<u32>) -> (res: String)
    ensures
        res@ == dense_array_text("i32"@, u32_values(v@)),
{
    let elems = crate::builtin::attributes::widen_u32s(v);
    crate::printers::mlir_dense_array("i32", elems.as_slice())
}

/// `llvm.switch`.
///
/// There is one operand segment per successor: the condition, then the
/// default destination's operands, then each case's. MLIR lumps all the case
/// operands into one segment and sizes them separately.
fn switch_to_mlir(
    ctx: &Context,
    op: &Operation,
    segments: &crate::ir::SegmentSizes,
    case_values: &Option<Vec<IntegerAttr>>,
    indent: Indentation,
    out: &mut String,
) -> (r: Result<(), Error>)
    requires
        op.kind == (OpKind::Switch { segments: *segments, case_values: *case_values }),
    ensures
        emitted(old(out)@, final(out)@, r, op_text(*ctx, *op, indent)),
    decreases *op, 3nat,
{
    proof {
        reveal(op_translation);
    }
    let sizes = segments.sizes();
    let ghost sv = sizes@;
    let head_len: usize = if sizes.len() < 2 {
        sizes.len()
    } else {
        2
    };
    let cases = copy_from(sizes, head_len);
    proof {
        lemma_seq_total_suffix(sv, head_len as int);
    }
    let mut total: u32 = 0;
    let mut i: usize = 0;
    while i < cases.len()
        invariant
            i <= cases@.len(),
            cases@ == sv.skip(head_len as int),
            seq_total(cases@) <= u32::MAX,
            total == seq_total(cases@.take(i as int)),
        decreases cases.len() - i,
    {
        proof {
            assert(cases@.take(i + 1).drop_last() =~= cases@.take(i as int));
            crate::ir::lemma_seq_total_prefix(cases@, i + 1);
        }
        total = total + cases[i];
        i += 1;
    }
    assert(cases@.take(i as int) =~= cases@);
    let mut operand_segments: Vec<u32> = Vec::new();
    let mut j: usize = 0;
    while j < head_len
        invariant
            j <= head_len <= sizes@.len(),
            sizes@ == sv,
            operand_segments@ == sv.take(j as int),
        decreases head_len - j,
    {
        operand_segments.push(sizes[j]);
        j += 1;
        assert(operand_segments@ =~= sv.take(j as int));
    }
    operand_segments.push(total);
    assert(u32_values(operand_segments@) =~= u32_values(sv.take(head_len as int)).push(
        seq_total(cases@) as int,
    ));
    let case_entry = match case_values {
        Some(v) => if v.len() > 0 {
            Some(MlirAttr::CaseValues(v))
        } else {
            None
        },
        None => None,
    };
    let g = GenericOp::new(op, "llvm.switch").prop_raw("case_operand_segments", dense_i32_array(&cases)).prop_raw(
        "operandSegmentSizes",
        dense_i32_array(&operand_segments),
    ).prop_entry_opt("case_values", case_entry);
    print_translation(ctx, op, g, indent, out)
}

/// `llvm.indirectbr`: the first segment is the address operand; the rest are
/// one per successor, as MLIR's `indbr_operand_segments`.
fn indirect_br_to_mlir(
    ctx: &Context,
    op: &Operation,
    segments: &Vec<u32>,
    indent: Indentation,
    out: &mut String,
) -> (r: Result<(), Error>)
    requires
        op.kind == (OpKind::IndirectBr { segments: *segments }),
    ensures
        emitted(old(out)@, final(out)@, r, op_text(*ctx, *op, indent)),
    decreases *op, 3nat,
{
    proof {
        reveal(op_translation);
    }
    let dest = if segments.len() == 0 {
        Vec::new()
    } else {
        copy_from(segments, 1)
    };
    assert(dest@ == indirect_dest_segments(segments@));
    let g = GenericOp::new(op, "llvm.indirectbr").prop_raw(
        "indbr_operand_segments",
        dense_i32_array(&dest),
    );
    print_translation(ctx, op, g, indent, out)
}

/// `llvm.mlir.constant`, or the dedicated op for the values that are not
/// constant expressions (`llvm.mlir.zero` / `undef` / `poison`).
fn llvm_constant_to_mlir(
    ctx: &Context,
    op: &Operation,
    value: &Attr,
    indent: Indentation,
    out: &mut String,
) -> (r: Result<(), Error>)
    requires
        op.kind == (OpKind::Constant { value: *value }),
    ensures
        emitted(old(out)@, final(out)@, r, op_text(*ctx, *op, indent)),
    decreases *op, 3nat,
{
    proof {
        reveal(op_translation);
    }
    let g = match value {
        Attr::Zero(_) => GenericOp::new(op, "llvm.mlir.zero"),
        Attr::Undef(_) => GenericOp::new(op, "llvm.mlir.undef"),
        Attr::Poison(_) => GenericOp::new(op, "llvm.mlir.poison"),
        _ => GenericOp::new(op, "llvm.mlir.constant").prop_attr("value", value),
    };
    print_translation(ctx, op, g, indent, out)
}

/// `llvm.mlir.addressof`.
fn address_of_to_mlir(
    ctx: &Context,
    op: &Operation,
    global_name: &String,
    indent: Indentation,
    out: &mut String,
) -> (r: Result<(), Error>)
    requires
        op.kind == (OpKind::AddressOf { global_name: *global_name }),
    ensures
        emitted(old(out)@, final(out)@, r, op_text(*ctx, *op, indent)),
    decreases *op, 3nat,
{
    proof {
        reveal(op_translation);
    }
    let g = GenericOp::new(op, "llvm.mlir.addressof").prop_entry(
        "global_name",
        MlirAttr::Symbol(global_name),
    );
    print_translation(ctx, op, g, indent, out)
}

/// `llvm.blocktag`.
fn block_tag_to_mlir(ctx: &Context, op: &Operation, tag_id: u64, indent: Indentation, out: &mut String) -> (r:
    Result<(), Error>)
    requires
        op.kind == (OpKind::BlockTag { tag_id }),
    ensures
        emitted(old(out)@, final(out)@, r, op_text(*ctx, *op, indent)),
    decreases *op, 3nat,
{
    proof {
        reveal(op_translation);
    }
    let mut tag = String::from_str("#llvm.blocktag<id = ");
    push_decimal_u64(&mut tag, tag_id);
    tag.append(">");
    let g = GenericOp::new(op, "llvm.blocktag").prop_raw("tag", tag);
    print_translation(ctx, op, g, indent, out)
}

/// `llvm.blockaddress`.
fn block_address_to_mlir(
    ctx: &Context,
    op: &Operation,
    function: &String,
    tag_id: u64,
    indent: Indentation,
    out: &mut String,
) -> (r: Result<(), Error>)
    requires
        op.kind == (OpKind::BlockAddress { function: *function, tag_id }),
    ensures
        emitted(old(out)@, final(out)@, r, op_text(*ctx, *op, indent)),
    decreases *op, 3nat,
{
    proof {
        reveal(op_translation);
    }
    let mut addr = String::from_str("#llvm.blockaddress<function = @");
    addr.append(function.as_str());
    addr.append(", tag = <id = ");
    push_decimal_u64(&mut addr, tag_id);
    addr.append(">>");
    let g = GenericOp::new(op, "llvm.blockaddress").prop_raw("block_addr", addr);
    print_translation(ctx, op, g, indent, out)
}

/// `llvm.inline_asm`.
///
/// The `convergent` flag has no MLIR counterpart on this op, so it
/// translates to a discardable attribute.
fn inline_asm_to_mlir(
    ctx: &Context,
    op: &Operation,
    template: &String,
    constraints: &String,
    convergent: Option<bool>,
    indent: Indentation,
    out: &mut String,
) -> (r: Result<(), Error>)
    requires
        op.kind == (OpKind::InlineAsm { template: *template, constraints: *constraints, convergent }),
    ensures
        emitted(old(out)@, final(out)@, r, op_text(*ctx, *op, indent)),
    decreases *op, 3nat,
{
    proof {
        reveal(op_translation);
    }
    let mut g = GenericOp::new(op, "llvm.inline_asm").results(non_void_results(&op.results)).prop_raw(
        "asm_string",
        mlir_string_literal(template.as_str()),
    ).prop_raw("constraints", mlir_string_literal(constraints.as_str()));
    if convergent == Some(true) {
        g = g.attr_raw("llvm_convergent", String::from_str("unit"));
    }
    print_translation(ctx, op, g, indent, out)
}

/// The operand segments of a call: all `n` operands are the callee's, none an
/// operand bundle's.
fn call_segments(n: usize) -> (res: String)
    ensures
        res@ == call_segments_text(n as nat),
{
    #[verifier::truncate]
    let count = n as u32;
    let elems: Vec<i64> = vec![count as i64, 0];
    assert(ints(elems@) =~= seq![(n as u32) as int, 0]);
    crate::printers::mlir_dense_array("i32", elems.as_slice())
}

/// No operand bundle sizes.
fn no_bundles() -> (res: String)
    ensures
        res@ == dense_array_text("i32"@, seq![]),
{
    let elems: Vec<i64> = Vec::new();
    assert(ints(elems@) =~= seq![]);
    crate::printers::mlir_dense_array("i32", elems.as_slice())
}

/// `llvm.call`.
fn call_to_mlir(
    ctx: &Context,
    op: &Operation,
    callee: &Option<String>,
    flags: Option<FastmathFlags>,
    callee_type: &Ty,
    indent: Indentation,
    out: &mut String,
) -> (r: Result<(), Error>)
    requires
        op.kind == (OpKind::Call { callee: *callee, flags, callee_type: *callee_type }),
    ensures
        emitted(old(out)@, final(out)@, r, op_text(*ctx, *op, indent)),
    decreases *op, 3nat,
{
    proof {
        reveal(op_translation);
    }
    // A direct call names its callee; an indirect one passes it as the first
    // operand.
    let callee_entry = match callee {
        Some(c) => Some(MlirAttr::Symbol(c)),
        None => None,
    };
    let var_callee_entry = match callee_type {
        Ty::Func { var_arg, .. } => if *var_arg {
            Some(MlirAttr::Type(callee_type))
        } else {
            None
        },
        _ => None,
    };
    let g = GenericOp::new(op, "llvm.call").results(non_void_results(&op.results)).prop_raw(
        "op_bundle_sizes",
        no_bundles(),
    ).prop_raw("operandSegmentSizes", call_segments(op.operands.len())).prop_entry_opt(
        "callee",
        callee_entry,
    ).prop_entry_opt("fastmathFlags", fastmath_entry(flags)).prop_entry_opt(
        "var_callee_type",
        var_callee_entry,
    );
    print_translation(ctx, op, g, indent, out)
}

/// `llvm.call_intrinsic`.
fn call_intrinsic_to_mlir(
    ctx: &Context,
    op: &Operation,
    name: &String,
    flags: Option<FastmathFlags>,
    indent: Indentation,
    out: &mut String,
) -> (r: Result<(), Error>)
    requires
        op.kind == (OpKind::CallIntrinsic { name: *name, flags }),
    ensures
        emitted(old(out)@, final(out)@, r, op_text(*ctx, *op, indent)),
    decreases *op, 3nat,
{
    proof {
        reveal(op_translation);
    }
    let g = GenericOp::new(op, "llvm.call_intrinsic").results(non_void_results(&op.results)).prop_raw(
        "intrin",
        mlir_string_literal(name.as_str()),
    ).prop_raw("op_bundle_sizes", no_bundles()).prop_raw(
        "operandSegmentSizes",
        call_segments(op.operands.len()),
    ).prop_entry_opt("fastmathFlags", fastmath_entry(flags));
    print_translation(ctx, op, g, indent, out)
}

/// `llvm.func`: MLIR always spells the linkage out, and always has a body
/// region, empty for a declaration.
fn llvm_func_to_mlir(
    ctx: &Context,
    op: &Operation,
    sym_name: &String,
    func_type: &Ty,
    linkage: Option<LinkageAttr>,
    indent: Indentation,
    out: &mut String,
) -> (r: Result<(), Error>)
    requires
        op.kind == (OpKind::Func { sym_name: *sym_name, func_type: *func_type, linkage }),
    ensures
        emitted(old(out)@, final(out)@, r, op_text(*ctx, *op, indent)),
    decreases *op, 3nat,
{
    proof {
        reveal(op_translation);
    }
    let g = GenericOp::new(op, "llvm.func").prop_entry("function_type", MlirAttr::Type(func_type)).prop_entry(
        "linkage",
        MlirAttr::Owned(Attr::Linkage(linkage_or_external_of(linkage))),
    ).prop_raw("sym_name", mlir_string_literal(sym_name.as_str())).min_regions(1);
    print_translation(ctx, op, g, indent, out)
}

/// `llvm.mlir.global`: MLIR always spells the linkage out, and always has an
/// initializer region, empty when the initializer is a plain value or absent.
fn global_to_mlir(
    ctx: &Context,
    op: &Operation,
    sym_name: &String,
    global_type: &Ty,
    linkage: Option<LinkageAttr>,
    address_space: u32,
    initializer: &Option<Attr>,
    alignment: Option<u32>,
    indent: Indentation,
    out: &mut String,
) -> (r: Result<(), Error>)
    requires
        op.kind == (OpKind::Global {
            sym_name: *sym_name,
            global_type: *global_type,
            linkage,
            address_space,
            initializer: *initializer,
            alignment,
        }),
    ensures
        emitted(old(out)@, final(out)@, r, op_text(*ctx, *op, indent)),
    decreases *op, 3nat,
{
    proof {
        reveal(op_translation);
    }
    let mut addr_space = String::new();
    push_decimal_u64(&mut addr_space, address_space as u64);
    addr_space.append(" : i32");
    let g = GenericOp::new(op, "llvm.mlir.global").prop_raw("addr_space", addr_space).prop_entry(
        "global_type",
        MlirAttr::Type(global_type),
    ).prop_entry("linkage", MlirAttr::Owned(Attr::Linkage(linkage_or_external_of(linkage)))).prop_raw(
        "sym_name",
        mlir_string_literal(sym_name.as_str()),
    ).prop_entry_opt("alignment", alignment_entry(alignment)).min_regions(1).prop_attr_opt(
        "value",
        initializer.as_ref(),
    );
    print_translation(ctx, op, g, indent, out)
}

/// Dispatch to the translation of an LLVM operation.
pub(crate) fn llvm_op_to_mlir(ctx: &Context, op: &Operation, indent: Indentation, out: &mut String) -> (r:
    Result<(), Error>)
    requires
        !(op.kind is Module || op.kind is BuiltinFunc || op.kind is BuiltinConstant
            || op.kind is Generic || op.kind is Custom || op.kind is Unsupported),
    ensures
        emitted(old(out)@, final(out)@, r, op_text(*ctx, *op, indent)),
    decreases *op, 4nat,
{
    match &op.kind {
        OpKind::Direct(d) => direct_to_mlir(ctx, op, *d, indent, out),
        OpKind::Overflow { op: o, flags } => overflow_to_mlir(ctx, op, *o, *flags, indent, out),
        OpKind::Fastmath { op: o, flags } => fastmath_to_mlir(ctx, op, *o, *flags, indent, out),
        OpKind::NNeg { op: o, nneg } => nneg_to_mlir(ctx, op, *o, *nneg, indent, out),
        OpKind::ICmp { predicate } => int_compare_to_mlir(ctx, op, *predicate, indent, out),
        OpKind::FCmp { predicate, flags } => float_compare_to_mlir(
            ctx,
            op,
            *predicate,
            *flags,
            indent,
            out,
        ),
        OpKind::Select { flags } => select_to_mlir(ctx, op, *flags, indent, out),
        OpKind::Alloca { elem_type, alignment } => alloca_to_mlir(
            ctx,
            op,
            elem_type,
            *alignment,
            indent,
            out,
        ),
        OpKind::GetElementPtr { elem_type, indices } => get_element_ptr_to_mlir(
            ctx,
            op,
            elem_type,
            indices,
            indent,
            out,
        ),
        OpKind::Load { alignment } => memory_access_to_mlir(ctx, op, *alignment, indent, out),
        OpKind::Store { alignment } => memory_access_to_mlir(ctx, op, *alignment, indent, out),
        OpKind::AtomicLoad { ordering, syncscope, alignment } => atomic_access_to_mlir(
            ctx,
            op,
            *ordering,
            syncscope,
            *alignment,
            indent,
            out,
        ),
        OpKind::AtomicStore { ordering, syncscope, alignment } => atomic_access_to_mlir(
            ctx,
            op,
            *ordering,
            syncscope,
            *alignment,
            indent,
            out,
        ),
        OpKind::AtomicRmw { kind, ordering, syncscope } => atomic_rmw_to_mlir(
            ctx,
            op,
            *kind,
            *ordering,
            syncscope,
            indent,
            out,
        ),
        OpKind::AtomicCmpxchg { success, failure, syncscope } => compare_exchange_to_mlir(
            ctx,
            op,
            *success,
            *failure,
            syncscope,
            indent,
            out,
        ),
        OpKind::Fence { ordering, syncscope } => fence_to_mlir(
            ctx,
            op,
            *ordering,
            syncscope,
            indent,
            out,
        ),
        OpKind::InsertValue { position } => aggregate_value_to_mlir(ctx, op, position, indent, out),
        OpKind::ExtractValue { position } => aggregate_value_to_mlir(ctx, op, position, indent, out),
        OpKind::ShuffleVector { mask } => shuffle_vector_to_mlir(ctx, op, mask, indent, out),
        OpKind::CondBr { segments } => cond_br_to_mlir(ctx, op, segments, indent, out),
        OpKind::Switch { segments, case_values } => switch_to_mlir(
            ctx,
            op,
            segments,
            case_values,
            indent,
            out,
        ),
        OpKind::IndirectBr { segments } => indirect_br_to_mlir(ctx, op, segments, indent, out),
        OpKind::Constant { value } => llvm_constant_to_mlir(ctx, op, value, indent, out),
        OpKind::AddressOf { global_name } => address_of_to_mlir(ctx, op, global_name, indent, out),
        OpKind::BlockTag { tag_id } => block_tag_to_mlir(ctx, op, *tag_id, indent, out),
        OpKind::BlockAddress { function, tag_id } => block_address_to_mlir(
            ctx,
            op,
            function,
            *tag_id,
            indent,
            out,
        ),
        OpKind::InlineAsm { template, constraints, convergent } => inline_asm_to_mlir(
            ctx,
            op,
            template,
            constraints,
            *convergent,
            indent,
            out,
        ),
        OpKind::Call { callee, flags, callee_type } => call_to_mlir(
            ctx,
            op,
            callee,
            *flags,
            callee_type,
            indent,
            out,
        ),
        OpKind::CallIntrinsic { name, flags } => call_intrinsic_to_mlir(
            ctx,
            op,
            name,
            *flags,
            indent,
            out,
        ),
        OpKind::Func { sym_name, func_type, linkage } => llvm_func_to_mlir(
            ctx,
            op,
            sym_name,
            func_type,
            *linkage,
            indent,
            out,
        ),
        OpKind::Global {
            sym_name,
            global_type,
            linkage,
            address_space,
            initializer,
            alignment,
        } => global_to_mlir(
            ctx,
            op,
            sym_name,
            global_type,
            *linkage,
            *address_space,
            initializer,
            *alignment,
            indent,
            out,
        ),
        OpKind::Module { .. } | OpKind::BuiltinFunc { .. } | OpKind::BuiltinConstant { .. }
        | OpKind::Generic { .. } | OpKind::Custom { .. } | OpKind::Unsupported { .. } => {
            proof {
                assert(false);
            }
            Err(Error::Fmt)
        },
    }
}

} // verus!
