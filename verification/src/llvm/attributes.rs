//! MLIR translation for LLVM dialect attributes.

use vstd::prelude::*;

use crate::builtin::attributes::{apint_text, push_apint};
use crate::builtin::types::{integer_type_text, integer_type_to_mlir};
use crate::ir::{
    AtomicOrderingAttr, AtomicRmwKindAttr, FCmpPredicateAttr, GepIndexAttr, ICmpPredicateAttr,
    IntegerAttr, LinkageAttr, Signedness,
};
use crate::printers::{dense_array_text, ints, mlir_dense_array};
use crate::text::{int_decimal, nat_decimal, push_decimal_i64, push_decimal_u64};
use crate::{fail, Error, ErrorView, Text};

verus! {

/// The `rawConstantIndices` entry MLIR's `llvm.getelementptr` uses to say
/// "this index comes from the next `dynamicIndices` operand": `i32::MIN`.
pub const GEP_DYNAMIC_INDEX: i64 = -2147483648i64;

/// The name of a linkage kind.
pub open spec fn linkage_name(linkage: LinkageAttr) -> Seq<char> {
    match linkage {
        LinkageAttr::ExternalLinkage => "ExternalLinkage"@,
        LinkageAttr::AvailableExternallyLinkage => "AvailableExternallyLinkage"@,
        LinkageAttr::LinkOnceAnyLinkage => "LinkOnceAnyLinkage"@,
        LinkageAttr::LinkOnceODRLinkage => "LinkOnceODRLinkage"@,
        LinkageAttr::LinkOnceODRAutoHideLinkage => "LinkOnceODRAutoHideLinkage"@,
        LinkageAttr::WeakAnyLinkage => "WeakAnyLinkage"@,
        LinkageAttr::WeakODRLinkage => "WeakODRLinkage"@,
        LinkageAttr::AppendingLinkage => "AppendingLinkage"@,
        LinkageAttr::InternalLinkage => "InternalLinkage"@,
        LinkageAttr::PrivateLinkage => "PrivateLinkage"@,
        LinkageAttr::DLLImportLinkage => "DLLImportLinkage"@,
        LinkageAttr::DLLExportLinkage => "DLLExportLinkage"@,
        LinkageAttr::ExternalWeakLinkage => "ExternalWeakLinkage"@,
        LinkageAttr::GhostLinkage => "GhostLinkage"@,
        LinkageAttr::CommonLinkage => "CommonLinkage"@,
        LinkageAttr::LinkerPrivateLinkage => "LinkerPrivateLinkage"@,
        LinkageAttr::LinkerPrivateWeakLinkage => "LinkerPrivateWeakLinkage"@,
    }
}

/// MLIR's `#llvm.linkage<...>` keyword for `linkage`, if it has one.
pub open spec fn linkage_keyword_spec(linkage: LinkageAttr) -> Option<Seq<char>> {
    match linkage {
        LinkageAttr::ExternalLinkage => Some("external"@),
        LinkageAttr::AvailableExternallyLinkage => Some("available_externally"@),
        LinkageAttr::LinkOnceAnyLinkage => Some("linkonce"@),
        LinkageAttr::LinkOnceODRLinkage => Some("linkonce_odr"@),
        LinkageAttr::WeakAnyLinkage => Some("weak"@),
        LinkageAttr::WeakODRLinkage => Some("weak_odr"@),
        LinkageAttr::AppendingLinkage => Some("appending"@),
        LinkageAttr::InternalLinkage => Some("internal"@),
        LinkageAttr::PrivateLinkage => Some("private"@),
        LinkageAttr::ExternalWeakLinkage => Some("extern_weak"@),
        LinkageAttr::CommonLinkage => Some("common"@),
        _ => None,
    }
}

/// `#llvm.linkage<keyword>`, or the error for a linkage MLIR does not model.
pub open spec fn linkage_text(linkage: LinkageAttr) -> Text {
    match linkage_keyword_spec(linkage) {
        Some(k) => Ok("#llvm.linkage<"@ + k + ">"@),
        None => fail(ErrorView::Untranslatable(linkage_name(linkage) + " has no MLIR equivalent"@)),
    }
}

/// MLIR's `#llvm.linkage<...>` keyword for `linkage`.
///
/// LLVM-IR has more linkage kinds than MLIR's LLVM dialect models; those have
/// no keyword and yield an error.
pub fn linkage_keyword(linkage: LinkageAttr) -> (res: Result<&'static str, Error>)
    ensures
        match linkage_keyword_spec(linkage) {
            Some(k) => res matches Ok(s) && s@ == k,
            None => res matches Err(e) && e@ == ErrorView::Untranslatable(
                linkage_name(linkage) + " has no MLIR equivalent"@,
            ),
        },
{
    let keyword = match linkage {
        LinkageAttr::ExternalLinkage => "external",
        LinkageAttr::AvailableExternallyLinkage => "available_externally",
        LinkageAttr::LinkOnceAnyLinkage => "linkonce",
        LinkageAttr::LinkOnceODRLinkage => "linkonce_odr",
        LinkageAttr::WeakAnyLinkage => "weak",
        LinkageAttr::WeakODRLinkage => "weak_odr",
        LinkageAttr::AppendingLinkage => "appending",
        LinkageAttr::InternalLinkage => "internal",
        LinkageAttr::PrivateLinkage => "private",
        LinkageAttr::ExternalWeakLinkage => "extern_weak",
        LinkageAttr::CommonLinkage => "common",
        unsupported => {
            let name = match unsupported {
                LinkageAttr::LinkOnceODRAutoHideLinkage => "LinkOnceODRAutoHideLinkage",
                LinkageAttr::DLLImportLinkage => "DLLImportLinkage",
                LinkageAttr::DLLExportLinkage => "DLLExportLinkage",
                LinkageAttr::GhostLinkage => "GhostLinkage",
                LinkageAttr::LinkerPrivateLinkage => "LinkerPrivateLinkage",
                _ => "LinkerPrivateWeakLinkage",
            };
            let mut message = String::from_str(name);
            message.append(" has no MLIR equivalent");
            return Err(Error::Untranslatable(message));
        },
    };
    Ok(keyword)
}

/// `#llvm.linkage<external>` and friends.
pub fn linkage_attr_to_mlir(linkage: LinkageAttr, out: &mut String) -> (r: Result<(), Error>)
    ensures
        crate::emitted(old(out)@, final(out)@, r, linkage_text(linkage)),
{
    let keyword = linkage_keyword(linkage);
    match keyword {
        Ok(k) => {
            out.append("#llvm.linkage<");
            out.append(k);
            out.append(">");
            assert(out@ =~= old(out)@ + ("#llvm.linkage<"@ + k@ + ">"@));
            Ok(())
        },
        Err(e) => Err(e),
    }
}

/// The integer value of MLIR's `LLVM::ICmpPredicate` enum.
pub open spec fn int_predicate_value(p: ICmpPredicateAttr) -> nat {
    match p {
        ICmpPredicateAttr::EQ => 0,
        ICmpPredicateAttr::NE => 1,
        ICmpPredicateAttr::SLT => 2,
        ICmpPredicateAttr::SLE => 3,
        ICmpPredicateAttr::SGT => 4,
        ICmpPredicateAttr::SGE => 5,
        ICmpPredicateAttr::ULT => 6,
        ICmpPredicateAttr::ULE => 7,
        ICmpPredicateAttr::UGT => 8,
        ICmpPredicateAttr::UGE => 9,
    }
}

/// The integer value of MLIR's `LLVM::FCmpPredicate` enum.
pub open spec fn float_predicate_value(p: FCmpPredicateAttr) -> nat {
    match p {
        FCmpPredicateAttr::False => 0,
        FCmpPredicateAttr::OEQ => 1,
        FCmpPredicateAttr::OGT => 2,
        FCmpPredicateAttr::OGE => 3,
        FCmpPredicateAttr::OLT => 4,
        FCmpPredicateAttr::OLE => 5,
        FCmpPredicateAttr::ONE => 6,
        FCmpPredicateAttr::ORD => 7,
        FCmpPredicateAttr::UEQ => 8,
        FCmpPredicateAttr::UGT => 9,
        FCmpPredicateAttr::UGE => 10,
        FCmpPredicateAttr::ULT => 11,
        FCmpPredicateAttr::ULE => 12,
        FCmpPredicateAttr::UNE => 13,
        FCmpPredicateAttr::UNO => 14,
        FCmpPredicateAttr::True => 15,
    }
}

/// The integer value of MLIR's `LLVM::AtomicOrdering` enum.
pub open spec fn ordering_value(o: AtomicOrderingAttr) -> nat {
    match o {
        AtomicOrderingAttr::Monotonic => 2,
        AtomicOrderingAttr::Acquire => 4,
        AtomicOrderingAttr::Release => 5,
        AtomicOrderingAttr::AcqRel => 6,
        AtomicOrderingAttr::SeqCst => 7,
    }
}

/// The integer value of MLIR's `LLVM::AtomicBinOp` enum.
pub open spec fn rmw_kind_value(k: AtomicRmwKindAttr) -> nat {
    match k {
        AtomicRmwKindAttr::Xchg => 0,
        AtomicRmwKindAttr::Add => 1,
        AtomicRmwKindAttr::Sub => 2,
        AtomicRmwKindAttr::And => 3,
        AtomicRmwKindAttr::Nand => 4,
        AtomicRmwKindAttr::Or => 5,
        AtomicRmwKindAttr::Xor => 6,
        AtomicRmwKindAttr::Max => 7,
        AtomicRmwKindAttr::Min => 8,
        AtomicRmwKindAttr::UMax => 9,
        AtomicRmwKindAttr::UMin => 10,
        AtomicRmwKindAttr::FAdd => 11,
        AtomicRmwKindAttr::FSub => 12,
        AtomicRmwKindAttr::FMax => 13,
        AtomicRmwKindAttr::FMin => 14,
    }
}

/// How MLIR spells the enum properties it keeps as plain integers: `N : i64`.
pub open spec fn enum_value_text(value: nat) -> Seq<char> {
    nat_decimal(value) + " : i64"@
}

/// [int_predicate_value] of `p`.
pub fn int_predicate_number(p: ICmpPredicateAttr) -> (v: u64)
    ensures
        v == int_predicate_value(p),
{
    match p {
        ICmpPredicateAttr::EQ => 0,
        ICmpPredicateAttr::NE => 1,
        ICmpPredicateAttr::SLT => 2,
        ICmpPredicateAttr::SLE => 3,
        ICmpPredicateAttr::SGT => 4,
        ICmpPredicateAttr::SGE => 5,
        ICmpPredicateAttr::ULT => 6,
        ICmpPredicateAttr::ULE => 7,
        ICmpPredicateAttr::UGT => 8,
        ICmpPredicateAttr::UGE => 9,
    }
}

/// [float_predicate_value] of `p`.
pub fn float_predicate_number(p: FCmpPredicateAttr) -> (v: u64)
    ensures
        v == float_predicate_value(p),
{
    match p {
        FCmpPredicateAttr::False => 0,
        FCmpPredicateAttr::OEQ => 1,
        FCmpPredicateAttr::OGT => 2,
        FCmpPredicateAttr::OGE => 3,
        FCmpPredicateAttr::OLT => 4,
        FCmpPredicateAttr::OLE => 5,
        FCmpPredicateAttr::ONE => 6,
        FCmpPredicateAttr::ORD => 7,
        FCmpPredicateAttr::UEQ => 8,
        FCmpPredicateAttr::UGT => 9,
        FCmpPredicateAttr::UGE => 10,
        FCmpPredicateAttr::ULT => 11,
        FCmpPredicateAttr::ULE => 12,
        FCmpPredicateAttr::UNE => 13,
        FCmpPredicateAttr::UNO => 14,
        FCmpPredicateAttr::True => 15,
    }
}

/// [ordering_value] of `o`.
pub fn atomic_ordering_value(o: AtomicOrderingAttr) -> (v: u64)
    ensures
        v == ordering_value(o),
{
    match o {
        AtomicOrderingAttr::Monotonic => 2,
        AtomicOrderingAttr::Acquire => 4,
        AtomicOrderingAttr::Release => 5,
        AtomicOrderingAttr::AcqRel => 6,
        AtomicOrderingAttr::SeqCst => 7,
    }
}

/// [rmw_kind_value] of `k`.
pub fn atomic_rmw_kind_value(k: AtomicRmwKindAttr) -> (v: u64)
    ensures
        v == rmw_kind_value(k),
{
    match k {
        AtomicRmwKindAttr::Xchg => 0,
        AtomicRmwKindAttr::Add => 1,
        AtomicRmwKindAttr::Sub => 2,
        AtomicRmwKindAttr::And => 3,
        AtomicRmwKindAttr::Nand => 4,
        AtomicRmwKindAttr::Or => 5,
        AtomicRmwKindAttr::Xor => 6,
        AtomicRmwKindAttr::Max => 7,
        AtomicRmwKindAttr::Min => 8,
        AtomicRmwKindAttr::UMax => 9,
        AtomicRmwKindAttr::UMin => 10,
        AtomicRmwKindAttr::FAdd => 11,
        AtomicRmwKindAttr::FSub => 12,
        AtomicRmwKindAttr::FMax => 13,
        AtomicRmwKindAttr::FMin => 14,
    }
}

/// Appends [enum_value_text] of `value` to `out`.
pub fn enum_value_to_mlir(value: u64, out: &mut String)
    ensures
        final(out)@ == old(out)@ + enum_value_text(value as nat),
{
    push_decimal_u64(out, value);
    out.append(" : i64");
    assert(out@ =~= old(out)@ + enum_value_text(value as nat));
}

/// `parts`, separated by `, `.
pub open spec fn join_comma(parts: Seq<Seq<char>>) -> Seq<char>
    decreases parts.len(),
{
    if parts.len() == 0 {
        seq![]
    } else if parts.len() == 1 {
        parts[0]
    } else {
        join_comma(parts.drop_last()) + ", "@ + parts.last()
    }
}

/// The texts of `v`.
pub open spec fn strs_view(v: Seq<&str>) -> Seq<Seq<char>> {
    v.map_values(|s: &str| s@)
}

/// Appends `names` to `out`, separated by `, `.
pub fn push_joined(names: &Vec<&str>, out: &mut String)
    ensures
        final(out)@ == old(out)@ + join_comma(strs_view(names@)),
{
    let ghost start = out@;
    let mut i: usize = 0;
    while i < names.len()
        invariant
            i <= names@.len(),
            out@ == start + join_comma(strs_view(names@.take(i as int))),
        decreases names.len() - i,
    {
        if i > 0 {
            out.append(", ");
        }
        out.append(names[i]);
        proof {
            let next = strs_view(names@.take(i + 1));
            assert(next.drop_last() =~= strs_view(names@.take(i as int)));
            if i == 0 {
                assert(next.len() == 1);
            }
        }
        i += 1;
    }
    assert(names@.take(i as int) =~= names@);
}

/// `prefix`, then `none` when no flag is set, else the set flags' names
/// separated by `, `, then `>`.
pub open spec fn flags_text(prefix: Seq<char>, names: Seq<Seq<char>>) -> Seq<char> {
    if names.len() == 0 {
        prefix + "none"@ + ">"@
    } else {
        prefix + join_comma(names) + ">"@
    }
}

/// Appends [flags_text] to `out`.
fn push_flags(prefix: &str, names: &Vec<&str>, out: &mut String)
    ensures
        final(out)@ == old(out)@ + flags_text(prefix@, strs_view(names@)),
{
    out.append(prefix);
    if names.len() == 0 {
        out.append("none");
    } else {
        push_joined(names, out);
    }
    out.append(">");
    assert(out@ =~= old(out)@ + flags_text(prefix@, strs_view(names@)));
}

/// `name` if `set`.
pub open spec fn flag_if(set: bool, name: Seq<char>) -> Seq<Seq<char>> {
    if set {
        seq![name]
    } else {
        seq![]
    }
}

/// The names of the set integer overflow flags, in MLIR's order.
pub open spec fn overflow_names(nsw: bool, nuw: bool) -> Seq<Seq<char>> {
    flag_if(nsw, "nsw"@) + flag_if(nuw, "nuw"@)
}

/// `#llvm.overflow<none>`, `<nsw>`, `<nuw>` or `<nsw, nuw>`.
pub fn integer_overflow_flags_to_mlir(nsw: bool, nuw: bool, out: &mut String)
    ensures
        final(out)@ == old(out)@ + flags_text("#llvm.overflow<"@, overflow_names(nsw, nuw)),
{
    let mut flags: Vec<&str> = Vec::new();
    if nsw {
        flags.push("nsw");
    }
    if nuw {
        flags.push("nuw");
    }
    assert(strs_view(flags@) =~= overflow_names(nsw, nuw));
    push_flags("#llvm.overflow<", &flags, out);
}

/// Whether the fast-math flag `mask` is in `bits`.
pub open spec fn has_flag(bits: u8, mask: u8) -> bool {
    bits & mask == mask
}

/// The names of the set fast-math flags, in MLIR's order.
pub open spec fn fastmath_names(bits: u8) -> Seq<Seq<char>> {
    flag_if(has_flag(bits, 1), "nnan"@) + flag_if(has_flag(bits, 2), "ninf"@) + flag_if(
        has_flag(bits, 4),
        "nsz"@,
    ) + flag_if(has_flag(bits, 8), "arcp"@) + flag_if(has_flag(bits, 16), "contract"@) + flag_if(
        has_flag(bits, 32),
        "afn"@,
    ) + flag_if(has_flag(bits, 64), "reassoc"@)
}

/// Appends `name` to `flags` if `mask` is set in `bits`.
fn push_flag_if<'a>(flags: &mut Vec<&'a str>, bits: u8, mask: u8, name: &'a str)
    ensures
        strs_view(final(flags)@) == strs_view(old(flags)@) + flag_if(has_flag(bits, mask), name@),
{
    if bits & mask == mask {
        flags.push(name);
    }
    assert(strs_view(flags@) =~= strs_view(old(flags)@) + flag_if(has_flag(bits, mask), name@));
}

/// `#llvm.fastmath<none>` or `#llvm.fastmath<nnan, ninf, ...>`.
pub fn fastmath_flags_to_mlir(bits: u8, out: &mut String)
    ensures
        final(out)@ == old(out)@ + flags_text("#llvm.fastmath<"@, fastmath_names(bits)),
{
    // MLIR's flag order, which is also the order it prints them in.
    let mut flags: Vec<&str> = Vec::new();
    assert(strs_view(flags@) =~= seq![]);
    push_flag_if(&mut flags, bits, 1, "nnan");
    push_flag_if(&mut flags, bits, 2, "ninf");
    push_flag_if(&mut flags, bits, 4, "nsz");
    push_flag_if(&mut flags, bits, 8, "arcp");
    push_flag_if(&mut flags, bits, 16, "contract");
    push_flag_if(&mut flags, bits, 32, "afn");
    push_flag_if(&mut flags, bits, 64, "reassoc");
    assert(strs_view(flags@) =~= fastmath_names(bits));
    push_flags("#llvm.fastmath<", &flags, out);
}

/// The raw bits `c` of a GEP constant index, read as a signed `i32`.
pub open spec fn as_i32(c: u32) -> int {
    if c >= 0x8000_0000 {
        c - 0x1_0000_0000
    } else {
        c as int
    }
}

/// The error for a GEP constant index that MLIR would read as the marker of
/// a dynamic index.
pub open spec fn gep_collision_message() -> Seq<char> {
    "llvm.gep constant index "@ + int_decimal(GEP_DYNAMIC_INDEX as int)
        + " is indistinguishable from MLIR's marker for a dynamic index"@
}

/// The error for a GEP dynamic index naming operand `idx` where MLIR expects
/// operand `expected`.
pub open spec fn gep_order_message(idx: nat, expected: nat) -> Seq<char> {
    "llvm.gep dynamic index refers to operand "@ + nat_decimal(idx)
        + ", but MLIR consumes dynamic indices in operand order (expected operand "@ + nat_decimal(
        expected,
    ) + ")"@
}

/// `v` in front of the list of `r`, if `r` is one.
pub open spec fn prepend(v: int, r: Result<Seq<int>, ErrorView>) -> Result<Seq<int>, ErrorView> {
    match r {
        Ok(s) => Ok(seq![v] + s),
        Err(e) => Err(e),
    }
}

/// MLIR's `rawConstantIndices` for `indices[i..]`, when the next dynamic
/// index must name operand `next`.
pub open spec fn gep_raw_from(indices: Seq<GepIndexAttr>, i: int, next: int) -> Result<
    Seq<int>,
    ErrorView,
>
    decreases indices.len() - i,
{
    if i < 0 || i >= indices.len() {
        Ok(seq![])
    } else {
        match indices[i] {
            GepIndexAttr::Constant(c) => if as_i32(c) == GEP_DYNAMIC_INDEX {
                Err(ErrorView::Untranslatable(gep_collision_message()))
            } else {
                prepend(as_i32(c), gep_raw_from(indices, i + 1, next))
            },
            GepIndexAttr::OperandIdx(idx) => if idx != next {
                Err(ErrorView::Untranslatable(gep_order_message(idx as nat, next as nat)))
            } else {
                prepend(GEP_DYNAMIC_INDEX as int, gep_raw_from(indices, i + 1, next + 1))
            },
        }
    }
}

/// MLIR's `rawConstantIndices` for `indices`: dynamic indices name the
/// operands from 1 on, in order.
pub open spec fn gep_raw(indices: Seq<GepIndexAttr>) -> Result<Seq<int>, ErrorView> {
    gep_raw_from(indices, 0, 1)
}

/// The text of a GEP indices attribute.
pub open spec fn gep_indices_text(indices: Seq<GepIndexAttr>) -> Text {
    match gep_raw(indices) {
        Ok(raw) => Ok(dense_array_text("i32"@, raw)),
        Err(e) => fail(e),
    }
}

/// MLIR's `rawConstantIndices` for `indices`.
///
/// pliron's method of representing dynamic indices differs from that of MLIR's.
/// This function only works when pliron's dynamic indices refer to operands in
/// an ascending order (which will happen if pliron's construction APIs are used).
pub fn gep_raw_constant_indices(indices: &Vec<GepIndexAttr>) -> (res: Result<String, Error>)
    ensures
        match gep_indices_text(indices@) {
            Ok(t) => res matches Ok(s) && s@ == t,
            Err(f) => res matches Err(x) && x@ == f.1,
        },
{
    // The number of dynamic indices so far: the next one must name operand
    // `seen + 1`.
    let mut seen: usize = 0;
    let mut raw: Vec<i64> = Vec::new();
    let mut i: usize = 0;
    assert(ints(raw@) + seq![] =~= seq![]);
    while i < indices.len()
        invariant
            i <= indices@.len(),
            seen <= i,
            gep_raw(indices@) == prepend_all(ints(raw@), gep_raw_from(indices@, i as int, seen + 1)),
        decreases indices.len() - i,
    {
        proof {
            lemma_prepend_all_push(ints(raw@), indices@, i as int, seen + 1);
        }
        let ghost prev = ints(raw@);
        match indices[i] {
            GepIndexAttr::Constant(c) => {
                // pliron stores a GEP constant index as the raw bits of LLVM's
                // (signed) i32 index, so reinterpret rather than widen.
                let c: i64 = if c >= 0x8000_0000 {
                    c as i64 - 0x1_0000_0000
                } else {
                    c as i64
                };
                if c == GEP_DYNAMIC_INDEX {
                    let mut message = String::from_str("llvm.gep constant index ");
                    push_decimal_i64(&mut message, c);
                    message.append(" is indistinguishable from MLIR's marker for a dynamic index");
                    return Err(Error::Untranslatable(message));
                }
                raw.push(c);
                assert(ints(raw@) =~= prev.push(c as int));
            },
            GepIndexAttr::OperandIdx(idx) => {
                let next_operand = seen + 1;
                if idx != next_operand {
                    let mut message = String::from_str("llvm.gep dynamic index refers to operand ");
                    push_decimal_u64(&mut message, idx as u64);
                    message.append(
                        ", but MLIR consumes dynamic indices in operand order (expected operand ",
                    );
                    push_decimal_u64(&mut message, next_operand as u64);
                    message.append(")");
                    return Err(Error::Untranslatable(message));
                }
                seen += 1;
                raw.push(GEP_DYNAMIC_INDEX);
                assert(ints(raw@) =~= prev.push(GEP_DYNAMIC_INDEX as int));
            },
        }
        i += 1;
    }
    assert(gep_raw_from(indices@, i as int, seen + 1) == Ok::<Seq<int>, ErrorView>(seq![]));
    assert(ints(raw@) + seq![] =~= ints(raw@));
    Ok(mlir_dense_array("i32", raw.as_slice()))
}

/// The list `done` in front of the list of `r`, if `r` is one.
pub open spec fn prepend_all(done: Seq<int>, r: Result<Seq<int>, ErrorView>) -> Result<
    Seq<int>,
    ErrorView,
> {
    match r {
        Ok(s) => Ok(done + s),
        Err(e) => Err(e),
    }
}

/// One step of [gep_raw_from] moves its first element to the done list.
proof fn lemma_prepend_all_push(done: Seq<int>, indices: Seq<GepIndexAttr>, i: int, next: int)
    requires
        0 <= i < indices.len(),
    ensures
        indices[i] matches GepIndexAttr::Constant(c) ==> (as_i32(c) != GEP_DYNAMIC_INDEX
            ==> prepend_all(done, gep_raw_from(indices, i, next)) == prepend_all(
            done.push(as_i32(c)),
            gep_raw_from(indices, i + 1, next),
        )),
        indices[i] matches GepIndexAttr::OperandIdx(idx) ==> (idx == next ==> prepend_all(
            done,
            gep_raw_from(indices, i, next),
        ) == prepend_all(done.push(GEP_DYNAMIC_INDEX as int), gep_raw_from(indices, i + 1, next + 1))),
{
    match gep_raw_from(indices, i + 1, next) {
        Ok(s) => {
            if let GepIndexAttr::Constant(c) = indices[i] {
                assert(done + (seq![as_i32(c)] + s) =~= done.push(as_i32(c)) + s);
            }
        },
        Err(_) => {},
    }
    match gep_raw_from(indices, i + 1, next + 1) {
        Ok(s) => {
            assert(done + (seq![GEP_DYNAMIC_INDEX as int] + s) =~= done.push(GEP_DYNAMIC_INDEX as int) + s);
        },
        Err(_) => {},
    }
}

/// `array<i32: ...>`, matching MLIR's `rawConstantIndices` property on
/// `llvm.getelementptr`.
pub fn gep_indices_attr_to_mlir(indices: &Vec<GepIndexAttr>, out: &mut String) -> (r: Result<(), Error>)
    ensures
        crate::emitted(old(out)@, final(out)@, r, gep_indices_text(indices@)),
{
    match gep_raw_constant_indices(indices) {
        Ok(text) => {
            out.append(text.as_str());
            Ok(())
        },
        Err(e) => Err(e),
    }
}

/// The decimal texts of the case values, all read with `signed`.
pub open spec fn case_value_texts(values: Seq<IntegerAttr>, signed: bool) -> Seq<Seq<char>> {
    values.map_values(|v: IntegerAttr| apint_text(v.value, signed))
}

/// `dense<[...]> : vector<Nxi32>`, with the element type (and signedness) of
/// the first value, or the error for an empty list.
pub open spec fn case_values_text(values: Seq<IntegerAttr>) -> Text {
    if values.len() == 0 {
        fail(
            ErrorView::Untranslatable(
                "an empty llvm.switch case value list has no MLIR element type"@,
            ),
        )
    } else {
        let first = values[0];
        let signed = first.ty.signedness == Signedness::Signed;
        Ok(
            "dense<["@ + join_comma(case_value_texts(values, signed)) + "]> : vector<"@
                + nat_decimal(values.len()) + "x"@ + integer_type_text(
                first.ty.width,
                first.ty.signedness,
            ) + ">"@,
        )
    }
}

/// `dense<[...]> : vector<Nxi32>`, matching MLIR's `case_values` property on
/// `llvm.switch`.
pub fn case_values_attr_to_mlir(values: &Vec<IntegerAttr>, out: &mut String) -> (r: Result<(), Error>)
    ensures
        crate::emitted(old(out)@, final(out)@, r, case_values_text(values@)),
{
    if values.len() == 0 {
        return Err(
            Error::Untranslatable(
                String::from_str("an empty llvm.switch case value list has no MLIR element type"),
            ),
        );
    }
    let first = &values[0];
    let signed = match first.ty.signedness {
        Signedness::Signed => true,
        _ => false,
    };
    let ghost texts = case_value_texts(values@, signed);
    out.append("dense<[");
    let ghost start = out@;
    let mut i: usize = 0;
    while i < values.len()
        invariant
            i <= values@.len(),
            out@ == start + join_comma(texts.take(i as int)),
            texts == case_value_texts(values@, signed),
        decreases values.len() - i,
    {
        if i > 0 {
            out.append(", ");
        }
        push_apint(&values[i].value, signed, out);
        proof {
            let next = texts.take(i + 1);
            assert(next.drop_last() =~= texts.take(i as int));
            if i == 0 {
                assert(next.len() == 1);
            }
        }
        i += 1;
    }
    assert(texts.take(i as int) =~= texts);
    out.append("]> : vector<");
    push_decimal_u64(out, values.len() as u64);
    out.append("x");
    integer_type_to_mlir(first.ty.width, first.ty.signedness, out);
    out.append(">");
    assert(out@ =~= old(out)@ + case_values_text(values@)->Ok_0);
    Ok(())
}

} // verus!
