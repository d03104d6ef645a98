//! IR -> textual MLIR printers.

use vstd::prelude::*;

use vstd::string::StringSliceAdditionalSpecFns;

use crate::builtin;
use crate::ir::{
    Attr, Block, Context, DictValue, GepIndexAttr, IntegerAttr, OpKind, Operation, Region, StructBody, Ty,
    Value,
};
use crate::llvm;
use crate::text::{
    digit, digit_char, hex_padded, int_decimal, nat_decimal, push_char, push_decimal_i64,
    push_decimal_u64, push_hex_padded, repeat_char,
};
use crate::{cat, emitted, fail, lemma_emitted_after, Error, ErrorView, Text};

verus! {

// ---------------------------------------------------------------------------
// Literals
// ---------------------------------------------------------------------------

/// How MLIR's string literal spells the byte `b`: `\"`, `\\`, `\n` and `\t`
/// for the four escapes, the byte itself when it is printable ASCII, and `\`
/// followed by two upper-case hex digits otherwise.
pub open spec fn escaped_byte(b: u8) -> Seq<char> {
    if b == 0x22 {
        seq!['\\', '"']
    } else if b == 0x5C {
        seq!['\\', '\\']
    } else if b == 0x0A {
        seq!['\\', 'n']
    } else if b == 0x09 {
        seq!['\\', 't']
    } else if 0x20 <= b <= 0x7E {
        seq![b as char]
    } else {
        seq!['\\', digit_char((b / 16) as nat), digit_char((b % 16) as nat)]
    }
}

/// [escaped_byte] of each of `bytes`, in order.
pub open spec fn escaped_bytes(bytes: Seq<u8>) -> Seq<char>
    decreases bytes.len(),
{
    if bytes.len() == 0 {
        seq![]
    } else {
        escaped_bytes(bytes.drop_last()) + escaped_byte(bytes.last())
    }
}

/// The MLIR string literal of the UTF-8 encoded `bytes`, quotes included.
pub open spec fn string_literal_text(bytes: Seq<u8>) -> Seq<char> {
    seq!['"'] + escaped_bytes(bytes) + seq!['"']
}

/// Appends [escaped_byte] of `b` to `out`.
fn push_escaped_byte(out: &mut String, b: u8)
    ensures
        final(out)@ == old(out)@ + escaped_byte(b),
{
    if b == 0x22 {
        push_char(out, '\\');
        push_char(out, '"');
    } else if b == 0x5C {
        push_char(out, '\\');
        push_char(out, '\\');
    } else if b == 0x0A {
        push_char(out, '\\');
        push_char(out, 'n');
    } else if b == 0x09 {
        push_char(out, '\\');
        push_char(out, 't');
    } else if 0x20 <= b && b <= 0x7E {
        push_char(out, b as char);
    } else {
        push_char(out, '\\');
        push_char(out, digit(b / 16));
        push_char(out, digit(b % 16));
    }
    assert(out@ =~= old(out)@ + escaped_byte(b));
}

/// Format `s` as an MLIR string literal, including the surrounding quotes.
///
/// MLIR's lexer accepts `\"`, `\\`, `\n`, `\t` and `\xx` (two hex digits) as
/// escapes; everything outside printable ASCII goes out as `\xx` bytes.
pub fn mlir_string_literal(s: &str) -> (res: String)
    ensures
        res@ == string_literal_text(s.spec_bytes()),
{
    let bytes = s.as_bytes();
    let mut out = String::new();
    push_char(&mut out, '"');
    let mut i: usize = 0;
    while i < bytes.len()
        invariant
            i <= bytes@.len(),
            bytes@ == s.spec_bytes(),
            out@ == seq!['"'] + escaped_bytes(bytes@.take(i as int)),
        decreases bytes.len() - i,
    {
        push_escaped_byte(&mut out, bytes[i]);
        assert(bytes@.take(i + 1).drop_last() =~= bytes@.take(i as int));
        i += 1;
    }
    assert(bytes@.take(i as int) =~= bytes@);
    push_char(&mut out, '"');
    out
}

/// The MLIR hexadecimal float literal of `bits` for a float of `bit_width`
/// bits: `0x`, then the upper-case hex digits padded to `bit_width / 4`.
pub open spec fn hex_float_text(bits: nat, bit_width: nat) -> Seq<char> {
    seq!['0', 'x'] + hex_padded(bits, bit_width / 4)
}

/// Format an IEEE float of `bit_width` bits, given as its `bits` encoding, as
/// an MLIR hexadecimal float literal (e.g. `0x7FC00000`).
pub fn mlir_hex_float(bits: u128, bit_width: usize) -> (res: String)
    ensures
        res@ == hex_float_text(bits as nat, bit_width as nat),
{
    let mut out = String::new();
    push_char(&mut out, '0');
    push_char(&mut out, 'x');
    push_hex_padded(&mut out, bits, bit_width / 4);
    assert(out@ =~= hex_float_text(bits as nat, bit_width as nat));
    out
}

/// The decimal numerals of `elems`, separated by `, `.
pub open spec fn int_list(elems: Seq<int>) -> Seq<char>
    decreases elems.len(),
{
    if elems.len() == 0 {
        seq![]
    } else if elems.len() == 1 {
        int_decimal(elems[0])
    } else {
        int_list(elems.drop_last()) + ", "@ + int_decimal(elems.last())
    }
}

/// The MLIR dense array attribute of `elems` with element type `elem_type`:
/// `array<T>` when empty, else `array<T: e0, e1, ...>`.
pub open spec fn dense_array_text(elem_type: Seq<char>, elems: Seq<int>) -> Seq<char> {
    if elems.len() == 0 {
        "array<"@ + elem_type + ">"@
    } else {
        "array<"@ + elem_type + ": "@ + int_list(elems) + ">"@
    }
}

/// `elems` as mathematical integers.
pub open spec fn ints(elems: Seq<i64>) -> Seq<int> {
    elems.map_values(|e: i64| e as int)
}

/// Format `elems` as an MLIR dense array attribute, e.g. `array<i32: 1, 2, 3>`.
pub fn mlir_dense_array(elem_type: &str, elems: &[i64]) -> (res: String)
    ensures
        res@ == dense_array_text(elem_type@, ints(elems@)),
{
    let mut out = String::new();
    out.append("array<");
    out.append(elem_type);
    if elems.len() == 0 {
        out.append(">");
        return out;
    }
    out.append(": ");
    let ghost start = out@;
    let mut i: usize = 0;
    while i < elems.len()
        invariant
            i <= elems@.len(),
            out@ == start + int_list(ints(elems@.take(i as int))),
        decreases elems.len() - i,
    {
        if i > 0 {
            out.append(", ");
        }
        push_decimal_i64(&mut out, elems[i]);
        proof {
            let next = ints(elems@.take(i + 1));
            assert(next.drop_last() =~= ints(elems@.take(i as int)));
            assert(next.last() == elems@[i as int] as int);
            if i == 0 {
                assert(next.len() == 1);
            }
        }
        i += 1;
    }
    assert(elems@.take(i as int) =~= elems@);
    out.append(">");
    out
}

// ---------------------------------------------------------------------------
// Types
// ---------------------------------------------------------------------------

/// The texts of a list of strings.
pub open spec fn names_view(v: Seq<String>) -> Seq<Seq<char>> {
    v.map_values(|s: String| s@)
}

/// The index of the first struct body named `name`, if there is one.
pub open spec fn find_struct(structs: Seq<StructBody>, name: Seq<char>) -> Option<int>
    decreases structs.len(),
{
    if structs.len() == 0 {
        None
    } else {
        match find_struct(structs.drop_last(), name) {
            Some(i) => Some(i),
            None => if structs.last().name@ == name {
                Some(structs.len() - 1)
            } else {
                None
            },
        }
    }
}

/// How many of the struct bodies are not named in `stack`: what bounds the
/// nesting of named structs that a type printer can still enter.
pub open spec fn unvisited(structs: Seq<StructBody>, stack: Seq<Seq<char>>) -> nat
    decreases structs.len(),
{
    if structs.len() == 0 {
        0
    } else {
        unvisited(structs.drop_last(), stack) + if stack.contains(structs.last().name@) {
            0nat
        } else {
            1nat
        }
    }
}

/// A found body's index is in range and the body has that name.
pub proof fn lemma_find_struct(structs: Seq<StructBody>, name: Seq<char>)
    ensures
        find_struct(structs, name) matches Some(i) ==> 0 <= i < structs.len()
            && structs[i].name@ == name,
    decreases structs.len(),
{
    if structs.len() > 0 {
        lemma_find_struct(structs.drop_last(), name);
    }
}

/// Entering a struct with a body, whose name is not yet on the stack,
/// leaves fewer struct bodies unvisited.
pub proof fn lemma_unvisited_push(structs: Seq<StructBody>, stack: Seq<Seq<char>>, name: Seq<char>)
    ensures
        unvisited(structs, stack.push(name)) <= unvisited(structs, stack),
        find_struct(structs, name) is Some && !stack.contains(name) ==> unvisited(
            structs,
            stack.push(name),
        ) < unvisited(structs, stack),
    decreases structs.len(),
{
    if structs.len() > 0 {
        lemma_unvisited_push(structs.drop_last(), stack, name);
        let last = structs.last().name@;
        if stack.contains(last) {
            let k = choose|k: int| 0 <= k < stack.len() && stack[k] == last;
            assert(stack.push(name)[k] == last);
        }
        if last == name {
            assert(stack.push(name)[stack.len() as int] == name);
        }
        if stack.push(name).contains(last) && last != name {
            let k = choose|k: int| 0 <= k < stack.push(name).len() && stack.push(name)[k] == last;
            assert(stack[k] == last);
        }
    }
}

/// The text of `ty` while the named structs of `stack` are being printed;
/// a named struct on the stack is printed as a reference to itself.
pub open spec fn type_text(ctx: Context, ty: Ty, stack: Seq<Seq<char>>) -> Text
    decreases unvisited(ctx.structs@, stack), ty, 0nat,
{
    match ty {
        Ty::Integer { width, signedness } => Ok(builtin::types::integer_type_text(width, signedness)),
        Ty::Function { args, results } => cat(
            Ok("("@),
            cat(
                types_from(ctx, args@, stack, 0),
                cat(Ok(") -> ("@), cat(types_from(ctx, results@, stack, 0), Ok(")"@))),
            ),
        ),
        Ty::FP16 => Ok("f16"@),
        Ty::FP32 => Ok("f32"@),
        Ty::FP64 => Ok("f64"@),
        Ty::Pointer { address_space } => Ok(llvm::types::pointer_type_text(address_space)),
        Ty::Array { size, elem } => cat(
            Ok("!llvm.array<"@ + nat_decimal(size as nat) + " x "@),
            cat(type_text(ctx, *elem, stack), Ok(">"@)),
        ),
        Ty::Void => Ok("!llvm.void"@),
        Ty::Func { result, args, var_arg } => cat(
            Ok("!llvm.func<"@),
            cat(
                type_text(ctx, *result, stack),
                cat(
                    Ok(" ("@),
                    cat(
                        types_from(ctx, args@, stack, 0),
                        Ok(llvm::types::var_arg_text(args.len() == 0, var_arg) + ")>"@),
                    ),
                ),
            ),
        ),
        Ty::Vector { kind, num_elements, elem } => cat(
            Ok(llvm::types::vector_prefix_text(kind, num_elements)),
            cat(type_text(ctx, *elem, stack), Ok(">"@)),
        ),
        Ty::UnnamedStruct { fields, layout } => cat(
            Ok("!llvm.struct<"@ + llvm::types::layout_text(layout) + "("@),
            cat(types_from(ctx, fields@, stack, 0), Ok(")>"@)),
        ),
        Ty::NamedStruct { name } => {
            if stack.contains(name@) {
                Ok("!llvm.struct<"@ + "\""@ + name@ + "\">"@)
            } else {
                match find_struct(ctx.structs@, name@) {
                    None => Ok("!llvm.struct<"@ + "\""@ + name@ + "\""@ + ", opaque>"@),
                    Some(i) => {
                        proof {
                            lemma_unvisited_push(ctx.structs@, stack, name@);
                            lemma_find_struct(ctx.structs@, name@);
                        }
                        let body = ctx.structs@[i];
                        cat(
                            Ok(
                                "!llvm.struct<"@ + "\""@ + name@ + "\""@ + ", "@
                                    + llvm::types::layout_text(body.layout) + "("@,
                            ),
                            cat(
                                types_from(ctx, body.fields@, stack.push(name@), 0),
                                Ok(")"@ + ">"@),
                            ),
                        )
                    },
                }
            }
        },
        Ty::Custom { text } => Ok(text@),
        Ty::Other { type_id } => fail(ErrorView::MissingTypeTranslation(type_id@)),
    }
}

/// The texts of `tys[i..]`, each preceded by `, ` but for `tys[0]`.
pub open spec fn types_from(ctx: Context, tys: Seq<Ty>, stack: Seq<Seq<char>>, i: int) -> Text
    decreases unvisited(ctx.structs@, stack), tys, (tys.len() - i) as nat,
{
    if i < 0 || i >= tys.len() {
        Ok(seq![])
    } else {
        cat(
            Ok(if i > 0 { ", "@ } else { seq![] }),
            cat(type_text(ctx, tys[i], stack), types_from(ctx, tys, stack, i + 1)),
        )
    }
}

/// The comma separated texts of `tys`.
pub open spec fn type_list_text(ctx: Context, tys: Seq<Ty>) -> Text {
    types_from(ctx, tys, seq![], 0)
}

/// `s` followed by the text of `b` is the text of `a` followed by `b`'s,
/// when `a` is `s`.
pub proof fn lemma_cat_assoc(s: Seq<char>, a: Text, b: Text)
    ensures
        cat(Ok(s), cat(a, b)) == cat(cat(Ok(s), a), b),
{
    match a {
        Ok(x) => match b {
            Ok(y) => {
                assert(s + (x + y) =~= (s + x) + y);
            },
            Err((p, _)) => {
                assert(s + (x + p) =~= (s + x) + p);
            },
        },
        Err(_) => {},
    }
}

/// Dispatch to `ty`'s translation.
///
/// Fails if `ty` has no MLIR translation.
pub fn print_type(ctx: &Context, ty: &Ty, out: &mut String) -> (r: Result<(), Error>)
    ensures
        emitted(old(out)@, final(out)@, r, type_text(*ctx, *ty, seq![])),
{
    let mut stack: Vec<String> = Vec::new();
    assert(names_view(stack@) =~= seq![]);
    print_type_in(ctx, ty, &mut stack, out)
}

/// [print_type], while the named structs of `stack` are being printed.
pub fn print_type_in(ctx: &Context, ty: &Ty, stack: &mut Vec<String>, out: &mut String) -> (r:
    Result<(), Error>)
    ensures
        emitted(old(out)@, final(out)@, r, type_text(*ctx, *ty, names_view(old(stack)@))),
        r is Ok ==> final(stack)@ == old(stack)@,
    decreases unvisited(ctx.structs@, names_view(old(stack)@)), *ty, 2nat,
{
    match ty {
        Ty::Integer { width, signedness } => {
            builtin::types::integer_type_to_mlir(*width, *signedness, out);
            Ok(())
        },
        Ty::Function { .. } => builtin::types::function_type_to_mlir(ctx, ty, stack, out),
        Ty::FP16 => {
            out.append("f16");
            Ok(())
        },
        Ty::FP32 => {
            out.append("f32");
            Ok(())
        },
        Ty::FP64 => {
            out.append("f64");
            Ok(())
        },
        Ty::Pointer { address_space } => {
            llvm::types::pointer_type_to_mlir(*address_space, out);
            Ok(())
        },
        Ty::Array { .. } => llvm::types::array_type_to_mlir(ctx, ty, stack, out),
        Ty::Void => {
            out.append("!llvm.void");
            Ok(())
        },
        Ty::Func { .. } => llvm::types::func_type_to_mlir(ctx, ty, stack, out),
        Ty::Vector { .. } => llvm::types::vector_type_to_mlir(ctx, ty, stack, out),
        Ty::UnnamedStruct { .. } => llvm::types::struct_type_to_mlir(ctx, ty, stack, out),
        Ty::NamedStruct { .. } => llvm::types::struct_type_to_mlir(ctx, ty, stack, out),
        Ty::Custom { text } => {
            out.append(text.as_str());
            Ok(())
        },
        Ty::Other { type_id } => Err(Error::MissingTypeTranslation(type_id.clone())),
    }
}

/// Print `tys` as a comma separated list.
pub fn print_type_list(ctx: &Context, tys: &Vec<Ty>, out: &mut String) -> (r: Result<(), Error>)
    ensures
        emitted(old(out)@, final(out)@, r, type_list_text(*ctx, tys@)),
{
    let mut stack: Vec<String> = Vec::new();
    assert(names_view(stack@) =~= seq![]);
    print_type_list_in(ctx, tys, &mut stack, out)
}

/// [print_type_list], while the named structs of `stack` are being printed.
pub fn print_type_list_in(ctx: &Context, tys: &Vec<Ty>, stack: &mut Vec<String>, out: &mut String) -> (r:
    Result<(), Error>)
    ensures
        emitted(old(out)@, final(out)@, r, types_from(*ctx, tys@, names_view(old(stack)@), 0)),
        r is Ok ==> final(stack)@ == old(stack)@,
    decreases unvisited(ctx.structs@, names_view(old(stack)@)), tys@, tys@.len() + 1,
{
    let ghost st = names_view(stack@);
    let ghost start = out@;
    let ghost mut done: Seq<char> = seq![];
    let mut i: usize = 0;
    while i < tys.len()
        invariant
            i <= tys@.len(),
            names_view(stack@) == st,
            stack@ == old(stack)@,
            st == names_view(old(stack)@),
            old(out)@ == start,
            out@ == start + done,
            types_from(*ctx, tys@, st, 0) == cat(Ok(done), types_from(*ctx, tys@, st, i as int)),
        decreases tys.len() - i,
    {
        let ghost before = out@;
        if i > 0 {
            out.append(", ");
        }
        let ghost sep: Seq<char> = if i > 0 { ", "@ } else { seq![] };
        assert(out@ =~= before + sep);
        assert(out@ =~= start + (done + sep));
        let r = print_type_in(ctx, &tys[i], stack, out);
        let ghost t = type_text(*ctx, tys@[i as int], st);
        let ghost rest = types_from(*ctx, tys@, st, i + 1);
        proof {
            lemma_cat_assoc(done, Ok(sep), cat(t, rest));
            lemma_cat_assoc(done + sep, t, rest);
        }
        if r.is_err() {
            proof {
                lemma_emitted_after(start, done + sep, out@, r, t);
            }
            return r;
        }
        proof {
            let x = t->Ok_0;
            assert(out@ =~= start + (done + sep + x));
            done = done + sep + x;
        }
        i += 1;
    }
    assert(types_from(*ctx, tys@, st, i as int) == Ok::<Seq<char>, (Seq<char>, ErrorView)>(seq![]));
    assert(done + seq![] =~= done);
    Ok(())
}

// ---------------------------------------------------------------------------
// Attributes
// ---------------------------------------------------------------------------

/// The text of the attribute `a`.
pub open spec fn attr_text(ctx: Context, a: Attr) -> Text
    decreases a, 0nat,
{
    match a {
        Attr::Identifier(name) => Ok("@"@ + name@),
        Attr::Str(s) => Ok(string_literal_text(vstd::utf8::encode_utf8(s@))),
        Attr::Bytes(bytes) => Ok(dense_array_text("i8"@, builtin::attributes::i8_values(bytes@))),
        Attr::Bool(b) => Ok(builtin::attributes::bool_text(b)),
        Attr::Integer(i) => Ok(builtin::attributes::integer_attr_text(i)),
        Attr::FPHalf(bits) => Ok(hex_float_text(bits as nat, 16) + " : f16"@),
        Attr::FPSingle(bits) => Ok(hex_float_text(bits as nat, 32) + " : f32"@),
        Attr::FPDouble(bits) => Ok(hex_float_text(bits as nat, 64) + " : f64"@),
        Attr::Dict(entries) => cat(Ok("{"@), cat(dict_entries_from(ctx, entries@, 0), Ok("}"@))),
        Attr::Vec(attrs) => cat(Ok("["@), cat(attrs_from(ctx, attrs@, 0), Ok("]"@))),
        Attr::Unit => Ok("unit"@),
        Attr::Type(ty) => type_text(ctx, ty, seq![]),
        Attr::OperandSegmentSizes(sizes) => Ok(
            dense_array_text("i32"@, builtin::attributes::u32_values(sizes@)),
        ),
        Attr::Linkage(l) => llvm::attributes::linkage_text(l),
        Attr::ICmpPredicate(p) => Ok(
            llvm::attributes::enum_value_text(llvm::attributes::int_predicate_value(p)),
        ),
        Attr::FCmpPredicate(p) => Ok(
            llvm::attributes::enum_value_text(llvm::attributes::float_predicate_value(p)),
        ),
        Attr::AtomicOrdering(o) => Ok(
            llvm::attributes::enum_value_text(llvm::attributes::ordering_value(o)),
        ),
        Attr::AtomicRmwKind(k) => Ok(
            llvm::attributes::enum_value_text(llvm::attributes::rmw_kind_value(k)),
        ),
        Attr::IntegerOverflowFlags { nsw, nuw } => Ok(
            llvm::attributes::flags_text(
                "#llvm.overflow<"@,
                llvm::attributes::overflow_names(nsw, nuw),
            ),
        ),
        Attr::FastmathFlags(f) => Ok(
            llvm::attributes::flags_text(
                "#llvm.fastmath<"@,
                llvm::attributes::fastmath_names(f.bits),
            ),
        ),
        Attr::Alignment(n) => Ok(nat_decimal(n as nat) + " : i64"@),
        Attr::AddressSpace(n) => Ok(nat_decimal(n as nat) + " : i32"@),
        Attr::Zero(_) => Ok("#llvm.zero"@),
        Attr::Undef(_) => Ok("#llvm.undef"@),
        Attr::Poison(_) => Ok("#llvm.poison"@),
        Attr::InsertExtractValueIndices(v) => Ok(
            dense_array_text("i64"@, builtin::attributes::u32_values(v@)),
        ),
        Attr::ShuffleVectorMask(v) => Ok(dense_array_text("i32"@, i32_values(v@))),
        Attr::GepIndices(indices) => llvm::attributes::gep_indices_text(indices@),
        Attr::CaseValues(values) => llvm::attributes::case_values_text(values@),
        Attr::Custom { text } => Ok(text@),
        Attr::Other { attr_id } => fail(ErrorView::MissingAttrTranslation(attr_id@)),
    }
}

/// `i32`s as mathematical integers.
pub open spec fn i32_values(v: Seq<i32>) -> Seq<int> {
    v.map_values(|x: i32| x as int)
}

/// The texts of `attrs[i..]`, each preceded by `, ` but for `attrs[0]`.
pub open spec fn attrs_from(ctx: Context, attrs: Seq<Attr>, i: int) -> Text
    decreases attrs, (attrs.len() - i) as nat,
{
    if i < 0 || i >= attrs.len() {
        Ok(seq![])
    } else {
        cat(
            Ok(if i > 0 { ", "@ } else { seq![] }),
            cat(attr_text(ctx, attrs[i]), attrs_from(ctx, attrs, i + 1)),
        )
    }
}

/// The `key = value` texts of `entries[i..]`, each preceded by `, ` but for
/// `entries[0]`.
pub open spec fn dict_entries_from(ctx: Context, entries: Seq<(String, Attr)>, i: int) -> Text
    decreases entries, (entries.len() - i) as nat,
{
    if i < 0 || i >= entries.len() {
        Ok(seq![])
    } else {
        cat(
            Ok((if i > 0 { ", "@ } else { seq![] }) + entries[i].0@ + " = "@),
            cat(attr_text(ctx, entries[i].1), dict_entries_from(ctx, entries, i + 1)),
        )
    }
}

/// `v` widened to `i64`.
fn widen_i32s(v: &Vec<i32>) -> (res: Vec<i64>)
    ensures
        ints(res@) == i32_values(v@),
{
    let mut res: Vec<i64> = Vec::new();
    let mut i: usize = 0;
    while i < v.len()
        invariant
            i <= v@.len(),
            res@.len() == i,
            forall|j: int| 0 <= j < i ==> res@[j] as int == v@[j] as int,
        decreases v.len() - i,
    {
        res.push(v[i] as i64);
        i += 1;
    }
    assert(ints(res@) =~= i32_values(v@));
    res
}

/// Dispatch to `attr`'s translation.
///
/// Fails if `attr` has no MLIR translation, or none for its value.
pub fn print_attr(ctx: &Context, attr: &Attr, out: &mut String) -> (r: Result<(), Error>)
    ensures
        emitted(old(out)@, final(out)@, r, attr_text(*ctx, *attr)),
    decreases *attr, 1nat,
{
    match attr {
        Attr::Identifier(name) => {
            out.append("@");
            out.append(name.as_str());
            assert(out@ =~= old(out)@ + ("@"@ + name@));
            assert(out@ =~= old(out)@ + attr_text(*ctx, *attr)->Ok_0);
            Ok(())
        },
        Attr::Str(s) => {
            let text = mlir_string_literal(s.as_str());
            out.append(text.as_str());
            assert(out@ =~= old(out)@ + attr_text(*ctx, *attr)->Ok_0);
            Ok(())
        },
        Attr::Bytes(bytes) => {
            builtin::attributes::bytes_attr_to_mlir(bytes, out);
            assert(out@ =~= old(out)@ + attr_text(*ctx, *attr)->Ok_0);
            Ok(())
        },
        Attr::Bool(b) => {
            if *b {
                out.append("true");
            } else {
                out.append("false");
            }
            assert(out@ =~= old(out)@ + attr_text(*ctx, *attr)->Ok_0);
            Ok(())
        },
        Attr::Integer(i) => {
            builtin::attributes::integer_attr_to_mlir(i, out);
            assert(out@ =~= old(out)@ + attr_text(*ctx, *attr)->Ok_0);
            Ok(())
        },
        Attr::FPHalf(bits) => {
            builtin::attributes::fp_half_attr_to_mlir(*bits, out);
            assert(out@ =~= old(out)@ + attr_text(*ctx, *attr)->Ok_0);
            Ok(())
        },
        Attr::FPSingle(bits) => {
            builtin::attributes::fp_single_attr_to_mlir(*bits, out);
            assert(out@ =~= old(out)@ + attr_text(*ctx, *attr)->Ok_0);
            Ok(())
        },
        Attr::FPDouble(bits) => {
            builtin::attributes::fp_double_attr_to_mlir(*bits, out);
            assert(out@ =~= old(out)@ + attr_text(*ctx, *attr)->Ok_0);
            Ok(())
        },
        Attr::Dict(_) => builtin::attributes::dict_attr_to_mlir(ctx, attr, out),
        Attr::Vec(_) => builtin::attributes::vec_attr_to_mlir(ctx, attr, out),
        Attr::Unit => {
            out.append("unit");
            assert(out@ =~= old(out)@ + attr_text(*ctx, *attr)->Ok_0);
            Ok(())
        },
        Attr::Type(ty) => print_type(ctx, ty, out),
        Attr::OperandSegmentSizes(sizes) => {
            builtin::attributes::push_u32_array("i32", sizes, out);
            assert(out@ =~= old(out)@ + attr_text(*ctx, *attr)->Ok_0);
            Ok(())
        },
        Attr::Linkage(l) => llvm::attributes::linkage_attr_to_mlir(*l, out),
        Attr::ICmpPredicate(p) => {
            llvm::attributes::enum_value_to_mlir(llvm::attributes::int_predicate_number(*p), out);
            assert(out@ =~= old(out)@ + attr_text(*ctx, *attr)->Ok_0);
            Ok(())
        },
        Attr::FCmpPredicate(p) => {
            llvm::attributes::enum_value_to_mlir(llvm::attributes::float_predicate_number(*p), out);
            assert(out@ =~= old(out)@ + attr_text(*ctx, *attr)->Ok_0);
            Ok(())
        },
        Attr::AtomicOrdering(o) => {
            llvm::attributes::enum_value_to_mlir(llvm::attributes::atomic_ordering_value(*o), out);
            assert(out@ =~= old(out)@ + attr_text(*ctx, *attr)->Ok_0);
            Ok(())
        },
        Attr::AtomicRmwKind(k) => {
            llvm::attributes::enum_value_to_mlir(llvm::attributes::atomic_rmw_kind_value(*k), out);
            assert(out@ =~= old(out)@ + attr_text(*ctx, *attr)->Ok_0);
            Ok(())
        },
        Attr::IntegerOverflowFlags { nsw, nuw } => {
            llvm::attributes::integer_overflow_flags_to_mlir(*nsw, *nuw, out);
            assert(out@ =~= old(out)@ + attr_text(*ctx, *attr)->Ok_0);
            Ok(())
        },
        Attr::FastmathFlags(f) => {
            llvm::attributes::fastmath_flags_to_mlir(f.bits, out);
            assert(out@ =~= old(out)@ + attr_text(*ctx, *attr)->Ok_0);
            Ok(())
        },
        Attr::Alignment(n) => {
            push_decimal_u64(out, *n as u64);
            out.append(" : i64");
            assert(out@ =~= old(out)@ + (nat_decimal(*n as nat) + " : i64"@));
            assert(out@ =~= old(out)@ + attr_text(*ctx, *attr)->Ok_0);
            Ok(())
        },
        Attr::AddressSpace(n) => {
            push_decimal_u64(out, *n as u64);
            out.append(" : i32");
            assert(out@ =~= old(out)@ + (nat_decimal(*n as nat) + " : i32"@));
            assert(out@ =~= old(out)@ + attr_text(*ctx, *attr)->Ok_0);
            Ok(())
        },
        Attr::Zero(_) => {
            out.append("#llvm.zero");
            assert(out@ =~= old(out)@ + attr_text(*ctx, *attr)->Ok_0);
            Ok(())
        },
        Attr::Undef(_) => {
            out.append("#llvm.undef");
            assert(out@ =~= old(out)@ + attr_text(*ctx, *attr)->Ok_0);
            Ok(())
        },
        Attr::Poison(_) => {
            out.append("#llvm.poison");
            assert(out@ =~= old(out)@ + attr_text(*ctx, *attr)->Ok_0);
            Ok(())
        },
        Attr::InsertExtractValueIndices(v) => {
            builtin::attributes::push_u32_array("i64", v, out);
            assert(out@ =~= old(out)@ + attr_text(*ctx, *attr)->Ok_0);
            Ok(())
        },
        Attr::ShuffleVectorMask(v) => {
            let elems = widen_i32s(v);
            let text = mlir_dense_array("i32", elems.as_slice());
            out.append(text.as_str());
            assert(out@ =~= old(out)@ + attr_text(*ctx, *attr)->Ok_0);
            Ok(())
        },
        Attr::GepIndices(indices) => llvm::attributes::gep_indices_attr_to_mlir(indices, out),
        Attr::CaseValues(values) => llvm::attributes::case_values_attr_to_mlir(values, out),
        Attr::Custom { text } => {
            out.append(text.as_str());
            Ok(())
        },
        Attr::Other { attr_id } => Err(Error::MissingAttrTranslation(attr_id.clone())),
    }
}

// ---------------------------------------------------------------------------
// Operations
// ---------------------------------------------------------------------------

/// A value in one of MLIR's operation dictionaries.
pub enum MlirAttrView {
    /// An attribute, translated by [attr_text].
    Attr(Attr),
    /// Already-formatted MLIR attribute text, printed verbatim.
    Raw(Seq<char>),
}

/// What a [GenericOp] prints of an operation, besides the operation itself.
pub struct GenericOpView {
    pub mnemonic: Seq<char>,
    /// The results to print in place of the operation's own.
    pub results: Option<Seq<Value>>,
    pub min_regions: nat,
    pub properties: Seq<(Seq<char>, MlirAttrView)>,
    pub attributes: Seq<(Seq<char>, MlirAttrView)>,
}

impl GenericOpView {
    /// Nothing but the mnemonic.
    pub open spec fn new(mnemonic: Seq<char>) -> GenericOpView {
        GenericOpView {
            mnemonic,
            results: None,
            min_regions: 0,
            properties: seq![],
            attributes: seq![],
        }
    }

    /// With `results` printed in place of the operation's own.
    pub open spec fn with_results(self, results: Seq<Value>) -> GenericOpView {
        GenericOpView { results: Some(results), ..self }
    }

    /// With at least `n` regions.
    pub open spec fn with_min_regions(self, n: nat) -> GenericOpView {
        GenericOpView { min_regions: n, ..self }
    }

    /// With the property `name = v`.
    pub open spec fn prop_value(self, name: Seq<char>, v: MlirAttrView) -> GenericOpView {
        GenericOpView { properties: self.properties.push((name, v)), ..self }
    }

    /// With the property `name = v`, if there is a `v`.
    pub open spec fn prop_value_opt(self, name: Seq<char>, v: Option<MlirAttrView>) -> GenericOpView {
        match v {
            Some(v) => self.prop_value(name, v),
            None => self,
        }
    }

    /// With the property `name = a`.
    pub open spec fn prop(self, name: Seq<char>, a: Attr) -> GenericOpView {
        GenericOpView { properties: self.properties.push((name, MlirAttrView::Attr(a))), ..self }
    }

    /// With the property `name = a`, if there is an `a`.
    pub open spec fn prop_opt(self, name: Seq<char>, a: Option<Attr>) -> GenericOpView {
        match a {
            Some(a) => self.prop(name, a),
            None => self,
        }
    }

    /// With the property `name = text`.
    pub open spec fn prop_raw(self, name: Seq<char>, text: Seq<char>) -> GenericOpView {
        GenericOpView { properties: self.properties.push((name, MlirAttrView::Raw(text))), ..self }
    }

    /// With the property `name = text`, if there is a `text`.
    pub open spec fn prop_raw_opt(self, name: Seq<char>, text: Option<Seq<char>>) -> GenericOpView {
        match text {
            Some(t) => self.prop_raw(name, t),
            None => self,
        }
    }

    /// With the discardable attribute `name = text`.
    pub open spec fn attr_raw(self, name: Seq<char>, text: Seq<char>) -> GenericOpView {
        GenericOpView { attributes: self.attributes.push((name, MlirAttrView::Raw(text))), ..self }
    }

    /// With the discardable attribute `name = v`.
    pub open spec fn attr_value(self, name: Seq<char>, v: MlirAttrView) -> GenericOpView {
        GenericOpView { attributes: self.attributes.push((name, v)), ..self }
    }

    /// With the discardable attribute `name = a`.
    pub open spec fn attr(self, name: Seq<char>, a: Attr) -> GenericOpView {
        GenericOpView { attributes: self.attributes.push((name, MlirAttrView::Attr(a))), ..self }
    }
}

/// How far the current line is indented, and how many spaces deeper each
/// nested block, and each operation in it, goes.
#[derive(Clone, Copy)]
pub struct Indentation {
    /// The number of spaces at the start of the current line.
    pub level: usize,
    /// The number of spaces one level deeper adds.
    pub width: usize,
}

/// The indentation one level deeper than `indent`, its level capped at the
/// largest `usize`.
pub open spec fn next_indent(indent: Indentation) -> Indentation {
    Indentation {
        level: if indent.level + indent.width <= usize::MAX {
            (indent.level + indent.width) as usize
        } else {
            usize::MAX
        },
        width: indent.width,
    }
}

/// A line break followed by `level` spaces.
pub open spec fn newline_text(level: nat) -> Seq<char> {
    seq!['\n'] + repeat_char(' ', level)
}

/// `, ` before every element of a list but the first.
pub open spec fn sep(i: int) -> Seq<char> {
    if i > 0 {
        ", "@
    } else {
        seq![]
    }
}

/// `%name` of each of `vals[i..]`, separated by `, `.
pub open spec fn value_names_from(vals: Seq<Value>, i: int) -> Seq<char>
    decreases vals.len() - i,
{
    if i < 0 || i >= vals.len() {
        seq![]
    } else {
        sep(i) + "%"@ + vals[i].name@ + value_names_from(vals, i + 1)
    }
}

/// The types of `vals[i..]`, separated by `, `.
pub open spec fn value_types_from(ctx: Context, vals: Seq<Value>, i: int) -> Text
    decreases vals.len() - i,
{
    if i < 0 || i >= vals.len() {
        Ok(seq![])
    } else {
        cat(Ok(sep(i)), cat(type_text(ctx, vals[i].ty, seq![]), value_types_from(ctx, vals, i + 1)))
    }
}

/// `^name` of each of `succs[i..]`, separated by `, `.
pub open spec fn successors_from(succs: Seq<String>, i: int) -> Seq<char>
    decreases succs.len() - i,
{
    if i < 0 || i >= succs.len() {
        seq![]
    } else {
        sep(i) + "^"@ + succs[i]@ + successors_from(succs, i + 1)
    }
}

/// ` [^s0, ^s1]`, or nothing when there are no successors.
pub open spec fn successors_text(succs: Seq<String>) -> Seq<char> {
    if succs.len() == 0 {
        seq![]
    } else {
        " ["@ + successors_from(succs, 0) + "]"@
    }
}

/// The text of a dictionary value.
pub open spec fn mlir_attr_text(ctx: Context, v: MlirAttrView) -> Text {
    match v {
        MlirAttrView::Attr(a) => attr_text(ctx, a),
        MlirAttrView::Raw(t) => Ok(t),
    }
}

/// `key = value` of each of `entries[i..]`, separated by `, `.
pub open spec fn dict_from(ctx: Context, entries: Seq<(Seq<char>, MlirAttrView)>, i: int) -> Text
    decreases entries.len() - i,
{
    if i < 0 || i >= entries.len() {
        Ok(seq![])
    } else {
        cat(
            Ok(sep(i) + entries[i].0 + " = "@),
            cat(mlir_attr_text(ctx, entries[i].1), dict_from(ctx, entries, i + 1)),
        )
    }
}

/// `entries` as `<open> key = value, ... <close>`, or nothing when there are
/// none.
pub open spec fn dict_text(
    ctx: Context,
    entries: Seq<(Seq<char>, MlirAttrView)>,
    open: Seq<char>,
    close: Seq<char>,
) -> Text {
    if entries.len() == 0 {
        Ok(seq![])
    } else {
        cat(Ok(open), cat(dict_from(ctx, entries, 0), Ok(close)))
    }
}

/// The empty regions `i..n` that pad an operation to `n` regions: `{}` each,
/// separated by `, ` (but for region 0).
pub open spec fn empty_regions_from(i: nat, n: nat) -> Seq<char>
    decreases n - i,
{
    if i >= n {
        seq![]
    } else {
        sep(i as int) + "{}"@ + empty_regions_from(i + 1, n)
    }
}

/// The larger of `a` and `b`.
pub open spec fn max_nat(a: nat, b: nat) -> nat {
    if a >= b {
        a
    } else {
        b
    }
}

/// The text of `op` at indentation `indent`: its translation printed by
/// [generic_text], or the reason it has none.
#[verifier::opaque]
pub open spec fn op_text(ctx: Context, op: Operation, indent: Indentation) -> Text
    decreases op, 2nat,
{
    match op_translation(op) {
        Ok(g) => generic_text(ctx, op, g, indent),
        Err(e) => fail(e),
    }
}

/// The results that `g` prints for `op`: its own, unless `g` overrides them.
pub open spec fn printed_results(op: Operation, g: GenericOpView) -> Seq<Value> {
    match g.results {
        Some(r) => r,
        None => op.results@,
    }
}

/// `%r0, %r1 = "mnemonic"(%o0, %o1) [^s0, ^s1]`: the results, the mnemonic,
/// the operands and the successors.
pub open spec fn generic_head(op: Operation, g: GenericOpView) -> Seq<char> {
    let results = printed_results(op, g);
    value_names_from(results, 0) + (if results.len() > 0 {
        " = "@
    } else {
        seq![]
    }) + "\""@ + g.mnemonic + "\"("@ + value_names_from(op.operands@, 0) + ")"@
        + successors_text(op.successors@)
}

/// ` ({...}, {...})`: the regions `rs`, padded with empty ones to at least
/// `min` regions, or nothing when that makes none.
#[verifier::opaque]
pub open spec fn op_regions_text(ctx: Context, rs: Seq<Region>, min: nat, indent: Indentation) -> Text
    decreases rs, rs.len() + 1,
{
    let n = max_nat(rs.len(), min);
    if n > 0 {
        cat(
            Ok(" ("@),
            cat(regions_from(ctx, rs, 0, indent), Ok(empty_regions_from(rs.len(), n) + ")"@)),
        )
    } else {
        Ok(seq![])
    }
}

/// ` : (t0, t1) -> (t2, t3)`: the types of the operands and of the results.
pub open spec fn signature_text(ctx: Context, operands: Seq<Value>, results: Seq<Value>) -> Text {
    cat(
        Ok(" : ("@),
        cat(
            value_types_from(ctx, operands, 0),
            cat(Ok(") -> ("@), cat(value_types_from(ctx, results, 0), Ok(")"@))),
        ),
    )
}

/// MLIR's generic operation syntax for `op`, as `g` describes it:
///
/// ```text
/// %r0, %r1 = "mnemonic"(%o0, %o1) [^s0, ^s1] <{p = val}> ({ ... }) {attr = val}
///     : (t0, t1) -> (t2, t3)
/// ```
#[verifier::opaque]
pub open spec fn generic_text(ctx: Context, op: Operation, g: GenericOpView, indent: Indentation) -> Text
    decreases op, 1nat,
{
    cat(
        Ok(generic_head(op, g)),
        cat(
            dict_text(ctx, g.properties, " <{"@, "}>"@),
            cat(
                op_regions_text(ctx, op.regions@, g.min_regions, indent),
                cat(
                    dict_text(ctx, g.attributes, " {"@, "}"@),
                    signature_text(ctx, op.operands@, printed_results(op, g)),
                ),
            ),
        ),
    )
}

/// [generic_text], one step unfolded.
pub proof fn lemma_generic_text(ctx: Context, op: Operation, g: GenericOpView, indent: Indentation)
    ensures
        generic_text(ctx, op, g, indent) == cat(
            Ok(generic_head(op, g)),
            cat(
                dict_text(ctx, g.properties, " <{"@, "}>"@),
                cat(
                    op_regions_text(ctx, op.regions@, g.min_regions, indent),
                    cat(
                        dict_text(ctx, g.attributes, " {"@, "}"@),
                        signature_text(ctx, op.operands@, printed_results(op, g)),
                    ),
                ),
            ),
        ),
{
    reveal(op_text);
    reveal(generic_text);
    reveal(op_regions_text);
    reveal(regions_from);
    reveal(region_text);
    reveal(blocks_from);
    reveal(block_text);
    reveal(ops_from);
}

/// [op_regions_text], one step unfolded.
pub proof fn lemma_op_regions_text(ctx: Context, rs: Seq<Region>, min: nat, indent: Indentation)
    ensures
        op_regions_text(ctx, rs, min, indent) == (if max_nat(rs.len(), min) > 0 {
            cat(
                Ok(" ("@),
                cat(
                    regions_from(ctx, rs, 0, indent),
                    Ok(empty_regions_from(rs.len(), max_nat(rs.len(), min)) + ")"@),
                ),
            )
        } else {
            Ok(seq![])
        }),
{
    reveal(op_text);
    reveal(generic_text);
    reveal(op_regions_text);
    reveal(regions_from);
    reveal(region_text);
    reveal(blocks_from);
    reveal(block_text);
    reveal(ops_from);
}

/// `cat` of a text and four more: all their texts in order, or the texts
/// before the first that fails followed by that failure.
pub proof fn lemma_cat5(a: Seq<char>, b: Text, c: Text, d: Text, e: Text)
    ensures
        ({
            let w = cat(Ok(a), cat(b, cat(c, cat(d, e))));
            &&& b is Err ==> w == cat(Ok(a), b)
            &&& b is Ok && c is Err ==> w == cat(Ok(a + b->Ok_0), c)
            &&& b is Ok && c is Ok && d is Err ==> w == cat(Ok(a + b->Ok_0 + c->Ok_0), d)
            &&& b is Ok && c is Ok && d is Ok && e is Err ==> w == cat(
                Ok(a + b->Ok_0 + c->Ok_0 + d->Ok_0),
                e,
            )
            &&& b is Ok && c is Ok && d is Ok && e is Ok ==> w == Ok::<
                Seq<char>,
                (Seq<char>, ErrorView),
            >(a + b->Ok_0 + c->Ok_0 + d->Ok_0 + e->Ok_0)
        }),
{
    lemma_cat_assoc(a, b, cat(c, cat(d, e)));
    if let Ok(y) = b {
        lemma_cat_assoc(a + y, c, cat(d, e));
        if let Ok(z) = c {
            lemma_cat_assoc(a + y + z, d, e);
        }
    }
    match (b, c, d, e) {
        (Ok(y), Ok(z), Ok(u), Ok(v)) => {
            assert(a + (y + (z + (u + v))) =~= a + y + z + u + v);
        },
        (Ok(y), Ok(z), Ok(u), Err((p, _))) => {
            assert(a + (y + (z + (u + p))) =~= a + y + z + u + p);
        },
        (Ok(y), Ok(z), Err((p, _)), _) => {
            assert(a + (y + (z + p)) =~= a + y + z + p);
        },
        (Ok(y), Err((p, _)), _, _) => {
            assert(a + (y + p) =~= a + y + p);
        },
        _ => {},
    }
}

/// The regions `rs[i..]`, separated by `, `.
#[verifier::opaque]
pub open spec fn regions_from(ctx: Context, rs: Seq<Region>, i: int, indent: Indentation) -> Text
    decreases rs, (rs.len() - i) as nat,
{
    if i < 0 || i >= rs.len() {
        Ok(seq![])
    } else {
        cat(Ok(sep(i)), cat(region_text(ctx, rs[i], indent), regions_from(ctx, rs, i + 1, indent)))
    }
}

/// `region` as `{ block* }`, per MLIR's `region ::= '{' block* '}'`, every
/// block on a line of its own one level deeper.
#[verifier::opaque]
pub open spec fn region_text(ctx: Context, region: Region, indent: Indentation) -> Text
    decreases region, 0nat,
{
    cat(
        Ok("{"@),
        cat(
            blocks_from(ctx, region.blocks@, 0, next_indent(indent)),
            Ok(newline_text(indent.level as nat) + "}"@),
        ),
    )
}

/// The blocks `bs[i..]`, each on a new line.
#[verifier::opaque]
pub open spec fn blocks_from(ctx: Context, bs: Seq<Block>, i: int, indent: Indentation) -> Text
    decreases bs, (bs.len() - i) as nat,
{
    if i < 0 || i >= bs.len() {
        Ok(seq![])
    } else {
        cat(
            Ok(newline_text(indent.level as nat)),
            cat(block_text(ctx, bs[i], indent), blocks_from(ctx, bs, i + 1, indent)),
        )
    }
}

/// `block` as `^label(args): operation*`, every operation on a line of its
/// own one level deeper.
#[verifier::opaque]
pub open spec fn block_text(ctx: Context, block: Block, indent: Indentation) -> Text
    decreases block, 0nat,
{
    cat(
        Ok("^"@ + block.label@),
        cat(
            block_args_text(ctx, block.args@),
            cat(Ok(":"@), ops_from(ctx, block.ops@, 0, next_indent(indent))),
        ),
    )
}

/// [region_text], one step unfolded.
pub proof fn lemma_region_text(ctx: Context, region: Region, indent: Indentation)
    ensures
        region_text(ctx, region, indent) == cat(
            Ok("{"@),
            cat(
                blocks_from(ctx, region.blocks@, 0, next_indent(indent)),
                Ok(newline_text(indent.level as nat) + "}"@),
            ),
        ),
{
    reveal(op_text);
    reveal(generic_text);
    reveal(op_regions_text);
    reveal(regions_from);
    reveal(region_text);
    reveal(blocks_from);
    reveal(block_text);
    reveal(ops_from);
}

/// [block_text], one step unfolded.
pub proof fn lemma_block_text(ctx: Context, block: Block, indent: Indentation)
    ensures
        block_text(ctx, block, indent) == cat(
            Ok("^"@ + block.label@),
            cat(
                block_args_text(ctx, block.args@),
                cat(Ok(":"@), ops_from(ctx, block.ops@, 0, next_indent(indent))),
            ),
        ),
{
    reveal(op_text);
    reveal(generic_text);
    reveal(op_regions_text);
    reveal(regions_from);
    reveal(region_text);
    reveal(blocks_from);
    reveal(block_text);
    reveal(ops_from);
}

/// [op_text], one step unfolded.
pub proof fn lemma_op_text(ctx: Context, op: Operation, indent: Indentation)
    ensures
        op_text(ctx, op, indent) == match op_translation(op) {
            Ok(g) => generic_text(ctx, op, g, indent),
            Err(e) => fail(e),
        },
{
    reveal(op_text);
    reveal(generic_text);
    reveal(op_regions_text);
    reveal(regions_from);
    reveal(region_text);
    reveal(blocks_from);
    reveal(block_text);
    reveal(ops_from);
}

/// [regions_from], one step unfolded.
pub proof fn lemma_regions_from(ctx: Context, rs: Seq<Region>, i: int, indent: Indentation)
    ensures
        regions_from(ctx, rs, i, indent) == if i < 0 || i >= rs.len() {
            Ok(seq![])
        } else {
            cat(Ok(sep(i)), cat(region_text(ctx, rs[i], indent), regions_from(ctx, rs, i + 1, indent)))
        },
{
    reveal(op_text);
    reveal(generic_text);
    reveal(op_regions_text);
    reveal(regions_from);
    reveal(region_text);
    reveal(blocks_from);
    reveal(block_text);
    reveal(ops_from);
}

/// [blocks_from], one step unfolded.
pub proof fn lemma_blocks_from(ctx: Context, bs: Seq<Block>, i: int, indent: Indentation)
    ensures
        blocks_from(ctx, bs, i, indent) == if i < 0 || i >= bs.len() {
            Ok(seq![])
        } else {
            cat(
                Ok(newline_text(indent.level as nat)),
                cat(block_text(ctx, bs[i], indent), blocks_from(ctx, bs, i + 1, indent)),
            )
        },
{
    reveal(op_text);
    reveal(generic_text);
    reveal(op_regions_text);
    reveal(regions_from);
    reveal(region_text);
    reveal(blocks_from);
    reveal(block_text);
    reveal(ops_from);
}

/// [ops_from], one step unfolded.
pub proof fn lemma_ops_from(ctx: Context, ops: Seq<Operation>, i: int, indent: Indentation)
    ensures
        ops_from(ctx, ops, i, indent) == if i < 0 || i >= ops.len() {
            Ok(seq![])
        } else {
            cat(
                Ok(newline_text(indent.level as nat)),
                cat(op_text(ctx, ops[i], indent), ops_from(ctx, ops, i + 1, indent)),
            )
        },
{
    reveal(op_text);
    reveal(generic_text);
    reveal(op_regions_text);
    reveal(regions_from);
    reveal(region_text);
    reveal(blocks_from);
    reveal(block_text);
    reveal(ops_from);
}

/// The operations `ops[i..]`, each on a new line.
#[verifier::opaque]
pub open spec fn ops_from(ctx: Context, ops: Seq<Operation>, i: int, indent: Indentation) -> Text
    decreases ops, (ops.len() - i) as nat,
{
    if i < 0 || i >= ops.len() {
        Ok(seq![])
    } else {
        cat(
            Ok(newline_text(indent.level as nat)),
            cat(op_text(ctx, ops[i], indent), ops_from(ctx, ops, i + 1, indent)),
        )
    }
}

/// `(%a0: t0, ...)`, or nothing for a block without arguments.
pub open spec fn block_args_text(ctx: Context, args: Seq<Value>) -> Text {
    if args.len() == 0 {
        Ok(seq![])
    } else {
        cat(Ok("("@), cat(block_args_from(ctx, args, 0), Ok(")"@)))
    }
}

/// `%name: type` of each of `args[i..]`, separated by `, `.
pub open spec fn block_args_from(ctx: Context, args: Seq<Value>, i: int) -> Text
    decreases args.len() - i,
{
    if i < 0 || i >= args.len() {
        Ok(seq![])
    } else {
        cat(
            Ok(sep(i) + "%"@ + args[i].name@ + ": "@),
            cat(type_text(ctx, args[i].ty, seq![]), block_args_from(ctx, args, i + 1)),
        )
    }
}

/// The key under which pliron keeps the names of results and block
/// arguments, which translate to SSA names rather than attributes.
pub open spec fn given_names_key() -> Seq<char> {
    "builtin_given_names"@
}

/// The entries of `attributes[..n]` as discardable attributes, but for the
/// given names.
pub open spec fn forwarded_attrs(attributes: Seq<(String, Attr)>, n: int) -> Seq<
    (Seq<char>, MlirAttrView),
>
    decreases n,
{
    if n <= 0 || n > attributes.len() {
        seq![]
    } else {
        let rest = forwarded_attrs(attributes, n - 1);
        let (key, val) = attributes[n - 1];
        if key@ == given_names_key() {
            rest
        } else {
            rest.push((key@, MlirAttrView::Attr(val)))
        }
    }
}

/// The default translation: `mnemonic`, every attribute of `op` but its given
/// names as a discardable attribute, and nothing else.
pub open spec fn default_translation(op: Operation, mnemonic: Seq<char>) -> GenericOpView {
    GenericOpView {
        attributes: forwarded_attrs(op.attributes@, op.attributes@.len() as int),
        ..GenericOpView::new(mnemonic)
    }
}

/// What a dictionary value of a custom translation stands for.
pub open spec fn dict_value_view(v: DictValue) -> MlirAttrView {
    match v {
        DictValue::Attr(a) => MlirAttrView::Attr(a),
        DictValue::Raw(t) => MlirAttrView::Raw(t@),
    }
}

/// What the dictionary entries of a custom translation stand for, in order.
pub open spec fn dict_entries_view(v: Seq<(String, DictValue)>) -> Seq<(Seq<char>, MlirAttrView)> {
    v.map_values(|e: (String, DictValue)| (e.0@, dict_value_view(e.1)))
}

/// The values of `results`, if given.
pub open spec fn opt_values(results: Option<Vec<Value>>) -> Option<Seq<Value>> {
    match results {
        Some(r) => Some(r@),
        None => None,
    }
}

/// A translation of an operation's own: exactly what its fields say.
pub open spec fn custom_translation(
    mnemonic: String,
    results: Option<Vec<Value>>,
    min_regions: usize,
    properties: Vec<(String, DictValue)>,
    attributes: Vec<(String, DictValue)>,
) -> GenericOpView {
    GenericOpView {
        mnemonic: mnemonic@,
        results: opt_values(results),
        min_regions: min_regions as nat,
        properties: dict_entries_view(properties@),
        attributes: dict_entries_view(attributes@),
    }
}

/// What `op` translates to, or why it has no translation.
#[verifier::opaque]
pub open spec fn op_translation(op: Operation) -> Result<GenericOpView, ErrorView> {
    match op.kind {
        OpKind::Module { sym_name } => Ok(builtin::ops::module_translation(sym_name)),
        OpKind::BuiltinFunc { sym_name, function_type } => Ok(
            builtin::ops::func_translation(op, sym_name, function_type),
        ),
        OpKind::BuiltinConstant { value } => Ok(builtin::ops::constant_translation(value)),
        OpKind::Generic { op_id } => Ok(default_translation(op, op_id@)),
        OpKind::Custom { mnemonic, results, min_regions, properties, attributes } => Ok(
            custom_translation(mnemonic, results, min_regions, properties, attributes),
        ),
        OpKind::Unsupported { op_id } => Err(
            ErrorView::Located(op.location as nat, Box::new(ErrorView::MissingOpTranslation(op_id@))),
        ),
        _ => llvm::ops::llvm_translation(op),
    }
}

/// A value in one of MLIR's operation dictionaries.
pub(crate) enum MlirAttr<'a> {
    /// An attribute, translated through [print_attr].
    Attr(&'a Attr),
    /// An attribute made for the occasion, translated through [print_attr].
    Owned(Attr),
    /// A type, as MLIR's type attribute.
    Type(&'a Ty),
    /// A symbol name, as MLIR's symbol reference attribute.
    Symbol(&'a String),
    /// Operand segment sizes.
    SegmentSizes(&'a Vec<u32>),
    /// The position of an aggregate member.
    Position(&'a Vec<u32>),
    /// A vector shuffle mask.
    Mask(&'a Vec<i32>),
    /// The indices of a `getelementptr`.
    GepIndices(&'a Vec<GepIndexAttr>),
    /// The case values of a `switch`.
    CaseValues(&'a Vec<IntegerAttr>),
    /// Already-formatted MLIR attribute text, printed verbatim.
    Raw(String),
}

/// What a dictionary value stands for.
pub(crate) open spec fn mlir_attr_view(a: MlirAttr) -> MlirAttrView {
    match a {
        MlirAttr::Attr(x) => MlirAttrView::Attr(*x),
        MlirAttr::Owned(x) => MlirAttrView::Attr(x),
        MlirAttr::Type(t) => MlirAttrView::Attr(Attr::Type(*t)),
        MlirAttr::Symbol(s) => MlirAttrView::Attr(Attr::Identifier(*s)),
        MlirAttr::SegmentSizes(v) => MlirAttrView::Attr(Attr::OperandSegmentSizes(*v)),
        MlirAttr::Position(v) => MlirAttrView::Attr(Attr::InsertExtractValueIndices(*v)),
        MlirAttr::Mask(v) => MlirAttrView::Attr(Attr::ShuffleVectorMask(*v)),
        MlirAttr::GepIndices(v) => MlirAttrView::Attr(Attr::GepIndices(*v)),
        MlirAttr::CaseValues(v) => MlirAttrView::Attr(Attr::CaseValues(*v)),
        MlirAttr::Raw(s) => MlirAttrView::Raw(s@),
    }
}

/// What `a` stands for, if there is an `a`.
pub(crate) open spec fn opt_mlir_attr_view(a: Option<MlirAttr>) -> Option<MlirAttrView> {
    match a {
        Some(x) => Some(mlir_attr_view(x)),
        None => None,
    }
}

/// What dictionary entries stand for.
pub(crate) open spec fn entries_view(v: Seq<(&str, MlirAttr)>) -> Seq<(Seq<char>, MlirAttrView)> {
    v.map_values(|e: (&str, MlirAttr)| (e.0@, mlir_attr_view(e.1)))
}

/// The values behind `v`.
pub open spec fn refs_view(v: Seq<&Value>) -> Seq<Value> {
    v.map_values(|r: &Value| *r)
}

/// The attribute behind `a`, if any.
pub open spec fn opt_attr(a: Option<&Attr>) -> Option<Attr> {
    match a {
        Some(x) => Some(*x),
        None => None,
    }
}

/// The text of `t`, if any.
pub open spec fn opt_text(t: Option<String>) -> Option<Seq<char>> {
    match t {
        Some(x) => Some(x@),
        None => None,
    }
}

/// Builder for MLIR's generic operation syntax:
///
/// ```text
/// operation         ::= op-result-list? generic-operation
/// generic-operation ::= string-literal `(` value-use-list? `)` successor-list?
///                       dictionary-properties? region-list? dictionary-attribute?
///                       `:` function-type
/// ```
///
/// e.g.,
///
/// ```text
/// %r0, %r1 = "mnemonic"(%o0, %o1) [^s0, ^s1] <{p = val}> ({ ... }) {attr = val}
///     : (t0, t1) -> (t2, t3)
/// ```
///
/// Operands, successors and regions come from the underlying `Operation`.
/// Results do too, unless overridden with [Self::results].
///
/// MLIR carries an operation's inherent data in the `<{...}>` (properties)
/// dictionary and everything else in the discardable `{...}` one. Both are
/// built up entry by entry.
pub struct GenericOp<'a> {
    op: &'a Operation,
    mnemonic: &'a str,
    results: Option<Vec<&'a Value>>,
    min_regions: usize,
    properties: Vec<(&'a str, MlirAttr<'a>)>,
    attributes: Vec<(&'a str, MlirAttr<'a>)>,
}

impl<'a> View for GenericOp<'a> {
    type V = GenericOpView;

    closed spec fn view(&self) -> GenericOpView {
        GenericOpView {
            mnemonic: self.mnemonic@,
            results: match self.results {
                Some(r) => Some(refs_view(r@)),
                None => None,
            },
            min_regions: self.min_regions as nat,
            properties: entries_view(self.properties@),
            attributes: entries_view(self.attributes@),
        }
    }
}

impl<'a> GenericOp<'a> {
    /// The operation that is printed.
    pub closed spec fn op_view(&self) -> Operation {
        *self.op
    }

    /// Print `op` with the given MLIR `mnemonic` and no dictionary entries.
    pub fn new(op: &'a Operation, mnemonic: &'a str) -> (res: Self)
        ensures
            res@ == GenericOpView::new(mnemonic@),
            res.op_view() == *op,
    {
        let res = GenericOp {
            op,
            mnemonic,
            results: None,
            min_regions: 0,
            properties: Vec::new(),
            attributes: Vec::new(),
        };
        assert(entries_view(res.properties@) =~= seq![]);
        assert(entries_view(res.attributes@) =~= seq![]);
        res
    }

    /// Print `results` instead of the `Operation`'s own results.
    pub fn results(self, results: Vec<&'a Value>) -> (res: Self)
        ensures
            res@ == self@.with_results(refs_view(results@)),
            res.op_view() == self.op_view(),
    {
        let mut res = self;
        res.results = Some(results);
        res
    }

    /// Print at least `n` regions, padding with empty ones.
    pub fn min_regions(self, n: usize) -> (res: Self)
        ensures
            res@ == self@.with_min_regions(n as nat),
            res.op_view() == self.op_view(),
    {
        let mut res = self;
        res.min_regions = n;
        res
    }

    /// Add an attribute to the properties dictionary.
    pub fn prop_attr(self, name: &'a str, attr: &'a Attr) -> (res: Self)
        ensures
            res@ == self@.prop(name@, *attr),
            res.op_view() == self.op_view(),
    {
        let mut res = self;
        res.properties.push((name, MlirAttr::Attr(attr)));
        assert(entries_view(res.properties@) =~= entries_view(self.properties@).push(
            (name@, MlirAttrView::Attr(*attr)),
        ));
        res
    }

    /// Like [Self::prop_attr], but for an optional attribute.
    pub fn prop_attr_opt(self, name: &'a str, attr: Option<&'a Attr>) -> (res: Self)
        ensures
            res@ == self@.prop_opt(name@, opt_attr(attr)),
            res.op_view() == self.op_view(),
    {
        match attr {
            Some(attr) => self.prop_attr(name, attr),
            None => self,
        }
    }

    /// Add a type, as MLIR's type attribute, to the properties dictionary.
    pub(crate) fn prop_type(self, name: &'a str, ty: &'a Ty) -> (res: Self)
        ensures
            res@ == self@.prop(name@, Attr::Type(*ty)),
            res.op_view() == self.op_view(),
    {
        let mut res = self;
        res.properties.push((name, MlirAttr::Type(ty)));
        assert(entries_view(res.properties@) =~= entries_view(self.properties@).push(
            (name@, MlirAttrView::Attr(Attr::Type(*ty))),
        ));
        res
    }

    /// Add `value` to the properties dictionary.
    pub(crate) fn prop_entry(self, name: &'a str, value: MlirAttr<'a>) -> (res: Self)
        ensures
            res@ == self@.prop_value(name@, mlir_attr_view(value)),
            res.op_view() == self.op_view(),
    {
        let ghost v = mlir_attr_view(value);
        let mut res = self;
        res.properties.push((name, value));
        assert(entries_view(res.properties@) =~= entries_view(self.properties@).push((name@, v)));
        res
    }

    /// Like [Self::prop_entry], but for an optional value.
    pub(crate) fn prop_entry_opt(self, name: &'a str, value: Option<MlirAttr<'a>>) -> (res: Self)
        ensures
            res@ == self@.prop_value_opt(name@, opt_mlir_attr_view(value)),
            res.op_view() == self.op_view(),
    {
        match value {
            Some(value) => self.prop_entry(name, value),
            None => self,
        }
    }

    /// Add pre-formatted MLIR text to the properties dictionary.
    pub fn prop_raw(self, name: &'a str, text: String) -> (res: Self)
        ensures
            res@ == self@.prop_raw(name@, text@),
            res.op_view() == self.op_view(),
    {
        let ghost t = text@;
        let mut res = self;
        res.properties.push((name, MlirAttr::Raw(text)));
        assert(entries_view(res.properties@) =~= entries_view(self.properties@).push(
            (name@, MlirAttrView::Raw(t)),
        ));
        res
    }

    /// Like [Self::prop_raw], but for optional text.
    pub fn prop_raw_opt(self, name: &'a str, text: Option<String>) -> (res: Self)
        ensures
            res@ == self@.prop_raw_opt(name@, opt_text(text)),
            res.op_view() == self.op_view(),
    {
        match text {
            Some(text) => self.prop_raw(name, text),
            None => self,
        }
    }

    /// Add pre-formatted MLIR text to the discardable attribute dictionary.
    pub fn attr_raw(self, name: &'a str, text: String) -> (res: Self)
        ensures
            res@ == self@.attr_raw(name@, text@),
            res.op_view() == self.op_view(),
    {
        let ghost t = text@;
        let mut res = self;
        res.attributes.push((name, MlirAttr::Raw(text)));
        assert(entries_view(res.attributes@) =~= entries_view(self.attributes@).push(
            (name@, MlirAttrView::Raw(t)),
        ));
        res
    }

    /// Add an attribute to the discardable attribute dictionary.
    fn attr_attr(self, name: &'a str, attr: &'a Attr) -> (res: Self)
        ensures
            res@ == self@.attr(name@, *attr),
            res.op_view() == self.op_view(),
    {
        let mut res = self;
        res.attributes.push((name, MlirAttr::Attr(attr)));
        assert(entries_view(res.attributes@) =~= entries_view(self.attributes@).push(
            (name@, MlirAttrView::Attr(*attr)),
        ));
        res
    }

    /// Add `value` to the discardable attribute dictionary.
    pub(crate) fn attr_entry(self, name: &'a str, value: MlirAttr<'a>) -> (res: Self)
        ensures
            res@ == self@.attr_value(name@, mlir_attr_view(value)),
            res.op_view() == self.op_view(),
    {
        let ghost v = mlir_attr_view(value);
        let mut res = self;
        res.attributes.push((name, value));
        assert(entries_view(res.attributes@) =~= entries_view(self.attributes@).push((name@, v)));
        res
    }

    /// Print the operation.
    #[verifier::rlimit(50)]
    pub fn print(&self, ctx: &Context, indent: Indentation, out: &mut String) -> (r: Result<(), Error>)
        ensures
            emitted(old(out)@, final(out)@, r, generic_text(*ctx, self.op_view(), self@, indent)),
        decreases self.op_view(), 1nat,
    {
        let operation = self.op;
        let ghost op = *operation;
        let ghost g = self@;
        // Results are printed with their types, so that an overriding
        // `results()` list needs to carry only the values.
        let results: Vec<&Value> = match &self.results {
            Some(results) => copy_refs(results),
            None => value_refs(&operation.results),
        };
        let ghost rv = refs_view(results@);
        assert(rv == printed_results(op, g));
        let operands = value_refs(&operation.operands);
        print_value_names(&results, out);
        if results.len() > 0 {
            out.append(" = ");
        }
        out.append("\"");
        out.append(self.mnemonic);
        out.append("\"(");
        print_value_names(&operands, out);
        out.append(")");
        print_successors(&operation.successors, out);
        let ghost head = generic_head(op, g);
        assert(out@ =~= old(out)@ + head);
        let ghost props = dict_text(*ctx, g.properties, " <{"@, "}>"@);
        let ghost regions = op_regions_text(*ctx, op.regions@, g.min_regions, indent);
        let ghost attrs = dict_text(*ctx, g.attributes, " {"@, "}"@);
        let ghost signature = signature_text(*ctx, op.operands@, rv);
        proof {
            lemma_generic_text(*ctx, op, g, indent);
            lemma_cat5(head, props, regions, attrs, signature);
        }
        let r = print_dict(ctx, &self.properties, " <{", "}>", out);
        if r.is_err() {
            proof {
                lemma_emitted_after(old(out)@, head, out@, r, props);
            }
            return r;
        }
        let ghost before_regions = head + props->Ok_0;
        assert(out@ =~= old(out)@ + before_regions);
        let r = print_op_regions(ctx, &operation.regions, self.min_regions, indent, out);
        if r.is_err() {
            proof {
                lemma_emitted_after(old(out)@, before_regions, out@, r, regions);
            }
            return r;
        }
        let ghost before_attrs = before_regions + regions->Ok_0;
        assert(out@ =~= old(out)@ + before_attrs);
        let r = print_dict(ctx, &self.attributes, " {", "}", out);
        if r.is_err() {
            proof {
                lemma_emitted_after(old(out)@, before_attrs, out@, r, attrs);
            }
            return r;
        }
        let ghost before_signature = before_attrs + attrs->Ok_0;
        assert(out@ =~= old(out)@ + before_signature);
        let r = print_signature(ctx, &operands, &results, out);
        if r.is_err() {
            proof {
                lemma_emitted_after(old(out)@, before_signature, out@, r, signature);
            }
            return r;
        }
        assert(out@ =~= old(out)@ + (head + props->Ok_0 + regions->Ok_0 + attrs->Ok_0
            + signature->Ok_0));
        Ok(())
    }
}

/// ` ({...}, {...})`: the regions `rs`, padded with empty ones to at least
/// `min` regions, or nothing when that makes none.
fn print_op_regions(ctx: &Context, rs: &Vec<Region>, min: usize, indent: Indentation, out: &mut String) -> (r:
    Result<(), Error>)
    ensures
        emitted(old(out)@, final(out)@, r, op_regions_text(*ctx, rs@, min as nat, indent)),
    decreases rs@, rs@.len() + 1,
{
    proof {
        lemma_op_regions_text(*ctx, rs@, min as nat, indent);
    }
    let n = if rs.len() >= min {
        rs.len()
    } else {
        min
    };
    if n == 0 {
        assert(out@ =~= old(out)@ + seq![]);
        return Ok(());
    }
    out.append(" (");
    let ghost rs_text = regions_from(*ctx, rs@, 0, indent);
    let r = print_regions(ctx, rs, indent, out);
    if r.is_err() {
        proof {
            lemma_emitted_after(old(out)@, " ("@, out@, r, rs_text);
        }
        return r;
    }
    push_empty_regions(rs.len(), n, out);
    out.append(")");
    proof {
        let whole = op_regions_text(*ctx, rs@, min as nat, indent);
        assert(whole->Ok_0 =~= " ("@ + rs_text->Ok_0 + (empty_regions_from(rs@.len(), n as nat)
            + ")"@));
        assert(out@ =~= old(out)@ + whole->Ok_0);
    }
    Ok(())
}

/// ` : (t0, t1) -> (t2, t3)`: the types of `operands` and of `results`.
fn print_signature(ctx: &Context, operands: &Vec<&Value>, results: &Vec<&Value>, out: &mut String) -> (r:
    Result<(), Error>)
    ensures
        emitted(
            old(out)@,
            final(out)@,
            r,
            signature_text(*ctx, refs_view(operands@), refs_view(results@)),
        ),
{
    out.append(" : (");
    let ghost opd_types = value_types_from(*ctx, refs_view(operands@), 0);
    let r = print_value_types(ctx, operands, out);
    if r.is_err() {
        proof {
            lemma_emitted_after(old(out)@, " : ("@, out@, r, opd_types);
        }
        return r;
    }
    out.append(") -> (");
    let ghost prefix = " : ("@ + opd_types->Ok_0 + ") -> ("@;
    assert(out@ =~= old(out)@ + prefix);
    let ghost res_types = value_types_from(*ctx, refs_view(results@), 0);
    let r = print_value_types(ctx, results, out);
    if r.is_err() {
        proof {
            lemma_emitted_after(old(out)@, prefix, out@, r, res_types);
            let p = res_types->Err_0.0;
            assert(prefix + p =~= " : ("@ + (opd_types->Ok_0 + (") -> ("@ + p)));
        }
        return r;
    }
    out.append(")");
    proof {
        let whole = signature_text(*ctx, refs_view(operands@), refs_view(results@));
        assert(whole->Ok_0 =~= " : ("@ + opd_types->Ok_0 + ") -> ("@ + res_types->Ok_0 + ")"@);
        assert(out@ =~= old(out)@ + whole->Ok_0);
    }
    Ok(())
}

/// A copy of the references `v`.
fn copy_refs<'a>(v: &Vec<&'a Value>) -> (res: Vec<&'a Value>)
    ensures
        res@ == v@,
{
    let mut res: Vec<&'a Value> = Vec::new();
    let mut i: usize = 0;
    while i < v.len()
        invariant
            i <= v@.len(),
            res@ == v@.take(i as int),
        decreases v.len() - i,
    {
        res.push(v[i]);
        assert(res@ =~= v@.take(i + 1));
        i += 1;
    }
    assert(v@.take(i as int) =~= v@);
    res
}

/// References to each of `v`.
fn value_refs<'a>(v: &'a Vec<Value>) -> (res: Vec<&'a Value>)
    ensures
        refs_view(res@) == v@,
{
    let mut res: Vec<&'a Value> = Vec::new();
    let mut i: usize = 0;
    while i < v.len()
        invariant
            i <= v@.len(),
            res@.len() == i,
            forall|j: int| 0 <= j < i ==> *res@[j] == v@[j],
        decreases v.len() - i,
    {
        res.push(&v[i]);
        i += 1;
    }
    assert(refs_view(res@) =~= v@);
    res
}

/// Appends a line break and `level` spaces.
fn push_newline_indent(level: usize, out: &mut String)
    ensures
        final(out)@ == old(out)@ + newline_text(level as nat),
{
    push_char(out, '\n');
    let ghost start = out@;
    let mut i: usize = 0;
    while i < level
        invariant
            i <= level,
            out@ == start + repeat_char(' ', i as nat),
        decreases level - i,
    {
        push_char(out, ' ');
        i += 1;
        assert(out@ =~= start + repeat_char(' ', i as nat));
    }
    assert(out@ =~= old(out)@ + newline_text(level as nat));
}

/// `%name` of each of `vals`, separated by `, `.
fn print_value_names(vals: &Vec<&Value>, out: &mut String)
    ensures
        final(out)@ == old(out)@ + value_names_from(refs_view(vals@), 0),
{
    let ghost v = refs_view(vals@);
    let ghost mut done: Seq<char> = seq![];
    let mut i: usize = 0;
    while i < vals.len()
        invariant
            i <= vals@.len(),
            v == refs_view(vals@),
            out@ == old(out)@ + done,
            value_names_from(v, 0) == done + value_names_from(v, i as int),
        decreases vals.len() - i,
    {
        if i > 0 {
            out.append(", ");
        }
        out.append("%");
        out.append(vals[i].name.as_str());
        proof {
            let piece = sep(i as int) + "%"@ + v[i as int].name@;
            assert(out@ =~= old(out)@ + (done + piece));
            assert(value_names_from(v, i as int) == piece + value_names_from(v, i + 1));
            assert(done + value_names_from(v, i as int) =~= (done + piece) + value_names_from(
                v,
                i + 1,
            ));
            done = done + piece;
        }
        i += 1;
    }
    assert(done + value_names_from(v, i as int) =~= done);
}

/// The types of `vals`, separated by `, `.
fn print_value_types(ctx: &Context, vals: &Vec<&Value>, out: &mut String) -> (r: Result<(), Error>)
    ensures
        emitted(old(out)@, final(out)@, r, value_types_from(*ctx, refs_view(vals@), 0)),
{
    let ghost v = refs_view(vals@);
    let ghost mut done: Seq<char> = seq![];
    let mut i: usize = 0;
    while i < vals.len()
        invariant
            i <= vals@.len(),
            v == refs_view(vals@),
            out@ == old(out)@ + done,
            value_types_from(*ctx, v, 0) == cat(Ok(done), value_types_from(*ctx, v, i as int)),
        decreases vals.len() - i,
    {
        if i > 0 {
            out.append(", ");
        }
        let ghost head = sep(i as int);
        assert(out@ =~= old(out)@ + (done + head));
        assert(out@ =~= old(out)@ + (done + head));
        let r = print_type(ctx, &vals[i].ty, out);
        let ghost t = type_text(*ctx, v[i as int].ty, seq![]);
        let ghost rest = value_types_from(*ctx, v, i + 1);
        proof {
            lemma_cat_assoc(done, Ok(head), cat(t, rest));
            lemma_cat_assoc(done + head, t, rest);
        }
        if r.is_err() {
            proof {
                lemma_emitted_after(old(out)@, done + head, out@, r, t);
            }
            return r;
        }
        proof {
            assert(out@ =~= old(out)@ + (done + head + t->Ok_0));
            done = done + head + t->Ok_0;
        }
        i += 1;
    }
    assert(done + seq![] =~= done);
    Ok(())
}

/// ` [^s0, ^s1]`, or nothing when there are no successors.
fn print_successors(succs: &Vec<String>, out: &mut String)
    ensures
        final(out)@ == old(out)@ + successors_text(succs@),
{
    if succs.len() == 0 {
        assert(out@ =~= old(out)@ + successors_text(succs@));
        return ;
    }
    out.append(" [");
    let ghost start = out@;
    let ghost mut done: Seq<char> = seq![];
    let mut i: usize = 0;
    while i < succs.len()
        invariant
            i <= succs@.len(),
            out@ == start + done,
            successors_from(succs@, 0) == done + successors_from(succs@, i as int),
        decreases succs.len() - i,
    {
        if i > 0 {
            out.append(", ");
        }
        out.append("^");
        out.append(succs[i].as_str());
        proof {
            let piece = sep(i as int) + "^"@ + succs@[i as int]@;
            assert(out@ =~= start + (done + piece));
            assert(done + successors_from(succs@, i as int) =~= (done + piece) + successors_from(
                succs@,
                i + 1,
            ));
            done = done + piece;
        }
        i += 1;
    }
    out.append("]");
    assert(done + successors_from(succs@, i as int) =~= done);
    assert(out@ =~= old(out)@ + successors_text(succs@));
}

/// Print `entries` as `<open> key = value, ... <close>`,
/// or nothing when there are none.
fn print_dict(
    ctx: &Context,
    entries: &Vec<(&str, MlirAttr)>,
    open: &str,
    close: &str,
    out: &mut String,
) -> (r: Result<(), Error>)
    ensures
        emitted(old(out)@, final(out)@, r, dict_text(*ctx, entries_view(entries@), open@, close@)),
{
    let ghost v = entries_view(entries@);
    if entries.len() == 0 {
        assert(out@ =~= old(out)@ + seq![]);
        return Ok(());
    }
    out.append(open);
    let ghost start = out@;
    let ghost mut done: Seq<char> = seq![];
    let mut i: usize = 0;
    while i < entries.len()
        invariant
            i <= entries@.len(),
            v == entries_view(entries@),
            out@ == start + done,
            start == old(out)@ + open@,
            dict_from(*ctx, v, 0) == cat(Ok(done), dict_from(*ctx, v, i as int)),
        decreases entries.len() - i,
    {
        let (key, value) = &entries[i];
        if i > 0 {
            out.append(", ");
        }
        out.append(key);
        out.append(" = ");
        let ghost head = sep(i as int) + v[i as int].0 + " = "@;
        assert(out@ =~= start + (done + head));
        let r = print_entry_value(ctx, value, out);
        let ghost t = mlir_attr_text(*ctx, v[i as int].1);
        let ghost rest = dict_from(*ctx, v, i + 1);
        proof {
            lemma_cat_assoc(done, Ok(head), cat(t, rest));
            lemma_cat_assoc(done + head, t, rest);
        }
        if r.is_err() {
            proof {
                lemma_emitted_after(start, done + head, out@, r, t);
                lemma_emitted_after(old(out)@, open@, out@, r, dict_from(*ctx, v, 0));
            }
            return r;
        }
        proof {
            assert(out@ =~= start + (done + head + t->Ok_0));
            done = done + head + t->Ok_0;
        }
        i += 1;
    }
    out.append(close);
    proof {
        assert(done + seq![] =~= done);
        let whole = dict_text(*ctx, v, open@, close@);
        assert(whole == cat(Ok(open@), cat(dict_from(*ctx, v, 0), Ok(close@))));
        assert(out@ =~= old(out)@ + (open@ + done + close@));
        assert(whole->Ok_0 =~= open@ + done + close@);
    }
    Ok(())
}

/// Print a dictionary value.
fn print_entry_value(ctx: &Context, value: &MlirAttr, out: &mut String) -> (r: Result<(), Error>)
    ensures
        emitted(old(out)@, final(out)@, r, mlir_attr_text(*ctx, mlir_attr_view(*value))),
{
    match value {
        MlirAttr::Attr(attr) => print_attr(ctx, attr, out),
        MlirAttr::Owned(attr) => print_attr(ctx, attr, out),
        MlirAttr::Type(ty) => print_type(ctx, ty, out),
        MlirAttr::Symbol(name) => {
            out.append("@");
            out.append(name.as_str());
            assert(out@ =~= old(out)@ + ("@"@ + name@));
            Ok(())
        },
        MlirAttr::SegmentSizes(v) => {
            builtin::attributes::push_u32_array("i32", v, out);
            Ok(())
        },
        MlirAttr::Position(v) => {
            builtin::attributes::push_u32_array("i64", v, out);
            Ok(())
        },
        MlirAttr::Mask(v) => {
            let elems = widen_i32s(v);
            let text = mlir_dense_array("i32", elems.as_slice());
            out.append(text.as_str());
            Ok(())
        },
        MlirAttr::GepIndices(v) => llvm::attributes::gep_indices_attr_to_mlir(v, out),
        MlirAttr::CaseValues(v) => llvm::attributes::case_values_attr_to_mlir(v, out),
        MlirAttr::Raw(text) => {
            out.append(text.as_str());
            Ok(())
        },
    }
}

/// The empty regions `from..n`: `{}` each, separated by `, ` (but for
/// region 0).
fn push_empty_regions(from: usize, n: usize, out: &mut String)
    ensures
        final(out)@ == old(out)@ + empty_regions_from(from as nat, n as nat),
{
    let ghost mut done: Seq<char> = seq![];
    let mut i: usize = from;
    while i < n
        invariant
            from <= i || n <= from,
            out@ == old(out)@ + done,
            empty_regions_from(from as nat, n as nat) == done + empty_regions_from(i as nat, n as nat),
        decreases n - i,
    {
        if i > 0 {
            out.append(", ");
        }
        out.append("{}");
        proof {
            let piece = sep(i as int) + "{}"@;
            assert(out@ =~= old(out)@ + (done + piece));
            assert(done + empty_regions_from(i as nat, n as nat) =~= (done + piece)
                + empty_regions_from((i + 1) as nat, n as nat));
            done = done + piece;
        }
        i += 1;
    }
    assert(done + empty_regions_from(i as nat, n as nat) =~= done);
}

/// The indentation one level deeper than `indent`.
fn deeper(indent: Indentation) -> (res: Indentation)
    ensures
        res == next_indent(indent),
{
    let level = if indent.level <= usize::MAX - indent.width {
        indent.level + indent.width
    } else {
        usize::MAX
    };
    Indentation { level, width: indent.width }
}

/// The regions `rs`, separated by `, `.
fn print_regions(ctx: &Context, rs: &Vec<Region>, indent: Indentation, out: &mut String) -> (r: Result<
    (),
    Error,
>)
    ensures
        emitted(old(out)@, final(out)@, r, regions_from(*ctx, rs@, 0, indent)),
    decreases rs@, 0nat,
{
    let ghost mut done: Seq<char> = seq![];
    let mut i: usize = 0;
    while i < rs.len()
        invariant
            i <= rs@.len(),
            out@ == old(out)@ + done,
            regions_from(*ctx, rs@, 0, indent) == cat(
                Ok(done),
                regions_from(*ctx, rs@, i as int, indent),
            ),
        decreases rs.len() - i,
    {
        proof {
            lemma_regions_from(*ctx, rs@, i as int, indent);
        }
        if i > 0 {
            out.append(", ");
        }
        let ghost head = sep(i as int);
        assert(out@ =~= old(out)@ + (done + head));
        assert(out@ =~= old(out)@ + (done + head));
        let r = print_region(ctx, &rs[i], indent, out);
        let ghost t = region_text(*ctx, rs@[i as int], indent);
        let ghost rest = regions_from(*ctx, rs@, i + 1, indent);
        proof {
            lemma_cat_assoc(done, Ok(head), cat(t, rest));
            lemma_cat_assoc(done + head, t, rest);
        }
        if r.is_err() {
            proof {
                lemma_emitted_after(old(out)@, done + head, out@, r, t);
            }
            return r;
        }
        proof {
            assert(out@ =~= old(out)@ + (done + head + t->Ok_0));
            done = done + head + t->Ok_0;
        }
        i += 1;
    }
    proof {
        lemma_regions_from(*ctx, rs@, i as int, indent);
    }
    assert(done + seq![] =~= done);
    Ok(())
}

/// Print `region` as `{ block* }`, per MLIR's `region ::= '{' block* '}'`.
///
/// Every block (including the entry block) is printed with an explicit label.
fn print_region(ctx: &Context, region: &Region, indent: Indentation, out: &mut String) -> (r: Result<
    (),
    Error,
>)
    ensures
        emitted(old(out)@, final(out)@, r, region_text(*ctx, *region, indent)),
    decreases *region, 1nat,
{
    out.append("{");
    let inner = deeper(indent);
    let ghost bs = blocks_from(*ctx, region.blocks@, 0, inner);
    proof {
        lemma_region_text(*ctx, *region, indent);
    }
    let r = print_blocks(ctx, &region.blocks, inner, out);
    if r.is_err() {
        proof {
            lemma_emitted_after(old(out)@, "{"@, out@, r, bs);
        }
        return r;
    }
    push_newline_indent(indent.level, out);
    out.append("}");
    proof {
        let whole = region_text(*ctx, *region, indent);
        assert(whole->Ok_0 =~= "{"@ + bs->Ok_0 + (newline_text(indent.level as nat) + "}"@));
        assert(out@ =~= old(out)@ + whole->Ok_0);
    }
    Ok(())
}

/// The blocks `bs`, each on a new line.
fn print_blocks(ctx: &Context, bs: &Vec<Block>, indent: Indentation, out: &mut String) -> (r: Result<
    (),
    Error,
>)
    ensures
        emitted(old(out)@, final(out)@, r, blocks_from(*ctx, bs@, 0, indent)),
    decreases bs@, 0nat,
{
    let ghost mut done: Seq<char> = seq![];
    let mut i: usize = 0;
    while i < bs.len()
        invariant
            i <= bs@.len(),
            out@ == old(out)@ + done,
            blocks_from(*ctx, bs@, 0, indent) == cat(
                Ok(done),
                blocks_from(*ctx, bs@, i as int, indent),
            ),
        decreases bs.len() - i,
    {
        proof {
            lemma_blocks_from(*ctx, bs@, i as int, indent);
        }
        push_newline_indent(indent.level, out);
        let ghost head = newline_text(indent.level as nat);
        assert(out@ =~= old(out)@ + (done + head));
        let r = print_block(ctx, &bs[i], indent, out);
        let ghost t = block_text(*ctx, bs@[i as int], indent);
        let ghost rest = blocks_from(*ctx, bs@, i + 1, indent);
        proof {
            lemma_cat_assoc(done, Ok(head), cat(t, rest));
            lemma_cat_assoc(done + head, t, rest);
        }
        if r.is_err() {
            proof {
                lemma_emitted_after(old(out)@, done + head, out@, r, t);
            }
            return r;
        }
        proof {
            assert(out@ =~= old(out)@ + (done + head + t->Ok_0));
            done = done + head + t->Ok_0;
        }
        i += 1;
    }
    proof {
        lemma_blocks_from(*ctx, bs@, i as int, indent);
    }
    assert(done + seq![] =~= done);
    Ok(())
}

/// Print `block` as `^label(args): operation*`.
fn print_block(ctx: &Context, block: &Block, indent: Indentation, out: &mut String) -> (r: Result<
    (),
    Error,
>)
    ensures
        emitted(old(out)@, final(out)@, r, block_text(*ctx, *block, indent)),
    decreases *block, 1nat,
{
    out.append("^");
    out.append(block.label.as_str());
    let inner = deeper(indent);
    let ghost args = block_args_text(*ctx, block.args@);
    let ghost ops = ops_from(*ctx, block.ops@, 0, inner);
    proof {
        lemma_block_text(*ctx, *block, indent);
    }
    let ghost label = "^"@ + block.label@;
    assert(out@ =~= old(out)@ + label);
    let r = print_block_args(ctx, &block.args, out);
    if r.is_err() {
        proof {
            lemma_emitted_after(old(out)@, label, out@, r, args);
        }
        return r;
    }
    out.append(":");
    let ghost prefix = label + args->Ok_0 + ":"@;
    assert(out@ =~= old(out)@ + prefix);
    let r = print_ops(ctx, &block.ops, inner, out);
    if r.is_err() {
        proof {
            lemma_emitted_after(old(out)@, prefix, out@, r, ops);
            let p = ops->Err_0.0;
            assert(prefix + p =~= label + (args->Ok_0 + (":"@ + p)));
        }
        return r;
    }
    proof {
        let whole = block_text(*ctx, *block, indent);
        assert(whole->Ok_0 =~= "^"@ + block.label@ + args->Ok_0 + (":"@ + ops->Ok_0));
        assert(out@ =~= old(out)@ + whole->Ok_0);
    }
    Ok(())
}

/// `(%a0: t0, ...)`, or nothing for a block without arguments.
fn print_block_args(ctx: &Context, args: &Vec<Value>, out: &mut String) -> (r: Result<(), Error>)
    ensures
        emitted(old(out)@, final(out)@, r, block_args_text(*ctx, args@)),
{
    if args.len() == 0 {
        assert(out@ =~= old(out)@ + seq![]);
        return Ok(());
    }
    out.append("(");
    let ghost start = out@;
    let ghost mut done: Seq<char> = seq![];
    let mut i: usize = 0;
    while i < args.len()
        invariant
            i <= args@.len(),
            out@ == start + done,
            start == old(out)@ + "("@,
            block_args_from(*ctx, args@, 0) == cat(Ok(done), block_args_from(*ctx, args@, i as int)),
        decreases args.len() - i,
    {
        if i > 0 {
            out.append(", ");
        }
        out.append("%");
        out.append(args[i].name.as_str());
        out.append(": ");
        let ghost head = sep(i as int) + "%"@ + args@[i as int].name@ + ": "@;
        assert(out@ =~= start + (done + head));
        let r = print_type(ctx, &args[i].ty, out);
        let ghost t = type_text(*ctx, args@[i as int].ty, seq![]);
        let ghost rest = block_args_from(*ctx, args@, i + 1);
        proof {
            lemma_cat_assoc(done, Ok(head), cat(t, rest));
            lemma_cat_assoc(done + head, t, rest);
        }
        if r.is_err() {
            proof {
                lemma_emitted_after(start, done + head, out@, r, t);
                lemma_emitted_after(old(out)@, "("@, out@, r, block_args_from(*ctx, args@, 0));
            }
            return r;
        }
        proof {
            assert(out@ =~= start + (done + head + t->Ok_0));
            done = done + head + t->Ok_0;
        }
        i += 1;
    }
    out.append(")");
    proof {
        assert(done + seq![] =~= done);
        let whole = block_args_text(*ctx, args@);
        assert(whole == cat(Ok("("@), cat(block_args_from(*ctx, args@, 0), Ok(")"@))));
        assert(out@ =~= old(out)@ + ("("@ + done + ")"@));
        assert(whole->Ok_0 =~= "("@ + done + ")"@);
    }
    Ok(())
}

/// The operations `ops`, each on a new line.
fn print_ops(ctx: &Context, ops: &Vec<Operation>, indent: Indentation, out: &mut String) -> (r: Result<
    (),
    Error,
>)
    ensures
        emitted(old(out)@, final(out)@, r, ops_from(*ctx, ops@, 0, indent)),
    decreases ops@, 0nat,
{
    let ghost mut done: Seq<char> = seq![];
    let mut i: usize = 0;
    while i < ops.len()
        invariant
            i <= ops@.len(),
            out@ == old(out)@ + done,
            ops_from(*ctx, ops@, 0, indent) == cat(
                Ok(done),
                ops_from(*ctx, ops@, i as int, indent),
            ),
        decreases ops.len() - i,
    {
        proof {
            lemma_ops_from(*ctx, ops@, i as int, indent);
        }
        push_newline_indent(indent.level, out);
        let ghost head = newline_text(indent.level as nat);
        assert(out@ =~= old(out)@ + (done + head));
        let r = print_op(ctx, &ops[i], indent, out);
        let ghost t = op_text(*ctx, ops@[i as int], indent);
        let ghost rest = ops_from(*ctx, ops@, i + 1, indent);
        proof {
            assert(ops_from(*ctx, ops@, i as int, indent) == cat(Ok(head), cat(t, rest)));
            assert(emitted(old(out)@ + done + head, out@, r, t));
            lemma_cat_assoc(done, Ok(head), cat(t, rest));
            lemma_cat_assoc(done + head, t, rest);
        }
        if r.is_err() {
            proof {
                lemma_emitted_after(old(out)@, done + head, out@, r, t);
            }
            return r;
        }
        proof {
            assert(out@ =~= old(out)@ + (done + head + t->Ok_0));
            done = done + head + t->Ok_0;
        }
        i += 1;
    }
    proof {
        lemma_ops_from(*ctx, ops@, i as int, indent);
    }
    assert(done + seq![] =~= done);
    Ok(())
}

/// Dispatch to `op`'s translation, printing it at indentation `indent`.
///
/// Fails if `op` has no MLIR translation, or if anything it holds has none.
pub fn print_op(ctx: &Context, op: &Operation, indent: Indentation, out: &mut String) -> (r: Result<
    (),
    Error,
>)
    ensures
        emitted(old(out)@, final(out)@, r, op_text(*ctx, *op, indent)),
    decreases *op, 5nat,
{
    proof {
        reveal(op_translation);
        reveal_with_fuel(crate::error_view, 2);
        lemma_op_text(*ctx, *op, indent);
    }
    match &op.kind {
        OpKind::Module { .. } => builtin::ops::module_to_mlir(ctx, op, indent, out),
        OpKind::BuiltinFunc { .. } => builtin::ops::func_to_mlir(ctx, op, indent, out),
        OpKind::BuiltinConstant { .. } => builtin::ops::constant_to_mlir(ctx, op, indent, out),
        OpKind::Generic { op_id } => print_generic_op(ctx, op, op_id.as_str(), indent, out),
        OpKind::Custom { .. } => custom_to_mlir(ctx, op, indent, out),
        OpKind::Unsupported { op_id } => Err(
            Error::Located(op.location, Box::new(Error::MissingOpTranslation(op_id.clone()))),
        ),
        _ => llvm::ops::llvm_op_to_mlir(ctx, op, indent, out),
    }
}

/// Print `op` using MLIR's generic operation syntax, forwarding every
/// attribute of `op` to MLIR's discardable attribute dictionary.
///
/// The given names are skipped since names are printed as part of the SSA
/// definitions.
pub fn print_generic_op(ctx: &Context, op: &Operation, mnemonic: &str, indent: Indentation, out: &mut String) -> (r:
    Result<(), Error>)
    ensures
        emitted(
            old(out)@,
            final(out)@,
            r,
            generic_text(*ctx, *op, default_translation(*op, mnemonic@), indent),
        ),
    decreases *op, 2nat,
{
    let mut generic = GenericOp::new(op, mnemonic);
    let mut i: usize = 0;
    while i < op.attributes.len()
        invariant
            i <= op.attributes@.len(),
            generic.op_view() == *op,
            generic@ == (GenericOpView {
                attributes: forwarded_attrs(op.attributes@, i as int),
                ..GenericOpView::new(mnemonic@)
            }),
        decreases op.attributes.len() - i,
    {
        let (key, val) = &op.attributes[i];
        // The given names become actual names when translating to MLIR, so
        // they are skipped as attributes.
        if !is_given_names_key(key) {
            generic = generic.attr_attr(key.as_str(), val);
        }
        i += 1;
    }
    generic.print(ctx, indent, out)
}

/// Whether `key` is [given_names_key].
fn is_given_names_key(key: &String) -> (res: bool)
    ensures
        res == (key@ == given_names_key()),
{
    let name = String::from_str("builtin_given_names");
    *key == name
}

/// The dictionary value that `v` gives.
fn dict_entry(v: &DictValue) -> (res: MlirAttr)
    ensures
        mlir_attr_view(res) == dict_value_view(*v),
{
    match v {
        DictValue::Attr(a) => MlirAttr::Attr(a),
        DictValue::Raw(t) => MlirAttr::Raw(t.clone()),
    }
}

/// Print an operation whose translation is its own, as its fields describe.
fn custom_to_mlir(ctx: &Context, op: &Operation, indent: Indentation, out: &mut String) -> (r: Result<
    (),
    Error,
>)
    requires
        op.kind is Custom,
    ensures
        emitted(old(out)@, final(out)@, r, op_text(*ctx, *op, indent)),
    decreases *op, 2nat,
{
    proof {
        reveal(op_translation);
        lemma_op_text(*ctx, *op, indent);
    }
    match &op.kind {
        OpKind::Custom { mnemonic, results, min_regions, properties, attributes } => {
            let ghost want = custom_translation(
                *mnemonic,
                *results,
                *min_regions,
                *properties,
                *attributes,
            );
            let mut g = GenericOp::new(op, mnemonic.as_str());
            match results {
                Some(rs) => {
                    g = g.results(value_refs(rs));
                },
                None => {},
            }
            g = g.min_regions(*min_regions);
            assert(dict_entries_view(properties@.take(0)) =~= seq![]);
            assert(g@ == (GenericOpView {
                properties: dict_entries_view(properties@.take(0)),
                attributes: seq![],
                ..want
            }));
            let mut i: usize = 0;
            while i < properties.len()
                invariant
                    i <= properties@.len(),
                    g.op_view() == *op,
                    g@ == (GenericOpView {
                        properties: dict_entries_view(properties@.take(i as int)),
                        attributes: seq![],
                        ..want
                    }),
                decreases properties.len() - i,
            {
                let (key, value) = &properties[i];
                g = g.prop_entry(key.as_str(), dict_entry(value));
                assert(dict_entries_view(properties@.take(i + 1)) =~= dict_entries_view(
                    properties@.take(i as int),
                ).push((key@, dict_value_view(*value))));
                i += 1;
            }
            assert(properties@.take(i as int) =~= properties@);
            assert(dict_entries_view(attributes@.take(0)) =~= seq![]);
            let mut j: usize = 0;
            while j < attributes.len()
                invariant
                    j <= attributes@.len(),
                    g.op_view() == *op,
                    g@ == (GenericOpView {
                        attributes: dict_entries_view(attributes@.take(j as int)),
                        ..want
                    }),
                decreases attributes.len() - j,
            {
                let (key, value) = &attributes[j];
                g = g.attr_entry(key.as_str(), dict_entry(value));
                assert(dict_entries_view(attributes@.take(j + 1)) =~= dict_entries_view(
                    attributes@.take(j as int),
                ).push((key@, dict_value_view(*value))));
                j += 1;
            }
            assert(attributes@.take(j as int) =~= attributes@);
            assert(g@ == want);
            g.print(ctx, indent, out)
        },
        _ => {
            proof {
                assert(false);
            }
            Err(Error::Fmt)
        },
    }
}

} // verus!
