//! MLIR translation for builtin dialect attributes.

use vstd::prelude::*;

use crate::builtin::types::{integer_type_text, integer_type_to_mlir};
use crate::ir::{ApInt, Attr, Context, IntegerAttr, Signedness};
use crate::printers::{
    attr_text, attrs_from, dense_array_text, dict_entries_from, hex_float_text, ints,
    mlir_dense_array, mlir_hex_float, print_attr,
};
use crate::text::int_decimal;
use crate::{cat, emitted, lemma_emitted_after, Error, ErrorView};

verus! {

/// The value of the little-endian `bytes`.
pub open spec fn le_value(bytes: Seq<u8>) -> nat
    decreases bytes.len(),
{
    if bytes.len() == 0 {
        0
    } else {
        (bytes[0] + 256 * le_value(bytes.drop_first())) as nat
    }
}

/// The integer of `width` bits held by the little-endian `bytes` (truncated
/// or zero extended to `width` bits), read as a two's complement number when
/// `signed` and as an unsigned one otherwise.
pub open spec fn apint_value(bytes: Seq<u8>, width: nat, signed: bool) -> int {
    let u = le_value(bytes) % vstd::arithmetic::power2::pow2(width);
    if signed && width > 0 && u >= vstd::arithmetic::power2::pow2((width - 1) as nat) {
        u - vstd::arithmetic::power2::pow2(width)
    } else {
        u as int
    }
}

/// The decimal text of `v`, read as signed when `signed`.
pub open spec fn apint_text(v: ApInt, signed: bool) -> Seq<char> {
    int_decimal(apint_value(v.bytes_view(), v.width_view(), signed))
}

/// pliron's `APInt::from_u8_slice` followed by `APInt::to_string_decimal`:
/// the integer of `width` bits built from the little-endian `bytes` (truncated
/// or zero extended), as a decimal numeral, read as two's complement when
/// `signed`, with a leading `-` when negative.
#[verifier::external_body]
fn apint_to_decimal(bytes: &Vec<u8>, width: usize, signed: bool) -> (res: String)
    requires
        width > 0,
    ensures
        res@ == int_decimal(apint_value(bytes@, width as nat, signed)),
{
    let width = core::num::NonZero::new(width).unwrap();
    pliron::utils::apint::APInt::from_u8_slice(bytes, width).to_string_decimal(signed)
}

/// Appends [apint_text] of `v` to `out`.
pub fn push_apint(v: &ApInt, signed: bool, out: &mut String)
    ensures
        final(out)@ == old(out)@ + apint_text(*v, signed),
{
    let text = apint_to_decimal(v.bytes(), v.width(), signed);
    out.append(text.as_str());
}

/// `<value> : <type>`, MLIR's IntegerAttr.
pub open spec fn integer_attr_text(a: IntegerAttr) -> Seq<char> {
    apint_text(a.value, a.ty.signedness == Signedness::Signed) + " : "@ + integer_type_text(
        a.ty.width,
        a.ty.signedness,
    )
}

/// Appends [integer_attr_text] to `out`.
pub fn integer_attr_to_mlir(a: &IntegerAttr, out: &mut String)
    ensures
        final(out)@ == old(out)@ + integer_attr_text(*a),
{
    let signed = match a.ty.signedness {
        Signedness::Signed => true,
        _ => false,
    };
    push_apint(&a.value, signed, out);
    out.append(" : ");
    integer_type_to_mlir(a.ty.width, a.ty.signedness, out);
    assert(out@ =~= old(out)@ + integer_attr_text(*a));
}

/// The byte `b` read as a signed `i8`.
pub open spec fn i8_value(b: u8) -> int {
    if b >= 128 {
        b - 256
    } else {
        b as int
    }
}

/// `bytes` read as signed bytes.
pub open spec fn i8_values(bytes: Seq<u8>) -> Seq<int> {
    bytes.map_values(|b: u8| i8_value(b))
}

/// `true` or `false`.
pub open spec fn bool_text(b: bool) -> Seq<char> {
    if b {
        "true"@
    } else {
        "false"@
    }
}

/// `array<i8: ...>`, MLIR's `DenseI8ArrayAttr`.
pub fn bytes_attr_to_mlir(bytes: &Vec<u8>, out: &mut String)
    ensures
        final(out)@ == old(out)@ + dense_array_text("i8"@, i8_values(bytes@)),
{
    // MLIR's i8 array elements are signed, so reinterpret each byte.
    let mut elems: Vec<i64> = Vec::new();
    let mut i: usize = 0;
    while i < bytes.len()
        invariant
            i <= bytes@.len(),
            elems@.len() == i,
            forall|j: int| 0 <= j < i ==> elems@[j] as int == i8_value(bytes@[j]),
        decreases bytes.len() - i,
    {
        let b = bytes[i];
        let v: i64 = if b >= 128 {
            b as i64 - 256
        } else {
            b as i64
        };
        elems.push(v);
        i += 1;
    }
    assert(ints(elems@) =~= i8_values(bytes@));
    let text = mlir_dense_array("i8", elems.as_slice());
    out.append(text.as_str());
}

/// `u32`s as mathematical integers.
pub open spec fn u32_values(v: Seq<u32>) -> Seq<int> {
    v.map_values(|x: u32| x as int)
}

/// `v` widened to `i64`.
pub fn widen_u32s(v: &Vec<u32>) -> (res: Vec<i64>)
    ensures
        ints(res@) == u32_values(v@),
{
    let mut res: Vec<i64> = Vec::new();
    let mut i: usize = 0;
    while i < v.len()
        invariant
            i <= v@.len(),
            res@.len() == i,
            forall|j: int| 0 <= j < i ==> res@[j] as int == v@[j] as int,
        decreases v.len() - i,
    {
        res.push(v[i] as i64);
        i += 1;
    }
    assert(ints(res@) =~= u32_values(v@));
    res
}

/// Appends `dense_array_text(elem_type, v)` for `u32` elements to `out`.
pub fn push_u32_array(elem_type: &str, v: &Vec<u32>, out: &mut String)
    ensures
        final(out)@ == old(out)@ + dense_array_text(elem_type@, u32_values(v@)),
{
    let elems = widen_u32s(v);
    let text = mlir_dense_array(elem_type, elems.as_slice());
    out.append(text.as_str());
}

/// Appends the hexadecimal float literal of `bits` and then `suffix`.
fn push_hex_float(bits: u128, bit_width: usize, suffix: &str, out: &mut String)
    ensures
        final(out)@ == old(out)@ + hex_float_text(bits as nat, bit_width as nat) + suffix@,
{
    let text = mlir_hex_float(bits, bit_width);
    out.append(text.as_str());
    out.append(suffix);
}

/// `0xHHHH : f16`.
pub fn fp_half_attr_to_mlir(bits: u16, out: &mut String)
    ensures
        final(out)@ == old(out)@ + hex_float_text(bits as nat, 16) + " : f16"@,
{
    push_hex_float(bits as u128, 16, " : f16", out);
}

/// `0xHHHHHHHH : f32`.
pub fn fp_single_attr_to_mlir(bits: u32, out: &mut String)
    ensures
        final(out)@ == old(out)@ + hex_float_text(bits as nat, 32) + " : f32"@,
{
    push_hex_float(bits as u128, 32, " : f32", out);
}

/// `0xHHHHHHHHHHHHHHHH : f64`.
pub fn fp_double_attr_to_mlir(bits: u64, out: &mut String)
    ensures
        final(out)@ == old(out)@ + hex_float_text(bits as nat, 64) + " : f64"@,
{
    push_hex_float(bits as u128, 64, " : f64", out);
}

/// `{key = value, ...}`, MLIR's DictionaryAttr.
pub fn dict_attr_to_mlir(ctx: &Context, a: &Attr, out: &mut String) -> (r: Result<(), Error>)
    requires
        a is Dict,
    ensures
        emitted(old(out)@, final(out)@, r, attr_text(*ctx, *a)),
    decreases *a, 0nat,
{
    match a {
        Attr::Dict(entries) => {
            let ghost d = dict_entries_from(*ctx, entries@, 0);
            out.append("{");
            let r = print_dict_entries(ctx, entries, out);
            if r.is_err() {
                proof {
                    lemma_emitted_after(old(out)@, "{"@, out@, r, d);
                }
                return r;
            }
            out.append("}");
            let ghost whole = attr_text(*ctx, *a);
            assert(whole == cat(Ok("{"@), cat(d, Ok("}"@))));
            assert(out@ =~= old(out)@ + ("{"@ + d->Ok_0 + "}"@));
            assert(whole->Ok_0 =~= "{"@ + d->Ok_0 + "}"@);
            Ok(())
        },
        _ => {
            proof {
                assert(false);
            }
            Ok(())
        },
    }
}

/// The `key = value` entries of a dictionary, separated by `, `.
fn print_dict_entries(ctx: &Context, entries: &Vec<(String, Attr)>, out: &mut String) -> (r: Result<
    (),
    Error,
>)
    ensures
        emitted(old(out)@, final(out)@, r, dict_entries_from(*ctx, entries@, 0)),
    decreases entries@, 0nat,
{
    let ghost start = out@;
    let ghost mut done: Seq<char> = seq![];
    let mut i: usize = 0;
    while i < entries.len()
        invariant
            i <= entries@.len(),
            out@ == start + done,
            start == old(out)@,
            dict_entries_from(*ctx, entries@, 0) == cat(
                Ok(done),
                dict_entries_from(*ctx, entries@, i as int),
            ),
        decreases entries.len() - i,
    {
        let ghost before = out@;
        if i > 0 {
            out.append(", ");
        }
        out.append(entries[i].0.as_str());
        out.append(" = ");
        let ghost head: Seq<char> = (if i > 0 {
            ", "@
        } else {
            seq![]
        }) + entries@[i as int].0@ + " = "@;
        assert(out@ =~= before + head);
        assert(out@ =~= start + (done + head));
        let r = print_attr(ctx, &entries[i].1, out);
        let ghost t = attr_text(*ctx, entries@[i as int].1);
        let ghost rest = dict_entries_from(*ctx, entries@, i + 1);
        proof {
            crate::printers::lemma_cat_assoc(done, Ok(head), cat(t, rest));
            crate::printers::lemma_cat_assoc(done + head, t, rest);
        }
        if r.is_err() {
            proof {
                lemma_emitted_after(start, done + head, out@, r, t);
            }
            return r;
        }
        proof {
            assert(out@ =~= start + (done + head + t->Ok_0));
            done = done + head + t->Ok_0;
        }
        i += 1;
    }
    assert(done + seq![] =~= done);
    Ok(())
}

/// `[value, ...]`, MLIR's ArrayAttr.
pub fn vec_attr_to_mlir(ctx: &Context, a: &Attr, out: &mut String) -> (r: Result<(), Error>)
    requires
        a is Vec,
    ensures
        emitted(old(out)@, final(out)@, r, attr_text(*ctx, *a)),
    decreases *a, 0nat,
{
    match a {
        Attr::Vec(attrs) => {
            let ghost d = attrs_from(*ctx, attrs@, 0);
            out.append("[");
            let r = print_attr_list(ctx, attrs, out);
            if r.is_err() {
                proof {
                    lemma_emitted_after(old(out)@, "["@, out@, r, d);
                }
                return r;
            }
            out.append("]");
            let ghost whole = attr_text(*ctx, *a);
            assert(whole == cat(Ok("["@), cat(d, Ok("]"@))));
            assert(out@ =~= old(out)@ + ("["@ + d->Ok_0 + "]"@));
            assert(whole->Ok_0 =~= "["@ + d->Ok_0 + "]"@);
            Ok(())
        },
        _ => {
            proof {
                assert(false);
            }
            Ok(())
        },
    }
}

/// The attributes `attrs`, separated by `, `.
fn print_attr_list(ctx: &Context, attrs: &Vec<Attr>, out: &mut String) -> (r: Result<(), Error>)
    ensures
        emitted(old(out)@, final(out)@, r, attrs_from(*ctx, attrs@, 0)),
    decreases attrs@, 0nat,
{
    let ghost start = out@;
    let ghost mut done: Seq<char> = seq![];
    let mut i: usize = 0;
    while i < attrs.len()
        invariant
            i <= attrs@.len(),
            out@ == start + done,
            start == old(out)@,
            attrs_from(*ctx, attrs@, 0) == cat(Ok(done), attrs_from(*ctx, attrs@, i as int)),
        decreases attrs.len() - i,
    {
        let ghost before = out@;
        if i > 0 {
            out.append(", ");
        }
        let ghost head: Seq<char> = if i > 0 {
            ", "@
        } else {
            seq![]
        };
        assert(out@ =~= before + head);
        assert(out@ =~= start + (done + head));
        let r = print_attr(ctx, &attrs[i], out);
        let ghost t = attr_text(*ctx, attrs@[i as int]);
        let ghost rest = attrs_from(*ctx, attrs@, i + 1);
        proof {
            crate::printers::lemma_cat_assoc(done, Ok(head), cat(t, rest));
            crate::printers::lemma_cat_assoc(done + head, t, rest);
        }
        if r.is_err() {
            proof {
                lemma_emitted_after(start, done + head, out@, r, t);
            }
            return r;
        }
        proof {
            assert(out@ =~= start + (done + head + t->Ok_0));
            done = done + head + t->Ok_0;
        }
        i += 1;
    }
    assert(done + seq![] =~= done);
    Ok(())
}

} // verus!
