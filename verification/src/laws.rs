//! Properties of the translation that hold for every input: what the printed
//! literals read back as, what MLIR reads back from the printed enum values,
//! linkage keywords, flags and mnemonics, and what the op translations keep
//! of the IR.

use vstd::prelude::*;

use crate::builtin::attributes::{apint_value, le_value};
use crate::builtin::types::integer_type_text;
use crate::ir::{
    seq_total, Attr, AtomicOrderingAttr, AtomicRmwKindAttr, Context, FCmpPredicateAttr, GepIndexAttr,
    ICmpPredicateAttr, IntegerAttr, LinkageAttr, NNegOp, OpKind, DirectOp, OverflowOp, FastmathOp,
    FastmathFlags, Operation, Region, Signedness, Value,
};
use crate::llvm::attributes::{
    fastmath_names, flag_if, flags_text, has_flag, overflow_names, float_predicate_value, int_predicate_value, linkage_keyword_spec, linkage_text, ordering_value,
    rmw_kind_value,
};
use crate::ErrorView;
use vstd::arithmetic::power2::pow2;
use crate::llvm::attributes::{as_i32, gep_raw, gep_raw_from, GEP_DYNAMIC_INDEX};
use crate::llvm::ops::{non_void, switch_case_segments, switch_head_len, switch_operand_segments};
use crate::printers::{
    Indentation,
    escaped_byte, escaped_bytes, forwarded_attrs, given_names_key, hex_float_text,
    lemma_op_regions_text, lemma_op_text, max_nat, op_regions_text, op_text, op_translation,
    string_literal_text, attr_text, GenericOpView, MlirAttrView,
};
use crate::text::{int_decimal, digit_char, hex_padded, lemma_hex_len_below, nat_decimal, nat_hex, pow16, repeat_char};

verus! {

// ---------------------------------------------------------------------------
// String literals
// ---------------------------------------------------------------------------

/// Whether `c` is printable ASCII (space to `~`).
pub open spec fn is_printable_ascii(c: char) -> bool {
    0x20 <= (c as u32) <= 0x7E
}

/// The value of a hexadecimal digit, in either case.
pub open spec fn hex_digit_value(c: char) -> Option<nat> {
    let v = c as u32;
    if 48 <= v <= 57 {
        Some((v - 48) as nat)
    } else if 65 <= v <= 70 {
        Some((v - 55) as nat)
    } else if 97 <= v <= 102 {
        Some((v - 87) as nat)
    } else {
        None
    }
}

/// The byte that `\c` stands for, if `c` is one of MLIR's single-character
/// escapes.
pub open spec fn simple_escape(c: char) -> Option<u8> {
    if c == '"' {
        Some(0x22u8)
    } else if c == '\\' {
        Some(0x5Cu8)
    } else if c == 'n' {
        Some(0x0Au8)
    } else if c == 't' {
        Some(0x09u8)
    } else {
        None
    }
}

/// `b` in front of the bytes of `r`, if `r` has any.
pub open spec fn cons_byte(b: u8, r: Option<Seq<u8>>) -> Option<Seq<u8>> {
    match r {
        Some(t) => Some(seq![b] + t),
        None => None,
    }
}

/// The bytes that the body `s` of an MLIR string literal stands for, as
/// MLIR's lexer reads it: `\"`, `\\`, `\n`, `\t` and `\` followed by two hex
/// digits are escapes, and any other printable ASCII character but `"` and
/// `\` stands for itself. `None` if `s` is not such a body.
pub open spec fn unescape(s: Seq<char>) -> Option<Seq<u8>>
    decreases s.len(),
{
    if s.len() == 0 {
        Some(seq![])
    } else if s[0] == '\\' {
        if s.len() >= 2 && simple_escape(s[1]) is Some {
            cons_byte(simple_escape(s[1])->0, unescape(s.skip(2)))
        } else if s.len() >= 3 && hex_digit_value(s[1]) is Some && hex_digit_value(s[2]) is Some {
            cons_byte(
                (hex_digit_value(s[1])->0 * 16 + hex_digit_value(s[2])->0) as u8,
                unescape(s.skip(3)),
            )
        } else {
            None
        }
    } else if is_printable_ascii(s[0]) && s[0] != '"' {
        cons_byte(s[0] as u8, unescape(s.skip(1)))
    } else {
        None
    }
}

/// Every digit character reads back as its digit.
proof fn lemma_digit_char_value(d: nat)
    requires
        d < 16,
    ensures
        hex_digit_value(crate::text::digit_char(d)) == Some(d),
        simple_escape(crate::text::digit_char(d)) is None,
        is_printable_ascii(crate::text::digit_char(d)),
{
}

/// The escape of `b` reads back as `b`, whatever follows it.
proof fn lemma_unescape_escaped_byte(b: u8, rest: Seq<char>)
    ensures
        unescape(escaped_byte(b) + rest) == cons_byte(b, unescape(rest)),
{
    let t = escaped_byte(b) + rest;
    let e = escaped_byte(b);
    if b == 0x22 || b == 0x5C || b == 0x0A || b == 0x09 {
        assert(t[0] == '\\');
        assert(t[1] == e[1]);
        assert(t.skip(2) =~= rest);
    } else if 0x20 <= b <= 0x7E {
        assert(t[0] == b as char);
        assert(t.skip(1) =~= rest);
        assert((b as char) as u8 == b);
    } else {
        lemma_digit_char_value((b / 16) as nat);
        lemma_digit_char_value((b % 16) as nat);
        assert(t[0] == '\\');
        assert(t[1] == crate::text::digit_char((b / 16) as nat));
        assert(t[2] == crate::text::digit_char((b % 16) as nat));
        assert(t.skip(3) =~= rest);
        assert(((b / 16) as nat * 16 + (b % 16) as nat) as u8 == b);
    }
}

/// [escaped_bytes], taken apart at the front.
proof fn lemma_escaped_bytes_front(bytes: Seq<u8>)
    requires
        bytes.len() > 0,
    ensures
        escaped_bytes(bytes) == escaped_byte(bytes[0]) + escaped_bytes(bytes.drop_first()),
    decreases bytes.len(),
{
    if bytes.len() == 1 {
        assert(bytes.drop_last() =~= seq![]);
        assert(bytes.drop_first() =~= seq![]);
        assert(escaped_bytes(bytes) =~= escaped_byte(bytes[0]) + escaped_bytes(bytes.drop_first()));
    } else {
        lemma_escaped_bytes_front(bytes.drop_last());
        assert(bytes.drop_last().drop_first() =~= bytes.drop_first().drop_last());
        assert(bytes.drop_first().last() == bytes.last());
        assert(bytes.drop_last()[0] == bytes[0]);
        assert(escaped_bytes(bytes) =~= escaped_byte(bytes[0]) + escaped_bytes(bytes.drop_first()));
    }
}

/// Every character of an escaped body is printable ASCII.
proof fn lemma_escaped_bytes_printable(bytes: Seq<u8>)
    ensures
        forall|i: int|
            0 <= i < escaped_bytes(bytes).len() ==> is_printable_ascii(
                #[trigger] escaped_bytes(bytes)[i],
            ),
    decreases bytes.len(),
{
    if bytes.len() > 0 {
        lemma_escaped_bytes_printable(bytes.drop_last());
        let b = bytes.last();
        if !(b == 0x22 || b == 0x5C || b == 0x0A || b == 0x09 || (0x20 <= b <= 0x7E)) {
            lemma_digit_char_value((b / 16) as nat);
            lemma_digit_char_value((b % 16) as nat);
        }
        let prefix = escaped_bytes(bytes.drop_last());
        let e = escaped_byte(b);
        assert forall|i: int| 0 <= i < escaped_bytes(bytes).len() implies is_printable_ascii(
            #[trigger] escaped_bytes(bytes)[i],
        ) by {
            if i >= prefix.len() {
                assert(escaped_bytes(bytes)[i] == e[i - prefix.len()]);
            } else {
                assert(escaped_bytes(bytes)[i] == prefix[i]);
            }
        }
    }
}

/// Escaped bytes read back as those bytes.
proof fn lemma_unescape_escaped_bytes(bytes: Seq<u8>)
    ensures
        unescape(escaped_bytes(bytes)) == Some(bytes),
    decreases bytes.len(),
{
    if bytes.len() == 0 {
        assert(escaped_bytes(bytes) =~= seq![]);
    } else {
        lemma_escaped_bytes_front(bytes);
        lemma_unescape_escaped_bytes(bytes.drop_first());
        lemma_unescape_escaped_byte(bytes[0], escaped_bytes(bytes.drop_first()));
        assert(seq![bytes[0]] + bytes.drop_first() =~= bytes);
    }
}

/// An MLIR string literal reads back as the bytes it was made from: it is a
/// body between double quotes, every character of it printable ASCII, and
/// MLIR's escapes in the body stand for exactly those bytes.
pub proof fn lemma_string_literal_reads_back(bytes: Seq<u8>)
    ensures
        ({
            let lit = string_literal_text(bytes);
            &&& lit.len() >= 2
            &&& lit[0] == '"'
            &&& lit[lit.len() - 1] == '"'
            &&& unescape(lit.subrange(1, lit.len() - 1)) == Some(bytes)
            &&& forall|i: int| 0 <= i < lit.len() ==> is_printable_ascii(#[trigger] lit[i])
        }),
{
    let body = escaped_bytes(bytes);
    let lit = string_literal_text(bytes);
    lemma_unescape_escaped_bytes(bytes);
    lemma_escaped_bytes_printable(bytes);
    assert(lit.subrange(1, lit.len() - 1) =~= body);
    assert forall|i: int| 0 <= i < lit.len() implies is_printable_ascii(#[trigger] lit[i]) by {
        if 1 <= i < lit.len() - 1 {
            assert(lit[i] == body[i - 1]);
        }
    }
}

// ---------------------------------------------------------------------------
// Results of ops that produce nothing
// ---------------------------------------------------------------------------

/// Whether `v` is of a type other than void.
pub open spec fn not_void(v: Value) -> bool {
    !(v.ty is Void)
}

/// The results that MLIR gives an op are its results but those of void
/// type, in order: nothing else is dropped, and no void result is kept.
pub proof fn lemma_non_void_keeps_the_rest(vals: Seq<Value>)
    ensures
        non_void(vals) == vals.filter(|v: Value| not_void(v)),
        forall|i: int| 0 <= i < non_void(vals).len() ==> not_void(#[trigger] non_void(vals)[i]),
    decreases vals.len(),
{
    broadcast use vstd::seq_lib::group_filter_ensures;

    reveal_with_fuel(Seq::<Value>::filter, 1);
    if vals.len() > 0 {
        lemma_non_void_keeps_the_rest(vals.drop_last());
    }
    let pred = |v: Value| not_void(v);
    assert(non_void(vals) == vals.filter(pred));
}

// ---------------------------------------------------------------------------
// Switch operand segments
// ---------------------------------------------------------------------------

/// The totals of a split sequence add up.
proof fn lemma_seq_total_split(s: Seq<u32>, k: int)
    requires
        0 <= k <= s.len(),
    ensures
        seq_total(s.take(k)) + seq_total(s.skip(k)) == seq_total(s),
    decreases s.len(),
{
    if k == s.len() {
        assert(s.take(k) =~= s);
        assert(s.skip(k) =~= seq![]);
    } else {
        lemma_seq_total_split(s.drop_last(), k);
        assert(s.drop_last().take(k) =~= s.take(k));
        assert(s.skip(k).drop_last() =~= s.drop_last().skip(k));
        assert(s.skip(k).last() == s.last());
    }
}

/// A switch's MLIR operand segments account for the same operands as its
/// own: the condition's and the default destination's segments are kept as
/// they are, and one more segment holds all the cases' operands, which the
/// case segments size one by one.
pub proof fn lemma_switch_segments_keep_operands(s: Seq<u32>)
    ensures
        ({
            let k = switch_head_len(s);
            let segs = switch_operand_segments(s);
            &&& segs.len() == k + 1
            &&& forall|i: int| 0 <= i < k ==> segs[i] == s[i] as int
            &&& seq_total(s.take(k)) + segs[k] == seq_total(s)
            &&& segs[k] == seq_total(switch_case_segments(s))
        }),
{
    lemma_seq_total_split(s, switch_head_len(s));
}

// ---------------------------------------------------------------------------
// GEP indices
// ---------------------------------------------------------------------------

/// The raw bits of the signed `i32` `v`.
pub open spec fn i32_bits(v: int) -> u32 {
    if v < 0 {
        (v + 0x1_0000_0000) as u32
    } else {
        v as u32
    }
}

/// The GEP indices that MLIR's `rawConstantIndices` `raw` stand for, when
/// the next dynamic index takes operand `next`: the marker takes the next
/// operand, anything else is a constant.
pub open spec fn gep_indices_from_raw(raw: Seq<int>, next: nat) -> Seq<GepIndexAttr>
    decreases raw.len(),
{
    if raw.len() == 0 {
        seq![]
    } else if raw[0] == GEP_DYNAMIC_INDEX as int {
        seq![GepIndexAttr::OperandIdx(next as usize)] + gep_indices_from_raw(raw.drop_first(), next + 1)
    } else {
        seq![GepIndexAttr::Constant(i32_bits(raw[0]))] + gep_indices_from_raw(raw.drop_first(), next)
    }
}

/// [lemma_gep_indices_read_back], from index `i` on.
proof fn lemma_gep_raw_from_reads_back(indices: Seq<GepIndexAttr>, i: int, next: int)
    requires
        0 <= i <= indices.len(),
        next >= 1,
        gep_raw_from(indices, i, next) is Ok,
    ensures
        gep_raw_from(indices, i, next)->Ok_0.len() == indices.len() - i,
        gep_indices_from_raw(gep_raw_from(indices, i, next)->Ok_0, next as nat) == indices.skip(i),
    decreases indices.len() - i,
{
    if i < indices.len() {
        let raw = gep_raw_from(indices, i, next)->Ok_0;
        match indices[i] {
            GepIndexAttr::Constant(c) => {
                lemma_gep_raw_from_reads_back(indices, i + 1, next);
                let rest = gep_raw_from(indices, i + 1, next)->Ok_0;
                assert(raw == seq![as_i32(c)] + rest);
                assert(raw.drop_first() =~= rest);
                assert(i32_bits(as_i32(c)) == c);
            },
            GepIndexAttr::OperandIdx(idx) => {
                lemma_gep_raw_from_reads_back(indices, i + 1, next + 1);
                let rest = gep_raw_from(indices, i + 1, next + 1)->Ok_0;
                assert(raw == seq![GEP_DYNAMIC_INDEX as int] + rest);
                assert(raw.drop_first() =~= rest);
                assert(idx == next);
            },
        }
        assert(indices.skip(i) =~= seq![indices[i]] + indices.skip(i + 1));
    } else {
        assert(indices.skip(i) =~= seq![]);
    }
}

/// MLIR's `rawConstantIndices` lose nothing of the GEP indices they are
/// made from: with the dynamic indices taking the operands from 1 on, in
/// order, they read back as exactly those indices.
pub proof fn lemma_gep_indices_read_back(indices: Seq<GepIndexAttr>)
    requires
        gep_raw(indices) is Ok,
    ensures
        gep_indices_from_raw(gep_raw(indices)->Ok_0, 1) == indices,
{
    lemma_gep_raw_from_reads_back(indices, 0, 1);
    assert(indices.skip(0) =~= indices);
}

// ---------------------------------------------------------------------------
// Numerals
// ---------------------------------------------------------------------------

/// The number that the decimal digits `s` spell.
pub open spec fn decimal_value(s: Seq<char>) -> int
    decreases s.len(),
{
    if s.len() == 0 {
        0
    } else {
        decimal_value(s.drop_last()) * 10 + ((s.last() as u32) - 48)
    }
}

/// The number that the hexadecimal digits `s` spell.
pub open spec fn hex_value(s: Seq<char>) -> int
    decreases s.len(),
{
    if s.len() == 0 {
        0
    } else {
        hex_value(s.drop_last()) * 16 + match hex_digit_value(s.last()) {
            Some(d) => d as int,
            None => 0,
        }
    }
}

/// A decimal numeral reads back as its number, and is made of digits only.
pub proof fn lemma_decimal_reads_back(n: nat)
    ensures
        decimal_value(nat_decimal(n)) == n,
        forall|i: int|
            0 <= i < nat_decimal(n).len() ==> 48 <= (#[trigger] nat_decimal(n)[i] as u32) <= 57,
    decreases n,
{
    let s = nat_decimal(n);
    assert(digit_char(n % 10) as u32 == 48 + n % 10);
    if n < 10 {
        assert(s.drop_last() =~= seq![]);
        assert(decimal_value(s) == decimal_value(s.drop_last()) * 10 + ((s.last() as u32) - 48));
    } else {
        lemma_decimal_reads_back(n / 10);
        assert(s.drop_last() =~= nat_decimal(n / 10));
        assert(s.last() == digit_char(n % 10));
        assert(decimal_value(s) == decimal_value(s.drop_last()) * 10 + ((s.last() as u32) - 48));
        assert(n == (n / 10) * 10 + n % 10);
        assert forall|i: int| 0 <= i < s.len() implies 48 <= (#[trigger] s[i] as u32) <= 57 by {
            if i < s.len() - 1 {
                assert(s[i] == nat_decimal(n / 10)[i]);
            }
        }
    }
}

/// A hexadecimal numeral reads back as its number.
proof fn lemma_hex_reads_back(n: nat)
    ensures
        hex_value(nat_hex(n)) == n,
    decreases n,
{
    lemma_digit_char_value(n % 16);
    let s = nat_hex(n);
    if n < 16 {
        assert(s.drop_last() =~= seq![]);
        assert(s.last() == digit_char(n));
        assert(hex_value(s) == hex_value(s.drop_last()) * 16 + n);
    } else {
        lemma_hex_reads_back(n / 16);
        assert(s.drop_last() =~= nat_hex(n / 16));
        assert(s.last() == digit_char(n % 16));
        assert(hex_value(s) == hex_value(s.drop_last()) * 16 + n % 16);
        assert(n == (n / 16) * 16 + n % 16);
    }
}

/// Leading zeros do not change what hexadecimal digits spell.
proof fn lemma_hex_leading_zeros(k: nat, s: Seq<char>)
    ensures
        hex_value(repeat_char('0', k) + s) == hex_value(s),
    decreases s.len(), k,
{
    if s.len() == 0 {
        assert(repeat_char('0', k) + s =~= repeat_char('0', k));
        if k > 0 {
            assert(repeat_char('0', k).drop_last() =~= repeat_char('0', (k - 1) as nat));
            lemma_hex_leading_zeros((k - 1) as nat, s);
            assert(repeat_char('0', (k - 1) as nat) + s =~= repeat_char('0', (k - 1) as nat));
        }
    } else {
        lemma_hex_leading_zeros(k, s.drop_last());
        assert((repeat_char('0', k) + s).drop_last() =~= repeat_char('0', k) + s.drop_last());
        assert((repeat_char('0', k) + s).last() == s.last());
    }
}

/// A hexadecimal float literal of a `bit_width`-bit float whose `bits` fit
/// in it has exactly `bit_width / 4` digits after `0x`, which read back as
/// `bits`.
pub proof fn lemma_hex_float_reads_back(bits: nat, bit_width: nat)
    requires
        bit_width / 4 >= 1,
        bits < pow16(bit_width / 4),
    ensures
        ({
            let lit = hex_float_text(bits, bit_width);
            &&& lit.len() == 2 + bit_width / 4
            &&& lit[0] == '0'
            &&& lit[1] == 'x'
            &&& hex_value(lit.skip(2)) == bits
        }),
{
    let k = bit_width / 4;
    lemma_hex_len_below(bits, k);
    lemma_hex_reads_back(bits);
    let digits = nat_hex(bits);
    let lit = hex_float_text(bits, bit_width);
    assert(lit.skip(2) =~= hex_padded(bits, k));
    if digits.len() < k {
        lemma_hex_leading_zeros((k - digits.len()) as nat, digits);
    }
}

// ---------------------------------------------------------------------------
// Operations
// ---------------------------------------------------------------------------

/// Whether the attribute entry `e` is forwarded by the default translation:
/// all but the given names are.
pub open spec fn is_forwarded(e: (String, Attr)) -> bool {
    e.0@ != given_names_key()
}

/// The dictionary entry of a forwarded attribute.
pub open spec fn forwarded_entry(e: (String, Attr)) -> (Seq<char>, MlirAttrView) {
    (e.0@, MlirAttrView::Attr(e.1))
}

/// [lemma_default_translation_forwards], for the first `n` attributes.
proof fn lemma_forwarded_prefix(attributes: Seq<(String, Attr)>, n: int)
    requires
        0 <= n <= attributes.len(),
    ensures
        forwarded_attrs(attributes, n) == attributes.take(n).filter(|e: (String, Attr)| is_forwarded(e)).map_values(
            |e: (String, Attr)| forwarded_entry(e),
        ),
    decreases n,
{
    reveal_with_fuel(Seq::<(String, Attr)>::filter, 1);
    let pred = |e: (String, Attr)| is_forwarded(e);
    let f = |e: (String, Attr)| forwarded_entry(e);
    if n == 0 {
        assert(attributes.take(0).filter(pred) =~= seq![]);
        assert(attributes.take(0).filter(pred).map_values(f) =~= seq![]);
    } else {
        lemma_forwarded_prefix(attributes, n - 1);
        let t = attributes.take(n);
        assert(t.drop_last() =~= attributes.take(n - 1));
        assert(t.last() == attributes[n - 1]);
        let sub = attributes.take(n - 1).filter(pred);
        if pred(t.last()) {
            assert(t.filter(pred) == sub.push(t.last()));
            assert(sub.push(t.last()).map_values(f) =~= sub.map_values(f).push(f(t.last())));
        } else {
            assert(t.filter(pred) == sub);
        }
    }
}

/// The default translation forwards exactly the attributes of the op but its
/// given names, in order, as discardable attributes; and nothing else.
pub proof fn lemma_default_translation_forwards(op: crate::ir::Operation, mnemonic: Seq<char>)
    ensures
        crate::printers::default_translation(op, mnemonic) == (GenericOpView {
            attributes: op.attributes@.filter(|e: (String, Attr)| is_forwarded(e)).map_values(
                |e: (String, Attr)| forwarded_entry(e),
            ),
            ..GenericOpView::new(mnemonic)
        }),
{
    lemma_forwarded_prefix(op.attributes@, op.attributes@.len() as int);
    assert(op.attributes@.take(op.attributes@.len() as int) =~= op.attributes@);
}

/// An optional dictionary entry is the entry when there is one, and nothing
/// when there is none.
pub proof fn lemma_optional_entries(g: GenericOpView, name: Seq<char>, a: Attr, text: Seq<char>)
    ensures
        g.prop_opt(name, None) == g,
        g.prop_opt(name, Some(a)) == g.prop(name, a),
        g.prop_raw_opt(name, None) == g,
        g.prop_raw_opt(name, Some(text)) == g.prop_raw(name, text),
{
}

/// Padding regions only adds the regions that an op lacks: an op with at
/// least `min` regions prints them as if there were no minimum.
pub proof fn lemma_min_regions_only_pads(ctx: Context, rs: Seq<Region>, min: nat, indent: Indentation)
    requires
        min <= rs.len(),
    ensures
        op_regions_text(ctx, rs, min, indent) == op_regions_text(ctx, rs, 0, indent),
{
    lemma_op_regions_text(ctx, rs, min, indent);
    lemma_op_regions_text(ctx, rs, 0, indent);
    assert(max_nat(rs.len(), min) == max_nat(rs.len(), 0));
}

/// MLIR always spells the linkage out: a function without a linkage is
/// printed exactly as if its linkage were external.
pub proof fn lemma_unset_function_linkage_is_external(
    ctx: Context,
    op: Operation,
    sym_name: String,
    func_type: crate::ir::Ty,
    indent: Indentation,
)
    requires
        op.kind == (OpKind::Func { sym_name, func_type, linkage: None }),
    ensures
        op_text(ctx, op, indent) == op_text(
            ctx,
            Operation {
                kind: OpKind::Func {
                    sym_name,
                    func_type,
                    linkage: Some(LinkageAttr::ExternalLinkage),
                },
                ..op
            },
            indent,
        ),
{
    let external = Operation {
        kind: OpKind::Func { sym_name, func_type, linkage: Some(LinkageAttr::ExternalLinkage) },
        ..op
    };
    reveal(op_translation);
    lemma_op_text(ctx, op, indent);
    lemma_op_text(ctx, external, indent);
    crate::printers::lemma_generic_text(ctx, op, op_translation(op)->Ok_0, indent);
    crate::printers::lemma_generic_text(ctx, external, op_translation(external)->Ok_0, indent);
}

/// MLIR always spells the linkage out: a global without a linkage is printed
/// exactly as if its linkage were external.
pub proof fn lemma_unset_global_linkage_is_external(
    ctx: Context,
    op: Operation,
    sym_name: String,
    global_type: crate::ir::Ty,
    address_space: u32,
    initializer: Option<Attr>,
    alignment: Option<u32>,
    indent: Indentation,
)
    requires
        op.kind == (OpKind::Global {
            sym_name,
            global_type,
            linkage: None,
            address_space,
            initializer,
            alignment,
        }),
    ensures
        op_text(ctx, op, indent) == op_text(
            ctx,
            Operation {
                kind: OpKind::Global {
                    sym_name,
                    global_type,
                    linkage: Some(LinkageAttr::ExternalLinkage),
                    address_space,
                    initializer,
                    alignment,
                },
                ..op
            },
            indent,
        ),
{
    let external = Operation {
        kind: OpKind::Global {
            sym_name,
            global_type,
            linkage: Some(LinkageAttr::ExternalLinkage),
            address_space,
            initializer,
            alignment,
        },
        ..op
    };
    reveal(op_translation);
    lemma_op_text(ctx, op, indent);
    lemma_op_text(ctx, external, indent);
    crate::printers::lemma_generic_text(ctx, op, op_translation(op)->Ok_0, indent);
    crate::printers::lemma_generic_text(ctx, external, op_translation(external)->Ok_0, indent);
}

// ---------------------------------------------------------------------------
// Integer attributes
// ---------------------------------------------------------------------------

/// The value of an integer attribute's bits, as the unsigned number they
/// spell: the little-endian bytes, cut to the type's width.
pub open spec fn bits_unsigned(a: IntegerAttr) -> nat {
    le_value(a.value.bytes_view()) % pow2(a.value.width_view())
}

/// An integer attribute prints the value of its bits under its type's
/// signedness: for an unsigned or signless type the plain decimal numeral of
/// the bits' unsigned value, which is never negative; for a signed type the
/// numeral of the one integer in `[-2^(w-1), 2^(w-1))` that the bits spell
/// in two's complement. The type follows after ` : `.
pub proof fn lemma_integer_attr_reads_signedness(ctx: Context, a: IntegerAttr)
    ensures
        a.ty.signedness != Signedness::Signed ==> attr_text(ctx, Attr::Integer(a)) == Ok::<
            Seq<char>,
            (Seq<char>, ErrorView),
        >(
            nat_decimal(bits_unsigned(a)) + " : "@ + integer_type_text(a.ty.width, a.ty.signedness),
        ),
        a.ty.signedness == Signedness::Signed && a.value.width_view() > 0 ==> ({
            let w = a.value.width_view();
            let v = apint_value(a.value.bytes_view(), w, true);
            &&& attr_text(ctx, Attr::Integer(a)) == Ok::<Seq<char>, (Seq<char>, ErrorView)>(
                int_decimal(v) + " : "@ + integer_type_text(a.ty.width, a.ty.signedness),
            )
            &&& -pow2((w - 1) as nat) <= v < pow2((w - 1) as nat)
            &&& (v - bits_unsigned(a)) % (pow2(w) as int) == 0
        }),
{
    let w = a.value.width_view();
    vstd::arithmetic::power2::lemma_pow2_pos(w);
    let u = bits_unsigned(a);
    assert(apint_value(a.value.bytes_view(), w, false) == u as int);
    if a.ty.signedness == Signedness::Signed && w > 0 {
        vstd::arithmetic::power2::lemma_pow2_unfold(w);
        let v = apint_value(a.value.bytes_view(), w, true);
        let p = pow2(w) as int;
        let h = pow2((w - 1) as nat) as int;
        assert(p == 2 * h);
        assert(0 <= u < p) by {
            vstd::arithmetic::div_mod::lemma_mod_bound(le_value(a.value.bytes_view()) as int, p);
        }
        if u >= h {
            assert(v == u - p);
            assert((v - u) % p == 0) by {
                vstd::arithmetic::div_mod::lemma_mod_multiples_basic(-1, p);
            }
        } else {
            assert(v == u);
            assert((v - u) % p == 0) by {
                vstd::arithmetic::div_mod::lemma_mod_multiples_basic(0, p);
            }
        }
    }
}

// ---------------------------------------------------------------------------
// LLVM enumerations
// ---------------------------------------------------------------------------

/// MLIR's `LLVM::ICmpPredicate` enum in declaration order: the position of
/// each predicate is the integer that MLIR stores for it.
pub open spec fn mlir_int_predicates() -> Seq<ICmpPredicateAttr> {
    seq![
        ICmpPredicateAttr::EQ,
        ICmpPredicateAttr::NE,
        ICmpPredicateAttr::SLT,
        ICmpPredicateAttr::SLE,
        ICmpPredicateAttr::SGT,
        ICmpPredicateAttr::SGE,
        ICmpPredicateAttr::ULT,
        ICmpPredicateAttr::ULE,
        ICmpPredicateAttr::UGT,
        ICmpPredicateAttr::UGE,
    ]
}

/// MLIR's `LLVM::FCmpPredicate` enum in declaration order.
pub open spec fn mlir_float_predicates() -> Seq<FCmpPredicateAttr> {
    seq![
        FCmpPredicateAttr::False,
        FCmpPredicateAttr::OEQ,
        FCmpPredicateAttr::OGT,
        FCmpPredicateAttr::OGE,
        FCmpPredicateAttr::OLT,
        FCmpPredicateAttr::OLE,
        FCmpPredicateAttr::ONE,
        FCmpPredicateAttr::ORD,
        FCmpPredicateAttr::UEQ,
        FCmpPredicateAttr::UGT,
        FCmpPredicateAttr::UGE,
        FCmpPredicateAttr::ULT,
        FCmpPredicateAttr::ULE,
        FCmpPredicateAttr::UNE,
        FCmpPredicateAttr::UNO,
        FCmpPredicateAttr::True,
    ]
}

/// MLIR's `LLVM::AtomicBinOp` enum in declaration order.
pub open spec fn mlir_atomic_bin_ops() -> Seq<AtomicRmwKindAttr> {
    seq![
        AtomicRmwKindAttr::Xchg,
        AtomicRmwKindAttr::Add,
        AtomicRmwKindAttr::Sub,
        AtomicRmwKindAttr::And,
        AtomicRmwKindAttr::Nand,
        AtomicRmwKindAttr::Or,
        AtomicRmwKindAttr::Xor,
        AtomicRmwKindAttr::Max,
        AtomicRmwKindAttr::Min,
        AtomicRmwKindAttr::UMax,
        AtomicRmwKindAttr::UMin,
        AtomicRmwKindAttr::FAdd,
        AtomicRmwKindAttr::FSub,
        AtomicRmwKindAttr::FMax,
        AtomicRmwKindAttr::FMin,
    ]
}

/// The atomic ordering that MLIR reads from the integer `n` of its
/// `LLVM::AtomicOrdering` enum (`not_atomic` = 0 and `unordered` = 1 have no
/// counterpart here).
pub open spec fn mlir_atomic_ordering(n: nat) -> Option<AtomicOrderingAttr> {
    if n == 2 {
        Some(AtomicOrderingAttr::Monotonic)
    } else if n == 4 {
        Some(AtomicOrderingAttr::Acquire)
    } else if n == 5 {
        Some(AtomicOrderingAttr::Release)
    } else if n == 6 {
        Some(AtomicOrderingAttr::AcqRel)
    } else if n == 7 {
        Some(AtomicOrderingAttr::SeqCst)
    } else {
        None
    }
}

/// An integer comparison predicate prints as `n : i64`, where `n` is the
/// position of that same predicate in MLIR's enum: MLIR reads back the
/// predicate that was printed.
pub proof fn lemma_int_predicate_reads_back(ctx: Context, p: ICmpPredicateAttr)
    ensures
        ({
            let n = int_predicate_value(p);
            &&& n < mlir_int_predicates().len()
            &&& mlir_int_predicates()[n as int] == p
            &&& attr_text(ctx, Attr::ICmpPredicate(p)) == Ok::<Seq<char>, (Seq<char>, ErrorView)>(
                nat_decimal(n) + " : i64"@,
            )
        }),
{
}

/// A floating point comparison predicate prints as `n : i64`, where `n` is
/// the position of that same predicate in MLIR's enum.
pub proof fn lemma_float_predicate_reads_back(ctx: Context, p: FCmpPredicateAttr)
    ensures
        ({
            let n = float_predicate_value(p);
            &&& n < mlir_float_predicates().len()
            &&& mlir_float_predicates()[n as int] == p
            &&& attr_text(ctx, Attr::FCmpPredicate(p)) == Ok::<Seq<char>, (Seq<char>, ErrorView)>(
                nat_decimal(n) + " : i64"@,
            )
        }),
{
}

/// An `atomicrmw` kind prints as `n : i64`, where `n` is the position of
/// that same operation in MLIR's enum.
pub proof fn lemma_atomic_bin_op_reads_back(ctx: Context, k: AtomicRmwKindAttr)
    ensures
        ({
            let n = rmw_kind_value(k);
            &&& n < mlir_atomic_bin_ops().len()
            &&& mlir_atomic_bin_ops()[n as int] == k
            &&& attr_text(ctx, Attr::AtomicRmwKind(k)) == Ok::<Seq<char>, (Seq<char>, ErrorView)>(
                nat_decimal(n) + " : i64"@,
            )
        }),
{
}

/// An atomic ordering prints as `n : i64`, from which MLIR reads back that
/// same ordering.
pub proof fn lemma_atomic_ordering_reads_back(ctx: Context, o: AtomicOrderingAttr)
    ensures
        ({
            let n = ordering_value(o);
            &&& mlir_atomic_ordering(n) == Some(o)
            &&& attr_text(ctx, Attr::AtomicOrdering(o)) == Ok::<Seq<char>, (Seq<char>, ErrorView)>(
                nat_decimal(n) + " : i64"@,
            )
        }),
{
}

// ---------------------------------------------------------------------------
// Linkage
// ---------------------------------------------------------------------------

/// The linkage that MLIR's `#llvm.linkage<...>` reads from `keyword`.
pub open spec fn mlir_linkage(keyword: Seq<char>) -> Option<LinkageAttr> {
    if keyword == "private"@ {
        Some(LinkageAttr::PrivateLinkage)
    } else if keyword == "internal"@ {
        Some(LinkageAttr::InternalLinkage)
    } else if keyword == "available_externally"@ {
        Some(LinkageAttr::AvailableExternallyLinkage)
    } else if keyword == "linkonce"@ {
        Some(LinkageAttr::LinkOnceAnyLinkage)
    } else if keyword == "weak"@ {
        Some(LinkageAttr::WeakAnyLinkage)
    } else if keyword == "common"@ {
        Some(LinkageAttr::CommonLinkage)
    } else if keyword == "appending"@ {
        Some(LinkageAttr::AppendingLinkage)
    } else if keyword == "extern_weak"@ {
        Some(LinkageAttr::ExternalWeakLinkage)
    } else if keyword == "linkonce_odr"@ {
        Some(LinkageAttr::LinkOnceODRLinkage)
    } else if keyword == "weak_odr"@ {
        Some(LinkageAttr::WeakODRLinkage)
    } else if keyword == "external"@ {
        Some(LinkageAttr::ExternalLinkage)
    } else {
        None
    }
}

/// Each of MLIR's linkage keywords reads as its own linkage.
proof fn lemma_mlir_linkage_keywords()
    ensures
        mlir_linkage("private"@) == Some(LinkageAttr::PrivateLinkage),
        mlir_linkage("internal"@) == Some(LinkageAttr::InternalLinkage),
        mlir_linkage("available_externally"@) == Some(LinkageAttr::AvailableExternallyLinkage),
        mlir_linkage("linkonce"@) == Some(LinkageAttr::LinkOnceAnyLinkage),
        mlir_linkage("weak"@) == Some(LinkageAttr::WeakAnyLinkage),
        mlir_linkage("common"@) == Some(LinkageAttr::CommonLinkage),
        mlir_linkage("appending"@) == Some(LinkageAttr::AppendingLinkage),
        mlir_linkage("extern_weak"@) == Some(LinkageAttr::ExternalWeakLinkage),
        mlir_linkage("linkonce_odr"@) == Some(LinkageAttr::LinkOnceODRLinkage),
        mlir_linkage("weak_odr"@) == Some(LinkageAttr::WeakODRLinkage),
        mlir_linkage("external"@) == Some(LinkageAttr::ExternalLinkage),
{
    reveal_strlit("private");
    assert("private"@.len() == 7 && "private"@[0] == 'p');
    reveal_strlit("internal");
    assert("internal"@.len() == 8 && "internal"@[0] == 'i');
    reveal_strlit("available_externally");
    assert("available_externally"@.len() == 20 && "available_externally"@[0] == 'a');
    reveal_strlit("linkonce");
    assert("linkonce"@.len() == 8 && "linkonce"@[0] == 'l');
    reveal_strlit("weak");
    assert("weak"@.len() == 4 && "weak"@[0] == 'w');
    reveal_strlit("common");
    assert("common"@.len() == 6 && "common"@[0] == 'c');
    reveal_strlit("appending");
    assert("appending"@.len() == 9 && "appending"@[0] == 'a');
    reveal_strlit("extern_weak");
    assert("extern_weak"@.len() == 11 && "extern_weak"@[0] == 'e');
    reveal_strlit("linkonce_odr");
    assert("linkonce_odr"@.len() == 12 && "linkonce_odr"@[0] == 'l');
    reveal_strlit("weak_odr");
    assert("weak_odr"@.len() == 8 && "weak_odr"@[0] == 'w');
    reveal_strlit("external");
    assert("external"@.len() == 8 && "external"@[0] == 'e');
}

/// A linkage prints as `#llvm.linkage<k>` with a keyword `k` from which MLIR
/// reads back that same linkage; every keyword that MLIR reads is the one
/// printed for the linkage it names; and a linkage that no keyword names is
/// an error.
pub proof fn lemma_linkage_reads_back(l: LinkageAttr, keyword: Seq<char>)
    ensures
        linkage_keyword_spec(l) matches Some(k) ==> linkage_text(l) == Ok::<
            Seq<char>,
            (Seq<char>, ErrorView),
        >("#llvm.linkage<"@ + k + ">"@) && mlir_linkage(k) == Some(l),
        mlir_linkage(keyword) == Some(l) ==> linkage_keyword_spec(l) == Some(keyword),
        (forall|k: Seq<char>| mlir_linkage(k) != Some(l)) ==> linkage_text(l) is Err,
{
    lemma_mlir_linkage_keywords();
}

/// Two linkages that both print, print differently.
pub proof fn lemma_linkage_text_injective(l1: LinkageAttr, l2: LinkageAttr)
    ensures
        linkage_text(l1) is Ok && linkage_text(l1) == linkage_text(l2) ==> l1 == l2,
{
    lemma_linkage_reads_back(l1, seq![]);
    lemma_linkage_reads_back(l2, seq![]);
    if linkage_text(l1) is Ok && linkage_text(l1) == linkage_text(l2) {
        let k1 = linkage_keyword_spec(l1)->Some_0;
        let k2 = linkage_keyword_spec(l2)->Some_0;
        let pre = "#llvm.linkage<"@;
        let t1 = pre + k1 + ">"@;
        let t2 = pre + k2 + ">"@;
        assert(t1 == t2);
        assert(k1 =~= t1.subrange(pre.len() as int, (pre.len() + k1.len()) as int));
        assert(k2 =~= t2.subrange(pre.len() as int, (pre.len() + k2.len()) as int));
        reveal_strlit(">");
        assert(k1.len() == k2.len());
    }
}

// ---------------------------------------------------------------------------
// The nonNeg flag
// ---------------------------------------------------------------------------

/// A `zext` or `uitofp` carries MLIR's `nonNeg` property, as the unit
/// attribute, exactly when its flag is present and set; one whose flag is
/// absent or clear prints exactly as the same op without a flag.
#[verifier::rlimit(50)]
pub proof fn lemma_nonneg_only_when_set(ctx: Context, op: Operation, o: NNegOp, nneg: Option<bool>, indent: Indentation)
    requires
        op.kind == (OpKind::NNeg { op: o, nneg }),
    ensures
        op_translation(op) is Ok,
        ({
            let props = op_translation(op)->Ok_0.properties;
            &&& nneg == Some(true) ==> props == seq![
                ("nonNeg"@, MlirAttrView::Attr(Attr::Unit)),
            ]
            &&& nneg != Some(true) ==> props.len() == 0
        }),
        nneg != Some(true) ==> op_text(ctx, op, indent) == op_text(
            ctx,
            Operation { kind: OpKind::NNeg { op: o, nneg: None }, ..op },
            indent,
        ),
{
    reveal(op_translation);
    let plain = Operation { kind: OpKind::NNeg { op: o, nneg: None }, ..op };
    let g = op_translation(op)->Ok_0;
    assert(g.properties =~= if nneg == Some(true) {
        seq![("nonNeg"@, MlirAttrView::Attr(Attr::Unit))]
    } else {
        seq![]
    });
    if nneg != Some(true) {
        assert(op_translation(plain) == op_translation(op));
        lemma_op_text(ctx, op, indent);
        lemma_op_text(ctx, plain, indent);
        crate::printers::lemma_generic_text(ctx, op, g, indent);
        crate::printers::lemma_generic_text(ctx, plain, g, indent);
    }
}

// ---------------------------------------------------------------------------
// Mnemonics
// ---------------------------------------------------------------------------

/// The operation of MLIR's LLVM dialect that the mnemonic `m` names, among
/// those that carry only their operands, results and successors.
pub open spec fn mlir_direct_op(m: Seq<char>) -> Option<DirectOp> {
    if m == "llvm.return"@ {
        Some(DirectOp::Return)
    } else if m == "llvm.unreachable"@ {
        Some(DirectOp::Unreachable)
    } else if m == "llvm.br"@ {
        Some(DirectOp::Br)
    } else if m == "llvm.udiv"@ {
        Some(DirectOp::UDiv)
    } else if m == "llvm.sdiv"@ {
        Some(DirectOp::SDiv)
    } else if m == "llvm.urem"@ {
        Some(DirectOp::URem)
    } else if m == "llvm.srem"@ {
        Some(DirectOp::SRem)
    } else if m == "llvm.and"@ {
        Some(DirectOp::And)
    } else if m == "llvm.or"@ {
        Some(DirectOp::Or)
    } else if m == "llvm.xor"@ {
        Some(DirectOp::Xor)
    } else if m == "llvm.lshr"@ {
        Some(DirectOp::LShr)
    } else if m == "llvm.ashr"@ {
        Some(DirectOp::AShr)
    } else if m == "llvm.bitcast"@ {
        Some(DirectOp::Bitcast)
    } else if m == "llvm.inttoptr"@ {
        Some(DirectOp::IntToPtr)
    } else if m == "llvm.ptrtoint"@ {
        Some(DirectOp::PtrToInt)
    } else if m == "llvm.addrspacecast"@ {
        Some(DirectOp::AddrSpaceCast)
    } else if m == "llvm.sext"@ {
        Some(DirectOp::SExt)
    } else if m == "llvm.trunc"@ {
        Some(DirectOp::Trunc)
    } else if m == "llvm.fptosi"@ {
        Some(DirectOp::FPToSI)
    } else if m == "llvm.fptoui"@ {
        Some(DirectOp::FPToUI)
    } else if m == "llvm.sitofp"@ {
        Some(DirectOp::SIToFP)
    } else if m == "llvm.freeze"@ {
        Some(DirectOp::Freeze)
    } else if m == "llvm.mlir.undef"@ {
        Some(DirectOp::Undef)
    } else if m == "llvm.mlir.poison"@ {
        Some(DirectOp::Poison)
    } else if m == "llvm.mlir.zero"@ {
        Some(DirectOp::Zero)
    } else if m == "llvm.insertelement"@ {
        Some(DirectOp::InsertElement)
    } else if m == "llvm.extractelement"@ {
        Some(DirectOp::ExtractElement)
    } else if m == "llvm.va_arg"@ {
        Some(DirectOp::VAArg)
    } else {
        None
    }
}

/// The integer arithmetic of MLIR's LLVM dialect that `m` names.
pub open spec fn mlir_overflow_op(m: Seq<char>) -> Option<OverflowOp> {
    if m == "llvm.add"@ {
        Some(OverflowOp::Add)
    } else if m == "llvm.sub"@ {
        Some(OverflowOp::Sub)
    } else if m == "llvm.mul"@ {
        Some(OverflowOp::Mul)
    } else if m == "llvm.shl"@ {
        Some(OverflowOp::Shl)
    } else {
        None
    }
}

/// The floating point operation of MLIR's LLVM dialect that `m` names.
pub open spec fn mlir_fastmath_op(m: Seq<char>) -> Option<FastmathOp> {
    if m == "llvm.fadd"@ {
        Some(FastmathOp::FAdd)
    } else if m == "llvm.fsub"@ {
        Some(FastmathOp::FSub)
    } else if m == "llvm.fmul"@ {
        Some(FastmathOp::FMul)
    } else if m == "llvm.fdiv"@ {
        Some(FastmathOp::FDiv)
    } else if m == "llvm.frem"@ {
        Some(FastmathOp::FRem)
    } else if m == "llvm.fneg"@ {
        Some(FastmathOp::FNeg)
    } else if m == "llvm.fpext"@ {
        Some(FastmathOp::FPExt)
    } else if m == "llvm.fptrunc"@ {
        Some(FastmathOp::FPTrunc)
    } else {
        None
    }
}

/// The widening conversion of MLIR's LLVM dialect that `m` names.
pub open spec fn mlir_nneg_op(m: Seq<char>) -> Option<NNegOp> {
    if m == "llvm.zext"@ {
        Some(NNegOp::ZExt)
    } else if m == "llvm.uitofp"@ {
        Some(NNegOp::UIToFP)
    } else {
        None
    }
}

/// Each LLVM operation is printed with the mnemonic under which MLIR's LLVM
/// dialect knows that same operation.
#[verifier::rlimit(50)]
pub proof fn lemma_mnemonics_name_the_op(op: Operation, m: Seq<char>)
    ensures
        op.kind matches OpKind::Direct(d) ==> (mlir_direct_op(m) == Some(d) ==> (op_translation(
            op,
        ) matches Ok(g) && g.mnemonic == m)),
        op.kind matches OpKind::Overflow { op: o, .. } ==> (mlir_overflow_op(m) == Some(o) ==> (
        op_translation(op) matches Ok(g) && g.mnemonic == m)),
        op.kind matches OpKind::Fastmath { op: o, .. } ==> (mlir_fastmath_op(m) == Some(o) ==> (
        op_translation(op) matches Ok(g) && g.mnemonic == m)),
        op.kind matches OpKind::NNeg { op: o, .. } ==> (mlir_nneg_op(m) == Some(o) ==> (
        op_translation(op) matches Ok(g) && g.mnemonic == m)),
{
    reveal(op_translation);
}

// ---------------------------------------------------------------------------
// Flags
// ---------------------------------------------------------------------------

/// The fast-math flag names are pairwise distinct.
proof fn lemma_fastmath_names_distinct()
    ensures
        ({
            let n = seq!["nnan"@, "ninf"@, "nsz"@, "arcp"@, "contract"@, "afn"@, "reassoc"@];
            forall|i: int, j: int| 0 <= i < j < 7 ==> n[i] != n[j]
        }),
{
    reveal_strlit("nnan");
    reveal_strlit("ninf");
    reveal_strlit("nsz");
    reveal_strlit("arcp");
    reveal_strlit("contract");
    reveal_strlit("afn");
    reveal_strlit("reassoc");
    assert("nnan"@.len() == 4 && "nnan"@[0] == 'n' && "nnan"@[1] == 'n');
    assert("ninf"@.len() == 4 && "ninf"@[0] == 'n' && "ninf"@[1] == 'i');
    assert("nsz"@.len() == 3 && "nsz"@[0] == 'n');
    assert("arcp"@.len() == 4 && "arcp"@[0] == 'a');
    assert("contract"@.len() == 8);
    assert("afn"@.len() == 3 && "afn"@[0] == 'a');
    assert("reassoc"@.len() == 7);
}

/// Whether the single bit `mask` is set in `bits`.
pub open spec fn bit_set(bits: u8, mask: u8) -> bool {
    bits & mask != 0
}

/// The fast-math flags print as `#llvm.fastmath<...>` naming exactly the
/// flags whose bits are set: `nnan` (1), `ninf` (2), `nsz` (4), `arcp` (8),
/// `contract` (16), `afn` (32) and `reassoc` (64).
pub proof fn lemma_fastmath_flags_named(ctx: Context, f: FastmathFlags)
    ensures
        attr_text(ctx, Attr::FastmathFlags(f)) == Ok::<Seq<char>, (Seq<char>, ErrorView)>(
            flags_text("#llvm.fastmath<"@, fastmath_names(f.bits)),
        ),
        fastmath_names(f.bits).contains("nnan"@) <==> bit_set(f.bits, 1),
        fastmath_names(f.bits).contains("ninf"@) <==> bit_set(f.bits, 2),
        fastmath_names(f.bits).contains("nsz"@) <==> bit_set(f.bits, 4),
        fastmath_names(f.bits).contains("arcp"@) <==> bit_set(f.bits, 8),
        fastmath_names(f.bits).contains("contract"@) <==> bit_set(f.bits, 16),
        fastmath_names(f.bits).contains("afn"@) <==> bit_set(f.bits, 32),
        fastmath_names(f.bits).contains("reassoc"@) <==> bit_set(f.bits, 64),
{
    let b = f.bits;
    lemma_fastmath_names_distinct();
    let n = seq!["nnan"@, "ninf"@, "nsz"@, "arcp"@, "contract"@, "afn"@, "reassoc"@];
    assert(n[0] != n[1] && n[0] != n[2] && n[0] != n[3] && n[0] != n[4] && n[0] != n[5] && n[0] != n[6]);
    assert(n[1] != n[2] && n[1] != n[3] && n[1] != n[4] && n[1] != n[5] && n[1] != n[6]);
    assert(n[2] != n[3] && n[2] != n[4] && n[2] != n[5] && n[2] != n[6]);
    assert(n[3] != n[4] && n[3] != n[5] && n[3] != n[6]);
    assert(n[4] != n[5] && n[4] != n[6]);
    assert(n[5] != n[6]);
    assert(has_flag(b, 1) == bit_set(b, 1)) by (bit_vector);
    assert(has_flag(b, 2) == bit_set(b, 2)) by (bit_vector);
    assert(has_flag(b, 4) == bit_set(b, 4)) by (bit_vector);
    assert(has_flag(b, 8) == bit_set(b, 8)) by (bit_vector);
    assert(has_flag(b, 16) == bit_set(b, 16)) by (bit_vector);
    assert(has_flag(b, 32) == bit_set(b, 32)) by (bit_vector);
    assert(has_flag(b, 64) == bit_set(b, 64)) by (bit_vector);
    lemma_flags_contain(b, n[0]);
    lemma_flags_contain(b, n[1]);
    lemma_flags_contain(b, n[2]);
    lemma_flags_contain(b, n[3]);
    lemma_flags_contain(b, n[4]);
    lemma_flags_contain(b, n[5]);
    lemma_flags_contain(b, n[6]);
}

/// `a + b` holds `x` exactly when `a` or `b` does.
proof fn lemma_concat_contains(a: Seq<Seq<char>>, b: Seq<Seq<char>>, x: Seq<char>)
    ensures
        (a + b).contains(x) <==> a.contains(x) || b.contains(x),
{
    if (a + b).contains(x) {
        let k = choose|k: int| 0 <= k < (a + b).len() && (a + b)[k] == x;
        if k < a.len() {
            assert(a[k] == x);
        } else {
            assert(b[k - a.len()] == x);
        }
    }
    if a.contains(x) {
        let k = choose|k: int| 0 <= k < a.len() && a[k] == x;
        assert((a + b)[k] == x);
    }
    if b.contains(x) {
        let k = choose|k: int| 0 <= k < b.len() && b[k] == x;
        assert((a + b)[a.len() + k] == x);
    }
}

/// [flag_if] holds `x` exactly when the flag is set and named `x`.
proof fn lemma_flag_if_contains(set: bool, name: Seq<char>, x: Seq<char>)
    ensures
        flag_if(set, name).contains(x) <==> set && name == x,
{
    if set && name == x {
        assert(flag_if(set, name)[0] == x);
    }
}

/// The fast-math names of `b` hold `x` exactly when one of the set flags is
/// named `x`.
proof fn lemma_flags_contain(b: u8, x: Seq<char>)
    ensures
        fastmath_names(b).contains(x) <==> (has_flag(b, 1) && "nnan"@ == x) || (has_flag(b, 2)
            && "ninf"@ == x) || (has_flag(b, 4) && "nsz"@ == x) || (has_flag(b, 8) && "arcp"@ == x)
            || (has_flag(b, 16) && "contract"@ == x) || (has_flag(b, 32) && "afn"@ == x) || (
        has_flag(b, 64) && "reassoc"@ == x),
{
    let f1 = flag_if(has_flag(b, 1), "nnan"@);
    let f2 = flag_if(has_flag(b, 2), "ninf"@);
    let f3 = flag_if(has_flag(b, 4), "nsz"@);
    let f4 = flag_if(has_flag(b, 8), "arcp"@);
    let f5 = flag_if(has_flag(b, 16), "contract"@);
    let f6 = flag_if(has_flag(b, 32), "afn"@);
    let f7 = flag_if(has_flag(b, 64), "reassoc"@);
    lemma_flag_if_contains(has_flag(b, 1), "nnan"@, x);
    lemma_flag_if_contains(has_flag(b, 2), "ninf"@, x);
    lemma_flag_if_contains(has_flag(b, 4), "nsz"@, x);
    lemma_flag_if_contains(has_flag(b, 8), "arcp"@, x);
    lemma_flag_if_contains(has_flag(b, 16), "contract"@, x);
    lemma_flag_if_contains(has_flag(b, 32), "afn"@, x);
    lemma_flag_if_contains(has_flag(b, 64), "reassoc"@, x);
    lemma_concat_contains(f1, f2, x);
    lemma_concat_contains(f1 + f2, f3, x);
    lemma_concat_contains(f1 + f2 + f3, f4, x);
    lemma_concat_contains(f1 + f2 + f3 + f4, f5, x);
    lemma_concat_contains(f1 + f2 + f3 + f4 + f5, f6, x);
    lemma_concat_contains(f1 + f2 + f3 + f4 + f5 + f6, f7, x);
}

/// The overflow flags print as `#llvm.overflow<...>` naming exactly the set
/// flags.
pub proof fn lemma_overflow_flags_named(ctx: Context, nsw: bool, nuw: bool)
    ensures
        attr_text(ctx, Attr::IntegerOverflowFlags { nsw, nuw }) == Ok::<
            Seq<char>,
            (Seq<char>, ErrorView),
        >(flags_text("#llvm.overflow<"@, overflow_names(nsw, nuw))),
        overflow_names(nsw, nuw).contains("nsw"@) <==> nsw,
        overflow_names(nsw, nuw).contains("nuw"@) <==> nuw,
{
    reveal_strlit("nsw");
    reveal_strlit("nuw");
    assert("nsw"@[1] == 's' && "nuw"@[1] == 'u');
    lemma_flag_if_contains(nsw, "nsw"@, "nsw"@);
    lemma_flag_if_contains(nuw, "nuw"@, "nsw"@);
    lemma_flag_if_contains(nsw, "nsw"@, "nuw"@);
    lemma_flag_if_contains(nuw, "nuw"@, "nuw"@);
    lemma_concat_contains(flag_if(nsw, "nsw"@), flag_if(nuw, "nuw"@), "nsw"@);
    lemma_concat_contains(flag_if(nsw, "nsw"@), flag_if(nuw, "nuw"@), "nuw"@);
}

} // verus!
