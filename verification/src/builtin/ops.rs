//! MLIR translation for builtin dialect ops.

use vstd::prelude::*;

use crate::ir::{Attr, OpKind, Operation, Ty};
use crate::printers::{
    Indentation,
    lemma_op_text, mlir_string_literal, op_text, op_translation, string_literal_text, GenericOp,
    GenericOpView,
};
use crate::{emitted, Error};

verus! {

/// The text of a symbol name as MLIR's `sym_name` property.
pub open spec fn sym_name_text(name: String) -> Seq<char> {
    string_literal_text(vstd::utf8::encode_utf8(name@))
}

/// `builtin.module`.
///
/// The module is always named; MLIR's `sym_name` is optional.
pub open spec fn module_translation(sym_name: String) -> GenericOpView {
    GenericOpView::new("builtin.module"@).prop_raw("sym_name"@, sym_name_text(sym_name))
}

/// Whether a function has no body: no region, or no block in its region.
pub open spec fn is_declaration(op: Operation) -> bool {
    op.regions@.len() == 0 || op.regions@[0].blocks@.len() == 0
}

/// `func.func`: MLIR's builtin dialect has no function op, and the builtin
/// function is modelled on `func.func`.
///
/// A `func.func` with an empty body is a declaration, and MLIR does not let a
/// declaration keep the default (public) visibility.
pub open spec fn func_translation(op: Operation, sym_name: String, function_type: Ty) -> GenericOpView {
    GenericOpView::new("func.func"@).prop("function_type"@, Attr::Type(function_type)).prop_raw(
        "sym_name"@,
        sym_name_text(sym_name),
    ).prop_raw_opt(
        "sym_visibility"@,
        if is_declaration(op) {
            Some("\"private\""@)
        } else {
            None
        },
    ).with_min_regions(1)
}

/// `arith.constant`: MLIR's builtin dialect has no constant op.
pub open spec fn constant_translation(value: Attr) -> GenericOpView {
    GenericOpView::new("arith.constant"@).prop("value"@, value)
}

/// `builtin.module`.
pub fn module_to_mlir(ctx: &crate::ir::Context, op: &Operation, indent: Indentation, out: &mut String) -> (r:
    Result<(), Error>)
    requires
        op.kind is Module,
    ensures
        emitted(old(out)@, final(out)@, r, op_text(*ctx, *op, indent)),
    decreases *op, 2nat,
{
    proof {
        reveal(op_translation);
        lemma_op_text(*ctx, *op, indent);
    }
    match &op.kind {
        OpKind::Module { sym_name } => {
            let name = mlir_string_literal(sym_name.as_str());
            let g = GenericOp::new(op, "builtin.module").prop_raw("sym_name", name);
            g.print(ctx, indent, out)
        },
        _ => {
            proof {
                assert(false);
            }
            Ok(())
        },
    }
}

/// Whether `op` has no body.
fn declaration(op: &Operation) -> (res: bool)
    ensures
        res == is_declaration(*op),
{
    op.regions.len() == 0 || op.regions[0].blocks.len() == 0
}

/// `func.func`.
pub fn func_to_mlir(ctx: &crate::ir::Context, op: &Operation, indent: Indentation, out: &mut String) -> (r:
    Result<(), Error>)
    requires
        op.kind is BuiltinFunc,
    ensures
        emitted(old(out)@, final(out)@, r, op_text(*ctx, *op, indent)),
    decreases *op, 2nat,
{
    proof {
        reveal(op_translation);
        lemma_op_text(*ctx, *op, indent);
    }
    match &op.kind {
        OpKind::BuiltinFunc { sym_name, function_type } => {
            let visibility = if declaration(op) {
                Some(String::from_str("\"private\""))
            } else {
                None
            };
            let name = mlir_string_literal(sym_name.as_str());
            let g = GenericOp::new(op, "func.func").prop_type("function_type", function_type).prop_raw(
                "sym_name",
                name,
            ).prop_raw_opt("sym_visibility", visibility).min_regions(1);
            g.print(ctx, indent, out)
        },
        _ => {
            proof {
                assert(false);
            }
            Ok(())
        },
    }
}

/// `arith.constant`.
pub fn constant_to_mlir(ctx: &crate::ir::Context, op: &Operation, indent: Indentation, out: &mut String) -> (r:
    Result<(), Error>)
    requires
        op.kind is BuiltinConstant,
    ensures
        emitted(old(out)@, final(out)@, r, op_text(*ctx, *op, indent)),
    decreases *op, 2nat,
{
    proof {
        reveal(op_translation);
        lemma_op_text(*ctx, *op, indent);
    }
    match &op.kind {
        OpKind::BuiltinConstant { value } => {
            let g = GenericOp::new(op, "arith.constant").prop_attr("value", value);
            g.print(ctx, indent, out)
        },
        _ => {
            proof {
                assert(false);
            }
            Ok(())
        },
    }
}

} // verus!
