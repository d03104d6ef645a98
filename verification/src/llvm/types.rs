//! MLIR translation for LLVM dialect types.

use vstd::prelude::*;

use crate::ir::{Context, StructLayout, Ty, VectorTypeKind};
use crate::printers::{
    find_struct, lemma_find_struct, lemma_unvisited_push, names_view, print_type_in,
    print_type_list_in, type_text, types_from, unvisited,
};
use crate::text::{nat_decimal, push_decimal_u64};
use crate::{cat, emitted, lemma_emitted_after, Error};

verus! {

/// `!llvm.ptr` (address space 0) or `!llvm.ptr<N>`.
pub open spec fn pointer_type_text(address_space: u32) -> Seq<char> {
    if address_space == 0 {
        "!llvm.ptr"@
    } else {
        "!llvm.ptr<"@ + nat_decimal(address_space as nat) + ">"@
    }
}

/// What follows the arguments of a function type: `...` when variadic,
/// preceded by `, ` when there are arguments.
pub open spec fn var_arg_text(no_args: bool, var_arg: bool) -> Seq<char> {
    if var_arg {
        if no_args {
            "..."@
        } else {
            ", ..."@
        }
    } else {
        seq![]
    }
}

/// `vector<N x ` or, when scalable, `vector<[N] x `.
pub open spec fn vector_prefix_text(kind: VectorTypeKind, num_elements: u32) -> Seq<char> {
    match kind {
        VectorTypeKind::Fixed => "vector<"@ + nat_decimal(num_elements as nat) + " x "@,
        VectorTypeKind::Scalable => "vector<["@ + nat_decimal(num_elements as nat) + "] x "@,
    }
}

/// `packed ` for a packed struct, nothing otherwise.
pub open spec fn layout_text(layout: StructLayout) -> Seq<char> {
    match layout {
        StructLayout::Packed => "packed "@,
        StructLayout::Unpacked => seq![],
    }
}

/// Appends [pointer_type_text] to `out`.
pub fn pointer_type_to_mlir(address_space: u32, out: &mut String)
    ensures
        final(out)@ == old(out)@ + pointer_type_text(address_space),
{
    if address_space == 0 {
        out.append("!llvm.ptr");
    } else {
        out.append("!llvm.ptr<");
        push_decimal_u64(out, address_space as u64);
        out.append(">");
    }
    assert(out@ =~= old(out)@ + pointer_type_text(address_space));
}

/// `!llvm.array<N x elem>`.
pub fn array_type_to_mlir(ctx: &Context, ty: &Ty, stack: &mut Vec<String>, out: &mut String) -> (r:
    Result<(), Error>)
    requires
        ty is Array,
    ensures
        emitted(old(out)@, final(out)@, r, type_text(*ctx, *ty, names_view(old(stack)@))),
        r is Ok ==> final(stack)@ == old(stack)@,
    decreases unvisited(ctx.structs@, names_view(old(stack)@)), *ty, 0nat,
{
    match ty {
        Ty::Array { size, elem } => {
            let ghost e = type_text(*ctx, **elem, names_view(stack@));
            out.append("!llvm.array<");
            push_decimal_u64(out, *size);
            out.append(" x ");
            let ghost prefix = "!llvm.array<"@ + nat_decimal(*size as nat) + " x "@;
            assert(out@ =~= old(out)@ + prefix);
            let r = print_type_in(ctx, elem, stack, out);
            if r.is_err() {
                proof {
                    lemma_emitted_after(old(out)@, prefix, out@, r, e);
                }
                return r;
            }
            out.append(">");
            let ghost whole = type_text(*ctx, *ty, names_view(old(stack)@));
            assert(whole == cat(
                Ok("!llvm.array<"@ + nat_decimal(*size as nat) + " x "@),
                cat(e, Ok(">"@)),
            ));
            assert(out@ =~= old(out)@ + ("!llvm.array<"@ + nat_decimal(*size as nat) + " x "@
                + e->Ok_0 + ">"@));
            assert(whole->Ok_0 =~= ("!llvm.array<"@ + nat_decimal(*size as nat) + " x "@
                + e->Ok_0 + ">"@));
            Ok(())
        },
        _ => {
            proof {
                assert(false);
            }
            Ok(())
        },
    }
}

/// `!llvm.func<res (arg, ...)>`, with a trailing `...` argument when variadic.
pub fn func_type_to_mlir(ctx: &Context, ty: &Ty, stack: &mut Vec<String>, out: &mut String) -> (r:
    Result<(), Error>)
    requires
        ty is Func,
    ensures
        emitted(old(out)@, final(out)@, r, type_text(*ctx, *ty, names_view(old(stack)@))),
        r is Ok ==> final(stack)@ == old(stack)@,
    decreases unvisited(ctx.structs@, names_view(old(stack)@)), *ty, 0nat,
{
    match ty {
        Ty::Func { result, args, var_arg } => {
            let ghost st = names_view(stack@);
            let ghost a = type_text(*ctx, **result, st);
            let ghost b = types_from(*ctx, args@, st, 0);
            out.append("!llvm.func<");
            let r = print_type_in(ctx, result, stack, out);
            if r.is_err() {
                proof {
                    lemma_emitted_after(old(out)@, "!llvm.func<"@, out@, r, a);
                }
                return r;
            }
            out.append(" (");
            let ghost prefix = "!llvm.func<"@ + a->Ok_0 + " ("@;
            assert(out@ =~= old(out)@ + prefix);
            let r = print_type_list_in(ctx, args, stack, out);
            if r.is_err() {
                proof {
                    lemma_emitted_after(old(out)@, prefix, out@, r, b);
                    let p = b->Err_0.0;
                    assert(prefix + p =~= "!llvm.func<"@ + (a->Ok_0 + (" ("@ + p)));
                }
                return r;
            }
            if *var_arg {
                if args.len() == 0 {
                    out.append("...");
                } else {
                    out.append(", ...");
                }
            }
            out.append(")>");
            let ghost tail = var_arg_text(args.len() == 0, *var_arg) + ")>"@;
            let ghost whole = type_text(*ctx, *ty, st);
            assert(whole == cat(Ok("!llvm.func<"@), cat(a, cat(Ok(" ("@), cat(b, Ok(tail))))));
            assert(out@ =~= old(out)@ + ("!llvm.func<"@ + a->Ok_0 + " ("@ + b->Ok_0 + tail));
            assert(whole->Ok_0 =~= ("!llvm.func<"@ + a->Ok_0 + " ("@ + b->Ok_0 + tail));
            Ok(())
        },
        _ => {
            proof {
                assert(false);
            }
            Ok(())
        },
    }
}

/// `vector<N x elem>`, or `vector<[N] x elem>` when scalable.
///
/// MLIR's LLVM dialect reuses the builtin vector type, so this is not
/// `!llvm.`-prefixed.
pub fn vector_type_to_mlir(ctx: &Context, ty: &Ty, stack: &mut Vec<String>, out: &mut String) -> (r:
    Result<(), Error>)
    requires
        ty is Vector,
    ensures
        emitted(old(out)@, final(out)@, r, type_text(*ctx, *ty, names_view(old(stack)@))),
        r is Ok ==> final(stack)@ == old(stack)@,
    decreases unvisited(ctx.structs@, names_view(old(stack)@)), *ty, 0nat,
{
    match ty {
        Ty::Vector { kind, num_elements, elem } => {
            let ghost e = type_text(*ctx, **elem, names_view(stack@));
            match kind {
                VectorTypeKind::Fixed => {
                    out.append("vector<");
                    push_decimal_u64(out, *num_elements as u64);
                    out.append(" x ");
                },
                VectorTypeKind::Scalable => {
                    out.append("vector<[");
                    push_decimal_u64(out, *num_elements as u64);
                    out.append("] x ");
                },
            }
            assert(out@ =~= old(out)@ + vector_prefix_text(*kind, *num_elements));
            let r = print_type_in(ctx, elem, stack, out);
            if r.is_err() {
                proof {
                    lemma_emitted_after(old(out)@, vector_prefix_text(*kind, *num_elements), out@, r, e);
                }
                return r;
            }
            out.append(">");
            let ghost whole = type_text(*ctx, *ty, names_view(old(stack)@));
            assert(whole == cat(Ok(vector_prefix_text(*kind, *num_elements)), cat(e, Ok(">"@))));
            assert(out@ =~= old(out)@ + (vector_prefix_text(*kind, *num_elements) + e->Ok_0
                + ">"@));
            assert(whole->Ok_0 =~= (vector_prefix_text(*kind, *num_elements) + e->Ok_0 + ">"@));
            Ok(())
        },
        _ => {
            proof {
                assert(false);
            }
            Ok(())
        },
    }
}

/// Record that we're now printing `name`, returning `true` if it's already
/// being printed higher up the stack (i.e., we've hit a recursive struct).
fn start_printing(stack: &mut Vec<String>, name: &String) -> (already: bool)
    ensures
        already == names_view(old(stack)@).contains(name@),
        already ==> final(stack)@ == old(stack)@,
        !already ==> final(stack)@ == old(stack)@.push(*name),
{
    let mut i: usize = 0;
    while i < stack.len()
        invariant
            i <= stack@.len(),
            forall|j: int| 0 <= j < i ==> #[trigger] stack@[j]@ != name@,
        decreases stack.len() - i,
    {
        if stack[i] == *name {
            assert(names_view(stack@)[i as int] == name@);
            return true;
        }
        i += 1;
    }
    assert(!names_view(stack@).contains(name@)) by {
        if names_view(stack@).contains(name@) {
            let k = choose|k: int| 0 <= k < stack@.len() && names_view(stack@)[k] == name@;
            assert(stack@[k]@ == name@);
        }
    }
    stack.push(name.clone());
    false
}

/// We're done printing `name`, so pop it off the "under printing" stack.
fn done_printing(stack: &mut Vec<String>, name: &String)
    requires
        old(stack)@.len() > 0,
        old(stack)@.last()@ == name@,
    ensures
        final(stack)@ == old(stack)@.drop_last(),
{
    let _ = stack.pop();
}

/// The first index of a body of `name` in `ctx`, if there is one.
fn find_struct_body(ctx: &Context, name: &String) -> (res: Option<usize>)
    ensures
        match res {
            Some(i) => find_struct(ctx.structs@, name@) == Some(i as int),
            None => find_struct(ctx.structs@, name@) is None,
        },
{
    let mut i: usize = 0;
    assert(ctx.structs@.take(0) =~= Seq::<crate::ir::StructBody>::empty());
    while i < ctx.structs.len()
        invariant
            i <= ctx.structs@.len(),
            find_struct(ctx.structs@.take(i as int), name@) is None,
        decreases ctx.structs.len() - i,
    {
        assert(ctx.structs@.take(i + 1).drop_last() =~= ctx.structs@.take(i as int));
        if ctx.structs[i].name == *name {
            proof {
                lemma_find_struct_prefix(ctx.structs@, name@, i + 1);
            }
            return Some(i);
        }
        i += 1;
    }
    assert(ctx.structs@.take(i as int) =~= ctx.structs@);
    None
}

/// A body found in a prefix is the one found in the whole.
proof fn lemma_find_struct_prefix(structs: Seq<crate::ir::StructBody>, name: Seq<char>, k: int)
    requires
        0 <= k <= structs.len(),
        find_struct(structs.take(k), name) is Some,
    ensures
        find_struct(structs, name) == find_struct(structs.take(k), name),
    decreases structs.len() - k,
{
    if k == structs.len() {
        assert(structs.take(k) =~= structs);
    } else {
        assert(structs.take(k + 1).drop_last() =~= structs.take(k));
        lemma_find_struct_prefix(structs, name, k + 1);
    }
}

/// One of
///   - `!llvm.struct<(f0, f1)>` (anonymous),
///   - `!llvm.struct<packed (f0, f1)>` (anonymous, packed),
///   - `!llvm.struct<"name", (f0, f1)>` (named),
///   - `!llvm.struct<"name", opaque>` (named, no body), or
///   - `!llvm.struct<"name">` (a recursive reference to an enclosing struct).
pub fn struct_type_to_mlir(ctx: &Context, ty: &Ty, stack: &mut Vec<String>, out: &mut String) -> (r:
    Result<(), Error>)
    requires
        ty is UnnamedStruct || ty is NamedStruct,
    ensures
        emitted(old(out)@, final(out)@, r, type_text(*ctx, *ty, names_view(old(stack)@))),
        r is Ok ==> final(stack)@ == old(stack)@,
    decreases unvisited(ctx.structs@, names_view(old(stack)@)), *ty, 1nat,
{
    if let Ty::NamedStruct { .. } = ty {
        named_struct_to_mlir(ctx, ty, stack, out)
    } else {
        unnamed_struct_to_mlir(ctx, ty, stack, out)
    }
}

/// `!llvm.struct<(f0, f1)>` or `!llvm.struct<packed (f0, f1)>`.
fn unnamed_struct_to_mlir(ctx: &Context, ty: &Ty, stack: &mut Vec<String>, out: &mut String) -> (r:
    Result<(), Error>)
    requires
        ty is UnnamedStruct,
    ensures
        emitted(old(out)@, final(out)@, r, type_text(*ctx, *ty, names_view(old(stack)@))),
        r is Ok ==> final(stack)@ == old(stack)@,
    decreases unvisited(ctx.structs@, names_view(old(stack)@)), *ty, 0nat,
{
    let ghost st = names_view(stack@);
    match ty {
        Ty::UnnamedStruct { fields, layout } => {
            let ghost b = types_from(*ctx, fields@, st, 0);
            out.append("!llvm.struct<");
            match layout {
                StructLayout::Packed => out.append("packed "),
                StructLayout::Unpacked => {},
            }
            out.append("(");
            let ghost prefix = "!llvm.struct<"@ + layout_text(*layout) + "("@;
            assert(out@ =~= old(out)@ + prefix);
            let r = print_type_list_in(ctx, fields, stack, out);
            if r.is_err() {
                proof {
                    lemma_emitted_after(old(out)@, prefix, out@, r, b);
                }
                return r;
            }
            out.append(")>");
            let ghost whole = type_text(*ctx, *ty, st);
            assert(whole == cat(
                Ok("!llvm.struct<"@ + layout_text(*layout) + "("@),
                cat(b, Ok(")>"@)),
            ));
            assert(out@ =~= old(out)@ + ("!llvm.struct<"@ + layout_text(*layout) + "("@ + b->Ok_0
                + ")>"@));
            assert(whole->Ok_0 =~= ("!llvm.struct<"@ + layout_text(*layout) + "("@ + b->Ok_0
                + ")>"@));
            Ok(())
        },
        _ => {
            proof {
                assert(false);
            }
            Ok(())
        },
    }
}

/// A named struct: its body, `opaque`, or a reference to an enclosing struct.
fn named_struct_to_mlir(ctx: &Context, ty: &Ty, stack: &mut Vec<String>, out: &mut String) -> (r:
    Result<(), Error>)
    requires
        ty is NamedStruct,
    ensures
        emitted(old(out)@, final(out)@, r, type_text(*ctx, *ty, names_view(old(stack)@))),
        r is Ok ==> final(stack)@ == old(stack)@,
    decreases unvisited(ctx.structs@, names_view(old(stack)@)), *ty, 0nat,
{
    let ghost st = names_view(stack@);
    match ty {
        Ty::NamedStruct { name } => {
            out.append("!llvm.struct<");
            if start_printing(stack, name) {
                // A recursive reference back to a struct we're already inside.
                out.append("\"");
                out.append(name.as_str());
                out.append("\">");
                assert(out@ =~= old(out)@ + ("!llvm.struct<"@ + "\""@ + name@ + "\">"@));
                return Ok(());
            }
            out.append("\"");
            out.append(name.as_str());
            out.append("\"");
            match find_struct_body(ctx, name) {
                None => {
                    out.append(", opaque>");
                    done_printing(stack, name);
                    assert(stack@ =~= old(stack)@);
                    assert(out@ =~= old(out)@ + ("!llvm.struct<"@ + "\""@ + name@ + "\""@
                        + ", opaque>"@));
                    Ok(())
                },
                Some(i) => {
                    proof {
                        lemma_find_struct(ctx.structs@, name@);
                        lemma_unvisited_push(ctx.structs@, st, name@);
                        assert(names_view(stack@) =~= st.push(name@));
                    }
                    let body = &ctx.structs[i];
                    let ghost b = types_from(*ctx, body.fields@, st.push(name@), 0);
                    out.append(", ");
                    match body.layout {
                        StructLayout::Packed => out.append("packed "),
                        StructLayout::Unpacked => {},
                    }
                    out.append("(");
                    let ghost prefix = "!llvm.struct<"@ + "\""@ + name@ + "\""@ + ", "@
                        + layout_text(body.layout) + "("@;
                    assert(out@ =~= old(out)@ + prefix);
                    let r = print_type_list_in(ctx, &body.fields, stack, out);
                    if r.is_err() {
                        proof {
                            lemma_emitted_after(old(out)@, prefix, out@, r, b);
                        }
                        return r;
                    }
                    out.append(")");
                    done_printing(stack, name);
                    out.append(">");
                    assert(stack@ =~= old(stack)@);
                    let ghost head = "!llvm.struct<"@ + "\""@ + name@ + "\""@ + ", "@ + layout_text(
                        body.layout,
                    ) + "("@;
                    let ghost whole = type_text(*ctx, *ty, st);
                    assert(whole == cat(Ok(head), cat(b, Ok(")"@ + ">"@))));
                    assert(out@ =~= old(out)@ + (head + b->Ok_0 + (")"@ + ">"@)));
                    assert(whole->Ok_0 =~= (head + b->Ok_0 + (")"@ + ">"@)));
                    Ok(())
                },
            }
        },
        _ => {
            proof {
                assert(false);
            }
            Ok(())
        },
    }
}

} // verus!
