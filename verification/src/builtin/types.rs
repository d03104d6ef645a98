//! MLIR translation for builtin dialect types.

use vstd::prelude::*;

use crate::ir::{Context, Signedness, Ty};
use crate::printers::{names_view, print_type_list_in, type_text, types_from, unvisited};
use crate::text::{nat_decimal, push_decimal_u64};
use crate::{cat, emitted, lemma_emitted_after, Error};

verus! {

/// `i32`, `si32` or `ui32`, matching MLIR's IntegerType.
pub open spec fn integer_type_text(width: u32, signedness: Signedness) -> Seq<char> {
    match signedness {
        Signedness::Signed => "si"@ + nat_decimal(width as nat),
        Signedness::Unsigned => "ui"@ + nat_decimal(width as nat),
        Signedness::Signless => "i"@ + nat_decimal(width as nat),
    }
}

/// Appends [integer_type_text] to `out`.
pub fn integer_type_to_mlir(width: u32, signedness: Signedness, out: &mut String)
    ensures
        final(out)@ == old(out)@ + integer_type_text(width, signedness),
{
    match signedness {
        Signedness::Signed => out.append("si"),
        Signedness::Unsigned => out.append("ui"),
        Signedness::Signless => out.append("i"),
    }
    push_decimal_u64(out, width as u64);
    assert(out@ =~= old(out)@ + integer_type_text(width, signedness));
}

/// `(arg, ...) -> (res, ...)`, matching MLIR's FunctionType.
pub fn function_type_to_mlir(ctx: &Context, ty: &Ty, stack: &mut Vec<String>, out: &mut String) -> (r:
    Result<(), Error>)
    requires
        ty is Function,
    ensures
        emitted(old(out)@, final(out)@, r, type_text(*ctx, *ty, names_view(old(stack)@))),
        r is Ok ==> final(stack)@ == old(stack)@,
    decreases unvisited(ctx.structs@, names_view(old(stack)@)), *ty, 0nat,
{
    match ty {
        Ty::Function { args, results } => {
            let ghost st = names_view(stack@);
            let ghost a = types_from(*ctx, args@, st, 0);
            let ghost b = types_from(*ctx, results@, st, 0);
            out.append("(");
            let r = print_type_list_in(ctx, args, stack, out);
            if r.is_err() {
                proof {
                    lemma_emitted_after(old(out)@, "("@, out@, r, a);
                }
                return r;
            }
            out.append(") -> (");
            let ghost mid = out@;
            let r = print_type_list_in(ctx, results, stack, out);
            if r.is_err() {
                proof {
                    let s = "("@ + a->Ok_0 + ") -> ("@;
                    assert(mid =~= old(out)@ + s);
                    lemma_emitted_after(old(out)@, s, out@, r, b);
                    assert(cat(Ok("("@), cat(a, cat(Ok(") -> ("@), cat(b, Ok(")"@))))) == cat(Ok(s), b)) by {
                        let p = b->Err_0.0;
                        assert(s + p =~= "("@ + (a->Ok_0 + (") -> ("@ + p)));
                    }
                }
                return r;
            }
            out.append(")");
            assert(a is Ok);
            assert(b is Ok);
            let ghost whole = type_text(*ctx, *ty, st);
            assert(whole == cat(Ok("("@), cat(a, cat(Ok(") -> ("@), cat(b, Ok(")"@))))));
            assert(whole is Ok);
            assert(out@ =~= old(out)@ + ("("@ + a->Ok_0 + ") -> ("@ + b->Ok_0 + ")"@));
            assert(whole->Ok_0 =~= ("("@ + a->Ok_0 + ") -> ("@ + b->Ok_0 + ")"@));
            Ok(())
        },
        _ => {
            proof {
                assert(false);
            }
            Ok(())
        },
    }
}

} // verus!
