//! # IR -> Textual MLIR
//!
//! Translation of an IR (types, attributes and operations with their nested
//! regions) into MLIR's generic textual syntax.
//!
//! The IR that the printers read is described in [ir]: every type, attribute
//! and operation carries, as plain values, exactly what its translation reads.
//! Every printer appends to a `String` and states, over the spec functions of
//! the same module, the exact text it appends, or the [Error] with which it
//! stops together with the exact text it appended before it stopped.
//!
//! Dialects beyond the builtin and LLVM ones give their entities translations
//! of their own: [ir::Ty::Custom] and [ir::Attr::Custom] carry MLIR text, and
//! [ir::OpKind::Custom] says what MLIR's generic syntax prints for an op.
//! Errors raised at an operation carry its [ir::Operation::location].
//!
//! The entry points are [printers::print_op], [printers::print_type] and
//! [printers::print_attr]; [printers::GenericOp] builds MLIR's generic
//! operation syntax, and [printers::mlir_string_literal],
//! [printers::mlir_hex_float] and [printers::mlir_dense_array] format the
//! literals that the translations share.
//!
//! What holds of every input beyond the printers' own contracts (that the
//! printed literals read back as what they were made from, and what the op
//! translations keep of the IR) is proved in [laws].

pub mod builtin;
pub mod ir;
pub mod laws;
pub mod llvm;
pub mod printers;
pub mod text;

use vstd::prelude::*;

verus! {

/// Why a translation to MLIR failed.
#[derive(Debug)]
pub enum Error {
    /// The output could not be written.
    Fmt,
    /// An operation (named by its id) has no MLIR translation.
    MissingOpTranslation(String),
    /// A type (named by its id) has no MLIR translation.
    MissingTypeTranslation(String),
    /// An attribute (named by its id) has no MLIR translation.
    MissingAttrTranslation(String),
    /// The entity has a translation, but not for this particular value.
    Untranslatable(String),
    /// The error, raised at the operation of the given location (see
    /// [ir::Operation::location]).
    Located(usize, Box<Error>),
}

/// [Error], with its texts as sequences of characters.
pub enum ErrorView {
    Fmt,
    MissingOpTranslation(Seq<char>),
    MissingTypeTranslation(Seq<char>),
    MissingAttrTranslation(Seq<char>),
    Untranslatable(Seq<char>),
    Located(nat, Box<ErrorView>),
}

/// What the error `e` says, with its texts as sequences of characters.
pub open spec fn error_view(e: Error) -> ErrorView
    decreases e,
{
    match e {
        Error::Fmt => ErrorView::Fmt,
        Error::MissingOpTranslation(s) => ErrorView::MissingOpTranslation(s@),
        Error::MissingTypeTranslation(s) => ErrorView::MissingTypeTranslation(s@),
        Error::MissingAttrTranslation(s) => ErrorView::MissingAttrTranslation(s@),
        Error::Untranslatable(s) => ErrorView::Untranslatable(s@),
        Error::Located(loc, inner) => ErrorView::Located(loc as nat, Box::new(error_view(*inner))),
    }
}

impl View for Error {
    type V = ErrorView;

    open spec fn view(&self) -> ErrorView {
        error_view(*self)
    }
}

/// The message of an error of this view: a located error has the message of
/// the error it carries.
pub open spec fn error_message(e: ErrorView) -> Seq<char>
    decreases e,
{
    match e {
        ErrorView::Fmt => "Error formatting to MLIR text"@,
        ErrorView::MissingOpTranslation(s) => "Op `"@ + s + "` does not implement ToMlirOp"@,
        ErrorView::MissingTypeTranslation(s) => "Type `"@ + s + "` does not implement ToMlirType"@,
        ErrorView::MissingAttrTranslation(s) => "Attribute `"@ + s
            + "` does not implement ToMlirAttr"@,
        ErrorView::Untranslatable(s) => "Cannot translate to MLIR: "@ + s,
        ErrorView::Located(_, inner) => error_message(*inner),
    }
}

impl Error {
    /// The human readable message of this error.
    pub fn message(&self) -> (res: String)
        ensures
            res@ == error_message(self@),
        decreases self,
    {
        match self {
            Error::Fmt => String::from_str("Error formatting to MLIR text"),
            Error::MissingOpTranslation(s) => {
                let mut res = String::from_str("Op `");
                res.append(s.as_str());
                res.append("` does not implement ToMlirOp");
                res
            },
            Error::MissingTypeTranslation(s) => {
                let mut res = String::from_str("Type `");
                res.append(s.as_str());
                res.append("` does not implement ToMlirType");
                res
            },
            Error::MissingAttrTranslation(s) => {
                let mut res = String::from_str("Attribute `");
                res.append(s.as_str());
                res.append("` does not implement ToMlirAttr");
                res
            },
            Error::Untranslatable(s) => {
                let mut res = String::from_str("Cannot translate to MLIR: ");
                res.append(s.as_str());
                res
            },
            Error::Located(_, inner) => inner.message(),
        }
    }
}

/// What a printer does: `Ok` of the text it appends; or, when it fails,
/// `Err` of the text it appended before it failed and of the error with
/// which it stops.
pub type Text = Result<Seq<char>, (Seq<char>, ErrorView)>;

/// A failure with `e` before anything is written.
pub open spec fn fail(e: ErrorView) -> Text {
    Err((seq![], e))
}

/// `a` followed by `b`: when `a` fails, what `a` wrote and its error; when
/// `b` fails, the text of `a` followed by what `b` wrote, and `b`'s error.
pub open spec fn cat(a: Text, b: Text) -> Text {
    match a {
        Ok(x) => match b {
            Ok(y) => Ok(x + y),
            Err((p, e)) => Err((x + p, e)),
        },
        Err(f) => Err(f),
    }
}

/// A printer that turned `before` into `after` and returned `r` did what `t`
/// describes: on success it appended exactly the text of `t`; it failed
/// exactly when `t` is an error, with the error of `t`, after appending
/// exactly the text that `t` gives for the failure.
pub open spec fn emitted(before: Seq<char>, after: Seq<char>, r: Result<(), Error>, t: Text) -> bool {
    match t {
        Ok(s) => r is Ok && after == before + s,
        Err((p, e)) => r matches Err(x) && x@ == e && after == before + p,
    }
}

/// A printer that did what `t` describes after `s` was appended did, from
/// before `s`, what `s` followed by `t` describes.
pub proof fn lemma_emitted_after(before: Seq<char>, s: Seq<char>, after: Seq<char>, r: Result<(), Error>, t: Text)
    requires
        emitted(before + s, after, r, t),
    ensures
        emitted(before, after, r, cat(Ok(s), t)),
{
    match t {
        Ok(x) => {
            assert(before + s + x =~= before + (s + x));
        },
        Err((p, e)) => {
            assert(before + s + p =~= before + (s + p));
        },
    }
}

} // verus!
