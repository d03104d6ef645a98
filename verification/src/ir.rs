//! The IR that the printers translate.
//!
//! Each type, attribute and operation holds, as plain values, what its MLIR
//! translation reads. Named LLVM structs are the one shared entity: a
//! [Ty::NamedStruct] names a struct whose body, if it has one, the [Context]
//! holds, so that a struct can refer to itself.

use vstd::prelude::*;

verus! {

/// Signedness of an integer type.
#[derive(PartialEq, Eq, Structural, Clone, Copy)]
pub enum Signedness {
    Signed,
    Unsigned,
    Signless,
}

/// Whether a vector type has a fixed or a scalable number of elements.
#[derive(PartialEq, Eq, Structural, Clone, Copy)]
pub enum VectorTypeKind {
    Fixed,
    Scalable,
}

/// The layout of an LLVM struct type.
#[derive(PartialEq, Eq, Structural, Clone, Copy)]
pub enum StructLayout {
    Unpacked,
    Packed,
}

/// A type.
pub enum Ty {
    /// The builtin integer type of `width` bits.
    Integer { width: u32, signedness: Signedness },
    /// The builtin function type.
    Function { args: Vec<Ty>, results: Vec<Ty> },
    /// The builtin half precision float type.
    FP16,
    /// The builtin single precision float type.
    FP32,
    /// The builtin double precision float type.
    FP64,
    /// An LLVM pointer in `address_space`.
    Pointer { address_space: u32 },
    /// An LLVM array of `size` elements.
    Array { size: u64, elem: Box<Ty> },
    /// The LLVM void type.
    Void,
    /// An LLVM function type.
    Func { result: Box<Ty>, args: Vec<Ty>, var_arg: bool },
    /// An LLVM (fixed or scalable) vector type.
    Vector { kind: VectorTypeKind, num_elements: u32, elem: Box<Ty> },
    /// An LLVM struct without a name.
    UnnamedStruct { fields: Vec<Ty>, layout: StructLayout },
    /// An LLVM struct with a name; its body, if any, is in the [Context].
    NamedStruct { name: String },
    /// A type whose translation is its own: the MLIR type text, printed
    /// verbatim.
    Custom { text: String },
    /// A type without an MLIR translation, named by its type id.
    Other { type_id: String },
}

/// The body of a named LLVM struct.
pub struct StructBody {
    pub name: String,
    pub fields: Vec<Ty>,
    pub layout: StructLayout,
}

/// What the printers share: the bodies of the named structs.
///
/// A named struct without a body here is opaque.
pub struct Context {
    pub structs: Vec<StructBody>,
}

/// An arbitrary precision integer of a nonzero bit width.
pub struct ApInt {
    bytes: Vec<u8>,
    width: usize,
}

impl ApInt {
    #[verifier::type_invariant]
    spec fn width_nonzero(self) -> bool {
        self.width > 0
    }

    /// The little-endian bytes of the value.
    pub closed spec fn bytes_view(self) -> Seq<u8> {
        self.bytes@
    }

    /// The bit width.
    pub closed spec fn width_view(self) -> nat {
        self.width as nat
    }

    /// An integer of `width` bits from its little-endian `bytes`, which are
    /// truncated or zero extended to the width; `None` for a zero width.
    pub fn new(bytes: Vec<u8>, width: usize) -> (res: Option<ApInt>)
        ensures
            res is Some <==> width > 0,
            res matches Some(v) ==> v.bytes_view() == bytes@ && v.width_view() == width,
    {
        if width == 0 {
            None
        } else {
            Some(ApInt { bytes, width })
        }
    }

    /// The little-endian bytes.
    pub fn bytes(&self) -> (res: &Vec<u8>)
        ensures
            res@ == self.bytes_view(),
    {
        &self.bytes
    }

    /// The bit width.
    pub fn width(&self) -> (res: usize)
        ensures
            res == self.width_view(),
            res > 0,
    {
        proof {
            use_type_invariant(self);
        }
        self.width
    }
}

/// The integer type of an integer attribute.
#[derive(Clone, Copy)]
pub struct IntegerTy {
    pub width: u32,
    pub signedness: Signedness,
}

/// An integer value of an integer type.
pub struct IntegerAttr {
    pub ty: IntegerTy,
    pub value: ApInt,
}

/// LLVM linkage kinds.
#[derive(PartialEq, Eq, Structural, Clone, Copy)]
pub enum LinkageAttr {
    ExternalLinkage,
    AvailableExternallyLinkage,
    LinkOnceAnyLinkage,
    LinkOnceODRLinkage,
    LinkOnceODRAutoHideLinkage,
    WeakAnyLinkage,
    WeakODRLinkage,
    AppendingLinkage,
    InternalLinkage,
    PrivateLinkage,
    DLLImportLinkage,
    DLLExportLinkage,
    ExternalWeakLinkage,
    GhostLinkage,
    CommonLinkage,
    LinkerPrivateLinkage,
    LinkerPrivateWeakLinkage,
}

/// LLVM integer comparison predicates.
#[derive(PartialEq, Eq, Structural, Clone, Copy)]
pub enum ICmpPredicateAttr {
    EQ,
    NE,
    SLT,
    SLE,
    SGT,
    SGE,
    ULT,
    ULE,
    UGT,
    UGE,
}

/// LLVM floating point comparison predicates.
#[derive(PartialEq, Eq, Structural, Clone, Copy)]
pub enum FCmpPredicateAttr {
    False,
    OEQ,
    OGT,
    OGE,
    OLT,
    OLE,
    ONE,
    ORD,
    UEQ,
    UGT,
    UGE,
    ULT,
    ULE,
    UNE,
    UNO,
    True,
}

/// LLVM atomic orderings.
#[derive(PartialEq, Eq, Structural, Clone, Copy)]
pub enum AtomicOrderingAttr {
    Monotonic,
    Acquire,
    Release,
    AcqRel,
    SeqCst,
}

/// LLVM `atomicrmw` kinds.
#[derive(PartialEq, Eq, Structural, Clone, Copy)]
pub enum AtomicRmwKindAttr {
    Xchg,
    Add,
    Sub,
    And,
    Nand,
    Or,
    Xor,
    Max,
    Min,
    UMax,
    UMin,
    FAdd,
    FSub,
    FMax,
    FMin,
}

/// LLVM fast-math flags, as a bit set: `nnan` = 1, `ninf` = 2, `nsz` = 4,
/// `arcp` = 8, `contract` = 16, `afn` = 32, `reassoc` = 64.
#[derive(Clone, Copy)]
pub struct FastmathFlags {
    pub bits: u8,
}

/// An LLVM GEP index: a constant (the raw bits of a signed `i32`), or the
/// operand that holds the index.
#[derive(Clone, Copy)]
pub enum GepIndexAttr {
    Constant(u32),
    OperandIdx(usize),
}

/// An attribute.
pub enum Attr {
    /// A symbol name.
    Identifier(String),
    /// A string.
    Str(String),
    /// A byte array.
    Bytes(Vec<u8>),
    /// A boolean.
    Bool(bool),
    /// A typed integer.
    Integer(IntegerAttr),
    /// The bits of a half precision float.
    FPHalf(u16),
    /// The bits of a single precision float.
    FPSingle(u32),
    /// The bits of a double precision float.
    FPDouble(u64),
    /// A dictionary.
    Dict(Vec<(String, Attr)>),
    /// An array.
    Vec(Vec<Attr>),
    /// The unit attribute.
    Unit,
    /// A type.
    Type(Ty),
    /// The sizes of an operation's operand segments.
    OperandSegmentSizes(Vec<u32>),
    /// An LLVM linkage.
    Linkage(LinkageAttr),
    /// An LLVM integer comparison predicate.
    ICmpPredicate(ICmpPredicateAttr),
    /// An LLVM floating point comparison predicate.
    FCmpPredicate(FCmpPredicateAttr),
    /// An LLVM atomic ordering.
    AtomicOrdering(AtomicOrderingAttr),
    /// An LLVM `atomicrmw` kind.
    AtomicRmwKind(AtomicRmwKindAttr),
    /// LLVM integer overflow flags.
    IntegerOverflowFlags { nsw: bool, nuw: bool },
    /// LLVM fast-math flags.
    FastmathFlags(FastmathFlags),
    /// An LLVM alignment.
    Alignment(u32),
    /// An LLVM address space.
    AddressSpace(u32),
    /// The LLVM zero value of a type.
    Zero(Ty),
    /// The LLVM undefined value of a type.
    Undef(Ty),
    /// The LLVM poison value of a type.
    Poison(Ty),
    /// The indices of an LLVM `insertvalue` / `extractvalue`.
    InsertExtractValueIndices(Vec<u32>),
    /// The mask of an LLVM `shufflevector`.
    ShuffleVectorMask(Vec<i32>),
    /// The indices of an LLVM GEP.
    GepIndices(Vec<GepIndexAttr>),
    /// The case values of an LLVM `switch`.
    CaseValues(Vec<IntegerAttr>),
    /// An attribute whose translation is its own: the MLIR attribute text,
    /// printed verbatim.
    Custom { text: String },
    /// An attribute without an MLIR translation, named by its attribute id.
    Other { attr_id: String },
}

/// A value in one of an operation's MLIR dictionaries, as its translation
/// gives it.
pub enum DictValue {
    /// An attribute, printed by its own translation.
    Attr(Attr),
    /// MLIR attribute text, printed verbatim.
    Raw(String),
}

/// An SSA value: its unique name and its type.
pub struct Value {
    pub name: String,
    pub ty: Ty,
}

/// A basic block: its unique name, its arguments and its operations.
pub struct Block {
    pub label: String,
    pub args: Vec<Value>,
    pub ops: Vec<Operation>,
}

/// A region: a list of blocks.
pub struct Region {
    pub blocks: Vec<Block>,
}

/// The total of `sizes`.
pub open spec fn seq_total(sizes: Seq<u32>) -> nat
    decreases sizes.len(),
{
    if sizes.len() == 0 {
        0
    } else {
        seq_total(sizes.drop_last()) + sizes.last() as nat
    }
}

/// The operand segment sizes of an operation: how many of its operands each
/// segment holds, in order. The segments partition the operands, so their
/// total is an operand count, which the segment sizes' own type bounds.
pub struct SegmentSizes {
    sizes: Vec<u32>,
}

impl SegmentSizes {
    #[verifier::type_invariant]
    spec fn total_fits(self) -> bool {
        seq_total(self.sizes@) <= u32::MAX
    }

    /// The sizes, segment by segment.
    pub closed spec fn sizes_view(self) -> Seq<u32> {
        self.sizes@
    }

    /// The segment sizes `sizes`, or `None` if their total exceeds a `u32`.
    pub fn new(sizes: Vec<u32>) -> (res: Option<SegmentSizes>)
        ensures
            res is Some <==> seq_total(sizes@) <= u32::MAX,
            res matches Some(s) ==> s.sizes_view() == sizes@,
    {
        let mut total: u64 = 0;
        let mut i: usize = 0;
        while i < sizes.len()
            invariant
                i <= sizes@.len(),
                total == seq_total(sizes@.take(i as int)),
                total <= u32::MAX,
            decreases sizes.len() - i,
        {
            assert(sizes@.take(i + 1).drop_last() =~= sizes@.take(i as int));
            total = total + sizes[i] as u64;
            if total > 0xffff_ffffu64 {
                proof {
                    lemma_seq_total_prefix(sizes@, i + 1);
                }
                return None;
            }
            i += 1;
        }
        assert(sizes@.take(i as int) =~= sizes@);
        Some(SegmentSizes { sizes })
    }

    /// The sizes, segment by segment.
    pub fn sizes(&self) -> (res: &Vec<u32>)
        ensures
            res@ == self.sizes_view(),
            seq_total(res@) <= u32::MAX,
    {
        proof {
            use_type_invariant(self);
        }
        &self.sizes
    }
}

/// A prefix of `sizes` totals no more than `sizes`.
pub proof fn lemma_seq_total_prefix(sizes: Seq<u32>, n: int)
    requires
        0 <= n <= sizes.len(),
    ensures
        seq_total(sizes.take(n)) <= seq_total(sizes),
    decreases sizes.len(),
{
    if n < sizes.len() {
        assert(sizes.drop_last().take(n) =~= sizes.take(n));
        lemma_seq_total_prefix(sizes.drop_last(), n);
    } else {
        assert(sizes.take(n) =~= sizes);
    }
}

/// A suffix of `sizes` totals no more than `sizes`.
pub proof fn lemma_seq_total_suffix(sizes: Seq<u32>, n: int)
    requires
        0 <= n <= sizes.len(),
    ensures
        seq_total(sizes.skip(n)) <= seq_total(sizes),
    decreases sizes.len(),
{
    if n < sizes.len() {
        assert(sizes.skip(n).drop_last() =~= sizes.drop_last().skip(n));
        lemma_seq_total_suffix(sizes.drop_last(), n);
    } else {
        assert(sizes.skip(n) =~= seq![]);
    }
}

/// An operation.
pub struct Operation {
    /// What kind of operation this is, with what its translation reads.
    pub kind: OpKind,
    pub results: Vec<Value>,
    pub operands: Vec<Value>,
    /// The unique names of the successor blocks.
    pub successors: Vec<String>,
    pub regions: Vec<Region>,
    /// The attribute dictionary, read by the default translation.
    pub attributes: Vec<(String, Attr)>,
    /// Where the operation comes from, as an index that the caller keeps:
    /// the errors raised at this operation carry it.
    pub location: usize,
}

/// LLVM operations that carry only their operands, results and successors.
#[derive(PartialEq, Eq, Structural, Clone, Copy)]
pub enum DirectOp {
    Return,
    Unreachable,
    Br,
    UDiv,
    SDiv,
    URem,
    SRem,
    And,
    Or,
    Xor,
    LShr,
    AShr,
    Bitcast,
    IntToPtr,
    PtrToInt,
    AddrSpaceCast,
    SExt,
    Trunc,
    FPToSI,
    FPToUI,
    SIToFP,
    Freeze,
    Undef,
    Poison,
    Zero,
    InsertElement,
    ExtractElement,
    VAArg,
}

/// LLVM integer arithmetic that carries overflow flags.
#[derive(PartialEq, Eq, Structural, Clone, Copy)]
pub enum OverflowOp {
    Add,
    Sub,
    Mul,
    Shl,
}

/// LLVM floating point operations that carry fast-math flags.
#[derive(PartialEq, Eq, Structural, Clone, Copy)]
pub enum FastmathOp {
    FAdd,
    FSub,
    FMul,
    FDiv,
    FRem,
    FNeg,
    FPExt,
    FPTrunc,
}

/// LLVM widening conversions that carry the `nneg` flag.
#[derive(PartialEq, Eq, Structural, Clone, Copy)]
pub enum NNegOp {
    ZExt,
    UIToFP,
}

/// The kind of an operation, with the data its translation reads.
pub enum OpKind {
    /// `builtin.module`.
    Module { sym_name: String },
    /// `builtin.func`.
    BuiltinFunc { sym_name: String, function_type: Ty },
    /// `builtin.constant`.
    BuiltinConstant { value: Attr },
    /// An LLVM operation with no properties.
    Direct(DirectOp),
    /// LLVM integer arithmetic, with its overflow flags if set.
    Overflow { op: OverflowOp, flags: Option<(bool, bool)> },
    /// LLVM floating point arithmetic, with its fast-math flags if set.
    Fastmath { op: FastmathOp, flags: Option<FastmathFlags> },
    /// An LLVM widening conversion, with its `nneg` flag if set.
    NNeg { op: NNegOp, nneg: Option<bool> },
    /// `llvm.icmp`.
    ICmp { predicate: ICmpPredicateAttr },
    /// `llvm.fcmp`.
    FCmp { predicate: FCmpPredicateAttr, flags: Option<FastmathFlags> },
    /// `llvm.select`.
    Select { flags: Option<FastmathFlags> },
    /// `llvm.alloca`.
    Alloca { elem_type: Ty, alignment: Option<u32> },
    /// `llvm.getelementptr`.
    GetElementPtr { elem_type: Ty, indices: Vec<GepIndexAttr> },
    /// `llvm.load`.
    Load { alignment: Option<u32> },
    /// `llvm.store`.
    Store { alignment: Option<u32> },
    /// An atomic `llvm.load`.
    AtomicLoad { ordering: AtomicOrderingAttr, syncscope: Option<Attr>, alignment: Option<u32> },
    /// An atomic `llvm.store`.
    AtomicStore { ordering: AtomicOrderingAttr, syncscope: Option<Attr>, alignment: Option<u32> },
    /// `llvm.atomicrmw`.
    AtomicRmw { kind: AtomicRmwKindAttr, ordering: AtomicOrderingAttr, syncscope: Option<Attr> },
    /// `llvm.cmpxchg`.
    AtomicCmpxchg {
        success: AtomicOrderingAttr,
        failure: AtomicOrderingAttr,
        syncscope: Option<Attr>,
    },
    /// `llvm.fence`.
    Fence { ordering: AtomicOrderingAttr, syncscope: Option<Attr> },
    /// `llvm.insertvalue`.
    InsertValue { position: Vec<u32> },
    /// `llvm.extractvalue`.
    ExtractValue { position: Vec<u32> },
    /// `llvm.shufflevector`.
    ShuffleVector { mask: Vec<i32> },
    /// `llvm.cond_br`, with its operand segment sizes.
    CondBr { segments: Vec<u32> },
    /// `llvm.switch`, with its operand segment sizes and case values.
    Switch { segments: SegmentSizes, case_values: Option<Vec<IntegerAttr>> },
    /// `llvm.indirectbr`, with its operand segment sizes.
    IndirectBr { segments: Vec<u32> },
    /// `llvm.constant`.
    Constant { value: Attr },
    /// `llvm.addressof`.
    AddressOf { global_name: String },
    /// `llvm.blocktag`.
    BlockTag { tag_id: u64 },
    /// `llvm.blockaddress`.
    BlockAddress { function: String, tag_id: u64 },
    /// `llvm.inline_asm`.
    InlineAsm { template: String, constraints: String, convergent: Option<bool> },
    /// `llvm.call`: the callee if direct, the fast-math flags if set, and the
    /// callee's type.
    Call { callee: Option<String>, flags: Option<FastmathFlags>, callee_type: Ty },
    /// `llvm.call_intrinsic`.
    CallIntrinsic { name: String, flags: Option<FastmathFlags> },
    /// `llvm.func`.
    Func { sym_name: String, func_type: Ty, linkage: Option<LinkageAttr> },
    /// `llvm.global`.
    Global {
        sym_name: String,
        global_type: Ty,
        linkage: Option<LinkageAttr>,
        address_space: u32,
        initializer: Option<Attr>,
        alignment: Option<u32>,
    },
    /// An operation translated by the default rule, named by its op id.
    Generic { op_id: String },
    /// An operation whose translation is its own: MLIR's generic syntax with
    /// `mnemonic`, the `results` to print in place of the operation's own if
    /// given, at least `min_regions` regions, and the entries of the
    /// properties and of the discardable attribute dictionaries, in order.
    Custom {
        mnemonic: String,
        results: Option<Vec<Value>>,
        min_regions: usize,
        properties: Vec<(String, DictValue)>,
        attributes: Vec<(String, DictValue)>,
    },
    /// An operation without an MLIR translation, named by its op id.
    Unsupported { op_id: String },
}

} // verus!
