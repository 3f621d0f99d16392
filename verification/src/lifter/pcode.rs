use vstd::prelude::*;

use arrayvec::ArrayVec;

use crate::bits::{byte_mask, calculate_mask};

verus! {

/// The most labels a template can define.
pub const MAX_LABELS: usize = 192;

/// The most pairs of inputs beyond the first two that an operation can take.
pub const MAX_INPUTS_SPILL: usize = 8;

/// The most delay slot contexts.
pub const MAX_DELAY_CTXTS: usize = 8;

/// The space number that marks a varnode as absent.
pub const INVALID_HANDLE: u8 = 0xff;

/// The position of a label that has not been placed.
pub const INVALID_LABEL: i16 = -1;

#[verifier::external_type_specification]
#[verifier::external_body]
#[verifier::reject_recursive_types(T)]
pub struct ExArrayVec<T, const CAP: usize>(ArrayVec<T, CAP>);

/// The pairs of inputs that an `ArrayVec` of spilled inputs holds, in order.
pub uninterp spec fn spill_contents(v: ArrayVec<Inputs, MAX_INPUTS_SPILL>) -> Seq<Inputs>;

/// The label references that an `ArrayVec` of them holds, in order.
pub uninterp spec fn ref_contents(v: ArrayVec<RelativeRecord, MAX_LABELS>) -> Seq<RelativeRecord>;

/// `ArrayVec::new`: an empty vector.
#[verifier::external_body]
fn spill_new() -> (r: ArrayVec<Inputs, MAX_INPUTS_SPILL>)
    ensures
        spill_contents(r) == Seq::<Inputs>::empty(),
{
    ArrayVec::new()
}

/// `ArrayVec::len`: the number of items held.
#[verifier::external_body]
fn spill_len(v: &ArrayVec<Inputs, MAX_INPUTS_SPILL>) -> (r: usize)
    ensures
        r == spill_contents(*v).len(),
{
    v.len()
}

/// `ArrayVec::push`: appends an item; it panics when the vector is full.
#[verifier::external_body]
fn spill_push(v: &mut ArrayVec<Inputs, MAX_INPUTS_SPILL>, x: Inputs)
    requires
        spill_contents(*old(v)).len() < MAX_INPUTS_SPILL,
    ensures
        spill_contents(*final(v)) == spill_contents(*old(v)).push(x),
{
    v.push(x)
}

/// `last` of the vector's slice: a copy of its last item.
#[verifier::external_body]
fn spill_last(v: &ArrayVec<Inputs, MAX_INPUTS_SPILL>) -> (r: Inputs)
    requires
        spill_contents(*v).len() > 0,
    ensures
        r == spill_contents(*v).last(),
{
    *v.last().unwrap()
}

/// `last_mut` of the vector's slice: replaces its last item.
#[verifier::external_body]
fn spill_set_last(v: &mut ArrayVec<Inputs, MAX_INPUTS_SPILL>, x: Inputs)
    requires
        spill_contents(*old(v)).len() > 0,
    ensures
        spill_contents(*final(v)) == spill_contents(*old(v)).update(
            spill_contents(*old(v)).len() - 1,
            x,
        ),
{
    *v.last_mut().unwrap() = x;
}

/// `ArrayVec::drain` over the whole vector: takes every item out, in order.
#[verifier::external_body]
fn spill_drain(v: &mut ArrayVec<Inputs, MAX_INPUTS_SPILL>) -> (r: Vec<Inputs>)
    ensures
        r@ == spill_contents(*old(v)),
        spill_contents(*final(v)) == Seq::<Inputs>::empty(),
{
    v.drain(..).collect()
}

/// `ArrayVec::new`: an empty vector.
#[verifier::external_body]
fn refs_new() -> (r: ArrayVec<RelativeRecord, MAX_LABELS>)
    ensures
        ref_contents(r) == Seq::<RelativeRecord>::empty(),
{
    ArrayVec::new()
}

/// `ArrayVec::len`: the number of items held.
#[verifier::external_body]
fn refs_len(v: &ArrayVec<RelativeRecord, MAX_LABELS>) -> (r: usize)
    ensures
        r == ref_contents(*v).len(),
{
    v.len()
}

/// Indexing the vector's slice: a copy of the item at `i`.
#[verifier::external_body]
fn refs_get(v: &ArrayVec<RelativeRecord, MAX_LABELS>, i: usize) -> (r: RelativeRecord)
    requires
        i < ref_contents(*v).len(),
    ensures
        r == ref_contents(*v)[i as int],
{
    v[i]
}

/// `ArrayVec::push`: appends an item; it panics when the vector is full.
#[verifier::external_body]
fn refs_push(v: &mut ArrayVec<RelativeRecord, MAX_LABELS>, x: RelativeRecord)
    requires
        ref_contents(*old(v)).len() < MAX_LABELS,
    ensures
        ref_contents(*final(v)) == ref_contents(*old(v)).push(x),
{
    v.push(x)
}

/// A location of lifted p-code: an offset of some size in a numbered space.
#[derive(Debug, Copy, Clone, PartialEq, Eq, Structural, Hash)]
pub struct Varnode {
    pub space: u8,
    pub offset: u64,
    pub size: u8,
}

/// The absent varnode.
pub open spec fn invalid_varnode() -> Varnode {
    Varnode { space: INVALID_HANDLE, offset: 0, size: 0 }
}

impl Varnode {
    /// The absent varnode.
    pub fn invalid() -> (r: Varnode)
        ensures
            r == invalid_varnode(),
    {
        Varnode { space: INVALID_HANDLE, offset: 0, size: 0 }
    }

    /// A varnode.
    pub fn new(space: u8, offset: u64, size: u8) -> (r: Self)
        ensures
            r == (Varnode { space, offset, size }),
    {
        Varnode { space, offset, size }
    }

    /// A constant: `value` in the constant space, space 0.
    pub fn constant(value: u64, size: u8) -> (r: Self)
        ensures
            r == (Varnode { space: 0, offset: value, size }),
    {
        Self::new(0, value, size)
    }

    /// Whether the varnode is a constant.
    pub fn is_constant(&self) -> (r: bool)
        ensures
            r == (self.space == 0),
    {
        self.space == 0
    }

    /// Whether the varnode is absent.
    pub fn is_invalid(&self) -> (r: bool)
        ensures
            r == (self.space == INVALID_HANDLE),
    {
        self.space == INVALID_HANDLE
    }
}

impl Default for Varnode {
    fn default() -> (r: Self)
        ensures
            r == invalid_varnode(),
    {
        Varnode::invalid()
    }
}

/// The two inputs that an operation holds directly.
#[derive(Debug, Copy, Clone, PartialEq, Eq, Structural, Hash)]
pub struct Inputs {
    first: Varnode,
    second: Varnode,
}

impl View for Inputs {
    type V = (Varnode, Varnode);

    closed spec fn view(&self) -> (Varnode, Varnode) {
        (self.first, self.second)
    }
}

/// The inputs `a` and `b`.
pub closed spec fn inputs_of(a: Varnode, b: Varnode) -> Inputs {
    Inputs { first: a, second: b }
}

/// The input at `index` (0 or 1).
pub open spec fn input_at(i: Inputs, index: int) -> Varnode {
    if index == 0 {
        i@.0
    } else {
        i@.1
    }
}

pub proof fn lemma_inputs_of(a: Varnode, b: Varnode)
    ensures
        #[trigger] inputs_of(a, b)@ == (a, b),
{
}

pub proof fn lemma_inputs_eq(x: Inputs, y: Inputs)
    requires
        x@ == y@,
    ensures
        x == y,
{
}

impl Default for Inputs {
    fn default() -> (r: Self)
        ensures
            r@ == (invalid_varnode(), invalid_varnode()),
    {
        Inputs { first: Varnode::invalid(), second: Varnode::invalid() }
    }
}

impl Inputs {
    /// The single input `vnd`.
    pub fn one(vnd: Varnode) -> (r: Self)
        ensures
            r@ == (vnd, invalid_varnode()),
    {
        Inputs { first: vnd, second: Varnode::invalid() }
    }

    /// The inputs `vnd1` and `vnd2`.
    pub fn two(vnd1: Varnode, vnd2: Varnode) -> (r: Self)
        ensures
            r@ == (vnd1, vnd2),
    {
        Inputs { first: vnd1, second: vnd2 }
    }

    /// Replaces the input at `index`.
    pub fn set_input(&mut self, index: usize, vnd: Varnode)
        requires
            index < 2,
        ensures
            final(self)@ == if index == 0 {
                (vnd, old(self)@.1)
            } else {
                (old(self)@.0, vnd)
            },
    {
        if index == 0 {
            self.first = vnd;
        } else {
            self.second = vnd;
        }
    }

    /// Whether the second input is absent (the name notwithstanding, this
    /// is what marks a pair as holding one input).
    pub fn is_full(&self) -> (r: bool)
        ensures
            r == (self@.1.space == INVALID_HANDLE),
    {
        self.second.is_invalid()
    }
}

/// A p-code operation.
#[derive(Debug, Copy, Clone, PartialEq, Eq, Structural, Hash)]
pub enum Op {
    Copy,
    Load(u8),
    Store(u8),
    IntAdd,
    IntSub,
    IntXor,
    IntOr,
    IntAnd,
    IntMul,
    IntDiv,
    IntSignedDiv,
    IntRem,
    IntSignedRem,
    IntLeftShift,
    IntRightShift,
    IntSignedRightShift,
    IntEq,
    IntNotEq,
    IntLess,
    IntSignedLess,
    IntLessEq,
    IntSignedLessEq,
    IntCarry,
    IntSignedCarry,
    IntSignedBorrow,
    IntNot,
    IntNeg,
    CountOnes,
    CountZeros,
    ZeroExt,
    SignExt,
    IntToFloat,
    BoolAnd,
    BoolOr,
    BoolXor,
    BoolNot,
    FloatAdd,
    FloatSub,
    FloatMul,
    FloatDiv,
    FloatNeg,
    FloatAbs,
    FloatSqrt,
    FloatCeiling,
    FloatFloor,
    FloatRound,
    FloatTruncate,
    FloatIsNaN,
    FloatEq,
    FloatNotEq,
    FloatLess,
    FloatLessEq,
    FloatToInt,
    FloatToFloat,
    Branch,
    CBranch,
    IBranch,
    Call,
    ICall,
    Return,
    Subpiece,
    Arg(u16),
    UserOp(u16),
}

/// A p-code operation with its inputs and output.
#[derive(Debug, Copy, Clone, PartialEq, Eq, Structural, Hash)]
pub struct PCodeOp {
    pub op: Op,
    pub inputs: Inputs,
    pub output: Varnode,
}

/// A use of a label: input `index & 1` of the operation `operation` (plus
/// `index >> 2`) holds a label number to be replaced by a relative offset.
#[derive(Debug, Copy, Clone, PartialEq, Eq, Structural, Hash)]
pub struct RelativeRecord {
    pub operation: u8,
    pub index: u8,
}

/// The number of pairs of inputs that spill past the first two, for
/// `count` inputs.
pub open spec fn spill_count(count: int) -> int {
    if count <= 2 {
        0
    } else {
        (count - 1) / 2
    }
}

/// The inputs of `p` at `k` and `k + 1`, absent where `p` ends.
pub open spec fn pair_from(p: Seq<Varnode>, k: int) -> (Varnode, Varnode) {
    (
        if 0 <= k < p.len() {
            p[k]
        } else {
            invalid_varnode()
        },
        if 0 <= k + 1 < p.len() {
            p[k + 1]
        } else {
            invalid_varnode()
        },
    )
}

/// The operations that issuing `op` with output `output` and the inputs
/// `p` gives: the operation with the first two inputs, then one `Arg`
/// operation for each further pair, whose operand is 2 where the pair's
/// second input is absent and 1 otherwise.
pub open spec fn issued_ops(op: Op, output: Varnode, p: Seq<Varnode>) -> Seq<PCodeOp> {
    seq![PCodeOp { op, inputs: inputs_of(pair_from(p, 0).0, pair_from(p, 0).1), output }] + Seq::new(
        spill_count(p.len() as int) as nat,
        |j: int|
            {
                let pair = pair_from(p, 2 + 2 * j);
                PCodeOp {
                    op: Op::Arg(
                        if pair.1.space == INVALID_HANDLE {
                            2
                        } else {
                            1
                        },
                    ),
                    inputs: inputs_of(pair.0, pair.1),
                    output: invalid_varnode(),
                }
            },
    )
}

/// `x - y` wrapped to 64 bits.
pub open spec fn wrap_sub(x: u64, y: u64) -> u64 {
    if x - y < 0 {
        (x - y + 0x1_0000_0000_0000_0000) as u64
    } else {
        (x - y) as u64
    }
}

/// Replaces the label numbers that the references `refs` (from position
/// `i` on) point at in `issued` with offsets relative to the referring
/// operation, masked to the varnode's size.  It stops with `false` at the
/// first reference to a label that is out of range or not placed, and is
/// `None` where a reference points past the operations.
pub open spec fn resolve_spec(
    issued: Seq<PCodeOp>,
    labels: Seq<i16>,
    refs: Seq<RelativeRecord>,
    i: int,
) -> Option<(Seq<PCodeOp>, bool)>
    decreases refs.len() - i,
{
    if i < 0 || i >= refs.len() {
        Some((issued, true))
    } else {
        let rel = refs[i];
        let op_index = rel.operation + rel.index / 4;
        if op_index > u8::MAX || op_index >= issued.len() {
            None
        } else {
            let in_index = rel.index % 2;
            let op = issued[op_index];
            let vn = input_at(op.inputs, in_index as int);
            let label_index = vn.offset as usize;
            if label_index >= labels.len() {
                Some((issued, false))
            } else {
                let label = labels[label_index as int];
                if label == INVALID_LABEL {
                    Some((issued, false))
                } else {
                    let fixed = wrap_sub(label as u64, rel.operation as u64) & (byte_mask(
                        vn.size as int,
                    ) as u64);
                    let nvn = Varnode { offset: fixed, ..vn };
                    let ninputs = if in_index == 0 {
                        inputs_of(nvn, op.inputs@.1)
                    } else {
                        inputs_of(op.inputs@.0, nvn)
                    };
                    resolve_spec(
                        issued.update(op_index, PCodeOp { inputs: ninputs, ..op }),
                        labels,
                        refs,
                        i + 1,
                    )
                }
            }
        }
    }
}

/// Whether every label reference in `refs` names an operation among the
/// `n` issued.
pub open spec fn refs_in_range(refs: Seq<RelativeRecord>, n: nat) -> bool {
    forall|j: int|
        0 <= j < refs.len() ==> (#[trigger] refs[j]).operation + refs[j].index / 4 <= u8::MAX
            && refs[j].operation + refs[j].index / 4 < n
}

proof fn lemma_refs_in_range_resolve(issued: Seq<PCodeOp>, labels: Seq<i16>, refs: Seq<RelativeRecord>, i: int)
    requires
        refs_in_range(refs, issued.len()),
    ensures
        resolve_spec(issued, labels, refs, i) is Some,
    decreases refs.len() - i,
{
    if 0 <= i < refs.len() {
        let rel = refs[i];
        let op_index = rel.operation + rel.index / 4;
        let op = issued[op_index];
        let vn = input_at(op.inputs, (rel.index % 2) as int);
        let label_index = vn.offset as usize;
        if label_index < labels.len() && labels[label_index as int] != INVALID_LABEL {
            let fixed = wrap_sub(labels[label_index as int] as u64, rel.operation as u64) & (byte_mask(
                vn.size as int,
            ) as u64);
            let nvn = Varnode { offset: fixed, ..vn };
            let ninputs = if rel.index % 2 == 0 {
                inputs_of(nvn, op.inputs@.1)
            } else {
                inputs_of(op.inputs@.0, nvn)
            };
            lemma_refs_in_range_resolve(issued.update(op_index, PCodeOp { inputs: ninputs, ..op }), labels, refs, i + 1);
        }
    }
}

/// The operations that resolving the label references `refs` leaves.
pub open spec fn resolved_ops(issued: Seq<PCodeOp>, labels: Seq<i16>, refs: Seq<RelativeRecord>) -> Seq<
    PCodeOp,
> {
    match resolve_spec(issued, labels, refs, 0) {
        Some(res) => res.0,
        None => issued,
    }
}

/// The `c` inputs held as the first two in `inputs` and then in pairs in
/// `sp`, in order.
pub open spec fn pending_of(inputs: Inputs, sp: Seq<Inputs>, c: nat) -> Seq<Varnode> {
    Seq::new(
        c,
        |k: int|
            if k < 2 {
                input_at(inputs, k)
            } else {
                input_at(sp[(k - 2) / 2], (k - 2) % 2)
            },
    )
}

/// Whether `inputs` and `sp` hold `c` inputs, with the unused places absent.
pub open spec fn wf_of(inputs: Inputs, sp: Seq<Inputs>, c: nat) -> bool {
    &&& c <= 2 + 2 * MAX_INPUTS_SPILL
    &&& sp.len() == spill_count(c as int)
    &&& inputs@ == pair_from(pending_of(inputs, sp, c), 0)
    &&& forall|j: int| 0 <= j < sp.len() ==> (#[trigger] sp[j])@ == pair_from(pending_of(inputs, sp, c), 2 + 2 * j)
}

/// Pushing an input the way `push_input` does appends it to the pending
/// inputs.
proof fn lemma_push(inputs: Inputs, sp: Seq<Inputs>, c: nat, vnd: Varnode, inputs2: Inputs, sp2: Seq<Inputs>)
    requires
        wf_of(inputs, sp, c),
        c < 2 + 2 * MAX_INPUTS_SPILL,
        c < 2 ==> sp2 == sp && inputs2@ == if c == 0 {
            (vnd, inputs@.1)
        } else {
            (inputs@.0, vnd)
        },
        c >= 2 && c % 2 == 0 ==> inputs2 == inputs && sp2 == sp.push(inputs_of(vnd, invalid_varnode())),
        c >= 2 && c % 2 == 1 ==> inputs2 == inputs && sp.len() > 0 && sp2 == sp.update(
            sp.len() - 1,
            inputs_of(sp.last()@.0, vnd),
        ),
    ensures
        wf_of(inputs2, sp2, c + 1),
        pending_of(inputs2, sp2, c + 1) == pending_of(inputs, sp, c).push(vnd),
{
    let p = pending_of(inputs, sp, c);
    let q = p.push(vnd);
    assert forall|k: int| 0 <= k < q.len() implies #[trigger] pending_of(inputs2, sp2, c + 1)[k] == q[k] by {
        if k >= 2 {
            let j = (k - 2) / 2;
            if j < sp.len() {
                assert(sp[j]@ == pair_from(p, 2 + 2 * j));
            }
        }
    }
    assert(pending_of(inputs2, sp2, c + 1) =~= q);
    assert forall|j: int| 0 <= j < sp2.len() implies (#[trigger] sp2[j])@ == pair_from(q, 2 + 2 * j) by {
        if j < sp.len() {
            assert(sp[j]@ == pair_from(p, 2 + 2 * j));
        }
    }
}

/// The state of building the p-code of one instruction: the inputs of the
/// operation being built, the labels of the template and their uses, and
/// the operations issued so far.
pub struct PCodeBuilderContext {
    pub inputs: Inputs,
    pub inputs_count: u8,
    pub inputs_spill: ArrayVec<Inputs, MAX_INPUTS_SPILL>,
    pub label_base: u8,
    pub label_count: u8,
    pub labels: [i16; MAX_LABELS],
    pub label_refs: ArrayVec<RelativeRecord, MAX_LABELS>,
    pub issued: Vec<PCodeOp>,
    pub unique_mask: u64,
}

impl PCodeBuilderContext {
    /// The inputs pushed since the last operation was issued, in order.
    pub open spec fn pending(&self) -> Seq<Varnode> {
        pending_of(self.inputs, spill_contents(self.inputs_spill), self.inputs_count as nat)
    }

    /// The pending inputs are held as the first two and then in pairs, with
    /// the unused places absent.
    pub open spec fn wf(&self) -> bool {
        wf_of(self.inputs, spill_contents(self.inputs_spill), self.inputs_count as nat)
    }

    /// A context with no inputs, no placed labels and nothing issued.
    pub fn new(unique_mask: u64) -> (r: Self)
        ensures
            r.wf(),
            r.pending() == Seq::<Varnode>::empty(),
            r.inputs_count == 0,
            r.label_base == 0,
            r.label_count == 0,
            forall|i: int| 0 <= i < MAX_LABELS ==> r.labels[i] == INVALID_LABEL,
            ref_contents(r.label_refs) == Seq::<RelativeRecord>::empty(),
            r.issued@ == Seq::<PCodeOp>::empty(),
            r.unique_mask == unique_mask,
    {
        let r = PCodeBuilderContext {
            inputs: Inputs::default(),
            inputs_count: 0,
            inputs_spill: spill_new(),
            label_base: 0,
            label_count: 0,
            labels: [INVALID_LABEL; MAX_LABELS],
            label_refs: refs_new(),
            issued: Vec::new(),
            unique_mask,
        };
        proof {
            assert(r.pending() =~= Seq::<Varnode>::empty());
        }
        r
    }

    /// Records a use of a label, to be resolved when the operations are
    /// emitted.  At most `MAX_LABELS` uses can be recorded.
    pub fn push_label_ref(&mut self, record: RelativeRecord)
        requires
            ref_contents(old(self).label_refs).len() < MAX_LABELS,
        ensures
            ref_contents(final(self).label_refs) == ref_contents(old(self).label_refs).push(record),
            final(self).inputs == old(self).inputs,
            final(self).inputs_count == old(self).inputs_count,
            final(self).inputs_spill == old(self).inputs_spill,
            final(self).label_base == old(self).label_base,
            final(self).label_count == old(self).label_count,
            final(self).labels == old(self).labels,
            final(self).issued == old(self).issued,
            final(self).unique_mask == old(self).unique_mask,
    {
        refs_push(&mut self.label_refs, record);
    }

    /// Appends an input to the operation being built.
    #[verifier::spinoff_prover]
    #[verifier::rlimit(40)]
    pub fn push_input(&mut self, vnd: Varnode)
        requires
            old(self).wf(),
            old(self).inputs_count < 2 + 2 * MAX_INPUTS_SPILL,
        ensures
            final(self).wf(),
            final(self).pending() == old(self).pending().push(vnd),
            final(self).inputs_count == old(self).inputs_count + 1,
            final(self).label_base == old(self).label_base,
            final(self).label_count == old(self).label_count,
            final(self).labels == old(self).labels,
            final(self).label_refs == old(self).label_refs,
            final(self).issued == old(self).issued,
            final(self).unique_mask == old(self).unique_mask,
    {
        let c = self.inputs_count;
        if c < 2 {
            self.inputs.set_input(c as usize, vnd);
        } else if c % 2 == 0 {
            let one = Inputs::one(vnd);
            proof {
                lemma_inputs_eq(one, inputs_of(vnd, invalid_varnode()));
            }
            spill_push(&mut self.inputs_spill, one);
        } else {
            let mut last = spill_last(&self.inputs_spill);
            last.set_input(1, vnd);
            proof {
                lemma_inputs_eq(last, inputs_of(spill_contents(old(self).inputs_spill).last()@.0, vnd));
            }
            spill_set_last(&mut self.inputs_spill, last);
        }
        self.inputs_count = c + 1;
        proof {
            lemma_push(
                old(self).inputs,
                spill_contents(old(self).inputs_spill),
                c as nat,
                vnd,
                self.inputs,
                spill_contents(self.inputs_spill),
            );
        }
    }

    /// Issues `op` with output `output` and the pending inputs, which are
    /// then cleared.
    #[verifier::spinoff_prover]
    #[verifier::rlimit(30)]
    pub fn issue(&mut self, op: Op, output: Varnode)
        requires
            old(self).wf(),
        ensures
            final(self).wf(),
            final(self).issued@ == old(self).issued@ + issued_ops(op, output, old(self).pending()),
            final(self).pending() == Seq::<Varnode>::empty(),
            final(self).inputs_count == 0,
            final(self).label_base == old(self).label_base,
            final(self).label_count == old(self).label_count,
            final(self).labels == old(self).labels,
            final(self).label_refs == old(self).label_refs,
            final(self).unique_mask == old(self).unique_mask,
    {
        let ghost p = self.pending();
        let inputs = self.inputs;
        self.inputs = Inputs::default();
        let pcode = PCodeOp { op, inputs, output };
        self.issued.push(pcode);
        let spilled = spill_drain(&mut self.inputs_spill);
        let n = spilled.len();
        let ghost base = self.issued@;
        let mut j: usize = 0;
        while j < n
            invariant
                j <= n == spilled@.len() == spill_count(p.len() as int),
                self.issued@.len() == base.len() + j,
                forall|k: int| 0 <= k < base.len() ==> self.issued@[k] == base[k],
                forall|k: int|
                    0 <= k < j ==> #[trigger] self.issued@[base.len() + k] == issued_ops(op, output, p)[1 + k],
                forall|k: int| 0 <= k < n ==> (#[trigger] spilled@[k])@ == pair_from(p, 2 + 2 * k),
                self.inputs@ == (invalid_varnode(), invalid_varnode()),
                spill_contents(self.inputs_spill) == Seq::<Inputs>::empty(),
                self.inputs_count == old(self).inputs_count,
                self.label_base == old(self).label_base,
                self.label_count == old(self).label_count,
                self.labels == old(self).labels,
                self.label_refs == old(self).label_refs,
                self.unique_mask == old(self).unique_mask,
            decreases n - j,
        {
            let inputs = spilled[j];
            let arg = if inputs.is_full() {
                2
            } else {
                1
            };
            proof {
                lemma_inputs_eq(inputs, inputs_of(inputs@.0, inputs@.1));
            }
            self.issued.push(PCodeOp { op: Op::Arg(arg), output: Varnode::invalid(), inputs });
            j = j + 1;
        }
        self.inputs_count = 0;
        proof {
            lemma_inputs_eq(inputs, inputs_of(pair_from(p, 0).0, pair_from(p, 0).1));
            let want = old(self).issued@ + issued_ops(op, output, p);
            let ol = old(self).issued@.len();
            assert(base == old(self).issued@.push(pcode));
            assert(issued_ops(op, output, p).len() == 1 + n);
            assert(self.issued@.len() == want.len());
            assert forall|k: int| 0 <= k < want.len() implies self.issued@[k] == want[k] by {
                if k < ol {
                    assert(self.issued@[k] == base[k]);
                    assert(base[k] == old(self).issued@[k]);
                } else if k == ol {
                    assert(self.issued@[k] == base[k]);
                    assert(issued_ops(op, output, p)[0] == pcode);
                    assert(want[k] == issued_ops(op, output, p)[0]);
                } else {
                    let m = k - ol - 1;
                    assert(self.issued@[base.len() + m] == issued_ops(op, output, p)[1 + m]);
                    assert(want[k] == issued_ops(op, output, p)[k - ol]);
                }
            }
            assert(self.inputs@ == (invalid_varnode(), invalid_varnode()));
            assert(spill_contents(self.inputs_spill).len() == 0);
            assert(self.pending().len() == 0);
            assert(self.issued@ =~= want);
            assert(self.pending() =~= Seq::<Varnode>::empty());
        }
    }

    /// Issues `op` with output `output` and the inputs `inputs`, leaving the
    /// pending inputs alone.
    pub fn issue_with(&mut self, op: Op, output: Varnode, inputs: Inputs)
        ensures
            final(self).issued@ == old(self).issued@.push(PCodeOp { op, inputs, output }),
            final(self).inputs == old(self).inputs,
            final(self).inputs_count == old(self).inputs_count,
            final(self).inputs_spill == old(self).inputs_spill,
            final(self).label_base == old(self).label_base,
            final(self).label_count == old(self).label_count,
            final(self).labels == old(self).labels,
            final(self).label_refs == old(self).label_refs,
            final(self).unique_mask == old(self).unique_mask,
    {
        self.issued.push(PCodeOp { op, inputs, output });
    }

    /// Replaces label numbers with relative offsets (see `resolve_spec`).
    fn resolve_relatives(&mut self) -> (r: Option<()>)
        requires
            resolve_spec(old(self).issued@, old(self).labels@, ref_contents(old(self).label_refs), 0) is Some,
        ensures
            ({
                let res = resolve_spec(old(self).issued@, old(self).labels@, ref_contents(old(self).label_refs), 0)->0;
                &&& final(self).issued@ == res.0
                &&& (r is Some) == res.1
            }),
            final(self).inputs == old(self).inputs,
            final(self).inputs_count == old(self).inputs_count,
            final(self).inputs_spill == old(self).inputs_spill,
            final(self).label_base == old(self).label_base,
            final(self).label_count == old(self).label_count,
            final(self).labels == old(self).labels,
            final(self).label_refs == old(self).label_refs,
            final(self).unique_mask == old(self).unique_mask,
    {
        let n = refs_len(&self.label_refs);
        let ghost refs = ref_contents(self.label_refs);
        let ghost goal = resolve_spec(self.issued@, self.labels@, refs, 0);
        let mut i: usize = 0;
        while i < n
            invariant
                i <= n == refs.len(),
                refs == ref_contents(self.label_refs),
                resolve_spec(self.issued@, self.labels@, refs, i as int) == goal,
                goal == resolve_spec(old(self).issued@, old(self).labels@, ref_contents(old(self).label_refs), 0),
                goal is Some,
                self.inputs == old(self).inputs,
                self.inputs_count == old(self).inputs_count,
                self.inputs_spill == old(self).inputs_spill,
                self.label_base == old(self).label_base,
                self.label_count == old(self).label_count,
                self.labels == old(self).labels,
                self.label_refs == old(self).label_refs,
                self.unique_mask == old(self).unique_mask,
            decreases n - i,
        {
            let rel = refs_get(&self.label_refs, i);
            let idx = rel.index;
            let shifted = idx >> 2;
            assert(shifted == idx / 4) by (bit_vector)
                requires
                    shifted == idx >> 2,
            ;
            let op_index = rel.operation as usize + shifted as usize;
            let in_index = idx & 1;
            assert(in_index == idx % 2) by (bit_vector)
                requires
                    in_index == idx & 1,
            ;
            let op = self.issued[op_index];
            let vn = if in_index == 0 {
                op.inputs.first
            } else {
                op.inputs.second
            };
            let label_index = #[verifier::truncate] (vn.offset as usize);
            proof {
                assert(vn == input_at(self.issued@[op_index as int].inputs, in_index as int));
                assert(self.labels@.len() == MAX_LABELS);
            }
            if label_index >= MAX_LABELS {
                assert(resolve_spec(self.issued@, self.labels@, refs, i as int) == Some((self.issued@, false)));
                return None;
            }
            let label = self.labels[label_index];
            if label == INVALID_LABEL {
                assert(resolve_spec(self.issued@, self.labels@, refs, i as int) == Some((self.issued@, false)));
                return None;
            }
            let fixed = (#[verifier::truncate] (label as u64)).wrapping_sub(rel.operation as u64) & calculate_mask(vn.size as usize);
            let nvn = Varnode { offset: fixed, ..vn };
            let ninputs = if in_index == 0 {
                Inputs { first: nvn, second: op.inputs.second }
            } else {
                Inputs { first: op.inputs.first, second: nvn }
            };
            self.issued.set(op_index, PCodeOp { inputs: ninputs, ..op });
            i = i + 1;
        }
        Some(())
    }

    /// The number of label uses recorded.
    pub fn label_ref_count(&self) -> (r: usize)
        ensures
            r == ref_contents(self.label_refs).len(),
    {
        refs_len(&self.label_refs)
    }

    /// Emits the operations (see `emit`) where every label use names an
    /// operation that has been issued; else changes nothing and gives none.
    pub fn try_emit(&mut self) -> (r: Option<Vec<PCodeOp>>)
        ensures
            refs_in_range(ref_contents(old(self).label_refs), old(self).issued@.len()) ==> r is Some && r->0@
                == resolved_ops(old(self).issued@, old(self).labels@, ref_contents(old(self).label_refs))
                && final(self).issued@ == Seq::<PCodeOp>::empty(),
            !refs_in_range(ref_contents(old(self).label_refs), old(self).issued@.len()) ==> r is None && *final(self)
                == *old(self),
            final(self).inputs == old(self).inputs,
            final(self).inputs_count == old(self).inputs_count,
            final(self).inputs_spill == old(self).inputs_spill,
            final(self).label_base == old(self).label_base,
            final(self).label_count == old(self).label_count,
            final(self).labels == old(self).labels,
            final(self).label_refs == old(self).label_refs,
            final(self).unique_mask == old(self).unique_mask,
    {
        let n = refs_len(&self.label_refs);
        let ghost refs = ref_contents(self.label_refs);
        let mut i: usize = 0;
        let mut ok = true;
        while i < n
            invariant
                i <= n == refs.len(),
                refs == ref_contents(self.label_refs),
                ok == forall|j: int|
                    0 <= j < i ==> (#[trigger] refs[j]).operation + refs[j].index / 4 <= u8::MAX
                        && refs[j].operation + refs[j].index / 4 < self.issued@.len(),
            decreases n - i,
        {
            let rel = refs_get(&self.label_refs, i);
            let op_index = rel.operation as usize + (rel.index / 4) as usize;
            if !(op_index <= 255 && op_index < self.issued.len()) {
                ok = false;
            }
            i = i + 1;
        }
        if !ok {
            return None;
        }
        proof {
            lemma_refs_in_range_resolve(self.issued@, self.labels@, refs, 0);
        }
        Some(self.emit())
    }

    /// Resolves label references (see `resolve_spec`) and hands out the
    /// operations issued, leaving none.
    pub fn emit(&mut self) -> (r: Vec<PCodeOp>)
        requires
            resolve_spec(old(self).issued@, old(self).labels@, ref_contents(old(self).label_refs), 0) is Some,
        ensures
            r@ == resolved_ops(old(self).issued@, old(self).labels@, ref_contents(old(self).label_refs)),
            final(self).issued@ == Seq::<PCodeOp>::empty(),
            final(self).inputs == old(self).inputs,
            final(self).inputs_count == old(self).inputs_count,
            final(self).inputs_spill == old(self).inputs_spill,
            final(self).label_base == old(self).label_base,
            final(self).label_count == old(self).label_count,
            final(self).labels == old(self).labels,
            final(self).label_refs == old(self).label_refs,
            final(self).unique_mask == old(self).unique_mask,
    {
        let _ = self.resolve_relatives();
        let mut issued: Vec<PCodeOp> = Vec::new();
        std::mem::swap(&mut issued, &mut self.issued);
        issued
    }
}

/// Issuing an operation keeps every pending input, in order: the first two
/// in the operation itself and each later pair in an `Arg` operation after
/// it; nothing else is issued.
pub proof fn lemma_issue_keeps_inputs(op: Op, output: Varnode, p: Seq<Varnode>)
    ensures
        issued_ops(op, output, p).len() == 1 + spill_count(p.len() as int),
        issued_ops(op, output, p)[0].op == op,
        issued_ops(op, output, p)[0].output == output,
        forall|k: int|
            0 <= k < p.len() ==> #[trigger] p[k] == if k < 2 {
                input_at(issued_ops(op, output, p)[0].inputs, k)
            } else {
                input_at(issued_ops(op, output, p)[1 + (k - 2) / 2].inputs, (k - 2) % 2)
            },
{
    let ops = issued_ops(op, output, p);
    assert forall|k: int|
        0 <= k < p.len() implies #[trigger] p[k] == if k < 2 {
            input_at(ops[0].inputs, k)
        } else {
            input_at(ops[1 + (k - 2) / 2].inputs, (k - 2) % 2)
        } by {
        let pair0 = pair_from(p, 0);
        lemma_inputs_of(pair0.0, pair0.1);
        if k >= 2 {
            let j = (k - 2) / 2;
            assert(j < spill_count(p.len() as int));
            let pair = pair_from(p, 2 + 2 * j);
            lemma_inputs_of(pair.0, pair.1);
        }
    }
}

} // verus!
