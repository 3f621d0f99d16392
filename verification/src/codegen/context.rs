use vstd::prelude::*;

use crate::codegen::handle::{
    generate_handle_resolver, generate_symbol_pattern, handle_code, pattern_code, HandleCode, HandleView,
};
use crate::codegen::pattern::{CodeView, PatternCode};
use crate::disassembly::symbol::Symbol;
use crate::sleigh::spaces::AddressSpaces;
use crate::sleigh::subtable::{Constructor, Context};

verus! {

/// A context word that a generated lifter sets before it parses the
/// operands of a constructor: the value of `value`, shifted left by
/// `shift`, into the bits `mask` of word `num`.
#[derive(Debug, PartialEq, Eq)]
pub struct ContextSetCode {
    pub num: usize,
    pub shift: u32,
    pub mask: u32,
    pub value: PatternCode,
}

/// Where the address of a committed context comes from: the handle of an
/// operand of the constructor, or a handle built as given.
#[derive(Debug, PartialEq, Eq)]
pub enum CommitHandleCode {
    Operand(u8),
    Handle(HandleCode),
}

/// A context that a generated lifter commits after it parses a
/// constructor: the bits `mask` of word `num`, saved as value `index` of
/// the commit, from the address that `handle` gives (scaled by `word_size`
/// in space 0) onwards, or only up to the next address (wrapped to
/// `highest`) where `flow` is false.
#[derive(Debug, PartialEq, Eq)]
pub struct ContextCommitCode {
    pub index: usize,
    pub num: usize,
    pub mask: u32,
    pub handle: CommitHandleCode,
    pub word_size: u64,
    pub flow: bool,
    pub highest: u64,
}

/// What a generated lifter does with the context changes of a constructor,
/// before and after parsing it.
#[derive(Debug, PartialEq, Eq)]
pub struct ContextActionsCode {
    pub pre: Vec<ContextSetCode>,
    pub post: Vec<ContextCommitCode>,
}

pub struct ContextSetView {
    pub num: usize,
    pub shift: u32,
    pub mask: u32,
    pub value: CodeView,
}

pub enum CommitHandleView {
    Operand(u8),
    Handle(HandleView),
}

pub struct ContextCommitView {
    pub index: usize,
    pub num: usize,
    pub mask: u32,
    pub handle: CommitHandleView,
    pub word_size: u64,
    pub flow: bool,
    pub highest: u64,
}

impl View for ContextSetCode {
    type V = ContextSetView;

    open spec fn view(&self) -> ContextSetView {
        ContextSetView { num: self.num, shift: self.shift, mask: self.mask, value: self.value@ }
    }
}

impl View for CommitHandleCode {
    type V = CommitHandleView;

    open spec fn view(&self) -> CommitHandleView {
        match self {
            CommitHandleCode::Operand(i) => CommitHandleView::Operand(*i),
            CommitHandleCode::Handle(h) => CommitHandleView::Handle(h@),
        }
    }
}

impl View for ContextCommitCode {
    type V = ContextCommitView;

    open spec fn view(&self) -> ContextCommitView {
        ContextCommitView {
            index: self.index,
            num: self.num,
            mask: self.mask,
            handle: self.handle@,
            word_size: self.word_size,
            flow: self.flow,
            highest: self.highest,
        }
    }
}

/// The size in bytes of a word of the default space.
pub open spec fn default_word_size(spaces: AddressSpaces) -> u64 {
    spaces.spec_space(spaces.spec_default_index()).def().spec_word_size() as u64
}

/// The highest offset of the default space.
pub open spec fn default_highest(spaces: AddressSpaces) -> u64 {
    spaces.spec_space(spaces.spec_default_index()).def().spec_highest()
}

/// Where a commit of symbol `symbol_id` takes its address: an operand
/// gives its own handle, any other symbol the handle it generates.
pub open spec fn commit_handle(symbol_id: usize, symbols: Seq<Symbol>, spaces: AddressSpaces, depth: nat) -> Option<
    CommitHandleView,
> {
    if symbol_id >= symbols.len() {
        None
    } else {
        match symbols[symbol_id as int] {
            Symbol::Operand { handle_index, .. } => Some(CommitHandleView::Operand(handle_index as u8)),
            _ => match handle_code(symbols[symbol_id as int], symbols, spaces, depth) {
                Some(h) => Some(CommitHandleView::Handle(h)),
                None => None,
            },
        }
    }
}

/// What a generated lifter does for the context changes `cs`, in order:
/// each write of an expression becomes a setting before parsing, each
/// commit a commit after it, numbered by the commits before it.  `None`
/// where the code for one of them cannot be generated.
pub open spec fn context_actions_code(cs: Seq<Context>, symbols: Seq<Symbol>, spaces: AddressSpaces, depth: nat) -> Option<
    (Seq<ContextSetView>, Seq<ContextCommitView>),
>
    decreases cs.len(),
{
    if cs.len() == 0 {
        Some((Seq::empty(), Seq::empty()))
    } else {
        match context_actions_code(cs.drop_last(), symbols, spaces, depth) {
            None => None,
            Some((pre, post)) => match cs.last() {
                Context::Operator { num, shift, mask, pattern_value } => match pattern_code(pattern_value, symbols, depth) {
                    None => None,
                    Some(c) => Some((pre.push(ContextSetView { num, shift, mask, value: c }), post)),
                },
                Context::Commit { symbol_id, num, mask, flow } => match commit_handle(symbol_id, symbols, spaces, depth) {
                    None => None,
                    Some(h) => Some(
                        (
                            pre,
                            post.push(
                                ContextCommitView {
                                    index: post.len() as usize,
                                    num,
                                    mask,
                                    handle: h,
                                    word_size: default_word_size(spaces),
                                    flow,
                                    highest: default_highest(spaces),
                                },
                            ),
                        ),
                    ),
                },
            },
        }
    }
}

proof fn lemma_prefix_generates(cs: Seq<Context>, symbols: Seq<Symbol>, spaces: AddressSpaces, depth: nat, k: int)
    requires
        0 <= k <= cs.len(),
        context_actions_code(cs, symbols, spaces, depth) is Some,
    ensures
        context_actions_code(cs.subrange(0, k), symbols, spaces, depth) is Some,
    decreases cs.len(),
{
    if k < cs.len() {
        lemma_prefix_generates(cs.drop_last(), symbols, spaces, depth, k);
        assert(cs.drop_last().subrange(0, k) =~= cs.subrange(0, k));
    } else {
        assert(cs.subrange(0, k) =~= cs);
    }
}

fn generate_commit_handle(symbol_id: usize, symbols: &Vec<Symbol>, spaces: &AddressSpaces, depth: usize) -> (r: CommitHandleCode)
    requires
        commit_handle(symbol_id, symbols@, *spaces, depth as nat) is Some,
    ensures
        r@ == commit_handle(symbol_id, symbols@, *spaces, depth as nat)->0,
{
    match &symbols[symbol_id] {
        Symbol::Operand { handle_index, .. } => CommitHandleCode::Operand(*handle_index as u8),
        s => CommitHandleCode::Handle(generate_handle_resolver(s, symbols, spaces, depth)),
    }
}

/// Generates what a lifter does with the context changes of `ctor` (see
/// `context_actions_code`).
pub fn generate_constructor_context_actions(ctor: &Constructor, symbols: &Vec<Symbol>, spaces: &AddressSpaces, depth: usize) -> (r: ContextActionsCode)
    requires
        context_actions_code(ctor@.context, symbols@, *spaces, depth as nat) is Some,
    ensures
        ({
            let (pre, post) = context_actions_code(ctor@.context, symbols@, *spaces, depth as nat)->0;
            &&& r.pre@.len() == pre.len()
            &&& forall|i: int| 0 <= i < pre.len() ==> (#[trigger] r.pre@[i])@ == pre[i]
            &&& r.post@.len() == post.len()
            &&& forall|i: int| 0 <= i < post.len() ==> (#[trigger] r.post@[i])@ == post[i]
        }),
{
    let cs = ctor.context();
    let ghost all = ctor@.context;
    let d = spaces.default_space_ref();
    let word_size = d.word_size() as u64;
    let highest = d.highest_offset();
    let mut pre: Vec<ContextSetCode> = Vec::new();
    let mut post: Vec<ContextCommitCode> = Vec::new();
    let n = cs.len();
    let mut i: usize = 0;
    while i < n
        invariant
            i <= n == cs@.len(),
            cs@ == all,
            context_actions_code(all, symbols@, *spaces, depth as nat) is Some,
            word_size == default_word_size(*spaces),
            highest == default_highest(*spaces),
            ({
                let (sp, so) = context_actions_code(all.subrange(0, i as int), symbols@, *spaces, depth as nat)->0;
                &&& context_actions_code(all.subrange(0, i as int), symbols@, *spaces, depth as nat) is Some
                &&& pre@.len() == sp.len()
                &&& forall|j: int| 0 <= j < sp.len() ==> (#[trigger] pre@[j])@ == sp[j]
                &&& post@.len() == so.len()
                &&& forall|j: int| 0 <= j < so.len() ==> (#[trigger] post@[j])@ == so[j]
            }),
        decreases n - i,
    {
        proof {
            lemma_prefix_generates(all, symbols@, *spaces, depth as nat, i + 1);
            assert(all.subrange(0, i + 1).drop_last() =~= all.subrange(0, i as int));
        }
        match &cs[i] {
            Context::Operator { num, shift, mask, pattern_value } => {
                let value = generate_symbol_pattern(pattern_value, symbols, depth);
                pre.push(ContextSetCode { num: *num, shift: *shift, mask: *mask, value });
            },
            Context::Commit { symbol_id, num, mask, flow } => {
                let handle = generate_commit_handle(*symbol_id, symbols, spaces, depth);
                let index = post.len();
                post.push(ContextCommitCode { index, num: *num, mask: *mask, handle, word_size, flow: *flow, highest });
            },
        }
        i = i + 1;
    }
    proof {
        assert(all.subrange(0, n as int) =~= all);
    }
    ContextActionsCode { pre, post }
}

} // verus!
