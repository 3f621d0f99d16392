use vstd::prelude::*;

use crate::sleigh::space::AddressSpace;

pub mod symbol;

verus! {

/// Where an operand of a parsed instruction lives: a space, an offset and a
/// size, the offset itself possibly being read from another location.
#[derive(Debug, Clone)]
pub struct FixedHandle<'a> {
    pub space: &'a AddressSpace,
    pub size: usize,
    pub offset_space: Option<&'a AddressSpace>,
    pub offset_offset: u64,
    pub offset_size: usize,
    pub temporary_space: Option<&'a AddressSpace>,
    pub temporary_offset: u64,
}

impl<'a> FixedHandle<'a> {
    /// An empty handle in `space`.
    pub fn new(space: &'a AddressSpace) -> (r: Self)
        ensures
            *r.space == *space,
            r.size == 0,
            r.offset_space is None,
            r.offset_offset == 0,
            r.offset_size == 0,
            r.temporary_space is None,
            r.temporary_offset == 0,
    {
        FixedHandle {
            space,
            size: 0,
            offset_space: None,
            offset_offset: 0,
            offset_size: 0,
            temporary_space: None,
            temporary_offset: 0,
        }
    }
}

/// The kinds of symbol of a processor description.
#[derive(Debug, Clone, Copy, PartialEq, Eq, Structural)]
pub enum SymbolKind {
    UserOp,
    Epsilon,
    Value,
    ValueMap,
    Name,
    Varnode,
    Context,
    VarnodeList,
    Operand,
    Start,
    End,
    Subtable,
    FlowDest,
    FlowRef,
}

/// The header of a symbol, read before its body: its kind, its number, its
/// scope and its name.
#[derive(Debug, Clone, PartialEq, Eq)]
pub struct SymbolBuilder {
    kind: SymbolKind,
    id: usize,
    scope: usize,
    name: String,
}

impl View for SymbolBuilder {
    type V = (SymbolKind, usize, usize, Seq<char>);

    closed spec fn view(&self) -> (SymbolKind, usize, usize, Seq<char>) {
        (self.kind, self.id, self.scope, self.name@)
    }
}

impl SymbolBuilder {
    /// The header of a symbol of kind `kind`, numbered `id`, in the scope
    /// `scope`, named `name`.
    pub fn new(kind: SymbolKind, id: usize, scope: usize, name: String) -> (r: Self)
        ensures
            r@ == (kind, id, scope, name@),
    {
        SymbolBuilder { kind, id, scope, name }
    }
}

impl Default for SymbolBuilder {
    /// The header of a user operation numbered zero, in scope zero, with an
    /// empty name.
    fn default() -> (r: Self)
        ensures
            r@ == (SymbolKind::UserOp, 0usize, 0usize, Seq::<char>::empty()),
    {
        SymbolBuilder { kind: SymbolKind::UserOp, id: 0, scope: 0, name: String::new() }
    }
}

/// The stage that parsing an instruction has reached.
#[derive(Debug, Clone, Copy, PartialEq, Eq, Structural, Hash)]
pub enum ParserState {
    Uninitialised,
    Disassembly,
    PCode,
}

} // verus!
