//! Executable classes and the resolution of entry points.

use vstd::prelude::*;
use crate::types::{EntryPointSelector, EntryPointType};

verus! {

/// One row of a class's entry-point table.
#[derive(Clone, Copy, Debug, PartialEq, Eq, Structural, Hash)]
pub struct EntryPoint {
    pub selector: EntryPointSelector,
    /// The identity of the function to run, within the class's program.
    pub function_idx: u64,
}

/// The entry points of a class, by kind.
#[derive(Clone, Debug, PartialEq, Eq)]
pub struct EntryPointTable {
    pub constructor: Vec<EntryPoint>,
    pub external: Vec<EntryPoint>,
    pub l1_handler: Vec<EntryPoint>,
}

/// What an entry-point table holds.
pub struct EntryPointTableView {
    pub constructor: Seq<EntryPoint>,
    pub external: Seq<EntryPoint>,
    pub l1_handler: Seq<EntryPoint>,
}

impl View for EntryPointTable {
    type V = EntryPointTableView;

    open spec fn view(&self) -> EntryPointTableView {
        EntryPointTableView {
            constructor: self.constructor@,
            external: self.external@,
            l1_handler: self.l1_handler@,
        }
    }
}

impl EntryPointTableView {
    /// The rows of one kind.
    pub open spec fn of_kind(self, kind: EntryPointType) -> Seq<EntryPoint> {
        match kind {
            EntryPointType::Constructor => self.constructor,
            EntryPointType::External => self.external,
            EntryPointType::L1Handler => self.l1_handler,
        }
    }

    /// The function that `(kind, selector)` names, if any.
    pub open spec fn resolve(self, kind: EntryPointType, selector: EntryPointSelector) -> Option<
        u64,
    > {
        first_match(self.of_kind(kind), selector)
    }
}

/// The function of the first row that carries `selector`.
pub open spec fn first_match(rows: Seq<EntryPoint>, selector: EntryPointSelector) -> Option<u64>
    decreases rows.len(),
{
    if rows.len() == 0 {
        None
    } else if rows[0].selector == selector {
        Some(rows[0].function_idx)
    } else {
        first_match(rows.drop_first(), selector)
    }
}

/// A selector resolves exactly if some row carries it.
pub proof fn lemma_first_match_some(rows: Seq<EntryPoint>, selector: EntryPointSelector)
    ensures
        first_match(rows, selector) is Some <==> exists|i: int|
            0 <= i < rows.len() && (#[trigger] rows[i]).selector == selector,
    decreases rows.len(),
{
    if rows.len() == 0 {
    } else if rows[0].selector == selector {
    } else {
        let rest = rows.drop_first();
        lemma_first_match_some(rest, selector);
        if first_match(rest, selector) is Some {
            let i = choose|i: int| 0 <= i < rest.len() && (#[trigger] rest[i]).selector == selector;
            assert(rows[i + 1].selector == selector);
        }
        if exists|i: int| 0 <= i < rows.len() && (#[trigger] rows[i]).selector == selector {
            let i = choose|i: int| 0 <= i < rows.len() && (#[trigger] rows[i]).selector == selector;
            assert(rest[i - 1].selector == selector);
        }
    }
}

/// The run-time search that `first_match` describes.
fn find_entry_point(rows: &Vec<EntryPoint>, selector: EntryPointSelector) -> (r: Option<u64>)
    ensures
        r == first_match(rows@, selector),
{
    let mut i: usize = 0;
    proof {
        assert(rows@.skip(0) =~= rows@);
    }
    while i < rows.len()
        invariant
            i <= rows@.len(),
            first_match(rows@, selector) == first_match(rows@.skip(i as int), selector),
        decreases rows@.len() - i,
    {
        if rows[i].selector == selector {
            return Some(rows[i].function_idx);
        }
        proof {
            assert(rows@.skip(i as int).drop_first() =~= rows@.skip(i + 1));
        }
        i += 1;
    }
    None
}

fn copy_rows(rows: &Vec<EntryPoint>) -> (r: Vec<EntryPoint>)
    ensures
        r@ == rows@,
{
    let mut out: Vec<EntryPoint> = Vec::new();
    let mut i: usize = 0;
    while i < rows.len()
        invariant
            i <= rows@.len(),
            out@ == rows@.take(i as int),
        decreases rows@.len() - i,
    {
        out.push(rows[i]);
        proof {
            assert(rows@.take(i as int).push(rows@[i as int]) =~= rows@.take(i + 1));
        }
        i += 1;
    }
    proof {
        assert(rows@.take(rows@.len() as int) =~= rows@);
    }
    out
}

impl EntryPointTable {
    /// A table without entry points.
    pub fn new() -> (r: EntryPointTable)
        ensures
            r@.constructor.len() == 0,
            r@.external.len() == 0,
            r@.l1_handler.len() == 0,
    {
        EntryPointTable { constructor: Vec::new(), external: Vec::new(), l1_handler: Vec::new() }
    }

    /// The function that `(kind, selector)` names, if any.
    pub fn resolve(&self, kind: EntryPointType, selector: EntryPointSelector) -> (r: Option<u64>)
        ensures
            r == self@.resolve(kind, selector),
    {
        match kind {
            EntryPointType::Constructor => find_entry_point(&self.constructor, selector),
            EntryPointType::External => find_entry_point(&self.external, selector),
            EntryPointType::L1Handler => find_entry_point(&self.l1_handler, selector),
        }
    }

    /// A copy with the same rows.
    pub fn duplicate(&self) -> (r: EntryPointTable)
        ensures
            r@ == self@,
    {
        EntryPointTable {
            constructor: copy_rows(&self.constructor),
            external: copy_rows(&self.external),
            l1_handler: copy_rows(&self.l1_handler),
        }
    }
}

/// Which engine runs a class.
#[derive(Clone, Copy, Debug, PartialEq, Eq, Structural, Hash)]
pub enum Backend {
    /// Step-by-step interpretation.
    Interpreted,
    /// Pre-compiled native code.
    Native,
}

/// The interpretable representation of a class.
#[derive(Clone, Debug, PartialEq, Eq)]
pub struct ContractClassV1 {
    pub entry_points: EntryPointTable,
    /// Names the program among the artifacts that the interpreting engine holds.
    pub artifact: u64,
}

/// The natively compiled representation of a class.
#[derive(Clone, Debug, PartialEq, Eq)]
pub struct NativeContractClassV1 {
    pub entry_points: EntryPointTable,
    /// Names the executor among the artifacts that the native engine holds.
    pub artifact: u64,
}

/// An executable class: one logical program in one of two representations.
#[derive(Clone, Debug, PartialEq, Eq)]
pub enum ContractClass {
    V1(ContractClassV1),
    V1Native(NativeContractClassV1),
}

/// What a class holds.
pub struct ContractClassView {
    pub backend: Backend,
    pub entry_points: EntryPointTableView,
    pub artifact: u64,
}

impl View for ContractClass {
    type V = ContractClassView;

    open spec fn view(&self) -> ContractClassView {
        match self {
            ContractClass::V1(c) => ContractClassView {
                backend: Backend::Interpreted,
                entry_points: c.entry_points@,
                artifact: c.artifact,
            },
            ContractClass::V1Native(c) => ContractClassView {
                backend: Backend::Native,
                entry_points: c.entry_points@,
                artifact: c.artifact,
            },
        }
    }
}

impl ContractClass {
    /// The engine that runs this class: decided by the variant alone.
    pub fn backend(&self) -> (b: Backend)
        ensures
            b == self@.backend,
    {
        match self {
            ContractClass::V1(_) => Backend::Interpreted,
            ContractClass::V1Native(_) => Backend::Native,
        }
    }

    pub fn artifact(&self) -> (a: u64)
        ensures
            a == self@.artifact,
    {
        match self {
            ContractClass::V1(c) => c.artifact,
            ContractClass::V1Native(c) => c.artifact,
        }
    }

    /// The function that `(kind, selector)` names in this class, if any.
    pub fn get_entrypoint(&self, kind: EntryPointType, selector: EntryPointSelector) -> (r: Option<
        u64,
    >)
        ensures
            r == self@.entry_points.resolve(kind, selector),
    {
        match self {
            ContractClass::V1(c) => c.entry_points.resolve(kind, selector),
            ContractClass::V1Native(c) => c.entry_points.resolve(kind, selector),
        }
    }

    /// Whether the class has a constructor.
    pub fn has_constructor(&self) -> (b: bool)
        ensures
            b == (self@.entry_points.constructor.len() > 0),
    {
        match self {
            ContractClass::V1(c) => c.entry_points.constructor.len() > 0,
            ContractClass::V1Native(c) => c.entry_points.constructor.len() > 0,
        }
    }

    /// A copy that holds the same class.
    pub fn duplicate(&self) -> (r: ContractClass)
        ensures
            r@ == self@,
    {
        match self {
            ContractClass::V1(c) => ContractClass::V1(
                ContractClassV1 { entry_points: c.entry_points.duplicate(), artifact: c.artifact },
            ),
            ContractClass::V1Native(c) => ContractClass::V1Native(
                NativeContractClassV1 {
                    entry_points: c.entry_points.duplicate(),
                    artifact: c.artifact,
                },
            ),
        }
    }
}

/// Resolution does not depend on the representation: two classes with the same
/// entry-point table name the same function under every kind and selector.
pub proof fn lemma_resolution_is_backend_independent(
    a: ContractClassView,
    b: ContractClassView,
    kind: EntryPointType,
    selector: EntryPointSelector,
)
    requires
        a.entry_points == b.entry_points,
    ensures
        a.entry_points.resolve(kind, selector) == b.entry_points.resolve(kind, selector),
{
}

} // verus!
