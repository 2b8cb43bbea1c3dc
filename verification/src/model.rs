//! The module model: functions, imports, exports, tables, and instruction
//! regions, together with its mathematical view and well-formedness.

use vstd::prelude::*;

verus! {

/// A value kind of the two calling conventions: a 32-bit integer, or an
/// opaque host reference.
#[derive(PartialEq, Eq, Structural, Clone, Copy, Debug)]
pub enum Type {
    I32,
    ExternRef,
}

/// One instruction of a function body. Only the instructions that the pass
/// inspects or emits are modeled; every other guest instruction is carried
/// through opaquely as `Other`, keyed by an embedder-chosen payload index.
#[derive(PartialEq, Eq, Structural, Clone, Copy, Debug)]
pub enum Instr {
    /// Call the function with the given identity.
    Call(usize),
    /// A structured block whose body is the given region.
    Block(usize),
    /// A structured loop whose body is the given region.
    Loop(usize),
    /// Branch to the structured construct `depth` levels out.
    Br(usize),
    LocalGet(usize),
    LocalSet(usize),
    LocalTee(usize),
    I32Const(i32),
    /// Read a 4-byte integer from linear memory at the address on the stack.
    LoadI32,
    /// Store a 4-byte integer to linear memory.
    StoreI32,
    TableGet(usize),
    TableSet(usize),
    TableGrow(usize),
    RefNull,
    Drop,
    /// An instruction the pass never inspects, owned by the embedder.
    Other(usize),
}

/// A function signature: ordered parameter kinds and ordered result kinds.
pub struct FuncSig {
    pub params: Vec<Type>,
    pub results: Vec<Type>,
}

#[verifier::ext_equal]
pub struct SigV {
    pub params: Seq<Type>,
    pub results: Seq<Type>,
}

impl View for FuncSig {
    type V = SigV;

    open spec fn view(&self) -> SigV {
        SigV { params: self.params@, results: self.results@ }
    }
}

/// A local function's body: the kinds of its locals (the first of which are
/// its parameters) and an arena of instruction regions. Region 0 is the root;
/// each `Block` or `Loop` instruction names one nested region.
pub struct FuncBody {
    pub locals: Vec<Type>,
    pub regions: Vec<Vec<Instr>>,
}

#[verifier::ext_equal]
pub struct BodyV {
    pub locals: Seq<Type>,
    pub regions: Seq<Seq<Instr>>,
}

impl View for FuncBody {
    type V = BodyV;

    open spec fn view(&self) -> BodyV {
        BodyV {
            locals: self.locals@,
            regions: self.regions@.map_values(|r: Vec<Instr>| r@),
        }
    }
}

/// A function is either imported (no body, resolved by an import
/// declaration) or local (owns a body).
pub enum FuncKind {
    Imported,
    Local(FuncBody),
}

pub enum FuncKindV {
    Imported,
    Local(BodyV),
}

impl View for FuncKind {
    type V = FuncKindV;

    open spec fn view(&self) -> FuncKindV {
        match self {
            FuncKind::Imported => FuncKindV::Imported,
            FuncKind::Local(b) => FuncKindV::Local(b@),
        }
    }
}

/// A function of the module. Identity is the index into `Module::funcs`;
/// `name` is the symbol name the embedder recorded for it.
pub struct Function {
    pub name: String,
    pub sig: FuncSig,
    pub kind: FuncKind,
}

#[verifier::ext_equal]
pub struct FunctionV {
    pub name: Seq<char>,
    pub sig: SigV,
    pub kind: FuncKindV,
}

impl View for Function {
    type V = FunctionV;

    open spec fn view(&self) -> FunctionV {
        FunctionV { name: self.name@, sig: self.sig@, kind: self.kind@ }
    }
}

/// What an import declaration binds: a function identity, or some other kind
/// of item the pass never replaces.
#[derive(PartialEq, Eq, Structural, Clone, Copy, Debug)]
pub enum ImportKind {
    Func(usize),
    Other,
}

/// An import declaration: a (namespace, name) pair bound to one item.
pub struct Import {
    pub namespace: String,
    pub name: String,
    pub kind: ImportKind,
}

#[verifier::ext_equal]
pub struct ImportV {
    pub namespace: Seq<char>,
    pub name: Seq<char>,
    pub kind: ImportKind,
}

impl View for Import {
    type V = ImportV;

    open spec fn view(&self) -> ImportV {
        ImportV { namespace: self.namespace@, name: self.name@, kind: self.kind }
    }
}

/// An export declaration: a public name bound to a local function identity.
pub struct Export {
    pub name: String,
    pub func: usize,
}

#[verifier::ext_equal]
pub struct ExportV {
    pub name: Seq<char>,
    pub func: usize,
}

impl View for Export {
    type V = ExportV;

    open spec fn view(&self) -> ExportV {
        ExportV { name: self.name@, func: self.func }
    }
}

/// A reference table declaration: initial length and optional growth limit.
#[derive(PartialEq, Eq, Structural, Clone, Copy, Debug)]
pub struct TableDecl {
    pub initial: u64,
    pub maximum: Option<u64>,
}

/// The artifact under transformation. A function identity is an index into
/// `funcs`; a deleted function leaves a `None` slot so that identities of the
/// remaining elements are stable.
pub struct Module {
    pub funcs: Vec<Option<Function>>,
    pub imports: Vec<Import>,
    pub exports: Vec<Export>,
    pub tables: Vec<TableDecl>,
    pub memories: usize,
}

#[verifier::ext_equal]
pub struct ModuleV {
    pub funcs: Seq<Option<FunctionV>>,
    pub imports: Seq<ImportV>,
    pub exports: Seq<ExportV>,
    pub tables: Seq<TableDecl>,
    pub memories: usize,
}

pub open spec fn func_opt_view(f: Option<Function>) -> Option<FunctionV> {
    match f {
        Some(g) => Some(g@),
        None => None,
    }
}

impl View for Module {
    type V = ModuleV;

    open spec fn view(&self) -> ModuleV {
        ModuleV {
            funcs: self.funcs@.map_values(|f: Option<Function>| func_opt_view(f)),
            imports: self.imports@.map_values(|i: Import| i@),
            exports: self.exports@.map_values(|e: Export| e@),
            tables: self.tables@,
            memories: self.memories,
        }
    }
}

impl ModuleV {
    /// The function with identity `f` exists (has not been deleted).
    pub open spec fn live(self, f: int) -> bool {
        0 <= f < self.funcs.len() && self.funcs[f] is Some
    }

    /// The function with identity `f` exists and is a local definition.
    pub open spec fn live_local(self, f: int) -> bool {
        self.live(f) && self.funcs[f]->Some_0.kind is Local
    }
}

/// The single error taxonomy of the pass: the module does not satisfy a
/// structural precondition. Always fatal for the pipeline that meets it.
pub enum ConfigError {
    /// An import exists under the expected (namespace, name) pair but does
    /// not bind a function.
    ImportNotAFunction { namespace: String, name: String },
    /// A required function is absent.
    MissingFunction { name: String },
    /// A required function exists but its export is absent.
    MissingExport { name: String },
}

pub enum ConfigErrorV {
    ImportNotAFunction { namespace: Seq<char>, name: Seq<char> },
    MissingFunction { name: Seq<char> },
    MissingExport { name: Seq<char> },
}

impl View for ConfigError {
    type V = ConfigErrorV;

    open spec fn view(&self) -> ConfigErrorV {
        match self {
            ConfigError::ImportNotAFunction { namespace, name } => {
                ConfigErrorV::ImportNotAFunction { namespace: namespace@, name: name@ }
            },
            ConfigError::MissingFunction { name } => {
                ConfigErrorV::MissingFunction { name: name@ }
            },
            ConfigError::MissingExport { name } => ConfigErrorV::MissingExport { name: name@ },
        }
    }
}

/// Relies on str's `PartialEq`: two string slices are equal exactly when
/// their character sequences are.
#[verifier::external_body]
pub fn str_eq(a: &str, b: &str) -> (r: bool)
    ensures
        r == (a@ == b@),
{
    a == b
}

/// The nested region named by a `Block` or `Loop` instruction, if any.
pub open spec fn region_ref(i: Instr) -> Option<usize> {
    match i {
        Instr::Block(r) => Some(r),
        Instr::Loop(r) => Some(r),
        _ => None,
    }
}

/// Validity of one instruction standing in region `p`: every identity it
/// names is in range, every named function is live, and a nested region has
/// a strictly larger index than the region holding it.
pub open spec fn instr_wf(
    i: Instr,
    p: int,
    n_regions: int,
    n_locals: int,
    m: ModuleV,
) -> bool {
    match i {
        Instr::Call(f) => m.live(f as int),
        Instr::Block(r) => p < r < n_regions,
        Instr::Loop(r) => p < r < n_regions,
        Instr::LocalGet(l) => l < n_locals,
        Instr::LocalSet(l) => l < n_locals,
        Instr::LocalTee(l) => l < n_locals,
        Instr::TableGet(t) => t < m.tables.len(),
        Instr::TableSet(t) => t < m.tables.len(),
        Instr::TableGrow(t) => t < m.tables.len(),
        _ => true,
    }
}

/// Region `r` is named by a `Block` or `Loop` instruction of an earlier
/// region of the arena.
pub open spec fn region_referenced(regions: Seq<Seq<Instr>>, r: int) -> bool {
    exists|p: int, k: int|
        0 <= p < r && 0 <= k < regions[p].len() && region_ref(#[trigger] regions[p][k]) == Some(
            r as usize,
        )
}

/// Structural validity of a region arena on its own: region 0 is the root,
/// nesting always points forward, and every non-root region is named by at
/// least one `Block` or `Loop` of an earlier region. The forward shape makes
/// every region reachable from the root.
pub open spec fn regions_structured(regions: Seq<Seq<Instr>>) -> bool {
    &&& regions.len() >= 1
    &&& forall|p: int, k: int|
        0 <= p < regions.len() && 0 <= k < regions[p].len() && region_ref(
            #[trigger] regions[p][k],
        ) is Some ==> p < region_ref(regions[p][k])->Some_0 < regions.len()
    &&& forall|r: int| 1 <= r < regions.len() ==> #[trigger] region_referenced(regions, r)
}

/// A well-formed body for a function of signature `sig` inside module `m`.
pub open spec fn body_wf(b: BodyV, sig: SigV, m: ModuleV) -> bool {
    &&& regions_structured(b.regions)
    &&& forall|p: int, k: int|
        0 <= p < b.regions.len() && 0 <= k < b.regions[p].len() ==> instr_wf(
            #[trigger] b.regions[p][k],
            p,
            b.regions.len() as int,
            b.locals.len() as int,
            m,
        )
    &&& b.locals.len() >= sig.params.len()
    &&& forall|i: int| 0 <= i < sig.params.len() ==> b.locals[i] == sig.params[i]
}

pub open spec fn func_entry_wf(m: ModuleV, f: int) -> bool {
    m.funcs[f] is Some ==> match m.funcs[f]->Some_0.kind {
        FuncKindV::Imported => true,
        FuncKindV::Local(b) => body_wf(b, m.funcs[f]->Some_0.sig, m),
    }
}

pub open spec fn import_entry_wf(m: ModuleV, j: int) -> bool {
    match m.imports[j].kind {
        ImportKind::Func(f) => m.live(f as int) && m.funcs[f as int]->Some_0.kind
            is Imported,
        ImportKind::Other => true,
    }
}

pub open spec fn export_entry_wf(m: ModuleV, e: int) -> bool {
    m.live_local(m.exports[e].func as int)
}

impl ModuleV {
    /// Well-formedness of the whole module: every body is valid, every
    /// import binds a live imported function and no two imports bind the
    /// same one, and every export names a live local function.
    pub open spec fn wf(self) -> bool {
        &&& forall|f: int| 0 <= f < self.funcs.len() ==> #[trigger] func_entry_wf(self, f)
        &&& forall|j: int| 0 <= j < self.imports.len() ==> #[trigger] import_entry_wf(self, j)
        &&& forall|j1: int, j2: int|
            0 <= j1 < self.imports.len() && 0 <= j2 < self.imports.len() && j1 != j2
                && #[trigger] self.imports[j1].kind is Func
                && #[trigger] self.imports[j2].kind is Func ==> self.imports[j1].kind
                != self.imports[j2].kind
        &&& forall|e: int| 0 <= e < self.exports.len() ==> #[trigger] export_entry_wf(self, e)
    }
}

} // verus!
