//! The transformation pipeline: a deterministic, linear, non-retrying
//! sequence over one module. Any step failure aborts the whole pass; the
//! embedder writes no output unless the pass succeeds.

use vstd::prelude::*;

use crate::catalog::{get_default_imports, the_catalog, ImportModuleV};
use crate::generator::{generate_replacements, install_modules_spec};
use crate::model::{
    body_wf, instr_wf, region_ref, regions_structured, region_referenced, str_eq, BodyV,
    ConfigError, ConfigErrorV, Export, ExportV, FuncBody, FuncKind, FuncKindV, FuncSig, Function,
    FunctionV, Instr, Module, ModuleV, SigV, TableDecl, Type,
};
use crate::replace::{
    find_import_idx, funcs_view, lemma_replace_spec_preserves, lemma_replace_spec_skeleton,
    replace_import_function, replace_spec, ReplaceOutcome,
};

verus! {

/// A live function bears the given name.
pub open spec fn func_named(of: Option<FunctionV>, nm: Seq<char>) -> bool {
    of is Some && of->Some_0.name == nm
}

/// Index of the first live function bearing the name, if any.
pub open spec fn find_func_idx(funcs: Seq<Option<FunctionV>>, nm: Seq<char>) -> Option<int>
    decreases funcs.len(),
{
    if funcs.len() == 0 {
        None
    } else if func_named(funcs[0], nm) {
        Some(0)
    } else {
        match find_func_idx(funcs.drop_first(), nm) {
            Some(i) => Some(i + 1),
            None => None,
        }
    }
}

proof fn lemma_find_func_idx_of_scan(funcs: Seq<Option<FunctionV>>, nm: Seq<char>, i: int)
    requires
        0 <= i <= funcs.len(),
        forall|t: int| 0 <= t < i ==> !func_named(#[trigger] funcs[t], nm),
        i < funcs.len() ==> func_named(funcs[i], nm),
    ensures
        i < funcs.len() ==> find_func_idx(funcs, nm) == Some(i),
        i == funcs.len() ==> find_func_idx(funcs, nm) is None,
    decreases funcs.len(),
{
    if funcs.len() > 0 {
        if i > 0 {
            lemma_find_func_idx_of_scan(funcs.drop_first(), nm, i - 1);
            assert forall|t: int|
                0 <= t < funcs.drop_first().len() implies funcs.drop_first()[t] == funcs[t
                + 1] by {}
        }
    }
}

/// Find the first live function with the given symbol name.
pub fn find_func_named(funcs: &Vec<Option<Function>>, name: &str) -> (r: Option<usize>)
    ensures
        ({
            let fv = funcs_view(funcs@);
            match r {
                Some(i) => i < funcs.len() && find_func_idx(fv, name@) == Some(i as int)
                    && func_named(fv[i as int], name@),
                None => find_func_idx(fv, name@) is None,
            }
        }),
{
    let ghost fv = funcs_view(funcs@);
    let mut i: usize = 0;
    while i < funcs.len()
        invariant
            i <= funcs.len(),
            fv == funcs_view(funcs@),
            forall|t: int| 0 <= t < i ==> !func_named(#[trigger] fv[t], name@),
        decreases funcs.len() - i,
    {
        match &funcs[i] {
            Some(f) => {
                if str_eq(f.name.as_str(), name) {
                    proof {
                        lemma_find_func_idx_of_scan(fv, name@, i as int);
                    }
                    return Some(i);
                }
            },
            None => {},
        }
        i = i + 1;
    }
    proof {
        lemma_find_func_idx_of_scan(fv, name@, i as int);
    }
    None
}

/// Index of the first export bound to function identity `f`, if any.
pub open spec fn find_export_idx(exports: Seq<ExportV>, f: usize) -> Option<int>
    decreases exports.len(),
{
    if exports.len() == 0 {
        None
    } else if exports[0].func == f {
        Some(0)
    } else {
        match find_export_idx(exports.drop_first(), f) {
            Some(i) => Some(i + 1),
            None => None,
        }
    }
}

proof fn lemma_find_export_idx_of_scan(exports: Seq<ExportV>, f: usize, i: int)
    requires
        0 <= i <= exports.len(),
        forall|t: int| 0 <= t < i ==> (#[trigger] exports[t]).func != f,
        i < exports.len() ==> exports[i].func == f,
    ensures
        i < exports.len() ==> find_export_idx(exports, f) == Some(i),
        i == exports.len() ==> find_export_idx(exports, f) is None,
    decreases exports.len(),
{
    if exports.len() > 0 {
        if i > 0 {
            lemma_find_export_idx_of_scan(exports.drop_first(), f, i - 1);
            assert forall|t: int|
                0 <= t < exports.drop_first().len() implies exports.drop_first()[t] == exports[t
                + 1] by {}
        }
    }
}

/// Find the first export bound to the given function identity.
pub fn find_export_for(exports: &Vec<Export>, f: usize) -> (r: Option<usize>)
    ensures
        ({
            let ev = exports@.map_values(|e: Export| e@);
            match r {
                Some(i) => i < exports.len() && find_export_idx(ev, f) == Some(i as int)
                    && ev[i as int].func == f,
                None => find_export_idx(ev, f) is None,
            }
        }),
{
    let ghost ev = exports@.map_values(|e: Export| e@);
    let mut i: usize = 0;
    while i < exports.len()
        invariant
            i <= exports.len(),
            ev == exports@.map_values(|e: Export| e@),
            forall|t: int| 0 <= t < i ==> (#[trigger] ev[t]).func != f,
        decreases exports.len() - i,
    {
        if exports[i].func == f {
            proof {
                lemma_find_export_idx_of_scan(ev, f, i as int);
            }
            return Some(i);
        }
        i = i + 1;
    }
    proof {
        lemma_find_export_idx_of_scan(ev, f, i as int);
    }
    None
}

/// The body of the direct table-growth replacement: grow the indirection
/// table by the requested delta with a null initial value; any result of the
/// growth primitive is dropped.
pub open spec fn table_grow_body_v(tbl: usize) -> BodyV {
    BodyV {
        locals: seq![Type::I32],
        regions: seq![
            seq![Instr::RefNull, Instr::LocalGet(0), Instr::TableGrow(tbl), Instr::Drop]
        ],
    }
}

/// The stand-in for reading environment variables: reports an empty
/// environment and performs no memory writes.
pub open spec fn environ_get_body_v() -> BodyV {
    BodyV { locals: seq![Type::I32, Type::I32], regions: seq![seq![Instr::I32Const(0)]] }
}

/// The stand-in for reading environment-variable buffer sizes: writes zero
/// into both caller-supplied output addresses and reports zero.
pub open spec fn environ_sizes_get_body_v() -> BodyV {
    BodyV {
        locals: seq![Type::I32, Type::I32],
        regions: seq![
            seq![
                Instr::LocalGet(0),
                Instr::I32Const(0),
                Instr::StoreI32,
                Instr::LocalGet(1),
                Instr::I32Const(0),
                Instr::StoreI32,
                Instr::I32Const(0),
            ]
        ],
    }
}

/// The stand-in for process termination: an unconditional non-terminating
/// loop, so control never returns to the caller.
pub open spec fn proc_exit_body_v() -> BodyV {
    BodyV {
        locals: seq![Type::I32],
        regions: seq![seq![Instr::Loop(1)], seq![Instr::Br(0)]],
    }
}

/// The body of the synthesized entry point: allocate a fresh indirection
/// slot, store the reference argument there, invoke the integer business
/// logic entry with the slot index, and read the returned index back out of
/// the table.
pub open spec fn apply_body_v(ts: usize, base: usize, tbl: usize) -> BodyV {
    BodyV {
        locals: seq![Type::ExternRef, Type::I32],
        regions: seq![
            seq![
                Instr::Call(ts),
                Instr::LocalSet(1),
                Instr::LocalGet(1),
                Instr::LocalGet(0),
                Instr::TableSet(tbl),
                Instr::LocalGet(1),
                Instr::Call(base),
                Instr::TableGet(tbl),
            ]
        ],
    }
}

pub open spec fn return_slab_name() -> Seq<char> {
    "_fixpoint_return_slab.command_export"@
}

pub open spec fn take_slab_name() -> Seq<char> {
    "_fixpoint_take_slab.command_export"@
}

pub open spec fn apply_base_name() -> Seq<char> {
    "_fixpoint_apply_base.command_export"@
}

/// One replacement step of the pipeline: a matching non-function import is
/// the only failure.
pub open spec fn pipeline_replace(
    m: ModuleV,
    ns: Seq<char>,
    nm: Seq<char>,
    sig: SigV,
    body: BodyV,
) -> (ModuleV, Option<ConfigErrorV>) {
    let (m2, out) = replace_spec(m, ns, nm, sig, body);
    if out is NotAFunction {
        (m2, Some(ConfigErrorV::ImportNotAFunction { namespace: ns, name: nm }))
    } else {
        (m2, None)
    }
}

/// The whole pass over one module: remove the export visibility of the two
/// slot-management functions, add the indirection table, replace the
/// placeholder table-growth import, wire the catalog, patch the three
/// compatibility imports, and synthesize and export the new entry point.
pub open spec fn pipeline_spec(m: ModuleV) -> (ModuleV, Option<ConfigErrorV>) {
    match find_func_idx(m.funcs, return_slab_name()) {
        None => (m, Some(ConfigErrorV::MissingFunction { name: return_slab_name() })),
        Some(rs) => match find_func_idx(m.funcs, take_slab_name()) {
            None => (m, Some(ConfigErrorV::MissingFunction { name: take_slab_name() })),
            Some(ts) => match find_export_idx(m.exports, rs as usize) {
                None => (m, Some(ConfigErrorV::MissingExport { name: return_slab_name() })),
                Some(re) => {
                    let m1 = ModuleV { exports: m.exports.remove(re), ..m };
                    match find_export_idx(m1.exports, ts as usize) {
                        None => (
                            m1,
                            Some(ConfigErrorV::MissingExport { name: take_slab_name() }),
                        ),
                        Some(te) => {
                            let m2 = ModuleV { exports: m1.exports.remove(te), ..m1 };
                            let tbl = m2.tables.len() as usize;
                            let m3 = ModuleV {
                                tables: m2.tables.push(TableDecl { initial: 0, maximum: None }),
                                ..m2
                            };
                            let (m4, e4) = pipeline_replace(
                                m3,
                                "fix_api_shim"@,
                                "table_grow"@,
                                SigV { params: seq![Type::I32], results: Seq::<Type>::empty() },
                                table_grow_body_v(tbl),
                            );
                            if e4 is Some {
                                (m4, e4)
                            } else {
                                let (m5, e5) = install_modules_spec(
                                    m4,
                                    the_catalog(),
                                    tbl,
                                    ts as usize,
                                );
                                if e5 is Some {
                                    (
                                        m5,
                                        Some(
                                            ConfigErrorV::ImportNotAFunction {
                                                namespace: "fix_api_shim"@,
                                                name: e5->Some_0,
                                            },
                                        ),
                                    )
                                } else {
                                    let (m6, e6) = pipeline_replace(
                                        m5,
                                        "wasi_snapshot_preview1"@,
                                        "environ_get"@,
                                        SigV {
                                            params: seq![Type::I32, Type::I32],
                                            results: seq![Type::I32],
                                        },
                                        environ_get_body_v(),
                                    );
                                    if e6 is Some {
                                        (m6, e6)
                                    } else {
                                        let (m7, e7) = pipeline_replace(
                                            m6,
                                            "wasi_snapshot_preview1"@,
                                            "environ_sizes_get"@,
                                            SigV {
                                                params: seq![Type::I32, Type::I32],
                                                results: seq![Type::I32],
                                            },
                                            environ_sizes_get_body_v(),
                                        );
                                        if e7 is Some {
                                            (m7, e7)
                                        } else {
                                            let (m8, e8) = pipeline_replace(
                                                m7,
                                                "wasi_snapshot_preview1"@,
                                                "proc_exit"@,
                                                SigV {
                                                    params: seq![Type::I32],
                                                    results: Seq::<Type>::empty(),
                                                },
                                                proc_exit_body_v(),
                                            );
                                            if e8 is Some {
                                                (m8, e8)
                                            } else {
                                                match find_func_idx(
                                                    m8.funcs,
                                                    apply_base_name(),
                                                ) {
                                                    None => (
                                                        m8,
                                                        Some(
                                                            ConfigErrorV::MissingFunction {
                                                                name: apply_base_name(),
                                                            },
                                                        ),
                                                    ),
                                                    Some(base) => {
                                                        let apply = FunctionV {
                                                            name: "_fixpoint_apply"@,
                                                            sig: SigV {
                                                                params: seq![Type::ExternRef],
                                                                results: seq![Type::ExternRef],
                                                            },
                                                            kind: FuncKindV::Local(
                                                                apply_body_v(
                                                                    ts as usize,
                                                                    base as usize,
                                                                    tbl,
                                                                ),
                                                            ),
                                                        };
                                                        let new_id = m8.funcs.len() as usize;
                                                        (
                                                            ModuleV {
                                                                funcs: m8.funcs.push(Some(apply)),
                                                                exports: m8.exports.push(
                                                                    ExportV {
                                                                        name: "_fixpoint_apply"@,
                                                                        func: new_id,
                                                                    },
                                                                ),
                                                                ..m8
                                                            },
                                                            None,
                                                        )
                                                    },
                                                }
                                            }
                                        }
                                    }
                                }
                            }
                        },
                    }
                },
            },
        },
    }
}

/// Changing only the export list (to a selection of the old exports) and
/// growing the table list keeps a module well-formed.
proof fn lemma_wf_same_funcs(m: ModuleV, m2: ModuleV)
    requires
        m.wf(),
        m2.funcs == m.funcs,
        m2.imports == m.imports,
        m.tables.len() <= m2.tables.len(),
        forall|e: int|
            0 <= e < m2.exports.len() ==> exists|e0: int|
                0 <= e0 < m.exports.len() && (#[trigger] m2.exports[e]) == #[trigger] m.exports[e0],
    ensures
        m2.wf(),
{
    assert forall|f: int| 0 <= f < m2.funcs.len() implies #[trigger] crate::model::func_entry_wf(
        m2,
        f,
    ) by {
        assert(crate::model::func_entry_wf(m, f));
        if m2.funcs[f] is Some {
            match m2.funcs[f]->Some_0.kind {
                FuncKindV::Local(b) => {
                    assert forall|p: int, k: int|
                        0 <= p < b.regions.len() && 0 <= k < b.regions[p].len() implies instr_wf(
                        #[trigger] b.regions[p][k],
                        p,
                        b.regions.len() as int,
                        b.locals.len() as int,
                        m2,
                    ) by {
                        assert(instr_wf(
                            b.regions[p][k],
                            p,
                            b.regions.len() as int,
                            b.locals.len() as int,
                            m,
                        ));
                    }
                },
                FuncKindV::Imported => {},
            }
        }
    }
    assert forall|j: int| 0 <= j < m2.imports.len() implies #[trigger] crate::model::import_entry_wf(
        m2,
        j,
    ) by {
        assert(crate::model::import_entry_wf(m, j));
    }
    assert forall|e: int| 0 <= e < m2.exports.len() implies #[trigger] crate::model::export_entry_wf(
        m2,
        e,
    ) by {
        let e0 = choose|e0: int|
            0 <= e0 < m.exports.len() && m2.exports[e] == #[trigger] m.exports[e0];
        assert(crate::model::export_entry_wf(m, e0));
    }
}

/// Appending the synthesized entry point and its export keeps the module
/// well-formed.
proof fn lemma_add_apply_wf(m: ModuleV, ts: usize, base: usize, tbl: usize)
    requires
        m.wf(),
        m.live(ts as int),
        m.live(base as int),
        tbl < m.tables.len(),
        m.funcs.len() <= usize::MAX,
    ensures
        ({
            let apply = FunctionV {
                name: "_fixpoint_apply"@,
                sig: SigV { params: seq![Type::ExternRef], results: seq![Type::ExternRef] },
                kind: FuncKindV::Local(apply_body_v(ts, base, tbl)),
            };
            let new_id = m.funcs.len() as usize;
            let m2 = ModuleV {
                funcs: m.funcs.push(Some(apply)),
                exports: m.exports.push(ExportV { name: "_fixpoint_apply"@, func: new_id }),
                ..m
            };
            m2.wf()
        }),
{
    let apply = FunctionV {
        name: "_fixpoint_apply"@,
        sig: SigV { params: seq![Type::ExternRef], results: seq![Type::ExternRef] },
        kind: FuncKindV::Local(apply_body_v(ts, base, tbl)),
    };
    let new_id = m.funcs.len() as usize;
    let m2 = ModuleV {
        funcs: m.funcs.push(Some(apply)),
        exports: m.exports.push(ExportV { name: "_fixpoint_apply"@, func: new_id }),
        ..m
    };
    let b = apply_body_v(ts, base, tbl);
    assert(regions_structured(b.regions)) by {
        assert forall|p: int, k: int|
            0 <= p < b.regions.len() && 0 <= k < b.regions[p].len() && region_ref(
                #[trigger] b.regions[p][k],
            ) is Some implies false by {}
    }
    assert forall|f: int| 0 <= f < m2.funcs.len() implies #[trigger] crate::model::func_entry_wf(
        m2,
        f,
    ) by {
        if f < m.funcs.len() {
            assert(crate::model::func_entry_wf(m, f));
            if m2.funcs[f] is Some {
                assert(m2.funcs[f] == m.funcs[f]);
                match m.funcs[f]->Some_0.kind {
                    FuncKindV::Local(bb) => {
                        assert forall|p: int, k: int|
                            0 <= p < bb.regions.len() && 0 <= k < bb.regions[p].len() implies
                            instr_wf(
                            #[trigger] bb.regions[p][k],
                            p,
                            bb.regions.len() as int,
                            bb.locals.len() as int,
                            m2,
                        ) by {
                            assert(instr_wf(
                                bb.regions[p][k],
                                p,
                                bb.regions.len() as int,
                                bb.locals.len() as int,
                                m,
                            ));
                        }
                    },
                    FuncKindV::Imported => {},
                }
            }
        } else {
            assert(m2.funcs[f] == Some(apply));
            assert forall|p: int, k: int|
                0 <= p < b.regions.len() && 0 <= k < b.regions[p].len() implies instr_wf(
                #[trigger] b.regions[p][k],
                p,
                b.regions.len() as int,
                b.locals.len() as int,
                m2,
            ) by {
                assert(b.regions[0][k] == b.regions[p][k]);
            }
        }
    }
    assert forall|j: int| 0 <= j < m2.imports.len() implies #[trigger] crate::model::import_entry_wf(
        m2,
        j,
    ) by {
        assert(crate::model::import_entry_wf(m, j));
    }
    assert forall|e: int| 0 <= e < m2.exports.len() implies #[trigger] crate::model::export_entry_wf(
        m2,
        e,
    ) by {
        if e < m.exports.len() {
            assert(m2.exports[e] == m.exports[e]);
            assert(crate::model::export_entry_wf(m, e));
        } else {
            assert(m2.exports[e].func == new_id);
        }
    }
}

/// Appending a table keeps a module well-formed.
proof fn lemma_add_table_wf(m: ModuleV, t: TableDecl)
    requires
        m.wf(),
    ensures
        (ModuleV { tables: m.tables.push(t), ..m }).wf(),
{
    let m2 = ModuleV { tables: m.tables.push(t), ..m };
    assert forall|f: int| 0 <= f < m2.funcs.len() implies #[trigger] crate::model::func_entry_wf(
        m2,
        f,
    ) by {
        assert(crate::model::func_entry_wf(m, f));
        if m2.funcs[f] is Some {
            match m2.funcs[f]->Some_0.kind {
                FuncKindV::Local(b) => {
                    assert forall|p: int, k: int|
                        0 <= p < b.regions.len() && 0 <= k < b.regions[p].len() implies instr_wf(
                        #[trigger] b.regions[p][k],
                        p,
                        b.regions.len() as int,
                        b.locals.len() as int,
                        m2,
                    ) by {
                        assert(instr_wf(
                            b.regions[p][k],
                            p,
                            b.regions.len() as int,
                            b.locals.len() as int,
                            m,
                        ));
                    }
                },
                FuncKindV::Imported => {},
            }
        }
    }
    assert forall|j: int| 0 <= j < m2.imports.len() implies #[trigger] crate::model::import_entry_wf(
        m2,
        j,
    ) by {
        assert(crate::model::import_entry_wf(m, j));
    }
    assert forall|e: int| 0 <= e < m2.exports.len() implies #[trigger] crate::model::export_entry_wf(
        m2,
        e,
    ) by {
        assert(crate::model::export_entry_wf(m, e));
    }
}

fn body_of_one_region(locals: Vec<Type>, instrs: Vec<Instr>) -> (b: FuncBody)
    ensures
        b@ == (BodyV { locals: locals@, regions: seq![instrs@] }),
{
    let ghost lv = locals@;
    let ghost iv = instrs@;
    let mut regions: Vec<Vec<Instr>> = Vec::new();
    regions.push(instrs);
    let b = FuncBody { locals, regions };
    proof {
        assert(b@.regions =~= seq![iv]);
        assert(b@ =~~= (BodyV { locals: lv, regions: seq![iv] }));
    }
    b
}

/// Run the whole transformation pipeline over one module. On any
/// configuration error the pass aborts; the module may then be partially
/// transformed and no output should be written from it.
#[verifier::rlimit(100)]
pub fn run_pass(m: &mut Module) -> (r: Result<(), ConfigError>)
    requires
        old(m)@.wf(),
    ensures
        final(m)@.wf(),
        ({
            let (m2, e) = pipeline_spec(old(m)@);
            &&& final(m)@ == m2
            &&& match r {
                Ok(()) => e is None,
                Err(err) => e == Some(err@),
            }
        }),
{
    let ghost m0 = m@;
    // locate the two host-internal slot-management functions
    let rs = match find_func_named(&m.funcs, "_fixpoint_return_slab.command_export") {
        Some(i) => i,
        None => {
            return Err(
                ConfigError::MissingFunction {
                    name: "_fixpoint_return_slab.command_export".to_owned(),
                },
            );
        },
    };
    let ts = match find_func_named(&m.funcs, "_fixpoint_take_slab.command_export") {
        Some(i) => i,
        None => {
            return Err(
                ConfigError::MissingFunction {
                    name: "_fixpoint_take_slab.command_export".to_owned(),
                },
            );
        },
    };
    // remove their export visibility; the functions themselves remain
    let re = match find_export_for(&m.exports, rs) {
        Some(i) => i,
        None => {
            return Err(
                ConfigError::MissingExport {
                    name: "_fixpoint_return_slab.command_export".to_owned(),
                },
            );
        },
    };
    m.exports.remove(re);
    proof {
        assert(m@.exports =~= m0.exports.remove(re as int));
        assert(m@ =~~= (ModuleV { exports: m0.exports.remove(re as int), ..m0 }));
        assert forall|e: int| 0 <= e < m@.exports.len() implies exists|e0: int|
            0 <= e0 < m0.exports.len() && (#[trigger] m@.exports[e]) == #[trigger] m0.exports[e0] by {
            if e < re {
                assert(m@.exports[e] == m0.exports[e]);
            } else {
                assert(m@.exports[e] == m0.exports[e + 1]);
            }
        }
        lemma_wf_same_funcs(m0, m@);
    }
    let ghost m1v = m@;
    let te = match find_export_for(&m.exports, ts) {
        Some(i) => i,
        None => {
            return Err(
                ConfigError::MissingExport {
                    name: "_fixpoint_take_slab.command_export".to_owned(),
                },
            );
        },
    };
    proof {
        assert(crate::model::export_entry_wf(m1v, te as int));
        assert(m1v.live_local(ts as int));
    }
    m.exports.remove(te);
    proof {
        assert(m@.exports =~= m1v.exports.remove(te as int));
        assert(m@ =~~= (ModuleV { exports: m1v.exports.remove(te as int), ..m1v }));
        assert forall|e: int| 0 <= e < m@.exports.len() implies exists|e0: int|
            0 <= e0 < m1v.exports.len() && (#[trigger] m@.exports[e]) == #[trigger] m1v.exports[e0] by {
            if e < te {
                assert(m@.exports[e] == m1v.exports[e]);
            } else {
                assert(m@.exports[e] == m1v.exports[e + 1]);
            }
        }
        lemma_wf_same_funcs(m1v, m@);
    }
    let ghost m2v = m@;
    // add the indirection table: initial length 0, unbounded growth
    let tbl = m.tables.len();
    m.tables.push(TableDecl { initial: 0, maximum: None });
    proof {
        assert(m@ =~~= (ModuleV {
            tables: m2v.tables.push(TableDecl { initial: 0, maximum: None }),
            ..m2v
        }));
        lemma_add_table_wf(m2v, TableDecl { initial: 0, maximum: None });
    }
    let ghost m3v = m@;
    // replace the placeholder table-growth import with direct growth
    let tg_sig = FuncSig { params: crate::catalog::types1(Type::I32), results: crate::catalog::types0() };
    let mut tg_instrs: Vec<Instr> = Vec::new();
    tg_instrs.push(Instr::RefNull);
    tg_instrs.push(Instr::LocalGet(0));
    tg_instrs.push(Instr::TableGrow(tbl));
    tg_instrs.push(Instr::Drop);
    proof {
        assert(tg_instrs@ =~= table_grow_body_v(tbl).regions[0]);
    }
    let tg_body = body_of_one_region(crate::catalog::types1(Type::I32), tg_instrs);
    proof {
        assert(tg_body@ =~~= table_grow_body_v(tbl));
        assert(regions_structured(tg_body@.regions)) by {
            assert forall|p: int, k: int|
                0 <= p < tg_body@.regions.len() && 0 <= k < tg_body@.regions[p].len()
                    && region_ref(#[trigger] tg_body@.regions[p][k]) is Some implies false by {}
        }
        assert(body_wf(tg_body@, tg_sig@, m@));
        lemma_replace_spec_preserves(
            m@,
            "fix_api_shim"@,
            "table_grow"@,
            tg_sig@,
            tg_body@,
            ts as int,
        );
        lemma_replace_spec_skeleton(m@, "fix_api_shim"@, "table_grow"@, tg_sig@, tg_body@);
    }
    match replace_import_function(m, "fix_api_shim", "table_grow", tg_sig, tg_body) {
        Ok(_) => {},
        Err(e) => {
            return Err(e);
        },
    }
    let ghost m4v = m@;
    // wire the whole catalog of real imports and adapters
    let catalog = get_default_imports();
    proof {
        crate::catalog::lemma_catalog_inputs_bound();
    }
    match generate_replacements(m, catalog, tbl, ts) {
        Ok(_) => {},
        Err(e) => {
            return Err(e);
        },
    }
    let ghost m5v = m@;
    // patch the three compatibility imports to fixed stand-ins
    let eg_sig = FuncSig {
        params: crate::catalog::types2(Type::I32, Type::I32),
        results: crate::catalog::types1(Type::I32),
    };
    let mut eg_instrs: Vec<Instr> = Vec::new();
    eg_instrs.push(Instr::I32Const(0));
    proof {
        assert(eg_instrs@ =~= environ_get_body_v().regions[0]);
    }
    let eg_body = body_of_one_region(crate::catalog::types2(Type::I32, Type::I32), eg_instrs);
    proof {
        assert(eg_body@ =~~= environ_get_body_v());
        assert(regions_structured(eg_body@.regions)) by {
            assert forall|p: int, k: int|
                0 <= p < eg_body@.regions.len() && 0 <= k < eg_body@.regions[p].len()
                    && region_ref(#[trigger] eg_body@.regions[p][k]) is Some implies false by {}
        }
        assert(body_wf(eg_body@, eg_sig@, m@));
        lemma_replace_spec_preserves(
            m@,
            "wasi_snapshot_preview1"@,
            "environ_get"@,
            eg_sig@,
            eg_body@,
            ts as int,
        );
        lemma_replace_spec_skeleton(
            m@,
            "wasi_snapshot_preview1"@,
            "environ_get"@,
            eg_sig@,
            eg_body@,
        );
    }
    match replace_import_function(m, "wasi_snapshot_preview1", "environ_get", eg_sig, eg_body) {
        Ok(_) => {},
        Err(e) => {
            return Err(e);
        },
    }
    let ghost m6v = m@;
    let es_sig = FuncSig {
        params: crate::catalog::types2(Type::I32, Type::I32),
        results: crate::catalog::types1(Type::I32),
    };
    let mut es_instrs: Vec<Instr> = Vec::new();
    es_instrs.push(Instr::LocalGet(0));
    es_instrs.push(Instr::I32Const(0));
    es_instrs.push(Instr::StoreI32);
    es_instrs.push(Instr::LocalGet(1));
    es_instrs.push(Instr::I32Const(0));
    es_instrs.push(Instr::StoreI32);
    es_instrs.push(Instr::I32Const(0));
    proof {
        assert(es_instrs@ =~= environ_sizes_get_body_v().regions[0]);
    }
    let es_body = body_of_one_region(crate::catalog::types2(Type::I32, Type::I32), es_instrs);
    proof {
        assert(es_body@ =~~= environ_sizes_get_body_v());
        assert(regions_structured(es_body@.regions)) by {
            assert forall|p: int, k: int|
                0 <= p < es_body@.regions.len() && 0 <= k < es_body@.regions[p].len()
                    && region_ref(#[trigger] es_body@.regions[p][k]) is Some implies false by {}
        }
        assert(body_wf(es_body@, es_sig@, m@));
        lemma_replace_spec_preserves(
            m@,
            "wasi_snapshot_preview1"@,
            "environ_sizes_get"@,
            es_sig@,
            es_body@,
            ts as int,
        );
        lemma_replace_spec_skeleton(
            m@,
            "wasi_snapshot_preview1"@,
            "environ_sizes_get"@,
            es_sig@,
            es_body@,
        );
    }
    match replace_import_function(
        m,
        "wasi_snapshot_preview1",
        "environ_sizes_get",
        es_sig,
        es_body,
    ) {
        Ok(_) => {},
        Err(e) => {
            return Err(e);
        },
    }
    let ghost m7v = m@;
    let pe_sig = FuncSig { params: crate::catalog::types1(Type::I32), results: crate::catalog::types0() };
    let mut pe_root: Vec<Instr> = Vec::new();
    pe_root.push(Instr::Loop(1));
    let mut pe_loop: Vec<Instr> = Vec::new();
    pe_loop.push(Instr::Br(0));
    let mut pe_regions: Vec<Vec<Instr>> = Vec::new();
    pe_regions.push(pe_root);
    pe_regions.push(pe_loop);
    let pe_body = FuncBody { locals: crate::catalog::types1(Type::I32), regions: pe_regions };
    proof {
        assert(pe_body@.regions =~= proc_exit_body_v().regions);
        assert(pe_body@ =~~= proc_exit_body_v());
        let b = pe_body@;
        assert(region_ref(b.regions[0][0]) == Some(1usize));
        assert(region_referenced(b.regions, 1));
        assert(regions_structured(b.regions));
        assert(body_wf(pe_body@, pe_sig@, m@));
        lemma_replace_spec_preserves(
            m@,
            "wasi_snapshot_preview1"@,
            "proc_exit"@,
            pe_sig@,
            pe_body@,
            ts as int,
        );
        lemma_replace_spec_skeleton(m@, "wasi_snapshot_preview1"@, "proc_exit"@, pe_sig@, pe_body@);
    }
    match replace_import_function(m, "wasi_snapshot_preview1", "proc_exit", pe_sig, pe_body) {
        Ok(_) => {},
        Err(e) => {
            return Err(e);
        },
    }
    let ghost m8v = m@;
    // synthesize and export the new entry point
    let base = match find_func_named(&m.funcs, "_fixpoint_apply_base.command_export") {
        Some(i) => i,
        None => {
            return Err(
                ConfigError::MissingFunction {
                    name: "_fixpoint_apply_base.command_export".to_owned(),
                },
            );
        },
    };
    let mut ap_instrs: Vec<Instr> = Vec::new();
    ap_instrs.push(Instr::Call(ts));
    ap_instrs.push(Instr::LocalSet(1));
    ap_instrs.push(Instr::LocalGet(1));
    ap_instrs.push(Instr::LocalGet(0));
    ap_instrs.push(Instr::TableSet(tbl));
    ap_instrs.push(Instr::LocalGet(1));
    ap_instrs.push(Instr::Call(base));
    ap_instrs.push(Instr::TableGet(tbl));
    proof {
        assert(ap_instrs@ =~= apply_body_v(ts, base, tbl).regions[0]);
    }
    let ap_body = body_of_one_region(
        crate::catalog::types2(Type::ExternRef, Type::I32),
        ap_instrs,
    );
    let ap_sig = FuncSig {
        params: crate::catalog::types1(Type::ExternRef),
        results: crate::catalog::types1(Type::ExternRef),
    };
    let new_id = m.funcs.len();
    proof {
        assert(m8v.funcs.len() == new_id);
        assert(ap_body@ =~~= apply_body_v(ts, base, tbl));
        lemma_add_apply_wf(m8v, ts, base, tbl);
    }
    m.funcs.push(
        Some(Function { name: "_fixpoint_apply".to_owned(), sig: ap_sig, kind: FuncKind::Local(ap_body) }),
    );
    m.exports.push(Export { name: "_fixpoint_apply".to_owned(), func: new_id });
    proof {
        let apply = FunctionV {
            name: "_fixpoint_apply"@,
            sig: SigV { params: seq![Type::ExternRef], results: seq![Type::ExternRef] },
            kind: FuncKindV::Local(apply_body_v(ts, base, tbl)),
        };
        assert(m@.funcs =~= m8v.funcs.push(Some(apply)));
        assert(m@.exports =~= m8v.exports.push(ExportV { name: "_fixpoint_apply"@, func: new_id }));
        assert(m@ =~~= (ModuleV {
            funcs: m8v.funcs.push(Some(apply)),
            exports: m8v.exports.push(ExportV { name: "_fixpoint_apply"@, func: new_id }),
            ..m8v
        }));
    }
    Ok(())
}

} // verus!
