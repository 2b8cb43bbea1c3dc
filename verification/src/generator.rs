//! The ABI adapter generator: for every catalog entry it adds the real host
//! import (native signature) and installs, through the replacement engine,
//! an adapter whose signature is all-integer and whose body marshals
//! arguments and results through the indirection table.

use vstd::prelude::*;
use vstd::string::StringExecFns;

use crate::catalog::{CategoryV, FunctionCategory, ImportModule, ImportModuleV};
use crate::model::{
    body_wf, instr_wf, region_ref, regions_structured, BodyV, ConfigError, ConfigErrorV, FuncBody,
    FuncKind, FuncKindV, FuncSig, Function, FunctionV, Import, ImportKind, ImportV, Instr, Module,
    ModuleV, SigV, Type,
};
use crate::replace::{
    replace_import_function, replace_spec, lemma_replace_spec_wf, lemma_replace_spec_preserves,
    lemma_replace_spec_skeleton, ReplaceOutcome,
};

verus! {

pub open spec fn all_i32(n: int) -> Seq<Type> {
    Seq::new(n as nat, |i: int| Type::I32)
}

pub open spec fn opt_out(output: Option<Type>) -> Seq<Type> {
    match output {
        Some(t) => seq![t],
        None => Seq::<Type>::empty(),
    }
}

/// The native signature of the real host import.
pub open spec fn real_sig_v(inputs: Seq<Type>, output: Option<Type>) -> SigV {
    SigV { params: inputs, results: opt_out(output) }
}

/// The all-integer signature of the adapter.
pub open spec fn adapter_sig_v(inputs: Seq<Type>, output: Option<Type>) -> SigV {
    SigV {
        params: all_i32(inputs.len() as int),
        results: match output {
            Some(_) => seq![Type::I32],
            None => Seq::<Type>::empty(),
        },
    }
}

/// Marshalling of one parameter: an integer is passed through unchanged; a
/// reference parameter arrives as the address of a 4-byte table index, which
/// is read from linear memory and resolved through the indirection table.
pub open spec fn per_arg(t: Type, i: usize, tbl: usize) -> Seq<Instr> {
    match t {
        Type::I32 => seq![Instr::LocalGet(i)],
        Type::ExternRef => seq![Instr::LocalGet(i), Instr::LoadI32, Instr::TableGet(tbl)],
    }
}

pub open spec fn arg_instrs(inputs: Seq<Type>, tbl: usize) -> Seq<Instr>
    decreases inputs.len(),
{
    if inputs.len() == 0 {
        Seq::<Instr>::empty()
    } else {
        arg_instrs(inputs.drop_last(), tbl) + per_arg(
            inputs.last(),
            (inputs.len() - 1) as usize,
            tbl,
        )
    }
}

/// The delegating call and result marshalling: a reference result is parked
/// in a local, a fresh indirection-table slot is obtained from the
/// slot-allocate operation, the reference is stored there, and the slot
/// index is returned as the adapter's integer result.
pub open spec fn tail_instrs(
    output: Option<Type>,
    real_fn: usize,
    slab: usize,
    tbl: usize,
    n: usize,
) -> Seq<Instr> {
    if output == Some(Type::ExternRef) {
        seq![
            Instr::Call(real_fn),
            Instr::LocalSet(n),
            Instr::Call(slab),
            Instr::LocalTee((n + 1) as usize),
            Instr::LocalGet(n),
            Instr::TableSet(tbl),
            Instr::LocalGet((n + 1) as usize),
        ]
    } else {
        seq![Instr::Call(real_fn)]
    }
}

pub open spec fn adapter_locals(inputs: Seq<Type>, output: Option<Type>) -> Seq<Type> {
    all_i32(inputs.len() as int) + if output == Some(Type::ExternRef) {
        seq![Type::ExternRef, Type::I32]
    } else {
        Seq::<Type>::empty()
    }
}

/// The whole adapter body: one root region of marshalling followed by the
/// delegating call.
pub open spec fn adapter_body_v(
    inputs: Seq<Type>,
    output: Option<Type>,
    tbl: usize,
    real_fn: usize,
    slab: usize,
) -> BodyV {
    BodyV {
        locals: adapter_locals(inputs, output),
        regions: seq![
            arg_instrs(inputs, tbl) + tail_instrs(output, real_fn, slab, tbl, inputs.len() as usize)
        ],
    }
}

/// Each marshalling instruction is a plain local read, memory read or table
/// read of the expected indices; none opens a nested region.
proof fn lemma_arg_instrs_ok(inputs: Seq<Type>, tbl: usize)
    ensures
        forall|k: int|
            0 <= k < arg_instrs(inputs, tbl).len() ==> match #[trigger] arg_instrs(
                inputs,
                tbl,
            )[k] {
                Instr::LocalGet(l) => l < inputs.len(),
                Instr::LoadI32 => true,
                Instr::TableGet(t) => t == tbl,
                _ => false,
            },
    decreases inputs.len(),
{
    if inputs.len() > 0 {
        lemma_arg_instrs_ok(inputs.drop_last(), tbl);
    }
}

/// The adapter body is well-formed in any module where the indirection
/// table exists and the real import and slot-allocate functions are live.
pub proof fn lemma_adapter_body_wf(
    inputs: Seq<Type>,
    output: Option<Type>,
    tbl: usize,
    real_fn: usize,
    slab: usize,
    m: ModuleV,
)
    requires
        tbl < m.tables.len(),
        m.live(real_fn as int),
        m.live(slab as int),
        inputs.len() + 2 <= usize::MAX,
    ensures
        body_wf(
            adapter_body_v(inputs, output, tbl, real_fn, slab),
            adapter_sig_v(inputs, output),
            m,
        ),
{
    let b = adapter_body_v(inputs, output, tbl, real_fn, slab);
    lemma_arg_instrs_ok(inputs, tbl);
    let args = arg_instrs(inputs, tbl);
    let tail = tail_instrs(output, real_fn, slab, tbl, inputs.len() as usize);
    assert forall|p: int, k: int|
        0 <= p < b.regions.len() && 0 <= k < b.regions[p].len() implies instr_wf(
        #[trigger] b.regions[p][k],
        p,
        b.regions.len() as int,
        b.locals.len() as int,
        m,
    ) by {
        assert(b.regions[0] == args + tail);
        if k < args.len() {
            assert(b.regions[p][k] == args[k]);
        } else {
            assert(b.regions[p][k] == tail[k - args.len()]);
        }
    }
    assert forall|p: int, k: int|
        0 <= p < b.regions.len() && 0 <= k < b.regions[p].len() && region_ref(
            #[trigger] b.regions[p][k],
        ) is Some implies false by {
        assert(b.regions[0] == args + tail);
        if k < args.len() {
            assert(b.regions[p][k] == args[k]);
        } else {
            assert(b.regions[p][k] == tail[k - args.len()]);
        }
    }
    assert(regions_structured(b.regions));
}

/// The recorded symbol name of a real host import.
pub open spec fn real_import_name(modname: Seq<char>, nm: Seq<char>) -> Seq<char> {
    modname + "."@ + nm
}

/// The module after the real host import is added: one fresh imported
/// function and one import declaration binding it.
pub open spec fn add_real_import(
    m: ModuleV,
    modname: Seq<char>,
    nm: Seq<char>,
    inputs: Seq<Type>,
    output: Option<Type>,
) -> ModuleV {
    let fid = m.funcs.len() as usize;
    ModuleV {
        funcs: m.funcs.push(
            Some(
                FunctionV {
                    name: real_import_name(modname, nm),
                    sig: real_sig_v(inputs, output),
                    kind: FuncKindV::Imported,
                },
            ),
        ),
        imports: m.imports.push(ImportV { namespace: modname, name: nm, kind: ImportKind::Func(fid) }),
        ..m
    }
}

pub proof fn lemma_add_real_import_wf(
    m: ModuleV,
    modname: Seq<char>,
    nm: Seq<char>,
    inputs: Seq<Type>,
    output: Option<Type>,
)
    requires
        m.wf(),
        m.funcs.len() < usize::MAX,
    ensures
        add_real_import(m, modname, nm, inputs, output).wf(),
        add_real_import(m, modname, nm, inputs, output).live(m.funcs.len() as int),
{
    let m1 = add_real_import(m, modname, nm, inputs, output);
    assert forall|f: int| 0 <= f < m1.funcs.len() implies #[trigger] crate::model::func_entry_wf(
        m1,
        f,
    ) by {
        if f < m.funcs.len() {
            assert(crate::model::func_entry_wf(m, f));
            if m1.funcs[f] is Some {
                assert(m1.funcs[f] == m.funcs[f]);
                match m.funcs[f]->Some_0.kind {
                    FuncKindV::Local(b) => {
                        assert forall|p: int, k: int|
                            0 <= p < b.regions.len() && 0 <= k < b.regions[p].len() implies
                            instr_wf(
                            #[trigger] b.regions[p][k],
                            p,
                            b.regions.len() as int,
                            b.locals.len() as int,
                            m1,
                        ) by {
                            assert(instr_wf(
                                b.regions[p][k],
                                p,
                                b.regions.len() as int,
                                b.locals.len() as int,
                                m,
                            ));
                        }
                    },
                    FuncKindV::Imported => {},
                }
            }
        }
    }
    assert forall|j: int| 0 <= j < m1.imports.len() implies #[trigger] crate::model::import_entry_wf(
        m1,
        j,
    ) by {
        if j < m.imports.len() {
            assert(m1.imports[j] == m.imports[j]);
            assert(crate::model::import_entry_wf(m, j));
        }
    }
    assert forall|j1: int, j2: int|
        0 <= j1 < m1.imports.len() && 0 <= j2 < m1.imports.len() && j1 != j2
            && #[trigger] m1.imports[j1].kind is Func && #[trigger] m1.imports[j2].kind is Func
        implies m1.imports[j1].kind != m1.imports[j2].kind by {
        if j1 < m.imports.len() && j2 < m.imports.len() {
            assert(crate::model::import_entry_wf(m, j1));
        } else if j1 < m.imports.len() {
            assert(crate::model::import_entry_wf(m, j1));
        } else if j2 < m.imports.len() {
            assert(crate::model::import_entry_wf(m, j2));
        }
    }
    assert forall|e: int| 0 <= e < m1.exports.len() implies #[trigger] crate::model::export_entry_wf(
        m1,
        e,
    ) by {
        assert(crate::model::export_entry_wf(m, e));
    }
}

/// The effect of one catalog entry: add the real import, then install the
/// adapter through the replacement engine.
pub open spec fn install_entry_spec(
    m: ModuleV,
    modname: Seq<char>,
    inputs: Seq<Type>,
    output: Option<Type>,
    nm: Seq<char>,
    tbl: usize,
    slab: usize,
) -> (ModuleV, ReplaceOutcome) {
    let fid = m.funcs.len() as usize;
    let m1 = add_real_import(m, modname, nm, inputs, output);
    replace_spec(
        m1,
        "fix_api_shim"@,
        nm,
        adapter_sig_v(inputs, output),
        adapter_body_v(inputs, output, tbl, fid, slab),
    )
}

/// The fold of one category over its generated names, aborting at the first
/// configuration error (a shim import that is not a function).
pub open spec fn install_names_spec(
    m: ModuleV,
    modname: Seq<char>,
    inputs: Seq<Type>,
    output: Option<Type>,
    names: Seq<Seq<char>>,
    tbl: usize,
    slab: usize,
) -> (ModuleV, Option<Seq<char>>)
    decreases names.len(),
{
    if names.len() == 0 {
        (m, None)
    } else {
        let (m1, e) = install_names_spec(m, modname, inputs, output, names.drop_last(), tbl, slab);
        if e is Some {
            (m1, e)
        } else {
            let (m2, out) = install_entry_spec(m1, modname, inputs, output, names.last(), tbl, slab);
            if out is NotAFunction {
                (m2, Some(names.last()))
            } else {
                (m2, None)
            }
        }
    }
}

pub open spec fn install_cats_spec(
    m: ModuleV,
    modname: Seq<char>,
    cats: Seq<CategoryV>,
    tbl: usize,
    slab: usize,
) -> (ModuleV, Option<Seq<char>>)
    decreases cats.len(),
{
    if cats.len() == 0 {
        (m, None)
    } else {
        let (m1, e) = install_cats_spec(m, modname, cats.drop_last(), tbl, slab);
        if e is Some {
            (m1, e)
        } else {
            install_names_spec(
                m1,
                modname,
                cats.last().inputs,
                cats.last().output,
                cats.last().functions,
                tbl,
                slab,
            )
        }
    }
}

pub open spec fn install_modules_spec(
    m: ModuleV,
    mods: Seq<ImportModuleV>,
    tbl: usize,
    slab: usize,
) -> (ModuleV, Option<Seq<char>>)
    decreases mods.len(),
{
    if mods.len() == 0 {
        (m, None)
    } else {
        let (m1, e) = install_modules_spec(m, mods.drop_last(), tbl, slab);
        if e is Some {
            (m1, e)
        } else {
            install_cats_spec(m1, mods.last().name, mods.last().categories, tbl, slab)
        }
    }
}

proof fn lemma_names_error_ext(
    m: ModuleV,
    modname: Seq<char>,
    inputs: Seq<Type>,
    output: Option<Type>,
    names: Seq<Seq<char>>,
    tbl: usize,
    slab: usize,
    i: int,
)
    requires
        0 <= i <= names.len(),
        install_names_spec(m, modname, inputs, output, names.take(i), tbl, slab).1 is Some,
    ensures
        install_names_spec(m, modname, inputs, output, names, tbl, slab) == install_names_spec(
            m,
            modname,
            inputs,
            output,
            names.take(i),
            tbl,
            slab,
        ),
    decreases names.len() - i,
{
    if i < names.len() {
        assert(names.take(i + 1).drop_last() =~= names.take(i));
        lemma_names_error_ext(m, modname, inputs, output, names, tbl, slab, i + 1);
    } else {
        assert(names.take(i) =~= names);
    }
}

proof fn lemma_cats_error_ext(
    m: ModuleV,
    modname: Seq<char>,
    cats: Seq<CategoryV>,
    tbl: usize,
    slab: usize,
    i: int,
)
    requires
        0 <= i <= cats.len(),
        install_cats_spec(m, modname, cats.take(i), tbl, slab).1 is Some,
    ensures
        install_cats_spec(m, modname, cats, tbl, slab) == install_cats_spec(
            m,
            modname,
            cats.take(i),
            tbl,
            slab,
        ),
    decreases cats.len() - i,
{
    if i < cats.len() {
        assert(cats.take(i + 1).drop_last() =~= cats.take(i));
        lemma_cats_error_ext(m, modname, cats, tbl, slab, i + 1);
    } else {
        assert(cats.take(i) =~= cats);
    }
}

proof fn lemma_mods_error_ext(
    m: ModuleV,
    mods: Seq<ImportModuleV>,
    tbl: usize,
    slab: usize,
    i: int,
)
    requires
        0 <= i <= mods.len(),
        install_modules_spec(m, mods.take(i), tbl, slab).1 is Some,
    ensures
        install_modules_spec(m, mods, tbl, slab) == install_modules_spec(
            m,
            mods.take(i),
            tbl,
            slab,
        ),
    decreases mods.len() - i,
{
    if i < mods.len() {
        assert(mods.take(i + 1).drop_last() =~= mods.take(i));
        lemma_mods_error_ext(m, mods, tbl, slab, i + 1);
    } else {
        assert(mods.take(i) =~= mods);
    }
}

fn copy_types(v: &Vec<Type>) -> (r: Vec<Type>)
    ensures
        r@ == v@,
{
    let mut r: Vec<Type> = Vec::new();
    let mut i: usize = 0;
    while i < v.len()
        invariant
            i <= v.len(),
            r@ =~= v@.take(i as int),
        decreases v.len() - i,
    {
        r.push(v[i]);
        proof {
            assert(r@ =~= v@.take(i as int + 1));
        }
        i = i + 1;
    }
    proof {
        assert(v@.take(v@.len() as int) =~= v@);
    }
    r
}

fn build_real_sig(inputs: &Vec<Type>, output: Option<Type>) -> (s: FuncSig)
    ensures
        s@ == real_sig_v(inputs@, output),
{
    let params = copy_types(inputs);
    let mut results: Vec<Type> = Vec::new();
    match output {
        Some(t) => {
            results.push(t);
            proof {
                assert(results@ =~= opt_out(output));
            }
        },
        None => {
            proof {
                assert(results@ =~= opt_out(output));
            }
        },
    }
    FuncSig { params, results }
}

fn build_adapter_sig(n: usize, output: Option<Type>) -> (s: FuncSig)
    ensures
        s@.params == all_i32(n as int),
        s@.results == (match output {
            Some(_) => seq![Type::I32],
            None => Seq::<Type>::empty(),
        }),
{
    let mut params: Vec<Type> = Vec::new();
    let mut i: usize = 0;
    while i < n
        invariant
            i <= n,
            params@.len() == i,
            forall|t: int| 0 <= t < i ==> params@[t] == Type::I32,
        decreases n - i,
    {
        params.push(Type::I32);
        i = i + 1;
    }
    proof {
        assert(params@ =~= all_i32(n as int));
    }
    let mut results: Vec<Type> = Vec::new();
    let is_out = match output {
        Some(_) => true,
        None => false,
    };
    if is_out {
        results.push(Type::I32);
        proof {
            assert(results@ =~= seq![Type::I32]);
        }
    }
    FuncSig { params, results }
}

/// Build one adapter body for the given operation shape.
fn build_adapter_body(
    inputs: &Vec<Type>,
    output: Option<Type>,
    tbl: usize,
    real_fn: usize,
    slab: usize,
) -> (b: FuncBody)
    requires
        inputs@.len() + 2 <= usize::MAX,
    ensures
        b@ == adapter_body_v(inputs@, output, tbl, real_fn, slab),
{
    let n = inputs.len();
    let mut instrs: Vec<Instr> = Vec::new();
    let mut i: usize = 0;
    while i < n
        invariant
            i <= n,
            n == inputs@.len(),
            n + 2 <= usize::MAX,
            instrs@ == arg_instrs(inputs@.take(i as int), tbl),
        decreases n - i,
    {
        match inputs[i] {
            Type::I32 => {
                instrs.push(Instr::LocalGet(i));
            },
            Type::ExternRef => {
                instrs.push(Instr::LocalGet(i));
                instrs.push(Instr::LoadI32);
                instrs.push(Instr::TableGet(tbl));
            },
        }
        proof {
            assert(inputs@.take(i as int + 1).drop_last() =~= inputs@.take(i as int));
            assert(instrs@ =~= arg_instrs(inputs@.take(i as int + 1), tbl));
        }
        i = i + 1;
    }
    proof {
        assert(inputs@.take(n as int) =~= inputs@);
    }
    let ghost argpart = instrs@;
    let is_ref_out = match output {
        Some(Type::ExternRef) => true,
        _ => false,
    };
    if is_ref_out {
        instrs.push(Instr::Call(real_fn));
        instrs.push(Instr::LocalSet(n));
        instrs.push(Instr::Call(slab));
        instrs.push(Instr::LocalTee(n + 1));
        instrs.push(Instr::LocalGet(n));
        instrs.push(Instr::TableSet(tbl));
        instrs.push(Instr::LocalGet(n + 1));
    } else {
        instrs.push(Instr::Call(real_fn));
    }
    proof {
        assert(instrs@ =~= argpart + tail_instrs(output, real_fn, slab, tbl, n));
    }
    let mut locals: Vec<Type> = Vec::new();
    let mut k: usize = 0;
    while k < n
        invariant
            k <= n,
            locals@.len() == k,
            forall|t: int| 0 <= t < k ==> locals@[t] == Type::I32,
        decreases n - k,
    {
        locals.push(Type::I32);
        k = k + 1;
    }
    if is_ref_out {
        locals.push(Type::ExternRef);
        locals.push(Type::I32);
    }
    proof {
        assert(locals@ =~= adapter_locals(inputs@, output));
    }
    let mut regions: Vec<Vec<Instr>> = Vec::new();
    regions.push(instrs);
    let b = FuncBody { locals, regions };
    proof {
        assert(b@.regions =~= adapter_body_v(inputs@, output, tbl, real_fn, slab).regions);
        assert(b@ =~~= adapter_body_v(inputs@, output, tbl, real_fn, slab));
    }
    b
}

fn real_name(modname: &str, nm: &str) -> (r: String)
    ensures
        r@ == real_import_name(modname@, nm@),
{
    let mut s = modname.to_owned();
    s.append(".");
    s.append(nm);
    s
}

/// One entry keeps the module well-formed and preserves the table, the
/// exports, the memories, and every live local function.
pub proof fn lemma_install_entry_props(
    m: ModuleV,
    modname: Seq<char>,
    inputs: Seq<Type>,
    output: Option<Type>,
    nm: Seq<char>,
    tbl: usize,
    slab: usize,
    g: int,
)
    requires
        m.wf(),
        tbl < m.tables.len(),
        m.live(slab as int),
        0 <= g < m.funcs.len(),
        m.funcs[g] is Some,
        m.funcs[g]->Some_0.kind is Local,
        inputs.len() + 2 <= usize::MAX,
        m.funcs.len() < usize::MAX,
    ensures
        ({
            let (m2, out) = install_entry_spec(m, modname, inputs, output, nm, tbl, slab);
            &&& m2.wf()
            &&& m2.tables == m.tables
            &&& m2.exports == m.exports
            &&& m2.memories == m.memories
            &&& m2.funcs.len() >= m.funcs.len()
            &&& m2.funcs[g] is Some
            &&& m2.funcs[g]->Some_0.kind is Local
            &&& m2.funcs[g]->Some_0.name == m.funcs[g]->Some_0.name
            &&& m2.funcs[g]->Some_0.sig == m.funcs[g]->Some_0.sig
        }),
{
    let fid = m.funcs.len() as usize;
    let m1 = add_real_import(m, modname, nm, inputs, output);
    lemma_add_real_import_wf(m, modname, nm, inputs, output);
    lemma_adapter_body_wf(inputs, output, tbl, fid, slab, m1);
    lemma_replace_spec_wf(
        m1,
        "fix_api_shim"@,
        nm,
        adapter_sig_v(inputs, output),
        adapter_body_v(inputs, output, tbl, fid, slab),
    );
    lemma_replace_spec_preserves(
        m1,
        "fix_api_shim"@,
        nm,
        adapter_sig_v(inputs, output),
        adapter_body_v(inputs, output, tbl, fid, slab),
        g,
    );
    lemma_replace_spec_skeleton(
        m1,
        "fix_api_shim"@,
        nm,
        adapter_sig_v(inputs, output),
        adapter_body_v(inputs, output, tbl, fid, slab),
    );
}

/// Install the adapters of one operation category: for each generated name,
/// add the real host import and replace the placeholder import.
fn install_names(
    m: &mut Module,
    modname: &str,
    inputs: &Vec<Type>,
    output: Option<Type>,
    names: &Vec<String>,
    tbl: usize,
    slab: usize,
) -> (r: Result<(), ConfigError>)
    requires
        old(m)@.wf(),
        tbl < old(m)@.tables.len(),
        old(m)@.live_local(slab as int),
        inputs@.len() + 2 <= usize::MAX,
    ensures
        final(m)@.wf(),
        final(m)@.tables == old(m)@.tables,
        final(m)@.exports == old(m)@.exports,
        final(m)@.memories == old(m)@.memories,
        final(m)@.funcs.len() >= old(m)@.funcs.len(),
        final(m)@.live_local(slab as int),
        ({
            let (m2, e) = install_names_spec(
                old(m)@,
                modname@,
                inputs@,
                output,
                names@.map_values(|s: String| s@),
                tbl,
                slab,
            );
            &&& final(m)@ == m2
            &&& match r {
                Ok(()) => e is None,
                Err(err) => e is Some && err@ == (ConfigErrorV::ImportNotAFunction {
                    namespace: "fix_api_shim"@,
                    name: e->Some_0,
                }),
            }
        }),
{
    let ghost m0 = m@;
    let ghost names_v = names@.map_values(|s: String| s@);
    let mut ni: usize = 0;
    while ni < names.len()
        invariant
            ni <= names.len(),
            m0 == old(m)@,
            names_v == names@.map_values(|s: String| s@),
            names_v.len() == names@.len(),
            inputs@.len() + 2 <= usize::MAX,
            ({
                let (mm, e) = install_names_spec(
                    m0,
                    modname@,
                    inputs@,
                    output,
                    names_v.take(ni as int),
                    tbl,
                    slab,
                );
                e is None && m@ == mm
            }),
            m@.wf(),
            m@.tables == m0.tables,
            m@.exports == m0.exports,
            m@.memories == m0.memories,
            m@.funcs.len() >= m0.funcs.len(),
            tbl < m@.tables.len(),
            m@.live_local(slab as int),
        decreases names.len() - ni,
    {
        let ghost m_pre = m@;
        let nm = &names[ni];
        proof {
            assert(names_v[ni as int] == nm@);
        }
        // add the real host import under its native signature
        let fid = m.funcs.len();
        let rsig = build_real_sig(inputs, output);
        let rname = real_name(modname, nm.as_str());
        m.funcs.push(Some(Function { name: rname, sig: rsig, kind: FuncKind::Imported }));
        m.imports.push(
            Import { namespace: modname.to_owned(), name: nm.clone(), kind: ImportKind::Func(fid) },
        );
        let post_len = m.funcs.len();
        proof {
            assert(m@ =~~= add_real_import(m_pre, modname@, names_v[ni as int], inputs@, output));
            assert(m_pre.funcs.len() < usize::MAX);
            lemma_add_real_import_wf(m_pre, modname@, names_v[ni as int], inputs@, output);
        }
        // build and install the adapter through the replacement engine
        let asig = build_adapter_sig(inputs.len(), output);
        let abody = build_adapter_body(inputs, output, tbl, fid, slab);
        proof {
            lemma_adapter_body_wf(inputs@, output, tbl, fid, slab, m@);
            assert(asig@ =~~= adapter_sig_v(inputs@, output));
            lemma_replace_spec_preserves(
                m@,
                "fix_api_shim"@,
                names_v[ni as int],
                adapter_sig_v(inputs@, output),
                adapter_body_v(inputs@, output, tbl, fid, slab),
                slab as int,
            );
            lemma_replace_spec_skeleton(
                m@,
                "fix_api_shim"@,
                names_v[ni as int],
                adapter_sig_v(inputs@, output),
                adapter_body_v(inputs@, output, tbl, fid, slab),
            );
        }
        let res = replace_import_function(m, "fix_api_shim", nm.as_str(), asig, abody);
        proof {
            assert(names_v.take(ni as int + 1).drop_last() =~= names_v.take(ni as int));
            assert(names_v.take(ni as int + 1).last() == names_v[ni as int]);
            let spec_sig = adapter_sig_v(inputs@, output);
            let spec_body = adapter_body_v(inputs@, output, tbl, fid, slab);
            let m_add = add_real_import(m_pre, modname@, names_v[ni as int], inputs@, output);
            assert(m@ == replace_spec(
                m_add,
                "fix_api_shim"@,
                names_v[ni as int],
                spec_sig,
                spec_body,
            ).0);
            assert(replace_spec(
                m_add,
                "fix_api_shim"@,
                names_v[ni as int],
                spec_sig,
                spec_body,
            ).0.tables == m_add.tables);
            assert(m_add.tables == m_pre.tables);
            assert(m@.tables == m_pre.tables);
            assert(m@.tables == m0.tables);
            assert(m@.exports == m0.exports);
            assert(m@.memories == m0.memories);
            assert(m@.funcs.len() >= m0.funcs.len());
            assert(m@.live_local(slab as int));
        }
        match res {
            Ok(_) => {},
            Err(e) => {
                proof {
                    lemma_names_error_ext(
                        m0,
                        modname@,
                        inputs@,
                        output,
                        names_v,
                        tbl,
                        slab,
                        ni as int + 1,
                    );
                }
                return Err(e);
            },
        }
        ni = ni + 1;
    }
    proof {
        assert(names_v.take(names_v.len() as int) =~= names_v);
    }
    Ok(())
}

/// Install the adapters of every category of one import namespace.
fn install_module(m: &mut Module, im: &ImportModule, tbl: usize, slab: usize) -> (r: Result<
    (),
    ConfigError,
>)
    requires
        old(m)@.wf(),
        tbl < old(m)@.tables.len(),
        old(m)@.live_local(slab as int),
        forall|b: int|
            0 <= b < im@.categories.len() ==> (#[trigger] im@.categories[b]).inputs.len() + 2
                <= usize::MAX,
    ensures
        final(m)@.wf(),
        final(m)@.tables == old(m)@.tables,
        final(m)@.exports == old(m)@.exports,
        final(m)@.memories == old(m)@.memories,
        final(m)@.funcs.len() >= old(m)@.funcs.len(),
        final(m)@.live_local(slab as int),
        ({
            let (m2, e) = install_cats_spec(old(m)@, im@.name, im@.categories, tbl, slab);
            &&& final(m)@ == m2
            &&& match r {
                Ok(()) => e is None,
                Err(err) => e is Some && err@ == (ConfigErrorV::ImportNotAFunction {
                    namespace: "fix_api_shim"@,
                    name: e->Some_0,
                }),
            }
        }),
{
    let ghost m0 = m@;
    let ghost cats_v = im@.categories;
    let mut ci: usize = 0;
    while ci < im.categories.len()
        invariant
            ci <= im.categories.len(),
            m0 == old(m)@,
            cats_v == im@.categories,
            cats_v.len() == im.categories@.len(),
            forall|b: int|
                0 <= b < cats_v.len() ==> (#[trigger] cats_v[b]).inputs.len() + 2 <= usize::MAX,
            ({
                let (mm, e) = install_cats_spec(m0, im@.name, cats_v.take(ci as int), tbl, slab);
                e is None && m@ == mm
            }),
            m@.wf(),
            m@.tables == m0.tables,
            m@.exports == m0.exports,
            m@.memories == m0.memories,
            m@.funcs.len() >= m0.funcs.len(),
            tbl < m@.tables.len(),
            m@.live_local(slab as int),
        decreases im.categories.len() - ci,
    {
        let cat = &im.categories[ci];
        proof {
            assert(cats_v[ci as int] == cat@);
        }
        let res = install_names(m, im.name.as_str(), &cat.inputs, cat.output, &cat.functions, tbl, slab);
        proof {
            assert(cats_v.take(ci as int + 1).drop_last() =~= cats_v.take(ci as int));
            assert(cats_v.take(ci as int + 1).last() == cats_v[ci as int]);
        }
        match res {
            Ok(_) => {},
            Err(e) => {
                proof {
                    lemma_cats_error_ext(m0, im@.name, cats_v, tbl, slab, ci as int + 1);
                }
                return Err(e);
            },
        }
        ci = ci + 1;
    }
    proof {
        assert(cats_v.take(cats_v.len() as int) =~= cats_v);
    }
    Ok(())
}

/// For every catalog entry, add its real host import and install its
/// adapter via the replacement engine; the placeholder namespace entry for
/// each name, when present, is consumed. A placeholder import that is not a
/// function aborts with a configuration error.
pub fn generate_replacements(
    m: &mut Module,
    imports: Vec<ImportModule>,
    externref_table: usize,
    take_slab: usize,
) -> (r: Result<(), ConfigError>)
    requires
        old(m)@.wf(),
        externref_table < old(m)@.tables.len(),
        old(m)@.live_local(take_slab as int),
        ({
            let mv = imports@.map_values(|im: ImportModule| im@);
            forall|a: int, b: int|
                0 <= a < mv.len() && 0 <= b < mv[a].categories.len() ==> (#[trigger] mv[a]
                    .categories[b]).inputs.len() + 2 <= usize::MAX
        }),
    ensures
        final(m)@.wf(),
        final(m)@.tables == old(m)@.tables,
        final(m)@.exports == old(m)@.exports,
        final(m)@.memories == old(m)@.memories,
        final(m)@.funcs.len() >= old(m)@.funcs.len(),
        final(m)@.live_local(take_slab as int),
        ({
            let (m2, e) = install_modules_spec(
                old(m)@,
                imports@.map_values(|im: ImportModule| im@),
                externref_table,
                take_slab,
            );
            &&& final(m)@ == m2
            &&& match r {
                Ok(()) => e is None,
                Err(err) => e is Some && err@ == (ConfigErrorV::ImportNotAFunction {
                    namespace: "fix_api_shim"@,
                    name: e->Some_0,
                }),
            }
        }),
{
    let ghost m0 = m@;
    let ghost mods_v = imports@.map_values(|im: ImportModule| im@);
    let mut mi: usize = 0;
    while mi < imports.len()
        invariant
            mi <= imports.len(),
            m0 == old(m)@,
            mods_v == imports@.map_values(|im: ImportModule| im@),
            mods_v.len() == imports@.len(),
            forall|a: int, b: int|
                0 <= a < mods_v.len() && 0 <= b < mods_v[a].categories.len() ==> (
                #[trigger] mods_v[a].categories[b]).inputs.len() + 2 <= usize::MAX,
            ({
                let (mm, e) = install_modules_spec(m0, mods_v.take(mi as int), externref_table, take_slab);
                e is None && m@ == mm
            }),
            m@.wf(),
            m@.tables == m0.tables,
            m@.exports == m0.exports,
            m@.memories == m0.memories,
            m@.funcs.len() >= m0.funcs.len(),
            externref_table < m@.tables.len(),
            m@.live_local(take_slab as int),
        decreases imports.len() - mi,
    {
        let im = &imports[mi];
        proof {
            assert(mods_v[mi as int] == im@);
        }
        let res = install_module(m, im, externref_table, take_slab);
        proof {
            assert(mods_v.take(mi as int + 1).drop_last() =~= mods_v.take(mi as int));
            assert(mods_v.take(mi as int + 1).last() == mods_v[mi as int]);
        }
        match res {
            Ok(_) => {},
            Err(e) => {
                proof {
                    lemma_mods_error_ext(m0, mods_v, externref_table, take_slab, mi as int + 1);
                }
                return Err(e);
            },
        }
        mi = mi + 1;
    }
    proof {
        assert(mods_v.take(mods_v.len() as int) =~= mods_v);
    }
    Ok(())
}

} // verus!
