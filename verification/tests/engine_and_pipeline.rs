use fix_ref::model::{
    ConfigError, Export, FuncBody, FuncKind, FuncSig, Function, Import, ImportKind, Instr, Module,
    Type,
};
use fix_ref::pipeline::run_pass;
use fix_ref::replace::replace_import_function;

fn sig(params: Vec<Type>, results: Vec<Type>) -> FuncSig {
    FuncSig { params, results }
}

fn imported(name: &str, params: Vec<Type>, results: Vec<Type>) -> Option<Function> {
    Some(Function { name: name.to_string(), sig: sig(params, results), kind: FuncKind::Imported })
}

fn local(name: &str, params: Vec<Type>, results: Vec<Type>, body: FuncBody) -> Option<Function> {
    Some(Function {
        name: name.to_string(),
        sig: sig(params, results),
        kind: FuncKind::Local(body),
    })
}

fn body(locals: Vec<Type>, regions: Vec<Vec<Instr>>) -> FuncBody {
    FuncBody { locals, regions }
}

/// A module with one placeholder import and one local function that calls
/// it from deep inside nested blocks and loops.
fn module_with_shim() -> Module {
    Module {
        funcs: vec![
            imported("probe", vec![Type::I32], vec![Type::I32]),
            local(
                "caller",
                vec![],
                vec![],
                body(
                    vec![],
                    vec![
                        // root calls directly and opens a block
                        vec![Instr::Call(0), Instr::Block(1), Instr::Other(0)],
                        // the block opens a loop
                        vec![Instr::Loop(2), Instr::Call(0)],
                        // the loop calls at depth two
                        vec![Instr::Call(0), Instr::Other(1)],
                    ],
                ),
            ),
        ],
        imports: vec![Import {
            namespace: "fix_api_shim".to_string(),
            name: "probe".to_string(),
            kind: ImportKind::Func(0),
        }],
        exports: vec![],
        tables: vec![],
        memories: 1,
    }
}

#[test]
fn replacement_retargets_calls_at_every_depth() {
    let mut m = module_with_shim();
    let r = replace_import_function(
        &mut m,
        "fix_api_shim",
        "probe",
        sig(vec![Type::I32], vec![Type::I32]),
        body(vec![Type::I32], vec![vec![Instr::LocalGet(0)]]),
    );
    assert!(matches!(r, Ok(true)));
    // the import is gone and the original function identity is dead
    assert!(m.imports.is_empty());
    assert!(m.funcs[0].is_none());
    // the replacement carries the canonical name at a fresh identity
    let new_id = 2;
    let newf = m.funcs[new_id].as_ref().unwrap();
    assert_eq!(newf.name, "probe");
    assert!(matches!(newf.kind, FuncKind::Local(_)));
    // every call site, at every region nesting depth, targets the new id
    match &m.funcs[1].as_ref().unwrap().kind {
        FuncKind::Local(b) => {
            assert_eq!(b.regions[0][0], Instr::Call(new_id));
            assert_eq!(b.regions[0][1], Instr::Block(1));
            assert_eq!(b.regions[0][2], Instr::Other(0));
            assert_eq!(b.regions[1][1], Instr::Call(new_id));
            assert_eq!(b.regions[2][0], Instr::Call(new_id));
            assert_eq!(b.regions[2][1], Instr::Other(1));
        }
        FuncKind::Imported => panic!("caller must stay local"),
    }
}

#[test]
fn absent_import_is_a_tolerated_no_op() {
    let mut m = module_with_shim();
    let r = replace_import_function(
        &mut m,
        "fix_api_shim",
        "missing_name",
        sig(vec![], vec![]),
        body(vec![], vec![vec![]]),
    );
    assert!(matches!(r, Ok(false)));
    assert_eq!(m.funcs.len(), 2);
    assert_eq!(m.imports.len(), 1);
}

#[test]
fn non_function_import_is_a_configuration_error() {
    let mut m = module_with_shim();
    m.imports.push(Import {
        namespace: "fix_api_shim".to_string(),
        name: "a_memory".to_string(),
        kind: ImportKind::Other,
    });
    let r = replace_import_function(
        &mut m,
        "fix_api_shim",
        "a_memory",
        sig(vec![], vec![]),
        body(vec![], vec![vec![]]),
    );
    match r {
        Err(ConfigError::ImportNotAFunction { namespace, name }) => {
            assert_eq!(namespace, "fix_api_shim");
            assert_eq!(name, "a_memory");
        }
        _ => panic!("expected the configuration error"),
    }
}

/// A minimal module satisfying every pipeline precondition.
fn runnable_module() -> Module {
    Module {
        funcs: vec![
            local("_fixpoint_return_slab.command_export", vec![Type::I32], vec![], body(
                vec![Type::I32],
                vec![vec![]],
            )),
            local("_fixpoint_take_slab.command_export", vec![], vec![Type::I32], body(
                vec![],
                vec![vec![Instr::I32Const(7)]],
            )),
            local("_fixpoint_apply_base.command_export", vec![Type::I32], vec![Type::I32], body(
                vec![Type::I32],
                vec![vec![Instr::LocalGet(0)]],
            )),
            imported("get_ro_table_0", vec![Type::I32], vec![Type::ExternRef]),
            local(
                "user",
                vec![],
                vec![],
                body(vec![], vec![vec![Instr::Block(1)], vec![Instr::Call(3)]]),
            ),
        ],
        imports: vec![Import {
            namespace: "fix_api_shim".to_string(),
            name: "get_ro_table_0".to_string(),
            kind: ImportKind::Func(3),
        }],
        exports: vec![
            Export { name: "_fixpoint_return_slab.command_export".to_string(), func: 0 },
            Export { name: "_fixpoint_take_slab.command_export".to_string(), func: 1 },
        ],
        tables: vec![],
        memories: 1,
    }
}

#[test]
fn pass_wires_the_module_end_to_end() {
    let mut m = runnable_module();
    let r = run_pass(&mut m);
    assert!(r.is_ok());
    // the indirection table exists with initial length 0 and no limit
    assert_eq!(m.tables.len(), 1);
    assert_eq!(m.tables[0].initial, 0);
    assert_eq!(m.tables[0].maximum, None);
    // the slot-management exports are gone; the functions remain
    assert!(m.funcs[0].is_some());
    assert!(m.funcs[1].is_some());
    assert!(!m
        .exports
        .iter()
        .any(|e| e.name.contains("slab")));
    // the placeholder namespace is fully consumed
    assert!(!m.imports.iter().any(|i| i.namespace == "fix_api_shim"));
    // the real import was added under the storage namespace
    assert!(m
        .imports
        .iter()
        .any(|i| i.namespace == "fixpoint_storage" && i.name == "get_ro_table_0"));
    // exactly one local function bears the canonical shim name
    let bearers: Vec<usize> = m
        .funcs
        .iter()
        .enumerate()
        .filter(|(_, f)| f.as_ref().map(|f| f.name == "get_ro_table_0") == Some(true))
        .map(|(i, _)| i)
        .collect();
    assert_eq!(bearers.len(), 1);
    let adapter = m.funcs[bearers[0]].as_ref().unwrap();
    assert!(matches!(adapter.kind, FuncKind::Local(_)));
    // the user's nested call site now targets the adapter
    match &m.funcs[4].as_ref().unwrap().kind {
        FuncKind::Local(b) => assert_eq!(b.regions[1][0], Instr::Call(bearers[0])),
        FuncKind::Imported => panic!("user must stay local"),
    }
    // the new entry point is exported, with the reference signature
    let apply = m.exports.iter().find(|e| e.name == "_fixpoint_apply").unwrap();
    let af = m.funcs[apply.func].as_ref().unwrap();
    assert_eq!(af.sig.params, vec![Type::ExternRef]);
    assert_eq!(af.sig.results, vec![Type::ExternRef]);
}

#[test]
fn missing_slot_allocate_export_aborts_and_names_it() {
    let mut m = runnable_module();
    // keep the function, drop only its export
    m.exports.retain(|e| e.func != 1);
    let r = run_pass(&mut m);
    match r {
        Err(ConfigError::MissingExport { name }) => {
            assert_eq!(name, "_fixpoint_take_slab.command_export");
        }
        _ => panic!("expected the configuration error naming the export"),
    }
}

#[test]
fn missing_business_logic_entry_aborts() {
    let mut m = runnable_module();
    m.funcs[2] = None;
    let r = run_pass(&mut m);
    match r {
        Err(ConfigError::MissingFunction { name }) => {
            assert_eq!(name, "_fixpoint_apply_base.command_export");
        }
        _ => panic!("expected the configuration error naming the function"),
    }
}
