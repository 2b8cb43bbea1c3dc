use fix_ref::catalog::{gen_names, get_default_imports};
use fix_ref::model::Type;

fn names(v: &[&str]) -> Vec<String> {
    v.iter().map(|s| s.to_string()).collect()
}

#[test]
fn gen_names_enumerates_indices_and_trailing_name() {
    let got = gen_names("get_ro_table_", 8);
    assert_eq!(
        got,
        names(&[
            "get_ro_table_0",
            "get_ro_table_1",
            "get_ro_table_2",
            "get_ro_table_3",
            "get_ro_table_4",
            "get_ro_table_5",
            "get_ro_table_6",
            "get_ro_table_7",
            "get_ro_table_",
        ])
    );
}

#[test]
fn catalog_has_three_namespace_groups() {
    let cat = get_default_imports();
    assert_eq!(cat.len(), 3);
    assert_eq!(cat[0].name, "fixpoint");
    assert_eq!(cat[1].name, "fixpoint_storage");
    assert_eq!(cat[2].name, "fixpoint");
    assert_eq!(cat[0].categories.len(), 3);
    assert_eq!(cat[1].categories.len(), 22);
    assert_eq!(cat[2].categories.len(), 8);
}

#[test]
fn read_only_table_family_yields_nine_names_per_operation() {
    let cat = get_default_imports();
    // the read-only table family has 8 instances: 9 generated names per op
    let get = &cat[1].categories[0];
    assert_eq!(get.functions.len(), 9);
    assert_eq!(
        get.functions,
        names(&[
            "get_ro_table_0",
            "get_ro_table_1",
            "get_ro_table_2",
            "get_ro_table_3",
            "get_ro_table_4",
            "get_ro_table_5",
            "get_ro_table_6",
            "get_ro_table_7",
            "get_ro_table_",
        ])
    );
    assert_eq!(get.inputs, vec![Type::I32]);
    assert_eq!(get.output, Some(Type::ExternRef));
    let attach = &cat[2].categories[1];
    assert_eq!(attach.functions.len(), 9);
    assert_eq!(attach.functions[8], "attach_tree_ro_table_");
    assert_eq!(attach.inputs, vec![Type::ExternRef]);
    assert_eq!(attach.output, None);
}

#[test]
fn other_family_counts_follow_their_instance_counts() {
    let cat = get_default_imports();
    // read-write tables: 3 instances -> 4 names
    let grow = &cat[1].categories[3];
    assert_eq!(
        grow.functions,
        names(&["grow_rw_table_0", "grow_rw_table_1", "grow_rw_table_2", "grow_rw_table_"])
    );
    assert_eq!(grow.inputs, vec![Type::I32, Type::ExternRef]);
    assert_eq!(grow.output, Some(Type::I32));
    // read-only memory regions: 4 instances -> 5 names
    let get_i32 = &cat[1].categories[5];
    assert_eq!(get_i32.functions.len(), 5);
    assert_eq!(get_i32.functions[4], "get_i32_ro_mem_");
    // bulk copies: one operation per ordered source, 3 destinations -> 4 names
    let copy = &cat[1].categories[10];
    assert_eq!(
        copy.functions,
        names(&[
            "copy_ro_mem_0_to_rw_0",
            "copy_ro_mem_0_to_rw_1",
            "copy_ro_mem_0_to_rw_2",
            "copy_ro_mem_0_to_rw_",
        ])
    );
    assert_eq!(copy.inputs, vec![Type::I32, Type::I32, Type::I32]);
    assert_eq!(copy.output, None);
    let copy_t = &cat[1].categories[21];
    assert_eq!(copy_t.functions[0], "copy_ro_table_7_to_rw_0");
}

#[test]
fn base_operations_are_single_names() {
    let cat = get_default_imports();
    assert_eq!(cat[0].categories[0].functions, names(&["create_thunk"]));
    assert_eq!(cat[0].categories[1].functions, names(&["create_blob_i32"]));
    assert_eq!(cat[0].categories[2].functions, names(&["value_type"]));
    assert_eq!(cat[0].categories[1].inputs, vec![Type::I32]);
    assert_eq!(cat[0].categories[1].output, Some(Type::ExternRef));
    assert_eq!(cat[0].categories[2].output, Some(Type::I32));
}

#[test]
fn total_generated_names_match_the_families() {
    let cat = get_default_imports();
    let total: usize = cat
        .iter()
        .flat_map(|m| m.categories.iter())
        .map(|c| c.functions.len())
        .sum();
    // 3 base + 4*9 ro_table + 5*4 rw_table + 4*5 ro_mem + 5*4 rw_mem
    //   + 4*4 mem copies + 8*4 table copies
    assert_eq!(total, 3 + 36 + 20 + 20 + 20 + 16 + 32);
}
