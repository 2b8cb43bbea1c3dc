//! The function catalog: the declarative enumeration of every ABI adapter's
//! name and shape, derived from six structural families (read-only and
//! read-write table slots, read-only and read-write memory regions, and the
//! two bulk-copy families), plus the base thunk and blob operations.

use vstd::prelude::*;
use vstd::string::StringExecFns;

use crate::model::Type;

verus! {

/// One import namespace together with the operation categories whose
/// adapters it receives.
pub struct ImportModule {
    pub name: String,
    pub categories: Vec<FunctionCategory>,
}

/// One operation shape: ordered input kinds, optional output kind, and the
/// generated names sharing that shape.
pub struct FunctionCategory {
    pub inputs: Vec<Type>,
    pub output: Option<Type>,
    pub functions: Vec<String>,
}

#[verifier::ext_equal]
pub struct CategoryV {
    pub inputs: Seq<Type>,
    pub output: Option<Type>,
    pub functions: Seq<Seq<char>>,
}

#[verifier::ext_equal]
pub struct ImportModuleV {
    pub name: Seq<char>,
    pub categories: Seq<CategoryV>,
}

impl View for FunctionCategory {
    type V = CategoryV;

    open spec fn view(&self) -> CategoryV {
        CategoryV {
            inputs: self.inputs@,
            output: self.output,
            functions: self.functions@.map_values(|s: String| s@),
        }
    }
}

impl View for ImportModule {
    type V = ImportModuleV;

    open spec fn view(&self) -> ImportModuleV {
        ImportModuleV {
            name: self.name@,
            categories: self.categories@.map_values(|c: FunctionCategory| c@),
        }
    }
}

pub open spec fn digit_char(i: int) -> char {
    if i == 0 {
        '0'
    } else if i == 1 {
        '1'
    } else if i == 2 {
        '2'
    } else if i == 3 {
        '3'
    } else if i == 4 {
        '4'
    } else if i == 5 {
        '5'
    } else if i == 6 {
        '6'
    } else if i == 7 {
        '7'
    } else if i == 8 {
        '8'
    } else {
        '9'
    }
}

/// The name of instance `i` of an operation: the base name with the decimal
/// instance index appended.
pub open spec fn indexed_name(base: Seq<char>, i: int) -> Seq<char> {
    base + seq![digit_char(i)]
}

/// The generated names of one operation over `count` instances: one name per
/// instance index, and one trailing name with no index suffix standing for
/// all instances.
pub open spec fn gen_names_spec(base: Seq<char>, count: int) -> Seq<Seq<char>> {
    Seq::new(
        (count + 1) as nat,
        |i: int|
            if i < count {
                indexed_name(base, i)
            } else {
                base
            },
    )
}

fn digit_str(i: usize) -> (r: &'static str)
    requires
        i <= 9,
    ensures
        r@ == seq![digit_char(i as int)],
{
    proof {
        reveal_strlit("0");
        reveal_strlit("1");
        reveal_strlit("2");
        reveal_strlit("3");
        reveal_strlit("4");
        reveal_strlit("5");
        reveal_strlit("6");
        reveal_strlit("7");
        reveal_strlit("8");
        reveal_strlit("9");
    }
    let r: &'static str = match i {
        0 => "0",
        1 => "1",
        2 => "2",
        3 => "3",
        4 => "4",
        5 => "5",
        6 => "6",
        7 => "7",
        8 => "8",
        _ => "9",
    };
    proof {
        assert(r@ =~= seq![digit_char(i as int)]);
    }
    r
}

/// Generate the names of one operation: `base` with each instance index
/// `0..count` appended, then `base` itself as the trailing unindexed name.
pub fn gen_names(base: &str, count: usize) -> (r: Vec<String>)
    requires
        count <= 9,
    ensures
        r@.map_values(|s: String| s@) == gen_names_spec(base@, count as int),
        r@.len() == count + 1,
{
    let mut r: Vec<String> = Vec::new();
    let mut i: usize = 0;
    while i < count
        invariant
            i <= count <= 9,
            r@.len() == i,
            forall|t: int| 0 <= t < i ==> (#[trigger] r@[t])@ == indexed_name(base@, t),
        decreases count - i,
    {
        let mut s = base.to_owned();
        s.append(digit_str(i));
        r.push(s);
        i = i + 1;
    }
    r.push(base.to_owned());
    proof {
        assert(r@.map_values(|s: String| s@) =~= gen_names_spec(base@, count as int));
    }
    r
}

/// The category of one enumerated operation: its generated names all share
/// the operation's shape.
pub open spec fn category_v(
    prefix: Seq<char>,
    base: Seq<char>,
    count: int,
    inputs: Seq<Type>,
    output: Option<Type>,
) -> CategoryV {
    CategoryV { inputs, output, functions: gen_names_spec(prefix + "_"@ + base, count) }
}

fn category(
    prefix: &str,
    base: &str,
    count: usize,
    inputs: Vec<Type>,
    output: Option<Type>,
) -> (c: FunctionCategory)
    requires
        count <= 9,
    ensures
        c@ == category_v(prefix@, base@, count as int, inputs@, output),
{
    let mut full = prefix.to_owned();
    full.append("_");
    full.append(base);
    let functions = gen_names(full.as_str(), count);
    FunctionCategory { inputs, output, functions }
}

fn single_category(name: &str, inputs: Vec<Type>, output: Option<Type>) -> (c: FunctionCategory)
    ensures
        c@ == (CategoryV { inputs: inputs@, output, functions: seq![name@] }),
{
    let mut functions: Vec<String> = Vec::new();
    functions.push(name.to_owned());
    proof {
        assert(functions@.map_values(|s: String| s@) =~= seq![name@]);
    }
    FunctionCategory { inputs, output, functions }
}

pub(crate) fn types0() -> (v: Vec<Type>)
    ensures
        v@ == Seq::<Type>::empty(),
{
    Vec::new()
}

pub(crate) fn types1(a: Type) -> (v: Vec<Type>)
    ensures
        v@ == seq![a],
{
    let mut v: Vec<Type> = Vec::new();
    v.push(a);
    proof {
        assert(v@ =~= seq![a]);
    }
    v
}

pub(crate) fn types2(a: Type, b: Type) -> (v: Vec<Type>)
    ensures
        v@ == seq![a, b],
{
    let mut v: Vec<Type> = Vec::new();
    v.push(a);
    v.push(b);
    proof {
        assert(v@ =~= seq![a, b]);
    }
    v
}

pub(crate) fn types3(a: Type, b: Type, c: Type) -> (v: Vec<Type>)
    ensures
        v@ == seq![a, b, c],
{
    let mut v: Vec<Type> = Vec::new();
    v.push(a);
    v.push(b);
    v.push(c);
    proof {
        assert(v@ =~= seq![a, b, c]);
    }
    v
}

/// The base thunk and blob operations of the real host namespace.
pub open spec fn base_categories() -> Seq<CategoryV> {
    seq![
        CategoryV {
            inputs: seq![Type::ExternRef],
            output: Some(Type::ExternRef),
            functions: seq!["create_thunk"@],
        },
        CategoryV {
            inputs: seq![Type::I32],
            output: Some(Type::ExternRef),
            functions: seq!["create_blob_i32"@],
        },
        CategoryV {
            inputs: seq![Type::ExternRef],
            output: Some(Type::I32),
            functions: seq!["value_type"@],
        },
    ]
}

/// The storage-namespace operations, in family order: read-only table slots
/// (8 instances), read-write table slots (3), read-only memory regions (4),
/// read-write memory regions (3), and the bulk copies from each read-only
/// memory region and table slot into the read-write instances (3 each).
pub open spec fn storage_categories() -> Seq<CategoryV> {
    seq![
        category_v("get"@, "ro_table_"@, 8, seq![Type::I32], Some(Type::ExternRef)),
        category_v("size"@, "ro_table_"@, 8, Seq::<Type>::empty(), Some(Type::I32)),
        category_v("get"@, "rw_table_"@, 3, seq![Type::I32], Some(Type::ExternRef)),
        category_v("grow"@, "rw_table_"@, 3, seq![Type::I32, Type::ExternRef], Some(Type::I32)),
        category_v("set"@, "rw_table_"@, 3, seq![Type::I32, Type::ExternRef], None),
        category_v("get_i32"@, "ro_mem_"@, 4, seq![Type::I32], Some(Type::I32)),
        category_v("get_i32"@, "rw_mem_"@, 3, seq![Type::I32], Some(Type::I32)),
        category_v("size"@, "rw_mem_"@, 3, Seq::<Type>::empty(), Some(Type::I32)),
        category_v("grow"@, "rw_mem_"@, 3, seq![Type::I32], Some(Type::I32)),
        category_v("set_i32"@, "rw_mem_"@, 3, seq![Type::I32, Type::I32], None),
        category_v("copy_ro_mem_0_to_rw"@, ""@, 3, seq![Type::I32, Type::I32, Type::I32], None),
        category_v("copy_ro_mem_1_to_rw"@, ""@, 3, seq![Type::I32, Type::I32, Type::I32], None),
        category_v("copy_ro_mem_2_to_rw"@, ""@, 3, seq![Type::I32, Type::I32, Type::I32], None),
        category_v("copy_ro_mem_3_to_rw"@, ""@, 3, seq![Type::I32, Type::I32, Type::I32], None),
        category_v("copy_ro_table_0_to_rw"@, ""@, 3, seq![Type::I32, Type::I32, Type::I32], None),
        category_v("copy_ro_table_1_to_rw"@, ""@, 3, seq![Type::I32, Type::I32, Type::I32], None),
        category_v("copy_ro_table_2_to_rw"@, ""@, 3, seq![Type::I32, Type::I32, Type::I32], None),
        category_v("copy_ro_table_3_to_rw"@, ""@, 3, seq![Type::I32, Type::I32, Type::I32], None),
        category_v("copy_ro_table_4_to_rw"@, ""@, 3, seq![Type::I32, Type::I32, Type::I32], None),
        category_v("copy_ro_table_5_to_rw"@, ""@, 3, seq![Type::I32, Type::I32, Type::I32], None),
        category_v("copy_ro_table_6_to_rw"@, ""@, 3, seq![Type::I32, Type::I32, Type::I32], None),
        category_v("copy_ro_table_7_to_rw"@, ""@, 3, seq![Type::I32, Type::I32, Type::I32], None),
    ]
}

/// The remaining enumerated operations of the real host namespace.
pub open spec fn plain_categories() -> Seq<CategoryV> {
    seq![
        category_v("get_attached_tree"@, "ro_table_"@, 8, Seq::<Type>::empty(), Some(Type::ExternRef)),
        category_v("attach_tree"@, "ro_table_"@, 8, seq![Type::ExternRef], None),
        category_v("size"@, "rw_table_"@, 3, Seq::<Type>::empty(), Some(Type::I32)),
        category_v("create_tree"@, "rw_table_"@, 3, seq![Type::I32], Some(Type::ExternRef)),
        category_v("byte_size"@, "ro_mem_"@, 4, Seq::<Type>::empty(), Some(Type::I32)),
        category_v("get_attached_blob"@, "ro_mem_"@, 4, Seq::<Type>::empty(), Some(Type::ExternRef)),
        category_v("attach_blob"@, "ro_mem_"@, 4, seq![Type::ExternRef], None),
        category_v("create_blob"@, "rw_mem_"@, 3, seq![Type::I32], Some(Type::ExternRef)),
    ]
}

/// The whole catalog: the base operations under the real host namespace,
/// the storage operations under the storage namespace, and the remaining
/// enumerated operations under the real host namespace again.
pub open spec fn the_catalog() -> Seq<ImportModuleV> {
    seq![
        ImportModuleV { name: "fixpoint"@, categories: base_categories() },
        ImportModuleV { name: "fixpoint_storage"@, categories: storage_categories() },
        ImportModuleV { name: "fixpoint"@, categories: plain_categories() },
    ]
}

/// Every catalog operation takes at most three inputs.
pub proof fn lemma_catalog_inputs_bound()
    ensures
        forall|a: int, b: int|
            0 <= a < the_catalog().len() && 0 <= b < the_catalog()[a].categories.len() ==> (
            #[trigger] the_catalog()[a].categories[b]).inputs.len() <= 3,
{
    assert forall|a: int, b: int|
        0 <= a < the_catalog().len() && 0 <= b < the_catalog()[a].categories.len() implies (
        #[trigger] the_catalog()[a].categories[b]).inputs.len() <= 3 by {
        if a == 0 {
            assert(the_catalog()[a].categories == base_categories());
        } else if a == 1 {
            assert(the_catalog()[a].categories == storage_categories());
        } else {
            assert(the_catalog()[a].categories == plain_categories());
        }
    }
}

/// Build the catalog of every adapter the pass is capable of wiring.
pub fn get_default_imports() -> (r: Vec<ImportModule>)
    ensures
        r@.map_values(|im: ImportModule| im@) == the_catalog(),
{
    let mut base: Vec<FunctionCategory> = Vec::new();
    base.push(single_category("create_thunk", types1(Type::ExternRef), Some(Type::ExternRef)));
    base.push(single_category("create_blob_i32", types1(Type::I32), Some(Type::ExternRef)));
    base.push(single_category("value_type", types1(Type::ExternRef), Some(Type::I32)));
    proof {
        assert(base@.map_values(|c: FunctionCategory| c@) =~~= base_categories());
    }

    let mut storage: Vec<FunctionCategory> = Vec::new();
    storage.push(category("get", "ro_table_", 8, types1(Type::I32), Some(Type::ExternRef)));
    storage.push(category("size", "ro_table_", 8, types0(), Some(Type::I32)));
    storage.push(category("get", "rw_table_", 3, types1(Type::I32), Some(Type::ExternRef)));
    storage.push(
        category("grow", "rw_table_", 3, types2(Type::I32, Type::ExternRef), Some(Type::I32)),
    );
    storage.push(category("set", "rw_table_", 3, types2(Type::I32, Type::ExternRef), None));
    storage.push(category("get_i32", "ro_mem_", 4, types1(Type::I32), Some(Type::I32)));
    storage.push(category("get_i32", "rw_mem_", 3, types1(Type::I32), Some(Type::I32)));
    storage.push(category("size", "rw_mem_", 3, types0(), Some(Type::I32)));
    storage.push(category("grow", "rw_mem_", 3, types1(Type::I32), Some(Type::I32)));
    storage.push(category("set_i32", "rw_mem_", 3, types2(Type::I32, Type::I32), None));
    storage.push(
        category("copy_ro_mem_0_to_rw", "", 3, types3(Type::I32, Type::I32, Type::I32), None),
    );
    storage.push(
        category("copy_ro_mem_1_to_rw", "", 3, types3(Type::I32, Type::I32, Type::I32), None),
    );
    storage.push(
        category("copy_ro_mem_2_to_rw", "", 3, types3(Type::I32, Type::I32, Type::I32), None),
    );
    storage.push(
        category("copy_ro_mem_3_to_rw", "", 3, types3(Type::I32, Type::I32, Type::I32), None),
    );
    storage.push(
        category("copy_ro_table_0_to_rw", "", 3, types3(Type::I32, Type::I32, Type::I32), None),
    );
    storage.push(
        category("copy_ro_table_1_to_rw", "", 3, types3(Type::I32, Type::I32, Type::I32), None),
    );
    storage.push(
        category("copy_ro_table_2_to_rw", "", 3, types3(Type::I32, Type::I32, Type::I32), None),
    );
    storage.push(
        category("copy_ro_table_3_to_rw", "", 3, types3(Type::I32, Type::I32, Type::I32), None),
    );
    storage.push(
        category("copy_ro_table_4_to_rw", "", 3, types3(Type::I32, Type::I32, Type::I32), None),
    );
    storage.push(
        category("copy_ro_table_5_to_rw", "", 3, types3(Type::I32, Type::I32, Type::I32), None),
    );
    storage.push(
        category("copy_ro_table_6_to_rw", "", 3, types3(Type::I32, Type::I32, Type::I32), None),
    );
    storage.push(
        category("copy_ro_table_7_to_rw", "", 3, types3(Type::I32, Type::I32, Type::I32), None),
    );
    proof {
        assert(storage@.map_values(|c: FunctionCategory| c@) =~~= storage_categories());
    }

    let mut plain: Vec<FunctionCategory> = Vec::new();
    plain.push(category("get_attached_tree", "ro_table_", 8, types0(), Some(Type::ExternRef)));
    plain.push(category("attach_tree", "ro_table_", 8, types1(Type::ExternRef), None));
    plain.push(category("size", "rw_table_", 3, types0(), Some(Type::I32)));
    plain.push(category("create_tree", "rw_table_", 3, types1(Type::I32), Some(Type::ExternRef)));
    plain.push(category("byte_size", "ro_mem_", 4, types0(), Some(Type::I32)));
    plain.push(category("get_attached_blob", "ro_mem_", 4, types0(), Some(Type::ExternRef)));
    plain.push(category("attach_blob", "ro_mem_", 4, types1(Type::ExternRef), None));
    plain.push(category("create_blob", "rw_mem_", 3, types1(Type::I32), Some(Type::ExternRef)));
    proof {
        assert(plain@.map_values(|c: FunctionCategory| c@) =~~= plain_categories());
    }

    let mut imports: Vec<ImportModule> = Vec::new();
    imports.push(ImportModule { name: "fixpoint".to_owned(), categories: base });
    imports.push(ImportModule { name: "fixpoint_storage".to_owned(), categories: storage });
    imports.push(ImportModule { name: "fixpoint".to_owned(), categories: plain });
    proof {
        assert(imports@.map_values(|im: ImportModule| im@) =~~= the_catalog());
    }
    imports
}

} // verus!
