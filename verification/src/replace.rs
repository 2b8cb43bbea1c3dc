//! The import replacement engine: locate an import by namespace and name,
//! install a replacement definition under the original's canonical name,
//! retarget every call site module-wide at every region nesting depth, and
//! delete the stale function and import.

use vstd::prelude::*;

use crate::model::{
    region_ref, regions_structured, ConfigError, ConfigErrorV, FuncBody, FuncKind, FuncKindV,
    FuncSig, Function, FunctionV, Import, ImportKind, ImportV, Module, ModuleV, SigV,
    func_opt_view, str_eq, body_wf, BodyV, func_entry_wf, import_entry_wf, export_entry_wf,
    instr_wf, region_referenced, Instr,
};

verus! {

/// One instruction after retargeting: a call to `orig` becomes a call to
/// `new_id`; everything else is untouched.
pub open spec fn retarget_instr(i: Instr, orig: usize, new_id: usize) -> Instr {
    match i {
        Instr::Call(f) => if f == orig {
            Instr::Call(new_id)
        } else {
            i
        },
        _ => i,
    }
}

pub open spec fn retarget_region(r: Seq<Instr>, orig: usize, new_id: usize) -> Seq<Instr> {
    r.map_values(|i: Instr| retarget_instr(i, orig, new_id))
}

pub open spec fn retarget_regions(rs: Seq<Seq<Instr>>, orig: usize, new_id: usize) -> Seq<
    Seq<Instr>,
> {
    rs.map_values(|r: Seq<Instr>| retarget_region(r, orig, new_id))
}

pub open spec fn retarget_func(f: FunctionV, orig: usize, new_id: usize) -> FunctionV {
    match f.kind {
        FuncKindV::Imported => f,
        FuncKindV::Local(b) => FunctionV {
            kind: FuncKindV::Local(
                BodyV { locals: b.locals, regions: retarget_regions(b.regions, orig, new_id) },
            ),
            ..f
        },
    }
}

pub open spec fn retarget_opt_func(f: Option<FunctionV>, orig: usize, new_id: usize) -> Option<
    FunctionV,
> {
    match f {
        Some(g) => Some(retarget_func(g, orig, new_id)),
        None => None,
    }
}

pub open spec fn retarget_funcs(fs: Seq<Option<FunctionV>>, orig: usize, new_id: usize) -> Seq<
    Option<FunctionV>,
> {
    fs.map_values(|f: Option<FunctionV>| retarget_opt_func(f, orig, new_id))
}

/// An import declaration matches a (namespace, name) pair.
pub open spec fn matches_import(i: ImportV, ns: Seq<char>, nm: Seq<char>) -> bool {
    i.namespace == ns && i.name == nm
}

/// Index of the first import matching the pair, if any.
pub open spec fn find_import_idx(imports: Seq<ImportV>, ns: Seq<char>, nm: Seq<char>) -> Option<
    int,
>
    decreases imports.len(),
{
    if imports.len() == 0 {
        None
    } else if matches_import(imports[0], ns, nm) {
        Some(0)
    } else {
        match find_import_idx(imports.drop_first(), ns, nm) {
            Some(j) => Some(j + 1),
            None => None,
        }
    }
}

/// Full characterization of `find_import_idx` as the first match.
pub proof fn lemma_find_import_idx(imports: Seq<ImportV>, ns: Seq<char>, nm: Seq<char>)
    ensures
        match find_import_idx(imports, ns, nm) {
            Some(j) => 0 <= j < imports.len() && matches_import(imports[j], ns, nm) && forall|
                t: int,
            | 0 <= t < j ==> !matches_import(#[trigger] imports[t], ns, nm),
            None => forall|t: int|
                0 <= t < imports.len() ==> !matches_import(#[trigger] imports[t], ns, nm),
        },
    decreases imports.len(),
{
    if imports.len() > 0 && !matches_import(imports[0], ns, nm) {
        let tail = imports.drop_first();
        lemma_find_import_idx(tail, ns, nm);
        match find_import_idx(imports, ns, nm) {
            Some(j) => {
                assert(find_import_idx(tail, ns, nm) == Some(j - 1));
                assert(imports[j] == tail[j - 1]);
                assert forall|t: int| 0 <= t < j implies !matches_import(
                    #[trigger] imports[t],
                    ns,
                    nm,
                ) by {
                    if t > 0 {
                        assert(imports[t] == tail[t - 1]);
                    }
                }
            },
            None => {
                assert forall|t: int| 0 <= t < imports.len() implies !matches_import(
                    #[trigger] imports[t],
                    ns,
                    nm,
                ) by {
                    if t > 0 {
                        assert(imports[t] == tail[t - 1]);
                    }
                }
            },
        }
    }
}

/// A scan that found the first match (or none) agrees with `find_import_idx`.
pub proof fn lemma_find_import_idx_of_scan(
    imports: Seq<ImportV>,
    ns: Seq<char>,
    nm: Seq<char>,
    j: int,
)
    requires
        0 <= j <= imports.len(),
        forall|t: int| 0 <= t < j ==> !matches_import(#[trigger] imports[t], ns, nm),
        j < imports.len() ==> matches_import(imports[j], ns, nm),
    ensures
        j < imports.len() ==> find_import_idx(imports, ns, nm) == Some(j),
        j == imports.len() ==> find_import_idx(imports, ns, nm) is None,
    decreases imports.len(),
{
    if imports.len() > 0 {
        if j == 0 {
        } else {
            assert(!matches_import(imports[0], ns, nm));
            lemma_find_import_idx_of_scan(imports.drop_first(), ns, nm, j - 1);
            assert forall|t: int| 0 <= t < imports.drop_first().len() implies
                imports.drop_first()[t] == imports[t + 1] by {}
        }
    }
}

/// Find the first import with the given namespace and name.
pub fn find_import(imports: &Vec<Import>, namespace: &str, name: &str) -> (r: Option<usize>)
    ensures
        ({
            let iv = imports@.map_values(|i: Import| i@);
            match r {
                Some(j) => j < imports.len() && find_import_idx(iv, namespace@, name@) == Some(
                    j as int,
                ),
                None => find_import_idx(iv, namespace@, name@) is None,
            }
        }),
{
    let ghost iv = imports@.map_values(|i: Import| i@);
    let mut j: usize = 0;
    while j < imports.len()
        invariant
            j <= imports.len(),
            iv == imports@.map_values(|i: Import| i@),
            forall|t: int| 0 <= t < j ==> !matches_import(#[trigger] iv[t], namespace@, name@),
        decreases imports.len() - j,
    {
        let imp = &imports[j];
        if str_eq(imp.namespace.as_str(), namespace) && str_eq(imp.name.as_str(), name) {
            proof {
                lemma_find_import_idx_of_scan(iv, namespace@, name@, j as int);
            }
            return Some(j);
        }
        j = j + 1;
    }
    proof {
        lemma_find_import_idx_of_scan(iv, namespace@, name@, j as int);
    }
    None
}

/// Number of `true` entries of a sequence of booleans.
pub open spec fn count_true(s: Seq<bool>) -> int
    decreases s.len(),
{
    if s.len() == 0 {
        0
    } else {
        count_true(s.drop_last()) + if s.last() {
            1int
        } else {
            0int
        }
    }
}

pub proof fn lemma_count_true_bounds(s: Seq<bool>)
    ensures
        0 <= count_true(s) <= s.len(),
    decreases s.len(),
{
    if s.len() > 0 {
        lemma_count_true_bounds(s.drop_last());
    }
}

pub proof fn lemma_count_true_push(s: Seq<bool>, b: bool)
    ensures
        count_true(s.push(b)) == count_true(s) + if b {
            1int
        } else {
            0int
        },
{
    assert(s.push(b).drop_last() =~= s);
}

pub proof fn lemma_count_true_set(s: Seq<bool>, i: int)
    requires
        0 <= i < s.len(),
        !s[i],
    ensures
        count_true(s.update(i, true)) == count_true(s) + 1,
    decreases s.len(),
{
    if i == s.len() - 1 {
        assert(s.update(i, true).drop_last() =~= s.drop_last());
    } else {
        assert(s.update(i, true).drop_last() =~= s.drop_last().update(i, true));
        lemma_count_true_set(s.drop_last(), i);
    }
}

/// Every region named by a `Block` or `Loop` of region `p` is marked visited.
pub open spec fn children_visited(rold: Seq<Seq<Instr>>, p: int, vis: Seq<bool>) -> bool {
    forall|k: int|
        0 <= k < rold[p].len() && (#[trigger] region_ref(rold[p][k])) is Some ==> vis[region_ref(
            rold[p][k],
        )->Some_0 as int]
}

pub open spec fn nodup(s: Seq<usize>) -> bool {
    forall|t1: int, t2: int| 0 <= t1 < t2 < s.len() ==> s[t1] != s[t2]
}

/// Retarget one region while discovering its nested regions: newly seen
/// regions are marked visited and pushed onto the worklist.
fn scan_region(
    region: &Vec<Instr>,
    visited: &mut Vec<bool>,
    worklist: &mut Vec<usize>,
    orig: usize,
    new_id: usize,
) -> (newr: Vec<Instr>)
    requires
        forall|k: int|
            0 <= k < region@.len() && (#[trigger] region_ref(region@[k])) is Some ==> region_ref(
                region@[k],
            )->Some_0 < old(visited)@.len(),
        forall|t: int|
            0 <= t < old(worklist)@.len() ==> (#[trigger] old(worklist)@[t]) < old(visited)@.len()
                && old(visited)@[old(worklist)@[t] as int],
        nodup(old(worklist)@),
    ensures
        newr@ == retarget_region(region@, orig, new_id),
        final(visited)@.len() == old(visited)@.len(),
        forall|i: int|
            0 <= i < final(visited)@.len() && old(visited)@[i] ==> final(visited)@[i],
        children_visited(seq![region@], 0, final(visited)@),
        final(worklist)@.len() >= old(worklist)@.len(),
        final(worklist)@.take(old(worklist)@.len() as int) == old(worklist)@,
        forall|t: int|
            old(worklist)@.len() <= t < final(worklist)@.len() ==> (#[trigger] final(worklist)@[t])
                < final(visited)@.len() && final(visited)@[final(worklist)@[t] as int] && !old(visited)@[final(worklist)@[t] as int],
        forall|i: int|
            0 <= i < final(visited)@.len() && final(visited)@[i] && !old(visited)@[i] ==> final(worklist)@.skip(old(worklist)@.len() as int).contains(i as usize),
        final(worklist)@.len() - old(worklist)@.len() == count_true(final(visited)@) - count_true(
            old(visited)@,
        ),
        nodup(final(worklist)@),
        forall|t: int|
            0 <= t < final(worklist)@.len() ==> (#[trigger] final(worklist)@[t]) < final(visited)@.len() && final(visited)@[final(worklist)@[t] as int],
{
    let ghost vis0 = old(visited)@;
    let ghost wl0 = old(worklist)@;
    let mut newr: Vec<Instr> = Vec::new();
    let mut k: usize = 0;
    while k < region.len()
        invariant
            k <= region.len(),
            forall|kk: int|
                0 <= kk < region@.len() && (#[trigger] region_ref(region@[kk])) is Some
                    ==> region_ref(region@[kk])->Some_0 < visited@.len(),
            newr@ == retarget_region(region@.take(k as int), orig, new_id),
            visited@.len() == vis0.len(),
            forall|i: int| 0 <= i < visited@.len() && vis0[i] ==> visited@[i],
            forall|kk: int|
                0 <= kk < k && (#[trigger] region_ref(region@[kk])) is Some ==> visited@[
                    region_ref(region@[kk])->Some_0 as int
                ],
            worklist@.len() >= wl0.len(),
            worklist@.take(wl0.len() as int) == wl0,
            forall|t: int|
                wl0.len() <= t < worklist@.len() ==> (#[trigger] worklist@[t]) < visited@.len()
                    && visited@[worklist@[t] as int] && !vis0[worklist@[t] as int],
            forall|i: int|
                0 <= i < visited@.len() && visited@[i] && !vis0[i] ==> worklist@.skip(
                    wl0.len() as int,
                ).contains(i as usize),
            worklist@.len() - wl0.len() == count_true(visited@) - count_true(vis0),
            nodup(worklist@),
            forall|t: int|
                0 <= t < worklist@.len() ==> (#[trigger] worklist@[t]) < visited@.len()
                    && visited@[worklist@[t] as int],
        decreases region.len() - k,
    {
        let instr = region[k];
        match instr {
            Instr::Call(f) => {
                if f == orig {
                    newr.push(Instr::Call(new_id));
                } else {
                    newr.push(instr);
                }
            },
            Instr::Block(r) | Instr::Loop(r) => {
                assert(region_ref(region@[k as int]) == Some(r));
                if !visited[r] {
                    proof {
                        lemma_count_true_set(visited@, r as int);
                    }
                    let ghost vpre = visited@;
                    let ghost wl_pre = worklist@;
                    visited.remove(r);
                    visited.insert(r, true);
                    proof {
                        assert(visited@ =~= vpre.update(r as int, true));
                    }
                    worklist.push(r);
                    proof {
                        let n = wl0.len() as int;
                        assert(worklist@.take(n) =~= wl_pre.take(n));
                        assert forall|i: int|
                            0 <= i < visited@.len() && visited@[i] && !vis0[i] implies worklist@.skip(
                            n,
                        ).contains(i as usize) by {
                            if i == r as int {
                                assert(worklist@[worklist@.len() - 1] == r);
                                assert(worklist@.skip(n)[worklist@.len() - 1 - n] == r);
                            } else {
                                assert(vpre[i]);
                                let idx = choose|idx: int|
                                    0 <= idx < wl_pre.skip(n).len() && wl_pre.skip(n)[idx] == (
                                    i as usize);
                                assert(worklist@.skip(n)[idx] == i as usize);
                            }
                        }
                    }
                }
                newr.push(instr);
            },
            _ => {
                newr.push(instr);
            },
        }
        proof {
            assert(newr@ =~= retarget_region(region@.take(k as int + 1), orig, new_id)) by {
                assert(region@.take(k as int + 1).drop_last() =~= region@.take(k as int));
                assert(retarget_region(region@.take(k as int + 1), orig, new_id).len()
                    == k as int + 1);
            }
        }
        k = k + 1;
    }
    proof {
        assert(region@.take(region@.len() as int) =~= region@);
    }
    newr
}

/// Under the forward region structure, a closed visited set that holds the
/// root holds every region.
proof fn lemma_all_visited(rold: Seq<Seq<Instr>>, vis: Seq<bool>, r: int)
    requires
        regions_structured(rold),
        vis.len() == rold.len(),
        rold.len() <= usize::MAX,
        vis[0],
        forall|p: int| 0 <= p < rold.len() && vis[p] ==> #[trigger] children_visited(rold, p, vis),
        0 <= r < rold.len(),
    ensures
        vis[r],
    decreases r,
{
    if r > 0 {
        assert(region_referenced(rold, r));
        let (p, k) = choose|p: int, k: int|
            0 <= p < r && 0 <= k < rold[p].len() && region_ref(#[trigger] rold[p][k]) == Some(
                r as usize,
            );
        lemma_all_visited(rold, vis, p);
        assert(children_visited(rold, p, vis));
        assert(region_ref(rold[p][k]) is Some);
        assert(vis[region_ref(rold[p][k])->Some_0 as int]);
    }
}

/// Retarget every call in a body's region arena from `orig` to `new_id`,
/// discovering nested regions lazily from the root with an explicit
/// worklist; each region is visited exactly once, however deeply the
/// structured constructs nest.
pub fn retarget_body_regions(regions: &mut Vec<Vec<Instr>>, orig: usize, new_id: usize)
    requires
        regions_structured(old(regions)@.map_values(|r: Vec<Instr>| r@)),
    ensures
        final(regions)@.map_values(|r: Vec<Instr>| r@) == retarget_regions(
            old(regions)@.map_values(|r: Vec<Instr>| r@),
            orig,
            new_id,
        ),
{
    let ghost rold = regions@.map_values(|r: Vec<Instr>| r@);
    let n = regions.len();
    let mut visited: Vec<bool> = Vec::new();
    proof {
        lemma_count_true_push(visited@, true);
    }
    visited.push(true);
    while visited.len() < n
        invariant
            1 <= visited.len() <= n || n == 0,
            visited@[0],
            forall|i: int| 1 <= i < visited@.len() ==> !visited@[i],
            count_true(visited@) == 1,
        decreases n - visited.len(),
    {
        proof {
            lemma_count_true_push(visited@, false);
        }
        visited.push(false);
    }
    let mut worklist: Vec<usize> = Vec::new();
    worklist.push(0);
    proof {
        assert(worklist@[0] == 0usize);
        assert(worklist@.contains(0usize));
    }
    while worklist.len() > 0
        invariant
            regions.len() == n,
            rold.len() == n,
            n >= 1,
            regions_structured(rold),
            visited@.len() == n,
            visited@[0],
            forall|t: int|
                0 <= t < worklist@.len() ==> (#[trigger] worklist@[t]) < n && visited@[worklist@[
                    t
                ] as int],
            nodup(worklist@),
            forall|p: int|
                0 <= p < n && visited@[p] && !worklist@.contains(p as usize) ==> (
                #[trigger] regions@[p])@ == retarget_region(rold[p], orig, new_id)
                    && children_visited(rold, p, visited@),
            forall|p: int|
                0 <= p < n && !(visited@[p] && !worklist@.contains(p as usize)) ==> (
                #[trigger] regions@[p])@ == rold[p],
        decreases worklist@.len() + n - count_true(visited@),
    {
        proof {
            lemma_count_true_bounds(visited@);
        }
        let ghost w0 = worklist@;
        let ghost v0 = visited@;
        let p = worklist.pop().unwrap();
        let ghost w_pop = worklist@;
        proof {
            assert forall|t: int| 0 <= t < w_pop.len() implies w_pop[t] != p by {
                assert(w0[t] == w_pop[t]);
                assert(w0[w0.len() - 1] == p);
            }
            assert(!w_pop.contains(p));
            assert(regions@[p as int]@ == rold[p as int]);
            assert forall|k: int|
                0 <= k < regions@[p as int]@.len() && (#[trigger] region_ref(
                    regions@[p as int]@[k],
                )) is Some implies region_ref(regions@[p as int]@[k])->Some_0 < visited@.len() by {
                assert(rold[p as int][k] == regions@[p as int]@[k]);
            }
        }
        let region_ptr = &regions[p];
        let newr = scan_region(region_ptr, &mut visited, &mut worklist, orig, new_id);
        let ghost v1 = visited@;
        let ghost w1 = worklist@;
        regions.remove(p);
        regions.insert(p, newr);
        proof {
            assert(regions@.map_values(|r: Vec<Instr>| r@) =~= regions@.map_values(
                |r: Vec<Instr>| r@,
            ));
            // the scanned region is now processed
            assert(regions@[p as int]@ == retarget_region(rold[p as int], orig, new_id));
            assert(children_visited(seq![rold[p as int]], 0, v1));
            assert forall|k: int|
                0 <= k < rold[p as int].len() && (#[trigger] region_ref(
                    rold[p as int][k],
                )) is Some implies v1[region_ref(rold[p as int][k])->Some_0 as int] by {
                assert(seq![rold[p as int]][0] == rold[p as int]);
            }
            assert(children_visited(rold, p as int, v1));
            // worklist prefix survives the scan
            assert forall|t: int| 0 <= t < w_pop.len() implies w1[t] == w_pop[t] by {
                assert(w1.take(w_pop.len() as int)[t] == w_pop[t]);
            }
            // previously processed regions stay processed; unprocessed stay put
            assert forall|q: int|
                0 <= q < n && v1[q] && !w1.contains(q as usize) && q != p implies (v0[q]
                    && !w0.contains(q as usize)) by {
                if !v0[q] {
                    let i = choose|i: int| 0 <= i < w1.skip(w_pop.len() as int).len() && w1.skip(
                        w_pop.len() as int,
                    )[i] == (q as usize);
                    assert(w1[w_pop.len() + i] == q as usize);
                } else {
                    if w0.contains(q as usize) {
                        let t = choose|t: int| 0 <= t < w0.len() && w0[t] == (q as usize);
                        assert(t < w0.len() - 1);
                        assert(w1[t] == q as usize);
                    }
                }
            }
            assert forall|q: int|
                0 <= q < n && v1[q] && !w1.contains(q as usize) implies (
                #[trigger] regions@[q])@ == retarget_region(rold[q], orig, new_id)
                    && children_visited(rold, q, v1) by {
                if q != p {
                    assert(v0[q] && !w0.contains(q as usize));
                    assert(regions@[q]@ == retarget_region(rold[q], orig, new_id));
                    assert forall|k: int|
                        0 <= k < rold[q].len() && (#[trigger] region_ref(rold[q][k])) is Some
                        implies v1[region_ref(rold[q][k])->Some_0 as int] by {
                        assert(v0[region_ref(rold[q][k])->Some_0 as int]);
                    }
                }
            }
            assert forall|q: int|
                0 <= q < n && !(v1[q] && !w1.contains(q as usize)) implies (
                #[trigger] regions@[q])@ == rold[q] by {
                if q != p {
                    if v0[q] && !w0.contains(q as usize) {
                        // previously processed: show it is still classified so
                        assert(v1[q]);
                        if w1.contains(q as usize) {
                            let t = choose|t: int| 0 <= t < w1.len() && w1[t] == (q as usize);
                            if t < w_pop.len() {
                                assert(w0[t] == q as usize);
                            } else {
                                assert(w1.skip(w_pop.len() as int)[t - w_pop.len()] == (
                                q as usize));
                                assert(!v0[q]);
                            }
                        }
                        assert(false);
                    }
                }
            }
        }
    }
    proof {
        assert forall|p: int| 0 <= p < rold.len() && visited@[p] implies #[trigger] children_visited(
            rold,
            p,
            visited@,
        ) by {
            assert(worklist@.len() == 0);
            assert(!worklist@.contains(p as usize));
            assert(regions@[p]@ == retarget_region(rold[p], orig, new_id) && children_visited(
                rold,
                p,
                visited@,
            ));
        }
        assert forall|r: int| 0 <= r < n implies visited@[r] by {
            lemma_all_visited(rold, visited@, r);
        }
        assert(regions@.map_values(|r: Vec<Instr>| r@) =~~= retarget_regions(rold, orig, new_id));
    }
}

pub open spec fn funcs_view(fs: Seq<Option<Function>>) -> Seq<Option<FunctionV>> {
    fs.map_values(|f: Option<Function>| func_opt_view(f))
}

/// The region arenas of a function are structurally valid on their own.
pub open spec fn func_regions_structured(of: Option<FunctionV>) -> bool {
    match of {
        Some(f) => match f.kind {
            FuncKindV::Local(b) => regions_structured(b.regions),
            FuncKindV::Imported => true,
        },
        None => true,
    }
}

/// Retarget every call in every live local function of the module.
pub fn retarget_module_calls(funcs: &mut Vec<Option<Function>>, orig: usize, new_id: usize)
    requires
        forall|i: int|
            0 <= i < old(funcs)@.len() ==> func_regions_structured(
                #[trigger] funcs_view(old(funcs)@)[i],
            ),
    ensures
        funcs_view(final(funcs)@) == retarget_funcs(funcs_view(old(funcs)@), orig, new_id),
{
    let ghost fold0 = funcs_view(funcs@);
    let mut i: usize = 0;
    while i < funcs.len()
        invariant
            i <= funcs.len(),
            funcs@.len() == fold0.len(),
            forall|q: int|
                0 <= q < i ==> #[trigger] funcs_view(funcs@)[q] == retarget_opt_func(
                    fold0[q],
                    orig,
                    new_id,
                ),
            forall|q: int| i <= q < fold0.len() ==> #[trigger] funcs_view(funcs@)[q] == fold0[q],
            forall|q: int|
                0 <= q < fold0.len() ==> func_regions_structured(#[trigger] fold0[q]),
        decreases funcs.len() - i,
    {
        let ghost pre = funcs@;
        let of = funcs.remove(i);
        proof {
            assert(func_opt_view(of) == funcs_view(pre)[i as int]);
            assert(funcs_view(pre)[i as int] == fold0[i as int]);
        }
        let newof: Option<Function> = match of {
            None => None,
            Some(f) => {
                let Function { name, sig, kind } = f;
                match kind {
                    FuncKind::Imported => Some(
                        Function { name, sig, kind: FuncKind::Imported },
                    ),
                    FuncKind::Local(body) => {
                        let FuncBody { locals, mut regions } = body;
                        retarget_body_regions(&mut regions, orig, new_id);
                        Some(
                            Function {
                                name,
                                sig,
                                kind: FuncKind::Local(FuncBody { locals, regions }),
                            },
                        )
                    },
                }
            },
        };
        proof {
            assert(func_opt_view(newof) == retarget_opt_func(fold0[i as int], orig, new_id));
        }
        funcs.insert(i, newof);
        proof {
            assert(funcs@ =~= pre.update(i as int, newof));
            assert forall|q: int| 0 <= q < fold0.len() && q != i implies #[trigger] funcs_view(
                funcs@,
            )[q] == funcs_view(pre)[q] by {}
        }
        i = i + 1;
    }
    proof {
        assert(funcs_view(funcs@) =~~= retarget_funcs(fold0, orig, new_id));
    }
}

/// What the replacement engine did for one (namespace, name) pair.
pub enum ReplaceOutcome {
    /// No import matched: the module is untouched.
    Absent,
    /// The matching import does not bind a function: the module is untouched.
    NotAFunction,
    /// The import was replaced.
    Replaced,
}

/// The engine's effect as a function of the module: find the first matching
/// import; install the replacement under the original function's canonical
/// name at a fresh identity; retarget every call site; delete the original
/// function and the satisfied import.
pub open spec fn replace_spec(
    m: ModuleV,
    ns: Seq<char>,
    nm: Seq<char>,
    sig: SigV,
    body: BodyV,
) -> (ModuleV, ReplaceOutcome) {
    match find_import_idx(m.imports, ns, nm) {
        None => (m, ReplaceOutcome::Absent),
        Some(j) => match m.imports[j].kind {
            ImportKind::Other => (m, ReplaceOutcome::NotAFunction),
            ImportKind::Func(orig) => {
                let canonical = m.funcs[orig as int]->Some_0.name;
                let new_id = m.funcs.len() as usize;
                let newf = FunctionV { name: canonical, sig, kind: FuncKindV::Local(body) };
                let funcs2 = retarget_funcs(m.funcs.push(Some(newf)), orig, new_id).update(
                    orig as int,
                    None,
                );
                (
                    ModuleV { funcs: funcs2, imports: m.imports.remove(j), ..m },
                    ReplaceOutcome::Replaced,
                )
            },
        },
    }
}

/// Retargeting keeps a body well-formed when the module around it keeps
/// every live function other than `orig` and makes `new_id` live.
proof fn lemma_retarget_body_wf(
    b: BodyV,
    sig: SigV,
    m: ModuleV,
    m2: ModuleV,
    orig: usize,
    new_id: usize,
)
    requires
        body_wf(b, sig, m),
        forall|f: int|
            0 <= f < m.funcs.len() && f != orig && m.funcs[f] is Some ==> f < m2.funcs.len()
                && #[trigger] m2.funcs[f] is Some,
        new_id < m2.funcs.len() && m2.funcs[new_id as int] is Some,
        m2.tables == m.tables,
    ensures
        body_wf(
            BodyV { locals: b.locals, regions: retarget_regions(b.regions, orig, new_id) },
            sig,
            m2,
        ),
{
    let rs2 = retarget_regions(b.regions, orig, new_id);
    assert forall|p: int, k: int|
        0 <= p < rs2.len() && 0 <= k < rs2[p].len() implies region_ref(#[trigger] rs2[p][k])
        == region_ref(b.regions[p][k]) by {}
    assert forall|r: int| 1 <= r < rs2.len() implies #[trigger] region_referenced(rs2, r) by {
        assert(region_referenced(b.regions, r));
        let (p, k) = choose|p: int, k: int|
            0 <= p < r && 0 <= k < b.regions[p].len() && region_ref(
                #[trigger] b.regions[p][k],
            ) == Some(r as usize);
        assert(region_ref(rs2[p][k]) == Some(r as usize));
    }
    assert(regions_structured(rs2));
    assert forall|p: int, k: int| 0 <= p < rs2.len() && 0 <= k < rs2[p].len() implies instr_wf(
        #[trigger] rs2[p][k],
        p,
        rs2.len() as int,
        b.locals.len() as int,
        m2,
    ) by {
        assert(instr_wf(b.regions[p][k], p, b.regions.len() as int, b.locals.len() as int, m));
        assert(rs2[p][k] == retarget_instr(b.regions[p][k], orig, new_id));
    }
}

/// The engine's result is well-formed whenever its inputs are.
pub proof fn lemma_replace_spec_wf(
    m: ModuleV,
    ns: Seq<char>,
    nm: Seq<char>,
    sig: SigV,
    body: BodyV,
)
    requires
        m.wf(),
        body_wf(body, sig, m),
        m.funcs.len() <= usize::MAX,
    ensures
        replace_spec(m, ns, nm, sig, body).0.wf(),
{
    let (m2, out) = replace_spec(m, ns, nm, sig, body);
    match find_import_idx(m.imports, ns, nm) {
        None => {},
        Some(j) => {
            lemma_find_import_idx(m.imports, ns, nm);
            match m.imports[j].kind {
                ImportKind::Other => {},
                ImportKind::Func(orig) => {
                    assert(import_entry_wf(m, j));
                    let new_id = m.funcs.len() as usize;
                    let canonical = m.funcs[orig as int]->Some_0.name;
                    let newf = FunctionV { name: canonical, sig, kind: FuncKindV::Local(body) };
                    let pushed = m.funcs.push(Some(newf));
                    let retargeted = retarget_funcs(pushed, orig, new_id);
                    // liveness is preserved for everything but `orig`
                    assert forall|f: int|
                        0 <= f < m.funcs.len() && f != orig && m.funcs[f] is Some implies f
                        < m2.funcs.len() && #[trigger] m2.funcs[f] is Some by {
                        assert(m2.funcs[f] == retarget_opt_func(pushed[f], orig, new_id));
                    }
                    assert(m2.funcs[new_id as int] == retarget_opt_func(
                        Some(newf),
                        orig,
                        new_id,
                    ));
                    assert(m2.funcs[new_id as int] is Some);
                    // every function entry stays well-formed
                    assert forall|f: int| 0 <= f < m2.funcs.len() implies #[trigger] func_entry_wf(
                        m2,
                        f,
                    ) by {
                        if m2.funcs[f] is Some {
                            assert(f != orig);
                            if f < m.funcs.len() {
                                assert(func_entry_wf(m, f));
                                assert(m2.funcs[f] == retarget_opt_func(
                                    Some(m.funcs[f]->Some_0),
                                    orig,
                                    new_id,
                                ));
                                match m.funcs[f]->Some_0.kind {
                                    FuncKindV::Imported => {},
                                    FuncKindV::Local(b) => {
                                        lemma_retarget_body_wf(
                                            b,
                                            m.funcs[f]->Some_0.sig,
                                            m,
                                            m2,
                                            orig,
                                            new_id,
                                        );
                                    },
                                }
                            } else {
                                assert(f == new_id as int);
                                assert(m2.funcs[f] == retarget_opt_func(
                                    Some(newf),
                                    orig,
                                    new_id,
                                ));
                                lemma_retarget_body_wf(body, sig, m, m2, orig, new_id);
                            }
                        }
                    }
                    // imports
                    assert forall|j2: int| 0 <= j2 < m2.imports.len() implies
                        #[trigger] import_entry_wf(m2, j2) by {
                        let jo = if j2 < j {
                            j2
                        } else {
                            j2 + 1
                        };
                        assert(m2.imports[j2] == m.imports[jo]);
                        assert(import_entry_wf(m, jo));
                        match m.imports[jo].kind {
                            ImportKind::Func(f) => {
                                assert(f != orig);
                                assert(m2.funcs[f as int] == retarget_opt_func(
                                    pushed[f as int],
                                    orig,
                                    new_id,
                                ));
                            },
                            ImportKind::Other => {},
                        }
                    }
                    assert forall|j1: int, j2: int|
                        0 <= j1 < m2.imports.len() && 0 <= j2 < m2.imports.len() && j1 != j2
                            && #[trigger] m2.imports[j1].kind is Func
                            && #[trigger] m2.imports[j2].kind is Func implies m2.imports[j1].kind
                        != m2.imports[j2].kind by {
                        let o1 = if j1 < j {
                            j1
                        } else {
                            j1 + 1
                        };
                        let o2 = if j2 < j {
                            j2
                        } else {
                            j2 + 1
                        };
                        assert(m2.imports[j1] == m.imports[o1]);
                        assert(m2.imports[j2] == m.imports[o2]);
                    }
                    // exports
                    assert forall|e: int| 0 <= e < m2.exports.len() implies
                        #[trigger] export_entry_wf(m2, e) by {
                        assert(export_entry_wf(m, e));
                        let t = m.exports[e].func;
                        assert(t != orig);
                        assert(m2.funcs[t as int] == retarget_opt_func(
                            pushed[t as int],
                            orig,
                            new_id,
                        ));
                    }
                },
            }
        },
    }
}

/// Number of imports matching a (namespace, name) pair.
pub open spec fn count_matching_imports(imports: Seq<ImportV>, ns: Seq<char>, nm: Seq<char>) -> int
    decreases imports.len(),
{
    if imports.len() == 0 {
        0
    } else {
        count_matching_imports(imports.drop_last(), ns, nm) + if matches_import(
            imports.last(),
            ns,
            nm,
        ) {
            1int
        } else {
            0int
        }
    }
}

/// Number of live functions bearing a name.
pub open spec fn count_funcs_named(funcs: Seq<Option<FunctionV>>, nm: Seq<char>) -> int
    decreases funcs.len(),
{
    if funcs.len() == 0 {
        0
    } else {
        count_funcs_named(funcs.drop_last(), nm) + if funcs.last() is Some
            && funcs.last()->Some_0.name == nm {
            1int
        } else {
            0int
        }
    }
}

proof fn lemma_count_imports_remove(imports: Seq<ImportV>, ns: Seq<char>, nm: Seq<char>, j: int)
    requires
        0 <= j < imports.len(),
        matches_import(imports[j], ns, nm),
    ensures
        count_matching_imports(imports.remove(j), ns, nm) == count_matching_imports(
            imports,
            ns,
            nm,
        ) - 1,
    decreases imports.len(),
{
    if j == imports.len() - 1 {
        assert(imports.remove(j) =~= imports.drop_last());
    } else {
        assert(imports.remove(j).drop_last() =~= imports.drop_last().remove(j));
        assert(imports.remove(j).last() == imports.last());
        lemma_count_imports_remove(imports.drop_last(), ns, nm, j);
    }
}

proof fn lemma_count_imports_zero(imports: Seq<ImportV>, ns: Seq<char>, nm: Seq<char>)
    requires
        count_matching_imports(imports, ns, nm) == 0,
    ensures
        forall|t: int| 0 <= t < imports.len() ==> !matches_import(#[trigger] imports[t], ns, nm),
    decreases imports.len(),
{
    if imports.len() > 0 {
        lemma_count_imports_nonneg(imports.drop_last(), ns, nm);
        assert(!matches_import(imports.last(), ns, nm));
        lemma_count_imports_zero(imports.drop_last(), ns, nm);
        assert forall|t: int| 0 <= t < imports.len() implies !matches_import(
            #[trigger] imports[t],
            ns,
            nm,
        ) by {
            if t < imports.len() - 1 {
                assert(imports.drop_last()[t] == imports[t]);
            }
        }
    }
}

pub proof fn lemma_count_imports_nonneg(imports: Seq<ImportV>, ns: Seq<char>, nm: Seq<char>)
    ensures
        count_matching_imports(imports, ns, nm) >= 0,
    decreases imports.len(),
{
    if imports.len() > 0 {
        lemma_count_imports_nonneg(imports.drop_last(), ns, nm);
    }
}

proof fn lemma_count_named_update_none(funcs: Seq<Option<FunctionV>>, nm: Seq<char>, i: int)
    requires
        0 <= i < funcs.len(),
        funcs[i] is Some && funcs[i]->Some_0.name == nm,
    ensures
        count_funcs_named(funcs.update(i, None), nm) == count_funcs_named(funcs, nm) - 1,
    decreases funcs.len(),
{
    if i == funcs.len() - 1 {
        assert(funcs.update(i, None).drop_last() =~= funcs.drop_last());
    } else {
        assert(funcs.update(i, None).drop_last() =~= funcs.drop_last().update(i, None));
        assert(funcs.update(i, None).last() == funcs.last());
        lemma_count_named_update_none(funcs.drop_last(), nm, i);
    }
}

proof fn lemma_count_named_retarget(
    funcs: Seq<Option<FunctionV>>,
    nm: Seq<char>,
    orig: usize,
    new_id: usize,
)
    ensures
        count_funcs_named(retarget_funcs(funcs, orig, new_id), nm) == count_funcs_named(
            funcs,
            nm,
        ),
    decreases funcs.len(),
{
    if funcs.len() > 0 {
        assert(retarget_funcs(funcs, orig, new_id).drop_last() =~= retarget_funcs(
            funcs.drop_last(),
            orig,
            new_id,
        ));
        lemma_count_named_retarget(funcs.drop_last(), nm, orig, new_id);
    }
}

proof fn lemma_count_named_zero(funcs: Seq<Option<FunctionV>>, nm: Seq<char>)
    requires
        count_funcs_named(funcs, nm) == 0,
    ensures
        forall|f: int|
            0 <= f < funcs.len() && #[trigger] funcs[f] is Some ==> funcs[f]->Some_0.name != nm,
    decreases funcs.len(),
{
    if funcs.len() > 0 {
        lemma_count_named_nonneg(funcs.drop_last(), nm);
        lemma_count_named_zero(funcs.drop_last(), nm);
        assert forall|f: int|
            0 <= f < funcs.len() && #[trigger] funcs[f] is Some implies funcs[f]->Some_0.name
            != nm by {
            if f < funcs.len() - 1 {
                assert(funcs.drop_last()[f] == funcs[f]);
            }
        }
    }
}

pub proof fn lemma_count_named_nonneg(funcs: Seq<Option<FunctionV>>, nm: Seq<char>)
    ensures
        count_funcs_named(funcs, nm) >= 0,
    decreases funcs.len(),
{
    if funcs.len() > 0 {
        lemma_count_named_nonneg(funcs.drop_last(), nm);
    }
}

/// A body holds a call to `target` somewhere among its regions.
pub open spec fn calls_target(b: BodyV, target: usize) -> bool {
    exists|p: int, k: int|
        0 <= p < b.regions.len() && 0 <= k < b.regions[p].len() && #[trigger] b.regions[p][k]
            == Instr::Call(target)
}

/// No instruction of any live function of the module calls `target`.
pub open spec fn no_calls_to(funcs: Seq<Option<FunctionV>>, target: usize) -> bool {
    forall|f: int|
        0 <= f < funcs.len() && #[trigger] funcs[f] is Some ==> match funcs[f]->Some_0.kind {
            FuncKindV::Local(b) => !calls_target(b, target),
            FuncKindV::Imported => true,
        }
}

/// The engine's postcondition for a replaced import: the import is gone,
/// exactly one function bears the canonical name and it is the new local
/// definition, no instruction anywhere references the original identity, and
/// every call that targeted the original now targets the replacement.
pub proof fn lemma_replace_import_postcondition(
    m: ModuleV,
    ns: Seq<char>,
    nm: Seq<char>,
    sig: SigV,
    body: BodyV,
)
    requires
        m.wf(),
        body_wf(body, sig, m),
        m.funcs.len() <= usize::MAX,
        find_import_idx(m.imports, ns, nm) is Some,
        m.imports[find_import_idx(m.imports, ns, nm)->Some_0].kind is Func,
        count_matching_imports(m.imports, ns, nm) == 1,
        count_funcs_named(
            m.funcs,
            m.funcs[m.imports[find_import_idx(m.imports, ns, nm)->Some_0].kind->Func_0 as int]
                ->Some_0.name,
        ) == 1,
    ensures
        ({
            let j = find_import_idx(m.imports, ns, nm)->Some_0;
            let orig = m.imports[j].kind->Func_0;
            let canonical = m.funcs[orig as int]->Some_0.name;
            let new_id = m.funcs.len() as usize;
            let (m2, out) = replace_spec(m, ns, nm, sig, body);
            &&& out is Replaced
            &&& forall|t: int|
                0 <= t < m2.imports.len() ==> !matches_import(#[trigger] m2.imports[t], ns, nm)
            &&& count_funcs_named(m2.funcs, canonical) == 1
            &&& m2.funcs.len() == m.funcs.len() + 1
            &&& m2.funcs[new_id as int] is Some
            &&& m2.funcs[new_id as int]->Some_0.name == canonical
            &&& m2.funcs[new_id as int]->Some_0.sig == sig
            &&& m2.funcs[new_id as int]->Some_0.kind is Local
            &&& no_calls_to(m2.funcs, orig)
            &&& forall|f: int, p: int, k: int|
                0 <= f < m.funcs.len() && m.funcs[f] is Some && m.funcs[f]
                    ->Some_0.kind is Local && 0 <= p < m.funcs[f]->Some_0.kind->Local_0.regions.len()
                    && 0 <= k < m.funcs[f]->Some_0.kind->Local_0.regions[p].len() && (#[trigger] m.funcs[f]
                    ->Some_0.kind->Local_0.regions[p][k]) == Instr::Call(orig) ==> f != orig
                    && m2.funcs[f] is Some && m2.funcs[f]->Some_0.kind is Local && m2.funcs[f]
                    ->Some_0.kind->Local_0.regions[p][k] == Instr::Call(new_id)
        }),
{
    let j = find_import_idx(m.imports, ns, nm)->Some_0;
    let orig = m.imports[j].kind->Func_0;
    let canonical = m.funcs[orig as int]->Some_0.name;
    let new_id = m.funcs.len() as usize;
    let (m2, out) = replace_spec(m, ns, nm, sig, body);
    lemma_find_import_idx(m.imports, ns, nm);
    assert(import_entry_wf(m, j));
    let newf = FunctionV { name: canonical, sig, kind: FuncKindV::Local(body) };
    let pushed = m.funcs.push(Some(newf));
    let retargeted = retarget_funcs(pushed, orig, new_id);
    // the import is gone
    lemma_count_imports_remove(m.imports, ns, nm, j);
    lemma_count_imports_zero(m2.imports, ns, nm);
    // exactly one function bears the canonical name
    assert(count_funcs_named(pushed, canonical) == 2) by {
        assert(pushed.drop_last() =~= m.funcs);
    }
    lemma_count_named_retarget(pushed, canonical, orig, new_id);
    assert(retargeted[orig as int] is Some && retargeted[orig as int]->Some_0.name == canonical)
        by {
        assert(retargeted[orig as int] == retarget_opt_func(pushed[orig as int], orig, new_id));
    }
    lemma_count_named_update_none(retargeted, canonical, orig as int);
    assert(count_funcs_named(m2.funcs, canonical) == 1);
    assert(m2.funcs[new_id as int] == retarget_opt_func(Some(newf), orig, new_id));
    // no instruction anywhere references the original identity
    assert forall|f: int|
        0 <= f < m2.funcs.len() && #[trigger] m2.funcs[f] is Some implies match m2.funcs[f]
            ->Some_0.kind {
            FuncKindV::Local(b) => !calls_target(b, orig),
            FuncKindV::Imported => true,
        } by {
        assert(m2.funcs[f] == retarget_opt_func(pushed[f], orig, new_id));
        match m2.funcs[f]->Some_0.kind {
            FuncKindV::Local(b) => {
                if calls_target(b, orig) {
                    let (p, k) = choose|p: int, k: int|
                        0 <= p < b.regions.len() && 0 <= k < b.regions[p].len()
                            && #[trigger] b.regions[p][k] == Instr::Call(orig);
                    let b0 = pushed[f]->Some_0.kind->Local_0;
                    assert(b.regions[p][k] == retarget_instr(b0.regions[p][k], orig, new_id));
                    assert(orig < new_id);
                    assert(false);
                }
            },
            FuncKindV::Imported => {},
        }
    }
    // every call that targeted the original now targets the replacement
    assert forall|f: int, p: int, k: int|
        0 <= f < m.funcs.len() && m.funcs[f] is Some && m.funcs[f]
            ->Some_0.kind is Local && 0 <= p < m.funcs[f]->Some_0.kind->Local_0.regions.len() && 0
            <= k < m.funcs[f]->Some_0.kind->Local_0.regions[p].len() && (#[trigger] m.funcs[f]
            ->Some_0.kind->Local_0.regions[p][k]) == Instr::Call(orig) implies f != orig
            && m2.funcs[f] is Some && m2.funcs[f]->Some_0.kind is Local && m2.funcs[f]
            ->Some_0.kind->Local_0.regions[p][k] == Instr::Call(new_id) by {
        assert(func_entry_wf(m, f));
        assert(f != orig);
        assert(m2.funcs[f] == retarget_opt_func(pushed[f], orig, new_id));
        let b0 = m.funcs[f]->Some_0.kind->Local_0;
        let b2 = m2.funcs[f]->Some_0.kind->Local_0;
        assert(b2.regions[p][k] == retarget_instr(b0.regions[p][k], orig, new_id));
    }
}

/// Two invocations for different pairs do not interfere: once a function
/// identity is dead and unreferenced, a later replacement keeps it so.
pub proof fn lemma_replace_spec_frame(
    m: ModuleV,
    ns: Seq<char>,
    nm: Seq<char>,
    sig: SigV,
    body: BodyV,
    g: usize,
)
    requires
        m.wf(),
        m.funcs.len() <= usize::MAX,
        g < m.funcs.len(),
        m.funcs[g as int] is None,
        no_calls_to(m.funcs, g),
        !calls_target(body, g),
    ensures
        ({
            let m2 = replace_spec(m, ns, nm, sig, body).0;
            &&& g < m2.funcs.len()
            &&& m2.funcs[g as int] is None
            &&& no_calls_to(m2.funcs, g)
        }),
{
    let m2 = replace_spec(m, ns, nm, sig, body).0;
    match find_import_idx(m.imports, ns, nm) {
        None => {},
        Some(j) => {
            lemma_find_import_idx(m.imports, ns, nm);
            match m.imports[j].kind {
                ImportKind::Other => {},
                ImportKind::Func(orig) => {
                    assert(import_entry_wf(m, j));
                    assert(orig != g);
                    let new_id = m.funcs.len() as usize;
                    let canonical = m.funcs[orig as int]->Some_0.name;
                    let newf = FunctionV { name: canonical, sig, kind: FuncKindV::Local(body) };
                    let pushed = m.funcs.push(Some(newf));
                    assert(m2.funcs[g as int] == retarget_opt_func(pushed[g as int], orig, new_id));
                    assert forall|f: int|
                        0 <= f < m2.funcs.len() && #[trigger] m2.funcs[f] is Some implies match m2
                        .funcs[f]->Some_0.kind {
                        FuncKindV::Local(b) => !calls_target(b, g),
                        FuncKindV::Imported => true,
                    } by {
                        assert(m2.funcs[f] == retarget_opt_func(pushed[f], orig, new_id));
                        match m2.funcs[f]->Some_0.kind {
                            FuncKindV::Local(b) => {
                                if calls_target(b, g) {
                                    let (p, k) = choose|p: int, k: int|
                                        0 <= p < b.regions.len() && 0 <= k < b.regions[p].len()
                                            && #[trigger] b.regions[p][k] == Instr::Call(g);
                                    let b0 = pushed[f]->Some_0.kind->Local_0;
                                    assert(b.regions[p][k] == retarget_instr(
                                        b0.regions[p][k],
                                        orig,
                                        new_id,
                                    ));
                                    assert(g < new_id);
                                    if f < m.funcs.len() {
                                        assert(m.funcs[f] is Some);
                                        assert(calls_target(b0, g));
                                    } else {
                                        assert(b0 == body);
                                        assert(calls_target(body, g));
                                    }
                                    assert(false);
                                }
                            },
                            FuncKindV::Imported => {},
                        }
                    }
                },
            }
        },
    }
}

/// A replacement never disturbs a live local function: its identity, name,
/// signature and locality survive, as do the module's tables, exports and
/// memories.
pub proof fn lemma_replace_spec_preserves(
    m: ModuleV,
    ns: Seq<char>,
    nm: Seq<char>,
    sig: SigV,
    body: BodyV,
    g: int,
)
    requires
        m.wf(),
        0 <= g < m.funcs.len(),
        m.funcs[g] is Some,
        m.funcs[g]->Some_0.kind is Local,
    ensures
        ({
            let m2 = replace_spec(m, ns, nm, sig, body).0;
            &&& g < m2.funcs.len()
            &&& m2.funcs[g] is Some
            &&& m2.funcs[g]->Some_0.kind is Local
            &&& m2.funcs[g]->Some_0.name == m.funcs[g]->Some_0.name
            &&& m2.funcs[g]->Some_0.sig == m.funcs[g]->Some_0.sig
        }),
{
    let m2 = replace_spec(m, ns, nm, sig, body).0;
    match find_import_idx(m.imports, ns, nm) {
        None => {},
        Some(j) => {
            lemma_find_import_idx(m.imports, ns, nm);
            match m.imports[j].kind {
                ImportKind::Other => {},
                ImportKind::Func(orig) => {
                    assert(import_entry_wf(m, j));
                    assert(orig != g);
                    let new_id = m.funcs.len() as usize;
                    let canonical = m.funcs[orig as int]->Some_0.name;
                    let newf = FunctionV { name: canonical, sig, kind: FuncKindV::Local(body) };
                    let pushed = m.funcs.push(Some(newf));
                    assert(m2.funcs[g] == retarget_opt_func(pushed[g], orig, new_id));
                },
            }
        },
    }
}

/// Tables, exports and memories are never touched by a replacement.
pub proof fn lemma_replace_spec_skeleton(
    m: ModuleV,
    ns: Seq<char>,
    nm: Seq<char>,
    sig: SigV,
    body: BodyV,
)
    requires
        m.wf(),
    ensures
        ({
            let m2 = replace_spec(m, ns, nm, sig, body).0;
            &&& m2.tables == m.tables
            &&& m2.exports == m.exports
            &&& m2.memories == m.memories
            &&& m2.funcs.len() >= m.funcs.len()
        }),
{
    lemma_find_import_idx(m.imports, ns, nm);
    match find_import_idx(m.imports, ns, nm) {
        None => {},
        Some(j) => {
            match m.imports[j].kind {
                ImportKind::Other => {},
                ImportKind::Func(orig) => {
                    assert(import_entry_wf(m, j));
                    let m2 = replace_spec(m, ns, nm, sig, body).0;
                    let canonical = m.funcs[orig as int]->Some_0.name;
                    let new_id = m.funcs.len() as usize;
                    let newf = FunctionV { name: canonical, sig, kind: FuncKindV::Local(body) };
                    let pushed = m.funcs.push(Some(newf));
                    assert(m2.funcs == retarget_funcs(pushed, orig, new_id).update(
                        orig as int,
                        None,
                    ));
                    assert(retarget_funcs(pushed, orig, new_id).len() == pushed.len());
                },
            }
        },
    }
}

/// Locate the import bound to (namespace, name) and replace it with a local
/// definition carrying the original's canonical name; every call site at
/// every nesting depth is retargeted to the replacement, and the stale
/// function and import are deleted. Absence of the import is a no-op;
/// a matching non-function import is a configuration error.
pub fn replace_import_function(
    m: &mut Module,
    namespace: &str,
    name: &str,
    sig: FuncSig,
    body: FuncBody,
) -> (r: Result<bool, ConfigError>)
    requires
        old(m)@.wf(),
        body_wf(body@, sig@, old(m)@),
    ensures
        final(m)@ == replace_spec(old(m)@, namespace@, name@, sig@, body@).0,
        final(m)@.wf(),
        ({
            let out = replace_spec(old(m)@, namespace@, name@, sig@, body@).1;
            match r {
                Ok(true) => out is Replaced,
                Ok(false) => out is Absent,
                Err(e) => out is NotAFunction && e@ == (ConfigErrorV::ImportNotAFunction {
                    namespace: namespace@,
                    name: name@,
                }),
            }
        }),
{
    let ghost m0 = m@;
    let n_funcs = m.funcs.len();
    proof {
        assert(m0.funcs.len() == n_funcs);
        lemma_replace_spec_wf(old(m)@, namespace@, name@, sig@, body@);
    }
    let j_opt = find_import(&m.imports, namespace, name);
    match j_opt {
        None => Ok(false),
        Some(j) => {
            let kind = m.imports[j].kind;
            proof {
                assert(m0.imports[j as int] == m@.imports[j as int]);
            }
            match kind {
                ImportKind::Other => {
                    Err(
                        ConfigError::ImportNotAFunction {
                            namespace: namespace.to_owned(),
                            name: name.to_owned(),
                        },
                    )
                },
                ImportKind::Func(orig) => {
                    proof {
                        assert(import_entry_wf(m0, j as int));
                    }
                    let ghost sigv = sig@;
                    let ghost bodyv = body@;
                    // rename the original function, freeing the canonical
                    // name without deleting the function yet
                    let of = m.funcs.remove(orig);
                    proof {
                        assert(funcs_view(old(m).funcs@)[orig as int] == func_opt_view(of));
                        assert(m0.funcs[orig as int] == func_opt_view(of));
                    }
                    let f = match of {
                        Some(f) => f,
                        None => vstd::pervasive::unreached(),
                    };
                    let Function { name: canonical, sig: orig_sig, kind: orig_kind } = f;
                    let ghost canv = canonical@;
                    proof {
                        assert(canv == m0.funcs[orig as int]->Some_0.name);
                    }
                    let renamed_name = canonical.clone().concat(".original");
                    m.funcs.insert(
                        orig,
                        Some(Function { name: renamed_name, sig: orig_sig, kind: orig_kind }),
                    );
                    let ghost renamed = funcs_view(m.funcs@);
                    let ghost newf = FunctionV { name: canv, sig: sigv, kind: FuncKindV::Local(bodyv) };
                    // install the replacement under the canonical name
                    let new_id = m.funcs.len();
                    m.funcs.push(Some(Function { name: canonical, sig, kind: FuncKind::Local(body) }));
                    proof {
                        assert(funcs_view(m.funcs@) =~= renamed.push(Some(newf)));
                        assert forall|i: int|
                            0 <= i < m.funcs@.len() implies func_regions_structured(
                            #[trigger] funcs_view(m.funcs@)[i],
                        ) by {
                            if i < m0.funcs.len() {
                                assert(func_entry_wf(m0, i));
                                if i != orig {
                                    assert(renamed[i] == m0.funcs[i]);
                                }
                            }
                        }
                    }
                    // retarget every call site module-wide
                    retarget_module_calls(&mut m.funcs, orig, new_id);
                    proof {
                        assert(funcs_view(m.funcs@) == retarget_funcs(
                            renamed.push(Some(newf)),
                            orig,
                            new_id,
                        ));
                        assert(funcs_view(m.funcs@).len() == m.funcs@.len());
                        assert(m.funcs@.len() == m0.funcs.len() + 1);
                    }
                    // delete the renamed original and the satisfied import
                    m.funcs.remove(orig);
                    m.funcs.insert(orig, None);
                    let ghost imports_pre = m.imports@.map_values(|i: Import| i@);
                    m.imports.remove(j);
                    proof {
                        let spec_pushed = m0.funcs.push(Some(newf));
                        let real_pushed = renamed.push(Some(newf));
                        assert(funcs_view(m.funcs@) =~~= retarget_funcs(spec_pushed, orig, new_id)
                            .update(orig as int, None)) by {
                            assert forall|q: int|
                                0 <= q < spec_pushed.len() && q != orig implies retarget_funcs(
                                real_pushed,
                                orig,
                                new_id,
                            )[q] == retarget_funcs(spec_pushed, orig, new_id)[q] by {
                                assert(real_pushed[q] == spec_pushed[q]);
                            }
                        }
                        assert(m@.imports =~= imports_pre.remove(j as int));
                        assert(m@ =~~= replace_spec(m0, namespace@, name@, sigv, bodyv).0);
                    }
                    Ok(true)
                },
            }
        },
    }
}

} // verus!
