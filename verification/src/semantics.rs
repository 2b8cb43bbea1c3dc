//! A small-step account of the emitted instruction language, used to state
//! and prove what the synthesized bodies do at guest-execution time: the
//! adapter round trip, the entry-point law, and the behavior of the three
//! compatibility stand-ins.

use vstd::prelude::*;

use crate::generator::{adapter_body_v, arg_instrs, per_arg, tail_instrs};
use crate::model::{FuncKindV, Instr, ModuleV, Type};
use crate::pipeline::{
    apply_body_v, environ_get_body_v, environ_sizes_get_body_v, proc_exit_body_v,
};

verus! {

/// A runtime value: a 32-bit integer, an opaque reference (named by a ghost
/// identifier), or the null reference.
pub ghost enum Val {
    I32(int),
    Ref(int),
    NullRef,
}

/// The evaluator's state: the operand stack, the function's locals, linear
/// memory as a map of 4-byte cells, the indirection table, the log of calls
/// made so far, and an oracle giving the results of successive calls.
pub ghost struct EState {
    pub stack: Seq<Val>,
    pub locals: Seq<Val>,
    pub mem: Map<int, int>,
    pub table: Seq<Val>,
    pub calls: Seq<(int, Seq<Val>)>,
    pub oracle: Seq<Seq<Val>>,
}

/// The outcome of evaluating part of a region: normal completion, a branch
/// to an enclosing construct, a stuck configuration, or exhausted fuel.
pub ghost enum EvalR {
    Done(EState),
    Branch(int, EState),
    Stuck,
    OutOfFuel,
}

/// Evaluate region `r` of the arena from instruction `i` on. Fuel is spent
/// on every entry into a nested region and on every repetition of a loop,
/// so evaluation is total.
pub open spec fn eval_region(
    fuel: nat,
    m: ModuleV,
    regions: Seq<Seq<Instr>>,
    r: int,
    i: int,
    s: EState,
) -> EvalR
    decreases fuel, regions[r].len() - i,
{
    if !(0 <= r < regions.len()) || i < 0 {
        EvalR::Stuck
    } else if i >= regions[r].len() {
        EvalR::Done(s)
    } else {
        match regions[r][i] {
            Instr::Call(f) => {
                if !m.live(f as int) {
                    EvalR::Stuck
                } else {
                    let sig = m.funcs[f as int]->Some_0.sig;
                    let n = sig.params.len() as int;
                    if s.stack.len() < n || s.calls.len() >= s.oracle.len() {
                        EvalR::Stuck
                    } else {
                        let args = s.stack.subrange(s.stack.len() - n, s.stack.len() as int);
                        let results = s.oracle[s.calls.len() as int];
                        if results.len() != sig.results.len() {
                            EvalR::Stuck
                        } else {
                            let s2 = EState {
                                stack: s.stack.take(s.stack.len() - n) + results,
                                calls: s.calls.push((f as int, args)),
                                ..s
                            };
                            eval_region(fuel, m, regions, r, i + 1, s2)
                        }
                    }
                }
            },
            Instr::Block(rr) => {
                if fuel == 0 {
                    EvalR::OutOfFuel
                } else {
                    match eval_region((fuel - 1) as nat, m, regions, rr as int, 0, s) {
                        EvalR::Done(s2) => eval_region(fuel, m, regions, r, i + 1, s2),
                        EvalR::Branch(d, s2) => {
                            if d == 0 {
                                eval_region(fuel, m, regions, r, i + 1, s2)
                            } else {
                                EvalR::Branch(d - 1, s2)
                            }
                        },
                        other => other,
                    }
                }
            },
            Instr::Loop(rr) => {
                if fuel == 0 {
                    EvalR::OutOfFuel
                } else {
                    match eval_region((fuel - 1) as nat, m, regions, rr as int, 0, s) {
                        EvalR::Done(s2) => eval_region(fuel, m, regions, r, i + 1, s2),
                        EvalR::Branch(d, s2) => {
                            if d == 0 {
                                // a branch to a loop repeats its body
                                eval_region((fuel - 1) as nat, m, regions, r, i, s2)
                            } else {
                                EvalR::Branch(d - 1, s2)
                            }
                        },
                        other => other,
                    }
                }
            },
            Instr::Br(d) => EvalR::Branch(d as int, s),
            Instr::LocalGet(l) => {
                if l < s.locals.len() {
                    eval_region(
                        fuel,
                        m,
                        regions,
                        r,
                        i + 1,
                        EState { stack: s.stack.push(s.locals[l as int]), ..s },
                    )
                } else {
                    EvalR::Stuck
                }
            },
            Instr::LocalSet(l) => {
                if l < s.locals.len() && s.stack.len() >= 1 {
                    eval_region(
                        fuel,
                        m,
                        regions,
                        r,
                        i + 1,
                        EState {
                            stack: s.stack.drop_last(),
                            locals: s.locals.update(l as int, s.stack.last()),
                            ..s
                        },
                    )
                } else {
                    EvalR::Stuck
                }
            },
            Instr::LocalTee(l) => {
                if l < s.locals.len() && s.stack.len() >= 1 {
                    eval_region(
                        fuel,
                        m,
                        regions,
                        r,
                        i + 1,
                        EState { locals: s.locals.update(l as int, s.stack.last()), ..s },
                    )
                } else {
                    EvalR::Stuck
                }
            },
            Instr::I32Const(c) => eval_region(
                fuel,
                m,
                regions,
                r,
                i + 1,
                EState { stack: s.stack.push(Val::I32(c as int)), ..s },
            ),
            Instr::LoadI32 => {
                if s.stack.len() >= 1 && s.stack.last() is I32 && s.mem.dom().contains(
                    s.stack.last()->I32_0,
                ) {
                    eval_region(
                        fuel,
                        m,
                        regions,
                        r,
                        i + 1,
                        EState {
                            stack: s.stack.drop_last().push(
                                Val::I32(s.mem[s.stack.last()->I32_0]),
                            ),
                            ..s
                        },
                    )
                } else {
                    EvalR::Stuck
                }
            },
            Instr::StoreI32 => {
                if s.stack.len() >= 2 && s.stack.last() is I32 && s.stack[s.stack.len()
                    - 2] is I32 {
                    eval_region(
                        fuel,
                        m,
                        regions,
                        r,
                        i + 1,
                        EState {
                            stack: s.stack.drop_last().drop_last(),
                            mem: s.mem.insert(
                                s.stack[s.stack.len() - 2]->I32_0,
                                s.stack.last()->I32_0,
                            ),
                            ..s
                        },
                    )
                } else {
                    EvalR::Stuck
                }
            },
            Instr::TableGet(_t) => {
                if s.stack.len() >= 1 && s.stack.last() is I32 && 0 <= s.stack.last()->I32_0
                    < s.table.len() {
                    eval_region(
                        fuel,
                        m,
                        regions,
                        r,
                        i + 1,
                        EState {
                            stack: s.stack.drop_last().push(s.table[s.stack.last()->I32_0]),
                            ..s
                        },
                    )
                } else {
                    EvalR::Stuck
                }
            },
            Instr::TableSet(_t) => {
                if s.stack.len() >= 2 && s.stack[s.stack.len() - 2] is I32 && 0 <= s.stack[
                    s.stack.len() - 2
                ]->I32_0 < s.table.len() {
                    eval_region(
                        fuel,
                        m,
                        regions,
                        r,
                        i + 1,
                        EState {
                            stack: s.stack.drop_last().drop_last(),
                            table: s.table.update(
                                s.stack[s.stack.len() - 2]->I32_0,
                                s.stack.last(),
                            ),
                            ..s
                        },
                    )
                } else {
                    EvalR::Stuck
                }
            },
            Instr::TableGrow(_t) => {
                if s.stack.len() >= 2 && s.stack.last() is I32 && s.stack.last()->I32_0 >= 0 {
                    let delta = s.stack.last()->I32_0;
                    let init = s.stack[s.stack.len() - 2];
                    eval_region(
                        fuel,
                        m,
                        regions,
                        r,
                        i + 1,
                        EState {
                            stack: s.stack.drop_last().drop_last().push(
                                Val::I32(s.table.len() as int),
                            ),
                            table: s.table + Seq::new(delta as nat, |_k: int| init),
                            ..s
                        },
                    )
                } else {
                    EvalR::Stuck
                }
            },
            Instr::RefNull => eval_region(
                fuel,
                m,
                regions,
                r,
                i + 1,
                EState { stack: s.stack.push(Val::NullRef), ..s },
            ),
            Instr::Drop => {
                if s.stack.len() >= 1 {
                    eval_region(
                        fuel,
                        m,
                        regions,
                        r,
                        i + 1,
                        EState { stack: s.stack.drop_last(), ..s },
                    )
                } else {
                    EvalR::Stuck
                }
            },
            Instr::Other(_) => EvalR::Stuck,
        }
    }
}

/// Reading environment variables through the stand-in returns 0 and writes
/// nothing, whatever the inputs: only a zero is pushed onto the stack.
pub proof fn lemma_environ_get_behavior(fuel: nat, m: ModuleV, s: EState)
    ensures
        eval_region(fuel, m, environ_get_body_v().regions, 0, 0, s) == EvalR::Done(
            EState { stack: s.stack.push(Val::I32(0)), ..s },
        ),
{
    reveal_with_fuel(eval_region, 3);
}

/// Reading buffer sizes through the stand-in writes 0 at both given
/// addresses and returns 0, whatever the inputs.
pub proof fn lemma_environ_sizes_get_behavior(
    fuel: nat,
    m: ModuleV,
    s: EState,
    p: int,
    q: int,
)
    requires
        s.locals.len() >= 2,
        s.locals[0] == Val::I32(p),
        s.locals[1] == Val::I32(q),
    ensures
        eval_region(fuel, m, environ_sizes_get_body_v().regions, 0, 0, s) == EvalR::Done(
            EState {
                stack: s.stack.push(Val::I32(0)),
                mem: s.mem.insert(p, 0).insert(q, 0),
                ..s
            },
        ),
{
    reveal_with_fuel(eval_region, 9);
    let rs = environ_sizes_get_body_v().regions;
    let s1 = EState { stack: s.stack.push(Val::I32(p)), ..s };
    let s2 = EState { stack: s1.stack.push(Val::I32(0)), ..s1 };
    let s3 = EState { stack: s.stack, mem: s.mem.insert(p, 0), ..s };
    assert(s2.stack[s2.stack.len() - 2] == Val::I32(p));
    assert(s2.stack.drop_last().drop_last() =~= s.stack);
    assert(eval_region(fuel, m, rs, 0, 2, s2) == eval_region(fuel, m, rs, 0, 3, s3));
    let s4 = EState { stack: s3.stack.push(Val::I32(q)), ..s3 };
    let s5 = EState { stack: s4.stack.push(Val::I32(0)), ..s4 };
    let s6 = EState { stack: s3.stack, mem: s3.mem.insert(q, 0), ..s3 };
    assert(s5.stack[s5.stack.len() - 2] == Val::I32(q));
    assert(s5.stack.drop_last().drop_last() =~= s3.stack);
    assert(eval_region(fuel, m, rs, 0, 5, s5) == eval_region(fuel, m, rs, 0, 6, s6));
}

/// The process-termination stand-in never returns control, for any exit
/// code and however much fuel is provided: evaluation only ever runs out of
/// fuel, it cannot complete, branch out, or get stuck.
pub proof fn lemma_proc_exit_diverges(fuel: nat, m: ModuleV, s: EState)
    ensures
        eval_region(fuel, m, proc_exit_body_v().regions, 0, 0, s) == EvalR::OutOfFuel,
    decreases fuel,
{
    reveal_with_fuel(eval_region, 3);
    if fuel > 0 {
        let rs = proc_exit_body_v().regions;
        assert(eval_region((fuel - 1) as nat, m, rs, 1, 0, s) == EvalR::Branch(0, s));
        lemma_proc_exit_diverges((fuel - 1) as nat, m, s);
    }
}

/// The entry-point law: the synthesized entry point is exactly the
/// composition allocate, store, invoke, load. With the allocator answering
/// slot `i` and the business-logic entry answering slot `j`, the input
/// reference is stored at `i`, the business-logic entry is invoked with
/// exactly `i`, and the result is whatever the table then holds at `j`.
pub proof fn lemma_apply_entry_law(
    fuel: nat,
    m: ModuleV,
    s: EState,
    ts: usize,
    base: usize,
    tbl: usize,
    x: Val,
    i_slot: int,
    j_slot: int,
)
    requires
        s.locals.len() >= 2,
        s.locals[0] == x,
        m.live(ts as int),
        m.funcs[ts as int]->Some_0.sig.params.len() == 0,
        m.funcs[ts as int]->Some_0.sig.results.len() == 1,
        m.live(base as int),
        m.funcs[base as int]->Some_0.sig.params.len() == 1,
        m.funcs[base as int]->Some_0.sig.results.len() == 1,
        s.calls.len() == 0,
        s.oracle == seq![seq![Val::I32(i_slot)], seq![Val::I32(j_slot)]],
        0 <= i_slot < s.table.len(),
        0 <= j_slot < s.table.len(),
    ensures
        ({
            let table2 = s.table.update(i_slot, x);
            eval_region(fuel, m, apply_body_v(ts, base, tbl).regions, 0, 0, s) == EvalR::Done(
                EState {
                    stack: s.stack.push(table2[j_slot]),
                    locals: s.locals.update(1, Val::I32(i_slot)),
                    table: table2,
                    calls: seq![
                        (ts as int, Seq::<Val>::empty()),
                        (base as int, seq![Val::I32(i_slot)]),
                    ],
                    ..s
                },
            )
        }),
{
    reveal_with_fuel(eval_region, 10);
    let rs = apply_body_v(ts, base, tbl).regions;
    let table2 = s.table.update(i_slot, x);
    // allocate: the slot-allocate call takes no arguments and answers i
    let s1 = EState {
        stack: s.stack.push(Val::I32(i_slot)),
        calls: seq![(ts as int, Seq::<Val>::empty())],
        ..s
    };
    assert(s.stack.subrange(s.stack.len() as int, s.stack.len() as int)
        =~= Seq::<Val>::empty());
    assert(s.stack.take(s.stack.len() as int) =~= s.stack);
    assert(s.stack.take(s.stack.len() as int) + seq![Val::I32(i_slot)] =~= s1.stack);
    assert(s.calls.push((ts as int, Seq::<Val>::empty())) =~= s1.calls);
    assert(eval_region(fuel, m, rs, 0, 0, s) == eval_region(fuel, m, rs, 0, 1, s1));
    // park the slot index and load it with the input reference
    let s2 = EState { stack: s.stack, locals: s.locals.update(1, Val::I32(i_slot)), ..s1 };
    assert(s1.stack.drop_last() =~= s.stack);
    assert(eval_region(fuel, m, rs, 0, 1, s1) == eval_region(fuel, m, rs, 0, 2, s2));
    let s3 = EState { stack: s.stack.push(Val::I32(i_slot)), ..s2 };
    assert(eval_region(fuel, m, rs, 0, 2, s2) == eval_region(fuel, m, rs, 0, 3, s3));
    let s4 = EState { stack: s3.stack.push(x), ..s3 };
    assert(eval_region(fuel, m, rs, 0, 3, s3) == eval_region(fuel, m, rs, 0, 4, s4));
    // store: the input reference lands in the freshly allocated slot
    let s5 = EState { stack: s.stack, table: table2, ..s4 };
    assert(s4.stack[s4.stack.len() - 2] == Val::I32(i_slot));
    assert(s4.stack.drop_last().drop_last() =~= s.stack);
    assert(eval_region(fuel, m, rs, 0, 4, s4) == eval_region(fuel, m, rs, 0, 5, s5));
    let s6 = EState { stack: s.stack.push(Val::I32(i_slot)), ..s5 };
    assert(eval_region(fuel, m, rs, 0, 5, s5) == eval_region(fuel, m, rs, 0, 6, s6));
    // invoke: the business-logic entry receives exactly the slot index
    let s7 = EState {
        stack: s.stack.push(Val::I32(j_slot)),
        calls: seq![
            (ts as int, Seq::<Val>::empty()),
            (base as int, seq![Val::I32(i_slot)]),
        ],
        ..s6
    };
    assert(s6.stack.subrange(s6.stack.len() - 1, s6.stack.len() as int) =~= seq![
        Val::I32(i_slot)
    ]);
    assert(s6.stack.take(s6.stack.len() - 1) =~= s.stack);
    assert(s6.stack.take(s6.stack.len() - 1) + seq![Val::I32(j_slot)] =~= s7.stack);
    assert(s6.calls.push((base as int, seq![Val::I32(i_slot)])) =~= s7.calls);
    assert(eval_region(fuel, m, rs, 0, 6, s6) == eval_region(fuel, m, rs, 0, 7, s7));
    // load: the result is whatever reference the returned slot holds
    let s8 = EState { stack: s.stack.push(table2[j_slot]), ..s7 };
    assert(s7.stack.drop_last() =~= s.stack);
    assert(s7.stack.drop_last().push(table2[j_slot]) =~= s8.stack);
    assert(eval_region(fuel, m, rs, 0, 7, s7) == eval_region(fuel, m, rs, 0, 8, s8));
    assert(eval_region(fuel, m, rs, 0, 8, s8) == EvalR::Done(s8));
}

/// The adapter round trip: an adapter with one reference input and a
/// reference output, handed an address whose 4-byte cell holds handle `h`,
/// invokes the real host function with exactly the reference stored at slot
/// `h`, stores the host's result at the freshly allocated slot `h2`, and
/// returns `h2`.
#[verifier::rlimit(100)]
#[verifier::spinoff_prover]
pub proof fn lemma_adapter_round_trip(
    fuel: nat,
    m: ModuleV,
    s: EState,
    tbl: usize,
    real_fn: usize,
    slab: usize,
    addr: int,
    h: int,
    rres: Val,
    h2: int,
)
    requires
        s.locals.len() >= 3,
        s.locals[0] == Val::I32(addr),
        s.mem.dom().contains(addr),
        s.mem[addr] == h,
        0 <= h < s.table.len(),
        m.live(real_fn as int),
        m.funcs[real_fn as int]->Some_0.sig.params.len() == 1,
        m.funcs[real_fn as int]->Some_0.sig.results.len() == 1,
        m.live(slab as int),
        m.funcs[slab as int]->Some_0.sig.params.len() == 0,
        m.funcs[slab as int]->Some_0.sig.results.len() == 1,
        s.calls.len() == 0,
        s.oracle == seq![seq![rres], seq![Val::I32(h2)]],
        0 <= h2 < s.table.len(),
    ensures
        ({
            let b = adapter_body_v(
                seq![Type::ExternRef],
                Some(Type::ExternRef),
                tbl,
                real_fn,
                slab,
            );
            eval_region(fuel, m, b.regions, 0, 0, s) == EvalR::Done(
                EState {
                    stack: s.stack.push(Val::I32(h2)),
                    locals: s.locals.update(1, rres).update(2, Val::I32(h2)),
                    table: s.table.update(h2, rres),
                    calls: seq![
                        (real_fn as int, seq![s.table[h]]),
                        (slab as int, Seq::<Val>::empty()),
                    ],
                    ..s
                },
            )
        }),
{
    let b = adapter_body_v(seq![Type::ExternRef], Some(Type::ExternRef), tbl, real_fn, slab);
    let rs = b.regions;
    assert(seq![Type::ExternRef].drop_last() =~= Seq::<Type>::empty());
    assert(arg_instrs(seq![Type::ExternRef], tbl) =~= seq![
        Instr::LocalGet(0),
        Instr::LoadI32,
        Instr::TableGet(tbl),
    ]) by {
        assert(seq![Type::ExternRef].drop_last() =~= Seq::<Type>::empty());
        assert(arg_instrs(Seq::<Type>::empty(), tbl) =~= Seq::<Instr>::empty());
        assert(seq![Type::ExternRef].last() == Type::ExternRef);
        assert(per_arg(Type::ExternRef, 0, tbl) =~= seq![
            Instr::LocalGet(0),
            Instr::LoadI32,
            Instr::TableGet(tbl),
        ]);
    }
    assert(rs[0] =~= seq![
        Instr::LocalGet(0),
        Instr::LoadI32,
        Instr::TableGet(tbl),
        Instr::Call(real_fn),
        Instr::LocalSet(1),
        Instr::Call(slab),
        Instr::LocalTee(2),
        Instr::LocalGet(1),
        Instr::TableSet(tbl),
        Instr::LocalGet(2),
    ]);
    let rr = s.table[h];
    let s1 = EState { stack: s.stack.push(Val::I32(addr)), ..s };
    assert(eval_region(fuel, m, rs, 0, 0, s) == eval_region(fuel, m, rs, 0, 1, s1)) by {
        reveal_with_fuel(eval_region, 2);
    }
    let s2 = EState { stack: s.stack.push(Val::I32(h)), ..s1 };
    assert(s1.stack.drop_last() =~= s.stack);
    assert(s1.stack.drop_last().push(Val::I32(h)) =~= s2.stack);
    assert(eval_region(fuel, m, rs, 0, 1, s1) == eval_region(fuel, m, rs, 0, 2, s2)) by {
        reveal_with_fuel(eval_region, 2);
    }
    let s3 = EState { stack: s.stack.push(rr), ..s2 };
    assert(s2.stack.drop_last() =~= s.stack);
    assert(s2.stack.drop_last().push(rr) =~= s3.stack);
    assert(eval_region(fuel, m, rs, 0, 2, s2) == eval_region(fuel, m, rs, 0, 3, s3)) by {
        reveal_with_fuel(eval_region, 2);
    }
    // the real host function receives the reference stored at slot h
    let s4 = EState { stack: s.stack.push(rres), calls: seq![(real_fn as int, seq![rr])], ..s3 };
    assert(s3.stack.subrange(s3.stack.len() - 1, s3.stack.len() as int) =~= seq![rr]);
    assert(s3.stack.take(s3.stack.len() - 1) =~= s.stack);
    assert(s3.stack.take(s3.stack.len() - 1) + seq![rres] =~= s4.stack);
    assert(s3.calls.push((real_fn as int, seq![rr])) =~= s4.calls);
    assert(eval_region(fuel, m, rs, 0, 3, s3) == eval_region(fuel, m, rs, 0, 4, s4)) by {
        reveal_with_fuel(eval_region, 2);
    }
    let s5 = EState { stack: s.stack, locals: s.locals.update(1, rres), ..s4 };
    assert(s4.stack.drop_last() =~= s.stack);
    assert(eval_region(fuel, m, rs, 0, 4, s4) == eval_region(fuel, m, rs, 0, 5, s5)) by {
        reveal_with_fuel(eval_region, 2);
    }
    // a fresh slot is obtained from the slot allocator
    let s6 = EState {
        stack: s.stack.push(Val::I32(h2)),
        calls: seq![(real_fn as int, seq![rr]), (slab as int, Seq::<Val>::empty())],
        ..s5
    };
    assert(s5.stack.subrange(s5.stack.len() as int, s5.stack.len() as int)
        =~= Seq::<Val>::empty());
    assert(s5.stack.take(s5.stack.len() as int) =~= s.stack);
    assert(s5.stack.take(s5.stack.len() as int) + seq![Val::I32(h2)] =~= s6.stack);
    assert(s5.calls.push((slab as int, Seq::<Val>::empty())) =~= s6.calls);
    assert(eval_region(fuel, m, rs, 0, 5, s5) == eval_region(fuel, m, rs, 0, 6, s6)) by {
        reveal_with_fuel(eval_region, 2);
    }
    let s7 = EState { locals: s5.locals.update(2, Val::I32(h2)), ..s6 };
    assert(eval_region(fuel, m, rs, 0, 6, s6) == eval_region(fuel, m, rs, 0, 7, s7)) by {
        reveal_with_fuel(eval_region, 2);
    }
    let s8 = EState { stack: s7.stack.push(rres), ..s7 };
    assert(s7.locals[1] == rres);
    assert(eval_region(fuel, m, rs, 0, 7, s7) == eval_region(fuel, m, rs, 0, 8, s8)) by {
        reveal_with_fuel(eval_region, 2);
    }
    // the host's result lands in the fresh slot
    let s9 = EState { stack: s.stack, table: s.table.update(h2, rres), ..s8 };
    assert(s8.stack[s8.stack.len() - 2] == Val::I32(h2));
    assert(s8.stack.drop_last().drop_last() =~= s.stack);
    assert(eval_region(fuel, m, rs, 0, 8, s8) == eval_region(fuel, m, rs, 0, 9, s9)) by {
        reveal_with_fuel(eval_region, 2);
    }
    // and the fresh handle is returned
    let s10 = EState { stack: s.stack.push(Val::I32(h2)), ..s9 };
    assert(s9.locals[2] == Val::I32(h2));
    assert(eval_region(fuel, m, rs, 0, 9, s9) == eval_region(fuel, m, rs, 0, 10, s10)) by {
        reveal_with_fuel(eval_region, 2);
    }
    assert(eval_region(fuel, m, rs, 0, 10, s10) == EvalR::Done(s10)) by {
        reveal_with_fuel(eval_region, 2);
    }
}

} // verus!
