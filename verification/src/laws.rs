//! The general laws of the language, stated over the evaluator's model
//! and proved once and for all.

use vstd::prelude::*;
use crate::object::ObjV;
use crate::tree::{Tree, BinKind};
use crate::ops::{bin_op_v, repeat_chars_v, repeat_objs_v, to_count_v};
use crate::scope::{ScopesV, lookup_v, declare_v, assign_v, assoc_set_v,
    lemma_assoc_set_get};
use crate::object::assoc_get_v;
use crate::interpreter::{CtxV, StateV, ER, Ctl, eval_spec, eval_while_spec, eval_block_spec,
    eval_call_spec, eval_args_spec, LOut, bind_params_v, pop_scope_v, update_slot_v,
    set_in_v, AccV};
use crate::num::is_zero_bits;

verus! {

/// Dividing any value by a number equal to zero yields `Invalid`, never a
/// trap; dividing two numbers otherwise yields their IEEE-754 quotient.
pub proof fn law_division_by_zero(a: ObjV, b: u64)
    ensures
        is_zero_bits(b) ==> bin_op_v(BinKind::Divide, a, ObjV::Num(b)) == ObjV::Invalid,
        !is_zero_bits(b) ==> (a matches ObjV::Num(x) ==> bin_op_v(
            BinKind::Divide,
            a,
            ObjV::Num(b),
        ) == ObjV::Num(crate::num::div_bits(x, b))),
{
}

/// Subtracting a number from a string removes that many trailing
/// characters, by character count; a count beyond the length clears the
/// whole string.
pub proof fn law_string_minus(s: Seq<char>, b: u64)
    ensures
        to_count_v(b) < s.len() ==> bin_op_v(BinKind::Minus, ObjV::Str(s), ObjV::Num(b))
            == ObjV::Str(s.take(s.len() - to_count_v(b))),
        to_count_v(b) >= s.len() ==> bin_op_v(BinKind::Minus, ObjV::Str(s), ObjV::Num(b))
            == ObjV::Str(Seq::<char>::empty()),
{
}

/// A string repeated `k` times has `k` times its length; the same holds
/// for lists.
pub proof fn law_repeat_len(s: Seq<char>, items: Seq<ObjV>, k: int)
    requires
        k >= 0,
    ensures
        repeat_chars_v(s, k).len() == k * s.len(),
        repeat_objs_v(items, k).len() == k * items.len(),
    decreases k,
{
    if k > 0 {
        law_repeat_len(s, items, k - 1);
        assert((k - 1) * s.len() + s.len() == k * s.len()) by (nonlinear_arith);
        assert((k - 1) * items.len() + items.len() == k * items.len()) by (nonlinear_arith);
    } else {
        assert(k * s.len() == 0) by (nonlinear_arith)
            requires k == 0;
        assert(k * items.len() == 0) by (nonlinear_arith)
            requires k == 0;
    }
}

/// Declaring a name in a nested frame shadows without mutating: after the
/// frame is popped again, every name reads exactly as before.
pub proof fn law_shadowing(scopes: ScopesV, k: Seq<char>, v: ObjV, q: Seq<char>)
    ensures
        declare_v(scopes.push(Seq::empty()), k, v).drop_last() == scopes,
        lookup_v(declare_v(scopes.push(Seq::empty()), k, v).drop_last(), q) == lookup_v(
            scopes,
            q,
        ),
{
    let pushed = scopes.push(Seq::empty());
    let declared = declare_v(pushed, k, v);
    assert(declared.drop_last() =~= scopes);
}

/// Assigning to a name no frame holds changes nothing (the assignment
/// itself evaluates to `Invalid`).
pub proof fn law_assign_undeclared(scopes: ScopesV, k: Seq<char>, v: ObjV)
    requires
        lookup_v(scopes, k) matches Option::None,
    ensures
        assign_v(scopes, k, v) matches Option::None,
    decreases scopes.len(),
{
    if scopes.len() > 0 {
        match assoc_get_v(scopes.last(), k) {
            Option::Some(_) => {
                assert(false);
            },
            Option::None => {
                law_assign_undeclared(scopes.drop_last(), k, v);
            },
        }
    }
}

/// A `Ret` sentinel produced by a `while` body stops the loop at once:
/// no further iteration runs, and the sentinel propagates out of the
/// loop unchanged.
pub proof fn law_loop_return_propagates(ctx: CtxV, st: StateV, t: Tree, fuel: nat,
    inner: ObjV)
    requires
        t matches Tree::While { .. },
        ({
            let cond = match t {
                Tree::While { expr, .. } => *expr,
                _ => t,
            };
            eval_spec(ctx, st, cond, fuel).ctl matches Ctl::Val(cv)
                && crate::object::truthy_v(cv)
        }),
        ({
            let cond = match t {
                Tree::While { expr, .. } => *expr,
                _ => t,
            };
            let body = match t {
                Tree::While { body, .. } => body@,
                _ => Seq::empty(),
            };
            eval_block_spec(ctx, eval_spec(ctx, st, cond, fuel).st, body, fuel).ctl
                == Ctl::Val(ObjV::Ret(Box::new(inner)))
        }),
    ensures
        ({
            let cond = match t {
                Tree::While { expr, .. } => *expr,
                _ => t,
            };
            let body = match t {
                Tree::While { body, .. } => body@,
                _ => Seq::empty(),
            };
            eval_while_spec(ctx, st, t, fuel) == (ER {
                st: eval_block_spec(ctx, eval_spec(ctx, st, cond, fuel).st, body,
                    fuel).st,
                ctl: Ctl::Val(ObjV::Ret(Box::new(inner))),
            })
        }),
{
}

/// A function call unwraps the `Ret` sentinel its body produced, and the
/// call frame is popped: the caller sees the plain returned value and no
/// binding made inside the call.
pub proof fn law_call_unwraps_return(ctx: CtxV, st: StateV, params: Seq<(Seq<char>, ObjV)>,
    body: Seq<Tree>, args: Seq<Tree>, fuel: nat, inner: ObjV)
    requires
        fuel > 0,
        ({
            let f = ObjV::Fn { name: Seq::empty(), args: params, body };
            let m = if params.len() <= args.len() {
                params.len() as int
            } else {
                args.len() as int
            };
            eval_args_spec(ctx, st, args, 0, m, fuel).out matches LOut::Vals(_)
        }),
        ({
            let m = if params.len() <= args.len() {
                params.len() as int
            } else {
                args.len() as int
            };
            let lr = eval_args_spec(ctx, st, args, 0, m, fuel);
            let vals = match lr.out {
                LOut::Vals(vs) => vs,
                LOut::Halt(_) => Seq::empty(),
            };
            let st1 = StateV {
                scopes: lr.st.scopes.push(bind_params_v(params, vals)),
                ..lr.st
            };
            eval_block_spec(ctx, st1, body, (fuel - 1) as nat).ctl == Ctl::Val(
                ObjV::Ret(Box::new(inner)),
            )
        }),
    ensures
        ({
            let f = ObjV::Fn { name: Seq::empty(), args: params, body };
            let m = if params.len() <= args.len() {
                params.len() as int
            } else {
                args.len() as int
            };
            let lr = eval_args_spec(ctx, st, args, 0, m, fuel);
            let vals = match lr.out {
                LOut::Vals(vs) => vs,
                LOut::Halt(_) => Seq::empty(),
            };
            let st1 = StateV {
                scopes: lr.st.scopes.push(bind_params_v(params, vals)),
                ..lr.st
            };
            let erb = eval_block_spec(ctx, st1, body, (fuel - 1) as nat);
            eval_call_spec(ctx, st, f, args, Option::None, fuel) == (ER {
                st: pop_scope_v(erb.st),
                ctl: Ctl::Val(inner),
            })
        }),
{
}

/// Writing through an l-value rooted at one name leaves every other name
/// untouched: two separately bound snapshots (two imports of the same
/// module included) never alias.
pub proof fn law_write_is_local(scopes: ScopesV, root: Seq<char>, accs: Seq<AccV>,
    val: ObjV, other: Seq<char>)
    requires
        other != root,
        update_slot_v(scopes, root, accs, val) matches Option::Some(_),
    ensures
        ({
            let updated = match update_slot_v(scopes, root, accs, val) {
                Option::Some(ns) => ns,
                Option::None => scopes,
            };
            lookup_v(updated, other) == lookup_v(scopes, other)
        }),
    decreases scopes.len(),
{
    if scopes.len() > 0 {
        match assoc_get_v(scopes.last(), root) {
            Option::Some(cur) => {
                let updated = match update_slot_v(scopes, root, accs, val) {
                    Option::Some(ns) => ns,
                    Option::None => scopes,
                };
                lemma_assoc_set_get(scopes.last(), root, set_in_v(cur, accs, 0, val),
                    other);
                assert(updated.last() == assoc_set_v(
                    scopes.last(),
                    root,
                    set_in_v(cur, accs, 0, val),
                ));
                assert(updated.drop_last() =~= scopes.drop_last());
            },
            Option::None => {
                match update_slot_v(scopes.drop_last(), root, accs, val) {
                    Option::Some(below) => {
                        law_write_is_local(scopes.drop_last(), root, accs, val, other);
                        let updated = below.push(scopes.last());
                        assert(updated.last() == scopes.last());
                        assert(updated.drop_last() =~= below);
                    },
                    Option::None => {},
                }
            },
        }
    }
}

/// Evaluation is deterministic: the outcome of a node depends only on the
/// surroundings, the state's model and the node itself, so two fresh
/// evaluators given the same program produce identical values, states and
/// output.
pub proof fn law_deterministic(ctx1: CtxV, st1: StateV, ctx2: CtxV, st2: StateV, t: Tree,
    fuel: nat)
    requires
        ctx1 == ctx2,
        st1 == st2,
    ensures
        eval_spec(ctx1, st1, t, fuel) == eval_spec(ctx2, st2, t, fuel),
{
}

} // verus!
