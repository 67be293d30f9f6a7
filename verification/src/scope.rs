//! The scope chain: an ordered stack of name/value frames. Frame 0 is the
//! base frame; the top frame is the innermost. `let` declares in the top
//! frame only (shadowing), assignment mutates the topmost frame that
//! already holds the name, lookup searches top to bottom.

use vstd::prelude::*;
use crate::object::{Object, ObjV, obj_v, binds_v, lemma_binds_v, assoc_get_v, copy_chars,
    chars_eq};

verus! {

/// The model of one frame.
pub type FrameV = Seq<(Seq<char>, ObjV)>;

/// The model of the whole scope stack; the last frame is the top.
pub type ScopesV = Seq<FrameV>;

/// The models of a stack of frames.
pub open spec fn frames_v(s: Seq<Vec<(Vec<char>, Object)>>) -> ScopesV
    decreases s,
{
    if s.len() == 0 {
        Seq::empty()
    } else {
        frames_v(s.drop_last()).push(binds_v(s.last()@))
    }
}

/// `frames_v` maps the stack elementwise.
pub broadcast proof fn lemma_frames_v(s: Seq<Vec<(Vec<char>, Object)>>)
    ensures
        (#[trigger] frames_v(s)).len() == s.len(),
        forall|i: int| 0 <= i < s.len() ==> frames_v(s)[i] == binds_v(s[i]@),
    decreases s,
{
    if s.len() > 0 {
        lemma_frames_v(s.drop_last());
    }
}

/// Binds `k` to `v` in a frame: replaces the first binding of `k`, or
/// appends one.
pub open spec fn assoc_set_v(s: FrameV, k: Seq<char>, v: ObjV) -> FrameV
    decreases s.len(),
{
    if s.len() == 0 {
        seq![(k, v)]
    } else if s[0].0 == k {
        s.update(0, (k, v))
    } else {
        seq![s[0]] + assoc_set_v(s.drop_first(), k, v)
    }
}

/// After `assoc_set_v`, looking the name up yields the new value, and
/// every other name is untouched.
pub proof fn lemma_assoc_set_get(s: FrameV, k: Seq<char>, v: ObjV, q: Seq<char>)
    ensures
        assoc_get_v(assoc_set_v(s, k, v), q) == if q == k {
            Option::Some(v)
        } else {
            assoc_get_v(s, q)
        },
    decreases s.len(),
{
    if s.len() > 0 && s[0].0 != k {
        lemma_assoc_set_get(s.drop_first(), k, v, q);
        let t = assoc_set_v(s, k, v);
        assert(t == seq![s[0]] + assoc_set_v(s.drop_first(), k, v));
        assert(t.drop_first() =~= assoc_set_v(s.drop_first(), k, v));
        assert(t[0] == s[0]);
        if q == s[0].0 {
            assert(assoc_get_v(t, q) == Option::Some(s[0].1));
            assert(assoc_get_v(s, q) == Option::Some(s[0].1));
        } else {
            assert(assoc_get_v(t, q) == assoc_get_v(t.drop_first(), q));
            assert(assoc_get_v(s, q) == assoc_get_v(s.drop_first(), q));
        }
    } else if s.len() > 0 && s[0].0 == k {
        assert(s.update(0, (k, v))[0] == (k, v));
        if q != k {
            assert(s.update(0, (k, v)).drop_first() =~= s.drop_first());
        }
    } else {
        assert(assoc_set_v(s, k, v) == seq![(k, v)]);
        assert(seq![(k, v)][0] == (k, v));
        if q != k {
            assert(seq![(k, v)].drop_first().len() == 0);
            assert(assoc_get_v(seq![(k, v)].drop_first(), q) == Option::None::<ObjV>);
            assert(assoc_get_v(seq![(k, v)], q) == Option::None::<ObjV>);
        }
    }
}

/// Looks a name up through the scope stack, top to bottom; `None` when no
/// frame holds it.
pub open spec fn lookup_v(scopes: ScopesV, k: Seq<char>) -> Option<ObjV>
    decreases scopes.len(),
{
    if scopes.len() == 0 {
        Option::None
    } else {
        match assoc_get_v(scopes.last(), k) {
            Option::Some(v) => Option::Some(v),
            Option::None => lookup_v(scopes.drop_last(), k),
        }
    }
}

/// Declares `k` in the top frame (`let` semantics: always shadows). An
/// empty stack is left unchanged.
pub open spec fn declare_v(scopes: ScopesV, k: Seq<char>, v: ObjV) -> ScopesV {
    if scopes.len() == 0 {
        scopes
    } else {
        scopes.update(scopes.len() - 1, assoc_set_v(scopes.last(), k, v))
    }
}

/// Assigns to `k` in the topmost frame that holds it: `None` when no
/// frame holds it or the current value is a function (functions are
/// immutable once declared).
pub open spec fn assign_v(scopes: ScopesV, k: Seq<char>, v: ObjV) -> Option<ScopesV>
    decreases scopes.len(),
{
    if scopes.len() == 0 {
        Option::None
    } else {
        match assoc_get_v(scopes.last(), k) {
            Option::Some(cur) => if cur matches ObjV::Fn { .. } {
                Option::None
            } else {
                Option::Some(
                    scopes.update(scopes.len() - 1, assoc_set_v(scopes.last(), k, v)),
                )
            },
            Option::None => match assign_v(scopes.drop_last(), k, v) {
                Option::Some(below) => Option::Some(below.push(scopes.last())),
                Option::None => Option::None,
            },
        }
    }
}

/// Binds `k` to `v` in a frame, in place.
pub(crate) fn assoc_set(frame: &mut Vec<(Vec<char>, Object)>, k: &Vec<char>, v: Object)
    ensures
        binds_v(final(frame)@) == assoc_set_v(binds_v(old(frame)@), k@, obj_v(v)),
{
    proof {
        lemma_binds_v(frame@);
    }
    let ghost orig = binds_v(frame@);
    proof {
        assert(orig.skip(0) =~= orig);
        assert(orig.take(0) + assoc_set_v(orig.skip(0), k@, obj_v(v))
            =~= assoc_set_v(orig, k@, obj_v(v)));
    }
    let mut i: usize = 0;
    while i < frame.len()
        invariant
            i <= frame@.len(),
            frame@ == old(frame)@,
            orig == binds_v(frame@),
            orig.len() == frame@.len(),
            forall|j: int| 0 <= j < frame@.len() ==> orig[j] == (frame@[j].0@, obj_v(
                frame@[j].1,
            )),
            forall|j: int| 0 <= j < i ==> frame@[j].0@ != k@,
            assoc_set_v(orig, k@, obj_v(v)) == orig.take(i as int) + assoc_set_v(
                orig.skip(i as int),
                k@,
                obj_v(v),
            ),
        decreases frame@.len() - i,
    {
        if chars_eq(&frame[i].0, k) {
            frame[i].1 = v;
            proof {
                lemma_binds_v(frame@);
                assert(orig.skip(i as int)[0] == orig[i as int]);
                assert(orig.skip(i as int)[0].0 == k@);
                assert(assoc_set_v(orig.skip(i as int), k@, obj_v(v))
                    == orig.skip(i as int).update(0, (k@, obj_v(v))));
                assert(binds_v(frame@) =~= orig.take(i as int) + assoc_set_v(
                    orig.skip(i as int),
                    k@,
                    obj_v(v),
                ));
            }
            return ;
        }
        proof {
            assert(orig.skip(i as int)[0] == orig[i as int]);
            assert(orig.skip(i as int).drop_first() =~= orig.skip(i + 1));
            assert(orig.take(i as int) + (seq![orig[i as int]] + assoc_set_v(
                orig.skip(i + 1),
                k@,
                obj_v(v),
            )) =~= orig.take(i + 1 as int) + assoc_set_v(orig.skip(i + 1), k@, obj_v(v)));
        }
        i = i + 1;
    }
    let pair = (copy_chars(k), v);
    frame.push(pair);
    proof {
        lemma_binds_v(frame@);
        assert(orig.skip(orig.len() as int).len() == 0);
        assert(binds_v(frame@) =~= orig.take(orig.len() as int) + assoc_set_v(
            orig.skip(orig.len() as int),
            k@,
            obj_v(v),
        ));
    }
}

} // verus!
