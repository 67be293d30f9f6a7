//! The evaluator: one instance owns a scope stack and an output stream,
//! interprets one syntax tree at a time, and dispatches function, method,
//! struct and namespace operations. Module imports are resolved against a
//! table of already-loaded modules handed in at construction; reading and
//! parsing the files themselves is the host's business.

use vstd::prelude::*;
use std::rc::Rc;
use crate::tree::{Tree, BinKind, CmpKind};
use crate::object::{Object, ObjV, obj_v, objs_v, binds_v, lemma_objs_v, lemma_binds_v,
    assoc_get_v, field_of_v, index_of_v, len_of_v, set_index_v, to_chars_v, to_num_v,
    truthy_v, display_v, copy_chars, chars_eq, extend_chars, dup_bindings, rc_share,
    assoc_get};
use crate::scope::{FrameV, ScopesV, frames_v, lemma_frames_v, assoc_set_v, lookup_v,
    declare_v, assign_v, assoc_set};
use crate::ops::{bin_op_v, cmp_op_v, to_count_v, to_i32_v, bin_op_obj, cmp_op_obj, to_count,
    to_i32, truthy};
use crate::num;
use crate::num::bits_of_int;

verus! {

/// One loaded module: the directory its own relative imports resolve
/// against, and its parsed top-level statements.
pub struct ModuleSrc {
    pub dir: Vec<char>,
    pub program: Vec<Tree>,
}

/// The model of a loaded module.
#[verifier::ext_equal]
pub struct ModV {
    pub dir: Seq<char>,
    pub program: Seq<Tree>,
}

/// The mutable state of one evaluator: its scope stack and everything it
/// has written.
#[verifier::ext_equal]
pub struct StateV {
    pub scopes: ScopesV,
    pub output: Seq<Seq<char>>,
}

/// The immutable surroundings of one evaluator: the directory of the
/// running file, the standard-library directory, and the loaded modules
/// keyed by resolved path.
#[verifier::ext_equal]
pub struct CtxV {
    pub current_path: Seq<char>,
    pub std_path: Seq<char>,
    pub modules: Seq<(Seq<char>, ModV)>,
}

/// The models of the output chunks.
pub open spec fn chunks_v(s: Seq<Vec<char>>) -> Seq<Seq<char>>
    decreases s,
{
    if s.len() == 0 {
        Seq::empty()
    } else {
        chunks_v(s.drop_last()).push(s.last()@)
    }
}

/// `chunks_v` maps the sequence elementwise.
pub broadcast proof fn lemma_chunks_v(s: Seq<Vec<char>>)
    ensures
        (#[trigger] chunks_v(s)).len() == s.len(),
        forall|i: int| 0 <= i < s.len() ==> chunks_v(s)[i] == s[i]@,
    decreases s,
{
    if s.len() > 0 {
        lemma_chunks_v(s.drop_last());
    }
}

/// The models of the module table entries.
pub open spec fn mods_v(s: Seq<(Vec<char>, ModuleSrc)>) -> Seq<(Seq<char>, ModV)>
    decreases s,
{
    if s.len() == 0 {
        Seq::empty()
    } else {
        mods_v(s.drop_last()).push(
            (s.last().0@, ModV { dir: s.last().1.dir@, program: s.last().1.program@ }),
        )
    }
}

/// `mods_v` maps the sequence elementwise.
pub broadcast proof fn lemma_mods_v(s: Seq<(Vec<char>, ModuleSrc)>)
    ensures
        (#[trigger] mods_v(s)).len() == s.len(),
        forall|i: int| 0 <= i < s.len() ==> mods_v(s)[i] == (s[i].0@, ModV {
            dir: s[i].1.dir@,
            program: s[i].1.program@,
        }),
    decreases s,
{
    if s.len() > 0 {
        lemma_mods_v(s.drop_last());
    }
}

/// The name of the output native.
pub open spec fn write_name_v() -> Seq<char> {
    seq!['w', 'r', 'i', 't', 'e']
}

/// The name of the process-exit native.
pub open spec fn exit_name_v() -> Seq<char> {
    seq!['e', 'x', 'i', 't']
}

/// The name of the lookup-by-text native.
pub open spec fn get_var_name_v() -> Seq<char> {
    seq!['_', '_', 'g', 'e', 't', '_', 'v', 'a', 'r', '_', 'f', 'r', 'o', 'm', '_', 's',
        't', 'r']
}

/// The base frame every evaluator starts from: the three natives.
pub open spec fn base_frame_v() -> FrameV {
    seq![
        (write_name_v(), ObjV::NativeFn { name: write_name_v() }),
        (exit_name_v(), ObjV::NativeFn { name: exit_name_v() }),
        (get_var_name_v(), ObjV::NativeFn { name: get_var_name_v() }),
    ]
}

/// The default standard-library directory name.
pub open spec fn std_dir_v() -> Seq<char> {
    seq!['s', 't', 'd']
}

fn push_str5(a: char, b: char, c: char, d: char, e: char) -> (r: Vec<char>)
    ensures
        r@ == seq![a, b, c, d, e],
{
    let mut v: Vec<char> = Vec::new();
    v.push(a);
    v.push(b);
    v.push(c);
    v.push(d);
    v.push(e);
    proof {
        assert(v@ =~= seq![a, b, c, d, e]);
    }
    v
}

fn write_name() -> (r: Vec<char>)
    ensures
        r@ == write_name_v(),
{
    push_str5('w', 'r', 'i', 't', 'e')
}

fn exit_name() -> (r: Vec<char>)
    ensures
        r@ == exit_name_v(),
{
    let mut v: Vec<char> = Vec::new();
    v.push('e');
    v.push('x');
    v.push('i');
    v.push('t');
    proof {
        assert(v@ =~= exit_name_v());
    }
    v
}

fn get_var_name() -> (r: Vec<char>)
    ensures
        r@ == get_var_name_v(),
{
    let mut v = push_str5('_', '_', 'g', 'e', 't', );
    v.push('_');
    v.push('v');
    v.push('a');
    v.push('r');
    v.push('_');
    v.push('f');
    v.push('r');
    v.push('o');
    v.push('m');
    v.push('_');
    v.push('s');
    v.push('t');
    v.push('r');
    proof {
        assert(v@ =~= get_var_name_v());
    }
    v
}

fn std_dir_name() -> (r: Vec<char>)
    ensures
        r@ == std_dir_v(),
{
    let mut v: Vec<char> = Vec::new();
    v.push('s');
    v.push('t');
    v.push('d');
    proof {
        assert(v@ =~= std_dir_v());
    }
    v
}

/// One evaluator instance.
pub struct Interpreter {
    pub scopes: Vec<Vec<(Vec<char>, Object)>>,
    pub output: Vec<Vec<char>>,
    pub current_path: Vec<char>,
    pub std_path: Vec<char>,
    pub modules: Rc<Vec<(Vec<char>, ModuleSrc)>>,
}

impl Interpreter {
    /// The model of this evaluator's mutable state.
    pub open spec fn st(self) -> StateV {
        StateV { scopes: frames_v(self.scopes@), output: chunks_v(self.output@) }
    }

    /// The model of this evaluator's surroundings.
    pub open spec fn ctx(self) -> CtxV {
        CtxV {
            current_path: self.current_path@,
            std_path: self.std_path@,
            modules: mods_v((*self.modules)@),
        }
    }

    /// The base frame is always there.
    pub open spec fn wf(self) -> bool {
        self.st().scopes.len() >= 1
    }

    /// A fresh evaluator: one base frame holding the three natives, no
    /// output yet. A missing standard-library path falls back to the
    /// plain directory name.
    pub fn new(
        current_path: Vec<char>,
        std: Option<Vec<char>>,
        modules: Rc<Vec<(Vec<char>, ModuleSrc)>>,
    ) -> (r: Interpreter)
        ensures
            r.wf(),
            r.st() == (StateV { scopes: seq![base_frame_v()], output: Seq::empty() }),
            r.ctx() == (CtxV {
                current_path: current_path@,
                std_path: match std {
                    Option::Some(p) => p@,
                    Option::None => std_dir_v(),
                },
                modules: mods_v((*modules)@),
            }),
    {
        let std_path = match std {
            Option::Some(p) => p,
            Option::None => std_dir_name(),
        };
        let mut base: Vec<(Vec<char>, Object)> = Vec::new();
        base.push((write_name(), Object::NativeFn { name: write_name() }));
        base.push((exit_name(), Object::NativeFn { name: exit_name() }));
        base.push((get_var_name(), Object::NativeFn { name: get_var_name() }));
        let mut scopes: Vec<Vec<(Vec<char>, Object)>> = Vec::new();
        scopes.push(base);
        let r = Interpreter {
            scopes,
            output: Vec::new(),
            current_path,
            std_path,
        modules,
        };
        proof {
            lemma_frames_v(r.scopes@);
            lemma_binds_v(r.scopes@[0]@);
            assert(binds_v(r.scopes@[0]@) =~= base_frame_v());
            assert(frames_v(r.scopes@) =~= seq![base_frame_v()]);
            assert(r.st() =~= (StateV {
                scopes: seq![base_frame_v()],
                output: Seq::empty(),
            }));
        }
        r
    }

    /// Pushes an empty frame.
    fn enter_scope(&mut self)
        ensures
            final(self).st().scopes == old(self).st().scopes.push(Seq::empty()),
            final(self).st().output == old(self).st().output,
            final(self).ctx() == old(self).ctx(),
            final(self).wf(),
    {
        proof {
            lemma_frames_v(self.scopes@);
        }
        self.scopes.push(Vec::new());
        proof {
            lemma_frames_v(self.scopes@);
            assert(frames_v(self.scopes@) =~= frames_v(old(self).scopes@).push(
                Seq::empty(),
            ));
        }
    }

    /// Pops the top frame; the empty stack stays empty.
    fn exit_scope(&mut self)
        ensures
            final(self).st().scopes == if old(self).st().scopes.len() > 0 {
                old(self).st().scopes.drop_last()
            } else {
                old(self).st().scopes
            },
            final(self).st().output == old(self).st().output,
            final(self).ctx() == old(self).ctx(),
    {
        proof {
            lemma_frames_v(self.scopes@);
        }
        if self.scopes.len() > 0 {
            let _ = self.scopes.pop();
            proof {
                lemma_frames_v(self.scopes@);
                assert(frames_v(self.scopes@) =~= frames_v(old(self).scopes@).drop_last());
            }
        }
    }

    /// Declares a name in the top frame (`let` semantics).
    pub(crate) fn set_var(&mut self, name: &Vec<char>, value: Object)
        ensures
            final(self).st().scopes == declare_v(old(self).st().scopes, name@, obj_v(value)),
            final(self).st().output == old(self).st().output,
            final(self).ctx() == old(self).ctx(),
            old(self).wf() ==> final(self).wf(),
    {
        proof {
            lemma_frames_v(self.scopes@);
        }
        let n = self.scopes.len();
        if n > 0 {
            assoc_set(&mut self.scopes[n - 1], name, value);
            proof {
                lemma_frames_v(self.scopes@);
                assert(frames_v(self.scopes@) =~= declare_v(
                    frames_v(old(self).scopes@),
                    name@,
                    obj_v(value),
                ));
            }
        } else {
            proof {
                let _ = obj_v(value);
            }
        }
    }

    /// Looks a name up, top frame first, and hands back a copy of its
    /// value.
    pub fn get_var(&self, name: &Vec<char>) -> (r: Option<Object>)
        ensures
            match r {
                Option::Some(o) => lookup_v(self.st().scopes, name@) == Option::Some(
                    obj_v(o),
                ),
                Option::None => lookup_v(self.st().scopes, name@)
                    == Option::None::<ObjV>,
            },
    {
        let ghost all = self.st().scopes;
        proof {
            lemma_frames_v(self.scopes@);
            assert(all.take(all.len() as int) =~= all);
        }
        let mut fi: usize = self.scopes.len();
        while fi > 0
            invariant
                fi <= self.scopes@.len(),
                all == frames_v(self.scopes@),
                all.len() == self.scopes@.len(),
                forall|j: int| 0 <= j < self.scopes@.len() ==> all[j] == binds_v(
                    self.scopes@[j]@,
                ),
                lookup_v(all, name@) == lookup_v(all.take(fi as int), name@),
            decreases fi,
        {
            let hit = assoc_get(&self.scopes[fi - 1], name);
            match hit {
                Option::Some(o) => {
                    proof {
                        assert(all.take(fi as int).last() == all[fi - 1]);
                    }
                    return Option::Some(o.duplicate());
                },
                Option::None => {
                    proof {
                        assert(all.take(fi as int).last() == all[fi - 1]);
                        assert(all.take(fi as int).drop_last() =~= all.take(fi - 1));
                    }
                    fi = fi - 1;
                },
            }
        }
        proof {
            assert(all.take(0).len() == 0);
        }
        Option::None
    }

    /// Assigns to the topmost frame holding the name; yields the assigned
    /// value, or `Invalid` (and leaves every scope unchanged) when no
    /// frame holds it or it names a function.
    pub(crate) fn assign_var(&mut self, name: &Vec<char>, value: Object) -> (r: Object)
        ensures
            match assign_v(old(self).st().scopes, name@, obj_v(value)) {
                Option::Some(ns) => final(self).st().scopes == ns && obj_v(r) == obj_v(
                    value,
                ),
                Option::None => final(self).st().scopes == old(self).st().scopes && r
                    == Object::Invalid,
            },
            final(self).st().output == old(self).st().output,
            final(self).ctx() == old(self).ctx(),
            old(self).wf() ==> final(self).wf(),
    {
        let ghost all = self.st().scopes;
        proof {
            lemma_frames_v(self.scopes@);
            assert(all.take(all.len() as int) =~= all);
        }
        let mut fi: usize = self.scopes.len();
        while fi > 0
            invariant
                fi <= self.scopes@.len(),
                self.scopes@ == old(self).scopes@,
                self.output@ == old(self).output@,
                self.current_path@ == old(self).current_path@,
                self.std_path@ == old(self).std_path@,
                self.modules == old(self).modules,
                all == frames_v(self.scopes@),
                all.len() == self.scopes@.len(),
                forall|j: int| 0 <= j < self.scopes@.len() ==> all[j] == binds_v(
                    self.scopes@[j]@,
                ),
                forall|v: ObjV|
                    assign_v(all, name@, v) == (match assign_v(
                        all.take(fi as int),
                        name@,
                        v,
                    ) {
                        Option::Some(ns) => Option::Some(ns + all.skip(fi as int)),
                        Option::None => Option::None::<ScopesV>,
                    }),
            decreases fi,
        {
            let hit = assoc_get(&self.scopes[fi - 1], name);
            match hit {
                Option::Some(cur) => {
                    proof {
                        assert(all.take(fi as int).last() == all[fi - 1]);
                    }
                    if let Object::Fn { .. } = cur {
                        proof {
                            assert(assign_v(all.take(fi as int), name@, obj_v(value))
                                == Option::None::<ScopesV>);
                        }
                        proof {
                            let _ = obj_v(value);
                        }
                        return Object::Invalid;
                    }
                    let ghost curv = obj_v(*cur);
                    let dup = value.duplicate();
                    assoc_set(&mut self.scopes[fi - 1], name, dup);
                    proof {
                        lemma_frames_v(self.scopes@);
                        let newframes = frames_v(self.scopes@);
                        let expect_top = all.take(fi as int).update(
                            fi - 1,
                            assoc_set_v(all[fi - 1], name@, obj_v(value)),
                        );
                        assert(newframes =~= expect_top + all.skip(fi as int));
                        assert(assign_v(all.take(fi as int), name@, obj_v(value))
                            == Option::Some(expect_top));
                    }
                    return value;
                },
                Option::None => {
                    proof {
                        assert(all.take(fi as int).last() == all[fi - 1]);
                        assert(all.take(fi as int).drop_last() =~= all.take(fi - 1));
                        assert forall|v: ObjV|
                            assign_v(all, name@, v) == (match assign_v(
                                all.take(fi - 1),
                                name@,
                                v,
                            ) {
                                Option::Some(ns) => Option::Some(ns + all.skip(fi - 1)),
                                Option::None => Option::None::<ScopesV>,
                            }) by {
                            match assign_v(all.take(fi - 1), name@, v) {
                                Option::Some(ns) => {
                                    assert(assign_v(all.take(fi as int), name@, v)
                                        == Option::Some(ns.push(all[fi - 1])));
                                    assert(ns.push(all[fi - 1]) + all.skip(fi as int)
                                        =~= ns + all.skip(fi - 1));
                                },
                                Option::None => {},
                            }
                        }
                    }
                    fi = fi - 1;
                },
            }
        }
        proof {
            assert(all.take(0).len() == 0);
            assert(assign_v(all.take(0), name@, obj_v(value)) == Option::None::<ScopesV>);
            let _ = obj_v(value);
        }
        Object::Invalid
    }

    /// Appends one chunk to the output.
    pub(crate) fn write_out(&mut self, chunk: Vec<char>)
        ensures
            final(self).st().scopes == old(self).st().scopes,
            final(self).st().output == old(self).st().output.push(chunk@),
            final(self).ctx() == old(self).ctx(),
            old(self).wf() ==> final(self).wf(),
    {
        proof {
            lemma_chunks_v(self.output@);
        }
        self.output.push(chunk);
        proof {
            lemma_chunks_v(self.output@);
            assert(chunks_v(self.output@) =~= chunks_v(old(self).output@).push(chunk@));
        }
    }

    /// Hands the collected output over, emptying the buffer.
    pub fn take_output(&mut self) -> (r: Vec<Vec<char>>)
        ensures
            chunks_v(r@) == old(self).st().output,
            final(self).st().scopes == old(self).st().scopes,
            final(self).st().output == Seq::<Seq<char>>::empty(),
            final(self).ctx() == old(self).ctx(),
            old(self).wf() ==> final(self).wf(),
    {
        let mut out: Vec<Vec<char>> = Vec::new();
        std::mem::swap(&mut out, &mut self.output);
        out
    }
}

} // verus!

verus! {

/// The outcome of evaluating one node: a value, a demand to end the
/// process with a code, or exhaustion of the evaluation budget.
#[verifier::ext_equal]
pub enum Ctl {
    Val(ObjV),
    Exit(int),
    /// A module could not be resolved: a missing or unreadable file, a
    /// malformed import path, or a missing path segment. Module errors
    /// are fatal; evaluation does not continue past them.
    Fatal,
    OutOfFuel,
}

/// State and outcome after one node.
#[verifier::ext_equal]
pub struct ER {
    pub st: StateV,
    pub ctl: Ctl,
}

/// Outcome of evaluating a row of expressions.
#[verifier::ext_equal]
pub enum LOut {
    Vals(Seq<ObjV>),
    Halt(Ctl),
}

/// State and outcome after a row of expressions.
#[verifier::ext_equal]
pub struct LR {
    pub st: StateV,
    pub out: LOut,
}

/// Outcome of evaluating named expressions (struct-literal fields).
#[verifier::ext_equal]
pub enum NOut {
    Vals(Seq<(Seq<char>, ObjV)>),
    Halt(Ctl),
}

/// State and outcome after named expressions.
#[verifier::ext_equal]
pub struct NR {
    pub st: StateV,
    pub out: NOut,
}

/// Outcome of resolving an assignment target.
#[verifier::ext_equal]
pub enum POut {
    Path(Seq<char>, Seq<AccV>),
    NoPath,
    Halt(Ctl),
}

/// State and outcome after resolving an assignment target.
#[verifier::ext_equal]
pub struct PR {
    pub st: StateV,
    pub out: POut,
}

/// One step of an l-value path: a numeric index or a field name.
pub enum Acc {
    Idx(usize),
    Fld(Vec<char>),
}

/// The model of one path step.
#[verifier::ext_equal]
pub enum AccV {
    Idx(int),
    Fld(Seq<char>),
}

/// The models of a path.
pub open spec fn accs_v(s: Seq<Acc>) -> Seq<AccV>
    decreases s,
{
    if s.len() == 0 {
        Seq::empty()
    } else {
        accs_v(s.drop_last()).push(match s.last() {
            Acc::Idx(i) => AccV::Idx(i as int),
            Acc::Fld(n) => AccV::Fld(n@),
        })
    }
}

/// `accs_v` maps the path elementwise.
pub broadcast proof fn lemma_accs_v(s: Seq<Acc>)
    ensures
        (#[trigger] accs_v(s)).len() == s.len(),
        forall|i: int| 0 <= i < s.len() ==> accs_v(s)[i] == (match s[i] {
            Acc::Idx(n) => AccV::Idx(n as int),
            Acc::Fld(n) => AccV::Fld(n@),
        }),
    decreases s,
{
    if s.len() > 0 {
        lemma_accs_v(s.drop_last());
    }
}

/// Writes `val` at the place a path designates inside a value. A path
/// step that does not fit the value it meets (an index out of a list's
/// range, a missing field, anything else) leaves the value unchanged; a
/// final index into a string splices as indexed string assignment does.
pub open spec fn set_in_v(o: ObjV, accs: Seq<AccV>, i: int, val: ObjV) -> ObjV
    decreases accs.len() - i,
{
    if i < 0 || i >= accs.len() {
        val
    } else {
        match accs[i] {
            AccV::Idx(n) => match o {
                ObjV::List(items) => if 0 <= n < items.len() {
                    ObjV::List(items.update(n, set_in_v(items[n], accs, i + 1, val)))
                } else {
                    o
                },
                ObjV::Str(_) => if i == accs.len() - 1 {
                    set_index_v(o, n, val)
                } else {
                    o
                },
                _ => o,
            },
            AccV::Fld(name) => match o {
                ObjV::Instance { struct_def, fields } => match assoc_get_v(fields, name) {
                    Option::Some(cur) => ObjV::Instance {
                        struct_def,
                        fields: assoc_set_v(fields, name, set_in_v(cur, accs, i + 1, val)),
                    },
                    Option::None => o,
                },
                ObjV::NameSpace { name: nsname, namespace } => match assoc_get_v(
                    namespace,
                    name,
                ) {
                    Option::Some(cur) => ObjV::NameSpace {
                        name: nsname,
                        namespace: assoc_set_v(
                            namespace,
                            name,
                            set_in_v(cur, accs, i + 1, val),
                        ),
                    },
                    Option::None => o,
                },
                _ => o,
            },
        }
    }
}

/// Reads the place a path designates inside a value: `None` when a step
/// does not fit.
pub open spec fn get_at_v(o: ObjV, accs: Seq<AccV>, i: int) -> Option<ObjV>
    decreases accs.len() - i,
{
    if i < 0 || i >= accs.len() {
        Option::Some(o)
    } else {
        match accs[i] {
            AccV::Idx(n) => match o {
                ObjV::List(items) => if 0 <= n < items.len() {
                    get_at_v(items[n], accs, i + 1)
                } else {
                    Option::None
                },
                _ => Option::None,
            },
            AccV::Fld(name) => match o {
                ObjV::Instance { fields, .. } => match assoc_get_v(fields, name) {
                    Option::Some(cur) => get_at_v(cur, accs, i + 1),
                    Option::None => Option::None,
                },
                ObjV::NameSpace { namespace, .. } => match assoc_get_v(namespace, name) {
                    Option::Some(cur) => get_at_v(cur, accs, i + 1),
                    Option::None => Option::None,
                },
                _ => Option::None,
            },
        }
    }
}

/// Writes through a resolved l-value: replaces, in the topmost frame
/// holding the root name, the value reached through the path. `None`
/// when no frame holds the root.
pub open spec fn update_slot_v(scopes: ScopesV, root: Seq<char>, accs: Seq<AccV>, val: ObjV)
    -> Option<ScopesV>
    decreases scopes.len(),
{
    if scopes.len() == 0 {
        Option::None
    } else {
        match assoc_get_v(scopes.last(), root) {
            Option::Some(cur) => Option::Some(
                scopes.update(
                    scopes.len() - 1,
                    assoc_set_v(scopes.last(), root, set_in_v(cur, accs, 0, val)),
                ),
            ),
            Option::None => match update_slot_v(scopes.drop_last(), root, accs, val) {
                Option::Some(below) => Option::Some(below.push(scopes.last())),
                Option::None => Option::None,
            },
        }
    }
}

/// Reads through a resolved l-value, from the topmost frame holding the
/// root name.
pub open spec fn read_slot_v(scopes: ScopesV, root: Seq<char>, accs: Seq<AccV>)
    -> Option<ObjV> {
    match lookup_v(scopes, root) {
        Option::Some(cur) => get_at_v(cur, accs, 0),
        Option::None => Option::None,
    }
}

/// The process exit code an argument row demands: a number gives its
/// truncation and `Null` gives 0; a missing first argument, or any other
/// value, gives -1.
pub open spec fn exit_code_v(vals: Seq<ObjV>) -> int {
    if vals.len() == 0 {
        -1
    } else {
        match vals[0] {
            ObjV::Null => 0,
            ObjV::Num(b) => to_i32_v(b) as int,
            _ => -1,
        }
    }
}

/// The name `self`, bound in method frames.
pub open spec fn self_name_v() -> Seq<char> {
    seq!['s', 'e', 'l', 'f']
}

/// Binds parameters in order into a fresh frame: the i-th parameter takes
/// the i-th supplied value, or its default.
pub open spec fn bind_params_v(params: Seq<(Seq<char>, ObjV)>, vals: Seq<ObjV>) -> FrameV
    decreases params.len(),
{
    if params.len() == 0 {
        Seq::empty()
    } else {
        let prev = bind_params_v(params.drop_last(), vals);
        let i = params.len() - 1;
        let v = if i < vals.len() {
            vals[i]
        } else {
            params[i].1
        };
        assoc_set_v(prev, params[i].0, v)
    }
}

/// Splices every binding of a namespace into a frame, in order.
pub open spec fn splice_v(frame: FrameV, binds: Seq<(Seq<char>, ObjV)>) -> FrameV
    decreases binds.len(),
{
    if binds.len() == 0 {
        frame
    } else {
        assoc_set_v(splice_v(frame, binds.drop_last()), binds.last().0, binds.last().1)
    }
}

/// Overlays supplied fields onto a copy of the defaults, in source order.
pub open spec fn overlay_v(defaults: FrameV, supplied: Seq<(Seq<char>, ObjV)>) -> FrameV
    decreases supplied.len(),
{
    if supplied.len() == 0 {
        defaults
    } else {
        assoc_set_v(
            overlay_v(defaults, supplied.drop_last()),
            supplied.last().0,
            supplied.last().1,
        )
    }
}

/// The display texts of a row of values, in order.
pub open spec fn displays_v(vals: Seq<ObjV>) -> Seq<Seq<char>> {
    Seq::new(vals.len(), |i: int| display_v(vals[i]))
}

/// The items a `for` loop draws from a value: the integers of a range,
/// the characters of a string as one-character strings, the elements of
/// a list; anything else yields no items and `Null`.
pub open spec fn for_items_v(o: ObjV) -> Option<Seq<ObjV>> {
    match o {
        ObjV::Range(s, e) => {
            let lo = to_i32_v(s) as int;
            let hi = to_i32_v(e) as int;
            let n = if hi >= lo {
                (hi - lo) as nat
            } else {
                0
            };
            Option::Some(Seq::new(n, |k: int| ObjV::Num(bits_of_int(((lo + k) as i64)))))
        },
        ObjV::Str(s) => Option::Some(Seq::new(s.len(), |k: int| ObjV::Str(seq![s[k]]))),
        ObjV::List(items) => Option::Some(items),
        _ => Option::None,
    }
}

/// The value a member-push adds: lists take the value itself; strings
/// append its text coercion.
pub open spec fn push_to_v(target: ObjV, val: ObjV) -> ObjV {
    match target {
        ObjV::List(items) => ObjV::List(items.push(val)),
        ObjV::Str(s) => ObjV::Str(s + to_chars_v(val)),
        _ => target,
    }
}

/// What a member-pop removes and yields: the last element or character,
/// or `Null` when there is nothing to pop.
pub open spec fn pop_from_v(target: ObjV) -> (ObjV, ObjV) {
    match target {
        ObjV::List(items) => if items.len() > 0 {
            (ObjV::List(items.drop_last()), items.last())
        } else {
            (target, ObjV::Null)
        },
        ObjV::Str(s) => if s.len() > 0 {
            (ObjV::Str(s.drop_last()), ObjV::Str(seq![s.last()]))
        } else {
            (target, ObjV::Null)
        },
        _ => (target, ObjV::Null),
    }
}

/// The built-in member names `len`, `push`, `pop`.
pub open spec fn len_name_v() -> Seq<char> {
    seq!['l', 'e', 'n']
}

pub open spec fn push_name_v() -> Seq<char> {
    seq!['p', 'u', 's', 'h']
}

pub open spec fn pop_name_v() -> Seq<char> {
    seq!['p', 'o', 'p']
}

/// The standard-library file suffix.
pub open spec fn iok_ext_v() -> Seq<char> {
    seq!['.', 'i', 'o', 'k']
}

/// A path separator.
pub open spec fn slash_v() -> Seq<char> {
    seq!['/']
}

/// The file a non-dotted import names: a string is taken relative to the
/// importing file's directory; a bare name names a standard-library
/// module file.
pub open spec fn import_path_v(ctx: CtxV, path: Tree) -> Option<Seq<char>> {
    match path {
        Tree::Str(p) => Option::Some(ctx.current_path + slash_v() + p@),
        Tree::Ident(lib) => Option::Some(ctx.std_path + slash_v() + lib@ + iok_ext_v()),
        _ => Option::None,
    }
}

/// A dotted import path flattened to its segments, left to right;
/// `None` when a member is not a plain name.
pub open spec fn flat_path_v(t: Tree) -> Option<Seq<Seq<char>>>
    decreases t,
{
    match t {
        Tree::Ident(name) => Option::Some(seq![name@]),
        Tree::MemberAccess { target, member } => match (flat_path_v(*target), *member) {
            (Option::Some(parts), Tree::Ident(m)) => Option::Some(parts.push(m@)),
            _ => Option::None,
        },
        _ => Option::None,
    }
}

/// Looks a resolved path up in the module table.
pub open spec fn find_module_v(mods: Seq<(Seq<char>, ModV)>, path: Seq<char>)
    -> Option<ModV>
    decreases mods.len(),
{
    if mods.len() == 0 {
        Option::None
    } else if mods[0].0 == path {
        Option::Some(mods[0].1)
    } else {
        find_module_v(mods.drop_first(), path)
    }
}

/// Walks the trailing segments of a dotted import through nested
/// namespaces; `None` when an intermediate segment is missing or not a
/// namespace.
pub open spec fn walk_segments_v(ns: Seq<(Seq<char>, ObjV)>, parts: Seq<Seq<char>>, i: int)
    -> Option<ObjV>
    decreases parts.len() - i,
{
    if i < 1 || i >= parts.len() {
        Option::None
    } else {
        match assoc_get_v(ns, parts[i]) {
            Option::Some(v) => if i == parts.len() - 1 {
                Option::Some(v)
            } else {
                match v {
                    ObjV::NameSpace { namespace, .. } => walk_segments_v(
                        namespace,
                        parts,
                        i + 1,
                    ),
                    _ => Option::None,
                }
            },
            Option::None => Option::None,
        }
    }
}

/// Declares every binding of a namespace in the current top frame, in
/// order (an unaliased import).
pub open spec fn merge_into_scope_v(scopes: ScopesV, binds: Seq<(Seq<char>, ObjV)>)
    -> ScopesV
    decreases binds.len(),
{
    if binds.len() == 0 {
        scopes
    } else {
        declare_v(
            merge_into_scope_v(scopes, binds.drop_last()),
            binds.last().0,
            binds.last().1,
        )
    }
}

} // verus!

verus! {

/// What evaluating one node means. The budget `fuel` bounds the depth of
/// function calls, the iterations of `while` loops and the nesting of
/// imports; exhaustion surfaces as `Ctl::OutOfFuel`.
pub open spec fn eval_spec(ctx: CtxV, st: StateV, t: Tree, fuel: nat) -> ER
    decreases fuel, t, 2int, 0int,
{
    match t {
        Tree::Empty => ER { st, ctl: Ctl::Val(ObjV::Null) },
        Tree::Number(b) => ER { st, ctl: Ctl::Val(ObjV::Num(b)) },
        Tree::Bool(b) => ER { st, ctl: Ctl::Val(ObjV::Bool(b)) },
        Tree::Str(s) => ER { st, ctl: Ctl::Val(ObjV::Str(s@)) },
        Tree::Ident(name) => ER {
            st,
            ctl: Ctl::Val(match lookup_v(st.scopes, name@) {
                Option::Some(v) => v,
                Option::None => ObjV::Null,
            }),
        },
        Tree::List(items) => {
            let lr = eval_args_spec(ctx, st, items@, 0, items@.len() as int, fuel);
            match lr.out {
                LOut::Vals(vals) => ER { st: lr.st, ctl: Ctl::Val(ObjV::List(vals)) },
                LOut::Halt(c) => ER { st: lr.st, ctl: c },
            }
        },
        Tree::Range(start, end) => {
            let er1 = eval_spec(ctx, st, *start, fuel);
            match er1.ctl {
                Ctl::Val(sv) => {
                    let er2 = eval_spec(ctx, er1.st, *end, fuel);
                    match er2.ctl {
                        Ctl::Val(ev) => ER {
                            st: er2.st,
                            ctl: Ctl::Val(match (sv, ev) {
                                (ObjV::Num(a), ObjV::Num(b)) => ObjV::Range(a, b),
                                _ => ObjV::Invalid,
                            }),
                        },
                        _ => er2,
                    }
                },
                _ => er1,
            }
        },
        Tree::ListCall(target, index) => {
            let er1 = eval_spec(ctx, st, *target, fuel);
            match er1.ctl {
                Ctl::Val(tv) => {
                    let er2 = eval_spec(ctx, er1.st, *index, fuel);
                    match er2.ctl {
                        Ctl::Val(iv) => {
                            let n = to_count_v(match to_num_v(iv) {
                                ObjV::Num(b) => b,
                                _ => 0,
                            });
                            ER { st: er2.st, ctl: Ctl::Val(index_of_v(tv, n)) }
                        },
                        _ => er2,
                    }
                },
                _ => er1,
            }
        },
        Tree::Ret(expr) => {
            let er = eval_spec(ctx, st, *expr, fuel);
            match er.ctl {
                Ctl::Val(v) => ER { st: er.st, ctl: Ctl::Val(ObjV::Ret(Box::new(v))) },
                _ => er,
            }
        },
        Tree::BinOp(left, op, right) => {
            let er1 = eval_spec(ctx, st, *left, fuel);
            match er1.ctl {
                Ctl::Val(lv) => {
                    let er2 = eval_spec(ctx, er1.st, *right, fuel);
                    match er2.ctl {
                        Ctl::Val(rv) => ER {
                            st: er2.st,
                            ctl: Ctl::Val(bin_op_v(op, lv, rv)),
                        },
                        _ => er2,
                    }
                },
                _ => er1,
            }
        },
        Tree::CmpOp(left, op, right) => {
            let er1 = eval_spec(ctx, st, *left, fuel);
            match er1.ctl {
                Ctl::Val(lv) => {
                    let er2 = eval_spec(ctx, er1.st, *right, fuel);
                    match er2.ctl {
                        Ctl::Val(rv) => ER {
                            st: er2.st,
                            ctl: Ctl::Val(cmp_op_v(op, lv, rv)),
                        },
                        _ => er2,
                    }
                },
                _ => er1,
            }
        },
        Tree::Let(name, value) => {
            let er = eval_spec(ctx, st, *value, fuel);
            match er.ctl {
                Ctl::Val(v) => {
                    let bound = match v {
                        ObjV::Ret(inner) => *inner,
                        _ => v,
                    };
                    ER {
                        st: StateV {
                            scopes: declare_v(er.st.scopes, name@, bound),
                            ..er.st
                        },
                        ctl: Ctl::Val(ObjV::Null),
                    }
                },
                _ => er,
            }
        },
        Tree::Assign(target, value) => {
            let er = eval_spec(ctx, st, *value, fuel);
            match er.ctl {
                Ctl::Val(v0) => {
                    let v = match v0 {
                        ObjV::Ret(inner) => *inner,
                        _ => v0,
                    };
                    match *target {
                        Tree::Ident(name) => match assign_v(er.st.scopes, name@, v) {
                            Option::Some(ns) => ER {
                                st: StateV { scopes: ns, ..er.st },
                                ctl: Ctl::Val(v),
                            },
                            Option::None => ER { st: er.st, ctl: Ctl::Val(ObjV::Invalid) },
                        },
                        Tree::ListCall(_, _) | Tree::MemberAccess { .. } => {
                            let pr = resolve_path_spec(ctx, er.st, *target, fuel);
                            match pr.out {
                                POut::Path(root, accs) => match update_slot_v(
                                    pr.st.scopes,
                                    root,
                                    accs,
                                    v,
                                ) {
                                    Option::Some(ns) => ER {
                                        st: StateV { scopes: ns, ..pr.st },
                                        ctl: Ctl::Val(v),
                                    },
                                    Option::None => ER {
                                        st: pr.st,
                                        ctl: Ctl::Val(ObjV::Invalid),
                                    },
                                },
                                POut::NoPath => ER {
                                    st: pr.st,
                                    ctl: Ctl::Val(ObjV::Invalid),
                                },
                                POut::Halt(c) => ER { st: pr.st, ctl: c },
                            }
                        },
                        _ => ER { st: er.st, ctl: Ctl::Val(v) },
                    }
                },
                _ => er,
            }
        },
        Tree::If { expr, body, els, els_ifs } => {
            let st0 = StateV { scopes: st.scopes.push(Seq::empty()), ..st };
            let erc = eval_spec(ctx, st0, *expr, fuel);
            let er = match erc.ctl {
                Ctl::Val(cv) => if truthy_v(cv) {
                    eval_block_spec(ctx, erc.st, body@, fuel)
                } else {
                    eval_elsifs_spec(ctx, erc.st, t, 0, fuel)
                },
                _ => erc,
            };
            match er.ctl {
                Ctl::Val(_) => ER { st: pop_scope_v(er.st), ctl: er.ctl },
                _ => er,
            }
        },
        Tree::ElsIf { .. } => ER { st, ctl: Ctl::Val(ObjV::Null) },
        Tree::While { .. } => {
            let st0 = StateV { scopes: st.scopes.push(Seq::empty()), ..st };
            let er = eval_while_spec(ctx, st0, t, fuel);
            match er.ctl {
                Ctl::Val(_) => ER { st: pop_scope_v(er.st), ctl: er.ctl },
                _ => er,
            }
        },
        Tree::For { var: _, expr, body: _ } => {
            let ere = eval_spec(ctx, st, *expr, fuel);
            match ere.ctl {
                Ctl::Val(src) => match for_items_v(src) {
                    Option::Some(items) => {
                        let st0 = StateV {
                            scopes: ere.st.scopes.push(Seq::empty()),
                            ..ere.st
                        };
                        let er = eval_for_spec(ctx, st0, t, items, 0, fuel);
                        match er.ctl {
                            Ctl::Val(_) => ER { st: pop_scope_v(er.st), ctl: er.ctl },
                            _ => er,
                        }
                    },
                    Option::None => ER { st: ere.st, ctl: Ctl::Val(ObjV::Null) },
                },
                _ => ere,
            }
        },
        Tree::Fn { name, args: _, body } => {
            let pr = eval_params_spec(ctx, st, t, 0, fuel);
            match pr.out {
                NOut::Vals(params) => if params.len() == (match t {
                    Tree::Fn { args, .. } => args@.len(),
                    _ => 0,
                }) {
                    let f = ObjV::Fn { name: name@, args: params, body: (*body)@ };
                    ER {
                        st: StateV {
                            scopes: declare_v(pr.st.scopes, name@, f),
                            ..pr.st
                        },
                        ctl: Ctl::Val(f),
                    }
                } else {
                    ER { st: pr.st, ctl: Ctl::Val(ObjV::Invalid) }
                },
                NOut::Halt(c) => ER { st: pr.st, ctl: c },
            }
        },
        Tree::FnCall { name, args } => {
            match lookup_v(st.scopes, name@) {
                Option::Some(f) => eval_call_spec(ctx, st, f, args@, Option::None, fuel),
                Option::None => ER { st, ctl: Ctl::Val(ObjV::Null) },
            }
        },
        Tree::MemberAccess { target, member } => {
            let ert = eval_spec(ctx, st, *target, fuel);
            match ert.ctl {
                Ctl::Val(tv) => match *member {
                    Tree::Ident(fname) => ER {
                        st: ert.st,
                        ctl: Ctl::Val(match field_of_v(tv, fname@) {
                            Option::Some(v) => v,
                            Option::None => ObjV::Null,
                        }),
                    },
                    Tree::FnCall { .. } => eval_member_call_spec(ctx, ert.st, t, tv, fuel),
                    _ => ER { st: ert.st, ctl: Ctl::Val(ObjV::Null) },
                },
                _ => ert,
            }
        },
        Tree::StructDef { name, .. } => {
            let fr = eval_fields_spec(ctx, st, t, 0, fuel);
            match fr.out {
                NOut::Vals(defaults) => {
                    let mr = eval_methods_spec(ctx, fr.st, t, 0, fuel);
                    match mr.out {
                        NOut::Vals(methods) => {
                            let def = ObjV::StructDef {
                                name: name@,
                                fields: defaults,
                                methods,
                            };
                            ER {
                                st: StateV {
                                    scopes: declare_v(mr.st.scopes, name@, def),
                                    ..mr.st
                                },
                                ctl: Ctl::Val(def),
                            }
                        },
                        NOut::Halt(c) => ER { st: mr.st, ctl: c },
                    }
                },
                NOut::Halt(c) => ER { st: fr.st, ctl: c },
            }
        },
        Tree::StructInit { name, fields } => {
            match lookup_v(st.scopes, name@) {
                Option::Some(ObjV::StructDef { name: dn, fields: df, methods: dm }) => {
                    let nr = eval_named_spec(ctx, st, fields@, 0, fuel);
                    match nr.out {
                        NOut::Vals(supplied) => ER {
                            st: nr.st,
                            ctl: Ctl::Val(ObjV::Instance {
                                struct_def: Box::new(ObjV::StructDef {
                                    name: dn,
                                    fields: df,
                                    methods: dm,
                                }),
                                fields: overlay_v(df, supplied),
                            }),
                        },
                        NOut::Halt(c) => ER { st: nr.st, ctl: c },
                    }
                },
                Option::Some(_) => ER { st, ctl: Ctl::Val(ObjV::Null) },
                Option::None => ER { st, ctl: Ctl::Val(ObjV::Null) },
            }
        },
        Tree::Exit(expr) => {
            let er = eval_spec(ctx, st, *expr, fuel);
            match er.ctl {
                Ctl::Val(v) => ER { st: er.st, ctl: Ctl::Exit(exit_code_v(seq![v])) },
                _ => er,
            }
        },
        Tree::Write(expr) => {
            let er = eval_spec(ctx, st, *expr, fuel);
            match er.ctl {
                Ctl::Val(v) => ER {
                    st: StateV { output: er.st.output.push(display_v(v)), ..er.st },
                    ctl: Ctl::Val(ObjV::Null),
                },
                _ => er,
            }
        },
        Tree::Import { path, alias } => eval_import_spec(ctx, st, t, fuel),
    }
}

/// The state with the top frame popped (empty stacks stay empty).
pub open spec fn pop_scope_v(st: StateV) -> StateV {
    if st.scopes.len() > 0 {
        StateV { scopes: st.scopes.drop_last(), ..st }
    } else {
        st
    }
}

/// Evaluates `ts[i..m]` in order, collecting the values.
pub open spec fn eval_args_spec(ctx: CtxV, st: StateV, ts: Seq<Tree>, i: int, m: int,
    fuel: nat) -> LR
    decreases fuel, ts, 0int, m - i,
{
    if i < 0 || i >= m || i >= ts.len() {
        LR { st, out: LOut::Vals(Seq::empty()) }
    } else {
        let er = eval_spec(ctx, st, ts[i], fuel);
        match er.ctl {
            Ctl::Val(v) => {
                let lr = eval_args_spec(ctx, er.st, ts, i + 1, m, fuel);
                match lr.out {
                    LOut::Vals(rest) => LR {
                        st: lr.st,
                        out: LOut::Vals(seq![v] + rest),
                    },
                    LOut::Halt(_) => lr,
                }
            },
            _ => LR { st: er.st, out: LOut::Halt(er.ctl) },
        }
    }
}

/// Evaluates a block: statements in order, stopping at the first
/// `Ret` sentinel, which propagates; the block's value is the last
/// statement's (or `Null` for an empty block).
pub open spec fn eval_block_spec(ctx: CtxV, st: StateV, ts: Seq<Tree>, fuel: nat) -> ER
    decreases fuel, ts, 0int, 0int,
{
    if ts.len() == 0 {
        ER { st, ctl: Ctl::Val(ObjV::Null) }
    } else {
        let er = eval_spec(ctx, st, ts[0], fuel);
        match er.ctl {
            Ctl::Val(v) => if v matches ObjV::Ret(_) {
                er
            } else if ts.len() == 1 {
                er
            } else {
                eval_block_spec(ctx, er.st, ts.drop_first(), fuel)
            },
            _ => er,
        }
    }
}

/// Runs the remaining top-level statements of a module: all of them, in
/// order; a top-level `Ret` value does not stop the run.
pub open spec fn eval_program_spec(ctx: CtxV, st: StateV, ts: Seq<Tree>, i: int, fuel: nat)
    -> ER
    decreases fuel, ts, 0int, ts.len() - i,
{
    if i < 0 || i >= ts.len() {
        ER { st, ctl: Ctl::Val(ObjV::Null) }
    } else {
        let er = eval_spec(ctx, st, ts[i], fuel);
        match er.ctl {
            Ctl::Val(_) => eval_program_spec(ctx, er.st, ts, i + 1, fuel),
            _ => er,
        }
    }
}

/// Tries the `elsif` branches of an `if` in order, then the `els` body.
pub open spec fn eval_elsifs_spec(ctx: CtxV, st: StateV, t: Tree, i: int, fuel: nat) -> ER
    decreases fuel, t, 1int, (match t {
        Tree::If { els_ifs, .. } => els_ifs@.len() as int,
        _ => 0int,
    }) - i,
{
    match t {
        Tree::If { els_ifs, els, .. } => {
            if i < 0 || i >= els_ifs@.len() {
                eval_block_spec(ctx, st, els@, fuel)
            } else {
                match els_ifs@[i] {
                    Tree::ElsIf { expr, body } => {
                        let erc = eval_spec(ctx, st, *expr, fuel);
                        match erc.ctl {
                            Ctl::Val(cv) => if truthy_v(cv) {
                                eval_block_spec(ctx, erc.st, body@, fuel)
                            } else {
                                eval_elsifs_spec(ctx, erc.st, t, i + 1, fuel)
                            },
                            _ => erc,
                        }
                    },
                    _ => eval_elsifs_spec(ctx, st, t, i + 1, fuel),
                }
            }
        },
        _ => ER { st, ctl: Ctl::Val(ObjV::Null) },
    }
}

/// One `while` loop, inside its own frame: re-evaluates the condition
/// before each iteration; a `Ret` from the body propagates; each
/// iteration costs one unit of budget.
pub open spec fn eval_while_spec(ctx: CtxV, st: StateV, t: Tree, fuel: nat) -> ER
    decreases fuel, t, 1int, 0int,
{
    match t {
        Tree::While { expr, body } => {
            let erc = eval_spec(ctx, st, *expr, fuel);
            match erc.ctl {
                Ctl::Val(cv) => if !truthy_v(cv) {
                    ER { st: erc.st, ctl: Ctl::Val(ObjV::Null) }
                } else {
                    let erb = eval_block_spec(ctx, erc.st, body@, fuel);
                    match erb.ctl {
                        Ctl::Val(v) => if v matches ObjV::Ret(_) {
                            erb
                        } else if fuel == 0 {
                            ER { st: erb.st, ctl: Ctl::OutOfFuel }
                        } else {
                            eval_while_spec(ctx, erb.st, t, (fuel - 1) as nat)
                        },
                        _ => erb,
                    }
                },
                _ => erc,
            }
        },
        _ => ER { st, ctl: Ctl::Val(ObjV::Null) },
    }
}

/// One `for` loop, inside its own frame: binds the variable to each item
/// in turn; a `Ret` from the body propagates.
pub open spec fn eval_for_spec(ctx: CtxV, st: StateV, t: Tree, items: Seq<ObjV>, i: int,
    fuel: nat) -> ER
    decreases fuel, t, 1int, items.len() - i,
{
    match t {
        Tree::For { var, expr: _, body } => {
            if i < 0 || i >= items.len() {
                ER { st, ctl: Ctl::Val(ObjV::Null) }
            } else {
                let st1 = StateV { scopes: declare_v(st.scopes, var@, items[i]), ..st };
                let erb = eval_block_spec(ctx, st1, body@, fuel);
                match erb.ctl {
                    Ctl::Val(v) => if v matches ObjV::Ret(_) {
                        erb
                    } else {
                        eval_for_spec(ctx, erb.st, t, items, i + 1, fuel)
                    },
                    _ => erb,
                }
            }
        },
        _ => ER { st, ctl: Ctl::Val(ObjV::Null) },
    }
}

/// Extracts a function declaration's parameters, evaluating default
/// expressions now, in order. A parameter that is neither a plain name
/// nor `name = expr` is dropped (the caller then refuses the whole
/// declaration).
pub open spec fn eval_params_spec(ctx: CtxV, st: StateV, t: Tree, i: int, fuel: nat) -> NR
    decreases fuel, t, 1int, (match t {
        Tree::Fn { args, .. } => args@.len() as int,
        _ => 0int,
    }) - i,
{
    match t {
        Tree::Fn { args, .. } => {
            if i < 0 || i >= args@.len() {
                NR { st, out: NOut::Vals(Seq::empty()) }
            } else {
                match args@[i] {
                    Tree::Ident(pname) => {
                        let nr = eval_params_spec(ctx, st, t, i + 1, fuel);
                        match nr.out {
                            NOut::Vals(rest) => NR {
                                st: nr.st,
                                out: NOut::Vals(seq![(pname@, ObjV::Null)] + rest),
                            },
                            NOut::Halt(_) => nr,
                        }
                    },
                    Tree::Assign(pvar, pdefault) => match *pvar {
                        Tree::Ident(pname) => {
                            let er = eval_spec(ctx, st, *pdefault, fuel);
                            match er.ctl {
                                Ctl::Val(dv) => {
                                    let nr = eval_params_spec(ctx, er.st, t, i + 1, fuel);
                                    match nr.out {
                                        NOut::Vals(rest) => NR {
                                            st: nr.st,
                                            out: NOut::Vals(seq![(pname@, dv)] + rest),
                                        },
                                        NOut::Halt(_) => nr,
                                    }
                                },
                                _ => NR { st: er.st, out: NOut::Halt(er.ctl) },
                            }
                        },
                        _ => eval_params_spec(ctx, st, t, i + 1, fuel),
                    },
                    _ => eval_params_spec(ctx, st, t, i + 1, fuel),
                }
            }
        },
        _ => NR { st, out: NOut::Vals(Seq::empty()) },
    }
}

/// Evaluates a struct declaration's field initializers, in order.
pub open spec fn eval_fields_spec(ctx: CtxV, st: StateV, t: Tree, i: int, fuel: nat) -> NR
    decreases fuel, t, 1int, (match t {
        Tree::StructDef { fields, .. } => fields@.len() as int,
        _ => 0int,
    }) - i,
{
    match t {
        Tree::StructDef { fields, .. } => {
            if i < 0 || i >= fields@.len() {
                NR { st, out: NOut::Vals(Seq::empty()) }
            } else {
                match fields@[i] {
                    Tree::Let(fname, fvalue) => {
                        let er = eval_spec(ctx, st, *fvalue, fuel);
                        match er.ctl {
                            Ctl::Val(v) => {
                                let nr = eval_fields_spec(ctx, er.st, t, i + 1, fuel);
                                match nr.out {
                                    NOut::Vals(rest) => NR {
                                        st: nr.st,
                                        out: NOut::Vals(seq![(fname@, v)] + rest),
                                    },
                                    NOut::Halt(_) => nr,
                                }
                            },
                            _ => NR { st: er.st, out: NOut::Halt(er.ctl) },
                        }
                    },
                    _ => eval_fields_spec(ctx, st, t, i + 1, fuel),
                }
            }
        },
        _ => NR { st, out: NOut::Vals(Seq::empty()) },
    }
}

/// Evaluates a struct declaration's methods, in order; each method node
/// is evaluated as a declaration (it also binds the method's name in the
/// surrounding scope) and its value recorded in the method table.
pub open spec fn eval_methods_spec(ctx: CtxV, st: StateV, t: Tree, i: int, fuel: nat) -> NR
    decreases fuel, t, 1int, (match t {
        Tree::StructDef { methods, .. } => methods@.len() as int,
        _ => 0int,
    }) - i,
{
    match t {
        Tree::StructDef { methods, .. } => {
            if i < 0 || i >= methods@.len() {
                NR { st, out: NOut::Vals(Seq::empty()) }
            } else {
                match methods@[i] {
                    Tree::Fn { name: mname, .. } => {
                        let er = eval_spec(ctx, st, methods@[i], fuel);
                        match er.ctl {
                            Ctl::Val(v) => {
                                let nr = eval_methods_spec(ctx, er.st, t, i + 1, fuel);
                                match nr.out {
                                    NOut::Vals(rest) => NR {
                                        st: nr.st,
                                        out: NOut::Vals(seq![(mname@, v)] + rest),
                                    },
                                    NOut::Halt(_) => nr,
                                }
                            },
                            _ => NR { st: er.st, out: NOut::Halt(er.ctl) },
                        }
                    },
                    _ => eval_methods_spec(ctx, st, t, i + 1, fuel),
                }
            }
        },
        _ => NR { st, out: NOut::Vals(Seq::empty()) },
    }
}

/// Evaluates a struct literal's supplied fields, in source order.
pub open spec fn eval_named_spec(ctx: CtxV, st: StateV, fs: Seq<(Vec<char>, Tree)>, i: int,
    fuel: nat) -> NR
    decreases fuel, fs, 1int, fs.len() - i,
{
    if i < 0 || i >= fs.len() {
        NR { st, out: NOut::Vals(Seq::empty()) }
    } else {
        let er = eval_spec(ctx, st, fs[i].1, fuel);
        match er.ctl {
            Ctl::Val(v) => {
                let nr = eval_named_spec(ctx, er.st, fs, i + 1, fuel);
                match nr.out {
                    NOut::Vals(rest) => NR {
                        st: nr.st,
                        out: NOut::Vals(seq![(fs[i].0@, v)] + rest),
                    },
                    NOut::Halt(_) => nr,
                }
            },
            _ => NR { st: er.st, out: NOut::Halt(er.ctl) },
        }
    }
}

/// Resolves an assignment target to a root name and a path of steps,
/// evaluating index expressions along the way (indices of an outer
/// access before the inner target, as the syntax nests them).
pub open spec fn resolve_path_spec(ctx: CtxV, st: StateV, t: Tree, fuel: nat) -> PR
    decreases fuel, t, 1int, 0int,
{
    match t {
        Tree::Ident(name) => PR { st, out: POut::Path(name@, Seq::empty()) },
        Tree::ListCall(target, index) => {
            let er = eval_spec(ctx, st, *index, fuel);
            match er.ctl {
                Ctl::Val(iv) => {
                    let n = to_count_v(match to_num_v(iv) {
                        ObjV::Num(b) => b,
                        _ => 0,
                    });
                    let pr = resolve_path_spec(ctx, er.st, *target, fuel);
                    match pr.out {
                        POut::Path(root, accs) => PR {
                            st: pr.st,
                            out: POut::Path(root, accs.push(AccV::Idx(n))),
                        },
                        _ => pr,
                    }
                },
                _ => PR { st: er.st, out: POut::Halt(er.ctl) },
            }
        },
        Tree::MemberAccess { target, member } => {
            let pr = resolve_path_spec(ctx, st, *target, fuel);
            match pr.out {
                POut::Path(root, accs) => match *member {
                    Tree::Ident(fname) => PR {
                        st: pr.st,
                        out: POut::Path(root, accs.push(AccV::Fld(fname@))),
                    },
                    _ => PR { st: pr.st, out: POut::NoPath },
                },
                _ => pr,
            }
        },
        _ => PR { st, out: POut::NoPath },
    }
}

/// Calls a callable value: binds arguments (supplied ones evaluated in
/// the caller's scope, the rest from precomputed defaults) plus `self`
/// or a namespace splice into one fresh frame, runs the body, pops the
/// frame, and unwraps a `Ret` sentinel; a body that never returns yields
/// `Null`. Natives receive their evaluated arguments directly.
/// Non-callable values yield `Null` without evaluating anything.
pub open spec fn eval_call_spec(ctx: CtxV, st: StateV, f: ObjV, args: Seq<Tree>,
    slf: Option<ObjV>, fuel: nat) -> ER
    decreases fuel, args, 1int, 0int,
{
    match f {
        ObjV::Fn { name: _, args: params, body } => {
            let m = if params.len() <= args.len() {
                params.len() as int
            } else {
                args.len() as int
            };
            let lr = eval_args_spec(ctx, st, args, 0, m, fuel);
            match lr.out {
                LOut::Vals(vals) => {
                    let frame0 = bind_params_v(params, vals);
                    let frame = match slf {
                        Option::Some(ObjV::NameSpace { namespace, .. }) => splice_v(
                            frame0,
                            namespace,
                        ),
                        Option::Some(obj) => assoc_set_v(frame0, self_name_v(), obj),
                        Option::None => frame0,
                    };
                    let st1 = StateV { scopes: lr.st.scopes.push(frame), ..lr.st };
                    if fuel == 0 {
                        ER { st: st1, ctl: Ctl::OutOfFuel }
                    } else {
                        let er = eval_block_spec(ctx, st1, body, (fuel - 1) as nat);
                        match er.ctl {
                            Ctl::Val(v) => ER {
                                st: pop_scope_v(er.st),
                                ctl: Ctl::Val(match v {
                                    ObjV::Ret(inner) => *inner,
                                    _ => ObjV::Null,
                                }),
                            },
                            _ => er,
                        }
                    }
                },
                LOut::Halt(c) => ER { st: lr.st, ctl: c },
            }
        },
        ObjV::NativeFn { name } => {
            let lr = eval_args_spec(ctx, st, args, 0, args.len() as int, fuel);
            match lr.out {
                LOut::Vals(vals) => {
                    if name == write_name_v() {
                        ER {
                            st: StateV {
                                output: lr.st.output + displays_v(vals),
                                ..lr.st
                            },
                            ctl: Ctl::Val(ObjV::Null),
                        }
                    } else if name == exit_name_v() {
                        ER { st: lr.st, ctl: Ctl::Exit(exit_code_v(vals)) }
                    } else if name == get_var_name_v() {
                        ER {
                            st: lr.st,
                            ctl: Ctl::Val(
                                if vals.len() > 0 {
                                    match vals[0] {
                                        ObjV::Str(nm) => match lookup_v(
                                            lr.st.scopes,
                                            nm,
                                        ) {
                                            Option::Some(v) => v,
                                            Option::None => ObjV::Null,
                                        },
                                        _ => ObjV::Null,
                                    }
                                } else {
                                    ObjV::Null
                                },
                            ),
                        }
                    } else {
                        ER { st: lr.st, ctl: Ctl::Val(ObjV::Null) }
                    }
                },
                LOut::Halt(c) => ER { st: lr.st, ctl: c },
            }
        },
        _ => ER { st, ctl: Ctl::Val(ObjV::Null) },
    }
}

/// The called member's name in `target.name(...)`.
pub open spec fn member_call_name_v(t: Tree) -> Seq<char> {
    match t {
        Tree::MemberAccess { member, .. } => match *member {
            Tree::FnCall { name, .. } => name@,
            _ => Seq::empty(),
        },
        _ => Seq::empty(),
    }
}

/// The called member's argument expressions in `target.name(...)`.
pub open spec fn member_call_args_v(t: Tree) -> Seq<Tree> {
    match t {
        Tree::MemberAccess { member, .. } => match *member {
            Tree::FnCall { args, .. } => args@,
            _ => Seq::empty(),
        },
        _ => Seq::empty(),
    }
}

/// A length as a signed machine integer, clamped at the top.
pub open spec fn len_i64_v(n: int) -> i64 {
    if n > i64::MAX {
        i64::MAX
    } else if n < 0 {
        0
    } else {
        n as i64
    }
}

/// A method-style call `target.name(...)`: `len`/`push`/`pop` are
/// built in for strings and lists (`push` and `pop` operate on the
/// l-value the target denotes); otherwise the method is resolved in the
/// target's struct definition or namespace and called with the target
/// bound. A missing method, or any other receiver, yields `Null`.
pub open spec fn eval_member_call_spec(ctx: CtxV, st: StateV, t: Tree, tv: ObjV,
    fuel: nat) -> ER
    decreases fuel, t, 1int, 0int,
{
    match t {
        Tree::MemberAccess { target, member } => match *member {
            Tree::FnCall { name: mname, args: margs } => match tv {
                ObjV::Str(_) | ObjV::List(_) => {
                    if mname@ == len_name_v() {
                        ER {
                            st,
                            ctl: Ctl::Val(ObjV::Num(bits_of_int(len_i64_v(len_of_v(tv))))),
                        }
                    } else if mname@ == push_name_v() {
                        if margs@.len() != 1 {
                            ER { st, ctl: Ctl::Val(ObjV::Null) }
                        } else {
                            let er = eval_spec(ctx, st, margs@[0], fuel);
                            match er.ctl {
                                Ctl::Val(v) => {
                                    let pr = resolve_path_spec(ctx, er.st, *target, fuel);
                                    match pr.out {
                                        POut::Path(root, accs) => match read_slot_v(
                                            pr.st.scopes,
                                            root,
                                            accs,
                                        ) {
                                            Option::Some(cur) => match update_slot_v(
                                                pr.st.scopes,
                                                root,
                                                accs,
                                                push_to_v(cur, v),
                                            ) {
                                                Option::Some(ns) => ER {
                                                    st: StateV { scopes: ns, ..pr.st },
                                                    ctl: Ctl::Val(ObjV::Null),
                                                },
                                                Option::None => ER {
                                                    st: pr.st,
                                                    ctl: Ctl::Val(ObjV::Null),
                                                },
                                            },
                                            Option::None => ER {
                                                st: pr.st,
                                                ctl: Ctl::Val(ObjV::Null),
                                            },
                                        },
                                        POut::NoPath => ER {
                                            st: pr.st,
                                            ctl: Ctl::Val(ObjV::Null),
                                        },
                                        POut::Halt(c) => ER { st: pr.st, ctl: c },
                                    }
                                },
                                _ => er,
                            }
                        }
                    } else if mname@ == pop_name_v() {
                        let pr = resolve_path_spec(ctx, st, *target, fuel);
                        match pr.out {
                            POut::Path(root, accs) => match read_slot_v(
                                pr.st.scopes,
                                root,
                                accs,
                            ) {
                                Option::Some(cur) => {
                                    let popped = pop_from_v(cur);
                                    match update_slot_v(
                                        pr.st.scopes,
                                        root,
                                        accs,
                                        popped.0,
                                    ) {
                                        Option::Some(ns) => ER {
                                            st: StateV { scopes: ns, ..pr.st },
                                            ctl: Ctl::Val(popped.1),
                                        },
                                        Option::None => ER {
                                            st: pr.st,
                                            ctl: Ctl::Val(ObjV::Null),
                                        },
                                    }
                                },
                                Option::None => ER {
                                    st: pr.st,
                                    ctl: Ctl::Val(ObjV::Null),
                                },
                            },
                            POut::NoPath => ER { st: pr.st, ctl: Ctl::Val(ObjV::Null) },
                            POut::Halt(c) => ER { st: pr.st, ctl: c },
                        }
                    } else {
                        ER { st, ctl: Ctl::Val(ObjV::Null) }
                    }
                },
                ObjV::Instance { struct_def, .. } => match *struct_def {
                    ObjV::StructDef { methods, .. } => match assoc_get_v(
                        methods,
                        mname@,
                    ) {
                        Option::Some(m) => eval_call_spec(
                            ctx,
                            st,
                            m,
                            margs@,
                            Option::Some(tv),
                            fuel,
                        ),
                        Option::None => ER { st, ctl: Ctl::Val(ObjV::Null) },
                    },
                    _ => ER { st, ctl: Ctl::Val(ObjV::Null) },
                },
                ObjV::StructDef { methods, .. } => match assoc_get_v(methods, mname@) {
                    Option::Some(m) => eval_call_spec(
                        ctx,
                        st,
                        m,
                        margs@,
                        Option::Some(tv),
                        fuel,
                    ),
                    Option::None => ER { st, ctl: Ctl::Val(ObjV::Null) },
                },
                ObjV::NameSpace { namespace, .. } => match assoc_get_v(
                    namespace,
                    mname@,
                ) {
                    Option::Some(m) => eval_call_spec(
                        ctx,
                        st,
                        m,
                        margs@,
                        Option::Some(tv),
                        fuel,
                    ),
                    Option::None => ER { st, ctl: Ctl::Val(ObjV::Null) },
                },
                _ => ER { st, ctl: Ctl::Val(ObjV::Null) },
            },
            _ => ER { st, ctl: Ctl::Val(ObjV::Null) },
        },
        _ => ER { st, ctl: Ctl::Val(ObjV::Null) },
    }
}

/// Loads a module for an import: runs its statements in a fresh
/// evaluator (base natives only, sharing the output stream and the
/// module table), and snapshots its base frame. Costs one unit of
/// budget. A path that is not in the module table yields `None`.
pub open spec fn eval_module_spec(ctx: CtxV, st: StateV, t: Tree, path: Seq<char>,
    fuel: nat) -> (StateV, Option<Result<FrameV, Ctl>>)
    decreases fuel, t, 0int, 0int,
{
    match find_module_v(ctx.modules, path) {
        Option::Some(m) => {
            if fuel == 0 {
                (st, Option::Some(Result::Err(Ctl::OutOfFuel)))
            } else {
                let subctx = CtxV {
                    current_path: m.dir,
                    std_path: ctx.std_path,
                    modules: ctx.modules,
                };
                let sub0 = StateV { scopes: seq![base_frame_v()], output: st.output };
                let er = eval_program_spec(subctx, sub0, m.program, 0, (fuel - 1) as nat);
                match er.ctl {
                    Ctl::Val(_) => {
                        let ns = if er.st.scopes.len() > 0 {
                            er.st.scopes[0]
                        } else {
                            Seq::empty()
                        };
                        (
                            StateV { scopes: st.scopes, output: er.st.output },
                            Option::Some(Result::Ok(ns)),
                        )
                    },
                    _ => (
                        StateV { scopes: st.scopes, output: er.st.output },
                        Option::Some(Result::Err(er.ctl)),
                    ),
                }
            }
        },
        Option::None => (st, Option::None),
    }
}

/// An import statement. A dotted path walks namespaces from a
/// standard-library root and binds the final value; a plain path loads
/// one file and either binds a namespace under the alias or merges every
/// binding into the current scope. A module missing from the table, a
/// malformed path, or a missing path segment is fatal: module errors are
/// not recoverable at the language level.
pub open spec fn eval_import_spec(ctx: CtxV, st: StateV, t: Tree, fuel: nat) -> ER
    decreases fuel, t, 1int, 0int,
{
    match t {
        Tree::Import { path, alias } => {
            if (*path) matches Tree::MemberAccess { .. } {
                match flat_path_v(*path) {
                    Option::Some(parts) => {
                        let root_path = ctx.std_path + slash_v() + parts[0] + iok_ext_v();
                        let loaded = eval_module_spec(ctx, st, t, root_path, fuel);
                        match loaded.1 {
                            Option::Some(Result::Ok(ns)) => {
                                let found = if parts.len() == 1 {
                                    Option::None
                                } else {
                                    walk_segments_v(ns, parts, 1)
                                };
                                match found {
                                    Option::Some(v) => {
                                        let bind_name = match alias {
                                            Option::Some(a) => a@,
                                            Option::None => parts.last(),
                                        };
                                        ER {
                                            st: StateV {
                                                scopes: declare_v(
                                                    loaded.0.scopes,
                                                    bind_name,
                                                    v,
                                                ),
                                                ..loaded.0
                                            },
                                            ctl: Ctl::Val(ObjV::Null),
                                        }
                                    },
                                    Option::None => ER { st: loaded.0, ctl: Ctl::Fatal },
                                }
                            },
                            Option::Some(Result::Err(c)) => ER { st: loaded.0, ctl: c },
                            Option::None => ER { st: loaded.0, ctl: Ctl::Fatal },
                        }
                    },
                    Option::None => ER { st, ctl: Ctl::Fatal },
                }
            } else {
                match import_path_v(ctx, *path) {
                    Option::Some(file) => {
                        let loaded = eval_module_spec(ctx, st, t, file, fuel);
                        match loaded.1 {
                            Option::Some(Result::Ok(ns)) => match alias {
                                Option::Some(a) => ER {
                                    st: StateV {
                                        scopes: declare_v(
                                            loaded.0.scopes,
                                            a@,
                                            ObjV::NameSpace { name: a@, namespace: ns },
                                        ),
                                        ..loaded.0
                                    },
                                    ctl: Ctl::Val(ObjV::Null),
                                },
                                Option::None => ER {
                                    st: StateV {
                                        scopes: merge_into_scope_v(loaded.0.scopes, ns),
                                        ..loaded.0
                                    },
                                    ctl: Ctl::Val(ObjV::Null),
                                },
                            },
                            Option::Some(Result::Err(c)) => ER { st: loaded.0, ctl: c },
                            Option::None => ER { st: loaded.0, ctl: Ctl::Fatal },
                        }
                    },
                    Option::None => ER { st, ctl: Ctl::Fatal },
                }
            }
        },
        _ => ER { st, ctl: Ctl::Val(ObjV::Null) },
    }
}

} // verus!

verus! {

/// Borrows the value a shared handle guards. Relies on `Rc`'s `Deref`.
#[verifier::external_body]
pub(crate) fn rc_ref<'a, T>(v: &'a Rc<T>) -> (r: &'a T)
    ensures
        *r == **v,
{
    &**v
}

/// When the first binding of `k` sits at position `j`, lookup finds it.
pub proof fn lemma_assoc_get_at(s: FrameV, k: Seq<char>, j: int)
    requires
        0 <= j < s.len(),
        s[j].0 == k,
        forall|m: int| 0 <= m < j ==> s[m].0 != k,
    ensures
        assoc_get_v(s, k) == Option::Some(s[j].1),
    decreases j,
{
    if j > 0 {
        lemma_assoc_get_at(s.drop_first(), k, j - 1);
    }
}

/// When no binding carries `k`, lookup misses.
pub proof fn lemma_assoc_get_none(s: FrameV, k: Seq<char>)
    requires
        forall|m: int| 0 <= m < s.len() ==> s[m].0 != k,
    ensures
        assoc_get_v(s, k) == Option::None::<ObjV>,
    decreases s.len(),
{
    if s.len() > 0 {
        lemma_assoc_get_none(s.drop_first(), k);
    }
}

/// When the first binding of `k` sits at position `j`, `assoc_set_v`
/// replaces exactly that pair.
pub proof fn lemma_assoc_set_at(s: FrameV, k: Seq<char>, v: ObjV, j: int)
    requires
        0 <= j < s.len(),
        s[j].0 == k,
        forall|m: int| 0 <= m < j ==> s[m].0 != k,
    ensures
        assoc_set_v(s, k, v) == s.update(j, (k, v)),
    decreases j,
{
    if j == 0 {
        assert(assoc_set_v(s, k, v) == s.update(0, (k, v)));
    } else {
        lemma_assoc_set_at(s.drop_first(), k, v, j - 1);
        assert(s.drop_first()[j - 1].0 == k);
        assert(seq![s[0]] + assoc_set_v(s.drop_first(), k, v)
            =~= s.update(j, (k, v)));
    }
}

/// Writes `val` at the place a path designates inside a value.
pub(crate) fn set_in(o: Object, accs: &Vec<Acc>, i: usize, val: Object) -> (r: Object)
    requires
        i <= accs@.len(),
    ensures
        obj_v(r) == set_in_v(obj_v(o), accs_v(accs@), i as int, obj_v(val)),
    decreases accs@.len() - i,
{
    proof {
        lemma_accs_v(accs@);
    }
    if i == accs.len() {
        proof {
            let _ = obj_v(o);
        }
        return val;
    }
    match &accs[i] {
        Acc::Idx(n) => {
            let n = *n;
            match o {
                Object::List(mut items) => {
                    proof {
                        lemma_objs_v(items@);
                    }
                    if n < items.len() {
                        let ghost before = items@;
                        let elem = items.remove(n);
                        let newe = set_in(elem, accs, i + 1, val);
                        items.insert(n, newe);
                        proof {
                            lemma_objs_v(items@);
                            assert(items@ =~= before.update(n as int, items@[n as int]));
                            assert(objs_v(items@) =~= objs_v(before).update(
                                n as int,
                                obj_v(items@[n as int]),
                            ));
                        }
                        Object::List(items)
                    } else {
                        proof {
                            let _ = obj_v(val);
                        }
                        Object::List(items)
                    }
                },
                Object::Str(s) => {
                    if i == accs.len() - 1 {
                        Object::Str(s).set_list_index(n, val)
                    } else {
                        proof {
                            let _ = obj_v(val);
                        }
                        Object::Str(s)
                    }
                },
                other => {
                    proof {
                        let _ = obj_v(val);
                        let _ = obj_v(other);
                    }
                    other
                },
            }
        },
        Acc::Fld(name) => {
            match o {
                Object::Instance { struct_def, mut fields } => {
                    proof {
                        lemma_binds_v(fields@);
                    }
                    let mut j: usize = 0;
                    let mut found: bool = false;
                    while j < fields.len() && !found
                        invariant
                            j <= fields@.len(),
                            found ==> j < fields@.len() && fields@[j as int].0@ == name@,
                            forall|m: int| 0 <= m < j ==> fields@[m].0@ != name@,
                        decreases fields@.len() - j + (if found { 0int } else { 1int }),
                    {
                        if chars_eq(&fields[j].0, name) {
                            found = true;
                        } else {
                            j = j + 1;
                        }
                    }
                    if found {
                        let ghost before = fields@;
                        let pair = fields.remove(j);
                        let newv = set_in(pair.1, accs, i + 1, val);
                        fields.insert(j, (pair.0, newv));
                        proof {
                            lemma_binds_v(before);
                            lemma_binds_v(fields@);
                            assert(fields@ =~= before.update(j as int, fields@[j as int]));
                            lemma_assoc_set_at(
                                binds_v(before),
                                name@,
                                obj_v(fields@[j as int].1),
                                j as int,
                            );
                            lemma_assoc_get_at(binds_v(before), name@, j as int);
                            assert(binds_v(fields@) =~= binds_v(before).update(
                                j as int,
                                (name@, obj_v(fields@[j as int].1)),
                            ));
                        }
                        Object::Instance { struct_def, fields }
                    } else {
                        proof {
                            lemma_assoc_get_none(binds_v(fields@), name@);
                            let _ = obj_v(val);
                        }
                        Object::Instance { struct_def, fields }
                    }
                },
                Object::NameSpace { name: nsname, mut namespace } => {
                    proof {
                        lemma_binds_v(namespace@);
                    }
                    let mut j: usize = 0;
                    let mut found: bool = false;
                    while j < namespace.len() && !found
                        invariant
                            j <= namespace@.len(),
                            found ==> j < namespace@.len() && namespace@[j as int].0@
                                == name@,
                            forall|m: int| 0 <= m < j ==> namespace@[m].0@ != name@,
                        decreases namespace@.len() - j + (if found { 0int } else { 1int }),
                    {
                        if chars_eq(&namespace[j].0, name) {
                            found = true;
                        } else {
                            j = j + 1;
                        }
                    }
                    if found {
                        let ghost before = namespace@;
                        let pair = namespace.remove(j);
                        let newv = set_in(pair.1, accs, i + 1, val);
                        namespace.insert(j, (pair.0, newv));
                        proof {
                            lemma_binds_v(before);
                            lemma_binds_v(namespace@);
                            assert(namespace@ =~= before.update(
                                j as int,
                                namespace@[j as int],
                            ));
                            lemma_assoc_set_at(
                                binds_v(before),
                                name@,
                                obj_v(namespace@[j as int].1),
                                j as int,
                            );
                            lemma_assoc_get_at(binds_v(before), name@, j as int);
                            assert(binds_v(namespace@) =~= binds_v(before).update(
                                j as int,
                                (name@, obj_v(namespace@[j as int].1)),
                            ));
                        }
                        Object::NameSpace { name: nsname, namespace }
                    } else {
                        proof {
                            lemma_assoc_get_none(binds_v(namespace@), name@);
                            let _ = obj_v(val);
                        }
                        Object::NameSpace { name: nsname, namespace }
                    }
                },
                other => {
                    proof {
                        let _ = obj_v(val);
                        let _ = obj_v(other);
                    }
                    other
                },
            }
        },
    }
}

/// Reads the place a path designates inside a value.
pub(crate) fn get_at(o: &Object, accs: &Vec<Acc>, i: usize) -> (r: Option<Object>)
    requires
        i <= accs@.len(),
    ensures
        match r {
            Option::Some(v) => get_at_v(obj_v(*o), accs_v(accs@), i as int)
                == Option::Some(obj_v(v)),
            Option::None => get_at_v(obj_v(*o), accs_v(accs@), i as int)
                == Option::None::<ObjV>,
        },
    decreases accs@.len() - i,
{
    proof {
        lemma_accs_v(accs@);
    }
    if i == accs.len() {
        return Option::Some(o.duplicate());
    }
    match &accs[i] {
        Acc::Idx(n) => {
            let n = *n;
            match o {
                Object::List(items) => {
                    proof {
                        lemma_objs_v(items@);
                    }
                    if n < items.len() {
                        get_at(&items[n], accs, i + 1)
                    } else {
                        Option::None
                    }
                },
                _ => Option::None,
            }
        },
        Acc::Fld(name) => {
            match o {
                Object::Instance { fields, .. } => match assoc_get(fields, name) {
                    Option::Some(cur) => get_at(cur, accs, i + 1),
                    Option::None => Option::None,
                },
                Object::NameSpace { namespace, .. } => match assoc_get(namespace, name) {
                    Option::Some(cur) => get_at(cur, accs, i + 1),
                    Option::None => Option::None,
                },
                _ => Option::None,
            }
        },
    }
}

impl Interpreter {
    /// Writes through a resolved l-value; reports whether the root name
    /// was bound.
    pub(crate) fn update_slot(&mut self, root: &Vec<char>, accs: &Vec<Acc>, val: Object)
        -> (found: bool)
        ensures
            match update_slot_v(old(self).st().scopes, root@, accs_v(accs@), obj_v(val)) {
                Option::Some(ns) => found && final(self).st().scopes == ns,
                Option::None => !found && final(self).st().scopes == old(
                    self,
                ).st().scopes,
            },
            final(self).st().output == old(self).st().output,
            final(self).ctx() == old(self).ctx(),
    {
        let ghost all = self.st().scopes;
        proof {
            lemma_frames_v(self.scopes@);
            assert(all.take(all.len() as int) =~= all);
        }
        let mut fi: usize = self.scopes.len();
        while fi > 0
            invariant
                fi <= self.scopes@.len(),
                self.scopes@ == old(self).scopes@,
                self.output@ == old(self).output@,
                self.current_path@ == old(self).current_path@,
                self.std_path@ == old(self).std_path@,
                self.modules == old(self).modules,
                all == frames_v(self.scopes@),
                all.len() == self.scopes@.len(),
                forall|j: int| 0 <= j < self.scopes@.len() ==> all[j] == binds_v(
                    self.scopes@[j]@,
                ),
                forall|v: ObjV|
                    update_slot_v(all, root@, accs_v(accs@), v) == (match update_slot_v(
                        all.take(fi as int),
                        root@,
                        accs_v(accs@),
                        v,
                    ) {
                        Option::Some(ns) => Option::Some(ns + all.skip(fi as int)),
                        Option::None => Option::None::<ScopesV>,
                    }),
            decreases fi,
        {
            let hit = assoc_get(&self.scopes[fi - 1], root);
            match hit {
                Option::Some(cur) => {
                    proof {
                        assert(all.take(fi as int).last() == all[fi - 1]);
                    }
                    let ghost curv = obj_v(*cur);
                    let cur_dup = cur.duplicate();
                    let newv = set_in(cur_dup, accs, 0, val);
                    assoc_set(&mut self.scopes[fi - 1], root, newv);
                    proof {
                        lemma_frames_v(self.scopes@);
                        let newframes = frames_v(self.scopes@);
                        let expect_top = all.take(fi as int).update(
                            fi - 1,
                            assoc_set_v(
                                all[fi - 1],
                                root@,
                                set_in_v(curv, accs_v(accs@), 0, obj_v(val)),
                            ),
                        );
                        assert(newframes =~= expect_top + all.skip(fi as int));
                        assert(update_slot_v(
                            all.take(fi as int),
                            root@,
                            accs_v(accs@),
                            obj_v(val),
                        ) == Option::Some(expect_top));
                    }
                    return true;
                },
                Option::None => {
                    proof {
                        assert(all.take(fi as int).last() == all[fi - 1]);
                        assert(all.take(fi as int).drop_last() =~= all.take(fi - 1));
                        assert forall|v: ObjV|
                            update_slot_v(all, root@, accs_v(accs@), v) == (match
                            update_slot_v(all.take(fi - 1), root@, accs_v(accs@), v) {
                                Option::Some(ns) => Option::Some(ns + all.skip(fi - 1)),
                                Option::None => Option::None::<ScopesV>,
                            }) by {
                            match update_slot_v(all.take(fi - 1), root@, accs_v(accs@),
                                v) {
                                Option::Some(ns) => {
                                    assert(update_slot_v(
                                        all.take(fi as int),
                                        root@,
                                        accs_v(accs@),
                                        v,
                                    ) == Option::Some(ns.push(all[fi - 1])));
                                    assert(ns.push(all[fi - 1]) + all.skip(fi as int)
                                        =~= ns + all.skip(fi - 1));
                                },
                                Option::None => {},
                            }
                        }
                    }
                    fi = fi - 1;
                },
            }
        }
        proof {
            assert(all.take(0).len() == 0);
            assert(update_slot_v(all.take(0), root@, accs_v(accs@), obj_v(val))
                == Option::None::<ScopesV>);
            let _ = obj_v(val);
        }
        false
    }

    /// Reads through a resolved l-value.
    pub(crate) fn read_slot(&self, root: &Vec<char>, accs: &Vec<Acc>) -> (r: Option<
        Object,
    >)
        ensures
            match r {
                Option::Some(v) => read_slot_v(self.st().scopes, root@, accs_v(accs@))
                    == Option::Some(obj_v(v)),
                Option::None => read_slot_v(self.st().scopes, root@, accs_v(accs@))
                    == Option::None::<ObjV>,
            },
    {
        match self.get_var(root) {
            Option::Some(cur) => get_at(&cur, accs, 0),
            Option::None => Option::None,
        }
    }
}

} // verus!

verus! {

/// Why evaluation stopped instead of producing a value.
pub enum Stop {
    /// The program demanded the process end with this code.
    Exit(i32),
    /// A module could not be resolved; the run must abort with a
    /// diagnostic.
    Fatal,
    /// The evaluation budget ran out.
    OutOfFuel,
}

/// The outcome an executable result stands for.
pub open spec fn ctl_of(r: Result<Object, Stop>) -> Ctl {
    match r {
        Result::Ok(v) => Ctl::Val(obj_v(v)),
        Result::Err(Stop::Exit(c)) => Ctl::Exit(c as int),
        Result::Err(Stop::Fatal) => Ctl::Fatal,
        Result::Err(Stop::OutOfFuel) => Ctl::OutOfFuel,
    }
}

fn self_name() -> (r: Vec<char>)
    ensures
        r@ == self_name_v(),
{
    let mut v: Vec<char> = Vec::new();
    v.push('s');
    v.push('e');
    v.push('l');
    v.push('f');
    proof {
        assert(v@ =~= self_name_v());
    }
    v
}

fn len_name() -> (r: Vec<char>)
    ensures
        r@ == len_name_v(),
{
    let mut v: Vec<char> = Vec::new();
    v.push('l');
    v.push('e');
    v.push('n');
    proof {
        assert(v@ =~= len_name_v());
    }
    v
}

fn push_name() -> (r: Vec<char>)
    ensures
        r@ == push_name_v(),
{
    let mut v: Vec<char> = Vec::new();
    v.push('p');
    v.push('u');
    v.push('s');
    v.push('h');
    proof {
        assert(v@ =~= push_name_v());
    }
    v
}

fn pop_name() -> (r: Vec<char>)
    ensures
        r@ == pop_name_v(),
{
    let mut v: Vec<char> = Vec::new();
    v.push('p');
    v.push('o');
    v.push('p');
    proof {
        assert(v@ =~= pop_name_v());
    }
    v
}

impl Interpreter {
    /// Interprets one node under an explicit evaluation budget. The
    /// result and the new state are exactly what `eval_spec` says.
    #[verifier::rlimit(100)]
    pub fn interpret(&mut self, tree: &Tree, fuel: u64) -> (r: Result<Object, Stop>)
        ensures
            ({
                let er = eval_spec(old(self).ctx(), old(self).st(), *tree, fuel as nat);
                final(self).st() == er.st && ctl_of(r) == er.ctl
            }),
            final(self).ctx() == old(self).ctx(),
        decreases fuel, *tree, 2int, 1int,
    {
        match tree {
            Tree::Empty => Result::Ok(Object::Null),
            Tree::Number(b) => Result::Ok(Object::Num(*b)),
            Tree::Bool(b) => Result::Ok(Object::Bool(*b)),
            Tree::Str(s) => Result::Ok(Object::Str(copy_chars(s))),
            Tree::Ident(name) => match self.get_var(name) {
                Option::Some(v) => Result::Ok(v),
                Option::None => Result::Ok(Object::Null),
            },
            Tree::List(items) => {
                let n = items.len();
                match self.eval_args(items, 0, n, fuel) {
                    Result::Ok(vals) => Result::Ok(Object::List(vals)),
                    Result::Err(e) => Result::Err(e),
                }
            },
            Tree::Range(start, end) => {
                let sv = match self.interpret(start, fuel) {
                    Result::Ok(v) => v,
                    Result::Err(e) => {
                        return Result::Err(e);
                    },
                };
                let ev = match self.interpret(end, fuel) {
                    Result::Ok(v) => v,
                    Result::Err(e) => {
                        return Result::Err(e);
                    },
                };
                match (sv, ev) {
                    (Object::Num(a), Object::Num(b)) => Result::Ok(Object::Range(a, b)),
                    (a, b) => {
                        proof {
                            let _ = obj_v(a);
                            let _ = obj_v(b);
                        }
                        Result::Ok(Object::Invalid)
                    },
                }
            },
            Tree::ListCall(target, index) => {
                let tv = match self.interpret(target, fuel) {
                    Result::Ok(v) => v,
                    Result::Err(e) => {
                        return Result::Err(e);
                    },
                };
                let iv = match self.interpret(index, fuel) {
                    Result::Ok(v) => v,
                    Result::Err(e) => {
                        return Result::Err(e);
                    },
                };
                let n = to_count(iv.to_number_obj().get_number_value());
                Result::Ok(tv.get_list_index(n))
            },
            Tree::Ret(expr) => {
                let v = match self.interpret(expr, fuel) {
                    Result::Ok(v) => v,
                    Result::Err(e) => {
                        return Result::Err(e);
                    },
                };
                Result::Ok(Object::Ret(Box::new(v)))
            },
            Tree::BinOp(left, op, right) => {
                let lv = match self.interpret(left, fuel) {
                    Result::Ok(v) => v,
                    Result::Err(e) => {
                        return Result::Err(e);
                    },
                };
                let rv = match self.interpret(right, fuel) {
                    Result::Ok(v) => v,
                    Result::Err(e) => {
                        return Result::Err(e);
                    },
                };
                Result::Ok(bin_op_obj(*op, lv, rv))
            },
            Tree::CmpOp(left, op, right) => {
                let lv = match self.interpret(left, fuel) {
                    Result::Ok(v) => v,
                    Result::Err(e) => {
                        return Result::Err(e);
                    },
                };
                let rv = match self.interpret(right, fuel) {
                    Result::Ok(v) => v,
                    Result::Err(e) => {
                        return Result::Err(e);
                    },
                };
                Result::Ok(cmp_op_obj(*op, &lv, &rv))
            },
            Tree::Let(name, value) => {
                let v = match self.interpret(value, fuel) {
                    Result::Ok(v) => v,
                    Result::Err(e) => {
                        return Result::Err(e);
                    },
                };
                let bound = match v {
                    Object::Ret(inner) => *inner,
                    other => other,
                };
                self.set_var(name, bound);
                Result::Ok(Object::Null)
            },
            Tree::Assign(_, _) => self.interpret_assign(tree, fuel),
            Tree::If { .. } => self.interpret_if(tree, fuel),
            Tree::ElsIf { .. } => Result::Ok(Object::Null),
            Tree::While { .. } => {
                self.enter_scope();
                let r = self.eval_while(tree, fuel);
                match r {
                    Result::Ok(v) => {
                        self.exit_scope();
                        Result::Ok(v)
                    },
                    Result::Err(e) => Result::Err(e),
                }
            },
            Tree::For { .. } => self.interpret_for(tree, fuel),
            Tree::Fn { .. } => self.interpret_fn_decl(tree, fuel),
            Tree::FnCall { name, args } => match self.get_var(name) {
                Option::Some(f) => self.call_function(&f, args, Option::None, fuel),
                Option::None => Result::Ok(Object::Null),
            },
            Tree::MemberAccess { .. } => self.interpret_member(tree, fuel),
            Tree::StructDef { .. } => self.interpret_struct_def(tree, fuel),
            Tree::StructInit { .. } => self.interpret_struct_init(tree, fuel),
            Tree::Exit(expr) => {
                let v = match self.interpret(expr, fuel) {
                    Result::Ok(v) => v,
                    Result::Err(e) => {
                        return Result::Err(e);
                    },
                };
                let code: i32 = match &v {
                    Object::Null => 0,
                    Object::Num(b) => to_i32(*b),
                    _ => -1,
                };
                proof {
                    let _ = obj_v(v);
                }
                Result::Err(Stop::Exit(code))
            },
            Tree::Write(expr) => {
                let v = match self.interpret(expr, fuel) {
                    Result::Ok(v) => v,
                    Result::Err(e) => {
                        return Result::Err(e);
                    },
                };
                let chunk = v.display_chars();
                self.write_out(chunk);
                Result::Ok(Object::Null)
            },
            Tree::Import { .. } => self.eval_import(tree, fuel),
        }
    }



    /// The `if` statement.
    #[verifier::rlimit(100)]
    fn interpret_if(&mut self, tree: &Tree, fuel: u64) -> (r: Result<Object, Stop>)
        requires
            *tree matches Tree::If { .. },
        ensures
            ({
                let er = eval_spec(old(self).ctx(), old(self).st(), *tree, fuel as nat);
                final(self).st() == er.st && ctl_of(r) == er.ctl
            }),
            final(self).ctx() == old(self).ctx(),
        decreases fuel, *tree, 2int, 0int,
    {
        match tree {
            Tree::If { expr, body, els: _, els_ifs: _ } => {
                self.enter_scope();
                let cv = match self.interpret(expr, fuel) {
                    Result::Ok(v) => v,
                    Result::Err(e) => {
                        return Result::Err(e);
                    },
                };
                let r = if truthy(&cv) {
                    self.eval_block_from_zero(body, fuel)
                } else {
                    self.eval_elsifs(tree, 0, fuel)
                };
                match r {
                    Result::Ok(v) => {
                        self.exit_scope();
                        Result::Ok(v)
                    },
                    Result::Err(e) => Result::Err(e),
                }
            },
            _ => Result::Ok(Object::Null),
        }
    }

    /// The function declaration.
    #[verifier::rlimit(100)]
    fn interpret_fn_decl(&mut self, tree: &Tree, fuel: u64) -> (r: Result<Object, Stop>)
        requires
            *tree matches Tree::Fn { .. },
        ensures
            ({
                let er = eval_spec(old(self).ctx(), old(self).st(), *tree, fuel as nat);
                final(self).st() == er.st && ctl_of(r) == er.ctl
            }),
            final(self).ctx() == old(self).ctx(),
        decreases fuel, *tree, 2int, 0int,
    {
        match tree {
            Tree::Fn { name, args, body } => {
                let params = match self.eval_params(tree, 0, fuel) {
                    Result::Ok(p) => p,
                    Result::Err(e) => {
                        return Result::Err(e);
                    },
                };
                proof {
                    lemma_binds_v(params@);
                }
                if params.len() == args.len() {
                    let f = Object::Fn {
                        name: copy_chars(name),
                        args: Rc::new(params),
                        body: rc_share(body),
                    };
                    let dup = f.duplicate();
                    self.set_var(name, dup);
                    Result::Ok(f)
                } else {
                    Result::Ok(Object::Invalid)
                }
            },
            _ => Result::Ok(Object::Null),
        }
    }

    /// The member access expression.
    #[verifier::rlimit(100)]
    fn interpret_member(&mut self, tree: &Tree, fuel: u64) -> (r: Result<Object, Stop>)
        requires
            *tree matches Tree::MemberAccess { .. },
        ensures
            ({
                let er = eval_spec(old(self).ctx(), old(self).st(), *tree, fuel as nat);
                final(self).st() == er.st && ctl_of(r) == er.ctl
            }),
            final(self).ctx() == old(self).ctx(),
        decreases fuel, *tree, 2int, 0int,
    {
        match tree {
            Tree::MemberAccess { target, member } => {
                let tv = match self.interpret(target, fuel) {
                    Result::Ok(v) => v,
                    Result::Err(e) => {
                        return Result::Err(e);
                    },
                };
                match &**member {
                    Tree::Ident(fname) => match tv.get_field(fname) {
                        Option::Some(o) => Result::Ok(o.duplicate()),
                        Option::None => Result::Ok(Object::Null),
                    },
                    Tree::FnCall { .. } => self.eval_member_call(tree, &tv, fuel),
                    _ => {
                        proof {
                            let _ = obj_v(tv);
                        }
                        Result::Ok(Object::Null)
                    },
                }
            },
            _ => Result::Ok(Object::Null),
        }
    }

    /// The struct declaration.
    #[verifier::rlimit(100)]
    fn interpret_struct_def(&mut self, tree: &Tree, fuel: u64) -> (r: Result<Object, Stop>)
        requires
            *tree matches Tree::StructDef { .. },
        ensures
            ({
                let er = eval_spec(old(self).ctx(), old(self).st(), *tree, fuel as nat);
                final(self).st() == er.st && ctl_of(r) == er.ctl
            }),
            final(self).ctx() == old(self).ctx(),
        decreases fuel, *tree, 2int, 0int,
    {
        match tree {
            Tree::StructDef { name, .. } => {
                let defaults = match self.eval_fields(tree, 0, fuel) {
                    Result::Ok(d) => d,
                    Result::Err(e) => {
                        return Result::Err(e);
                    },
                };
                let methods = match self.eval_methods(tree, 0, fuel) {
                    Result::Ok(m) => m,
                    Result::Err(e) => {
                        return Result::Err(e);
                    },
                };
                let def = Object::StructDef {
                    name: copy_chars(name),
                    fields: Rc::new(defaults),
                    methods: Rc::new(methods),
                };
                let dup = def.duplicate();
                self.set_var(name, dup);
                Result::Ok(def)
            },
            _ => Result::Ok(Object::Null),
        }
    }

    /// The assignment statement.
    #[verifier::rlimit(100)]
    fn interpret_assign(&mut self, tree: &Tree, fuel: u64) -> (r: Result<Object, Stop>)
        requires
            *tree matches Tree::Assign(_, _),
        ensures
            ({
                let er = eval_spec(old(self).ctx(), old(self).st(), *tree, fuel as nat);
                final(self).st() == er.st && ctl_of(r) == er.ctl
            }),
            final(self).ctx() == old(self).ctx(),
        decreases fuel, *tree, 2int, 0int,
    {
        match tree {
            Tree::Assign(target, value) => {
                let v0 = match self.interpret(value, fuel) {
                    Result::Ok(v) => v,
                    Result::Err(e) => {
                        return Result::Err(e);
                    },
                };
                let v = match v0 {
                    Object::Ret(inner) => *inner,
                    other => other,
                };
                match &**target {
                    Tree::Ident(name) => Result::Ok(self.assign_var(name, v)),
                    Tree::ListCall(_, _) | Tree::MemberAccess { .. } => {
                        match self.resolve_path(target, fuel) {
                            Result::Ok(Option::Some((root, accs))) => {
                                let dup = v.duplicate();
                                let found = self.update_slot(&root, &accs, dup);
                                if found {
                                    Result::Ok(v)
                                } else {
                                    proof {
                                        let _ = obj_v(v);
                                    }
                                    Result::Ok(Object::Invalid)
                                }
                            },
                            Result::Ok(Option::None) => {
                                proof {
                                    let _ = obj_v(v);
                                }
                                Result::Ok(Object::Invalid)
                            },
                            Result::Err(e) => Result::Err(e),
                        }
                    },
                    _ => Result::Ok(v),
                }
            },
            _ => Result::Ok(Object::Null),
        }
    }

    /// The `for` statement.
    #[verifier::rlimit(100)]
    fn interpret_for(&mut self, tree: &Tree, fuel: u64) -> (r: Result<Object, Stop>)
        requires
            *tree matches Tree::For { .. },
        ensures
            ({
                let er = eval_spec(old(self).ctx(), old(self).st(), *tree, fuel as nat);
                final(self).st() == er.st && ctl_of(r) == er.ctl
            }),
            final(self).ctx() == old(self).ctx(),
        decreases fuel, *tree, 2int, 0int,
    {
        match tree {
            Tree::For { var: _, expr, body: _ } => {
                let src = match self.interpret(expr, fuel) {
                    Result::Ok(v) => v,
                    Result::Err(e) => {
                        return Result::Err(e);
                    },
                };
                match src {
                    Object::Range(sb, eb) => {
                        let lo = to_i32(sb);
                        let hi = to_i32(eb);
                        self.enter_scope();
                        let r = self.eval_for_range(tree, lo, hi, 0, fuel);
                        match r {
                            Result::Ok(v) => {
                                self.exit_scope();
                                Result::Ok(v)
                            },
                            Result::Err(e) => Result::Err(e),
                        }
                    },
                    Object::Str(s) => {
                        let mut items: Vec<Object> = Vec::new();
                        let mut k: usize = 0;
                        while k < s.len()
                            invariant
                                k <= s@.len(),
                                items@.len() == k,
                                forall|m: int| 0 <= m < k ==> obj_v(items@[m])
                                    == ObjV::Str(seq![s@[m]]),
                            decreases s@.len() - k,
                        {
                            let mut one: Vec<char> = Vec::new();
                            one.push(s[k]);
                            proof {
                                assert(one@ =~= seq![s@[k as int]]);
                            }
                            items.push(Object::Str(one));
                            k = k + 1;
                        }
                        proof {
                            lemma_objs_v(items@);
                            assert(objs_v(items@) =~= (match for_items_v(
                                ObjV::Str(s@),
                            ) {
                                Option::Some(it) => it,
                                Option::None => Seq::empty(),
                            }));
                        }
                        self.enter_scope();
                        let r = self.eval_for_items(tree, &items, 0, fuel);
                        match r {
                            Result::Ok(v) => {
                                self.exit_scope();
                                Result::Ok(v)
                            },
                            Result::Err(e) => Result::Err(e),
                        }
                    },
                    Object::List(items) => {
                        proof {
                            lemma_objs_v(items@);
                        }
                        self.enter_scope();
                        let r = self.eval_for_items(tree, &items, 0, fuel);
                        match r {
                            Result::Ok(v) => {
                                self.exit_scope();
                                Result::Ok(v)
                            },
                            Result::Err(e) => Result::Err(e),
                        }
                    },
                    other => {
                        proof {
                            let _ = obj_v(other);
                        }
                        Result::Ok(Object::Null)
                    },
                }
            },
            _ => Result::Ok(Object::Null),
        }
    }

    /// The struct-literal expression.
    #[verifier::rlimit(100)]
    fn interpret_struct_init(&mut self, tree: &Tree, fuel: u64) -> (r: Result<Object, Stop>)
        requires
            *tree matches Tree::StructInit { .. },
        ensures
            ({
                let er = eval_spec(old(self).ctx(), old(self).st(), *tree, fuel as nat);
                final(self).st() == er.st && ctl_of(r) == er.ctl
            }),
            final(self).ctx() == old(self).ctx(),
        decreases fuel, *tree, 2int, 0int,
    {
        match tree {
            Tree::StructInit { name, fields } => match self.get_var(name) {
                Option::Some(Object::StructDef { name: dn, fields: df, methods: dm }) => {
                    let supplied = match self.eval_named(fields, 0, fuel) {
                        Result::Ok(s) => s,
                        Result::Err(e) => {
                            return Result::Err(e);
                        },
                    };
                    let mut inst_fields = dup_bindings(rc_ref(&df));
                    proof {
                        lemma_binds_v(inst_fields@);
                        lemma_binds_v((*df)@);
                        assert(binds_v(inst_fields@) =~= binds_v((*df)@));
                        assert(supplied@.take(0).len() == 0);
                        assert(overlay_v(binds_v((*df)@), binds_v(supplied@.take(0)))
                            == binds_v((*df)@));
                    }
                    let mut si: usize = 0;
                    while si < supplied.len()
                        invariant
                            si <= supplied@.len(),
                            binds_v(inst_fields@) == overlay_v(
                                binds_v((*df)@),
                                binds_v(supplied@.take(si as int)),
                            ),
                        decreases supplied@.len() - si,
                    {
                        let pair = (copy_chars(&supplied[si].0), supplied[si].1.duplicate());
                        assoc_set(&mut inst_fields, &pair.0, pair.1);
                        proof {
                            lemma_binds_v(supplied@);
                            lemma_binds_v(supplied@.take(si as int));
                            lemma_binds_v(supplied@.take(si + 1 as int));
                            assert(binds_v(supplied@.take(si + 1 as int)).drop_last()
                                =~= binds_v(supplied@.take(si as int)));
                            assert(binds_v(supplied@.take(si + 1 as int)).last()
                                == (supplied@[si as int].0@, obj_v(supplied@[si as int].1)));
                        }
                        si = si + 1;
                    }
                    proof {
                        lemma_binds_v(supplied@);
                        assert(supplied@.take(supplied@.len() as int) =~= supplied@);
                    }
                    Result::Ok(Object::Instance {
                        struct_def: Box::new(Object::StructDef {
                            name: dn,
                            fields: df,
                            methods: dm,
                        }),
                        fields: inst_fields,
                    })
                },
                Option::Some(other) => {
                    proof {
                        let _ = obj_v(other);
                    }
                    Result::Ok(Object::Null)
                },
                Option::None => Result::Ok(Object::Null),
            },
            _ => Result::Ok(Object::Null),
        }
    }

    /// Evaluates `ts[i..m]` in order, collecting the values.
    fn eval_args(&mut self, ts: &Vec<Tree>, i: usize, m: usize, fuel: u64) -> (r: Result<
        Vec<Object>,
        Stop,
    >)
        ensures
            ({
                let lr = eval_args_spec(old(self).ctx(), old(self).st(), ts@, i as int,
                    m as int, fuel as nat);
                final(self).st() == lr.st && (match r {
                    Result::Ok(vals) => lr.out == LOut::Vals(objs_v(vals@)),
                    Result::Err(e) => lr.out == LOut::Halt(ctl_of(Result::Err(e))),
                })
            }),
            final(self).ctx() == old(self).ctx(),
        decreases fuel, *ts, 0int, (if m >= i { m - i } else { 0int }),
    {
        if i >= m || i >= ts.len() {
            proof {
                lemma_objs_v(Seq::<Object>::empty());
                assert(objs_v(Seq::<Object>::empty()) =~= Seq::<ObjV>::empty());
            }
            return Result::Ok(Vec::new());
        }
        proof {
            vstd::std_specs::vec::axiom_vec_index_decreases::<Tree>(*ts, i as int);
        }
        let v = match self.interpret(&ts[i], fuel) {
            Result::Ok(v) => v,
            Result::Err(e) => {
                return Result::Err(e);
            },
        };
        let rest = match self.eval_args(ts, i + 1, m, fuel) {
            Result::Ok(vs) => vs,
            Result::Err(e) => {
                proof {
                    let _ = obj_v(v);
                }
                return Result::Err(e);
            },
        };
        let mut out: Vec<Object> = Vec::new();
        out.push(v);
        let mut rest = rest;
        let ghost restsnap = rest@;
        out.append(&mut rest);
        proof {
            lemma_objs_v(out@);
            lemma_objs_v(restsnap);
            assert(objs_v(out@) =~= seq![obj_v(out@[0])] + objs_v(restsnap));
        }
        Result::Ok(out)
    }

    /// Evaluates the statements of a block from position `i` on.
    fn eval_block(&mut self, ts: &Vec<Tree>, i: usize, fuel: u64) -> (r: Result<
        Object,
        Stop,
    >)
        requires
            i <= ts@.len(),
        ensures
            ({
                let er = eval_block_spec(old(self).ctx(), old(self).st(),
                    ts@.skip(i as int), fuel as nat);
                final(self).st() == er.st && ctl_of(r) == er.ctl
            }),
            final(self).ctx() == old(self).ctx(),
        decreases fuel, *ts, 0int, (if ts@.len() >= i { ts@.len() - i } else { 0int }),
    {
        if i >= ts.len() {
            proof {
                assert(ts@.skip(i as int).len() == 0);
            }
            return Result::Ok(Object::Null);
        }
        proof {
            vstd::std_specs::vec::axiom_vec_index_decreases::<Tree>(*ts, i as int);
            assert(ts@.skip(i as int)[0] == ts@[i as int]);
            assert(ts@.skip(i as int).drop_first() =~= ts@.skip(i + 1));
        }
        let v = match self.interpret(&ts[i], fuel) {
            Result::Ok(v) => v,
            Result::Err(e) => {
                return Result::Err(e);
            },
        };
        if let Object::Ret(_) = &v {
            return Result::Ok(v);
        }
        if i + 1 >= ts.len() {
            return Result::Ok(v);
        }
        proof {
            let _ = obj_v(v);
        }
        self.eval_block(ts, i + 1, fuel)
    }

    /// Runs a module's top-level statements from position `i` on.
    fn eval_program(&mut self, ts: &Vec<Tree>, i: usize, fuel: u64) -> (r: Result<
        (),
        Stop,
    >)
        ensures
            ({
                let er = eval_program_spec(old(self).ctx(), old(self).st(), ts@,
                    i as int, fuel as nat);
                final(self).st() == er.st && (match r {
                    Result::Ok(_) => er.ctl == Ctl::Val(ObjV::Null),
                    Result::Err(e) => er.ctl == ctl_of(Result::Err(e)),
                })
            }),
            final(self).ctx() == old(self).ctx(),
        decreases fuel, *ts, 0int, (if ts@.len() >= i { ts@.len() - i } else { 0int }),
    {
        if i >= ts.len() {
            return Result::Ok(());
        }
        proof {
            vstd::std_specs::vec::axiom_vec_index_decreases::<Tree>(*ts, i as int);
        }
        let v = match self.interpret(&ts[i], fuel) {
            Result::Ok(v) => v,
            Result::Err(e) => {
                return Result::Err(e);
            },
        };
        proof {
            let _ = obj_v(v);
        }
        self.eval_program(ts, i + 1, fuel)
    }
}

} // verus!

verus! {

impl Interpreter {
    /// Resolves an assignment target to a root name and a path.
    fn resolve_path(&mut self, t: &Tree, fuel: u64) -> (r: Result<
        Option<(Vec<char>, Vec<Acc>)>,
        Stop,
    >)
        ensures
            ({
                let pr = resolve_path_spec(old(self).ctx(), old(self).st(), *t,
                    fuel as nat);
                final(self).st() == pr.st && (match r {
                    Result::Ok(Option::Some((root, accs))) => pr.out == POut::Path(
                        root@,
                        accs_v(accs@),
                    ),
                    Result::Ok(Option::None) => pr.out == POut::NoPath,
                    Result::Err(e) => pr.out == POut::Halt(ctl_of(Result::Err(e))),
                })
            }),
            final(self).ctx() == old(self).ctx(),
        decreases fuel, *t, 1int, 0int,
    {
        match t {
            Tree::Ident(name) => {
                proof {
                    assert(accs_v(Seq::<Acc>::empty()) =~= Seq::<AccV>::empty());
                }
                Result::Ok(Option::Some((copy_chars(name), Vec::new())))
            },
            Tree::ListCall(target, index) => {
                let iv = match self.interpret(index, fuel) {
                    Result::Ok(v) => v,
                    Result::Err(e) => {
                        return Result::Err(e);
                    },
                };
                let n = to_count(iv.to_number_obj().get_number_value());
                match self.resolve_path(target, fuel) {
                    Result::Ok(Option::Some((root, mut accs))) => {
                        let ghost accsnap = accs@;
                        accs.push(Acc::Idx(n));
                        proof {
                            lemma_accs_v(accs@);
                            lemma_accs_v(accsnap);
                            assert(accs_v(accs@) =~= accs_v(accsnap).push(
                                AccV::Idx(n as int),
                            ));
                        }
                        Result::Ok(Option::Some((root, accs)))
                    },
                    other => other,
                }
            },
            Tree::MemberAccess { target, member } => {
                match self.resolve_path(target, fuel) {
                    Result::Ok(Option::Some((root, mut accs))) => match &**member {
                        Tree::Ident(fname) => {
                            let ghost accsnap = accs@;
                            accs.push(Acc::Fld(copy_chars(fname)));
                            proof {
                                lemma_accs_v(accs@);
                                lemma_accs_v(accsnap);
                                assert(accs_v(accs@) =~= accs_v(accsnap).push(
                                    AccV::Fld(fname@),
                                ));
                            }
                            Result::Ok(Option::Some((root, accs)))
                        },
                        _ => Result::Ok(Option::None),
                    },
                    other => other,
                }
            },
            _ => Result::Ok(Option::None),
        }
    }

    /// Tries the `elsif` branches of an `if` from position `i`, then the
    /// `els` body.
    fn eval_elsifs(&mut self, t: &Tree, i: usize, fuel: u64) -> (r: Result<Object, Stop>)
        ensures
            ({
                let er = eval_elsifs_spec(old(self).ctx(), old(self).st(), *t, i as int,
                    fuel as nat);
                final(self).st() == er.st && ctl_of(r) == er.ctl
            }),
            final(self).ctx() == old(self).ctx(),
        decreases fuel, *t, 1int, (match t {
            Tree::If { els_ifs, .. } => (if els_ifs@.len() >= i {
                els_ifs@.len() - i
            } else {
                0int
            }),
            _ => 0int,
        }),
    {
        match t {
            Tree::If { els_ifs, els, .. } => {
                if i >= els_ifs.len() {
                    return self.eval_block_from_zero(els, fuel);
                }
                proof {
                    vstd::std_specs::vec::axiom_vec_index_decreases::<Tree>(
                        *els_ifs,
                        i as int,
                    );
                }
                match &els_ifs[i] {
                    Tree::ElsIf { expr, body } => {
                        let cv = match self.interpret(expr, fuel) {
                            Result::Ok(v) => v,
                            Result::Err(e) => {
                                return Result::Err(e);
                            },
                        };
                        if truthy(&cv) {
                            self.eval_block_from_zero(body, fuel)
                        } else {
                            self.eval_elsifs(t, i + 1, fuel)
                        }
                    },
                    _ => self.eval_elsifs(t, i + 1, fuel),
                }
            },
            _ => Result::Ok(Object::Null),
        }
    }

    /// A block evaluated from its start.
    fn eval_block_from_zero(&mut self, ts: &Vec<Tree>, fuel: u64) -> (r: Result<
        Object,
        Stop,
    >)
        ensures
            ({
                let er = eval_block_spec(old(self).ctx(), old(self).st(), ts@,
                    fuel as nat);
                final(self).st() == er.st && ctl_of(r) == er.ctl
            }),
            final(self).ctx() == old(self).ctx(),
        decreases fuel, *ts, 0int, ts@.len() + 1,
    {
        proof {
            assert(ts@.skip(0) =~= ts@);
        }
        self.eval_block(ts, 0, fuel)
    }

    /// One `while` loop inside its own frame.
    fn eval_while(&mut self, t: &Tree, fuel: u64) -> (r: Result<Object, Stop>)
        ensures
            ({
                let er = eval_while_spec(old(self).ctx(), old(self).st(), *t,
                    fuel as nat);
                final(self).st() == er.st && ctl_of(r) == er.ctl
            }),
            final(self).ctx() == old(self).ctx(),
        decreases fuel, *t, 1int, 0int,
    {
        match t {
            Tree::While { expr, body } => {
                let cv = match self.interpret(expr, fuel) {
                    Result::Ok(v) => v,
                    Result::Err(e) => {
                        return Result::Err(e);
                    },
                };
                if !truthy(&cv) {
                    return Result::Ok(Object::Null);
                }
                let bv = match self.eval_block_from_zero(body, fuel) {
                    Result::Ok(v) => v,
                    Result::Err(e) => {
                        return Result::Err(e);
                    },
                };
                if let Object::Ret(_) = &bv {
                    return Result::Ok(bv);
                }
                proof {
                    let _ = obj_v(bv);
                }
                if fuel == 0 {
                    return Result::Err(Stop::OutOfFuel);
                }
                self.eval_while(t, fuel - 1)
            },
            _ => Result::Ok(Object::Null),
        }
    }

    /// A `for` loop over materialized items, from position `i`.
    fn eval_for_items(&mut self, t: &Tree, items: &Vec<Object>, i: usize, fuel: u64)
        -> (r: Result<Object, Stop>)
        ensures
            ({
                let er = eval_for_spec(old(self).ctx(), old(self).st(), *t,
                    objs_v(items@), i as int, fuel as nat);
                final(self).st() == er.st && ctl_of(r) == er.ctl
            }),
            final(self).ctx() == old(self).ctx(),
        decreases fuel, *t, 1int, (if items@.len() >= i { items@.len() - i } else { 0int }),
    {
        proof {
            lemma_objs_v(items@);
        }
        match t {
            Tree::For { var, expr: _, body } => {
                if i >= items.len() {
                    return Result::Ok(Object::Null);
                }
                let item = items[i].duplicate();
                self.set_var(var, item);
                let bv = match self.eval_block_from_zero(body, fuel) {
                    Result::Ok(v) => v,
                    Result::Err(e) => {
                        return Result::Err(e);
                    },
                };
                if let Object::Ret(_) = &bv {
                    return Result::Ok(bv);
                }
                proof {
                    let _ = obj_v(bv);
                }
                self.eval_for_items(t, items, i + 1, fuel)
            },
            _ => Result::Ok(Object::Null),
        }
    }

    /// A `for` loop over a numeric range, from iteration `k`.
    fn eval_for_range(&mut self, t: &Tree, lo: i32, hi: i32, k: u64, fuel: u64) -> (r:
        Result<Object, Stop>)
        requires
            k <= (if hi as int >= lo as int {
                hi as int - lo as int
            } else {
                0int
            }),
        ensures
            ({
                let items = (match for_items_v(ObjV::Range(0, 0)) {
                    _ => Seq::new((if hi as int >= lo as int {
                        (hi as int - lo as int) as nat
                    } else {
                        0nat
                    }), |m: int| ObjV::Num(bits_of_int(((lo as int + m) as i64)))),
                });
                let er = eval_for_spec(old(self).ctx(), old(self).st(), *t, items,
                    k as int, fuel as nat);
                final(self).st() == er.st && ctl_of(r) == er.ctl
            }),
            final(self).ctx() == old(self).ctx(),
        decreases fuel, *t, 1int, (if hi as int >= lo as int {
            hi as int - lo as int - k
        } else {
            0int
        }),
    {
        let ghost n: int = if hi as int >= lo as int {
            hi as int - lo as int
        } else {
            0int
        };
        let ghost items = Seq::new(n as nat, |m: int| ObjV::Num(
            bits_of_int(((lo as int + m) as i64)),
        ));
        match t {
            Tree::For { var, expr: _, body } => {
                if hi <= lo || k >= (hi as i64 - lo as i64) as u64 {
                    proof {
                        assert(k as int >= items.len());
                    }
                    return Result::Ok(Object::Null);
                }
                let cur: i64 = lo as i64 + k as i64;
                let item = Object::Num(num::num_from_int(cur));
                proof {
                    assert(items[k as int] == ObjV::Num(bits_of_int(cur)));
                }
                self.set_var(var, item);
                let bv = match self.eval_block_from_zero(body, fuel) {
                    Result::Ok(v) => v,
                    Result::Err(e) => {
                        return Result::Err(e);
                    },
                };
                if let Object::Ret(_) = &bv {
                    return Result::Ok(bv);
                }
                proof {
                    let _ = obj_v(bv);
                }
                self.eval_for_range(t, lo, hi, k + 1, fuel)
            },
            _ => Result::Ok(Object::Null),
        }
    }

    /// Extracts a function declaration's parameters from position `i`.
    fn eval_params(&mut self, t: &Tree, i: usize, fuel: u64) -> (r: Result<
        Vec<(Vec<char>, Object)>,
        Stop,
    >)
        ensures
            ({
                let nr = eval_params_spec(old(self).ctx(), old(self).st(), *t, i as int,
                    fuel as nat);
                final(self).st() == nr.st && (match r {
                    Result::Ok(params) => nr.out == NOut::Vals(binds_v(params@)),
                    Result::Err(e) => nr.out == NOut::Halt(ctl_of(Result::Err(e))),
                })
            }),
            final(self).ctx() == old(self).ctx(),
        decreases fuel, *t, 1int, (match t {
            Tree::Fn { args, .. } => (if args@.len() >= i {
                args@.len() - i
            } else {
                0int
            }),
            _ => 0int,
        }),
    {
        proof {
            lemma_binds_v(Seq::<(Vec<char>, Object)>::empty());
        }
        match t {
            Tree::Fn { args, .. } => {
                if i >= args.len() {
                    proof {
                        assert(binds_v(Seq::<(Vec<char>, Object)>::empty())
                            =~= Seq::<(Seq<char>, ObjV)>::empty());
                    }
                    return Result::Ok(Vec::new());
                }
                proof {
                    vstd::std_specs::vec::axiom_vec_index_decreases::<Tree>(
                        *args,
                        i as int,
                    );
                }
                match &args[i] {
                    Tree::Ident(pname) => {
                        let rest = match self.eval_params(t, i + 1, fuel) {
                            Result::Ok(p) => p,
                            Result::Err(e) => {
                                return Result::Err(e);
                            },
                        };
                        let mut out: Vec<(Vec<char>, Object)> = Vec::new();
                        out.push((copy_chars(pname), Object::Null));
                        let mut rest = rest;
                        let ghost restsnap = rest@;
                        out.append(&mut rest);
                        proof {
                            lemma_binds_v(out@);
                            lemma_binds_v(restsnap);
                            assert(binds_v(out@) =~= seq![(pname@, ObjV::Null)]
                                + binds_v(restsnap));
                        }
                        Result::Ok(out)
                    },
                    Tree::Assign(pvar, pdefault) => match &**pvar {
                        Tree::Ident(pname) => {
                            let dv = match self.interpret(pdefault, fuel) {
                                Result::Ok(v) => v,
                                Result::Err(e) => {
                                    return Result::Err(e);
                                },
                            };
                            let rest = match self.eval_params(t, i + 1, fuel) {
                                Result::Ok(p) => p,
                                Result::Err(e) => {
                                    proof {
                                        let _ = obj_v(dv);
                                    }
                                    return Result::Err(e);
                                },
                            };
                            let ghost dvv = obj_v(dv);
                            let mut out: Vec<(Vec<char>, Object)> = Vec::new();
                            out.push((copy_chars(pname), dv));
                            let mut rest = rest;
                            let ghost restsnap = rest@;
                            out.append(&mut rest);
                            proof {
                                lemma_binds_v(out@);
                                lemma_binds_v(restsnap);
                                assert(binds_v(out@) =~= seq![(pname@, dvv)]
                                    + binds_v(restsnap));
                            }
                            Result::Ok(out)
                        },
                        _ => self.eval_params(t, i + 1, fuel),
                    },
                    _ => self.eval_params(t, i + 1, fuel),
                }
            },
            _ => Result::Ok(Vec::new()),
        }
    }

    /// Evaluates a struct declaration's field initializers from `i`.
    fn eval_fields(&mut self, t: &Tree, i: usize, fuel: u64) -> (r: Result<
        Vec<(Vec<char>, Object)>,
        Stop,
    >)
        ensures
            ({
                let nr = eval_fields_spec(old(self).ctx(), old(self).st(), *t, i as int,
                    fuel as nat);
                final(self).st() == nr.st && (match r {
                    Result::Ok(out) => nr.out == NOut::Vals(binds_v(out@)),
                    Result::Err(e) => nr.out == NOut::Halt(ctl_of(Result::Err(e))),
                })
            }),
            final(self).ctx() == old(self).ctx(),
        decreases fuel, *t, 1int, (match t {
            Tree::StructDef { fields, .. } => (if fields@.len() >= i {
                fields@.len() - i
            } else {
                0int
            }),
            _ => 0int,
        }),
    {
        proof {
            lemma_binds_v(Seq::<(Vec<char>, Object)>::empty());
        }
        match t {
            Tree::StructDef { fields, .. } => {
                if i >= fields.len() {
                    proof {
                        assert(binds_v(Seq::<(Vec<char>, Object)>::empty())
                            =~= Seq::<(Seq<char>, ObjV)>::empty());
                    }
                    return Result::Ok(Vec::new());
                }
                proof {
                    vstd::std_specs::vec::axiom_vec_index_decreases::<Tree>(
                        *fields,
                        i as int,
                    );
                }
                match &fields[i] {
                    Tree::Let(fname, fvalue) => {
                        let v = match self.interpret(fvalue, fuel) {
                            Result::Ok(v) => v,
                            Result::Err(e) => {
                                return Result::Err(e);
                            },
                        };
                        let rest = match self.eval_fields(t, i + 1, fuel) {
                            Result::Ok(p) => p,
                            Result::Err(e) => {
                                proof {
                                    let _ = obj_v(v);
                                }
                                return Result::Err(e);
                            },
                        };
                        let ghost vv = obj_v(v);
                        let mut out: Vec<(Vec<char>, Object)> = Vec::new();
                        out.push((copy_chars(fname), v));
                        let mut rest = rest;
                        let ghost restsnap = rest@;
                        out.append(&mut rest);
                        proof {
                            lemma_binds_v(out@);
                            lemma_binds_v(restsnap);
                            assert(binds_v(out@) =~= seq![(fname@, vv)]
                                + binds_v(restsnap));
                        }
                        Result::Ok(out)
                    },
                    _ => self.eval_fields(t, i + 1, fuel),
                }
            },
            _ => Result::Ok(Vec::new()),
        }
    }

    /// Evaluates a struct declaration's methods from `i`.
    fn eval_methods(&mut self, t: &Tree, i: usize, fuel: u64) -> (r: Result<
        Vec<(Vec<char>, Object)>,
        Stop,
    >)
        ensures
            ({
                let nr = eval_methods_spec(old(self).ctx(), old(self).st(), *t, i as int,
                    fuel as nat);
                final(self).st() == nr.st && (match r {
                    Result::Ok(out) => nr.out == NOut::Vals(binds_v(out@)),
                    Result::Err(e) => nr.out == NOut::Halt(ctl_of(Result::Err(e))),
                })
            }),
            final(self).ctx() == old(self).ctx(),
        decreases fuel, *t, 1int, (match t {
            Tree::StructDef { methods, .. } => (if methods@.len() >= i {
                methods@.len() - i
            } else {
                0int
            }),
            _ => 0int,
        }),
    {
        proof {
            lemma_binds_v(Seq::<(Vec<char>, Object)>::empty());
        }
        match t {
            Tree::StructDef { methods, .. } => {
                if i >= methods.len() {
                    proof {
                        assert(binds_v(Seq::<(Vec<char>, Object)>::empty())
                            =~= Seq::<(Seq<char>, ObjV)>::empty());
                    }
                    return Result::Ok(Vec::new());
                }
                proof {
                    vstd::std_specs::vec::axiom_vec_index_decreases::<Tree>(
                        *methods,
                        i as int,
                    );
                }
                match &methods[i] {
                    Tree::Fn { name: mname, .. } => {
                        let v = match self.interpret(&methods[i], fuel) {
                            Result::Ok(v) => v,
                            Result::Err(e) => {
                                return Result::Err(e);
                            },
                        };
                        let rest = match self.eval_methods(t, i + 1, fuel) {
                            Result::Ok(p) => p,
                            Result::Err(e) => {
                                proof {
                                    let _ = obj_v(v);
                                }
                                return Result::Err(e);
                            },
                        };
                        let ghost vv = obj_v(v);
                        let mut out: Vec<(Vec<char>, Object)> = Vec::new();
                        out.push((copy_chars(mname), v));
                        let mut rest = rest;
                        let ghost restsnap = rest@;
                        out.append(&mut rest);
                        proof {
                            lemma_binds_v(out@);
                            lemma_binds_v(restsnap);
                            assert(binds_v(out@) =~= seq![(mname@, vv)]
                                + binds_v(restsnap));
                        }
                        Result::Ok(out)
                    },
                    _ => self.eval_methods(t, i + 1, fuel),
                }
            },
            _ => Result::Ok(Vec::new()),
        }
    }

    /// Evaluates a struct literal's supplied fields from `i`.
    fn eval_named(&mut self, fs: &Vec<(Vec<char>, Tree)>, i: usize, fuel: u64) -> (r:
        Result<Vec<(Vec<char>, Object)>, Stop>)
        ensures
            ({
                let nr = eval_named_spec(old(self).ctx(), old(self).st(), fs@, i as int,
                    fuel as nat);
                final(self).st() == nr.st && (match r {
                    Result::Ok(out) => nr.out == NOut::Vals(binds_v(out@)),
                    Result::Err(e) => nr.out == NOut::Halt(ctl_of(Result::Err(e))),
                })
            }),
            final(self).ctx() == old(self).ctx(),
        decreases fuel, *fs, 1int, (if fs@.len() >= i { fs@.len() - i } else { 0int }),
    {
        proof {
            lemma_binds_v(Seq::<(Vec<char>, Object)>::empty());
        }
        if i >= fs.len() {
            proof {
                assert(binds_v(Seq::<(Vec<char>, Object)>::empty())
                    =~= Seq::<(Seq<char>, ObjV)>::empty());
            }
            return Result::Ok(Vec::new());
        }
        proof {
            vstd::std_specs::vec::axiom_vec_index_decreases::<(Vec<char>, Tree)>(
                *fs,
                i as int,
            );
        }
        let v = match self.interpret(&fs[i].1, fuel) {
            Result::Ok(v) => v,
            Result::Err(e) => {
                return Result::Err(e);
            },
        };
        let rest = match self.eval_named(fs, i + 1, fuel) {
            Result::Ok(p) => p,
            Result::Err(e) => {
                proof {
                    let _ = obj_v(v);
                }
                return Result::Err(e);
            },
        };
        let ghost vv = obj_v(v);
        let mut out: Vec<(Vec<char>, Object)> = Vec::new();
        out.push((copy_chars(&fs[i].0), v));
        let mut rest = rest;
        let ghost restsnap = rest@;
        out.append(&mut rest);
        proof {
            lemma_binds_v(out@);
            lemma_binds_v(restsnap);
            assert(binds_v(out@) =~= seq![(fs@[i as int].0@, vv)] + binds_v(restsnap));
        }
        Result::Ok(out)
    }
}

} // verus!

verus! {

/// Finds a module entry by resolved path, front to back.
fn find_module(table: &Vec<(Vec<char>, ModuleSrc)>, path: &Vec<char>) -> (r: Option<usize>)
    ensures
        match r {
            Option::Some(ix) => ix < table@.len() && table@[ix as int].0@ == path@
                && find_module_v(mods_v(table@), path@) == Option::Some(ModV {
                dir: table@[ix as int].1.dir@,
                program: table@[ix as int].1.program@,
            }),
            Option::None => find_module_v(mods_v(table@), path@)
                == Option::None::<ModV>,
        },
{
    let ghost all = mods_v(table@);
    proof {
        lemma_mods_v(table@);
        assert(all.skip(0) =~= all);
    }
    let mut i: usize = 0;
    while i < table.len()
        invariant
            i <= table@.len(),
            all == mods_v(table@),
            all.len() == table@.len(),
            forall|j: int| 0 <= j < table@.len() ==> all[j] == (table@[j].0@, ModV {
                dir: table@[j].1.dir@,
                program: table@[j].1.program@,
            }),
            find_module_v(all, path@) == find_module_v(all.skip(i as int), path@),
        decreases table@.len() - i,
    {
        if chars_eq(&table[i].0, path) {
            proof {
                assert(all.skip(i as int)[0] == all[i as int]);
            }
            return Option::Some(i);
        }
        proof {
            assert(all.skip(i as int)[0] == all[i as int]);
            assert(all.skip(i as int).drop_first() =~= all.skip(i + 1));
        }
        i = i + 1;
    }
    proof {
        assert(all.skip(table@.len() as int).len() == 0);
    }
    Option::None
}

/// Flattens a dotted import path to its segments.
fn flatten_path(t: &Tree) -> (r: Option<Vec<Vec<char>>>)
    ensures
        match r {
            Option::Some(parts) => flat_path_v(*t) == Option::Some(chunks_v(parts@)),
            Option::None => flat_path_v(*t) == Option::None::<Seq<Seq<char>>>,
        },
    decreases *t,
{
    match t {
        Tree::Ident(name) => {
            let mut parts: Vec<Vec<char>> = Vec::new();
            parts.push(copy_chars(name));
            proof {
                lemma_chunks_v(parts@);
                assert(chunks_v(parts@) =~= seq![name@]);
            }
            Option::Some(parts)
        },
        Tree::MemberAccess { target, member } => match flatten_path(target) {
            Option::Some(mut parts) => match &**member {
                Tree::Ident(m) => {
                    let ghost snap = parts@;
                    parts.push(copy_chars(m));
                    proof {
                        lemma_chunks_v(parts@);
                        lemma_chunks_v(snap);
                        assert(chunks_v(parts@) =~= chunks_v(snap).push(m@));
                    }
                    Option::Some(parts)
                },
                _ => Option::None,
            },
            Option::None => Option::None,
        },
        _ => Option::None,
    }
}

/// Walks the trailing segments of a dotted import through namespaces.
fn walk_segments(ns: &Vec<(Vec<char>, Object)>, parts: &Vec<Vec<char>>, i: usize) -> (r:
    Option<Object>)
    requires
        1 <= i,
    ensures
        match r {
            Option::Some(v) => walk_segments_v(binds_v(ns@), chunks_v(parts@), i as int)
                == Option::Some(obj_v(v)),
            Option::None => walk_segments_v(binds_v(ns@), chunks_v(parts@), i as int)
                == Option::None::<ObjV>,
        },
    decreases parts@.len() - i,
{
    proof {
        lemma_chunks_v(parts@);
    }
    if i >= parts.len() {
        return Option::None;
    }
    match assoc_get(ns, &parts[i]) {
        Option::Some(v) => {
            if i == parts.len() - 1 {
                Option::Some(v.duplicate())
            } else {
                match v {
                    Object::NameSpace { namespace, .. } => walk_segments(
                        namespace,
                        parts,
                        i + 1,
                    ),
                    _ => Option::None,
                }
            }
        },
        Option::None => Option::None,
    }
}

fn iok_ext() -> (r: Vec<char>)
    ensures
        r@ == iok_ext_v(),
{
    let mut v: Vec<char> = Vec::new();
    v.push('.');
    v.push('i');
    v.push('o');
    v.push('k');
    proof {
        assert(v@ =~= iok_ext_v());
    }
    v
}

impl Interpreter {
    /// Calls a callable value on argument expressions, optionally with a
    /// receiver; exactly `eval_call_spec`.
    #[verifier::rlimit(100)]
    pub fn call_function(&mut self, function: &Object, call_args: &Vec<Tree>,
        slf: Option<&Object>, fuel: u64) -> (r: Result<Object, Stop>)
        ensures
            ({
                let er = eval_call_spec(old(self).ctx(), old(self).st(),
                    obj_v(*function), call_args@, (match slf {
                    Option::Some(o) => Option::Some(obj_v(*o)),
                    Option::None => Option::None,
                }), fuel as nat);
                final(self).st() == er.st && ctl_of(r) == er.ctl
            }),
            final(self).ctx() == old(self).ctx(),
        decreases fuel, *call_args, 1int, 0int,
    {
        match function {
            Object::Fn { name: _, args: params, body } => {
                let pref = rc_ref(params);
                proof {
                    lemma_binds_v(pref@);
                }
                let m = if pref.len() <= call_args.len() {
                    pref.len()
                } else {
                    call_args.len()
                };
                let vals = match self.eval_args(call_args, 0, m, fuel) {
                    Result::Ok(vs) => vs,
                    Result::Err(e) => {
                        return Result::Err(e);
                    },
                };
                proof {
                    lemma_objs_v(vals@);
                }
                let ghost pv = binds_v(pref@);
                let ghost vv = objs_v(vals@);
                let mut frame: Vec<(Vec<char>, Object)> = Vec::new();
                proof {
                    lemma_binds_v(frame@);
                    assert(binds_v(frame@) =~= bind_params_v(pv.take(0), vv));
                }
                let mut pi: usize = 0;
                while pi < pref.len()
                    invariant
                        pi <= pref@.len(),
                        pv == binds_v(pref@),
                        vv == objs_v(vals@),
                        pv.len() == pref@.len(),
                        vv.len() == vals@.len(),
                        forall|j: int| 0 <= j < pref@.len() ==> pv[j] == (pref@[j].0@,
                            obj_v(pref@[j].1)),
                        forall|j: int| 0 <= j < vals@.len() ==> vv[j] == obj_v(vals@[j]),
                        binds_v(frame@) == bind_params_v(pv.take(pi as int), vv),
                    decreases pref@.len() - pi,
                {
                    let value = if pi < vals.len() {
                        vals[pi].duplicate()
                    } else {
                        pref[pi].1.duplicate()
                    };
                    assoc_set(&mut frame, &pref[pi].0, value);
                    proof {
                        assert(pv.take(pi + 1 as int).drop_last() =~= pv.take(pi as int));
                        assert(pv.take(pi + 1 as int).last() == pv[pi as int]);
                    }
                    pi = pi + 1;
                }
                proof {
                    assert(pv.take(pv.len() as int) =~= pv);
                }
                match slf {
                    Option::Some(obj) => match obj {
                        Object::NameSpace { namespace, .. } => {
                            proof {
                                lemma_binds_v(namespace@);
                            }
                            let ghost frame0 = binds_v(frame@);
                            let ghost nsv = binds_v(namespace@);
                            proof {
                                assert(splice_v(frame0, nsv.take(0)) == frame0);
                            }
                            let mut bi: usize = 0;
                            while bi < namespace.len()
                                invariant
                                    bi <= namespace@.len(),
                                    nsv == binds_v(namespace@),
                                    nsv.len() == namespace@.len(),
                                    forall|j: int| 0 <= j < namespace@.len() ==> nsv[j]
                                        == (namespace@[j].0@, obj_v(namespace@[j].1)),
                                    binds_v(frame@) == splice_v(
                                        frame0,
                                        nsv.take(bi as int),
                                    ),
                                decreases namespace@.len() - bi,
                            {
                                let value = namespace[bi].1.duplicate();
                                assoc_set(&mut frame, &namespace[bi].0, value);
                                proof {
                                    assert(nsv.take(bi + 1 as int).drop_last()
                                        =~= nsv.take(bi as int));
                                    assert(nsv.take(bi + 1 as int).last()
                                        == nsv[bi as int]);
                                }
                                bi = bi + 1;
                            }
                            proof {
                                assert(nsv.take(nsv.len() as int) =~= nsv);
                            }
                        },
                        other => {
                            let sname = self_name();
                            let value = other.duplicate();
                            assoc_set(&mut frame, &sname, value);
                        },
                    },
                    Option::None => {},
                }
                proof {
                    lemma_frames_v(self.scopes@);
                }
                let ghost pre = frames_v(self.scopes@);
                let ghost framev = binds_v(frame@);
                self.scopes.push(frame);
                proof {
                    lemma_frames_v(self.scopes@);
                    assert(frames_v(self.scopes@) =~= pre.push(framev));
                }
                if fuel == 0 {
                    return Result::Err(Stop::OutOfFuel);
                }
                let bodyref = rc_ref(body);
                let bv = match self.eval_block_from_zero(bodyref, fuel - 1) {
                    Result::Ok(v) => v,
                    Result::Err(e) => {
                        return Result::Err(e);
                    },
                };
                self.exit_scope();
                match bv {
                    Object::Ret(inner) => Result::Ok(*inner),
                    other => {
                        proof {
                            let _ = obj_v(other);
                        }
                        Result::Ok(Object::Null)
                    },
                }
            },
            Object::NativeFn { name } => {
                let n_all = call_args.len();
                let vals = match self.eval_args(call_args, 0, n_all, fuel) {
                    Result::Ok(vs) => vs,
                    Result::Err(e) => {
                        return Result::Err(e);
                    },
                };
                proof {
                    lemma_objs_v(vals@);
                }
                let ghost vv = objs_v(vals@);
                if chars_eq(name, &write_name()) {
                    let ghost out0 = self.st().output;
                    let ghost scopes1 = self.st().scopes;
                    proof {
                        assert(out0 + displays_v(vv).take(0) =~= out0);
                    }
                    let mut wi: usize = 0;
                    while wi < vals.len()
                        invariant
                            wi <= vals@.len(),
                            vv == objs_v(vals@),
                            vv.len() == vals@.len(),
                            forall|j: int| 0 <= j < vals@.len() ==> vv[j] == obj_v(
                                vals@[j],
                            ),
                            self.st().output == out0 + displays_v(vv).take(wi as int),
                            self.st().scopes == scopes1,
                            self.ctx() == old(self).ctx(),
                        decreases vals@.len() - wi,
                    {
                        let chunk = vals[wi].display_chars();
                        self.write_out(chunk);
                        proof {
                            assert(displays_v(vv)[wi as int] == display_v(vv[wi as int]));
                            assert(out0 + displays_v(vv).take(wi + 1 as int) =~= (out0
                                + displays_v(vv).take(wi as int)).push(
                                display_v(vv[wi as int]),
                            ));
                        }
                        wi = wi + 1;
                    }
                    proof {
                        assert(displays_v(vv).take(vv.len() as int) =~= displays_v(vv));
                    }
                    Result::Ok(Object::Null)
                } else if chars_eq(name, &exit_name()) {
                    let code: i32 = if vals.len() == 0 {
                        -1
                    } else {
                        match &vals[0] {
                            Object::Null => 0,
                            Object::Num(b) => to_i32(*b),
                            _ => -1,
                        }
                    };
                    Result::Err(Stop::Exit(code))
                } else if chars_eq(name, &get_var_name()) {
                    if vals.len() > 0 {
                        match &vals[0] {
                            Object::Str(nm) => match self.get_var(nm) {
                                Option::Some(v) => Result::Ok(v),
                                Option::None => Result::Ok(Object::Null),
                            },
                            _ => Result::Ok(Object::Null),
                        }
                    } else {
                        Result::Ok(Object::Null)
                    }
                } else {
                    Result::Ok(Object::Null)
                }
            },
            other => {
                proof {
                    let _ = obj_v(*other);
                }
                Result::Ok(Object::Null)
            },
        }
    }


    /// The built-in `len`/`push`/`pop` members of strings and lists.
    #[verifier::rlimit(100)]
    fn eval_builtin_member(&mut self, t: &Tree, tv: &Object, fuel: u64) -> (r: Result<
        Object,
        Stop,
    >)
        requires
            *t matches Tree::MemberAccess { .. },
            (match *t {
                Tree::MemberAccess { member, .. } => *member matches Tree::FnCall { .. },
                _ => false,
            }),
            obj_v(*tv) matches ObjV::Str(_) || obj_v(*tv) matches ObjV::List(_),
        ensures
            ({
                let er = eval_member_call_spec(old(self).ctx(), old(self).st(), *t,
                    obj_v(*tv), fuel as nat);
                final(self).st() == er.st && ctl_of(r) == er.ctl
            }),
            final(self).ctx() == old(self).ctx(),
        decreases fuel, *t, 0int, 0int,
    {
        match t {
            Tree::MemberAccess { target, member } => match &**member {
                Tree::FnCall { name: mname, args: margs } => {
                        if chars_eq(mname, &len_name()) {
                            let n = tv.get_len();
                            proof {
                                let _ = obj_v(*tv);
                            }
                            let n64: i64 = if n as u128 > i64::MAX as u128 {
                                i64::MAX
                            } else {
                                n as i64
                            };
                            Result::Ok(Object::Num(num::num_from_int(n64)))
                        } else if chars_eq(mname, &push_name()) {
                            proof {
                                let _ = obj_v(*tv);
                            }
                            if margs.len() != 1 {
                                return Result::Ok(Object::Null);
                            }
                            proof {
                                vstd::std_specs::vec::axiom_vec_index_decreases::<Tree>(
                                    *margs,
                                    0int,
                                );
                            }
                            let v = match self.interpret(&margs[0], fuel) {
                                Result::Ok(v) => v,
                                Result::Err(e) => {
                                    return Result::Err(e);
                                },
                            };
                            match self.resolve_path(target, fuel) {
                                Result::Ok(Option::Some((root, accs))) => {
                                    match self.read_slot(&root, &accs) {
                                        Option::Some(cur) => {
                                            let newv = match cur {
                                                Object::List(mut items) => {
                                                    let ghost isnap = items@;
                                                    items.push(v);
                                                    proof {
                                                        lemma_objs_v(isnap);
                                                        lemma_objs_v(items@);
                                                        assert(objs_v(items@)
                                                            =~= objs_v(isnap).push(
                                                            obj_v(items@.last()),
                                                        ));
                                                    }
                                                    Object::List(items)
                                                },
                                                Object::Str(mut s) => {
                                                    let piece = v.get_string_value();
                                                    extend_chars(&mut s, &piece);
                                                    proof {
                                                        let _ = obj_v(v);
                                                    }
                                                    Object::Str(s)
                                                },
                                                other => {
                                                    proof {
                                                        let _ = obj_v(v);
                                                        let _ = obj_v(other);
                                                    }
                                                    other
                                                },
                                            };
                                            let _found = self.update_slot(
                                                &root,
                                                &accs,
                                                newv,
                                            );
                                            Result::Ok(Object::Null)
                                        },
                                        Option::None => Result::Ok(Object::Null),
                                    }
                                },
                                Result::Ok(Option::None) => {
                                    proof {
                                        let _ = obj_v(v);
                                    }
                                    Result::Ok(Object::Null)
                                },
                                Result::Err(e) => Result::Err(e),
                            }
                        } else if chars_eq(mname, &pop_name()) {
                            proof {
                                let _ = obj_v(*tv);
                            }
                            match self.resolve_path(target, fuel) {
                                Result::Ok(Option::Some((root, accs))) => {
                                    match self.read_slot(&root, &accs) {
                                        Option::Some(cur) => {
                                            let (newv, popped) = match cur {
                                                Object::List(mut items) => {
                                                    proof {
                                                        lemma_objs_v(items@);
                                                    }
                                                    if items.len() > 0 {
                                                        let ghost isnap = items@;
                                                        let p = match items.pop() {
                                                            Option::Some(x) => x,
                                                            Option::None => Object::Null,
                                                        };
                                                        proof {
                                                            lemma_objs_v(items@);
                                                            assert(objs_v(items@)
                                                                =~= objs_v(
                                                                isnap,
                                                            ).drop_last());
                                                        }
                                                        (Object::List(items), p)
                                                    } else {
                                                        (
                                                            Object::List(items),
                                                            Object::Null,
                                                        )
                                                    }
                                                },
                                                Object::Str(mut s) => {
                                                    if s.len() > 0 {
                                                        let c = match s.pop() {
                                                            Option::Some(x) => x,
                                                            Option::None => ' ',
                                                        };
                                                        let mut one: Vec<char> =
                                                            Vec::new();
                                                        one.push(c);
                                                        proof {
                                                            assert(one@ =~= seq![c]);
                                                        }
                                                        (
                                                            Object::Str(s),
                                                            Object::Str(one),
                                                        )
                                                    } else {
                                                        (Object::Str(s), Object::Null)
                                                    }
                                                },
                                                other => (other, Object::Null),
                                            };
                                            let ghost poppedv = obj_v(popped);
                                            let found = self.update_slot(
                                                &root,
                                                &accs,
                                                newv,
                                            );
                                            if found {
                                                Result::Ok(popped)
                                            } else {
                                                proof {
                                                    let _ = obj_v(popped);
                                                }
                                                Result::Ok(Object::Null)
                                            }
                                        },
                                        Option::None => Result::Ok(Object::Null),
                                    }
                                },
                                Result::Ok(Option::None) => Result::Ok(Object::Null),
                                Result::Err(e) => Result::Err(e),
                            }
                        } else {
                            proof {
                                let _ = obj_v(*tv);
                            }
                            Result::Ok(Object::Null)
                        }
                    },
                _ => Result::Ok(Object::Null),
            },
            _ => Result::Ok(Object::Null),
        }
    }


    /// A method call on an instance, struct definition or namespace
    /// receiver: the method is looked up in the receiver's table and
    /// called with the receiver bound.
    #[verifier::rlimit(100)]
    fn eval_table_member(&mut self, t: &Tree, tv: &Object, fuel: u64) -> (r: Result<
        Object,
        Stop,
    >)
        requires
            *t matches Tree::MemberAccess { .. },
            (match *t {
                Tree::MemberAccess { member, .. } => *member matches Tree::FnCall { .. },
                _ => false,
            }),
            obj_v(*tv) matches ObjV::Instance { .. } || obj_v(*tv) matches ObjV::StructDef {
                ..
            } || obj_v(*tv) matches ObjV::NameSpace { .. },
        ensures
            ({
                let er = eval_member_call_spec(old(self).ctx(), old(self).st(), *t,
                    obj_v(*tv), fuel as nat);
                final(self).st() == er.st && ctl_of(r) == er.ctl
            }),
            final(self).ctx() == old(self).ctx(),
        decreases fuel, *t, 0int, 0int,
    {
        match t {
            Tree::MemberAccess { target: _, member } => match &**member {
                Tree::FnCall { name: mname, args: margs } => {
                    let found = match tv {
                        Object::Instance { struct_def, .. } => match &**struct_def {
                            Object::StructDef { methods, .. } => {
                                proof {
                                    let tvv = obj_v(*tv);
                                    match tvv {
                                        ObjV::Instance { struct_def: sd, .. } => {
                                            assert(*sd == obj_v(**struct_def));
                                            assert(*sd matches ObjV::StructDef { .. });
                                        },
                                        _ => {},
                                    }
                                }
                                let mref = rc_ref(methods);
                                match assoc_get(mref, mname) {
                                    Option::Some(m) => Option::Some(m.duplicate()),
                                    Option::None => Option::None,
                                }
                            },
                            _ => Option::None,
                        },
                        Object::StructDef { methods, .. } => {
                            let mref = rc_ref(methods);
                            match assoc_get(mref, mname) {
                                Option::Some(m) => Option::Some(m.duplicate()),
                                Option::None => Option::None,
                            }
                        },
                        Object::NameSpace { namespace, .. } => match assoc_get(
                            namespace,
                            mname,
                        ) {
                            Option::Some(m) => Option::Some(m.duplicate()),
                            Option::None => Option::None,
                        },
                        _ => Option::None,
                    };
                    match found {
                        Option::Some(mobj) => self.call_function(
                            &mobj,
                            margs,
                            Option::Some(tv),
                            fuel,
                        ),
                        Option::None => Result::Ok(Object::Null),
                    }
                },
                _ => Result::Ok(Object::Null),
            },
            _ => Result::Ok(Object::Null),
        }
    }

    /// A method-style call on an evaluated receiver.
    fn eval_member_call(&mut self, t: &Tree, tv: &Object, fuel: u64) -> (r: Result<
        Object,
        Stop,
    >)
        ensures
            ({
                let er = eval_member_call_spec(old(self).ctx(), old(self).st(), *t,
                    obj_v(*tv), fuel as nat);
                final(self).st() == er.st && ctl_of(r) == er.ctl
            }),
            final(self).ctx() == old(self).ctx(),
        decreases fuel, *t, 1int, 0int,
    {
        match t {
            Tree::MemberAccess { target: _, member } => match &**member {
                Tree::FnCall { .. } => match tv {
                    Object::Str(_) | Object::List(_) => self.eval_builtin_member(
                        t,
                        tv,
                        fuel,
                    ),
                    Object::Instance { .. } | Object::StructDef { .. }
                        | Object::NameSpace { .. } => self.eval_table_member(t, tv, fuel),
                    _ => Result::Ok(Object::Null),
                },
                _ => Result::Ok(Object::Null),
            },
            _ => Result::Ok(Object::Null),
        }
    }

    /// Loads one module for an import: a fresh evaluator over its
    /// statements, sharing output and module table.
    fn eval_module(&mut self, Ghost(gt): Ghost<Tree>, path: &Vec<char>, fuel: u64) -> (r:
        Result<Option<Vec<(Vec<char>, Object)>>, Stop>)
        ensures
            ({
                let sr = eval_module_spec(old(self).ctx(), old(self).st(), gt, path@,
                    fuel as nat);
                final(self).st() == sr.0 && (match r {
                    Result::Ok(Option::Some(ns)) => sr.1 == Option::Some(
                        Result::<FrameV, Ctl>::Ok(binds_v(ns@)),
                    ),
                    Result::Ok(Option::None) => sr.1 == Option::None::<
                        Result<FrameV, Ctl>,
                    >,
                    Result::Err(e) => sr.1 == Option::Some(Result::<FrameV, Ctl>::Err(
                        ctl_of(Result::Err(e)),
                    )),
                })
            }),
            final(self).ctx() == old(self).ctx(),
        decreases fuel, gt, 0int, 0int,
    {
        let table = rc_share(&self.modules);
        let tref = rc_ref(&table);
        match find_module(tref, path) {
            Option::Some(ix) => {
                if fuel == 0 {
                    return Result::Err(Stop::OutOfFuel);
                }
                let dir = copy_chars(&tref[ix].1.dir);
                let stdp = copy_chars(&self.std_path);
                let mut sub = Interpreter::new(dir, Option::Some(stdp), rc_share(&table));
                std::mem::swap(&mut self.output, &mut sub.output);
                proof {
                    lemma_chunks_v(self.output@);
                    assert(chunks_v(self.output@) =~= Seq::<Seq<char>>::empty());
                }
                let rr = sub.eval_program(&tref[ix].1.program, 0, fuel - 1);
                std::mem::swap(&mut self.output, &mut sub.output);
                match rr {
                    Result::Ok(_) => {
                        proof {
                            lemma_frames_v(sub.scopes@);
                        }
                        let ns: Vec<(Vec<char>, Object)> = if sub.scopes.len() > 0 {
                            let mut scopes = sub.scopes;
                            scopes.remove(0)
                        } else {
                            Vec::new()
                        };
                        proof {
                            lemma_binds_v(ns@);
                        }
                        Result::Ok(Option::Some(ns))
                    },
                    Result::Err(e) => Result::Err(e),
                }
            },
            Option::None => Result::Ok(Option::None),
        }
    }

    /// An import statement.
    fn eval_import(&mut self, t: &Tree, fuel: u64) -> (r: Result<Object, Stop>)
        ensures
            ({
                let er = eval_import_spec(old(self).ctx(), old(self).st(), *t,
                    fuel as nat);
                final(self).st() == er.st && ctl_of(r) == er.ctl
            }),
            final(self).ctx() == old(self).ctx(),
        decreases fuel, *t, 1int, 0int,
    {
        match t {
            Tree::Import { path, alias } => {
                let dotted = match &**path {
                    Tree::MemberAccess { .. } => true,
                    _ => false,
                };
                if dotted {
                    match flatten_path(path) {
                        Option::Some(parts) => {
                            proof {
                                lemma_chunks_v(parts@);
                            }
                            let mut file = copy_chars(&self.std_path);
                            file.push('/');
                            extend_chars(&mut file, &parts[0]);
                            let ext = iok_ext();
                            extend_chars(&mut file, &ext);
                            proof {
                                assert(file@ =~= old(self).ctx().std_path + slash_v()
                                    + chunks_v(parts@)[0] + iok_ext_v());
                            }
                            match self.eval_module(Ghost(*t), &file, fuel) {
                                Result::Ok(Option::Some(ns)) => {
                                    let found = if parts.len() == 1 {
                                        Option::None
                                    } else {
                                        walk_segments(&ns, &parts, 1)
                                    };
                                    match found {
                                        Option::Some(v) => {
                                            let bind_name = match alias {
                                                Option::Some(a) => copy_chars(a),
                                                Option::None => copy_chars(
                                                    &parts[parts.len() - 1],
                                                ),
                                            };
                                            self.set_var(&bind_name, v);
                                            Result::Ok(Object::Null)
                                        },
                                        Option::None => Result::Err(Stop::Fatal),
                                    }
                                },
                                Result::Ok(Option::None) => Result::Err(Stop::Fatal),
                                Result::Err(e) => Result::Err(e),
                            }
                        },
                        Option::None => Result::Err(Stop::Fatal),
                    }
                } else {
                    let file = match &**path {
                        Tree::Str(p) => {
                            let mut f = copy_chars(&self.current_path);
                            f.push('/');
                            extend_chars(&mut f, p);
                            proof {
                                assert(f@ =~= old(self).ctx().current_path + slash_v()
                                    + p@);
                            }
                            Option::Some(f)
                        },
                        Tree::Ident(lib) => {
                            let mut f = copy_chars(&self.std_path);
                            f.push('/');
                            extend_chars(&mut f, lib);
                            let ext = iok_ext();
                            extend_chars(&mut f, &ext);
                            proof {
                                assert(f@ =~= old(self).ctx().std_path + slash_v() + lib@
                                    + iok_ext_v());
                            }
                            Option::Some(f)
                        },
                        _ => Option::None,
                    };
                    match file {
                        Option::Some(file) => {
                            match self.eval_module(Ghost(*t), &file, fuel) {
                                Result::Ok(Option::Some(ns)) => match alias {
                                    Option::Some(a) => {
                                        let obj = Object::NameSpace {
                                            name: copy_chars(a),
                                            namespace: ns,
                                        };
                                        let aname = copy_chars(a);
                                        self.set_var(&aname, obj);
                                        Result::Ok(Object::Null)
                                    },
                                    Option::None => {
                                        proof {
                                            lemma_binds_v(ns@);
                                        }
                                        let ghost nsv = binds_v(ns@);
                                        let ghost scopes0 = self.st().scopes;
                                        let ghost out0 = self.st().output;
                                        proof {
                                            assert(merge_into_scope_v(
                                                scopes0,
                                                nsv.take(0),
                                            ) == scopes0);
                                        }
                                        let mut bi: usize = 0;
                                        while bi < ns.len()
                                            invariant
                                                bi <= ns@.len(),
                                                nsv == binds_v(ns@),
                                                nsv.len() == ns@.len(),
                                                forall|j: int| 0 <= j < ns@.len()
                                                    ==> nsv[j] == (ns@[j].0@, obj_v(
                                                    ns@[j].1,
                                                )),
                                                self.st().scopes == merge_into_scope_v(
                                                    scopes0,
                                                    nsv.take(bi as int),
                                                ),
                                                self.st().output == out0,
                                                self.ctx() == old(self).ctx(),
                                            decreases ns@.len() - bi,
                                        {
                                            let value = ns[bi].1.duplicate();
                                            self.set_var(&ns[bi].0, value);
                                            proof {
                                                assert(nsv.take(bi + 1 as int).drop_last()
                                                    =~= nsv.take(bi as int));
                                                assert(nsv.take(bi + 1 as int).last()
                                                    == nsv[bi as int]);
                                            }
                                            bi = bi + 1;
                                        }
                                        proof {
                                            assert(nsv.take(nsv.len() as int) =~= nsv);
                                        }
                                        Result::Ok(Object::Null)
                                    },
                                },
                                Result::Ok(Option::None) => Result::Err(Stop::Fatal),
                                Result::Err(e) => Result::Err(e),
                            }
                        },
                        Option::None => Result::Err(Stop::Fatal),
                    }
                }
            },
            _ => Result::Ok(Object::Null),
        }
    }
}

} // verus!
