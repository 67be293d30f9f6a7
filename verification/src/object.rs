//! The runtime value model: a closed tagged union of every value the
//! language can produce, together with its mathematical model (`ObjV`),
//! deep copying, structural equality, coercions and the element/field
//! accessors the evaluator uses.

use vstd::prelude::*;
use std::rc::Rc;
use crate::tree::Tree;
use crate::num;
use crate::num::{chars_of_num, num_of_chars, is_zero_bits, num_eq_bits, ONE_BITS,
    ZERO_BITS};

verus! {

/// One runtime value.
pub enum Object {
    /// A string: a sequence of Unicode scalar values.
    Str(Vec<char>),
    /// A number: the bit pattern of an IEEE-754 double.
    Num(u64),
    Bool(bool),
    List(Vec<Object>),
    /// A half-open numeric range, used only as an iteration source.
    Range(u64, u64),
    /// Early-return sentinel; never stored, only propagated.
    Ret(Box<Object>),
    /// A first-class function: parameter names with precomputed default
    /// values, and a body shared by reference.
    Fn { name: Vec<char>, args: Rc<Vec<(Vec<char>, Object)>>, body: Rc<Vec<Tree>> },
    /// A struct definition: default field values and a method table,
    /// shared by every instance.
    StructDef {
        name: Vec<char>,
        fields: Rc<Vec<(Vec<char>, Object)>>,
        methods: Rc<Vec<(Vec<char>, Object)>>,
    },
    /// One object: its own field values plus its defining struct.
    Instance { struct_def: Box<Object>, fields: Vec<(Vec<char>, Object)> },
    /// A snapshot of an imported module's top-level bindings.
    NameSpace { name: Vec<char>, namespace: Vec<(Vec<char>, Object)> },
    /// A built-in callable, identified by name.
    NativeFn { name: Vec<char> },
    Null,
    /// Result of a failed coercion or operation; an ordinary storable
    /// value, not an exception.
    Invalid,
}

/// The mathematical model of a value.
#[verifier::ext_equal]
pub enum ObjV {
    Str(Seq<char>),
    Num(u64),
    Bool(bool),
    List(Seq<ObjV>),
    Range(u64, u64),
    Ret(Box<ObjV>),
    Fn { name: Seq<char>, args: Seq<(Seq<char>, ObjV)>, body: Seq<Tree> },
    StructDef { name: Seq<char>, fields: Seq<(Seq<char>, ObjV)>, methods: Seq<(Seq<char>, ObjV)> },
    Instance { struct_def: Box<ObjV>, fields: Seq<(Seq<char>, ObjV)> },
    NameSpace { name: Seq<char>, namespace: Seq<(Seq<char>, ObjV)> },
    NativeFn { name: Seq<char> },
    Null,
    Invalid,
}

/// The mathematical value of a runtime value.
pub open spec fn obj_v(o: Object) -> ObjV
    decreases o,
{
    match o {
        Object::Str(s) => ObjV::Str(s@),
        Object::Num(b) => ObjV::Num(b),
        Object::Bool(b) => ObjV::Bool(b),
        Object::List(items) => ObjV::List(objs_v(items@)),
        Object::Range(s, e) => ObjV::Range(s, e),
        Object::Ret(o) => ObjV::Ret(Box::new(obj_v(*o))),
        Object::Fn { name, args, body } => ObjV::Fn {
            name: name@,
            args: binds_v((*args)@),
            body: (*body)@,
        },
        Object::StructDef { name, fields, methods } => ObjV::StructDef {
            name: name@,
            fields: binds_v((*fields)@),
            methods: binds_v((*methods)@),
        },
        Object::Instance { struct_def, fields } => ObjV::Instance {
            struct_def: Box::new(obj_v(*struct_def)),
            fields: binds_v(fields@),
        },
        Object::NameSpace { name, namespace } => ObjV::NameSpace {
            name: name@,
            namespace: binds_v(namespace@),
        },
        Object::NativeFn { name } => ObjV::NativeFn { name: name@ },
        Object::Null => ObjV::Null,
        Object::Invalid => ObjV::Invalid,
    }
}

/// The mathematical values of a sequence of runtime values.
pub open spec fn objs_v(s: Seq<Object>) -> Seq<ObjV>
    decreases s,
{
    if s.len() == 0 {
        Seq::empty()
    } else {
        objs_v(s.drop_last()).push(obj_v(s.last()))
    }
}

/// The mathematical values of a sequence of name/value bindings.
pub open spec fn binds_v(s: Seq<(Vec<char>, Object)>) -> Seq<(Seq<char>, ObjV)>
    decreases s,
{
    if s.len() == 0 {
        Seq::empty()
    } else {
        binds_v(s.drop_last()).push((s.last().0@, obj_v(s.last().1)))
    }
}

/// `objs_v` maps the sequence elementwise.
pub broadcast proof fn lemma_objs_v(s: Seq<Object>)
    ensures
        (#[trigger] objs_v(s)).len() == s.len(),
        forall|i: int| 0 <= i < s.len() ==> objs_v(s)[i] == obj_v(s[i]),
    decreases s,
{
    if s.len() > 0 {
        lemma_objs_v(s.drop_last());
    }
}

/// `binds_v` maps the sequence elementwise.
pub broadcast proof fn lemma_binds_v(s: Seq<(Vec<char>, Object)>)
    ensures
        (#[trigger] binds_v(s)).len() == s.len(),
        forall|i: int| 0 <= i < s.len()
            ==> binds_v(s)[i] == (s[i].0@, obj_v(s[i].1)),
    decreases s,
{
    if s.len() > 0 {
        lemma_binds_v(s.drop_last());
    }
}

/// Copies a character vector.
pub(crate) fn copy_chars(v: &Vec<char>) -> (r: Vec<char>)
    ensures
        r@ == v@,
{
    let mut out: Vec<char> = Vec::new();
    let mut i: usize = 0;
    while i < v.len()
        invariant
            i <= v.len(),
            out@ == v@.take(i as int),
        decreases v.len() - i,
    {
        out.push(v[i]);
        proof {
            assert(out@ =~= v@.take(i + 1 as int));
        }
        i = i + 1;
    }
    proof {
        assert(v@.take(v@.len() as int) =~= v@);
    }
    out
}

/// Decides equality of two character vectors.
pub(crate) fn chars_eq(a: &Vec<char>, b: &Vec<char>) -> (r: bool)
    ensures
        r == (a@ == b@),
{
    if a.len() != b.len() {
        return false;
    }
    let mut i: usize = 0;
    while i < a.len()
        invariant
            i <= a.len(),
            a@.len() == b@.len(),
            forall|j: int| 0 <= j < i ==> a@[j] == b@[j],
        decreases a.len() - i,
    {
        if a[i] != b[i] {
            return false;
        }
        i = i + 1;
    }
    proof {
        assert(a@ =~= b@);
    }
    true
}

impl Object {
    /// A deep copy: the copy has the same mathematical value.
    pub fn duplicate(&self) -> (r: Object)
        ensures
            obj_v(r) == obj_v(*self),
        decreases self,
    {
        match self {
            Object::Str(s) => Object::Str(copy_chars(s)),
            Object::Num(b) => Object::Num(*b),
            Object::Bool(b) => Object::Bool(*b),
            Object::List(items) => {
                let out = dup_objects(items);
                proof {
                    lemma_objs_v(out@);
                    lemma_objs_v(items@);
                    assert(objs_v(out@) =~= objs_v(items@));
                }
                Object::List(out)
            },
            Object::Range(s, e) => Object::Range(*s, *e),
            Object::Ret(o) => Object::Ret(Box::new(o.duplicate())),
            Object::Fn { name, args, body } => Object::Fn {
                name: copy_chars(name),
                args: rc_share(args),
                body: rc_share(body),
            },
            Object::StructDef { name, fields, methods } => Object::StructDef {
                name: copy_chars(name),
                fields: rc_share(fields),
                methods: rc_share(methods),
            },
            Object::Instance { struct_def, fields } => {
                let f = dup_bindings(fields);
                proof {
                    lemma_binds_v(f@);
                    lemma_binds_v(fields@);
                    assert(binds_v(f@) =~= binds_v(fields@));
                }
                Object::Instance { struct_def: Box::new(struct_def.duplicate()), fields: f }
            },
            Object::NameSpace { name, namespace } => {
                let b = dup_bindings(namespace);
                proof {
                    lemma_binds_v(b@);
                    lemma_binds_v(namespace@);
                    assert(binds_v(b@) =~= binds_v(namespace@));
                }
                Object::NameSpace { name: copy_chars(name), namespace: b }
            },
            Object::NativeFn { name } => Object::NativeFn { name: copy_chars(name) },
            Object::Null => Object::Null,
            Object::Invalid => Object::Invalid,
        }
    }
}

/// Shares a reference-counted value; the result is the same value.
/// Relies on `Rc::clone`, which hands back another handle to the same
/// allocation.
#[verifier::external_body]
pub(crate) fn rc_share<T>(v: &Rc<T>) -> (r: Rc<T>)
    ensures
        r == *v,
{
    Rc::clone(v)
}

/// Deep-copies a vector of values; the copy is elementwise equal in model.
pub(crate) fn dup_objects(v: &Vec<Object>) -> (r: Vec<Object>)
    ensures
        r@.len() == v@.len(),
        forall|i: int| 0 <= i < v@.len() ==> obj_v(r@[i]) == obj_v(v@[i]),
    decreases v,
{
    let mut out: Vec<Object> = Vec::new();
    let mut i: usize = 0;
    while i < v.len()
        invariant
            i <= v.len(),
            out@.len() == i,
            forall|j: int| 0 <= j < i ==> obj_v(out@[j]) == obj_v(v@[j]),
        decreases v.len() - i,
    {
        proof {
            vstd::std_specs::vec::axiom_vec_index_decreases::<Object>(*v, i as int);
        }
        out.push(v[i].duplicate());
        i = i + 1;
    }
    out
}

/// Deep-copies a vector of name/value bindings; the copy is elementwise
/// equal in model.
pub(crate) fn dup_bindings(v: &Vec<(Vec<char>, Object)>) -> (r: Vec<(Vec<char>, Object)>)
    ensures
        r@.len() == v@.len(),
        forall|i: int| 0 <= i < v@.len()
            ==> r@[i].0@ == v@[i].0@ && obj_v(r@[i].1) == obj_v(v@[i].1),
    decreases v,
{
    let mut out: Vec<(Vec<char>, Object)> = Vec::new();
    let mut i: usize = 0;
    while i < v.len()
        invariant
            i <= v.len(),
            out@.len() == i,
            forall|j: int| 0 <= j < i
                ==> out@[j].0@ == v@[j].0@ && obj_v(out@[j].1) == obj_v(v@[j].1),
        decreases v.len() - i,
    {
        proof {
            vstd::std_specs::vec::axiom_vec_index_decreases::<(Vec<char>, Object)>(
                *v,
                i as int,
            );
        }
        let pair = (copy_chars(&v[i].0), v[i].1.duplicate());
        out.push(pair);
        i = i + 1;
    }
    out
}

} // verus!

verus! {

/// Appends a borrowed character vector.
pub(crate) fn extend_chars(out: &mut Vec<char>, src: &Vec<char>)
    ensures
        final(out)@ == old(out)@ + src@,
{
    let mut i: usize = 0;
    while i < src.len()
        invariant
            i <= src.len(),
            out@ == old(out)@ + src@.take(i as int),
        decreases src.len() - i,
    {
        out.push(src[i]);
        proof {
            assert(old(out)@ + src@.take(i + 1 as int)
                =~= (old(out)@ + src@.take(i as int)).push(src@[i as int]));
        }
        i = i + 1;
    }
    proof {
        assert(src@.take(src@.len() as int) =~= src@);
    }
}

/// The text `true` or `false`.
pub open spec fn bool_chars_v(b: bool) -> Seq<char> {
    if b {
        seq!['t', 'r', 'u', 'e']
    } else {
        seq!['f', 'a', 'l', 's', 'e']
    }
}

pub(crate) fn bool_chars(b: bool) -> (r: Vec<char>)
    ensures
        r@ == bool_chars_v(b),
{
    let mut out: Vec<char> = Vec::new();
    if b {
        out.push('t');
        out.push('r');
        out.push('u');
        out.push('e');
    } else {
        out.push('f');
        out.push('a');
        out.push('l');
        out.push('s');
        out.push('e');
    }
    proof {
        assert(out@ =~= bool_chars_v(b));
    }
    out
}

/// The text a value coerces to: strings themselves, numbers and booleans
/// their textual form, everything else (`Null` included) the empty text.
pub open spec fn to_chars_v(o: ObjV) -> Seq<char> {
    match o {
        ObjV::Str(s) => s,
        ObjV::Num(b) => chars_of_num(b),
        ObjV::Bool(b) => bool_chars_v(b),
        _ => Seq::empty(),
    }
}

/// Strings longer than this never denote a number; the bound keeps numeric
/// parsing away from degenerate inputs.
pub const MAX_NUMERIC_TEXT: usize = 0x0FFF_FFFF;

/// The number a value coerces to: textual floats are parsed (failure gives
/// `Invalid`), booleans give one or zero, `Null` gives zero; lists,
/// ranges, callables, struct definitions, instances and namespaces have
/// no number and give `Invalid`.
pub open spec fn to_num_v(o: ObjV) -> ObjV {
    match o {
        ObjV::Str(s) => if s.len() <= MAX_NUMERIC_TEXT {
            match num_of_chars(s) {
                Option::Some(b) => ObjV::Num(b),
                Option::None => ObjV::Invalid,
            }
        } else {
            ObjV::Invalid
        },
        ObjV::Num(b) => ObjV::Num(b),
        ObjV::Bool(b) => ObjV::Num(if b { ONE_BITS } else { ZERO_BITS }),
        ObjV::Null => ObjV::Num(ZERO_BITS),
        _ => ObjV::Invalid,
    }
}

/// Truthiness: non-empty strings, non-zero numbers and `true`; every other
/// value (`Null` included) is false.
pub open spec fn truthy_v(o: ObjV) -> bool {
    match o {
        ObjV::Str(s) => s.len() != 0,
        ObjV::Num(b) => !is_zero_bits(b),
        ObjV::Bool(b) => b,
        _ => false,
    }
}

impl Object {
    /// String coercion, as a string value.
    pub fn to_string_obj(&self) -> (r: Object)
        ensures
            obj_v(r) == ObjV::Str(to_chars_v(obj_v(*self))),
    {
        match self {
            Object::Str(s) => Object::Str(copy_chars(s)),
            Object::Num(b) => Object::Str(num::num_display(*b)),
            Object::Bool(b) => Object::Str(bool_chars(*b)),
            _ => Object::Str(Vec::new()),
        }
    }

    /// Number coercion, as a number value or `Invalid`.
    pub fn to_number_obj(&self) -> (r: Object)
        ensures
            obj_v(r) == to_num_v(obj_v(*self)),
    {
        match self {
            Object::Str(s) => {
                if s.len() <= MAX_NUMERIC_TEXT {
                    match num::num_parse(s) {
                        Option::Some(b) => Object::Num(b),
                        Option::None => Object::Invalid,
                    }
                } else {
                    Object::Invalid
                }
            },
            Object::Num(b) => Object::Num(*b),
            Object::Bool(b) => Object::Num(if *b { num::ONE_BITS } else { num::ZERO_BITS }),
            Object::Null => Object::Num(num::ZERO_BITS),
            _ => Object::Invalid,
        }
    }

    /// Boolean coercion, as a boolean value.
    pub fn to_bool_obj(&self) -> (r: Object)
        ensures
            obj_v(r) == ObjV::Bool(truthy_v(obj_v(*self))),
    {
        match self {
            Object::Str(s) => Object::Bool(s.len() != 0),
            Object::Num(b) => Object::Bool(!num::num_is_zero(*b)),
            Object::Bool(b) => Object::Bool(*b),
            _ => Object::Bool(false),
        }
    }

    /// The text of the string coercion.
    pub fn get_string_value(&self) -> (r: Vec<char>)
        ensures
            r@ == to_chars_v(obj_v(*self)),
    {
        match self.to_string_obj() {
            Object::Str(s) => s,
            _ => Vec::new(),
        }
    }

    /// The bit pattern of a number value; zero for any other value.
    pub fn get_number_value(&self) -> (r: u64)
        ensures
            r == (match obj_v(*self) {
                ObjV::Num(b) => b,
                _ => ZERO_BITS,
            }),
    {
        if let Object::Num(b) = self {
            *b
        } else {
            num::ZERO_BITS
        }
    }

    /// The content of a boolean value; false for any other value.
    pub fn get_bool_value(&self) -> (r: bool)
        ensures
            r == (match obj_v(*self) {
                ObjV::Bool(b) => b,
                _ => false,
            }),
    {
        if let Object::Bool(b) = self {
            *b
        } else {
            false
        }
    }
}

} // verus!

verus! {

/// The display text of a value: what `write` prints for it.
pub open spec fn display_v(o: ObjV) -> Seq<char>
    decreases o,
{
    match o {
        ObjV::Str(s) => s,
        ObjV::Num(b) => chars_of_num(b),
        ObjV::Bool(b) => bool_chars_v(b),
        ObjV::List(items) => seq!['['] + display_items_v(items) + seq![']'],
        ObjV::Range(s, e) => chars_of_num(s) + seq!['.', '.'] + chars_of_num(e),
        ObjV::Ret(o) => seq!['R', 'e', 't', '('] + display_v(*o) + seq![')'],
        ObjV::Fn { name, .. } => seq!['f', 'n', ' '] + name,
        ObjV::StructDef { name, .. } => seq!['<'] + name + seq!['>'],
        ObjV::Instance { struct_def, .. } =>
            seq!['O', 'b', 'j', 'e', 'c', 't'] + display_v(*struct_def),
        ObjV::NameSpace { name, .. } => seq!['@'] + name,
        ObjV::NativeFn { name } => seq!['f', 'n', ' '] + name,
        ObjV::Null => seq!['n', 'u', 'l', 'l'],
        ObjV::Invalid => seq!['i', 'n', 'v', 'a', 'l', 'i', 'd'],
    }
}

/// The display texts of list elements, joined by a comma and a space.
pub open spec fn display_items_v(items: Seq<ObjV>) -> Seq<char>
    decreases items,
{
    if items.len() == 0 {
        Seq::empty()
    } else if items.len() == 1 {
        display_v(items.last())
    } else {
        display_items_v(items.drop_last()) + seq![',', ' '] + display_v(items.last())
    }
}

/// The display texts of the elements of a list, joined by a comma and a
/// space.
pub(crate) fn display_items(items: &Vec<Object>) -> (r: Vec<char>)
    ensures
        r@ == display_items_v(objs_v(items@)),
    decreases items,
{
    let mut out: Vec<char> = Vec::new();
    let mut i: usize = 0;
    while i < items.len()
        invariant
            i <= items.len(),
            out@ == display_items_v(objs_v(items@.take(i as int))),
        decreases items.len() - i,
    {
        proof {
            vstd::std_specs::vec::axiom_vec_index_decreases::<Object>(*items, i as int);
        }
        if i > 0 {
            out.push(',');
            out.push(' ');
        }
        let piece = items[i].display_chars();
        extend_chars(&mut out, &piece);
        proof {
            lemma_objs_v(items@.take(i as int));
            lemma_objs_v(items@.take(i + 1 as int));
            let prev = objs_v(items@.take(i as int));
            let cur = objs_v(items@.take(i + 1 as int));
            assert(cur.drop_last() =~= prev);
            assert(cur.last() == obj_v(items@[i as int]));
            assert(out@ =~= display_items_v(cur));
        }
        i = i + 1;
    }
    proof {
        assert(items@.take(items@.len() as int) =~= items@);
    }
    out
}

impl Object {
    /// The display text of this value.
    pub fn display_chars(&self) -> (r: Vec<char>)
        ensures
            r@ == display_v(obj_v(*self)),
        decreases self,
    {
        match self {
            Object::Str(s) => copy_chars(s),
            Object::Num(b) => num::num_display(*b),
            Object::Bool(b) => bool_chars(*b),
            Object::List(items) => {
                let mut out: Vec<char> = Vec::new();
                out.push('[');
                let inner = display_items(items);
                extend_chars(&mut out, &inner);
                out.push(']');
                proof {
                    assert(out@ =~= seq!['[']
                        + display_items_v(objs_v(items@)) + seq![']']);
                }
                out
            },
            Object::Range(s, e) => {
                let mut out = num::num_display(*s);
                out.push('.');
                out.push('.');
                let tail = num::num_display(*e);
                extend_chars(&mut out, &tail);
                proof {
                    assert(out@ =~= chars_of_num(*s) + seq!['.', '.'] + chars_of_num(*e));
                }
                out
            },
            Object::Ret(o) => {
                let mut out: Vec<char> = Vec::new();
                out.push('R');
                out.push('e');
                out.push('t');
                out.push('(');
                let inner = o.display_chars();
                extend_chars(&mut out, &inner);
                out.push(')');
                proof {
                    assert(out@ =~= seq!['R', 'e', 't', '(']
                        + display_v(obj_v(**o)) + seq![')']);
                }
                out
            },
            Object::Fn { name, .. } => {
                let mut out: Vec<char> = Vec::new();
                out.push('f');
                out.push('n');
                out.push(' ');
                extend_chars(&mut out, name);
                proof {
                    assert(out@ =~= seq!['f', 'n', ' '] + name@);
                }
                out
            },
            Object::StructDef { name, .. } => {
                let mut out: Vec<char> = Vec::new();
                out.push('<');
                extend_chars(&mut out, name);
                out.push('>');
                proof {
                    assert(out@ =~= seq!['<'] + name@ + seq!['>']);
                }
                out
            },
            Object::Instance { struct_def, .. } => {
                let mut out: Vec<char> = Vec::new();
                out.push('O');
                out.push('b');
                out.push('j');
                out.push('e');
                out.push('c');
                out.push('t');
                let inner = struct_def.display_chars();
                extend_chars(&mut out, &inner);
                proof {
                    assert(out@ =~= seq!['O', 'b', 'j', 'e', 'c', 't']
                        + display_v(obj_v(**struct_def)));
                }
                out
            },
            Object::NameSpace { name, .. } => {
                let mut out: Vec<char> = Vec::new();
                out.push('@');
                extend_chars(&mut out, name);
                proof {
                    assert(out@ =~= seq!['@'] + name@);
                }
                out
            },
            Object::NativeFn { name } => {
                let mut out: Vec<char> = Vec::new();
                out.push('f');
                out.push('n');
                out.push(' ');
                extend_chars(&mut out, name);
                proof {
                    assert(out@ =~= seq!['f', 'n', ' '] + name@);
                }
                out
            },
            Object::Null => {
                let mut out: Vec<char> = Vec::new();
                out.push('n');
                out.push('u');
                out.push('l');
                out.push('l');
                proof {
                    assert(out@ =~= display_v(ObjV::Null));
                }
                out
            },
            Object::Invalid => {
                let mut out: Vec<char> = Vec::new();
                out.push('i');
                out.push('n');
                out.push('v');
                out.push('a');
                out.push('l');
                out.push('i');
                out.push('d');
                proof {
                    assert(out@ =~= display_v(ObjV::Invalid));
                }
                out
            },
        }
    }
}

} // verus!

verus! {

/// Looks a name up in a binding sequence, front to back.
pub open spec fn assoc_get_v(s: Seq<(Seq<char>, ObjV)>, k: Seq<char>) -> Option<ObjV>
    decreases s.len(),
{
    if s.len() == 0 {
        Option::None
    } else if s[0].0 == k {
        Option::Some(s[0].1)
    } else {
        assoc_get_v(s.drop_first(), k)
    }
}

/// The field a member read yields: instance fields, struct-definition
/// default fields, or namespace bindings; `None` anywhere else.
pub open spec fn field_of_v(o: ObjV, k: Seq<char>) -> Option<ObjV> {
    match o {
        ObjV::Instance { fields, .. } => assoc_get_v(fields, k),
        ObjV::StructDef { fields, .. } => assoc_get_v(fields, k),
        ObjV::NameSpace { namespace, .. } => assoc_get_v(namespace, k),
        _ => Option::None,
    }
}

/// Looks a name up in an association vector, front to back.
pub(crate) fn assoc_get<'a>(binds: &'a Vec<(Vec<char>, Object)>, k: &Vec<char>) -> (r: Option<
    &'a Object,
>)
    ensures
        match r {
            Option::Some(o) => assoc_get_v(binds_v(binds@), k@) == Option::Some(obj_v(*o)),
            Option::None => assoc_get_v(binds_v(binds@), k@) == Option::None::<ObjV>,
        },
{
    let ghost all = binds_v(binds@);
    proof {
        lemma_binds_v(binds@);
        assert(all.skip(0) =~= all);
    }
    let mut i: usize = 0;
    while i < binds.len()
        invariant
            i <= binds.len(),
            all == binds_v(binds@),
            all.len() == binds@.len(),
            forall|j: int| 0 <= j < binds@.len() ==> all[j] == (binds@[j].0@, obj_v(binds@[j].1)),
            assoc_get_v(all, k@) == assoc_get_v(all.skip(i as int), k@),
        decreases binds.len() - i,
    {
        if chars_eq(&binds[i].0, k) {
            proof {
                assert(all.skip(i as int)[0] == all[i as int]);
            }
            return Option::Some(&binds[i].1);
        }
        proof {
            assert(all.skip(i as int)[0] == all[i as int]);
            assert(all.skip(i as int).drop_first() =~= all.skip(i + 1 as int));
        }
        i = i + 1;
    }
    proof {
        assert(all.skip(binds@.len() as int).len() == 0);
    }
    Option::None
}

/// Whether a name is bound in an association vector.
pub(crate) fn assoc_has(binds: &Vec<(Vec<char>, Object)>, k: &Vec<char>) -> (r: bool)
    ensures
        r == (assoc_get_v(binds_v(binds@), k@) matches Option::Some(_)),
{
    match assoc_get(binds, k) {
        Option::Some(_) => true,
        Option::None => false,
    }
}

impl Object {
    /// Reads a field of an instance, struct definition or namespace.
    pub fn get_field<'a>(&'a self, name: &Vec<char>) -> (r: Option<&'a Object>)
        ensures
            match r {
                Option::Some(o) => field_of_v(obj_v(*self), name@) == Option::Some(obj_v(*o)),
                Option::None => field_of_v(obj_v(*self), name@) == Option::None::<ObjV>,
            },
    {
        match self {
            Object::Instance { fields, .. } => assoc_get(fields, name),
            Object::StructDef { fields, .. } => assoc_get(fields, name),
            Object::NameSpace { namespace, .. } => assoc_get(namespace, name),
            _ => Option::None,
        }
    }
}

/// What indexing a value yields: a list element, a one-character string,
/// or `Null` out of range or on any other value.
pub open spec fn index_of_v(o: ObjV, i: int) -> ObjV {
    match o {
        ObjV::List(items) => if 0 <= i < items.len() {
            items[i]
        } else {
            ObjV::Null
        },
        ObjV::Str(s) => if 0 <= i < s.len() {
            ObjV::Str(seq![s[i]])
        } else {
            ObjV::Null
        },
        _ => ObjV::Null,
    }
}

/// The length a value reports: characters of a string, elements of a
/// list, zero for anything else.
pub open spec fn len_of_v(o: ObjV) -> int {
    match o {
        ObjV::Str(s) => s.len() as int,
        ObjV::List(items) => items.len() as int,
        _ => 0,
    }
}

impl Object {
    /// Indexes into a list or string; out of range or unindexable values
    /// yield `Null`.
    pub fn get_list_index(&self, i: usize) -> (r: Object)
        ensures
            obj_v(r) == index_of_v(obj_v(*self), i as int),
    {
        match self {
            Object::List(items) => {
                proof {
                    lemma_objs_v(items@);
                }
                if i < items.len() {
                    items[i].duplicate()
                } else {
                    Object::Null
                }
            },
            Object::Str(s) => {
                if i < s.len() {
                    let mut one: Vec<char> = Vec::new();
                    one.push(s[i]);
                    proof {
                        assert(one@ =~= seq![s@[i as int]]);
                    }
                    Object::Str(one)
                } else {
                    Object::Null
                }
            },
            _ => Object::Null,
        }
    }

    /// The reported length of this value.
    pub fn get_len(&self) -> (r: usize)
        ensures
            r as int == len_of_v(obj_v(*self)),
    {
        match self {
            Object::Str(s) => {
                proof {
                    lemma_objs_v(Seq::<Object>::empty());
                }
                s.len()
            },
            Object::List(items) => {
                proof {
                    lemma_objs_v(items@);
                }
                items.len()
            },
            _ => 0,
        }
    }
}

/// A run of spaces.
pub open spec fn spaces_v(n: int) -> Seq<char> {
    Seq::new(if n < 0 {
        0
    } else {
        n as nat
    }, |i: int| ' ')
}

/// What assigning through an index yields: a list with the element
/// replaced (out-of-range indices leave the list untouched), or a string
/// padded with spaces up to the index and spliced with the assigned text.
/// Any other target, or a non-string assigned into a string, is left
/// unchanged.
pub open spec fn set_index_v(o: ObjV, i: int, v: ObjV) -> ObjV {
    match o {
        ObjV::List(items) => if 0 <= i < items.len() {
            ObjV::List(items.update(i, v))
        } else {
            o
        },
        ObjV::Str(s) => match v {
            ObjV::Str(t) => {
                let padded = if i < s.len() {
                    s
                } else {
                    s + spaces_v(i + 1 - s.len())
                };
                ObjV::Str(padded.take(i) + t + padded.skip(i + 1))
            },
            _ => o,
        },
        _ => o,
    }
}

impl Object {
    /// Assigns through an index, functionally: yields the updated value.
    pub fn set_list_index(self, i: usize, value: Object) -> (r: Object)
        ensures
            obj_v(r) == set_index_v(obj_v(self), i as int, obj_v(value)),
    {
        match self {
            Object::List(mut items) => {
                proof {
                    lemma_objs_v(items@);
                }
                if i < items.len() {
                    let ghost before = items@;
                    items[i] = value;
                    proof {
                        lemma_objs_v(items@);
                        assert(objs_v(items@) =~= objs_v(before).update(
                            i as int,
                            obj_v(value),
                        ));
                    }
                    Object::List(items)
                } else {
                    Object::List(items)
                }
            },
            Object::Str(mut s) => {
                match value {
                    Object::Str(t) => {
                        let ghost orig = s@;
                        while s.len() <= i
                            invariant
                                orig.len() <= s@.len() <= i + 1 || (s@ == orig && orig.len()
                                    > i),
                                s@.take(orig.len() as int) == orig,
                                forall|j: int| orig.len() <= j < s@.len() ==> s@[j] == ' ',
                            decreases i + 1 - s.len(),
                        {
                            s.push(' ');
                            proof {
                                assert(s@.take(orig.len() as int) =~= orig);
                            }
                        }
                        let ghost padded = s@;
                        proof {
                            if orig.len() <= i {
                                assert(padded =~= orig + spaces_v(i + 1 - orig.len()));
                            }
                        }
                        let mut out: Vec<char> = Vec::new();
                        let mut j: usize = 0;
                        while j < i
                            invariant
                                j <= i,
                                i < padded.len(),
                                s@ == padded,
                                out@ == padded.take(j as int),
                            decreases i - j,
                        {
                            out.push(s[j]);
                            proof {
                                assert(out@ =~= padded.take(j + 1 as int));
                            }
                            j = j + 1;
                        }
                        extend_chars(&mut out, &t);
                        let mut j2: usize = i + 1;
                        while j2 < s.len()
                            invariant
                                i + 1 <= j2 <= padded.len(),
                                s@ == padded,
                                out@ == padded.take(i as int) + t@ + padded.skip(i + 1).take(
                                    j2 - i - 1,
                                ),
                            decreases s.len() - j2,
                        {
                            out.push(s[j2]);
                            proof {
                                assert(padded.skip(i + 1).take(j2 + 1 - i - 1)
                                    =~= padded.skip(i + 1).take(j2 - i - 1).push(
                                    padded[j2 as int],
                                ));
                                assert(out@ =~= padded.take(i as int) + t@ + padded.skip(
                                    i + 1,
                                ).take(j2 + 1 - i - 1));
                            }
                            j2 = j2 + 1;
                        }
                        proof {
                            assert(padded.skip(i + 1).take(padded.len() - i - 1)
                                =~= padded.skip(i + 1));
                            if i < orig.len() {
                                assert(obj_v(Object::Str(out)) == set_index_v(
                                    ObjV::Str(orig),
                                    i as int,
                                    ObjV::Str(t@),
                                ));
                            }
                        }
                        Object::Str(out)
                    },
                    value => {
                        proof {
                            let _ = obj_v(value);
                        }
                        Object::Str(s)
                    },
                }
            },
            other => other,
        }
    }
}

} // verus!

verus! {

/// Structural equality of trees: numeric literals compare by bit pattern.
pub open spec fn tree_eq_v(a: Tree, b: Tree) -> bool
    decreases a,
{
    match (a, b) {
        (Tree::Empty, Tree::Empty) => true,
        (Tree::Number(x), Tree::Number(y)) => x == y,
        (Tree::Bool(x), Tree::Bool(y)) => x == y,
        (Tree::Str(x), Tree::Str(y)) => x@ == y@,
        (Tree::List(x), Tree::List(y)) => trees_eq_v(x@, y@),
        (Tree::Ident(x), Tree::Ident(y)) => x@ == y@,
        (Tree::ListCall(x1, x2), Tree::ListCall(y1, y2)) =>
            tree_eq_v(*x1, *y1) && tree_eq_v(*x2, *y2),
        (Tree::FnCall { name: n1, args: a1 }, Tree::FnCall { name: n2, args: a2 }) =>
            n1@ == n2@ && trees_eq_v(a1@, a2@),
        (
            Tree::MemberAccess { target: t1, member: m1 },
            Tree::MemberAccess { target: t2, member: m2 },
        ) => tree_eq_v(*t1, *t2) && tree_eq_v(*m1, *m2),
        (Tree::Ret(x), Tree::Ret(y)) => tree_eq_v(*x, *y),
        (Tree::BinOp(x1, o1, x2), Tree::BinOp(y1, o2, y2)) =>
            o1 == o2 && tree_eq_v(*x1, *y1) && tree_eq_v(*x2, *y2),
        (Tree::CmpOp(x1, o1, x2), Tree::CmpOp(y1, o2, y2)) =>
            o1 == o2 && tree_eq_v(*x1, *y1) && tree_eq_v(*x2, *y2),
        (Tree::Range(x1, x2), Tree::Range(y1, y2)) =>
            tree_eq_v(*x1, *y1) && tree_eq_v(*x2, *y2),
        (Tree::Exit(x), Tree::Exit(y)) => tree_eq_v(*x, *y),
        (Tree::Write(x), Tree::Write(y)) => tree_eq_v(*x, *y),
        (Tree::Let(n1, x), Tree::Let(n2, y)) => n1@ == n2@ && tree_eq_v(*x, *y),
        (Tree::Assign(x1, x2), Tree::Assign(y1, y2)) =>
            tree_eq_v(*x1, *y1) && tree_eq_v(*x2, *y2),
        (
            Tree::If { expr: e1, body: b1, els: l1, els_ifs: f1 },
            Tree::If { expr: e2, body: b2, els: l2, els_ifs: f2 },
        ) => tree_eq_v(*e1, *e2) && trees_eq_v(b1@, b2@) && trees_eq_v(l1@, l2@)
            && trees_eq_v(f1@, f2@),
        (Tree::ElsIf { expr: e1, body: b1 }, Tree::ElsIf { expr: e2, body: b2 }) =>
            tree_eq_v(*e1, *e2) && trees_eq_v(b1@, b2@),
        (Tree::While { expr: e1, body: b1 }, Tree::While { expr: e2, body: b2 }) =>
            tree_eq_v(*e1, *e2) && trees_eq_v(b1@, b2@),
        (
            Tree::For { var: v1, expr: e1, body: b1 },
            Tree::For { var: v2, expr: e2, body: b2 },
        ) => v1@ == v2@ && tree_eq_v(*e1, *e2) && trees_eq_v(b1@, b2@),
        (
            Tree::Fn { name: n1, args: a1, body: b1 },
            Tree::Fn { name: n2, args: a2, body: b2 },
        ) => n1@ == n2@ && trees_eq_v(a1@, a2@) && trees_eq_v((*b1)@, (*b2)@),
        (
            Tree::StructDef { name: n1, fields: f1, methods: m1 },
            Tree::StructDef { name: n2, fields: f2, methods: m2 },
        ) => n1@ == n2@ && trees_eq_v(f1@, f2@) && trees_eq_v(m1@, m2@),
        (
            Tree::StructInit { name: n1, fields: f1 },
            Tree::StructInit { name: n2, fields: f2 },
        ) => n1@ == n2@ && named_trees_eq_v(f1@, f2@),
        (
            Tree::Import { path: p1, alias: a1 },
            Tree::Import { path: p2, alias: a2 },
        ) => tree_eq_v(*p1, *p2) && (match (a1, a2) {
            (Option::Some(x), Option::Some(y)) => x@ == y@,
            (Option::None, Option::None) => true,
            _ => false,
        }),
        _ => false,
    }
}

/// Structural equality of tree sequences.
pub open spec fn trees_eq_v(x: Seq<Tree>, y: Seq<Tree>) -> bool
    decreases x,
{
    x.len() == y.len() && (x.len() == 0 || (tree_eq_v(x.last(), y.last()) && trees_eq_v(
        x.drop_last(),
        y.drop_last(),
    )))
}

/// Structural equality of named tree sequences.
pub open spec fn named_trees_eq_v(x: Seq<(Vec<char>, Tree)>, y: Seq<(Vec<char>, Tree)>) -> bool
    decreases x,
{
    x.len() == y.len() && (x.len() == 0 || (x.last().0@ == y.last().0@ && tree_eq_v(
        x.last().1,
        y.last().1,
    ) && named_trees_eq_v(x.drop_last(), y.drop_last())))
}

/// Structural equality of values: numbers and ranges compare by IEEE-754
/// equality, everything else componentwise.
pub open spec fn obj_eq_v(a: ObjV, b: ObjV) -> bool
    decreases a,
{
    match (a, b) {
        (ObjV::Str(x), ObjV::Str(y)) => x == y,
        (ObjV::Num(x), ObjV::Num(y)) => num_eq_bits(x, y),
        (ObjV::Bool(x), ObjV::Bool(y)) => x == y,
        (ObjV::List(x), ObjV::List(y)) => objs_eq_v(x, y),
        (ObjV::Range(s1, e1), ObjV::Range(s2, e2)) =>
            num_eq_bits(s1, s2) && num_eq_bits(e1, e2),
        (ObjV::Ret(x), ObjV::Ret(y)) => obj_eq_v(*x, *y),
        (
            ObjV::Fn { name: n1, args: a1, body: b1 },
            ObjV::Fn { name: n2, args: a2, body: b2 },
        ) => n1 == n2 && named_objs_eq_v(a1, a2) && trees_eq_v(b1, b2),
        (
            ObjV::StructDef { name: n1, fields: f1, methods: m1 },
            ObjV::StructDef { name: n2, fields: f2, methods: m2 },
        ) => n1 == n2 && named_objs_eq_v(f1, f2) && named_objs_eq_v(m1, m2),
        (
            ObjV::Instance { struct_def: d1, fields: f1 },
            ObjV::Instance { struct_def: d2, fields: f2 },
        ) => obj_eq_v(*d1, *d2) && named_objs_eq_v(f1, f2),
        (
            ObjV::NameSpace { name: n1, namespace: s1 },
            ObjV::NameSpace { name: n2, namespace: s2 },
        ) => n1 == n2 && named_objs_eq_v(s1, s2),
        (ObjV::NativeFn { name: n1 }, ObjV::NativeFn { name: n2 }) => n1 == n2,
        (ObjV::Null, ObjV::Null) => true,
        (ObjV::Invalid, ObjV::Invalid) => true,
        _ => false,
    }
}

/// Structural equality of value sequences.
pub open spec fn objs_eq_v(x: Seq<ObjV>, y: Seq<ObjV>) -> bool
    decreases x,
{
    x.len() == y.len() && (x.len() == 0 || (obj_eq_v(x.last(), y.last()) && objs_eq_v(
        x.drop_last(),
        y.drop_last(),
    )))
}

/// Structural equality of binding sequences.
pub open spec fn named_objs_eq_v(x: Seq<(Seq<char>, ObjV)>, y: Seq<(Seq<char>, ObjV)>) -> bool
    decreases x,
{
    x.len() == y.len() && (x.len() == 0 || (x.last().0 == y.last().0 && obj_eq_v(
        x.last().1,
        y.last().1,
    ) && named_objs_eq_v(x.drop_last(), y.drop_last())))
}

/// `objs_eq_v` holds exactly when the sequences agree pointwise.
pub proof fn lemma_objs_eq_v(x: Seq<ObjV>, y: Seq<ObjV>)
    ensures
        objs_eq_v(x, y) == (x.len() == y.len() && forall|i: int|
            0 <= i < x.len() ==> obj_eq_v(x[i], y[i])),
    decreases x,
{
    if x.len() > 0 && x.len() == y.len() {
        lemma_objs_eq_v(x.drop_last(), y.drop_last());
        assert forall|i: int| 0 <= i < x.len() - 1 implies x.drop_last()[i] == x[i]
            && y.drop_last()[i] == y[i] by {}
    }
}

/// `named_objs_eq_v` holds exactly when the sequences agree pointwise.
pub proof fn lemma_named_objs_eq_v(x: Seq<(Seq<char>, ObjV)>, y: Seq<(Seq<char>, ObjV)>)
    ensures
        named_objs_eq_v(x, y) == (x.len() == y.len() && forall|i: int|
            0 <= i < x.len() ==> x[i].0 == y[i].0 && obj_eq_v(x[i].1, y[i].1)),
    decreases x,
{
    if x.len() > 0 && x.len() == y.len() {
        lemma_named_objs_eq_v(x.drop_last(), y.drop_last());
        assert forall|i: int| 0 <= i < x.len() - 1 implies x.drop_last()[i] == x[i]
            && y.drop_last()[i] == y[i] by {}
    }
}

/// `trees_eq_v` holds exactly when the sequences agree pointwise.
pub proof fn lemma_trees_eq_v(x: Seq<Tree>, y: Seq<Tree>)
    ensures
        trees_eq_v(x, y) == (x.len() == y.len() && forall|i: int|
            0 <= i < x.len() ==> tree_eq_v(x[i], y[i])),
    decreases x,
{
    if x.len() > 0 && x.len() == y.len() {
        lemma_trees_eq_v(x.drop_last(), y.drop_last());
        assert forall|i: int| 0 <= i < x.len() - 1 implies x.drop_last()[i] == x[i]
            && y.drop_last()[i] == y[i] by {}
    }
}

/// `named_trees_eq_v` holds exactly when the sequences agree pointwise.
pub proof fn lemma_named_trees_eq_v(x: Seq<(Vec<char>, Tree)>, y: Seq<(Vec<char>, Tree)>)
    ensures
        named_trees_eq_v(x, y) == (x.len() == y.len() && forall|i: int|
            0 <= i < x.len() ==> x[i].0@ == y[i].0@ && tree_eq_v(x[i].1, y[i].1)),
    decreases x,
{
    if x.len() > 0 && x.len() == y.len() {
        lemma_named_trees_eq_v(x.drop_last(), y.drop_last());
        assert forall|i: int| 0 <= i < x.len() - 1 implies x.drop_last()[i] == x[i]
            && y.drop_last()[i] == y[i] by {}
    }
}

} // verus!

verus! {

/// Decides structural equality of two trees.
pub(crate) fn tree_eq(a: &Tree, b: &Tree) -> (r: bool)
    ensures
        r == tree_eq_v(*a, *b),
    decreases a,
{
    match (a, b) {
        (Tree::Empty, Tree::Empty) => true,
        (Tree::Number(x), Tree::Number(y)) => x == y,
        (Tree::Bool(x), Tree::Bool(y)) => x == y,
        (Tree::Str(x), Tree::Str(y)) => chars_eq(x, y),
        (Tree::List(x), Tree::List(y)) => trees_eq(x, y),
        (Tree::Ident(x), Tree::Ident(y)) => chars_eq(x, y),
        (Tree::ListCall(x1, x2), Tree::ListCall(y1, y2)) =>
            tree_eq(x1, y1) && tree_eq(x2, y2),
        (Tree::FnCall { name: n1, args: a1 }, Tree::FnCall { name: n2, args: a2 }) =>
            chars_eq(n1, n2) && trees_eq(a1, a2),
        (
            Tree::MemberAccess { target: t1, member: m1 },
            Tree::MemberAccess { target: t2, member: m2 },
        ) => tree_eq(t1, t2) && tree_eq(m1, m2),
        (Tree::Ret(x), Tree::Ret(y)) => tree_eq(x, y),
        (Tree::BinOp(x1, o1, x2), Tree::BinOp(y1, o2, y2)) =>
            o1 == o2 && tree_eq(x1, y1) && tree_eq(x2, y2),
        (Tree::CmpOp(x1, o1, x2), Tree::CmpOp(y1, o2, y2)) =>
            o1 == o2 && tree_eq(x1, y1) && tree_eq(x2, y2),
        (Tree::Range(x1, x2), Tree::Range(y1, y2)) => tree_eq(x1, y1) && tree_eq(x2, y2),
        (Tree::Exit(x), Tree::Exit(y)) => tree_eq(x, y),
        (Tree::Write(x), Tree::Write(y)) => tree_eq(x, y),
        (Tree::Let(n1, x), Tree::Let(n2, y)) => chars_eq(n1, n2) && tree_eq(x, y),
        (Tree::Assign(x1, x2), Tree::Assign(y1, y2)) => tree_eq(x1, y1) && tree_eq(x2, y2),
        (
            Tree::If { expr: e1, body: b1, els: l1, els_ifs: f1 },
            Tree::If { expr: e2, body: b2, els: l2, els_ifs: f2 },
        ) => tree_eq(e1, e2) && trees_eq(b1, b2) && trees_eq(l1, l2) && trees_eq(f1, f2),
        (Tree::ElsIf { expr: e1, body: b1 }, Tree::ElsIf { expr: e2, body: b2 }) =>
            tree_eq(e1, e2) && trees_eq(b1, b2),
        (Tree::While { expr: e1, body: b1 }, Tree::While { expr: e2, body: b2 }) =>
            tree_eq(e1, e2) && trees_eq(b1, b2),
        (
            Tree::For { var: v1, expr: e1, body: b1 },
            Tree::For { var: v2, expr: e2, body: b2 },
        ) => chars_eq(v1, v2) && tree_eq(e1, e2) && trees_eq(b1, b2),
        (
            Tree::Fn { name: n1, args: a1, body: b1 },
            Tree::Fn { name: n2, args: a2, body: b2 },
        ) => chars_eq(n1, n2) && trees_eq(a1, a2) && trees_eq(b1, b2),
        (
            Tree::StructDef { name: n1, fields: f1, methods: m1 },
            Tree::StructDef { name: n2, fields: f2, methods: m2 },
        ) => chars_eq(n1, n2) && trees_eq(f1, f2) && trees_eq(m1, m2),
        (
            Tree::StructInit { name: n1, fields: f1 },
            Tree::StructInit { name: n2, fields: f2 },
        ) => chars_eq(n1, n2) && named_trees_eq(f1, f2),
        (Tree::Import { path: p1, alias: a1 }, Tree::Import { path: p2, alias: a2 }) =>
            tree_eq(p1, p2) && (match (a1, a2) {
                (Option::Some(x), Option::Some(y)) => chars_eq(x, y),
                (Option::None, Option::None) => true,
                _ => false,
            }),
        _ => false,
    }
}

/// Decides structural equality of two tree vectors.
pub(crate) fn trees_eq(x: &Vec<Tree>, y: &Vec<Tree>) -> (r: bool)
    ensures
        r == trees_eq_v(x@, y@),
    decreases x,
{
    proof {
        lemma_trees_eq_v(x@, y@);
    }
    if x.len() != y.len() {
        return false;
    }
    let mut i: usize = 0;
    while i < x.len()
        invariant
            i <= x.len(),
            x@.len() == y@.len(),
            forall|j: int| 0 <= j < i ==> tree_eq_v(x@[j], y@[j]),
        decreases x.len() - i,
    {
        proof {
            vstd::std_specs::vec::axiom_vec_index_decreases::<Tree>(*x, i as int);
        }
        if !tree_eq(&x[i], &y[i]) {
            proof {
                lemma_trees_eq_v(x@, y@);
            }
            return false;
        }
        i = i + 1;
    }
    proof {
        lemma_trees_eq_v(x@, y@);
    }
    true
}

/// Decides structural equality of two named-tree vectors.
pub(crate) fn named_trees_eq(x: &Vec<(Vec<char>, Tree)>, y: &Vec<(Vec<char>, Tree)>) -> (r:
    bool)
    ensures
        r == named_trees_eq_v(x@, y@),
    decreases x,
{
    proof {
        lemma_named_trees_eq_v(x@, y@);
    }
    if x.len() != y.len() {
        return false;
    }
    let mut i: usize = 0;
    while i < x.len()
        invariant
            i <= x.len(),
            x@.len() == y@.len(),
            forall|j: int| 0 <= j < i ==> x@[j].0@ == y@[j].0@ && tree_eq_v(x@[j].1, y@[j].1),
        decreases x.len() - i,
    {
        proof {
            vstd::std_specs::vec::axiom_vec_index_decreases::<(Vec<char>, Tree)>(
                *x,
                i as int,
            );
        }
        if !chars_eq(&x[i].0, &y[i].0) {
            proof {
                lemma_named_trees_eq_v(x@, y@);
            }
            return false;
        }
        if !tree_eq(&x[i].1, &y[i].1) {
            proof {
                lemma_named_trees_eq_v(x@, y@);
            }
            return false;
        }
        i = i + 1;
    }
    proof {
        lemma_named_trees_eq_v(x@, y@);
    }
    true
}

/// Decides structural equality of two values.
pub(crate) fn obj_eq(a: &Object, b: &Object) -> (r: bool)
    ensures
        r == obj_eq_v(obj_v(*a), obj_v(*b)),
    decreases a,
{
    match (a, b) {
        (Object::Str(x), Object::Str(y)) => chars_eq(x, y),
        (Object::Num(x), Object::Num(y)) => num::num_eq(*x, *y),
        (Object::Bool(x), Object::Bool(y)) => x == y,
        (Object::List(x), Object::List(y)) => objs_eq(x, y),
        (Object::Range(s1, e1), Object::Range(s2, e2)) =>
            num::num_eq(*s1, *s2) && num::num_eq(*e1, *e2),
        (Object::Ret(x), Object::Ret(y)) => obj_eq(x, y),
        (
            Object::Fn { name: n1, args: a1, body: b1 },
            Object::Fn { name: n2, args: a2, body: b2 },
        ) => chars_eq(n1, n2) && named_objs_eq(a1, a2) && trees_eq(b1, b2),
        (
            Object::StructDef { name: n1, fields: f1, methods: m1 },
            Object::StructDef { name: n2, fields: f2, methods: m2 },
        ) => chars_eq(n1, n2) && named_objs_eq(f1, f2) && named_objs_eq(m1, m2),
        (
            Object::Instance { struct_def: d1, fields: f1 },
            Object::Instance { struct_def: d2, fields: f2 },
        ) => obj_eq(d1, d2) && named_objs_eq(f1, f2),
        (
            Object::NameSpace { name: n1, namespace: s1 },
            Object::NameSpace { name: n2, namespace: s2 },
        ) => chars_eq(n1, n2) && named_objs_eq(s1, s2),
        (Object::NativeFn { name: n1 }, Object::NativeFn { name: n2 }) => chars_eq(n1, n2),
        (Object::Null, Object::Null) => true,
        (Object::Invalid, Object::Invalid) => true,
        _ => false,
    }
}

/// Decides structural equality of two value vectors.
pub(crate) fn objs_eq(x: &Vec<Object>, y: &Vec<Object>) -> (r: bool)
    ensures
        r == objs_eq_v(objs_v(x@), objs_v(y@)),
    decreases x,
{
    proof {
        lemma_objs_v(x@);
        lemma_objs_v(y@);
        lemma_objs_eq_v(objs_v(x@), objs_v(y@));
    }
    if x.len() != y.len() {
        return false;
    }
    let mut i: usize = 0;
    while i < x.len()
        invariant
            i <= x.len(),
            x@.len() == y@.len(),
            forall|j: int| 0 <= j < i ==> obj_eq_v(obj_v(x@[j]), obj_v(y@[j])),
        decreases x.len() - i,
    {
        proof {
            vstd::std_specs::vec::axiom_vec_index_decreases::<Object>(*x, i as int);
        }
        if !obj_eq(&x[i], &y[i]) {
            proof {
                lemma_objs_v(x@);
                lemma_objs_v(y@);
                lemma_objs_eq_v(objs_v(x@), objs_v(y@));
                assert(!obj_eq_v(objs_v(x@)[i as int], objs_v(y@)[i as int]));
            }
            return false;
        }
        i = i + 1;
    }
    proof {
        lemma_objs_v(x@);
        lemma_objs_v(y@);
        lemma_objs_eq_v(objs_v(x@), objs_v(y@));
    }
    true
}

/// Decides structural equality of two binding vectors.
pub(crate) fn named_objs_eq(x: &Vec<(Vec<char>, Object)>, y: &Vec<(Vec<char>, Object)>) -> (r:
    bool)
    ensures
        r == named_objs_eq_v(binds_v(x@), binds_v(y@)),
    decreases x,
{
    proof {
        lemma_binds_v(x@);
        lemma_binds_v(y@);
        lemma_named_objs_eq_v(binds_v(x@), binds_v(y@));
    }
    if x.len() != y.len() {
        return false;
    }
    let mut i: usize = 0;
    while i < x.len()
        invariant
            i <= x.len(),
            x@.len() == y@.len(),
            forall|j: int| 0 <= j < i ==> x@[j].0@ == y@[j].0@ && obj_eq_v(
                obj_v(x@[j].1),
                obj_v(y@[j].1),
            ),
        decreases x.len() - i,
    {
        proof {
            vstd::std_specs::vec::axiom_vec_index_decreases::<(Vec<char>, Object)>(
                *x,
                i as int,
            );
        }
        if !chars_eq(&x[i].0, &y[i].0) {
            proof {
                lemma_binds_v(x@);
                lemma_binds_v(y@);
                lemma_named_objs_eq_v(binds_v(x@), binds_v(y@));
                assert(binds_v(x@)[i as int].0 != binds_v(y@)[i as int].0);
            }
            return false;
        }
        if !obj_eq(&x[i].1, &y[i].1) {
            proof {
                lemma_binds_v(x@);
                lemma_binds_v(y@);
                lemma_named_objs_eq_v(binds_v(x@), binds_v(y@));
                assert(!obj_eq_v(binds_v(x@)[i as int].1, binds_v(y@)[i as int].1));
            }
            return false;
        }
        i = i + 1;
    }
    proof {
        lemma_binds_v(x@);
        lemma_binds_v(y@);
        lemma_named_objs_eq_v(binds_v(x@), binds_v(y@));
    }
    true
}

} // verus!
