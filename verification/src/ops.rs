//! The binary arithmetic, bitwise and comparison operators over runtime
//! values: type-pair dispatch, string surgery and list surgery, each
//! specified exactly over the value model.

use vstd::prelude::*;
use crate::tree::{BinKind, CmpKind};
use crate::object::{Object, ObjV, display_v, obj_eq_v, truthy_v, obj_v, objs_v, lemma_objs_v, copy_chars, extend_chars, dup_objects, obj_eq};
use crate::num;
use crate::num::{add_bits, sub_bits, mul_bits, div_bits, bits_of_int, int_of_num,
    chars_of_num, is_zero_bits, num_eq_bits, num_lt_bits};

verus! {

/// Removes every occurrence of `p` from `s`, left to right, without
/// rescanning replaced text; an empty pattern leaves `s` unchanged.
pub open spec fn replace_all_v(s: Seq<char>, p: Seq<char>) -> Seq<char>
    decreases s.len(),
{
    if p.len() == 0 || s.len() < p.len() {
        s
    } else if s.take(p.len() as int) == p {
        replace_all_v(s.skip(p.len() as int), p)
    } else {
        seq![s[0]] + replace_all_v(s.drop_first(), p)
    }
}

/// `s` repeated `k` times (empty for non-positive `k`).
pub open spec fn repeat_chars_v(s: Seq<char>, k: int) -> Seq<char>
    decreases k,
{
    if k <= 0 {
        Seq::empty()
    } else {
        repeat_chars_v(s, k - 1) + s
    }
}

/// `s` repeated `k` times (empty for non-positive `k`).
pub open spec fn repeat_objs_v(s: Seq<ObjV>, k: int) -> Seq<ObjV>
    decreases k,
{
    if k <= 0 {
        Seq::empty()
    } else {
        repeat_objs_v(s, k - 1) + s
    }
}

/// A number used as a count or index: truncated toward zero, with
/// negative values (and NaN) taken to zero and the top clamped to the
/// machine's index range.
pub open spec fn to_count_v(b: u64) -> int {
    let n = int_of_num(b);
    if n < 0 {
        0
    } else if n > usize::MAX as int {
        usize::MAX as int
    } else {
        n
    }
}

/// The number of trailing characters `string - number` removes.
pub open spec fn str_minus_v(s: Seq<char>, b: u64) -> Seq<char> {
    let n = to_count_v(b);
    if n >= s.len() {
        Seq::empty()
    } else {
        s.take(s.len() - n)
    }
}

/// A number clamped to the `i32` range, as `i32`.
pub open spec fn to_i32_v(b: u64) -> i32 {
    let n = int_of_num(b);
    if n < i32::MIN as int {
        i32::MIN
    } else if n > i32::MAX as int {
        i32::MAX
    } else {
        n as i32
    }
}

/// What `&` and `|` yield: both operands truncated to 32-bit signed
/// integers, combined, and converted back to a double.
pub open spec fn bit_and_v(a: u64, b: u64) -> u64 {
    bits_of_int((to_i32_v(a) & to_i32_v(b)) as i64)
}

pub open spec fn bit_or_v(a: u64, b: u64) -> u64 {
    bits_of_int((to_i32_v(a) | to_i32_v(b)) as i64)
}

/// What `<<` yields: operands taken to `i32`, the count masked to five
/// bits, the value's low bits kept.
pub open spec fn shl_v(a: u64, b: u64) -> u64 {
    bits_of_int((((to_i32_v(a) as u32) << ((to_i32_v(b) as u32) & 31)) as i32) as i64)
}

/// What `>>` yields: an arithmetic shift on `i32`, the count masked to
/// five bits.
pub open spec fn shr_v(a: u64, b: u64) -> u64 {
    bits_of_int((to_i32_v(a) >> ((to_i32_v(b) as u32) & 31)) as i64)
}

/// The binary operator table. Unsupported type pairs yield `Null` for
/// `+ - *` and `Invalid` for `/` and the bit operators; division by zero
/// yields `Invalid`.
pub open spec fn bin_op_v(op: BinKind, a: ObjV, b: ObjV) -> ObjV {
    match op {
        BinKind::Plus => match (a, b) {
            (ObjV::Num(x), ObjV::Num(y)) => ObjV::Num(add_bits(x, y)),
            (ObjV::Num(x), ObjV::Str(s)) => ObjV::Str(chars_of_num(x) + s),
            (ObjV::Str(s), ObjV::Str(t)) => ObjV::Str(s + t),
            (ObjV::Str(s), r) => ObjV::Str(s + display_v(r)),
            (ObjV::List(x), ObjV::List(y)) => ObjV::List(x + y),
            (ObjV::List(x), r) => ObjV::List(x.push(r)),
            _ => ObjV::Null,
        },
        BinKind::Minus => match (a, b) {
            (ObjV::Num(x), ObjV::Num(y)) => ObjV::Num(sub_bits(x, y)),
            (ObjV::Str(s), ObjV::Num(y)) => ObjV::Str(str_minus_v(s, y)),
            (ObjV::Str(s), ObjV::Str(t)) => ObjV::Str(replace_all_v(s, t)),
            _ => ObjV::Null,
        },
        BinKind::Multiply => match (a, b) {
            (ObjV::Num(x), ObjV::Num(y)) => ObjV::Num(mul_bits(x, y)),
            (ObjV::Num(x), ObjV::Str(s)) => ObjV::Str(repeat_chars_v(s, to_count_v(x))),
            (ObjV::Str(s), ObjV::Num(y)) => ObjV::Str(repeat_chars_v(s, to_count_v(y))),
            (ObjV::List(x), ObjV::Num(y)) => ObjV::List(repeat_objs_v(x, to_count_v(y))),
            _ => ObjV::Null,
        },
        BinKind::Divide => match (a, b) {
            (ObjV::Num(x), ObjV::Num(y)) => if is_zero_bits(y) {
                ObjV::Invalid
            } else {
                ObjV::Num(div_bits(x, y))
            },
            _ => ObjV::Invalid,
        },
        BinKind::BitAnd => match (a, b) {
            (ObjV::Num(x), ObjV::Num(y)) => ObjV::Num(bit_and_v(x, y)),
            _ => ObjV::Invalid,
        },
        BinKind::BitOr => match (a, b) {
            (ObjV::Num(x), ObjV::Num(y)) => ObjV::Num(bit_or_v(x, y)),
            _ => ObjV::Invalid,
        },
        BinKind::Shl => match (a, b) {
            (ObjV::Num(x), ObjV::Num(y)) => ObjV::Num(shl_v(x, y)),
            _ => ObjV::Invalid,
        },
        BinKind::Shr => match (a, b) {
            (ObjV::Num(x), ObjV::Num(y)) => ObjV::Num(shr_v(x, y)),
            _ => ObjV::Invalid,
        },
    }
}

/// Boolean negation of a value: the value is coerced to a boolean and
/// negated, so `Null`, zero numbers, false, the empty string and every
/// compound value (all falsy) negate to true.
pub open spec fn not_v(o: ObjV) -> bool {
    !truthy_v(o)
}

/// The comparison operator table: `==`/`!=` are structural over every
/// variant; the relational operators hold only between numbers, by
/// IEEE-754 order; `&&`/`||` coerce both sides eagerly.
pub open spec fn cmp_op_v(op: CmpKind, a: ObjV, b: ObjV) -> ObjV {
    match op {
        CmpKind::EquEqu => ObjV::Bool(obj_eq_v(a, b)),
        CmpKind::NotEqu => ObjV::Bool(!obj_eq_v(a, b)),
        CmpKind::Greater => ObjV::Bool(match (a, b) {
            (ObjV::Num(x), ObjV::Num(y)) => num_lt_bits(y, x),
            _ => false,
        }),
        CmpKind::GreatEqu => ObjV::Bool(match (a, b) {
            (ObjV::Num(x), ObjV::Num(y)) => num_lt_bits(y, x) || num_eq_bits(x, y),
            _ => false,
        }),
        CmpKind::Less => ObjV::Bool(match (a, b) {
            (ObjV::Num(x), ObjV::Num(y)) => num_lt_bits(x, y),
            _ => false,
        }),
        CmpKind::LessEqu => ObjV::Bool(match (a, b) {
            (ObjV::Num(x), ObjV::Num(y)) => num_lt_bits(x, y) || num_eq_bits(x, y),
            _ => false,
        }),
        CmpKind::Bang => ObjV::Bool(not_v(a)),
        CmpKind::And => ObjV::Bool(truthy_v(a) && truthy_v(b)),
        CmpKind::Or => ObjV::Bool(truthy_v(a) || truthy_v(b)),
    }
}

/// A number as a count or index, decided.
pub(crate) fn to_count(b: u64) -> (r: usize)
    ensures
        r as int == to_count_v(b),
{
    let n = num::num_trunc(b);
    if n < 0 {
        0
    } else if n as u128 > usize::MAX as u128 {
        usize::MAX
    } else {
        n as usize
    }
}

/// A number clamped to `i32`, decided.
pub(crate) fn to_i32(b: u64) -> (r: i32)
    ensures
        r == to_i32_v(b),
{
    let n = num::num_trunc(b);
    if n < -2147483648i64 {
        i32::MIN
    } else if n > 2147483647i64 {
        i32::MAX
    } else {
        n as i32
    }
}

} // verus!

verus! {

/// Whether `p` occurs in `s` at position `i`.
fn match_at(s: &Vec<char>, p: &Vec<char>, i: usize) -> (r: bool)
    requires
        i <= s@.len(),
    ensures
        r == (i + p@.len() <= s@.len() && s@.subrange(i as int, i + p@.len()) == p@),
{
    if p.len() > s.len() - i {
        return false;
    }
    let mut j: usize = 0;
    while j < p.len()
        invariant
            j <= p@.len(),
            i + p@.len() <= s@.len(),
            s@.len() <= usize::MAX,
            forall|m: int| 0 <= m < j ==> s@[i + m] == p@[m],
        decreases p.len() - j,
    {
        if s[i + j] != p[j] {
            proof {
                assert(s@.subrange(i as int, i + p@.len())[j as int] == s@[i + j]);
            }
            return false;
        }
        j = j + 1;
    }
    proof {
        assert(s@.subrange(i as int, i + p@.len()) =~= p@);
    }
    true
}

/// Removes every occurrence of `p` from `s`.
pub(crate) fn replace_all(s: &Vec<char>, p: &Vec<char>) -> (r: Vec<char>)
    ensures
        r@ == replace_all_v(s@, p@),
{
    if p.len() == 0 {
        return copy_chars(s);
    }
    let mut out: Vec<char> = Vec::new();
    let mut i: usize = 0;
    proof {
        assert(s@.skip(0) =~= s@);
    }
    while i < s.len()
        invariant
            p@.len() > 0,
            i <= s@.len(),
            replace_all_v(s@, p@) == out@ + replace_all_v(s@.skip(i as int), p@),
        decreases s.len() - i,
    {
        let ghost rem = s@.skip(i as int);
        if match_at(s, p, i) {
            proof {
                assert(rem.take(p@.len() as int) =~= s@.subrange(i as int, i + p@.len()));
                assert(rem.skip(p@.len() as int) =~= s@.skip(i + p@.len()));
            }
            i = i + p.len();
        } else {
            let ghost prev = out@;
            out.push(s[i]);
            proof {
                if rem.len() >= p@.len() {
                    assert(rem.take(p@.len() as int) =~= s@.subrange(
                        i as int,
                        i + p@.len(),
                    ));
                    assert(rem.drop_first() =~= s@.skip(i + 1));
                    assert(rem[0] == s@[i as int]);
                    assert(out@ + replace_all_v(s@.skip(i + 1), p@)
                        =~= prev + (seq![s@[i as int]] + replace_all_v(s@.skip(i + 1), p@)));
                } else {
                    assert(rem.drop_first() =~= s@.skip(i + 1));
                    assert(replace_all_v(rem, p@) == rem);
                    assert(replace_all_v(s@.skip(i + 1), p@) == s@.skip(i + 1));
                    assert(rem =~= seq![s@[i as int]] + s@.skip(i + 1));
                    assert(out@ + s@.skip(i + 1) =~= prev + rem);
                }
            }
            i = i + 1;
        }
        proof {
            assert(replace_all_v(s@, p@) =~= out@ + replace_all_v(s@.skip(i as int), p@));
        }
    }
    proof {
        assert(s@.skip(s@.len() as int).len() == 0);
        assert(replace_all_v(s@.skip(s@.len() as int), p@)
            == s@.skip(s@.len() as int));
        assert(out@ =~= replace_all_v(s@, p@));
    }
    out
}

/// `s` repeated `k` times.
pub(crate) fn repeat_chars(s: &Vec<char>, k: usize) -> (r: Vec<char>)
    ensures
        r@ == repeat_chars_v(s@, k as int),
{
    let mut out: Vec<char> = Vec::new();
    let mut j: usize = 0;
    while j < k
        invariant
            j <= k,
            out@ == repeat_chars_v(s@, j as int),
        decreases k - j,
    {
        extend_chars(&mut out, s);
        j = j + 1;
    }
    out
}

/// `objs_v` distributes over concatenation.
pub proof fn lemma_objs_v_concat(x: Seq<Object>, y: Seq<Object>)
    ensures
        objs_v(x + y) == objs_v(x) + objs_v(y),
{
    lemma_objs_v(x);
    lemma_objs_v(y);
    lemma_objs_v(x + y);
    assert(objs_v(x + y) =~= objs_v(x) + objs_v(y));
}

/// The elements of `s` repeated `k` times.
pub(crate) fn repeat_objs(s: &Vec<Object>, k: usize) -> (r: Vec<Object>)
    ensures
        objs_v(r@) == repeat_objs_v(objs_v(s@), k as int),
{
    let mut out: Vec<Object> = Vec::new();
    let mut j: usize = 0;
    proof {
        assert(objs_v(out@) =~= repeat_objs_v(objs_v(s@), 0));
    }
    while j < k
        invariant
            j <= k,
            objs_v(out@) == repeat_objs_v(objs_v(s@), j as int),
        decreases k - j,
    {
        let ghost before = out@;
        let mut piece = dup_objects(s);
        let ghost piece_snap = piece@;
        proof {
            lemma_objs_v(piece@);
            lemma_objs_v(s@);
            assert(objs_v(piece@) =~= objs_v(s@));
        }
        out.append(&mut piece);
        proof {
            assert(out@ == before + piece_snap);
            lemma_objs_v_concat(before, piece_snap);
        }
        j = j + 1;
    }
    out
}

/// Truthiness, decided.
pub(crate) fn truthy(o: &Object) -> (r: bool)
    ensures
        r == truthy_v(obj_v(*o)),
{
    match o {
        Object::Str(s) => s.len() != 0,
        Object::Num(b) => !num::num_is_zero(*b),
        Object::Bool(b) => *b,
        _ => false,
    }
}

/// Boolean negation, decided.
fn obj_not(o: &Object) -> (r: bool)
    ensures
        r == not_v(obj_v(*o)),
{
    !truthy(o)
}

/// Applies a binary arithmetic or bit operator to two values.
pub(crate) fn bin_op_obj(op: BinKind, l: Object, r: Object) -> (res: Object)
    ensures
        obj_v(res) == bin_op_v(op, obj_v(l), obj_v(r)),
{
    match op {
        BinKind::Plus => match (l, r) {
            (Object::Num(x), Object::Num(y)) => Object::Num(num::num_add(x, y)),
            (Object::Num(x), Object::Str(s)) => {
                let mut out = num::num_display(x);
                extend_chars(&mut out, &s);
                Object::Str(out)
            },
            (Object::Str(mut s), Object::Str(t)) => {
                extend_chars(&mut s, &t);
                Object::Str(s)
            },
            (Object::Str(mut s), other) => {
                let piece = other.display_chars();
                extend_chars(&mut s, &piece);
                proof {
                    let _ = obj_v(other);
                }
                Object::Str(s)
            },
            (Object::List(mut x), Object::List(y)) => {
                let ghost xs = x@;
                let mut y2 = y;
                let ghost ys = y2@;
                x.append(&mut y2);
                proof {
                    lemma_objs_v_concat(xs, ys);
                }
                Object::List(x)
            },
            (Object::List(mut x), other) => {
                let ghost xs = x@;
                x.push(other);
                proof {
                    lemma_objs_v(xs);
                    lemma_objs_v(x@);
                    assert(objs_v(x@) =~= objs_v(xs).push(obj_v(x@.last())));
                }
                Object::List(x)
            },
            (a, b) => {
                proof {
                    let _ = obj_v(a);
                    let _ = obj_v(b);
                }
                Object::Null
            },
        },
        BinKind::Minus => match (l, r) {
            (Object::Num(x), Object::Num(y)) => Object::Num(num::num_sub(x, y)),
            (Object::Str(s), Object::Num(y)) => {
                let n = to_count(y);
                if n >= s.len() {
                    Object::Str(Vec::new())
                } else {
                    let keep = s.len() - n;
                    let mut out: Vec<char> = Vec::new();
                    let mut i: usize = 0;
                    while i < keep
                        invariant
                            keep <= s@.len(),
                            i <= keep,
                            out@ == s@.take(i as int),
                        decreases keep - i,
                    {
                        out.push(s[i]);
                        proof {
                            assert(out@ =~= s@.take(i + 1 as int));
                        }
                        i = i + 1;
                    }
                    Object::Str(out)
                }
            },
            (Object::Str(s), Object::Str(t)) => Object::Str(replace_all(&s, &t)),
            (a, b) => {
                proof {
                    let _ = obj_v(a);
                    let _ = obj_v(b);
                }
                Object::Null
            },
        },
        BinKind::Multiply => match (l, r) {
            (Object::Num(x), Object::Num(y)) => Object::Num(num::num_mul(x, y)),
            (Object::Num(x), Object::Str(s)) => Object::Str(repeat_chars(&s, to_count(x))),
            (Object::Str(s), Object::Num(y)) => Object::Str(repeat_chars(&s, to_count(y))),
            (Object::List(x), Object::Num(y)) => Object::List(repeat_objs(&x, to_count(y))),
            (a, b) => {
                proof {
                    let _ = obj_v(a);
                    let _ = obj_v(b);
                }
                Object::Null
            },
        },
        BinKind::Divide => match (l, r) {
            (Object::Num(x), Object::Num(y)) => {
                if num::num_is_zero(y) {
                    Object::Invalid
                } else {
                    Object::Num(num::num_div(x, y))
                }
            },
            (a, b) => {
                proof {
                    let _ = obj_v(a);
                    let _ = obj_v(b);
                }
                Object::Invalid
            },
        },
        BinKind::BitAnd => match (l, r) {
            (Object::Num(x), Object::Num(y)) => {
                let ix = to_i32(x);
                let iy = to_i32(y);
                Object::Num(num::num_from_int((ix & iy) as i64))
            },
            (a, b) => {
                proof {
                    let _ = obj_v(a);
                    let _ = obj_v(b);
                }
                Object::Invalid
            },
        },
        BinKind::BitOr => match (l, r) {
            (Object::Num(x), Object::Num(y)) => {
                let ix = to_i32(x);
                let iy = to_i32(y);
                Object::Num(num::num_from_int((ix | iy) as i64))
            },
            (a, b) => {
                proof {
                    let _ = obj_v(a);
                    let _ = obj_v(b);
                }
                Object::Invalid
            },
        },
        BinKind::Shl => match (l, r) {
            (Object::Num(x), Object::Num(y)) => {
                let vx = to_i32(x);
                let vy = to_i32(y);
                let mask = (vy as u32) & 31;
                proof {
                    assert(((vy as u32) & 31) < 32) by (bit_vector);
                }
                let shifted = (((vx as u32) << mask) as i32) as i64;
                Object::Num(num::num_from_int(shifted))
            },
            (a, b) => {
                proof {
                    let _ = obj_v(a);
                    let _ = obj_v(b);
                }
                Object::Invalid
            },
        },
        BinKind::Shr => match (l, r) {
            (Object::Num(x), Object::Num(y)) => {
                let vx = to_i32(x);
                let vy = to_i32(y);
                let mask = (vy as u32) & 31;
                proof {
                    assert(((vy as u32) & 31) < 32) by (bit_vector);
                }
                let shifted = (vx >> mask) as i64;
                Object::Num(num::num_from_int(shifted))
            },
            (a, b) => {
                proof {
                    let _ = obj_v(a);
                    let _ = obj_v(b);
                }
                Object::Invalid
            },
        },
    }
}

/// Applies a comparison or boolean operator to two values.
pub(crate) fn cmp_op_obj(op: CmpKind, l: &Object, r: &Object) -> (res: Object)
    ensures
        obj_v(res) == cmp_op_v(op, obj_v(*l), obj_v(*r)),
{
    match op {
        CmpKind::EquEqu => Object::Bool(obj_eq(l, r)),
        CmpKind::NotEqu => Object::Bool(!obj_eq(l, r)),
        CmpKind::Greater => match (l, r) {
            (Object::Num(x), Object::Num(y)) => Object::Bool(num::num_lt(*y, *x)),
            _ => Object::Bool(false),
        },
        CmpKind::GreatEqu => match (l, r) {
            (Object::Num(x), Object::Num(y)) => Object::Bool(
                num::num_lt(*y, *x) || num::num_eq(*x, *y),
            ),
            _ => Object::Bool(false),
        },
        CmpKind::Less => match (l, r) {
            (Object::Num(x), Object::Num(y)) => Object::Bool(num::num_lt(*x, *y)),
            _ => Object::Bool(false),
        },
        CmpKind::LessEqu => match (l, r) {
            (Object::Num(x), Object::Num(y)) => Object::Bool(
                num::num_lt(*x, *y) || num::num_eq(*x, *y),
            ),
            _ => Object::Bool(false),
        },
        CmpKind::Bang => Object::Bool(obj_not(l)),
        CmpKind::And => {
            let a = truthy(l);
            let b = truthy(r);
            Object::Bool(a && b)
        },
        CmpKind::Or => {
            let a = truthy(l);
            let b = truthy(r);
            Object::Bool(a || b)
        },
    }
}

} // verus!
