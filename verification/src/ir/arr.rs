//! Array initialisers: bringing a braced initialiser into the full shape of
//! the array it initialises.
use vstd::prelude::*;

use vstd::slice::slice_subrange;

use crate::parse::ast::Expr;

verus! {

/// An element of an array initialiser.
#[derive(Debug)]
pub enum InitElem {
    /// An expression for one element.
    Expr(Expr),
    /// A braced list.
    List(Vec<InitElem>),
    /// Zeros for an array of the given dimensions (none: one element).
    Zero(Vec<usize>),
}

/// The shape of an initialiser element, with its lists as sequences.
pub enum InitShape {
    Expr(Expr),
    List(Seq<InitShape>),
    Zero(Seq<usize>),
}

pub open spec fn shape_of(e: InitElem) -> InitShape
    decreases e, 1nat,
{
    match e {
        InitElem::Expr(x) => InitShape::Expr(x),
        InitElem::List(v) => InitShape::List(shapes_of(v@)),
        InitElem::Zero(d) => InitShape::Zero(d@),
    }
}

pub open spec fn shapes_of(s: Seq<InitElem>) -> Seq<InitShape>
    decreases s, 0nat,
{
    if s.len() == 0 {
        Seq::empty()
    } else {
        shapes_of(s.drop_last()).push(shape_of(s.last()))
    }
}

/// The depth of nesting of an element, read against `depth` remaining
/// dimensions: 0 for an expression, the number of dimensions of a zero
/// block, and one more than the deepest element of a list. `None` where a
/// non-empty list lies deeper than the dimensions, or the depth overflows.
pub open spec fn dim_of(e: InitShape, depth: nat) -> Option<nat>
    decreases e, 1nat,
{
    match e {
        InitShape::Expr(_) => Some(0),
        InitShape::Zero(d) => Some(d.len()),
        InitShape::List(es) => match list_dim(es, depth) {
            Some(m) => if m + 1 <= usize::MAX {
                Some(m + 1)
            } else {
                None
            },
            None => None,
        },
    }
}

/// The deepest nesting among the elements of a list read against `depth`
/// dimensions (each against one fewer); 0 for none.
pub open spec fn list_dim(es: Seq<InitShape>, depth: nat) -> Option<nat>
    decreases es, 0nat,
{
    if es.len() == 0 {
        Some(0)
    } else if depth == 0 {
        None
    } else {
        match (list_dim(es.drop_last(), depth), dim_of(es.last(), (depth - 1) as nat)) {
            (Some(a), Some(b)) => Some(if a >= b { a } else { b }),
            _ => None,
        }
    }
}

/// `ret` filled up to `size` elements with `zero`.
pub open spec fn padded(ret: Seq<InitShape>, size: nat, zero: InitShape) -> Seq<InitShape> {
    ret + Seq::new((size - ret.len()) as nat, |i: int| zero)
}

/// The innermost dimension: takes expressions, and zero elements, from the
/// top of `stack` (its last item) while fewer than `d0` are taken.
pub open spec fn take_row(stack: Seq<InitShape>, d0: nat, ret: Seq<InitShape>) -> (Seq<InitShape>, Seq<InitShape>)
    decreases stack.len(),
{
    if stack.len() == 0 || ret.len() >= d0 {
        (ret, stack)
    } else {
        match stack.last() {
            InitShape::Expr(_) => take_row(stack.drop_last(), d0, ret.push(stack.last())),
            InitShape::Zero(d) => if d.len() == 0 {
                take_row(stack.drop_last(), d0, ret.push(stack.last()))
            } else {
                (ret, stack)
            },
            InitShape::List(_) => (ret, stack),
        }
    }
}

/// The shape of the zero block for the dimensions `dims`.
pub open spec fn zero_of(dims: Seq<usize>) -> InitShape {
    InitShape::Zero(dims)
}

/// The stack, top last, from a list: its first element on top.
pub open spec fn stack_of(s: Seq<InitShape>) -> Seq<InitShape> {
    s.reverse()
}

/// Whether the top of the stack is an expression.
pub open spec fn expr_on_top(stack: Seq<InitShape>) -> nat {
    if stack.len() > 0 && stack.last() is Expr {
        1
    } else {
        0
    }
}

/// Brings the elements on top of `stack` into the shape `dims`; gives the
/// elements of the array and what is left of the stack. `None` where the
/// initialiser cannot be brought into that shape (the cases the compiler
/// rejects).
pub open spec fn normalized_from(stack: Seq<InitShape>, dims: Seq<usize>) -> Option<(Seq<InitShape>, Seq<InitShape>)>
    decreases dims.len(), 1nat, 0nat, 0nat,
{
    if dims.len() == 0 {
        None
    } else if dims.len() == 1 {
        let (ret, rest) = take_row(stack, dims[0] as nat, Seq::empty());
        Some((padded(ret, dims[0] as nat, zero_of(Seq::empty())), rest))
    } else {
        match fill_rows(stack, dims, Seq::empty()) {
            Some((ret, rest)) => Some((padded(ret, dims[0] as nat, zero_of(dims.drop_first())), rest)),
            None => None,
        }
    }
}

/// The outer dimensions: takes the sub-arrays, `ret` holding those taken.
pub open spec fn fill_rows(stack: Seq<InitShape>, dims: Seq<usize>, ret: Seq<InitShape>) -> Option<(Seq<InitShape>, Seq<InitShape>)>
    decreases dims.len(), 0nat, (dims[0] - ret.len()) as nat, expr_on_top(stack),
{
    if dims.len() < 2 || stack.len() == 0 || ret.len() >= dims[0] {
        Some((ret, stack))
    } else {
        let top = stack.last();
        let rest = stack.drop_last();
        match dim_of(top, dims.len()) {
            None => None,
            Some(d) => if d >= dims.len() {
                Some((ret, rest))
            } else {
                match top {
                    InitShape::List(sub) => if d == dims.len() - 1 {
                        match normalized_from(stack_of(sub), dims.drop_first()) {
                            Some((r, _)) => fill_rows(rest, dims, ret.push(InitShape::List(r))),
                            None => None,
                        }
                    } else {
                        match normalized_from(rest, dims.drop_first()) {
                            Some((r, rest2)) => fill_rows(rest2, dims, ret.push(InitShape::List(r))),
                            None => None,
                        }
                    },
                    InitShape::Expr(_) => match normalized_from(stack, dims.drop_first()) {
                        Some((r, rest2)) => fill_rows(rest2.push(InitShape::List(r)), dims, ret),
                        None => None,
                    },
                    InitShape::Zero(_) => None,
                }
            },
        }
    }
}

/// The initialiser `init` of an array of dimensions `dims`, brought into
/// the array's shape: `None` when it has more elements than the array, or
/// cannot be read against the dimensions.
pub open spec fn normalized(init: Seq<InitShape>, dims: Seq<usize>) -> Option<Seq<InitShape>> {
    match normalized_from(stack_of(init), dims) {
        Some((ret, rest)) => if rest.len() == 0 {
            Some(ret)
        } else {
            None
        },
        None => None,
    }
}

pub proof fn lemma_shapes_len(s: Seq<InitElem>)
    ensures
        shapes_of(s).len() == s.len(),
    decreases s.len(),
{
    if s.len() > 0 {
        lemma_shapes_len(s.drop_last());
    }
}

pub proof fn lemma_shapes_index(s: Seq<InitElem>, i: int)
    requires
        0 <= i < s.len(),
    ensures
        shapes_of(s)[i] == shape_of(s[i]),
    decreases s.len(),
{
    lemma_shapes_len(s.drop_last());
    if i < s.len() - 1 {
        lemma_shapes_index(s.drop_last(), i);
    }
}

pub proof fn lemma_shapes_push(s: Seq<InitElem>, x: InitElem)
    ensures
        shapes_of(s.push(x)) == shapes_of(s).push(shape_of(x)),
{
    assert(s.push(x).drop_last() =~= s);
}

/// A list readable to its end is readable up to any point, and each of its
/// elements is.
proof fn lemma_list_dim_prefix(es: Seq<InitShape>, depth: nat, i: int)
    requires
        list_dim(es, depth) is Some,
        0 <= i < es.len(),
    ensures
        list_dim(es.take(i), depth) is Some,
        depth > 0,
        dim_of(es[i], (depth - 1) as nat) is Some,
        list_dim(es.take(i + 1), depth) == (match (list_dim(es.take(i), depth), dim_of(es[i], (depth - 1) as nat)) {
            (Some(a), Some(b)) => Some(if a >= b { a } else { b }),
            _ => None,
        }),
    decreases es.len(),
{
    assert(es.take(i + 1).drop_last() =~= es.take(i));
    if i < es.len() - 1 {
        assert(es.drop_last().take(i) =~= es.take(i));
        assert(es.drop_last().take(i + 1) =~= es.take(i + 1));
        lemma_list_dim_prefix(es.drop_last(), depth, i);
    } else {
        assert(es.take(i) =~= es.drop_last());
        assert(es.take(i + 1) =~= es);
    }
}

/// The depth of nesting of `e` against `depth` dimensions.
pub fn get_dim(e: &InitElem, depth: usize) -> (r: usize)
    requires
        dim_of(shape_of(*e), depth as nat) is Some,
    ensures
        r == dim_of(shape_of(*e), depth as nat).unwrap(),
    decreases *e,
{
    match e {
        InitElem::Expr(_) => 0,
        InitElem::Zero(d) => d.len(),
        InitElem::List(v) => {
            let ghost es = shapes_of(v@);
            proof {
                lemma_shapes_len(v@);
            }
            let mut m: usize = 0;
            let mut i: usize = 0;
            proof {
                assert(es.take(0) =~= Seq::<InitShape>::empty());
            }
            while i < v.len()
                invariant
                    i <= v@.len(),
                    es == shapes_of(v@),
                    es.len() == v@.len(),
                    list_dim(es, depth as nat) is Some,
                    list_dim(es.take(i as int), depth as nat) == Some(m as nat),
                    *e == InitElem::List(*v),
                decreases v.len() - i,
            {
                proof {
                    lemma_list_dim_prefix(es, depth as nat, i as int);
                    lemma_shapes_index(v@, i as int);
                    assert(decreases_to!(*e => (*e)->List_0));
                    assert((*e)->List_0 == *v);
                    assert(decreases_to!(*v => v@));
                    assert(decreases_to!(v@ => v@[i as int]));
                }
                let d = get_dim(&v[i], depth - 1);
                if d > m {
                    m = d;
                }
                i = i + 1;
            }
            proof {
                assert(es.take(v@.len() as int) =~= es);
            }
            m + 1
        },
    }
}

/// The dimensions `dims[from..]`, as a vector of their own.
fn dims_from(dims: &[usize], from: usize) -> (r: Vec<usize>)
    requires
        from <= dims@.len(),
    ensures
        r@ == dims@.subrange(from as int, dims@.len() as int),
{
    let mut r: Vec<usize> = Vec::new();
    let mut i: usize = from;
    while i < dims.len()
        invariant
            from <= i <= dims@.len(),
            r@ == dims@.subrange(from as int, i as int),
        decreases dims.len() - i,
    {
        r.push(dims[i]);
        i = i + 1;
        proof {
            assert(r@ =~= dims@.subrange(from as int, i as int));
        }
    }
    r
}

/// Fills `ret` up to `size` elements with zero blocks of dimensions
/// `dims[from..]`.
fn pad(ret: &mut Vec<InitElem>, size: usize, dims: &[usize], from: usize)
    requires
        old(ret)@.len() <= size,
        from <= dims@.len(),
    ensures
        shapes_of(final(ret)@) == padded(shapes_of(old(ret)@), size as nat, zero_of(dims@.subrange(from as int, dims@.len() as int))),
{
    let ghost zero = zero_of(dims@.subrange(from as int, dims@.len() as int));
    let ghost start = shapes_of(ret@);
    proof {
        lemma_shapes_len(old(ret)@);
        assert(padded(start, start.len(), zero) =~= start);
    }
    while ret.len() < size
        invariant
            start.len() <= ret@.len() <= size,
            from <= dims@.len(),
            zero == zero_of(dims@.subrange(from as int, dims@.len() as int)),
            shapes_of(ret@) == padded(start, ret@.len() as nat, zero),
        decreases size - ret.len(),
    {
        let ghost before = ret@;
        let d = dims_from(dims, from);
        let ghost dv = d@;
        let elem = InitElem::Zero(d);
        proof {
            assert(shape_of(elem) == InitShape::Zero(dv));
            assert(dv == dims@.subrange(from as int, dims@.len() as int));
            assert(shape_of(elem) == zero);
        }
        ret.push(elem);
        proof {
            lemma_shapes_push(before, elem);
            assert(ret@ == before.push(elem));
            assert(padded(start, ret@.len() as nat, zero) =~= padded(start, before.len() as nat, zero).push(zero));
        }
    }
}

/// The elements of `v` in the reverse order.
fn reversed(v: Vec<InitElem>) -> (r: Vec<InitElem>)
    ensures
        shapes_of(r@) == shapes_of(v@).reverse(),
{
    let mut rem = v;
    let mut out: Vec<InitElem> = Vec::new();
    proof {
        assert(shapes_of(v@).reverse() =~= shapes_of(out@) + shapes_of(rem@).reverse());
    }
    while rem.len() > 0
        invariant
            shapes_of(v@).reverse() == shapes_of(out@) + shapes_of(rem@).reverse(),
        decreases rem.len(),
    {
        let ghost before = rem@;
        let ghost out0 = out@;
        let x = rem.pop().unwrap();
        proof {
            assert(before == rem@.push(x));
            lemma_shapes_push(rem@, x);
            lemma_shapes_push(out0, x);
        }
        out.push(x);
        proof {
            let a = shapes_of(rem@);
            assert(a.push(shape_of(x)).reverse() =~= seq![shape_of(x)] + a.reverse());
            assert(shapes_of(out0).push(shape_of(x)) + a.reverse() =~= shapes_of(out0) + (seq![shape_of(x)] + a.reverse()));
        }
    }
    proof {
        assert(shapes_of(rem@) =~= Seq::<InitShape>::empty());
        assert(shapes_of(out@) + Seq::<InitShape>::empty().reverse() =~= shapes_of(out@));
    }
    out
}

/// Takes the innermost row off the top of `stack` (see [`take_row`]).
fn take_row_exec(stack: &mut Vec<InitElem>, d0: usize) -> (r: Vec<InitElem>)
    ensures
        (shapes_of(r@), shapes_of(final(stack)@)) == take_row(shapes_of(old(stack)@), d0 as nat, Seq::empty()),
{
    let mut ret: Vec<InitElem> = Vec::new();
    proof {
        assert(shapes_of(ret@) =~= Seq::<InitShape>::empty());
    }
    loop
        invariant
            take_row(shapes_of(stack@), d0 as nat, shapes_of(ret@)) == take_row(shapes_of(old(stack)@), d0 as nat, Seq::empty()),
        ensures
            (shapes_of(ret@), shapes_of(stack@)) == take_row(shapes_of(old(stack)@), d0 as nat, Seq::empty()),
        decreases stack.len(),
    {
        proof {
            lemma_shapes_len(stack@);
            lemma_shapes_len(ret@);
        }
        if stack.len() == 0 || ret.len() >= d0 {
            break;
        }
        let ghost before = stack@;
        let ghost ret0 = ret@;
        let top = stack.pop().unwrap();
        proof {
            assert(before == stack@.push(top));
            lemma_shapes_push(stack@, top);
            assert(shapes_of(before).last() == shape_of(top));
            assert(shapes_of(before).drop_last() == shapes_of(stack@));
            lemma_shapes_len(before);
        }
        let keep = match &top {
            InitElem::Expr(_) => true,
            InitElem::Zero(d) => d.len() == 0,
            InitElem::List(_) => false,
        };
        if keep {
            ret.push(top);
            proof {
                lemma_shapes_push(ret0, top);
            }
        } else {
            stack.push(top);
            break;
        }
    }
    ret
}

/// Brings the elements on top of `stack` into the shape `dims` (see
/// [`normalized_from`]).
fn normalize_from(stack: &mut Vec<InitElem>, dims: &[usize]) -> (r: Vec<InitElem>)
    requires
        normalized_from(shapes_of(old(stack)@), dims@) is Some,
    ensures
        normalized_from(shapes_of(old(stack)@), dims@) == Some((shapes_of(r@), shapes_of(final(stack)@))),
    decreases dims@.len(),
{
    if dims.len() == 1 {
        let mut ret = take_row_exec(stack, dims[0]);
        proof {
            lemma_take_row_len(shapes_of(old(stack)@), dims[0] as nat, Seq::empty());
            lemma_shapes_len(ret@);
        }
        pad(&mut ret, dims[0], dims, 1);
        proof {
            assert(dims@.subrange(1, 1) =~= Seq::<usize>::empty());
        }
        return ret;
    }
    let sub_dims = slice_subrange(dims, 1, dims.len());
    proof {
        assert(sub_dims@ =~= dims@.drop_first());
    }
    let ghost target = fill_rows(shapes_of(old(stack)@), dims@, Seq::empty());
    let mut ret: Vec<InitElem> = Vec::new();
    proof {
        assert(shapes_of(ret@) =~= Seq::<InitShape>::empty());
    }
    loop
        invariant_except_break
            fill_rows(shapes_of(stack@), dims@, shapes_of(ret@)) == target,
        invariant
            dims@.len() >= 2,
            sub_dims@ == dims@.drop_first(),
            target is Some,
            ret@.len() <= dims@[0],
        ensures
            target == Some((shapes_of(ret@), shapes_of(stack@))),
            ret@.len() <= dims@[0],
        decreases dims@[0] - ret@.len(), expr_on_top(shapes_of(stack@)),
    {
        proof {
            lemma_shapes_len(stack@);
            lemma_shapes_len(ret@);
        }
        if stack.len() == 0 || ret.len() >= dims[0] {
            break;
        }
        let ghost before = stack@;
        let ghost ret0 = ret@;
        let top = stack.pop().unwrap();
        proof {
            assert(before == stack@.push(top));
            lemma_shapes_push(stack@, top);
            assert(shapes_of(before).last() == shape_of(top));
            assert(shapes_of(before).drop_last() == shapes_of(stack@));
            lemma_shapes_len(before);
        }
        let d = get_dim(&top, dims.len());
        if d >= dims.len() {
            break;
        }
        match top {
            InitElem::List(sub) => {
                if d == dims.len() - 1 {
                    let mut sub_stack = reversed(sub);
                    let r = normalize_from(&mut sub_stack, sub_dims);
                    let elem = InitElem::List(r);
                    ret.push(elem);
                    proof {
                        lemma_shapes_push(ret0, elem);
                    }
                } else {
                    let r = normalize_from(stack, sub_dims);
                    let elem = InitElem::List(r);
                    ret.push(elem);
                    proof {
                        lemma_shapes_push(ret0, elem);
                    }
                }
            },
            InitElem::Expr(x) => {
                let back = InitElem::Expr(x);
                let ghost rest = stack@;
                stack.push(back);
                proof {
                    lemma_shapes_push(rest, back);
                    assert(stack@ =~= before);
                }
                let r = normalize_from(stack, sub_dims);
                let elem = InitElem::List(r);
                let ghost rest2 = stack@;
                stack.push(elem);
                proof {
                    lemma_shapes_push(rest2, elem);
                }
            },
            InitElem::Zero(_) => {
                proof {
                    assert(false);
                }
            },
        }
    }
    proof {
        lemma_shapes_len(ret@);
    }
    pad(&mut ret, dims[0], dims, 1);
    ret
}

proof fn lemma_take_row_len(stack: Seq<InitShape>, d0: nat, ret: Seq<InitShape>)
    requires
        ret.len() <= d0,
    ensures
        take_row(stack, d0, ret).0.len() <= d0,
    decreases stack.len(),
{
    if stack.len() > 0 && ret.len() < d0 {
        match stack.last() {
            InitShape::Expr(_) => lemma_take_row_len(stack.drop_last(), d0, ret.push(stack.last())),
            InitShape::Zero(d) => if d.len() == 0 {
                lemma_take_row_len(stack.drop_last(), d0, ret.push(stack.last()));
            },
            _ => {},
        }
    }
}

/// The initialiser `init` of an array of dimensions `dims` in the full
/// shape of the array: each list as long as its dimension, sub-lists for
/// the outer dimensions, and missing elements filled with zero blocks.
pub fn normalize_array(init: Vec<InitElem>, dims: &[usize]) -> (r: Vec<InitElem>)
    requires
        normalized(shapes_of(init@), dims@) is Some,
    ensures
        normalized(shapes_of(init@), dims@) == Some(shapes_of(r@)),
{
    let mut stack = reversed(init);
    let r = normalize_from(&mut stack, dims);
    proof {
        lemma_shapes_len(stack@);
    }
    r
}

proof fn lemma_fill_rows_len(stack: Seq<InitShape>, dims: Seq<usize>, ret: Seq<InitShape>)
    requires
        dims.len() >= 2,
        ret.len() <= dims[0],
    ensures
        fill_rows(stack, dims, ret) matches Some((r, _)) ==> r.len() <= dims[0],
    decreases (dims[0] - ret.len()) as nat, expr_on_top(stack),
{
    if stack.len() > 0 && ret.len() < dims[0] {
        let top = stack.last();
        let rest = stack.drop_last();
        if let Some(d) = dim_of(top, dims.len()) {
            if d < dims.len() {
                match top {
                    InitShape::List(sub) => if d == dims.len() - 1 {
                        if let Some((r, _)) = normalized_from(stack_of(sub), dims.drop_first()) {
                            lemma_fill_rows_len(rest, dims, ret.push(InitShape::List(r)));
                        }
                    } else {
                        if let Some((r, rest2)) = normalized_from(rest, dims.drop_first()) {
                            lemma_fill_rows_len(rest2, dims, ret.push(InitShape::List(r)));
                        }
                    },
                    InitShape::Expr(_) => {
                        if let Some((r, rest2)) = normalized_from(stack, dims.drop_first()) {
                            lemma_fill_rows_len(rest2.push(InitShape::List(r)), dims, ret);
                        }
                    },
                    _ => {},
                }
            }
        }
    }
}

/// Law: an initialiser brought into the shape of an array has exactly as
/// many elements as the array's first dimension.
pub proof fn law_normalized_length(init: Seq<InitShape>, dims: Seq<usize>)
    requires
        normalized(init, dims) is Some,
    ensures
        normalized(init, dims).unwrap().len() == dims[0],
{
    if dims.len() == 1 {
        lemma_take_row_len(stack_of(init), dims[0] as nat, Seq::empty());
    } else {
        lemma_fill_rows_len(stack_of(init), dims, Seq::empty());
    }
}

/// An element in the full shape of an array of dimensions `dims`: for a
/// single element, an expression or a zero; for an array, a zero block of
/// those dimensions, or a list with as many elements as the first dimension,
/// each in the shape of the remaining dimensions.
pub open spec fn well_shaped(e: InitShape, dims: Seq<usize>) -> bool
    decreases dims.len(),
{
    if dims.len() == 0 {
        e is Expr || e == zero_of(Seq::empty())
    } else {
        ||| e == zero_of(dims)
        ||| (e matches InitShape::List(es) && es.len() == dims[0] && forall|i: int|
            0 <= i < es.len() ==> well_shaped(#[trigger] es[i], dims.drop_first()))
    }
}

/// Every element of `s` is in the shape of the dimensions `dims`.
pub open spec fn all_shaped(s: Seq<InitShape>, dims: Seq<usize>) -> bool {
    forall|i: int| 0 <= i < s.len() ==> well_shaped(#[trigger] s[i], dims)
}

proof fn lemma_shaped_push(s: Seq<InitShape>, x: InitShape, dims: Seq<usize>)
    requires
        all_shaped(s, dims),
        well_shaped(x, dims),
    ensures
        all_shaped(s.push(x), dims),
{
    assert forall|i: int| 0 <= i < s.push(x).len() implies well_shaped(#[trigger] s.push(x)[i], dims) by {
        if i < s.len() {
            assert(s.push(x)[i] == s[i]);
        }
    }
}

proof fn lemma_take_row_shape(stack: Seq<InitShape>, d0: nat, ret: Seq<InitShape>)
    requires
        all_shaped(ret, Seq::empty()),
    ensures
        all_shaped(take_row(stack, d0, ret).0, Seq::empty()),
    decreases stack.len(),
{
    if stack.len() > 0 && ret.len() < d0 {
        match stack.last() {
            InitShape::Expr(_) => {
                lemma_shaped_push(ret, stack.last(), Seq::empty());
                lemma_take_row_shape(stack.drop_last(), d0, ret.push(stack.last()));
            },
            InitShape::Zero(d) => if d.len() == 0 {
                assert(d =~= Seq::<usize>::empty());
                lemma_shaped_push(ret, stack.last(), Seq::empty());
                lemma_take_row_shape(stack.drop_last(), d0, ret.push(stack.last()));
            },
            _ => {},
        }
    }
}

proof fn lemma_padded_shape(ret: Seq<InitShape>, size: nat, zero: InitShape, dims: Seq<usize>)
    requires
        all_shaped(ret, dims),
        well_shaped(zero, dims),
        ret.len() <= size,
    ensures
        padded(ret, size, zero).len() == size,
        all_shaped(padded(ret, size, zero), dims),
{
    let p = padded(ret, size, zero);
    assert forall|i: int| 0 <= i < p.len() implies well_shaped(#[trigger] p[i], dims) by {
        if i < ret.len() {
            assert(p[i] == ret[i]);
        } else {
            assert(p[i] == zero);
        }
    }
}

proof fn lemma_normalized_from_shape(stack: Seq<InitShape>, dims: Seq<usize>)
    requires
        dims.len() >= 1,
    ensures
        normalized_from(stack, dims) matches Some((r, _)) ==> r.len() == dims[0] && all_shaped(r, dims.drop_first()),
    decreases dims.len(), 1nat, 0nat, 0nat,
{
    if dims.len() == 1 {
        assert(dims.drop_first() =~= Seq::<usize>::empty());
        lemma_take_row_len(stack, dims[0] as nat, Seq::empty());
        lemma_take_row_shape(stack, dims[0] as nat, Seq::empty());
        let (ret, _) = take_row(stack, dims[0] as nat, Seq::empty());
        lemma_padded_shape(ret, dims[0] as nat, zero_of(Seq::empty()), Seq::empty());
    } else {
        lemma_fill_rows_len(stack, dims, Seq::empty());
        lemma_fill_rows_shape(stack, dims, Seq::empty());
        if let Some((ret, _)) = fill_rows(stack, dims, Seq::empty()) {
            lemma_padded_shape(ret, dims[0] as nat, zero_of(dims.drop_first()), dims.drop_first());
        }
    }
}

proof fn lemma_list_shaped(r: Seq<InitShape>, dims: Seq<usize>)
    requires
        dims.len() >= 2,
        r.len() == dims[1],
        all_shaped(r, dims.drop_first().drop_first()),
    ensures
        well_shaped(InitShape::List(r), dims.drop_first()),
{
}

proof fn lemma_fill_rows_shape(stack: Seq<InitShape>, dims: Seq<usize>, ret: Seq<InitShape>)
    requires
        dims.len() >= 2,
        all_shaped(ret, dims.drop_first()),
    ensures
        fill_rows(stack, dims, ret) matches Some((r, _)) ==> all_shaped(r, dims.drop_first()),
    decreases dims.len(), 0nat, (dims[0] - ret.len()) as nat, expr_on_top(stack),
{
    if stack.len() > 0 && ret.len() < dims[0] {
        let top = stack.last();
        let rest = stack.drop_last();
        if let Some(d) = dim_of(top, dims.len()) {
            if d < dims.len() {
                match top {
                    InitShape::List(sub) => if d == dims.len() - 1 {
                        lemma_normalized_from_shape(stack_of(sub), dims.drop_first());
                        if let Some((r, _)) = normalized_from(stack_of(sub), dims.drop_first()) {
                            lemma_list_shaped(r, dims);
                            lemma_shaped_push(ret, InitShape::List(r), dims.drop_first());
                            lemma_fill_rows_shape(rest, dims, ret.push(InitShape::List(r)));
                        }
                    } else {
                        lemma_normalized_from_shape(rest, dims.drop_first());
                        if let Some((r, rest2)) = normalized_from(rest, dims.drop_first()) {
                            lemma_list_shaped(r, dims);
                            lemma_shaped_push(ret, InitShape::List(r), dims.drop_first());
                            lemma_fill_rows_shape(rest2, dims, ret.push(InitShape::List(r)));
                        }
                    },
                    InitShape::Expr(_) => {
                        if let Some((r, rest2)) = normalized_from(stack, dims.drop_first()) {
                            lemma_fill_rows_shape(rest2.push(InitShape::List(r)), dims, ret);
                        }
                    },
                    _ => {},
                }
            }
        }
    }
}

/// Law: an initialiser brought into the shape of an array is in that shape
/// throughout: as many elements as the first dimension, each a zero block of
/// the remaining dimensions or, nested, a list as long as its dimension, down
/// to single expressions and zeros.
pub proof fn law_normalized_shape(init: Seq<InitShape>, dims: Seq<usize>)
    requires
        normalized(init, dims) is Some,
    ensures
        normalized(init, dims).unwrap().len() == dims[0],
        all_shaped(normalized(init, dims).unwrap(), dims.drop_first()),
{
    lemma_normalized_from_shape(stack_of(init), dims);
}

} // verus!
