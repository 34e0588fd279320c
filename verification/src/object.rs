//! The single tagged-union value type shared by parsed syntax and evaluated
//! results, together with its mathematical model.

use vstd::prelude::*;
use vstd::string::*;

verus! {

broadcast use vstd::seq::group_seq_axioms, vstd::std_specs::vec::group_vec_axioms;

/// A syntax object and a runtime value at once: programs are nested lists of
/// atoms, and evaluation returns values of the same shape.
#[derive(Debug, PartialEq, Eq)]
pub enum Object {
    /// The absence of a meaningful result (what `define` returns).
    Void,
    /// A logical truth value.
    Bool(bool),
    /// A signed 64-bit whole number.
    Integer(i64),
    /// A closure-like value: parameter names plus unevaluated body expressions.
    Lambda(Vec<String>, Vec<Object>),
    /// A name, used both for identifiers and for symbolic values.
    Symbol(String),
    /// The sole compound form, used for syntax and for aggregate results.
    List(Vec<Object>),
}

/// The mathematical model of an `Object`: strings become character sequences
/// and vectors become sequences.
#[verifier::ext_equal]
pub enum ObjectView {
    Void,
    Bool(bool),
    Integer(i64),
    Lambda(Seq<Seq<char>>, Seq<ObjectView>),
    Symbol(Seq<char>),
    List(Seq<ObjectView>),
}

/// The views of a sequence of strings, element by element.
pub open spec fn strs_view(v: Seq<String>) -> Seq<Seq<char>> {
    Seq::new(v.len(), |i: int| v[i]@)
}

/// The models of a sequence of objects, element by element.
pub open spec fn objs_view(v: Seq<Object>) -> Seq<ObjectView>
    decreases v, 1int,
{
    if v.len() == 0 {
        Seq::empty()
    } else {
        objs_view(v.drop_last()).push(obj_view(v.last()))
    }
}

/// The model of an object.
pub open spec fn obj_view(o: Object) -> ObjectView
    decreases o, 0int,
    via obj_view_dec
{
    match o {
        Object::Void => ObjectView::Void,
        Object::Bool(b) => ObjectView::Bool(b),
        Object::Integer(n) => ObjectView::Integer(n),
        Object::Lambda(params, body) => ObjectView::Lambda(strs_view(params@), objs_view(body@)),
        Object::Symbol(s) => ObjectView::Symbol(s@),
        Object::List(items) => ObjectView::List(objs_view(items@)),
    }
}

#[via_fn]
proof fn obj_view_dec(o: Object) {
    match o {
        Object::Lambda(params, body) => {
            assert(decreases_to!(o => body));
            assert(decreases_to!(body => body@));
        },
        Object::List(items) => {
            assert(decreases_to!(o => items));
            assert(decreases_to!(items => items@));
        },
        _ => {},
    }
}

impl View for Object {
    type V = ObjectView;

    open spec fn view(&self) -> ObjectView {
        obj_view(*self)
    }
}

/// The model of a sequence of objects is the sequence of their models.
pub broadcast proof fn lemma_objs_view(v: Seq<Object>)
    ensures
        (#[trigger] objs_view(v)).len() == v.len(),
        forall|i: int| 0 <= i < v.len() ==> objs_view(v)[i] == obj_view(v[i]),
    decreases v.len(),
{
    if v.len() > 0 {
        lemma_objs_view(v.drop_last());
    }
}

/// Character-by-character string equality, with the equality of the two
/// character sequences as its meaning.
pub fn str_eq(a: &str, b: &str) -> (r: bool)
    ensures
        r == (a@ == b@),
{
    let la: usize = a.unicode_len();
    let lb: usize = b.unicode_len();
    if la != lb {
        return false;
    }
    let mut i: usize = 0;
    while i < la
        invariant
            la == a@.len(),
            lb == b@.len(),
            la == lb,
            i <= la,
            forall|j: int| 0 <= j < i ==> a@[j] == b@[j],
        decreases la - i,
    {
        if a.get_char(i) != b.get_char(i) {
            return false;
        }
        i = i + 1;
    }
    proof {
        assert(a@ =~= b@);
    }
    true
}

/// A deep copy of a vector of strings, equal element by element.
pub fn clone_strings(v: &Vec<String>) -> (r: Vec<String>)
    ensures
        r@ == v@,
{
    let mut r: Vec<String> = Vec::new();
    let mut i: usize = 0;
    while i < v.len()
        invariant
            i <= v@.len(),
            r@ =~= v@.take(i as int),
        decreases v@.len() - i,
    {
        r.push(v[i].clone());
        i = i + 1;
    }
    proof {
        assert(r@ =~= v@);
    }
    r
}

/// A deep copy of a vector of objects; the copies have the same models.
pub fn duplicate_objects(v: &Vec<Object>) -> (r: Vec<Object>)
    ensures
        objs_view(r@) == objs_view(v@),
    decreases v@,
{
    let mut r: Vec<Object> = Vec::new();
    let mut i: usize = 0;
    while i < v.len()
        invariant
            i <= v@.len(),
            r@.len() == i,
            forall|k: int| 0 <= k < i ==> obj_view(r@[k]) == obj_view(v@[k]),
        decreases v@.len() - i,
    {
        proof {
            assert(decreases_to!(v@ => v@[i as int]));
        }
        let d = v[i].duplicate();
        r.push(d);
        i = i + 1;
    }
    proof {
        broadcast use lemma_objs_view;

        assert(objs_view(r@) =~= objs_view(v@));
    }
    r
}

impl Object {
    /// A deep copy of this object; the copy has the same model.
    pub fn duplicate(&self) -> (r: Object)
        ensures
            obj_view(r) == obj_view(*self),
        decreases *self,
    {
        match self {
            Object::Void => Object::Void,
            Object::Bool(b) => Object::Bool(*b),
            Object::Integer(n) => Object::Integer(*n),
            Object::Symbol(s) => Object::Symbol(s.clone()),
            Object::Lambda(params, body) => {
                proof {
                    assert(decreases_to!(*self => *body));
                    assert(decreases_to!(*body => body@));
                }
                let ps = clone_strings(params);
                let bs = duplicate_objects(body);
                proof {
                    assert(strs_view(ps@) == strs_view(params@));
                }
                Object::Lambda(ps, bs)
            },
            Object::List(items) => {
                proof {
                    assert(decreases_to!(*self => *items));
                    assert(decreases_to!(*items => items@));
                }
                let rs = duplicate_objects(items);
                Object::List(rs)
            },
        }
    }
}

} // verus!
