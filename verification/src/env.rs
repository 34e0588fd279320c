//! The chained lexical environment: a name-to-value mapping per scope, with
//! an optional parent link. Scopes live in one arena and parents are
//! back-references (indices), so every lookup chain moves toward the root.

use vstd::prelude::*;

use crate::object::{obj_view, str_eq, Object, ObjectView};

verus! {

/// One scope: its bindings, newest last, and the index of its parent scope.
pub struct Frame {
    pub parent: Option<usize>,
    pub vars: Vec<(String, Object)>,
}

/// The model of a frame.
#[verifier::ext_equal]
pub struct FrameView {
    pub parent: Option<int>,
    pub vars: Seq<(Seq<char>, ObjectView)>,
}

/// The model of a frame.
pub open spec fn frame_view(f: Frame) -> FrameView {
    FrameView {
        parent: match f.parent {
            Some(p) => Some(p as int),
            None => None,
        },
        vars: Seq::new(f.vars@.len(), |i: int| (f.vars@[i].0@, obj_view(f.vars@[i].1))),
    }
}

impl View for Frame {
    type V = FrameView;

    open spec fn view(&self) -> FrameView {
        frame_view(*self)
    }
}

/// An environment arena: frame 0 is the session root; children are created
/// by `extend` and point backward to their parents.
pub struct Env {
    pub frames: Vec<Frame>,
}

impl View for Env {
    type V = Seq<FrameView>;

    open spec fn view(&self) -> Seq<FrameView> {
        Seq::new(self.frames@.len(), |i: int| frame_view(self.frames@[i]))
    }
}

/// The parent of frame `i`, if any, is an earlier frame.
pub open spec fn parent_ok(fr: Seq<FrameView>, i: int) -> bool {
    match fr[i].parent {
        Some(p) => 0 <= p < i,
        None => true,
    }
}

/// A well-formed arena: at least the root frame, and every parent link points
/// strictly backward, so lookup chains terminate and no cycles are possible.
pub open spec fn env_wf(fr: Seq<FrameView>) -> bool {
    fr.len() >= 1 && forall|i: int| 0 <= i < fr.len() ==> #[trigger] parent_ok(fr, i)
}

/// The newest binding of `name` among `vars`, if any.
pub open spec fn lookup_in(vars: Seq<(Seq<char>, ObjectView)>, name: Seq<char>) -> Option<ObjectView>
    decreases vars.len(),
{
    if vars.len() == 0 {
        None
    } else if vars.last().0 == name {
        Some(vars.last().1)
    } else {
        lookup_in(vars.drop_last(), name)
    }
}

/// Lookup of `name` starting at frame `idx`: the local bindings first, then
/// the parent chain, `None` once the chain is exhausted.
pub open spec fn env_lookup(fr: Seq<FrameView>, idx: int, name: Seq<char>) -> Option<ObjectView>
    decreases idx,
{
    if !(0 <= idx < fr.len()) {
        None
    } else {
        match lookup_in(fr[idx].vars, name) {
            Some(v) => Some(v),
            None => match fr[idx].parent {
                Some(p) => if 0 <= p < idx {
                    env_lookup(fr, p, name)
                } else {
                    None
                },
                None => None,
            },
        }
    }
}

/// The arena after binding `name` to `val` in frame `idx` alone.
pub open spec fn set_in(fr: Seq<FrameView>, idx: int, name: Seq<char>, val: ObjectView) -> Seq<FrameView> {
    fr.update(idx, FrameView { parent: fr[idx].parent, vars: fr[idx].vars.push((name, val)) })
}

/// The model of an `Option<Object>` result.
pub open spec fn opt_view(r: Option<Object>) -> Option<ObjectView> {
    match r {
        Some(o) => Some(obj_view(o)),
        None => None,
    }
}

impl Env {
    /// The root environment: exactly one frame, no parent, no bindings.
    pub fn new() -> (r: Env)
        ensures
            r@ == seq![FrameView { parent: None, vars: Seq::<(Seq<char>, ObjectView)>::empty() }],
            env_wf(r@),
    {
        let mut frames: Vec<Frame> = Vec::new();
        frames.push(Frame { parent: None, vars: Vec::new() });
        let r = Env { frames };
        proof {
            assert(r@ =~~= seq![FrameView {
                parent: None,
                vars: Seq::<(Seq<char>, ObjectView)>::empty(),
            }]);
            assert(parent_ok(r@, 0));
        }
        r
    }

    /// A new scope whose parent is the frame at `parent`; its index is
    /// returned and the other frames are untouched.
    pub fn extend(&mut self, parent: usize) -> (cidx: usize)
        requires
            parent < old(self)@.len(),
        ensures
            cidx == old(self)@.len(),
            final(self)@ == old(self)@.push(FrameView {
                parent: Some(parent as int),
                vars: Seq::<(Seq<char>, ObjectView)>::empty(),
            }),
            env_wf(old(self)@) ==> env_wf(final(self)@),
    {
        let cidx = self.frames.len();
        self.frames.push(Frame { parent: Some(parent), vars: Vec::new() });
        proof {
            assert(self@ =~~= old(self)@.push(FrameView {
                parent: Some(parent as int),
                vars: Seq::<(Seq<char>, ObjectView)>::empty(),
            }));
            if env_wf(old(self)@) {
                assert forall|i: int| 0 <= i < self@.len() implies #[trigger] parent_ok(self@, i) by {
                    if i < old(self)@.len() {
                        assert(parent_ok(old(self)@, i));
                    }
                }
            }
        }
        cidx
    }

    /// The innermost binding of `name` visible from frame `idx`: the local
    /// mapping first, then the parent chain transitively.
    pub fn get(&self, idx: usize, name: &str) -> (r: Option<Object>)
        requires
            env_wf(self@),
            idx < self@.len(),
        ensures
            opt_view(r) == env_lookup(self@, idx as int, name@),
        decreases idx,
    {
        let fr = &self.frames[idx];
        let ghost vars: Seq<(Seq<char>, ObjectView)> = self@[idx as int].vars;
        let mut j: usize = fr.vars.len();
        proof {
            assert(vars.take(j as int) =~= vars);
        }
        while j > 0
            invariant
                self@[idx as int] == frame_view(*fr),
                idx < self@.len(),
                vars == self@[idx as int].vars,
                j <= fr.vars@.len(),
                vars.len() == fr.vars@.len(),
                lookup_in(vars, name@) == lookup_in(vars.take(j as int), name@),
            decreases j,
        {
            j = j - 1;
            let pair = &fr.vars[j];
            proof {
                assert(vars.take(j as int + 1).last() == vars[j as int]);
                assert(vars.take(j as int + 1).drop_last() =~= vars.take(j as int));
            }
            if str_eq(pair.0.as_str(), name) {
                return Some(pair.1.duplicate());
            }
        }
        proof {
            assert(vars.take(0) =~= Seq::<(Seq<char>, ObjectView)>::empty());
            assert(lookup_in(vars, name@) is None);
        }
        match fr.parent {
            Some(p) => {
                proof {
                    assert(parent_ok(self@, idx as int));
                }
                self.get(p, name)
            },
            None => None,
        }
    }

    /// Insert or overwrite `name` in frame `idx` alone; no parent frame is
    /// ever written through.
    pub fn set(&mut self, idx: usize, name: &str, val: Object)
        requires
            idx < old(self)@.len(),
        ensures
            final(self)@ == set_in(old(self)@, idx as int, name@, obj_view(val)),
            env_wf(old(self)@) ==> env_wf(final(self)@),
    {
        let ghost oldview: Seq<FrameView> = self@;
        let owned_name: String = name.to_owned();
        let ghost valview: ObjectView = obj_view(val);
        self.frames[idx].vars.push((owned_name, val));
        proof {
            assert(self@[idx as int].vars =~= oldview[idx as int].vars.push((name@, valview)));
            assert(self@[idx as int] =~~= set_in(oldview, idx as int, name@, valview)[idx as int]);
            assert(self@ =~~= set_in(oldview, idx as int, name@, valview));
            if env_wf(oldview) {
                assert forall|i: int| 0 <= i < self@.len() implies #[trigger] parent_ok(self@, i) by {
                    assert(parent_ok(oldview, i));
                }
            }
        }
    }
}

/// After `name` is bound to `val` in frame `idx`, looking `name` up from
/// that same frame answers exactly `val`: the newest local binding wins.
pub proof fn lemma_set_then_lookup(fr: Seq<FrameView>, idx: int, name: Seq<char>, val: ObjectView)
    requires
        0 <= idx < fr.len(),
    ensures
        env_lookup(set_in(fr, idx, name, val), idx, name) == Some(val),
{
    let fr2 = set_in(fr, idx, name, val);
    assert(fr2[idx].vars.last() == (name, val));
    assert(lookup_in(fr2[idx].vars, name) == Some(val));
}

/// A binding made in a child frame never alters what a parent sees: after
/// `name` is bound in frame `c`, every lookup that starts at any earlier
/// frame `p` — in particular `c`'s parent — answers exactly as before, for
/// every name.
pub proof fn lemma_child_define_preserves_parent(
    fr: Seq<FrameView>,
    c: int,
    name: Seq<char>,
    val: ObjectView,
    p: int,
    q: Seq<char>,
)
    requires
        env_wf(fr),
        0 <= p < c < fr.len(),
    ensures
        env_lookup(set_in(fr, c, name, val), p, q) == env_lookup(fr, p, q),
    decreases p,
{
    let fr2 = set_in(fr, c, name, val);
    assert(fr2[p] == fr[p]);
    assert(parent_ok(fr, p));
    match fr[p].parent {
        Some(pp) => {
            if lookup_in(fr[p].vars, q) is None {
                lemma_child_define_preserves_parent(fr, c, name, val, pp, q);
            }
        },
        None => {},
    }
}

} // verus!
