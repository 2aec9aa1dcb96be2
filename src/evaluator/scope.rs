//! Lexical scopes: a tree of frames, each binding names to expansions.
//!
//! Frames live in an arena and refer to their parent by index. A lookup
//! searches a frame's own bindings, the latest first, then its ancestors.
use crate::evaluator::expansion::{expansion_model, Expansion, ExpansionModel};
use vstd::prelude::*;

verus! {

/// One binding: the frame it belongs to, the name and the expansion.
pub struct Binding {
    pub frame: usize,
    pub name: String,
    pub expansion: Expansion,
}

/// The arena of frames: the parent of each, and all bindings in order.
pub struct EvaluatorScope {
    pub parents: Vec<Option<usize>>,
    pub bindings: Vec<Binding>,
}

/// The mathematical model of an [`EvaluatorScope`].
pub struct ScopeModel {
    pub parents: Seq<Option<nat>>,
    pub bindings: Seq<(nat, Seq<char>, ExpansionModel)>,
}

pub open spec fn option_nat(o: Option<usize>) -> Option<nat> {
    match o {
        Some(p) => Some(p as nat),
        None => None,
    }
}

pub open spec fn binding_model(b: Binding) -> (nat, Seq<char>, ExpansionModel) {
    (b.frame as nat, b.name@, expansion_model(b.expansion))
}

impl View for EvaluatorScope {
    type V = ScopeModel;

    open spec fn view(&self) -> ScopeModel {
        ScopeModel {
            parents: self.parents@.map_values(|p: Option<usize>| option_nat(p)),
            bindings: self.bindings@.map_values(|b: Binding| binding_model(b)),
        }
    }
}

/// The latest of the first `n` bindings that binds `name` in `frame`.
pub open spec fn local_lookup(
    bindings: Seq<(nat, Seq<char>, ExpansionModel)>,
    n: int,
    frame: nat,
    name: Seq<char>,
) -> Option<ExpansionModel>
    decreases n,
{
    if n <= 0 || n > bindings.len() {
        None
    } else if bindings[n - 1].0 == frame && bindings[n - 1].1 == name {
        Some(bindings[n - 1].2)
    } else {
        local_lookup(bindings, n - 1, frame, name)
    }
}

/// What `name` means in `frame`: its own binding, else its parent's meaning.
pub open spec fn lookup(s: ScopeModel, frame: int, name: Seq<char>) -> Option<ExpansionModel>
    decreases frame,
{
    if frame < 0 || frame >= s.parents.len() {
        None
    } else {
        match local_lookup(s.bindings, s.bindings.len() as int, frame as nat, name) {
            Some(x) => Some(x),
            None => match s.parents[frame] {
                Some(p) => if p < frame {
                    lookup(s, p as int, name)
                } else {
                    None
                },
                None => None,
            },
        }
    }
}

/// The scope with a new frame whose parent is `parent`.
pub open spec fn with_child(s: ScopeModel, parent: nat) -> ScopeModel {
    ScopeModel { parents: s.parents.push(Some(parent)), bindings: s.bindings }
}

/// The scope with `name` bound to `x` in `frame`.
pub open spec fn with_binding(
    s: ScopeModel,
    frame: nat,
    name: Seq<char>,
    x: ExpansionModel,
) -> ScopeModel {
    ScopeModel { parents: s.parents, bindings: s.bindings.push((frame, name, x)) }
}

/// The first `n` items of `s`, or all of them when there are fewer.
pub open spec fn prefix<A>(s: Seq<A>, n: nat) -> Seq<A> {
    if n <= s.len() {
        s.subrange(0, n as int)
    } else {
        s
    }
}

/// The scope cut back to `frames` frames and `bindings` bindings.
pub open spec fn released(s: ScopeModel, frames: nat, bindings: nat) -> ScopeModel {
    ScopeModel { parents: prefix(s.parents, frames), bindings: prefix(s.bindings, bindings) }
}

/// The scope with one frame and no binding.
pub open spec fn root_scope() -> ScopeModel {
    ScopeModel { parents: seq![None], bindings: Seq::empty() }
}

impl EvaluatorScope {
    /// A scope with a root frame (frame 0) and no binding.
    pub fn new() -> (r: Self)
        ensures
            r@ == root_scope(),
    {
        let mut parents: Vec<Option<usize>> = Vec::new();
        parents.push(None);
        let r = Self { parents, bindings: Vec::new() };
        assert(r@.parents =~= seq![None]);
        assert(r@.bindings =~= Seq::<(nat, Seq<char>, ExpansionModel)>::empty());
        r
    }

    /// Adds a frame whose parent is `parent`, and returns its index.
    pub fn child(&mut self, parent: usize) -> (r: usize)
        ensures
            final(self)@ == with_child(old(self)@, parent as nat),
            r == old(self)@.parents.len(),
            extends(old(self)@, final(self)@),
    {
        let r = self.parents.len();
        self.parents.push(Some(parent));
        assert(final(self)@.parents =~= old(self)@.parents.push(Some(parent as nat)));
        assert(final(self)@.bindings =~= old(self)@.bindings);
        assert(final(self)@.parents.subrange(0, old(self)@.parents.len() as int) =~= old(self)@.parents);
        assert(final(self)@.bindings.subrange(0, old(self)@.bindings.len() as int) =~= old(self)@.bindings);
        r
    }

    /// Binds `name` to `expansion` in `frame`; it shadows earlier bindings.
    pub fn set(&mut self, frame: usize, name: &String, expansion: Expansion)
        ensures
            final(self)@ == with_binding(
                old(self)@,
                frame as nat,
                name@,
                expansion_model(expansion),
            ),
            extends(old(self)@, final(self)@),
    {
        self.bindings.push(Binding { frame, name: name.clone(), expansion });
        assert(final(self)@.parents =~= old(self)@.parents);
        assert(final(self)@.bindings =~= old(self)@.bindings.push(
            (frame as nat, name@, expansion_model(expansion)),
        ));
        assert(final(self)@.parents =~= old(self)@.parents);
        assert(final(self)@.parents.subrange(0, old(self)@.parents.len() as int) =~= old(self)@.parents);
        assert(final(self)@.bindings.subrange(0, old(self)@.bindings.len() as int) =~= old(self)@.bindings);
    }

    /// What `name` means in `frame`.
    pub fn get(&self, frame: usize, name: &String) -> (r: Option<&Expansion>)
        ensures
            match r {
                Some(x) => lookup(self@, frame as int, name@) == Some(expansion_model(*x)),
                None => lookup(self@, frame as int, name@) == None::<ExpansionModel>,
            },
    {
        let mut f: usize = frame;
        loop
            invariant
                lookup(self@, frame as int, name@) == lookup(self@, f as int, name@),
            decreases f,
        {
            if f >= self.parents.len() {
                return None;
            }
            let mut n: usize = self.bindings.len();
            while n > 0
                invariant
                    n <= self.bindings@.len(),
                    f < self.parents@.len(),
                    lookup(self@, frame as int, name@) == lookup(self@, f as int, name@),
                    local_lookup(self@.bindings, self@.bindings.len() as int, f as nat, name@)
                        == local_lookup(self@.bindings, n as int, f as nat, name@),
                decreases n,
            {
                let b = &self.bindings[n - 1];
                if b.frame == f && b.name == *name {
                    return Some(&b.expansion);
                }
                n -= 1;
            }
            match self.parents[f] {
                Some(p) => {
                    if p < f {
                        f = p;
                    } else {
                        return None;
                    }
                },
                None => {
                    return None;
                },
            }
        }
    }

    /// The numbers of frames and of bindings, to return to with [`Self::release`].
    pub fn mark(&self) -> (r: (usize, usize))
        ensures
            r.0 == self@.parents.len(),
            r.1 == self@.bindings.len(),
    {
        (self.parents.len(), self.bindings.len())
    }

    /// Discards the frames and bindings made after `mark`.
    pub fn release(&mut self, mark: (usize, usize))
        ensures
            final(self)@ == released(old(self)@, mark.0 as nat, mark.1 as nat),
    {
        self.parents.truncate(mark.0);
        self.bindings.truncate(mark.1);
        assert(final(self)@.parents =~= prefix(old(self)@.parents, mark.0 as nat));
        assert(final(self)@.bindings =~= prefix(old(self)@.bindings, mark.1 as nat));
    }
}

} // verus!

verus! {

/// `b` holds the frames and bindings of `a`, unchanged, and maybe more after them.
pub open spec fn extends(a: ScopeModel, b: ScopeModel) -> bool {
    &&& a.parents.len() <= b.parents.len()
    &&& a.bindings.len() <= b.bindings.len()
    &&& b.parents.subrange(0, a.parents.len() as int) == a.parents
    &&& b.bindings.subrange(0, a.bindings.len() as int) == a.bindings
}

pub proof fn lemma_extends_refl(a: ScopeModel)
    ensures
        extends(a, a),
{
    assert(a.parents.subrange(0, a.parents.len() as int) =~= a.parents);
    assert(a.bindings.subrange(0, a.bindings.len() as int) =~= a.bindings);
}

pub proof fn lemma_extends_trans(a: ScopeModel, b: ScopeModel, c: ScopeModel)
    requires
        extends(a, b),
        extends(b, c),
    ensures
        extends(a, c),
{
    assert(c.parents.subrange(0, a.parents.len() as int) =~= c.parents.subrange(
        0,
        b.parents.len() as int,
    ).subrange(0, a.parents.len() as int));
    assert(c.bindings.subrange(0, a.bindings.len() as int) =~= c.bindings.subrange(
        0,
        b.bindings.len() as int,
    ).subrange(0, a.bindings.len() as int));
}

/// Cutting an extension of `a` back to the sizes of `a` gives `a`.
pub proof fn lemma_release_extension(a: ScopeModel, b: ScopeModel)
    requires
        extends(a, b),
    ensures
        released(b, a.parents.len(), a.bindings.len()) == a,
{
    assert(released(b, a.parents.len(), a.bindings.len()).parents =~= a.parents);
    assert(released(b, a.parents.len(), a.bindings.len()).bindings =~= a.bindings);
}

} // verus!
