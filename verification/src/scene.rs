//! The scene graph: an arena of hierarchical nodes with lazy
//! world-transform resolution.
//!
//! Every node owns a local transform and a local scale relative to its
//! parent, and caches the composed absolute values together with an
//! `up_to_date` flag.  Mutating a node marks its whole resolved subtree
//! stale, pruning at nodes that are already stale; reading a world
//! transform re-resolves just the chain of ancestors it needs.
//!
//! Nodes live in an arena and are addressed by index; the parent
//! back-reference is an index too, so dropping the graph drops every
//! node, and no ownership cycle can form.  A ghost depth labels each
//! node with a number strictly greater than its parent's, which is what
//! makes every parent chain finite.
//!
//! The module is generic: `T` is the transform, `S` the scale, `O` the
//! renderable payload.  The concrete three-dimensional and planar scene
//! graphs instantiate it with fixed-point isometries and scale vectors.

use vstd::prelude::*;
use crate::transform::Compose;

verus! {

/// One node of the hierarchy.
#[verifier::ext_equal]
pub struct SceneNodeData<T, S, O> {
    /// Pose relative to the parent.
    pub local_transform: T,
    /// Scale relative to the parent.
    pub local_scale: S,
    /// Cached absolute pose; meaningful only while `up_to_date` holds.
    pub world_transform: T,
    /// Cached absolute scale; meaningful only while `up_to_date` holds.
    pub world_scale: S,
    /// Whether the cached absolute values are current.
    pub up_to_date: bool,
    /// Whether the node and its subtree take part in rendering.
    pub visible: bool,
    /// Arena index of the parent, if the node is not a root.
    pub parent: Option<usize>,
    /// Arena indices of the children.
    pub children: Vec<usize>,
    /// The renderable payload, if any.
    pub object: Option<O>,
}

/// The node arena.
pub struct SceneGraph<T, S, O> {
    /// The nodes; indices are stable for the life of the graph.
    pub nodes: Vec<SceneNodeData<T, S, O>>,
    /// A label per node, strictly greater than the parent's label; it
    /// bounds every walk toward a root.
    pub depth: Ghost<Seq<nat>>,
    /// How many nodes invalidation has flipped from current to stale
    /// since the graph was built, saturating; mutations that find their
    /// subtree already stale add nothing.
    pub invalidations: u64,
}

/// Why linking a child under a parent was refused.
#[derive(Clone, Copy, PartialEq, Eq, Structural, Debug)]
pub enum LinkError {
    /// The node to adopt already has a parent: a node never has two
    /// parents and is never silently reparented.
    NotARoot,
    /// The adopting node lies inside the subtree of the node to adopt,
    /// so the link would close a cycle.
    WouldCycle,
}

/// The depth label of `i` exceeds its parent's.
pub open spec fn pd_ok(par: Seq<Option<usize>>, dep: Seq<nat>, i: int) -> bool {
    match par[i] {
        Some(p) => (p as int) < par.len() && dep[p as int] < dep[i],
        None => true,
    }
}

/// The parent and depth sequences agree: equal length, indices fit the
/// machine, and depth strictly decreases toward a root, so parent
/// chains are finite.
pub open spec fn pd_wf(par: Seq<Option<usize>>, dep: Seq<nat>) -> bool {
    &&& dep.len() == par.len()
    &&& par.len() <= usize::MAX as int
    &&& forall|i: int| #![trigger par[i]] 0 <= i < par.len() ==> pd_ok(par, dep, i)
}

/// A vector never holds more elements than `usize` can count.
pub proof fn lemma_vec_len_bound<A>(v: &Vec<A>)
    ensures
        v@.len() <= usize::MAX as int,
{
    broadcast use vstd::std_specs::vec::axiom_spec_len;

    assert(vstd::std_specs::vec::spec_vec_len(v) == v@.len());
}

/// Whether `r` lies on the parent chain of `i` (inclusive): `i` is in
/// the subtree rooted at `r`.
pub open spec fn reaches(par: Seq<Option<usize>>, dep: Seq<nat>, r: int, i: int) -> bool
    decreases dep[i]
        when pd_wf(par, dep) && 0 <= i < par.len()
{
    i == r || (match par[i] {
        Some(p) => reaches(par, dep, r, p as int),
        None => false,
    })
}

/// The parent chain of `i`, itself first, its root last.
pub open spec fn chain_at(par: Seq<Option<usize>>, dep: Seq<nat>, i: int) -> Seq<int>
    decreases dep[i]
        when pd_wf(par, dep) && 0 <= i < par.len()
{
    match par[i] {
        Some(p) => seq![i] + chain_at(par, dep, p as int),
        None => seq![i],
    }
}

/// Whether `r` lies on the parent chain of `i` with every node on the
/// way, endpoints included, marked visible.
pub open spec fn vis_reaches(
    par: Seq<Option<usize>>,
    dep: Seq<nat>,
    vis: Seq<bool>,
    r: int,
    i: int,
) -> bool
    decreases dep[i]
        when pd_wf(par, dep) && 0 <= i < par.len()
{
    vis[i] && (i == r || (match par[i] {
        Some(p) => vis_reaches(par, dep, vis, r, p as int),
        None => false,
    }))
}

/// The composed absolute transform of `i`: the absolute transform of
/// its parent composed with its own local value, the root outermost.
pub open spec fn world_at<T: Compose>(
    par: Seq<Option<usize>>,
    dep: Seq<nat>,
    loc: Seq<T>,
    i: int,
) -> T
    decreases dep[i]
        when pd_wf(par, dep) && 0 <= i < par.len()
{
    match par[i] {
        Some(p) => T::compose_spec(world_at(par, dep, loc, p as int), loc[i]),
        None => loc[i],
    }
}

/// The composed absolute scale of `i`.  It composes from the parent's
/// local scale, not the parent's absolute scale; chains of three or
/// more scaled levels therefore ignore the further ancestors, which is
/// the documented behaviour this module preserves.
pub open spec fn wscale_at<S: Compose>(par: Seq<Option<usize>>, ls: Seq<S>, i: int) -> S {
    match par[i] {
        Some(p) => S::compose_spec(ls[i], ls[p as int]),
        None => ls[i],
    }
}

/// Membership in a subtree stays within the arena and never climbs in
/// depth.
pub proof fn lemma_reaches_range(par: Seq<Option<usize>>, dep: Seq<nat>, r: int, i: int)
    requires
        pd_wf(par, dep),
        0 <= i < par.len(),
        reaches(par, dep, r, i),
    ensures
        0 <= r < par.len(),
        dep[r] <= dep[i],
    decreases dep[i],
{
    if i != r {
        match par[i] {
            Some(p) => {
                lemma_reaches_range(par, dep, r, p as int);
            },
            None => {},
        }
    }
}

/// Subtree membership is transitive: what the child's subtree holds,
/// the parent's holds.
pub proof fn lemma_reaches_trans(par: Seq<Option<usize>>, dep: Seq<nat>, x: int, r: int, i: int)
    requires
        pd_wf(par, dep),
        0 <= i < par.len(),
        reaches(par, dep, r, i),
        reaches(par, dep, x, r),
    ensures
        reaches(par, dep, x, i),
    decreases dep[i],
{
    if i != r {
        match par[i] {
            Some(p) => {
                lemma_reaches_trans(par, dep, x, r, p as int);
            },
            None => {},
        }
    }
}

/// A node of a subtree other than its root is below one of the root's
/// children.
pub proof fn lemma_reaches_via_child(par: Seq<Option<usize>>, dep: Seq<nat>, i: int, j: int)
    requires
        pd_wf(par, dep),
        0 <= i < par.len(),
        0 <= j < par.len(),
        reaches(par, dep, i, j),
        i != j,
    ensures
        exists|c: int|
            0 <= c < par.len() && par[c] == Some(i as usize) && #[trigger] reaches(par, dep, c, j),
    decreases dep[j],
{
    match par[j] {
        Some(p) => {
            if p as int == i {
                assert(reaches(par, dep, j, j));
            } else {
                lemma_reaches_via_child(par, dep, i, p as int);
                let c = choose|c: int|
                    0 <= c < par.len() && par[c] == Some(i as usize) && #[trigger] reaches(
                        par,
                        dep,
                        c,
                        p as int,
                    );
                assert(reaches(par, dep, c, j));
            }
        },
        None => {},
    }
}

/// Agreement of two nodes on everything the graph invariant reads:
/// only visibility and payload may differ.
pub open spec fn same_node_core<T, S, O>(a: SceneNodeData<T, S, O>, b: SceneNodeData<T, S, O>) -> bool {
    &&& a.parent == b.parent
    &&& a.children@ == b.children@
    &&& a.local_transform == b.local_transform
    &&& a.local_scale == b.local_scale
    &&& a.up_to_date == b.up_to_date
    &&& a.world_transform == b.world_transform
    &&& a.world_scale == b.world_scale
}

/// The product of the local values along a chain listed node first
/// and root last: the root's value outermost, each descendant's
/// composed onto it in turn.
pub open spec fn chain_product<T: Compose>(loc: Seq<T>, ch: Seq<int>) -> T
    decreases ch.len(),
{
    if ch.len() <= 1 {
        loc[ch[0]]
    } else {
        T::compose_spec(chain_product(loc, ch.drop_first()), loc[ch[0]])
    }
}

/// Two ancestors of one node are comparable: one lies on the other's
/// chain.
pub proof fn lemma_reaches_linear(par: Seq<Option<usize>>, dep: Seq<nat>, a: int, b: int, x: int)
    requires
        pd_wf(par, dep),
        0 <= x < par.len(),
        reaches(par, dep, a, x),
        reaches(par, dep, b, x),
    ensures
        reaches(par, dep, a, b) || reaches(par, dep, b, a),
    decreases dep[x],
{
    lemma_reaches_range(par, dep, a, x);
    lemma_reaches_range(par, dep, b, x);
    if x == a {
        assert(reaches(par, dep, b, a));
    } else if x == b {
        assert(reaches(par, dep, a, b));
    } else {
        match par[x] {
            Some(p) => {
                lemma_reaches_linear(par, dep, a, b, p as int);
            },
            None => {},
        }
    }
}

/// Pushing onto a sequence adds exactly one member.
pub proof fn lemma_push_contains(s: Seq<usize>, v: usize)
    ensures
        forall|x: usize| #![trigger s.push(v).contains(x)]
            s.push(v).contains(x) == (s.contains(x) || x == v),
{
    assert forall|x: usize| s.push(v).contains(x) == (s.contains(x) || x == v) by {
        if s.push(v).contains(x) {
            let m = choose|m: int| 0 <= m < s.push(v).len() && s.push(v)[m] == x;
            if m < s.len() {
                assert(s[m] == x);
            }
        }
        if s.contains(x) {
            let m = choose|m: int| 0 <= m < s.len() && s[m] == x;
            assert(s.push(v)[m] == x);
        }
        if x == v {
            assert(s.push(v)[s.len() as int] == x);
        }
    }
}

/// Subtrees of two distinct children of one node share nothing.
pub proof fn lemma_sibling_subtrees_disjoint(
    par: Seq<Option<usize>>,
    dep: Seq<nat>,
    i: int,
    c1: int,
    c2: int,
    x: int,
)
    requires
        pd_wf(par, dep),
        0 <= i < par.len(),
        0 <= c1 < par.len(),
        0 <= c2 < par.len(),
        0 <= x < par.len(),
        par[c1] == Some(i as usize),
        par[c2] == Some(i as usize),
        c1 != c2,
        reaches(par, dep, c1, x),
    ensures
        !reaches(par, dep, c2, x),
{
    if reaches(par, dep, c2, x) {
        lemma_reaches_linear(par, dep, c1, c2, x);
        if reaches(par, dep, c1, c2) {
            assert(reaches(par, dep, c1, (i as usize) as int));
            lemma_reaches_range(par, dep, c1, i);
            assert(pd_ok(par, dep, c1));
            assert(false);
        } else {
            assert(reaches(par, dep, c2, (i as usize) as int));
            lemma_reaches_range(par, dep, c2, i);
            assert(pd_ok(par, dep, c2));
            assert(false);
        }
    }
}

/// A node on an all-visible path is in particular in the subtree.
pub proof fn lemma_vis_reaches_reaches(
    par: Seq<Option<usize>>,
    dep: Seq<nat>,
    vis: Seq<bool>,
    r: int,
    j: int,
)
    requires
        pd_wf(par, dep),
        0 <= j < par.len(),
        vis_reaches(par, dep, vis, r, j),
    ensures
        reaches(par, dep, r, j),
    decreases dep[j],
{
    if j != r {
        match par[j] {
            Some(p) => {
                lemma_vis_reaches_reaches(par, dep, vis, r, p as int);
            },
            None => {},
        }
    }
}

/// Agreement of two nodes on the links the structural invariant reads.
pub open spec fn node_links_eq<T, S, O>(
    a: SceneNodeData<T, S, O>,
    b: SceneNodeData<T, S, O>,
) -> bool {
    &&& a.parent == b.parent
    &&& a.children@ == b.children@
}

/// Agreement of two nodes on everything but the cache fields: an
/// operation that only resolves or invalidates caches preserves this.
pub open spec fn same_node_shape<T, S, O>(
    a: SceneNodeData<T, S, O>,
    b: SceneNodeData<T, S, O>,
) -> bool {
    &&& a.parent == b.parent
    &&& a.children@ == b.children@
    &&& a.local_transform == b.local_transform
    &&& a.local_scale == b.local_scale
    &&& a.visible == b.visible
    &&& a.object == b.object
}

/// The absolute transform depends only on the parents and local values
/// along the node's own chain of ancestors.
pub proof fn lemma_world_congruence<T: Compose>(
    par1: Seq<Option<usize>>,
    dep1: Seq<nat>,
    loc1: Seq<T>,
    par2: Seq<Option<usize>>,
    dep2: Seq<nat>,
    loc2: Seq<T>,
    j: int,
)
    requires
        pd_wf(par1, dep1),
        pd_wf(par2, dep2),
        loc1.len() == par1.len(),
        loc2.len() == par2.len(),
        0 <= j < par1.len(),
        forall|x: int|
            #[trigger] reaches(par1, dep1, x, j) ==> 0 <= x < par2.len() && par2[x] == par1[x]
                && loc2[x] == loc1[x],
    ensures
        world_at(par2, dep2, loc2, j) == world_at(par1, dep1, loc1, j),
    decreases dep1[j],
{
    assert(reaches(par1, dep1, j, j));
    match par1[j] {
        Some(p) => {
            assert(reaches(par1, dep1, p as int, p as int));
            assert(reaches(par1, dep1, p as int, j));
            assert forall|x: int| #[trigger] reaches(par1, dep1, x, p as int) implies 0 <= x
                < par2.len() && par2[x] == par1[x] && loc2[x] == loc1[x] by {
                assert(reaches(par1, dep1, x, j));
            }
            lemma_world_congruence(par1, dep1, loc1, par2, dep2, loc2, p as int);
        },
        None => {},
    }
}

impl<T: Compose, S: Compose, O> SceneGraph<T, S, O> {
    /// The number of nodes.
    pub open spec fn n(self) -> int {
        self.nodes@.len() as int
    }

    /// The parent of each node.
    pub open spec fn par(self) -> Seq<Option<usize>> {
        Seq::new(self.nodes@.len(), |i: int| self.nodes@[i].parent)
    }

    /// The depth label of each node.
    pub open spec fn dep(self) -> Seq<nat> {
        self.depth@
    }

    /// The local transform of each node.
    pub open spec fn loc(self) -> Seq<T> {
        Seq::new(self.nodes@.len(), |i: int| self.nodes@[i].local_transform)
    }

    /// The local scale of each node.
    pub open spec fn lsc(self) -> Seq<S> {
        Seq::new(self.nodes@.len(), |i: int| self.nodes@[i].local_scale)
    }

    /// The children of `i` point back to it, in range and without
    /// repetition.
    pub open spec fn kids_ok(self, i: int) -> bool {
        let ch = self.nodes@[i].children@;
        &&& ch.no_duplicates()
        &&& forall|k: int|
            0 <= k < ch.len() ==> {
                &&& (#[trigger] ch[k] as int) < self.n()
                &&& self.nodes@[ch[k] as int].parent == Some(i as usize)
            }
    }

    /// A parented node appears among its parent's children.
    pub open spec fn parent_linked(self, i: int) -> bool {
        match self.nodes@[i].parent {
            Some(p) => self.nodes@[p as int].children@.contains(i as usize),
            None => true,
        }
    }

    /// Structural well-formedness: finite parent chains and a
    /// consistent, duplicate-free child list on every node.
    pub open spec fn wf_basic(self) -> bool {
        &&& pd_wf(self.par(), self.dep())
        &&& forall|i: int| 0 <= i < self.n() ==> #[trigger] self.kids_ok(i)
        &&& forall|i: int| 0 <= i < self.n() ==> #[trigger] self.parent_linked(i)
    }

    /// The absolute transform the hierarchy assigns to `i`.
    pub open spec fn world_spec(self, i: int) -> T {
        world_at(self.par(), self.dep(), self.loc(), i)
    }

    /// The absolute scale the hierarchy assigns to `i`.
    pub open spec fn wscale_spec(self, i: int) -> S {
        wscale_at(self.par(), self.lsc(), i)
    }

    /// Whether `i` belongs to the subtree rooted at `r`.
    pub open spec fn in_subtree(self, r: int, i: int) -> bool {
        reaches(self.par(), self.dep(), r, i)
    }

    /// The node set of the subtree rooted at `r`.
    pub open spec fn subtree_set(self, r: int) -> Set<int> {
        Set::new(|i: int| 0 <= i < self.n() && self.in_subtree(r, i))
    }

    /// A current cache on `i` is truthful: its parent is current too and
    /// the cached values are the hierarchy's.
    pub open spec fn cache_ok(self, i: int) -> bool {
        self.nodes@[i].up_to_date ==> {
            &&& (match self.nodes@[i].parent {
                Some(p) => self.nodes@[p as int].up_to_date,
                None => true,
            })
            &&& self.nodes@[i].world_transform == self.world_spec(i)
            &&& self.nodes@[i].world_scale == self.wscale_spec(i)
        }
    }

    /// The graph invariant: structure is well formed and every current
    /// cache is truthful.
    pub open spec fn wf(self) -> bool {
        &&& self.wf_basic()
        &&& forall|i: int| 0 <= i < self.n() ==> #[trigger] self.cache_ok(i)
    }

    /// An empty graph holding one root node with neutral transform and
    /// scale, no payload, visible, and not yet resolved.
    pub fn new() -> (g: SceneGraph<T, S, O>)
        ensures
            g.wf(),
            g.n() == 1,
            g.nodes@[0].parent is None,
            g.nodes@[0].local_transform == T::one_spec(),
            g.nodes@[0].local_scale == S::one_spec(),
            g.nodes@[0].visible,
            !g.nodes@[0].up_to_date,
            g.nodes@[0].object is None,
            g.invalidations == 0,
    {
        let root = SceneNodeData {
            local_transform: T::one(),
            local_scale: S::one(),
            world_transform: T::one(),
            world_scale: S::one(),
            up_to_date: false,
            visible: true,
            parent: None,
            children: Vec::new(),
            object: None,
        };
        let mut nodes: Vec<SceneNodeData<T, S, O>> = Vec::new();
        nodes.push(root);
        let g = SceneGraph { nodes, depth: Ghost(Seq::empty().push(0nat)), invalidations: 0 };
        proof {
            lemma_vec_len_bound(&g.nodes);
            assert forall|i: int| 0 <= i < g.n() implies #[trigger] g.kids_ok(i) by {
                assert(g.nodes@[i].children@.len() == 0);
            }
            assert forall|i: int| 0 <= i < g.n() implies #[trigger] g.parent_linked(i) by {}
            assert forall|i: int| #![trigger g.par()[i]] 0 <= i < g.par().len() implies pd_ok(
                g.par(),
                g.dep(),
                i,
            ) by {}
            assert forall|i: int| 0 <= i < g.n() implies #[trigger] g.cache_ok(i) by {}
        }
        g
    }

    /// How many nodes the arena holds.
    pub fn len(&self) -> (r: usize)
        ensures
            r as int == self.n(),
    {
        self.nodes.len()
    }

    /// Whether `i` has no parent.
    pub fn is_root(&self, i: usize) -> (r: bool)
        requires
            i < self.n(),
        ensures
            r == (self.nodes@[i as int].parent is None),
    {
        self.nodes[i].parent.is_none()
    }

    /// The parent of `i`, if it has one.
    pub fn parent_of(&self, i: usize) -> (r: Option<usize>)
        requires
            i < self.n(),
        ensures
            r == self.nodes@[i as int].parent,
    {
        self.nodes[i].parent
    }

    /// Whether `i` is marked visible.
    pub fn is_visible(&self, i: usize) -> (r: bool)
        requires
            i < self.n(),
        ensures
            r == self.nodes@[i as int].visible,
    {
        self.nodes[i].visible
    }

    /// Whether the cached absolute values of `i` are current.
    pub fn is_up_to_date(&self, i: usize) -> (r: bool)
        requires
            i < self.n(),
        ensures
            r == self.nodes@[i as int].up_to_date,
    {
        self.nodes[i].up_to_date
    }

    /// Whether `i` carries a renderable payload.
    pub fn has_object(&self, i: usize) -> (r: bool)
        requires
            i < self.n(),
        ensures
            r == (self.nodes@[i as int].object is Some),
    {
        self.nodes[i].object.is_some()
    }

    /// The local transform of `i`.
    pub fn local_transformation(&self, i: usize) -> (r: T)
        requires
            i < self.n(),
        ensures
            r == self.nodes@[i as int].local_transform,
    {
        self.nodes[i].local_transform
    }

    /// The inverse of the local transform of `i`.
    pub fn inverse_local_transformation(&self, i: usize) -> (r: T)
        requires
            i < self.n(),
        ensures
            r == T::inverse_spec(self.nodes@[i as int].local_transform),
    {
        T::inverse(&self.nodes[i].local_transform)
    }

    /// The local scale of `i`.
    pub fn local_scale(&self, i: usize) -> (r: S)
        requires
            i < self.n(),
        ensures
            r == self.nodes@[i as int].local_scale,
    {
        self.nodes[i].local_scale
    }

    /// A child's subtree is strictly smaller than its parent's: the
    /// measure every walk down the hierarchy decreases.
    pub proof fn lemma_child_subtree_smaller(self, i: int, c: int)
        requires
            self.wf_basic(),
            0 <= i < self.n(),
            0 <= c < self.n(),
            self.nodes@[c].parent == Some(i as usize),
        ensures
            self.subtree_set(c).finite(),
            self.subtree_set(i).finite(),
            self.subtree_set(c).len() < self.subtree_set(i).len(),
            forall|j: int| self.in_subtree(c, j) && 0 <= j < self.n() ==> #[trigger] self.in_subtree(i, j),
    {
        let par = self.par();
        let dep = self.dep();
        assert(par[c] == Some(i as usize));
        assert(reaches(par, dep, i, i));
        assert(reaches(par, dep, i, (i as usize) as int));
        assert(reaches(par, dep, i, c));
        assert forall|j: int| reaches(par, dep, c, j) && 0 <= j < self.n() implies #[trigger] reaches(
            par,
            dep,
            i,
            j,
        ) by {
            lemma_reaches_trans(par, dep, i, c, j);
        }
        assert(self.subtree_set(c).subset_of(self.subtree_set(i)));
        if reaches(par, dep, c, i) {
            lemma_reaches_range(par, dep, c, i);
            assert(pd_ok(par, dep, c));
            assert(false);
        }
        assert(self.subtree_set(i).subset_of(vstd::set_lib::set_int_range(0, self.n())));
        vstd::set_lib::lemma_int_range(0, self.n());
        vstd::set_lib::lemma_len_subset(
            self.subtree_set(i),
            vstd::set_lib::set_int_range(0, self.n()),
        );
        assert(self.subtree_set(i).contains(i));
        assert(!self.subtree_set(c).contains(i));
        self.subtree_set(c).lemma_subset_not_in_lt(self.subtree_set(i), i);
    }

    /// Two graphs with the same links and depths are structurally well
    /// formed together, and read the same parent, local and scale
    /// sequences where their nodes agree on those fields.
    pub proof fn lemma_same_links_wf_basic(g1: Self, g2: Self)
        requires
            g1.wf_basic(),
            g2.n() == g1.n(),
            g2.dep() == g1.dep(),
            forall|i: int|
                0 <= i < g1.n() ==> #[trigger] node_links_eq(g2.nodes@[i], g1.nodes@[i]),
        ensures
            g2.wf_basic(),
            g2.par() == g1.par(),
    {
        assert forall|i: int| 0 <= i < g2.n() implies g2.par()[i] == g1.par()[i] by {
            assert(node_links_eq(g2.nodes@[i], g1.nodes@[i]));
        }
        assert(g2.par() =~= g1.par());
        assert forall|i: int| 0 <= i < g2.n() implies #[trigger] g2.kids_ok(i) by {
            assert(g1.kids_ok(i));
            assert(node_links_eq(g2.nodes@[i], g1.nodes@[i]));
            let ch = g2.nodes@[i].children@;
            assert forall|k: int| 0 <= k < ch.len() implies (#[trigger] ch[k] as int) < g2.n()
                && g2.nodes@[ch[k] as int].parent == Some(i as usize) by {
                assert(node_links_eq(g2.nodes@[ch[k] as int], g1.nodes@[ch[k] as int]));
            }
        }
        assert forall|i: int| 0 <= i < g2.n() implies #[trigger] g2.parent_linked(i) by {
            assert(g1.parent_linked(i));
            assert(node_links_eq(g2.nodes@[i], g1.nodes@[i]));
            match g2.nodes@[i].parent {
                Some(p) => {
                    assert(g1.par()[i] == g1.nodes@[i].parent);
                    assert(pd_ok(g1.par(), g1.dep(), i));
                    assert(node_links_eq(g2.nodes@[p as int], g1.nodes@[p as int]));
                },
                None => {},
            }
        }
    }

    /// Two graphs of one shape are well formed together: visibility and
    /// payloads play no part in the invariant.
    pub proof fn lemma_same_core_wf(g1: Self, g2: Self)
        requires
            g1.wf(),
            g2.n() == g1.n(),
            g2.dep() == g1.dep(),
            forall|i: int|
                0 <= i < g1.n() ==> #[trigger] same_node_core(g2.nodes@[i], g1.nodes@[i]),
        ensures
            g2.wf(),
    {
        assert forall|i: int| 0 <= i < g2.n() implies g2.par()[i] == g1.par()[i] by {
            assert(same_node_core(g2.nodes@[i], g1.nodes@[i]));
        }
        assert forall|i: int| 0 <= i < g2.n() implies g2.loc()[i] == g1.loc()[i] by {
            assert(same_node_core(g2.nodes@[i], g1.nodes@[i]));
        }
        assert forall|i: int| 0 <= i < g2.n() implies g2.lsc()[i] == g1.lsc()[i] by {
            assert(same_node_core(g2.nodes@[i], g1.nodes@[i]));
        }
        assert(g2.par() =~= g1.par());
        assert(g2.loc() =~= g1.loc());
        assert(g2.lsc() =~= g1.lsc());
        assert forall|i: int| 0 <= i < g2.n() implies #[trigger] g2.kids_ok(i) by {
            assert(g1.kids_ok(i));
            assert(same_node_core(g2.nodes@[i], g1.nodes@[i]));
            let ch = g2.nodes@[i].children@;
            assert forall|k: int| 0 <= k < ch.len() implies (#[trigger] ch[k] as int) < g2.n()
                && g2.nodes@[ch[k] as int].parent == Some(i as usize) by {
                assert(same_node_core(g2.nodes@[ch[k] as int], g1.nodes@[ch[k] as int]));
            }
        }
        assert forall|i: int| 0 <= i < g2.n() implies #[trigger] g2.parent_linked(i) by {
            assert(g1.parent_linked(i));
            assert(same_node_core(g2.nodes@[i], g1.nodes@[i]));
            match g2.nodes@[i].parent {
                Some(p) => {
                    assert(g1.par()[i] == g1.nodes@[i].parent);
                    assert(pd_ok(g1.par(), g1.dep(), i));
                    assert(same_node_core(g2.nodes@[p as int], g1.nodes@[p as int]));
                },
                None => {},
            }
        }
        assert forall|i: int| 0 <= i < g2.n() implies #[trigger] g2.cache_ok(i) by {
            assert(g1.cache_ok(i));
            assert(same_node_core(g2.nodes@[i], g1.nodes@[i]));
            if g2.nodes@[i].up_to_date {
                match g2.nodes@[i].parent {
                    Some(p) => {
                        assert(g1.par()[i] == g1.nodes@[i].parent);
                        assert(pd_ok(g1.par(), g1.dep(), i));
                        assert(same_node_core(g2.nodes@[p as int], g1.nodes@[p as int]));
                    },
                    None => {},
                }
            }
        }
    }

    /// What resolving node `i` may do to the graph: keep every node's
    /// shape, touch only the chain of ancestors of `i`, and only ever
    /// turn caches from stale to current.
    pub open spec fn resolves_frame(pre: Self, post: Self, i: int) -> bool {
        &&& post.n() == pre.n()
        &&& post.depth == pre.depth
        &&& post.invalidations == pre.invalidations
        &&& forall|j: int|
            0 <= j < pre.n() ==> #[trigger] same_node_shape(post.nodes@[j], pre.nodes@[j])
        &&& forall|j: int|
            0 <= j < pre.n() && !reaches(pre.par(), pre.dep(), j, i) ==> post.nodes@[j]
                == pre.nodes@[j]
        &&& forall|j: int|
            0 <= j < pre.n() && pre.nodes@[j].up_to_date ==> post.nodes@[j].up_to_date
    }

    /// Nodes of one shape read the same parent, local and scale
    /// sequences.
    pub proof fn lemma_shape_seqs(pre: Self, post: Self)
        requires
            post.n() == pre.n(),
            forall|j: int|
                0 <= j < pre.n() ==> #[trigger] same_node_shape(post.nodes@[j], pre.nodes@[j]),
        ensures
            post.par() == pre.par(),
            post.loc() == pre.loc(),
            post.lsc() == pre.lsc(),
    {
        assert forall|j: int| 0 <= j < post.n() implies post.par()[j] == pre.par()[j] by {
            assert(same_node_shape(post.nodes@[j], pre.nodes@[j]));
        }
        assert forall|j: int| 0 <= j < post.n() implies post.loc()[j] == pre.loc()[j] by {
            assert(same_node_shape(post.nodes@[j], pre.nodes@[j]));
        }
        assert forall|j: int| 0 <= j < post.n() implies post.lsc()[j] == pre.lsc()[j] by {
            assert(same_node_shape(post.nodes@[j], pre.nodes@[j]));
        }
        assert(post.par() =~= pre.par());
        assert(post.loc() =~= pre.loc());
        assert(post.lsc() =~= pre.lsc());
    }

    /// Resolves the cached absolute values of `i`, resolving its
    /// ancestors first; memoized, so an already-current node returns at
    /// once.
    fn update_node(&mut self, i: usize)
        requires
            old(self).wf(),
            (i as int) < old(self).n(),
        ensures
            final(self).wf(),
            Self::resolves_frame(*old(self), *final(self), i as int),
            final(self).nodes@[i as int].up_to_date,
        decreases self.dep()[i as int],
    {
        if self.nodes[i].up_to_date {
            proof {
                assert forall|j: int| 0 <= j < self.n() implies #[trigger] same_node_shape(
                    self.nodes@[j],
                    self.nodes@[j],
                ) by {}
            }
            return;
        }
        let ghost g0 = *self;
        let pa = self.nodes[i].parent;
        match pa {
            Some(p) => {
                proof {
                    assert(g0.par()[i as int] == g0.nodes@[i as int].parent);
                    assert(pd_ok(g0.par(), g0.dep(), i as int));
                }
                self.update_node(p);
                let ghost g1 = *self;
                let wt = T::compose(&self.nodes[p].world_transform, &self.nodes[i].local_transform);
                let ws = S::compose(&self.nodes[i].local_scale, &self.nodes[p].local_scale);
                let nd = &mut self.nodes[i];
                nd.world_transform = wt;
                nd.world_scale = ws;
                nd.up_to_date = true;
                proof {
                    self.lemma_update_step(g0, g1, i as int, p as int, wt, ws);
                }
            },
            None => {
                let wt = self.nodes[i].local_transform;
                let ws = self.nodes[i].local_scale;
                let nd = &mut self.nodes[i];
                nd.world_transform = wt;
                nd.world_scale = ws;
                nd.up_to_date = true;
                proof {
                    self.lemma_update_root(g0, i as int, wt, ws);
                }
            },
        }
    }

    /// What writing the resolved values into a parented node preserves.
    proof fn lemma_update_step(self, g0: Self, g1: Self, i: int, p: int, wt: T, ws: S)
        requires
            g0.wf(),
            0 <= i < g0.n(),
            g0.nodes@[i].parent == Some(p as usize),
            0 <= p < g0.n(),
            p != i,
            g1.wf(),
            Self::resolves_frame(g0, g1, p),
            g1.nodes@[p].up_to_date,
            self.nodes@ == g1.nodes@.update(
                i,
                (SceneNodeData {
                    world_transform: wt,
                    world_scale: ws,
                    up_to_date: true,
                    ..g1.nodes@[i]
                }),
            ),
            self.depth == g1.depth,
            self.invalidations == g1.invalidations,
            wt == T::compose_spec(g1.nodes@[p].world_transform, g1.nodes@[i].local_transform),
            ws == S::compose_spec(g1.nodes@[i].local_scale, g1.nodes@[p].local_scale),
        ensures
            self.wf(),
            Self::resolves_frame(g0, self, i),
            self.nodes@[i].up_to_date,
    {
        Self::lemma_shape_seqs(g0, g1);
        assert forall|j: int| 0 <= j < g1.n() implies #[trigger] same_node_shape(
            self.nodes@[j],
            g1.nodes@[j],
        ) by {}
        Self::lemma_shape_seqs(g1, self);
        assert forall|j: int| 0 <= j < g1.n() implies #[trigger] node_links_eq(
            self.nodes@[j],
            g1.nodes@[j],
        ) by {}
        Self::lemma_same_links_wf_basic(g1, self);
        // The caches that were truthful stay truthful, and the new one is.
        assert forall|j: int| 0 <= j < self.n() implies #[trigger] self.cache_ok(j) by {
            if j == i {
                assert(self.par()[i] == Some(p as usize));
                assert(self.nodes@[p].up_to_date);
                assert(g1.cache_ok(p));
                assert(g1.nodes@[p].world_transform == g1.world_spec(p));
                assert(self.world_spec(p) == g1.world_spec(p));
                assert(self.world_spec(i) == T::compose_spec(
                    self.world_spec(p),
                    self.loc()[i],
                ));
                assert(self.loc()[i] == g1.nodes@[i].local_transform);
                assert(self.lsc()[i] == g1.nodes@[i].local_scale);
                assert(self.lsc()[p] == g1.nodes@[p].local_scale);
                assert(self.wscale_spec(i) == S::compose_spec(self.lsc()[i], self.lsc()[p]));
            } else {
                assert(g1.cache_ok(j));
                if self.nodes@[j].up_to_date {
                    assert(self.world_spec(j) == g1.world_spec(j));
                    assert(self.wscale_spec(j) == g1.wscale_spec(j));
                    match self.nodes@[j].parent {
                        Some(q) => {
                            if q as int == i {
                                assert(self.nodes@[i].up_to_date);
                            }
                        },
                        None => {},
                    }
                }
            }
        }
        // The combined step still fits the resolution frame for `i`.
        assert forall|j: int| 0 <= j < g0.n() implies #[trigger] same_node_shape(
            self.nodes@[j],
            g0.nodes@[j],
        ) by {
            assert(same_node_shape(g1.nodes@[j], g0.nodes@[j]));
        }
        assert forall|j: int|
            0 <= j < g0.n() && !reaches(g0.par(), g0.dep(), j, i) implies self.nodes@[j]
            == g0.nodes@[j] by {
            assert(reaches(g0.par(), g0.dep(), i, i));
            assert(j != i);
            assert(!reaches(g0.par(), g0.dep(), j, p));
        }
    }

    /// What writing the resolved values into a root node preserves.
    proof fn lemma_update_root(self, g0: Self, i: int, wt: T, ws: S)
        requires
            g0.wf(),
            0 <= i < g0.n(),
            g0.nodes@[i].parent is None,
            self.nodes@ == g0.nodes@.update(
                i,
                (SceneNodeData {
                    world_transform: wt,
                    world_scale: ws,
                    up_to_date: true,
                    ..g0.nodes@[i]
                }),
            ),
            self.depth == g0.depth,
            self.invalidations == g0.invalidations,
            wt == g0.nodes@[i].local_transform,
            ws == g0.nodes@[i].local_scale,
        ensures
            self.wf(),
            Self::resolves_frame(g0, self, i),
            self.nodes@[i].up_to_date,
    {
        assert forall|j: int| 0 <= j < g0.n() implies #[trigger] same_node_shape(
            self.nodes@[j],
            g0.nodes@[j],
        ) by {}
        Self::lemma_shape_seqs(g0, self);
        assert forall|j: int| 0 <= j < g0.n() implies #[trigger] node_links_eq(
            self.nodes@[j],
            g0.nodes@[j],
        ) by {}
        Self::lemma_same_links_wf_basic(g0, self);
        assert forall|j: int| 0 <= j < self.n() implies #[trigger] self.cache_ok(j) by {
            if j == i {
                assert(self.par()[i] is None);
                assert(self.world_spec(i) == self.loc()[i]);
                assert(self.wscale_spec(i) == self.lsc()[i]);
            } else {
                assert(g0.cache_ok(j));
                if self.nodes@[j].up_to_date {
                    assert(self.world_spec(j) == g0.world_spec(j));
                    assert(self.wscale_spec(j) == g0.wscale_spec(j));
                    match self.nodes@[j].parent {
                        Some(q) => {
                            if q as int == i {
                                assert(self.nodes@[i].up_to_date);
                            }
                        },
                        None => {},
                    }
                }
            }
        }
        assert forall|j: int|
            0 <= j < g0.n() && !reaches(g0.par(), g0.dep(), j, i) implies self.nodes@[j]
            == g0.nodes@[j] by {
            assert(reaches(g0.par(), g0.dep(), i, i));
        }
    }

    /// Force-resolves `i` and returns its absolute transform.  Only the
    /// caches along the ancestor chain move, and only from stale to
    /// current: the rest of the graph is untouched.
    pub fn world_transformation(&mut self, i: usize) -> (r: T)
        requires
            old(self).wf(),
            (i as int) < old(self).n(),
        ensures
            final(self).wf(),
            Self::resolves_frame(*old(self), *final(self), i as int),
            final(self).nodes@[i as int].up_to_date,
            r == old(self).world_spec(i as int),
    {
        self.update_node(i);
        proof {
            Self::lemma_shape_seqs(*old(self), *self);
            assert(self.cache_ok(i as int));
        }
        self.nodes[i].world_transform
    }

    /// Force-resolves `i` and returns the inverse of its absolute
    /// transform.
    pub fn inverse_world_transformation(&mut self, i: usize) -> (r: T)
        requires
            old(self).wf(),
            (i as int) < old(self).n(),
        ensures
            final(self).wf(),
            Self::resolves_frame(*old(self), *final(self), i as int),
            r == T::inverse_spec(old(self).world_spec(i as int)),
    {
        self.update_node(i);
        proof {
            Self::lemma_shape_seqs(*old(self), *self);
            assert(self.cache_ok(i as int));
        }
        T::inverse(&self.nodes[i].world_transform)
    }

    /// Force-resolves `i` and returns its absolute scale.
    pub fn world_scale(&mut self, i: usize) -> (r: S)
        requires
            old(self).wf(),
            (i as int) < old(self).n(),
        ensures
            final(self).wf(),
            Self::resolves_frame(*old(self), *final(self), i as int),
            r == old(self).wscale_spec(i as int),
    {
        self.update_node(i);
        proof {
            Self::lemma_shape_seqs(*old(self), *self);
            assert(self.cache_ok(i as int));
        }
        self.nodes[i].world_scale
    }

    /// What invalidating the subtree of `i` does: every node keeps its
    /// fields, except that a cache current before stays current exactly
    /// when the node is outside the subtree of `i`.
    pub open spec fn invalidated(pre: Self, post: Self, i: int) -> bool {
        &&& post.n() == pre.n()
        &&& post.depth == pre.depth
        &&& forall|j: int|
            0 <= j < pre.n() ==> post.nodes@[j] == (SceneNodeData {
                up_to_date: pre.nodes@[j].up_to_date && !reaches(pre.par(), pre.dep(), i, j),
                ..pre.nodes@[j]
            })
    }

    /// Below a stale node every cache is stale: the invariant keeps
    /// staleness closed downward, which is what lets invalidation prune.
    pub proof fn lemma_dirty_down(self, c: int, j: int)
        requires
            self.wf(),
            0 <= c < self.n(),
            0 <= j < self.n(),
            reaches(self.par(), self.dep(), c, j),
            !self.nodes@[c].up_to_date,
        ensures
            !self.nodes@[j].up_to_date,
        decreases self.dep()[j],
    {
        if j != c {
            match self.nodes@[j].parent {
                Some(p) => {
                    assert(self.par()[j] == self.nodes@[j].parent);
                    assert(pd_ok(self.par(), self.dep(), j));
                    self.lemma_dirty_down(c, p as int);
                    assert(self.cache_ok(j));
                },
                None => {
                    assert(reaches(self.par(), self.dep(), c, j) == (j == c));
                },
            }
        }
    }

    /// A child of `i` has been swept by the first `k` entries of `i`'s
    /// child list.
    pub open spec fn swept(pre: Self, i: int, k: int, j: int) -> bool {
        exists|m: int|
            0 <= m < k && reaches(
                pre.par(),
                pre.dep(),
                #[trigger] pre.nodes@[i].children@[m] as int,
                j,
            )
    }

    /// Marks the resolved part of the subtree of `i` stale, pruning at
    /// nodes that are already stale, and reports how many caches it
    /// flipped.  On a subtree whose root is already stale it flips
    /// nothing and leaves the graph exactly as it was.
    fn invalidate_node(&mut self, i: usize) -> (count: u64)
        requires
            old(self).wf(),
            (i as int) < old(self).n(),
        ensures
            final(self).wf(),
            Self::invalidated(*old(self), *final(self), i as int),
            final(self).invalidations == old(self).invalidations,
            !old(self).nodes@[i as int].up_to_date ==> count == 0 && final(self).nodes@ == old(
                self,
            ).nodes@,
        decreases self.subtree_set(i as int).len(),
    {
        let ghost g0 = *self;
        let was: bool = self.nodes[i].up_to_date;
        let mut count: u64 = if was {
            1
        } else {
            0
        };
        let mut k: usize = 0;
        let nkids: usize = self.nodes[i].children.len();
        proof {
            assert(g0.kids_ok(i as int));
        }
        while k < nkids
            invariant
                g0 == *old(self),
                self.wf(),
                g0.wf(),
                0 <= (i as int) < g0.n(),
                nkids as int == g0.nodes@[i as int].children@.len(),
                k <= nkids,
                self.n() == g0.n(),
                self.depth == g0.depth,
                self.invalidations == g0.invalidations,
                forall|j: int|
                    0 <= j < g0.n() ==> self.nodes@[j] == (SceneNodeData {
                        up_to_date: g0.nodes@[j].up_to_date && !Self::swept(g0, i as int, k as int, j),
                        ..g0.nodes@[j]
                    }),
                !g0.nodes@[i as int].up_to_date ==> count == 0 && self.nodes@ == g0.nodes@,
                count == 0 ==> self.invalidations == g0.invalidations,
            decreases nkids - k,
        {
            let c = self.nodes[i].children[k];
            proof {
                assert(g0.kids_ok(i as int));
                assert(g0.nodes@[i as int].children@[k as int] == c);
                assert((c as int) < g0.n());
                assert(g0.nodes@[c as int].parent == Some(i as usize));
                assert(self.nodes@[c as int] == (SceneNodeData {
                    up_to_date: g0.nodes@[c as int].up_to_date && !Self::swept(
                        g0,
                        i as int,
                        k as int,
                        c as int,
                    ),
                    ..g0.nodes@[c as int]
                }));
            }
            if self.nodes[c].up_to_date {
                let ghost mid = *self;
                proof {
                    if !g0.nodes@[i as int].up_to_date {
                        assert(g0.nodes@[c as int].up_to_date);
                        assert(g0.cache_ok(c as int));
                        assert(false);
                    }
                    Self::lemma_shape_seqs_eq(g0, mid);
                    assert(mid.subtree_set(c as int) =~= g0.subtree_set(c as int));
                    assert(mid.subtree_set(i as int) =~= g0.subtree_set(i as int));
                    g0.lemma_child_subtree_smaller(i as int, c as int);
                    assert(mid.subtree_set(c as int).len() < g0.subtree_set(i as int).len());
                    assert(mid.subtree_set(c as int).len() < mid.subtree_set(i as int).len());
                }
                let sub = self.invalidate_node(c);
                count = if count > u64::MAX - sub {
                    u64::MAX
                } else {
                    count + sub
                };
                proof {
                    Self::lemma_sweep_extend(g0, mid, *self, i as int, k as int, c as int);
                }
            } else {
                proof {
                    let ghost mid = *self;
                    assert(!g0.nodes@[c as int].up_to_date || Self::swept(
                        g0,
                        i as int,
                        k as int,
                        c as int,
                    ));
                    Self::lemma_shape_seqs_eq(g0, mid);
                    assert forall|j: int| 0 <= j < g0.n() implies mid.nodes@[j]
                        == (SceneNodeData {
                        up_to_date: g0.nodes@[j].up_to_date && !Self::swept(
                            g0,
                            i as int,
                            (k + 1) as int,
                            j,
                        ),
                        ..g0.nodes@[j]
                    }) by {
                        if g0.nodes@[j].up_to_date && !Self::swept(g0, i as int, k as int, j) {
                            if reaches(g0.par(), g0.dep(), c as int, j) {
                                if g0.nodes@[c as int].up_to_date {
                                    assert(Self::swept(g0, i as int, k as int, c as int));
                                    let m = choose|m: int|
                                        0 <= m < k && reaches(
                                            g0.par(),
                                            g0.dep(),
                                            #[trigger] g0.nodes@[i as int].children@[m] as int,
                                            c as int,
                                        );
                                    lemma_reaches_trans(
                                        g0.par(),
                                        g0.dep(),
                                        g0.nodes@[i as int].children@[m] as int,
                                        c as int,
                                        j,
                                    );
                                    assert(Self::swept(g0, i as int, k as int, j));
                                    assert(false);
                                } else {
                                    mid.lemma_dirty_down(c as int, j);
                                    assert(false);
                                }
                            }
                            assert(!Self::swept(g0, i as int, (k + 1) as int, j)) by {
                                if Self::swept(g0, i as int, (k + 1) as int, j) {
                                    let m = choose|m: int|
                                        0 <= m < k + 1 && reaches(
                                            g0.par(),
                                            g0.dep(),
                                            #[trigger] g0.nodes@[i as int].children@[m] as int,
                                            j,
                                        );
                                    assert(m == k);
                                    assert(false);
                                }
                            }
                        } else {
                            if Self::swept(g0, i as int, k as int, j) {
                                let m = choose|m: int|
                                    0 <= m < k && reaches(
                                        g0.par(),
                                        g0.dep(),
                                        #[trigger] g0.nodes@[i as int].children@[m] as int,
                                        j,
                                    );
                                assert(Self::swept(g0, i as int, (k + 1) as int, j));
                            }
                        }
                    }
                }
            }
            k += 1;
        }
        self.nodes[i].up_to_date = false;
        proof {
            Self::lemma_invalidate_finish(g0, *self, i as int, nkids as int);
        }
        count
    }

    /// Sequence views agree between two graphs whose nodes differ at
    /// most in their `up_to_date` flag.
    proof fn lemma_shape_seqs_eq(g0: Self, g1: Self)
        requires
            g1.n() == g0.n(),
            forall|j: int|
                0 <= j < g0.n() ==> (#[trigger] g1.nodes@[j]).parent == g0.nodes@[j].parent
                    && g1.nodes@[j].local_transform == g0.nodes@[j].local_transform
                    && g1.nodes@[j].local_scale == g0.nodes@[j].local_scale,
        ensures
            g1.par() == g0.par(),
            g1.loc() == g0.loc(),
            g1.lsc() == g0.lsc(),
    {
        assert forall|j: int| 0 <= j < g1.n() implies g1.par()[j] == g0.par()[j] && g1.loc()[j]
            == g0.loc()[j] && g1.lsc()[j] == g0.lsc()[j] by {
            assert(g1.nodes@[j].parent == g0.nodes@[j].parent);
        }
        assert forall|j: int| 0 <= j < g1.n() implies g1.par()[j] == g0.par()[j] by {}
        assert forall|j: int| 0 <= j < g1.n() implies g1.loc()[j] == g0.loc()[j] by {}
        assert forall|j: int| 0 <= j < g1.n() implies g1.lsc()[j] == g0.lsc()[j] by {}
        assert(g1.par() =~= g0.par());
        assert(g1.loc() =~= g0.loc());
        assert(g1.lsc() =~= g0.lsc());
    }

    /// Extends the sweep bookkeeping over one recursive call on child
    /// `c`, the `k`-th child of `i`.
    proof fn lemma_sweep_extend(g0: Self, mid: Self, post: Self, i: int, k: int, c: int)
        requires
            g0.wf(),
            0 <= i < g0.n(),
            0 <= c < g0.n(),
            0 <= k < g0.nodes@[i].children@.len(),
            g0.nodes@[i].children@[k] == c as usize,
            mid.n() == g0.n(),
            mid.depth == g0.depth,
            forall|j: int|
                0 <= j < g0.n() ==> mid.nodes@[j] == (SceneNodeData {
                    up_to_date: g0.nodes@[j].up_to_date && !Self::swept(g0, i, k, j),
                    ..g0.nodes@[j]
                }),
            Self::invalidated(mid, post, c),
        ensures
            forall|j: int|
                0 <= j < g0.n() ==> post.nodes@[j] == (SceneNodeData {
                    up_to_date: g0.nodes@[j].up_to_date && !Self::swept(g0, i, k + 1, j),
                    ..g0.nodes@[j]
                }),
    {
        Self::lemma_shape_seqs_eq(g0, mid);
        assert forall|j: int| 0 <= j < g0.n() implies post.nodes@[j] == (SceneNodeData {
            up_to_date: g0.nodes@[j].up_to_date && !Self::swept(g0, i, k + 1, j),
            ..g0.nodes@[j]
        }) by {
            assert(mid.nodes@[j] == (SceneNodeData {
                up_to_date: g0.nodes@[j].up_to_date && !Self::swept(g0, i, k, j),
                ..g0.nodes@[j]
            }));
            assert(post.nodes@[j] == (SceneNodeData {
                up_to_date: mid.nodes@[j].up_to_date && !reaches(mid.par(), mid.dep(), c, j),
                ..mid.nodes@[j]
            }));
            let swept_now = Self::swept(g0, i, k + 1, j);
            let swept_before = Self::swept(g0, i, k, j);
            let hit = reaches(g0.par(), g0.dep(), c, j);
            assert(swept_now == (swept_before || hit)) by {
                if swept_before {
                    let m = choose|m: int|
                        0 <= m < k && reaches(
                            g0.par(),
                            g0.dep(),
                            #[trigger] g0.nodes@[i].children@[m] as int,
                            j,
                        );
                    assert(Self::swept(g0, i, k + 1, j));
                }
                if hit {
                    assert(g0.nodes@[i].children@[k] as int == c);
                    assert(Self::swept(g0, i, k + 1, j));
                }
                if swept_now && !swept_before && !hit {
                    let m = choose|m: int|
                        0 <= m < k + 1 && reaches(
                            g0.par(),
                            g0.dep(),
                            #[trigger] g0.nodes@[i].children@[m] as int,
                            j,
                        );
                    assert(m == k);
                    assert(false);
                }
            }
        }
    }

    /// Closes the invalidation argument once every child is swept: the
    /// swept region plus the root itself is exactly the subtree.
    proof fn lemma_invalidate_finish(g0: Self, post: Self, i: int, nkids: int)
        requires
            g0.wf(),
            0 <= i < g0.n(),
            nkids == g0.nodes@[i].children@.len(),
            post.n() == g0.n(),
            post.depth == g0.depth,
            post.invalidations == g0.invalidations,
            forall|j: int|
                0 <= j < g0.n() && j != i ==> post.nodes@[j] == (SceneNodeData {
                    up_to_date: g0.nodes@[j].up_to_date && !Self::swept(g0, i, nkids, j),
                    ..g0.nodes@[j]
                }),
            post.nodes@[i] == (SceneNodeData { up_to_date: false, ..g0.nodes@[i] }),
        ensures
            post.wf(),
            Self::invalidated(g0, post, i),
            !g0.nodes@[i].up_to_date ==> post.nodes@ == g0.nodes@,
    {
        let par = g0.par();
        let dep = g0.dep();
        // Swept exactly when in the subtree and not the root.
        assert forall|j: int| 0 <= j < g0.n() implies post.nodes@[j] == (SceneNodeData {
            up_to_date: g0.nodes@[j].up_to_date && !reaches(par, dep, i, j),
            ..g0.nodes@[j]
        }) by {
            if j == i {
                assert(reaches(par, dep, i, i));
            } else {
                assert(Self::swept(g0, i, nkids, j) == reaches(par, dep, i, j)) by {
                    if Self::swept(g0, i, nkids, j) {
                        let m = choose|m: int|
                            0 <= m < nkids && reaches(
                                par,
                                dep,
                                #[trigger] g0.nodes@[i].children@[m] as int,
                                j,
                            );
                        let c = g0.nodes@[i].children@[m] as int;
                        assert(g0.kids_ok(i));
                        assert(g0.nodes@[c].parent == Some(i as usize));
                        assert(par[c] == Some(i as usize));
                        assert(reaches(par, dep, i, i));
                        assert(reaches(par, dep, i, (i as usize) as int));
                        assert(reaches(par, dep, i, c));
                        lemma_reaches_trans(par, dep, i, c, j);
                    }
                    if reaches(par, dep, i, j) && j != i {
                        lemma_reaches_via_child(par, dep, i, j);
                        let c = choose|c: int|
                            0 <= c < par.len() && par[c] == Some(i as usize) && #[trigger] reaches(
                                par,
                                dep,
                                c,
                                j,
                            );
                        assert(g0.parent_linked(c));
                        assert(g0.nodes@[c].parent == par[c]);
                        assert(g0.nodes@[i].children@.contains(c as usize));
                        let m = choose|m: int|
                            0 <= m < nkids && g0.nodes@[i].children@[m] == c as usize;
                        assert(g0.nodes@[i].children@[m] as int == c);
                        assert(Self::swept(g0, i, nkids, j));
                    }
                }
            }
        }
        // Well-formedness of the result.
        assert forall|j: int| 0 <= j < g0.n() implies #[trigger] node_links_eq(
            post.nodes@[j],
            g0.nodes@[j],
        ) by {}
        Self::lemma_same_links_wf_basic(g0, post);
        Self::lemma_shape_seqs_eq(g0, post);
        assert forall|j: int| 0 <= j < post.n() implies #[trigger] post.cache_ok(j) by {
            if post.nodes@[j].up_to_date {
                assert(g0.nodes@[j].up_to_date);
                assert(!reaches(par, dep, i, j));
                assert(g0.cache_ok(j));
                assert(post.world_spec(j) == g0.world_spec(j));
                assert(post.wscale_spec(j) == g0.wscale_spec(j));
                match post.nodes@[j].parent {
                    Some(q) => {
                        assert(g0.par()[j] == g0.nodes@[j].parent);
                        assert(pd_ok(par, dep, j));
                        if reaches(par, dep, i, q as int) {
                            assert(reaches(par, dep, i, j));
                        }
                    },
                    None => {},
                }
            }
        }
        if !g0.nodes@[i].up_to_date {
            assert forall|j: int| 0 <= j < g0.n() implies post.nodes@[j] == g0.nodes@[j] by {
                if reaches(par, dep, i, j) {
                    g0.lemma_dirty_down(i, j);
                }
            }
            assert(post.nodes@ =~= g0.nodes@);
        }
    }

    /// After invalidating the subtree of `i`, node `i` itself may be
    /// rewritten freely as long as its links stay and its cache stays
    /// stale: no current cache anywhere reads it.
    proof fn lemma_stale_rewrite(g0: Self, g1: Self, post: Self, i: int)
        requires
            g0.wf(),
            g1.wf(),
            0 <= i < g0.n(),
            Self::invalidated(g0, g1, i),
            post.n() == g1.n(),
            post.depth == g1.depth,
            forall|j: int| 0 <= j < g1.n() && j != i ==> post.nodes@[j] == g1.nodes@[j],
            node_links_eq(post.nodes@[i], g1.nodes@[i]),
            !post.nodes@[i].up_to_date,
        ensures
            post.wf(),
    {
        let par = g0.par();
        let dep = g0.dep();
        assert forall|j: int| 0 <= j < g1.n() implies #[trigger] node_links_eq(
            post.nodes@[j],
            g1.nodes@[j],
        ) by {}
        Self::lemma_same_links_wf_basic(g1, post);
        Self::lemma_shape_seqs_eq(g0, g1);
        assert forall|j: int| 0 <= j < post.n() implies #[trigger] post.cache_ok(j) by {
            if post.nodes@[j].up_to_date {
                assert(j != i);
                assert(g1.nodes@[j] == post.nodes@[j]);
                assert(g1.nodes@[j] == (SceneNodeData {
                    up_to_date: g0.nodes@[j].up_to_date && !reaches(par, dep, i, j),
                    ..g0.nodes@[j]
                }));
                assert(g0.nodes@[j].up_to_date && !reaches(par, dep, i, j));
                assert(g0.cache_ok(j));
                // The chain of `j` avoids `i`, so the rewritten local
                // values at `i` do not enter its absolute values.
                assert forall|x: int| #[trigger] reaches(par, dep, x, j) implies 0 <= x
                    < post.par().len() && post.par()[x] == par[x] && post.loc()[x] == g0.loc()[x] by {
                    lemma_reaches_range(par, dep, x, j);
                    assert(x != i);
                    assert(post.nodes@[x] == g1.nodes@[x]);
                }
                lemma_world_congruence(par, dep, g0.loc(), post.par(), post.dep(), post.loc(), j);
                assert(post.world_spec(j) == g0.world_spec(j));
                // The scale composes from the node and its parent only,
                // and neither is `i`.
                match post.nodes@[j].parent {
                    Some(q) => {
                        assert(g0.par()[j] == g0.nodes@[j].parent);
                        assert(pd_ok(par, dep, j));
                        if reaches(par, dep, i, q as int) {
                            assert(reaches(par, dep, i, j));
                        }
                        assert(q as int != i);
                        assert(post.nodes@[q as int] == g1.nodes@[q as int]);
                        assert(post.lsc()[j] == g0.lsc()[j]);
                        assert(post.lsc()[q as int] == g0.lsc()[q as int]);
                        assert(post.wscale_spec(j) == g0.wscale_spec(j));
                        assert(g1.nodes@[q as int].up_to_date);
                    },
                    None => {
                        assert(post.lsc()[j] == g0.lsc()[j]);
                        assert(post.wscale_spec(j) == g0.wscale_spec(j));
                    },
                }
            }
        }
    }

    /// Replaces the local transform of `i` and marks the resolved part
    /// of its subtree stale; nothing outside the subtree moves, and a
    /// subtree already stale costs no invalidation work at all.
    pub fn set_local_transformation(&mut self, i: usize, t: T)
        requires
            old(self).wf(),
            (i as int) < old(self).n(),
        ensures
            final(self).wf(),
            final(self).n() == old(self).n(),
            final(self).depth == old(self).depth,
            forall|j: int|
                0 <= j < old(self).n() && j != i ==> final(self).nodes@[j] == (SceneNodeData {
                    up_to_date: old(self).nodes@[j].up_to_date && !reaches(
                        old(self).par(),
                        old(self).dep(),
                        i as int,
                        j,
                    ),
                    ..old(self).nodes@[j]
                }),
            final(self).nodes@[i as int] == (SceneNodeData {
                local_transform: t,
                up_to_date: false,
                ..old(self).nodes@[i as int]
            }),
            final(self).invalidations >= old(self).invalidations,
            !old(self).nodes@[i as int].up_to_date ==> final(self).invalidations == old(
                self,
            ).invalidations,
    {
        let ghost g0 = *self;
        let cnt = self.invalidate_node(i);
        let ghost ga = *self;
        self.invalidations = if self.invalidations > u64::MAX - cnt {
            u64::MAX
        } else {
            self.invalidations + cnt
        };
        let ghost g1 = *self;
        proof {
            assert forall|j: int| 0 <= j < ga.n() implies #[trigger] same_node_core(
                g1.nodes@[j],
                ga.nodes@[j],
            ) by {}
            Self::lemma_same_core_wf(ga, g1);
        }
        let nd = &mut self.nodes[i];
        nd.local_transform = t;
        proof {
            assert(Self::invalidated(g0, g1, i as int));
            assert(self.nodes@[i as int].up_to_date == false) by {
                assert(g1.nodes@[i as int] == (SceneNodeData {
                    up_to_date: g0.nodes@[i as int].up_to_date && !reaches(
                        g0.par(),
                        g0.dep(),
                        i as int,
                        i as int,
                    ),
                    ..g0.nodes@[i as int]
                }));
                assert(reaches(g0.par(), g0.dep(), i as int, i as int));
            }
            Self::lemma_stale_rewrite(g0, g1, *self, i as int);
        }
    }

    /// Replaces the local scale of `i` and marks the resolved part of
    /// its subtree stale, as `set_local_transformation` does.
    pub fn set_local_scale(&mut self, i: usize, s: S)
        requires
            old(self).wf(),
            (i as int) < old(self).n(),
        ensures
            final(self).wf(),
            final(self).n() == old(self).n(),
            final(self).depth == old(self).depth,
            forall|j: int|
                0 <= j < old(self).n() && j != i ==> final(self).nodes@[j] == (SceneNodeData {
                    up_to_date: old(self).nodes@[j].up_to_date && !reaches(
                        old(self).par(),
                        old(self).dep(),
                        i as int,
                        j,
                    ),
                    ..old(self).nodes@[j]
                }),
            final(self).nodes@[i as int] == (SceneNodeData {
                local_scale: s,
                up_to_date: false,
                ..old(self).nodes@[i as int]
            }),
            final(self).invalidations >= old(self).invalidations,
            !old(self).nodes@[i as int].up_to_date ==> final(self).invalidations == old(
                self,
            ).invalidations,
    {
        let ghost g0 = *self;
        let cnt = self.invalidate_node(i);
        let ghost ga = *self;
        self.invalidations = if self.invalidations > u64::MAX - cnt {
            u64::MAX
        } else {
            self.invalidations + cnt
        };
        let ghost g1 = *self;
        proof {
            assert forall|j: int| 0 <= j < ga.n() implies #[trigger] same_node_core(
                g1.nodes@[j],
                ga.nodes@[j],
            ) by {}
            Self::lemma_same_core_wf(ga, g1);
        }
        let nd = &mut self.nodes[i];
        nd.local_scale = s;
        proof {
            assert(Self::invalidated(g0, g1, i as int));
            assert(self.nodes@[i as int].up_to_date == false) by {
                assert(reaches(g0.par(), g0.dep(), i as int, i as int));
            }
            Self::lemma_stale_rewrite(g0, g1, *self, i as int);
        }
    }

    /// Composes `t` onto the local transform from the parent's side:
    /// the node moves as seen in its parent's frame.
    pub fn append_transformation(&mut self, i: usize, t: &T)
        requires
            old(self).wf(),
            (i as int) < old(self).n(),
        ensures
            final(self).wf(),
            final(self).n() == old(self).n(),
            final(self).depth == old(self).depth,
            forall|j: int|
                0 <= j < old(self).n() && j != i ==> final(self).nodes@[j] == (SceneNodeData {
                    up_to_date: old(self).nodes@[j].up_to_date && !reaches(
                        old(self).par(),
                        old(self).dep(),
                        i as int,
                        j,
                    ),
                    ..old(self).nodes@[j]
                }),
            final(self).nodes@[i as int] == (SceneNodeData {
                local_transform: T::compose_spec(*t, old(self).nodes@[i as int].local_transform),
                up_to_date: false,
                ..old(self).nodes@[i as int]
            }),
            final(self).invalidations >= old(self).invalidations,
            !old(self).nodes@[i as int].up_to_date ==> final(self).invalidations == old(self).invalidations,
    {
        let cur = self.nodes[i].local_transform;
        let nt = T::compose(t, &cur);
        self.set_local_transformation(i, nt);
    }

    /// Composes `t` onto the local transform from the node's own side:
    /// the node moves in its own local frame.
    pub fn prepend_to_local_transformation(&mut self, i: usize, t: &T)
        requires
            old(self).wf(),
            (i as int) < old(self).n(),
        ensures
            final(self).wf(),
            final(self).n() == old(self).n(),
            final(self).depth == old(self).depth,
            forall|j: int|
                0 <= j < old(self).n() && j != i ==> final(self).nodes@[j] == (SceneNodeData {
                    up_to_date: old(self).nodes@[j].up_to_date && !reaches(
                        old(self).par(),
                        old(self).dep(),
                        i as int,
                        j,
                    ),
                    ..old(self).nodes@[j]
                }),
            final(self).nodes@[i as int] == (SceneNodeData {
                local_transform: T::compose_spec(old(self).nodes@[i as int].local_transform, *t),
                up_to_date: false,
                ..old(self).nodes@[i as int]
            }),
            final(self).invalidations >= old(self).invalidations,
            !old(self).nodes@[i as int].up_to_date ==> final(self).invalidations == old(self).invalidations,
    {
        let cur = self.nodes[i].local_transform;
        let nt = T::compose(&cur, t);
        self.set_local_transformation(i, nt);
    }

    /// Creates a fresh node under `parent`: visible, unresolved, with
    /// the given local transform, scale and payload, and no children.
    /// Existing nodes keep their state; the parent gains one child.
    pub fn new_child(&mut self, parent: usize, t: T, s: S, object: Option<O>) -> (id: usize)
        requires
            old(self).wf(),
            (parent as int) < old(self).n(),
            old(self).n() < usize::MAX as int,
        ensures
            final(self).wf(),
            id as int == old(self).n(),
            final(self).n() == old(self).n() + 1,
            final(self).nodes@[id as int].parent == Some(parent),
            final(self).nodes@[id as int].local_transform == t,
            final(self).nodes@[id as int].local_scale == s,
            final(self).nodes@[id as int].object == object,
            final(self).nodes@[id as int].visible,
            !final(self).nodes@[id as int].up_to_date,
            final(self).nodes@[id as int].children@.len() == 0,
            forall|j: int|
                0 <= j < old(self).n() && j != parent ==> final(self).nodes@[j] == old(
                    self,
                ).nodes@[j],
            final(self).nodes@[parent as int] == (SceneNodeData {
                children: final(self).nodes@[parent as int].children,
                ..old(self).nodes@[parent as int]
            }),
            final(self).nodes@[parent as int].children@ == old(
                self,
            ).nodes@[parent as int].children@.push(id),
            final(self).invalidations == old(self).invalidations,
    {
        let id = self.nodes.len();
        let node = SceneNodeData {
            local_transform: t,
            local_scale: s,
            world_transform: t,
            world_scale: s,
            up_to_date: false,
            visible: true,
            parent: Some(parent),
            children: Vec::new(),
            object,
        };
        self.nodes.push(node);
        proof {
            self.depth@ = self.depth@.push(self.depth@[parent as int] + 1);
        }
        let pn = &mut self.nodes[parent];
        pn.children.push(id);
        proof {
            self.lemma_new_child_wf(*old(self), parent as int, id as int, t, s, object);
        }
        id
    }

    /// Appending a fresh leaf preserves the invariant.
    proof fn lemma_new_child_wf(self, g0: Self, parent: int, id: int, t: T, s: S, object: Option<O>)
        requires
            g0.wf(),
            0 <= parent < g0.n(),
            g0.n() < usize::MAX as int,
            id == g0.n(),
            self.n() == g0.n() + 1,
            self.depth@ == g0.depth@.push(g0.depth@[parent] + 1),
            self.nodes@[id] == (SceneNodeData {
                local_transform: t,
                local_scale: s,
                world_transform: t,
                world_scale: s,
                up_to_date: false,
                visible: true,
                parent: Some(parent as usize),
                children: self.nodes@[id].children,
                object,
            }),
            self.nodes@[id].children@.len() == 0,
            forall|j: int| 0 <= j < g0.n() && j != parent ==> self.nodes@[j] == g0.nodes@[j],
            self.nodes@[parent] == (SceneNodeData {
                children: self.nodes@[parent].children,
                ..g0.nodes@[parent]
            }),
            self.nodes@[parent].children@ == g0.nodes@[parent].children@.push(id as usize),
        ensures
            self.wf(),
    {
        let par0 = g0.par();
        let dep0 = g0.dep();
        let par1 = self.par();
        let dep1 = self.dep();
        assert forall|j: int| 0 <= j < g0.n() implies par1[j] == par0[j] by {}
        assert(par1 =~= par0.push(Some(parent as usize)));
        assert forall|j: int| 0 <= j < g0.n() implies self.loc()[j] == g0.loc()[j] && self.lsc()[j]
            == g0.lsc()[j] by {}
        // Parent chains are still finite.
        assert forall|i: int| #![trigger par1[i]] 0 <= i < par1.len() implies pd_ok(
            par1,
            dep1,
            i,
        ) by {
            if i < g0.n() {
                assert(par0[i] == par1[i]);
                assert(pd_ok(par0, dep0, i));
            }
        }
        // Child lists still point back, in range, without repeats.
        assert forall|i: int| 0 <= i < self.n() implies #[trigger] self.kids_ok(i) by {
            let ch = self.nodes@[i].children@;
            if i == id {
                assert(ch.len() == 0);
            } else {
                assert(g0.kids_ok(i));
                if i == parent {
                    let ch0 = g0.nodes@[parent].children@;
                    assert(ch =~= ch0.push(id as usize));
                    assert forall|k: int| 0 <= k < ch.len() implies (#[trigger] ch[k] as int)
                        < self.n() && self.nodes@[ch[k] as int].parent == Some(i as usize) by {
                        if k < ch0.len() {
                            assert(ch[k] == ch0[k]);
                            assert((ch0[k] as int) < g0.n());
                            assert(ch[k] as int != parent) by {
                                if ch0[k] as int == parent {
                                    assert(g0.nodes@[parent].parent == Some(parent as usize));
                                    assert(par0[parent] == Some(parent as usize));
                                    assert(pd_ok(par0, dep0, parent));
                                }
                            }
                        } else {
                            assert(ch[k] == id as usize);
                        }
                    }
                    assert(ch.no_duplicates()) by {
                        assert forall|k1: int, k2: int|
                            0 <= k1 < ch.len() && 0 <= k2 < ch.len() && k1 != k2 implies ch[k1]
                            != ch[k2] by {
                            if k1 < ch0.len() && k2 < ch0.len() {
                                assert(ch0.no_duplicates());
                            } else if k1 < ch0.len() {
                                assert((ch0[k1] as int) < g0.n());
                            } else if k2 < ch0.len() {
                                assert((ch0[k2] as int) < g0.n());
                            }
                        }
                    }
                } else {
                    assert(ch == g0.nodes@[i].children@);
                    assert forall|k: int| 0 <= k < ch.len() implies (#[trigger] ch[k] as int)
                        < self.n() && self.nodes@[ch[k] as int].parent == Some(i as usize) by {
                        assert((ch[k] as int) < g0.n());
                        assert(g0.nodes@[ch[k] as int].parent == Some(i as usize));
                        assert(ch[k] as int != parent || self.nodes@[parent].parent
                            == g0.nodes@[parent].parent);
                    }
                }
            }
        }
        assert forall|i: int| 0 <= i < self.n() implies #[trigger] self.parent_linked(i) by {
            if i == id {
                let ch0 = g0.nodes@[parent].children@;
                assert(self.nodes@[parent].children@[ch0.len() as int] == id as usize);
                assert(self.nodes@[parent].children@.contains(id as usize));
            } else {
                assert(g0.parent_linked(i));
                match self.nodes@[i].parent {
                    Some(p) => {
                        assert(g0.nodes@[i].parent == Some(p));
                        assert(g0.par()[i] == g0.nodes@[i].parent);
                        assert(pd_ok(g0.par(), g0.dep(), i));
                        assert(g0.nodes@[p as int].children@.contains(i as usize));
                        if p as int == parent {
                            let ch0 = g0.nodes@[parent].children@;
                            let k = choose|k: int| 0 <= k < ch0.len() && ch0[k] == i as usize;
                            assert(self.nodes@[parent].children@[k] == i as usize);
                        } else {
                            assert(self.nodes@[p as int].children@ == g0.nodes@[p as int].children@);
                        }
                    },
                    None => {},
                }
            }
        }
        // Old caches stay truthful: old chains never reach the new node.
        assert forall|j: int| 0 <= j < self.n() implies #[trigger] self.cache_ok(j) by {
            if j != id && self.nodes@[j].up_to_date {
                assert(g0.cache_ok(j));
                assert forall|x: int| #[trigger] reaches(par0, dep0, x, j) implies 0 <= x
                    < par1.len() && par1[x] == par0[x] && self.loc()[x] == g0.loc()[x] by {
                    lemma_reaches_range(par0, dep0, x, j);
                }
                lemma_world_congruence(par0, dep0, g0.loc(), par1, dep1, self.loc(), j);
                assert(self.world_spec(j) == g0.world_spec(j));
                match self.nodes@[j].parent {
                    Some(q) => {
                        assert(g0.par()[j] == g0.nodes@[j].parent);
                        assert(pd_ok(par0, dep0, j));
                        assert(self.lsc()[j] == g0.lsc()[j]);
                        assert(self.lsc()[q as int] == g0.lsc()[q as int]);
                        assert(self.wscale_spec(j) == g0.wscale_spec(j));
                        assert(self.nodes@[q as int].up_to_date == g0.nodes@[q as int].up_to_date);
                    },
                    None => {
                        assert(self.wscale_spec(j) == g0.wscale_spec(j));
                    },
                }
            }
        }
    }

    /// Adopts the root node `child` as a child of `parent`.  A node
    /// that already has a parent is refused and nothing changes; a
    /// link that would close a cycle is refused the same way.  On
    /// success the child's subtree is marked stale: its absolute
    /// values now depend on the new parent.
    pub fn add_child(&mut self, parent: usize, child: usize) -> (r: Result<(), LinkError>)
        requires
            old(self).wf(),
            (parent as int) < old(self).n(),
            (child as int) < old(self).n(),
        ensures
            final(self).wf(),
            final(self).n() == old(self).n(),
            final(self).invalidations >= old(self).invalidations,
            old(self).nodes@[child as int].parent is Some ==> r == Err::<(), LinkError>(
                LinkError::NotARoot,
            ) && final(self).nodes@ == old(self).nodes@ && final(self).depth == old(self).depth
                && final(self).invalidations == old(self).invalidations,
            old(self).nodes@[child as int].parent is None && reaches(
                old(self).par(),
                old(self).dep(),
                child as int,
                parent as int,
            ) ==> r == Err::<(), LinkError>(LinkError::WouldCycle) && final(self).nodes@ == old(
                self,
            ).nodes@ && final(self).depth == old(self).depth && final(self).invalidations == old(
                self,
            ).invalidations,
            old(self).nodes@[child as int].parent is None && !reaches(
                old(self).par(),
                old(self).dep(),
                child as int,
                parent as int,
            ) ==> ({
                &&& r == Ok::<(), LinkError>(())
                &&& final(self).nodes@[child as int] == (SceneNodeData {
                    parent: Some(parent),
                    up_to_date: false,
                    ..old(self).nodes@[child as int]
                })
                &&& forall|j: int|
                    0 <= j < old(self).n() && j != child && j != parent
                        ==> final(self).nodes@[j] == (SceneNodeData {
                        up_to_date: old(self).nodes@[j].up_to_date && !reaches(
                            old(self).par(),
                            old(self).dep(),
                            child as int,
                            j,
                        ),
                        ..old(self).nodes@[j]
                    })
                &&& final(self).nodes@[parent as int] == (SceneNodeData {
                    children: final(self).nodes@[parent as int].children,
                    ..old(self).nodes@[parent as int]
                })
                &&& final(self).nodes@[parent as int].children@ == old(
                    self,
                ).nodes@[parent as int].children@.push(child)
            }),
    {
        let ghost g0 = *self;
        if self.nodes[child].parent.is_some() {
            return Err(LinkError::NotARoot);
        }
        // Walk up from `parent`: adopting a node from inside its own
        // subtree would close a cycle.
        let mut cur: usize = parent;
        let mut hit: bool = cur == child;
        while !hit && self.nodes[cur].parent.is_some()
            invariant
                *self == g0,
                g0.wf(),
                (parent as int) < g0.n(),
                (child as int) < g0.n(),
                (cur as int) < g0.n(),
                reaches(g0.par(), g0.dep(), cur as int, parent as int),
                hit == (cur == child),
                reaches(g0.par(), g0.dep(), child as int, parent as int) <==> (hit || reaches(
                    g0.par(),
                    g0.dep(),
                    child as int,
                    cur as int,
                )),
            decreases g0.dep()[cur as int],
        {
            proof {
                assert(g0.par()[cur as int] == g0.nodes@[cur as int].parent);
                assert(pd_ok(g0.par(), g0.dep(), cur as int));
            }
            let p = self.nodes[cur].parent.unwrap();
            proof {
                assert(reaches(g0.par(), g0.dep(), p as int, p as int));
                assert(reaches(g0.par(), g0.dep(), p as int, cur as int));
                lemma_reaches_trans(g0.par(), g0.dep(), p as int, cur as int, parent as int);
                assert(reaches(g0.par(), g0.dep(), child as int, cur as int) == ((cur as int
                    == child as int) || reaches(g0.par(), g0.dep(), child as int, p as int)));
            }
            cur = p;
            hit = cur == child;
        }
        if hit {
            return Err(LinkError::WouldCycle);
        }
        proof {
            assert(g0.par()[cur as int] == g0.nodes@[cur as int].parent);
            assert(!reaches(g0.par(), g0.dep(), child as int, parent as int));
        }
        let cnt = self.invalidate_node(child);
        let ghost ga = *self;
        self.invalidations = if self.invalidations > u64::MAX - cnt {
            u64::MAX
        } else {
            self.invalidations + cnt
        };
        let ghost g1 = *self;
        proof {
            assert forall|j: int| 0 <= j < ga.n() implies #[trigger] same_node_core(
                g1.nodes@[j],
                ga.nodes@[j],
            ) by {}
            Self::lemma_same_core_wf(ga, g1);
            assert(Self::invalidated(g0, g1, child as int));
            self.depth@ = Seq::new(
                g0.depth@.len(),
                |j: int|
                    if reaches(g0.par(), g0.dep(), child as int, j) {
                        (g0.depth@[j] + g0.depth@[parent as int] + 1) as nat
                    } else {
                        g0.depth@[j]
                    },
            );
        }
        let cn = &mut self.nodes[child];
        cn.parent = Some(parent);
        let pn = &mut self.nodes[parent];
        pn.children.push(child);
        proof {
            self.lemma_add_child_wf(g0, g1, parent as int, child as int);
        }
        Ok(())
    }

    /// Relinking an invalidated root subtree under a parent outside it
    /// preserves the invariant, with the subtree's depth labels lifted
    /// above the parent's.
    proof fn lemma_add_child_wf(self, g0: Self, g1: Self, parent: int, child: int)
        requires
            g0.wf(),
            g1.wf(),
            0 <= parent < g0.n(),
            0 <= child < g0.n(),
            parent != child,
            g0.nodes@[child].parent is None,
            !reaches(g0.par(), g0.dep(), child, parent),
            Self::invalidated(g0, g1, child),
            self.n() == g0.n(),
            self.depth@ == Seq::new(
                g0.depth@.len(),
                |j: int|
                    if reaches(g0.par(), g0.dep(), child, j) {
                        (g0.depth@[j] + g0.depth@[parent] + 1) as nat
                    } else {
                        g0.depth@[j]
                    },
            ),
            self.nodes@[child] == (SceneNodeData {
                parent: Some(parent as usize),
                ..g1.nodes@[child]
            }),
            forall|j: int| 0 <= j < g0.n() && j != child && j != parent ==> self.nodes@[j] == g1.nodes@[j],
            self.nodes@[parent] == (SceneNodeData {
                children: self.nodes@[parent].children,
                ..g1.nodes@[parent]
            }),
            self.nodes@[parent].children@ == g1.nodes@[parent].children@.push(child as usize),
        ensures
            self.wf(),
    {
        let par0 = g0.par();
        let dep0 = g0.dep();
        let parf = self.par();
        let depf = self.dep();
        Self::lemma_shape_seqs_eq(g0, g1);
        assert forall|j: int| 0 <= j < g0.n() && j != child implies parf[j] == par0[j] by {}
        assert(parf[child] == Some(parent as usize));
        assert forall|j: int| 0 <= j < g0.n() implies self.loc()[j] == g0.loc()[j] && self.lsc()[j]
            == g0.lsc()[j] by {}
        // Depth labels still decrease strictly toward each root.
        assert forall|i: int| #![trigger parf[i]] 0 <= i < parf.len() implies pd_ok(
            parf,
            depf,
            i,
        ) by {
            assert(par0[i] == g0.nodes@[i].parent);
            assert(pd_ok(par0, dep0, i));
            if i == child {
                assert(!reaches(par0, dep0, child, parent));
                assert(reaches(par0, dep0, child, child));
                assert(depf[parent] == dep0[parent]);
                assert(depf[child] == dep0[child] + dep0[parent] + 1);
            } else {
                match par0[i] {
                    Some(p) => {
                        if reaches(par0, dep0, child, i) {
                            assert(reaches(par0, dep0, child, p as int));
                            assert(depf[i] == dep0[i] + dep0[parent] + 1);
                            assert(depf[p as int] == dep0[p as int] + dep0[parent] + 1);
                        } else {
                            assert(!reaches(par0, dep0, child, p as int)) by {
                                if reaches(par0, dep0, child, p as int) {
                                    assert(reaches(par0, dep0, child, i));
                                }
                            }
                        }
                    },
                    None => {},
                }
            }
        }
        // Child lists still point back, in range, without repeats.
        assert forall|i: int| 0 <= i < self.n() implies #[trigger] self.kids_ok(i) by {
            assert(g0.kids_ok(i));
            let ch = self.nodes@[i].children@;
            let ch0 = g0.nodes@[i].children@;
            if i == parent {
                assert(ch =~= ch0.push(child as usize));
                assert forall|k: int| 0 <= k < ch.len() implies (#[trigger] ch[k] as int) < self.n()
                    && self.nodes@[ch[k] as int].parent == Some(i as usize) by {
                    if k < ch0.len() {
                        assert(ch[k] == ch0[k]);
                        assert(ch0[k] as int != child) by {
                            if ch0[k] as int == child {
                                assert(g0.nodes@[child].parent == Some(parent as usize));
                            }
                        }
                        if ch0[k] as int == parent {
                            assert(self.nodes@[parent].parent == g1.nodes@[parent].parent);
                        }
                    } else {
                        assert(ch[k] == child as usize);
                    }
                }
                assert(ch.no_duplicates()) by {
                    assert forall|k1: int, k2: int|
                        0 <= k1 < ch.len() && 0 <= k2 < ch.len() && k1 != k2 implies ch[k1]
                        != ch[k2] by {
                        if k1 < ch0.len() && k2 < ch0.len() {
                            assert(ch0.no_duplicates());
                        } else if k1 < ch0.len() {
                            if ch0[k1] as int == child {
                                assert(g0.nodes@[child].parent == Some(parent as usize));
                            }
                        } else if k2 < ch0.len() {
                            if ch0[k2] as int == child {
                                assert(g0.nodes@[child].parent == Some(parent as usize));
                            }
                        }
                    }
                }
            } else {
                assert(ch == ch0);
                assert forall|k: int| 0 <= k < ch.len() implies (#[trigger] ch[k] as int) < self.n()
                    && self.nodes@[ch[k] as int].parent == Some(i as usize) by {
                    assert(g0.nodes@[ch0[k] as int].parent == Some(i as usize));
                    assert(ch0[k] as int != child);
                    if ch0[k] as int == parent {
                        assert(self.nodes@[parent].parent == g1.nodes@[parent].parent);
                    }
                }
            }
        }
        // A parented node still appears among its parent's children.
        assert forall|i: int| 0 <= i < self.n() implies #[trigger] self.parent_linked(i) by {
            if i == child {
                let chp = g1.nodes@[parent].children@;
                assert(self.nodes@[parent].children@[chp.len() as int] == child as usize);
                assert(self.nodes@[parent].children@.contains(child as usize));
            } else {
                assert(g0.parent_linked(i));
                match self.nodes@[i].parent {
                    Some(q) => {
                        assert(g0.nodes@[i].parent == Some(q));
                        assert(par0[i] == g0.nodes@[i].parent);
                        assert(pd_ok(par0, dep0, i));
                        assert(g0.nodes@[q as int].children@.contains(i as usize));
                        if q as int == parent {
                            let chq = g0.nodes@[q as int].children@;
                            let k = choose|k: int| 0 <= k < chq.len() && chq[k] == i as usize;
                            assert(self.nodes@[parent].children@[k] == i as usize);
                            assert(self.nodes@[q as int].children@.contains(i as usize));
                        } else {
                            assert(self.nodes@[q as int].children@ == g0.nodes@[q as int].children@);
                        }
                    },
                    None => {},
                }
            }
        }
        // Surviving caches sit outside the child's subtree and still
        // read the same chains.
        assert forall|j: int| 0 <= j < self.n() implies #[trigger] self.cache_ok(j) by {
            if self.nodes@[j].up_to_date {
                assert(j != child);
                assert(self.nodes@[j].up_to_date == (g0.nodes@[j].up_to_date && !reaches(
                    par0,
                    dep0,
                    child,
                    j,
                )));
                assert(g0.cache_ok(j));
                assert forall|x: int| #[trigger] reaches(par0, dep0, x, j) implies 0 <= x
                    < parf.len() && parf[x] == par0[x] && self.loc()[x] == g0.loc()[x] by {
                    lemma_reaches_range(par0, dep0, x, j);
                    if x == child {
                        lemma_reaches_trans(par0, dep0, child, x, j);
                    }
                }
                lemma_world_congruence(par0, dep0, g0.loc(), parf, depf, self.loc(), j);
                assert(self.world_spec(j) == g0.world_spec(j));
                match self.nodes@[j].parent {
                    Some(q) => {
                        assert(g0.nodes@[j].parent == Some(q));
                        assert(par0[j] == g0.nodes@[j].parent);
                        assert(pd_ok(par0, dep0, j));
                        assert(q as int != child) by {
                            if q as int == child {
                                assert(reaches(par0, dep0, child, child));
                                assert(reaches(par0, dep0, child, j));
                            }
                        }
                        if reaches(par0, dep0, child, q as int) {
                            assert(reaches(par0, dep0, child, j));
                        }
                        assert(self.lsc()[j] == g0.lsc()[j]);
                        assert(self.lsc()[q as int] == g0.lsc()[q as int]);
                        assert(self.wscale_spec(j) == g0.wscale_spec(j));
                        assert(self.nodes@[q as int].up_to_date == (g0.nodes@[q as int].up_to_date
                            && !reaches(par0, dep0, child, q as int)));
                    },
                    None => {
                        assert(self.wscale_spec(j) == g0.wscale_spec(j));
                    },
                }
            }
        }
    }

    /// Detaches `i` from its parent: `i` and its subtree become an
    /// independent, fully valid tree rooted at `i`, marked stale so
    /// every later query re-reads it as a root.  On a node that is
    /// already a root nothing changes at all.
    pub fn unlink(&mut self, i: usize)
        requires
            old(self).wf(),
            (i as int) < old(self).n(),
        ensures
            final(self).wf(),
            final(self).n() == old(self).n(),
            final(self).depth == old(self).depth,
            final(self).nodes@[i as int].parent is None,
            final(self).invalidations >= old(self).invalidations,
            old(self).nodes@[i as int].parent is None ==> final(self).nodes@ == old(self).nodes@
                && final(self).invalidations == old(self).invalidations,
            old(self).nodes@[i as int].parent matches Some(p) ==> ({
                &&& final(self).nodes@[i as int] == (SceneNodeData {
                    parent: None,
                    up_to_date: false,
                    ..old(self).nodes@[i as int]
                })
                &&& forall|j: int|
                    0 <= j < old(self).n() && j != i && j != p as int ==> final(self).nodes@[j]
                        == (SceneNodeData {
                        up_to_date: old(self).nodes@[j].up_to_date && !reaches(
                            old(self).par(),
                            old(self).dep(),
                            i as int,
                            j,
                        ),
                        ..old(self).nodes@[j]
                    })
                &&& final(self).nodes@[p as int] == (SceneNodeData {
                    children: final(self).nodes@[p as int].children,
                    ..old(self).nodes@[p as int]
                })
                &&& final(self).nodes@[p as int].children@.len() == old(
                    self,
                ).nodes@[p as int].children@.len() - 1
                &&& forall|c: usize|
                    final(self).nodes@[p as int].children@.contains(c) <==> (old(
                        self,
                    ).nodes@[p as int].children@.contains(c) && c != i)
            }),
    {
        let ghost g0 = *self;
        let pa = self.nodes[i].parent;
        match pa {
            None => {},
            Some(p) => {
                proof {
                    assert(g0.par()[i as int] == g0.nodes@[i as int].parent);
                    assert(pd_ok(g0.par(), g0.dep(), i as int));
                }
                let cnt = self.invalidate_node(i);
                let ghost ga = *self;
                self.invalidations = if self.invalidations > u64::MAX - cnt {
                    u64::MAX
                } else {
                    self.invalidations + cnt
                };
                let ghost g1 = *self;
                proof {
                    assert forall|j: int| 0 <= j < ga.n() implies #[trigger] same_node_core(
                        g1.nodes@[j],
                        ga.nodes@[j],
                    ) by {}
                    Self::lemma_same_core_wf(ga, g1);
                    assert(Self::invalidated(g0, g1, i as int));
                    assert(g1.parent_linked(i as int));
                    assert(g1.nodes@[p as int].children@ == g0.nodes@[p as int].children@);
                    assert(g1.nodes@[p as int].children@.contains(i));
                }
                // Find `i` among its parent's children.
                let nch: usize = self.nodes[p].children.len();
                let mut k: usize = 0;
                while k < nch && self.nodes[p].children[k] != i
                    invariant
                        *self == g1,
                        g1.wf(),
                        (p as int) < g1.n(),
                        nch as int == g1.nodes@[p as int].children@.len(),
                        0 <= k <= nch,
                        forall|m: int| 0 <= m < k ==> g1.nodes@[p as int].children@[m] != i,
                        g1.nodes@[p as int].children@.contains(i),
                    decreases nch - k,
                {
                    k += 1;
                }
                proof {
                    if k == nch {
                        let m = choose|m: int|
                            0 <= m < g1.nodes@[p as int].children@.len()
                                && g1.nodes@[p as int].children@[m] == i;
                        assert(false);
                    }
                    assert(g1.kids_ok(p as int));
                }
                let pn = &mut self.nodes[p];
                let _ = pn.children.swap_remove(k);
                let cn = &mut self.nodes[i];
                cn.parent = None;
                proof {
                    self.lemma_unlink_wf(g0, g1, i as int, p as int, k as int);
                    if reaches(g0.par(), g0.dep(), i as int, p as int) {
                        lemma_reaches_range(g0.par(), g0.dep(), i as int, p as int);
                        assert(false);
                    }
                    assert(self.nodes@[p as int].up_to_date == g0.nodes@[p as int].up_to_date);
                    assert(self.nodes@[p as int] =~= (SceneNodeData {
                        children: self.nodes@[p as int].children,
                        ..g0.nodes@[p as int]
                    }));
                }
            },
        }
    }

    /// Detaching an invalidated subtree preserves the invariant; the
    /// depth labels need no change, since removing an edge only
    /// removes constraints.
    proof fn lemma_unlink_wf(self, g0: Self, g1: Self, i: int, p: int, k: int)
        requires
            g0.wf(),
            g1.wf(),
            0 <= i < g0.n(),
            0 <= p < g0.n(),
            g0.nodes@[i].parent == Some(p as usize),
            Self::invalidated(g0, g1, i),
            self.n() == g0.n(),
            self.depth == g0.depth,
            self.nodes@[i] == (SceneNodeData { parent: None, ..g1.nodes@[i] }),
            forall|j: int| 0 <= j < g0.n() && j != i && j != p ==> self.nodes@[j] == g1.nodes@[j],
            i != p,
            self.nodes@[p] == (SceneNodeData {
                children: self.nodes@[p].children,
                ..g1.nodes@[p]
            }),
            0 <= k < g1.nodes@[p].children@.len(),
            g1.nodes@[p].children@[k] == i as usize,
            self.nodes@[p].children@ == g1.nodes@[p].children@.update(
                k,
                g1.nodes@[p].children@.last(),
            ).drop_last(),
        ensures
            self.wf(),
            self.nodes@[p].children@.len() == g0.nodes@[p].children@.len() - 1,
            forall|c: usize|
                self.nodes@[p].children@.contains(c) <==> (g0.nodes@[p].children@.contains(c)
                    && c != i),
    {
        let par0 = g0.par();
        let dep0 = g0.dep();
        let parf = self.par();
        let depf = self.dep();
        Self::lemma_shape_seqs_eq(g0, g1);
        assert forall|j: int| 0 <= j < g0.n() && j != i implies parf[j] == par0[j] by {}
        assert(parf[i] is None);
        assert forall|j: int| 0 <= j < g0.n() implies self.loc()[j] == g0.loc()[j] && self.lsc()[j]
            == g0.lsc()[j] by {}
        let ch1 = g1.nodes@[p].children@;
        let ch = self.nodes@[p].children@;
        let lastv = ch1[ch1.len() - 1];
        assert(g0.kids_ok(p));
        assert(ch1 == g0.nodes@[p].children@);
        // What the removal left in the parent's child list.
        assert(ch.len() == ch1.len() - 1);
        assert forall|m: int| 0 <= m < ch.len() implies ch[m] == (if m == k {
            lastv
        } else {
            ch1[m]
        }) by {}
        assert forall|c: usize| ch.contains(c) implies ch1.contains(c) && c != i by {
            let m = choose|m: int| 0 <= m < ch.len() && ch[m] == c;
            if m == k {
                assert(ch1[ch1.len() - 1] == c);
                if c == i as usize {
                    assert(ch1.no_duplicates());
                    assert(ch1[ch1.len() - 1] == ch1[k] || ch1.len() - 1 == k);
                    assert(false);
                }
            } else {
                assert(ch1[m] == c);
                if c == i as usize {
                    assert(ch1.no_duplicates());
                    assert(false);
                }
            }
        }
        assert forall|c: usize| ch1.contains(c) && c != i implies ch.contains(c) by {
            let m = choose|m: int| 0 <= m < ch1.len() && ch1[m] == c;
            assert(m != k);
            if m < ch1.len() - 1 {
                assert(ch[m] == c);
            } else {
                assert(k < ch1.len() - 1);
                assert(ch[k] == c);
            }
        }
        // Depth labels still decrease along every remaining edge.
        assert forall|j: int| #![trigger parf[j]] 0 <= j < parf.len() implies pd_ok(
            parf,
            depf,
            j,
        ) by {
            assert(par0[j] == g0.nodes@[j].parent);
            assert(pd_ok(par0, dep0, j));
        }
        // Child lists still point back, in range, without repeats.
        assert forall|j: int| 0 <= j < self.n() implies #[trigger] self.kids_ok(j) by {
            assert(g0.kids_ok(j));
            let chj = self.nodes@[j].children@;
            if j == p {
                assert forall|m: int| 0 <= m < chj.len() implies (#[trigger] chj[m] as int)
                    < self.n() && self.nodes@[chj[m] as int].parent == Some(j as usize) by {
                    assert(chj.contains(chj[m]));
                    assert(ch1.contains(chj[m]) && chj[m] != i);
                    let c = chj[m] as int;
                    assert(g0.nodes@[c].parent == Some(p as usize));
                    if c == p {
                        assert(self.nodes@[p].parent == g1.nodes@[p].parent);
                    }
                }
                assert(chj.no_duplicates()) by {
                    assert forall|m1: int, m2: int|
                        0 <= m1 < chj.len() && 0 <= m2 < chj.len() && m1 != m2 implies chj[m1]
                        != chj[m2] by {
                        assert(ch1.no_duplicates());
                        if m1 == k {
                            assert(chj[m1] == ch1[ch1.len() - 1] && chj[m2] == ch1[m2]);
                            assert(m2 != ch1.len() - 1);
                        } else if m2 == k {
                            assert(chj[m2] == ch1[ch1.len() - 1] && chj[m1] == ch1[m1]);
                            assert(m1 != ch1.len() - 1);
                        }
                    }
                }
            } else {
                assert(chj == g0.nodes@[j].children@);
                assert forall|m: int| 0 <= m < chj.len() implies (#[trigger] chj[m] as int)
                    < self.n() && self.nodes@[chj[m] as int].parent == Some(j as usize) by {
                    let c = chj[m] as int;
                    assert(g0.nodes@[c].parent == Some(j as usize));
                    assert(c != i) by {
                        if c == i {
                            assert(g0.nodes@[i].parent == Some(j as usize));
                        }
                    }
                    if c == p {
                        assert(self.nodes@[p].parent == g1.nodes@[p].parent);
                    }
                }
            }
        }
        // A parented node still appears among its parent's children.
        assert forall|j: int| 0 <= j < self.n() implies #[trigger] self.parent_linked(j) by {
            if j != i {
                assert(g0.parent_linked(j));
                match self.nodes@[j].parent {
                    Some(q) => {
                        assert(g0.nodes@[j].parent == Some(q));
                        assert(par0[j] == g0.nodes@[j].parent);
                        assert(pd_ok(par0, dep0, j));
                        assert(g0.nodes@[q as int].children@.contains(j as usize));
                        if q as int == p {
                            assert(ch.contains(j as usize));
                        } else {
                            assert(self.nodes@[q as int].children@ == g0.nodes@[q as int].children@);
                        }
                    },
                    None => {},
                }
            }
        }
        // Surviving caches sit outside the detached subtree.
        assert forall|j: int| 0 <= j < self.n() implies #[trigger] self.cache_ok(j) by {
            if self.nodes@[j].up_to_date {
                assert(j != i);
                assert(self.nodes@[j].up_to_date == (g0.nodes@[j].up_to_date && !reaches(
                    par0,
                    dep0,
                    i,
                    j,
                )));
                assert(g0.cache_ok(j));
                assert forall|x: int| #[trigger] reaches(par0, dep0, x, j) implies 0 <= x
                    < parf.len() && parf[x] == par0[x] && self.loc()[x] == g0.loc()[x] by {
                    lemma_reaches_range(par0, dep0, x, j);
                    if x == i {
                        lemma_reaches_trans(par0, dep0, i, x, j);
                    }
                }
                lemma_world_congruence(par0, dep0, g0.loc(), parf, depf, self.loc(), j);
                assert(self.world_spec(j) == g0.world_spec(j));
                match self.nodes@[j].parent {
                    Some(q) => {
                        assert(g0.nodes@[j].parent == Some(q));
                        assert(par0[j] == g0.nodes@[j].parent);
                        assert(pd_ok(par0, dep0, j));
                        assert(q as int != i) by {
                            if q as int == i {
                                assert(reaches(par0, dep0, i, i));
                                assert(reaches(par0, dep0, i, j));
                            }
                        }
                        if reaches(par0, dep0, i, q as int) {
                            assert(reaches(par0, dep0, i, j));
                        }
                        assert(self.lsc()[j] == g0.lsc()[j]);
                        assert(self.lsc()[q as int] == g0.lsc()[q as int]);
                        assert(self.wscale_spec(j) == g0.wscale_spec(j));
                        assert(self.nodes@[q as int].up_to_date == (g0.nodes@[q as int].up_to_date
                            && !reaches(par0, dep0, i, q as int)));
                    },
                    None => {
                        assert(self.wscale_spec(j) == g0.wscale_spec(j));
                    },
                }
            }
        }
    }

    /// Marks `i` visible or invisible; nothing else changes.
    pub fn set_visible(&mut self, i: usize, v: bool)
        requires
            old(self).wf(),
            (i as int) < old(self).n(),
        ensures
            final(self).wf(),
            final(self).nodes@ == old(self).nodes@.update(
                i as int,
                (SceneNodeData { visible: v, ..old(self).nodes@[i as int] }),
            ),
            final(self).depth == old(self).depth,
            final(self).invalidations == old(self).invalidations,
    {
        self.nodes[i].visible = v;
        proof {
            assert(self.nodes@ =~= old(self).nodes@.update(
                i as int,
                (SceneNodeData { visible: v, ..old(self).nodes@[i as int] }),
            ));
            assert forall|j: int| 0 <= j < old(self).n() implies #[trigger] same_node_core(
                self.nodes@[j],
                old(self).nodes@[j],
            ) by {}
            Self::lemma_same_core_wf(*old(self), *self);
        }
    }

    /// The payload of `i`, if any.
    pub fn object(&self, i: usize) -> (r: Option<&O>)
        requires
            i < self.n(),
        ensures
            (r is Some) <==> (self.nodes@[i as int].object is Some),
            r matches Some(o) ==> self.nodes@[i as int].object == Some(*o),
    {
        self.nodes[i].object.as_ref()
    }

    /// Mutable access to the payload slot of `i`.  The caller decides
    /// what to store; the graph invariant does not read payloads, so it
    /// survives any store (see `lemma_same_core_wf`).
    pub fn object_mut(&mut self, i: usize) -> (r: &mut Option<O>)
        requires
            old(self).wf(),
            (i as int) < old(self).n(),
        ensures
            *r == old(self).nodes@[i as int].object,
            final(self).nodes@ == old(self).nodes@.update(
                i as int,
                (SceneNodeData { object: *final(r), ..old(self).nodes@[i as int] }),
            ),
            final(self).depth == old(self).depth,
            final(self).invalidations == old(self).invalidations,
    {
        let nd = &mut self.nodes[i];
        &mut nd.object
    }

    /// The visibility flag of each node.
    pub open spec fn vis(self) -> Seq<bool> {
        Seq::new(self.nodes@.len(), |i: int| self.nodes@[i].visible)
    }

    /// What rendering the subtree of `root` may do to the graph: keep
    /// every node's shape, resolve caches only from stale to current,
    /// and touch nothing outside the subtree of `root` and the chain
    /// of its ancestors.
    pub open spec fn render_frame(pre: Self, post: Self, root: int) -> bool {
        &&& post.n() == pre.n()
        &&& post.depth == pre.depth
        &&& post.invalidations == pre.invalidations
        &&& forall|j: int|
            0 <= j < pre.n() ==> #[trigger] same_node_shape(post.nodes@[j], pre.nodes@[j])
        &&& forall|j: int|
            0 <= j < pre.n() && pre.nodes@[j].up_to_date ==> post.nodes@[j].up_to_date
        &&& forall|j: int|
            0 <= j < pre.n() && !reaches(pre.par(), pre.dep(), root, j) && !reaches(
                pre.par(),
                pre.dep(),
                j,
                root,
            ) ==> post.nodes@[j] == pre.nodes@[j]
    }

    /// An untouched graph fits the render frame.
    pub proof fn lemma_render_frame_refl(g: Self, root: int)
        ensures
            Self::render_frame(g, g, root),
    {
        assert forall|j: int| 0 <= j < g.n() implies #[trigger] same_node_shape(
            g.nodes@[j],
            g.nodes@[j],
        ) by {}
    }

    /// Resolving one node of the subtree keeps the render frame: the
    /// ancestors it walks are comparable with the subtree's root, so
    /// they lie in the frame's reach.
    pub proof fn lemma_render_frame_extend(g0: Self, g1: Self, g2: Self, root: int, id: int)
        requires
            g0.wf(),
            0 <= root < g0.n(),
            0 <= id < g0.n(),
            reaches(g0.par(), g0.dep(), root, id),
            Self::render_frame(g0, g1, root),
            Self::resolves_frame(g1, g2, id),
        ensures
            Self::render_frame(g0, g2, root),
    {
        Self::lemma_shape_seqs(g0, g1);
        assert forall|j: int| 0 <= j < g0.n() implies #[trigger] same_node_shape(
            g2.nodes@[j],
            g0.nodes@[j],
        ) by {
            assert(same_node_shape(g1.nodes@[j], g0.nodes@[j]));
            assert(same_node_shape(g2.nodes@[j], g1.nodes@[j]));
        }
        assert forall|j: int|
            0 <= j < g0.n() && !reaches(g0.par(), g0.dep(), root, j) && !reaches(
                g0.par(),
                g0.dep(),
                j,
                root,
            ) implies g2.nodes@[j] == g0.nodes@[j] by {
            assert(g1.nodes@[j] == g0.nodes@[j]);
            if reaches(g1.par(), g1.dep(), j, id) {
                lemma_reaches_linear(g0.par(), g0.dep(), j, root, id);
                assert(false);
            }
        }
    }

    /// Whether `j` is in the subtree of `r` with every node on the way,
    /// `j` itself included, marked visible: rendering reaches exactly
    /// these nodes of the subtree.
    pub open spec fn vis_in(self, r: int, j: int) -> bool {
        vis_reaches(self.par(), self.dep(), self.vis(), r, j)
    }

    /// The absolute transform of a node is the product of the local
    /// transforms along its ancestor chain, the root's first and the
    /// node's own last: each level composes its local transform onto
    /// the absolute transform of its parent.
    pub proof fn lemma_world_is_chain_product(self, i: int)
        requires
            self.wf_basic(),
            0 <= i < self.n(),
        ensures
            self.world_spec(i) == chain_product(
                self.loc(),
                chain_at(self.par(), self.dep(), i),
            ),
        decreases self.dep()[i],
    {
        let par = self.par();
        let dep = self.dep();
        let ch = chain_at(par, dep, i);
        assert(par[i] == self.nodes@[i].parent);
        assert(pd_ok(par, dep, i));
        match self.nodes@[i].parent {
            Some(p) => {
                self.lemma_world_is_chain_product(p as int);
                let chp = chain_at(par, dep, p as int);
                assert(ch == seq![i] + chp);
                assert(ch.len() == 1 + chp.len());
                assert(ch[0] == i);
                assert(ch.drop_first() =~= chp);
            },
            None => {
                assert(ch == seq![i]);
                assert(ch[0] == i);
            },
        }
    }

    /// A stale node heads an entirely stale subtree, so invalidating it
    /// again flips no cache: invalidation does constant work per
    /// already-stale subtree, never a second traversal.
    pub proof fn lemma_invalidate_stale_is_noop(self, i: int)
        requires
            self.wf(),
            0 <= i < self.n(),
            !self.nodes@[i].up_to_date,
        ensures
            forall|j: int|
                0 <= j < self.n() ==> (self.nodes@[j].up_to_date && !#[trigger] reaches(
                    self.par(),
                    self.dep(),
                    i,
                    j,
                )) == self.nodes@[j].up_to_date,
    {
        assert forall|j: int| 0 <= j < self.n() implies (self.nodes@[j].up_to_date && !#[trigger] reaches(
            self.par(),
            self.dep(),
            i,
            j,
        )) == self.nodes@[j].up_to_date by {
            if self.nodes@[j].up_to_date && reaches(self.par(), self.dep(), i, j) {
                self.lemma_dirty_down(i, j);
            }
        }
    }

    /// A root resolves to its own local values: after detaching, every
    /// transform query on the node answers as for an independent tree.
    pub proof fn lemma_root_world_is_local(self, i: int)
        requires
            self.wf_basic(),
            0 <= i < self.n(),
            self.nodes@[i].parent is None,
        ensures
            self.world_spec(i) == self.nodes@[i].local_transform,
            self.wscale_spec(i) == self.nodes@[i].local_scale,
    {
        assert(self.par()[i] == self.nodes@[i].parent);
    }

    /// `s` repeats nothing and holds nothing of the subtree of `i`:
    /// what subtree collection may assume of the sink it appends to.
    pub open spec fn fresh_for(self, i: int, s: Seq<usize>) -> bool {
        &&& s.no_duplicates()
        &&& forall|x: usize| #![trigger s.contains(x)]
            s.contains(x) ==> !((x as int) < self.n() && reaches(
                self.par(),
                self.dep(),
                i,
                x as int,
            ))
    }

    /// Appends the indices of the subtree of `i` to `out`: afterwards
    /// `out` holds its old elements plus exactly the subtree of `i`.
    pub fn collect_subtree(&self, i: usize, out: &mut Vec<usize>)
        requires
            self.wf(),
            (i as int) < self.n(),
        ensures
            final(out)@.len() >= old(out)@.len(),
            forall|x: usize| #![trigger final(out)@.contains(x)]
                final(out)@.contains(x) == (old(out)@.contains(x) || ((x as int) < self.n()
                    && reaches(self.par(), self.dep(), i as int, x as int))),
            self.fresh_for(i as int, old(out)@) ==> final(out)@.no_duplicates(),
        decreases self.subtree_set(i as int).len(),
    {
        let ghost out0 = out@;
        out.push(i);
        proof {
            lemma_push_contains(out0, i);
            if self.fresh_for(i as int, out0) {
                assert(reaches(self.par(), self.dep(), i as int, i as int));
                assert(!out0.contains(i));
                assert forall|m1: int, m2: int|
                    0 <= m1 < m2 < out@.len() implies out@[m1] != out@[m2] by {
                    if m2 < out0.len() {
                        assert(out0.no_duplicates());
                    } else {
                        assert(out0.contains(out0[m1]));
                    }
                }
                assert(out@.no_duplicates());
            }
        }
        let nch: usize = self.nodes[i].children.len();
        let mut k: usize = 0;
        proof {
            assert(self.kids_ok(i as int));
            assert(reaches(self.par(), self.dep(), i as int, i as int));
        }
        while k < nch
            invariant
                self.wf(),
                (i as int) < self.n(),
                nch as int == self.nodes@[i as int].children@.len(),
                k <= nch,
                out@.len() >= out0.len(),
                forall|x: usize| #![trigger out@.contains(x)]
                    out@.contains(x) == (out0.contains(x) || x == i || ((x as int) < self.n()
                        && Self::swept(*self, i as int, k as int, x as int))),
                self.fresh_for(i as int, out0) ==> out@.no_duplicates(),
            decreases nch - k,
        {
            let c = self.nodes[i].children[k];
            proof {
                assert(self.kids_ok(i as int));
                assert((c as int) < self.n());
                assert(self.nodes@[c as int].parent == Some(i));
                self.lemma_child_subtree_smaller(i as int, c as int);
                if self.fresh_for(i as int, out0) {
                    // Everything collected so far lies outside this
                    // child's subtree, so the recursion keeps the
                    // collection free of repeats.
                    assert(reaches(self.par(), self.dep(), i as int, i as int));
                    assert(reaches(self.par(), self.dep(), i as int, (i as usize) as int));
                    assert(reaches(self.par(), self.dep(), i as int, c as int));
                    assert forall|x: usize| #![trigger out@.contains(x)]
                        out@.contains(x) implies !((x as int) < self.n() && reaches(
                        self.par(),
                        self.dep(),
                        c as int,
                        x as int,
                    )) by {
                        if (x as int) < self.n() && reaches(
                            self.par(),
                            self.dep(),
                            c as int,
                            x as int,
                        ) {
                            if out0.contains(x) {
                                lemma_reaches_trans(
                                    self.par(),
                                    self.dep(),
                                    i as int,
                                    c as int,
                                    x as int,
                                );
                                assert(false);
                            } else if x == i {
                                lemma_reaches_range(self.par(), self.dep(), c as int, i as int);
                                assert(self.par()[c as int] == self.nodes@[c as int].parent);
                                assert(pd_ok(self.par(), self.dep(), c as int));
                                assert(false);
                            } else {
                                let m = choose|m: int|
                                    0 <= m < k && reaches(
                                        self.par(),
                                        self.dep(),
                                        #[trigger] self.nodes@[i as int].children@[m] as int,
                                        x as int,
                                    );
                                let cm = self.nodes@[i as int].children@[m] as int;
                                assert(self.nodes@[i as int].children@[k as int] == c);
                                assert(self.nodes@[i as int].children@.no_duplicates());
                                assert(cm != c as int);
                                assert(self.nodes@[cm].parent == Some(i));
                                lemma_sibling_subtrees_disjoint(
                                    self.par(),
                                    self.dep(),
                                    i as int,
                                    cm,
                                    c as int,
                                    x as int,
                                );
                                assert(false);
                            }
                        }
                    }
                    assert(self.fresh_for(c as int, out@));
                }
            }
            let ghost outk = out@;
            self.collect_subtree(c, out);
            proof {
                assert forall|x: usize| #![trigger out@.contains(x)]
                    out@.contains(x) == (out0.contains(x) || x == i || ((x as int) < self.n()
                        && Self::swept(*self, i as int, (k + 1) as int, x as int))) by {
                    let hit = (x as int) < self.n() && reaches(
                        self.par(),
                        self.dep(),
                        c as int,
                        x as int,
                    );
                    assert(out@.contains(x) == (outk.contains(x) || hit));
                    assert(outk.contains(x) == (out0.contains(x) || x == i || ((x as int)
                        < self.n() && Self::swept(*self, i as int, k as int, x as int))));
                    if (x as int) < self.n() {
                        assert(Self::swept(*self, i as int, (k + 1) as int, x as int) == (
                        Self::swept(*self, i as int, k as int, x as int) || reaches(
                            self.par(),
                            self.dep(),
                            c as int,
                            x as int,
                        ))) by {
                            if Self::swept(*self, i as int, k as int, x as int) {
                                let m = choose|m: int|
                                    0 <= m < k && reaches(
                                        self.par(),
                                        self.dep(),
                                        #[trigger] self.nodes@[i as int].children@[m] as int,
                                        x as int,
                                    );
                                assert(Self::swept(*self, i as int, (k + 1) as int, x as int));
                            }
                            if reaches(self.par(), self.dep(), c as int, x as int) {
                                assert(self.nodes@[i as int].children@[k as int] as int == c);
                                assert(Self::swept(*self, i as int, (k + 1) as int, x as int));
                            }
                            if Self::swept(*self, i as int, (k + 1) as int, x as int) && !Self::swept(
                                *self,
                                i as int,
                                k as int,
                                x as int,
                            ) && !reaches(self.par(), self.dep(), c as int, x as int) {
                                let m = choose|m: int|
                                    0 <= m < k + 1 && reaches(
                                        self.par(),
                                        self.dep(),
                                        #[trigger] self.nodes@[i as int].children@[m] as int,
                                        x as int,
                                    );
                                assert(m == k);
                                assert(false);
                            }
                        }
                    }
                }
            }
            k += 1;
        }
        proof {
            let par = self.par();
            let dep = self.dep();
            assert forall|x: usize| #![trigger out@.contains(x)]
                out@.contains(x) == (out0.contains(x) || ((x as int) < self.n() && reaches(
                    par,
                    dep,
                    i as int,
                    x as int,
                ))) by {
                assert(out@.contains(x) == (out0.contains(x) || x == i || ((x as int) < self.n()
                    && Self::swept(*self, i as int, nch as int, x as int))));
                if (x as int) < self.n() {
                    if Self::swept(*self, i as int, nch as int, x as int) {
                        let m = choose|m: int|
                            0 <= m < nch && reaches(
                                par,
                                dep,
                                #[trigger] self.nodes@[i as int].children@[m] as int,
                                x as int,
                            );
                        let c = self.nodes@[i as int].children@[m] as int;
                        assert(self.kids_ok(i as int));
                        assert(par[c] == Some(i));
                        assert(reaches(par, dep, i as int, (i as usize) as int));
                        assert(reaches(par, dep, i as int, c));
                        lemma_reaches_trans(par, dep, i as int, c, x as int);
                    }
                    if reaches(par, dep, i as int, x as int) && x != i {
                        lemma_reaches_via_child(par, dep, i as int, x as int);
                        let c = choose|c: int|
                            0 <= c < par.len() && par[c] == Some(i) && #[trigger] reaches(
                                par,
                                dep,
                                c,
                                x as int,
                            );
                        assert(self.parent_linked(c));
                        assert(self.nodes@[c].parent == par[c]);
                        assert(self.nodes@[i as int].children@.contains(c as usize));
                        let m = choose|m: int|
                            0 <= m < nch && self.nodes@[i as int].children@[m] == c as usize;
                        assert(self.nodes@[i as int].children@[m] as int == c);
                        assert(Self::swept(*self, i as int, nch as int, x as int));
                    }
                }
            }
        }
    }
}

} // verus!
