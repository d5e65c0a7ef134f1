//! The topology oracle: the six catalog topology functions, the provider
//! trait (every answer is a `T3`; `Unknown` is never `False`), and the
//! deterministic in-memory `StaticTopology` with a cycle- and hop-bounded
//! `upstream_of`.
use vstd::prelude::*;

use crate::ir::TopoFuncIdx;
use crate::types::{scope_lt, t3_of, ScopeId, T3};

verus! {

/// The six catalog topology functions, addressed by `func_idx`.
#[derive(Debug, Clone, Copy, PartialEq, Eq, Structural)]
pub enum TopoFunc {
    /// `same_session(a, b)`.
    SameSession,
    /// `same_client(a, b)`.
    SameClient,
    /// `same_port(a, b)`.
    SamePort,
    /// `same_ap(a, b)`.
    SameAp,
    /// `same_vlan(a, b)`.
    SameVlan,
    /// `upstream_of(up, down)`.
    UpstreamOf,
}

/// The canonical `func_idx` assignment (`same_session = 0 … upstream_of = 5`).
pub open spec fn topo_func_of(idx: u8) -> Option<TopoFunc> {
    if idx == 0 {
        Some(TopoFunc::SameSession)
    } else if idx == 1 {
        Some(TopoFunc::SameClient)
    } else if idx == 2 {
        Some(TopoFunc::SamePort)
    } else if idx == 3 {
        Some(TopoFunc::SameAp)
    } else if idx == 4 {
        Some(TopoFunc::SameVlan)
    } else if idx == 5 {
        Some(TopoFunc::UpstreamOf)
    } else {
        None
    }
}

impl TopoFunc {
    /// The function with index `idx`; `None` outside the closed set.
    pub fn from_idx(idx: TopoFuncIdx) -> (f: Option<TopoFunc>)
        ensures
            f == topo_func_of(idx.0),
    {
        match idx.0 {
            0 => Some(TopoFunc::SameSession),
            1 => Some(TopoFunc::SameClient),
            2 => Some(TopoFunc::SamePort),
            3 => Some(TopoFunc::SameAp),
            4 => Some(TopoFunc::SameVlan),
            5 => Some(TopoFunc::UpstreamOf),
            _ => None,
        }
    }

    /// Dispatches this function on a provider.
    pub fn call<P: TopologyProvider>(self, topo: &mut P, a: ScopeId, b: ScopeId) -> (t: T3)
        ensures
            t == old(topo).answer(self, a, b),
            forall|f: TopoFunc, x: ScopeId, y: ScopeId|
                #[trigger] final(topo).answer(f, x, y) == old(topo).answer(f, x, y),
    {
        match self {
            TopoFunc::SameSession => topo.same_session(a, b),
            TopoFunc::SameClient => topo.same_client(a, b),
            TopoFunc::SamePort => topo.same_port(a, b),
            TopoFunc::SameAp => topo.same_ap(a, b),
            TopoFunc::SameVlan => topo.same_vlan(a, b),
            TopoFunc::UpstreamOf => topo.upstream_of(a, b),
        }
    }
}

/// Topology oracle. Every answer is a `T3`. Queries may record diagnostics
/// (hence `&mut self`) but never change any answer.
pub trait TopologyProvider {
    /// The provider's answer to `f(a, b)`.
    spec fn answer(&self, f: TopoFunc, a: ScopeId, b: ScopeId) -> T3;

    /// Whether `a` and `b` belong to the same session.
    fn same_session(&mut self, a: ScopeId, b: ScopeId) -> (t: T3)
        ensures
            t == old(self).answer(TopoFunc::SameSession, a, b),
            forall|f: TopoFunc, x: ScopeId, y: ScopeId|
                #[trigger] final(self).answer(f, x, y) == old(self).answer(f, x, y),
    ;

    /// Whether `a` and `b` belong to the same client.
    fn same_client(&mut self, a: ScopeId, b: ScopeId) -> (t: T3)
        ensures
            t == old(self).answer(TopoFunc::SameClient, a, b),
            forall|f: TopoFunc, x: ScopeId, y: ScopeId|
                #[trigger] final(self).answer(f, x, y) == old(self).answer(f, x, y),
    ;

    /// Whether `a` and `b` are on the same switch port.
    fn same_port(&mut self, a: ScopeId, b: ScopeId) -> (t: T3)
        ensures
            t == old(self).answer(TopoFunc::SamePort, a, b),
            forall|f: TopoFunc, x: ScopeId, y: ScopeId|
                #[trigger] final(self).answer(f, x, y) == old(self).answer(f, x, y),
    ;

    /// Whether `a` and `b` are on the same access point.
    fn same_ap(&mut self, a: ScopeId, b: ScopeId) -> (t: T3)
        ensures
            t == old(self).answer(TopoFunc::SameAp, a, b),
            forall|f: TopoFunc, x: ScopeId, y: ScopeId|
                #[trigger] final(self).answer(f, x, y) == old(self).answer(f, x, y),
    ;

    /// Whether `a` and `b` are on the same VLAN.
    fn same_vlan(&mut self, a: ScopeId, b: ScopeId) -> (t: T3)
        ensures
            t == old(self).answer(TopoFunc::SameVlan, a, b),
            forall|f: TopoFunc, x: ScopeId, y: ScopeId|
                #[trigger] final(self).answer(f, x, y) == old(self).answer(f, x, y),
    ;

    /// Whether `up` is (transitively) upstream of `down`.
    fn upstream_of(&mut self, up: ScopeId, down: ScopeId) -> (t: T3)
        ensures
            t == old(self).answer(TopoFunc::UpstreamOf, up, down),
            forall|f: TopoFunc, x: ScopeId, y: ScopeId|
                #[trigger] final(self).answer(f, x, y) == old(self).answer(f, x, y),
    ;
}

/// A cycle / hop-bound signal from `StaticTopology::upstream_of`.
#[derive(Debug, Clone, Copy, PartialEq, Eq, Structural)]
pub enum TopologyDiagnostic {
    /// A cycle was met while traversing upstream from `from`.
    UpstreamCycle {
        /// The `down` argument of the failing query.
        from: ScopeId,
    },
    /// Traversal exceeded the hop bound.
    HopBoundExceeded {
        /// The `down` argument of the failing query.
        from: ScopeId,
    },
}

impl TopologyDiagnostic {
    /// Stable diagnostic code.
    pub fn code(&self) -> (c: &'static str)
        ensures
            c@ == "ADGL3006"@,
    {
        "ADGL3006"
    }
}

/// Normalized (smaller, larger) pair.
pub open spec fn norm_pair(a: ScopeId, b: ScopeId) -> (ScopeId, ScopeId) {
    if scope_lt(b, a) {
        (b, a)
    } else {
        (a, b)
    }
}

/// Direct upstream neighbours of `node` (first matching entry).
pub open spec fn neighbors(g: Seq<(ScopeId, Vec<ScopeId>)>, node: ScopeId) -> Seq<ScopeId>
    decreases g.len(),
{
    if g.len() == 0 {
        Seq::empty()
    } else if g[0].0 == node {
        g[0].1@
    } else {
        neighbors(g.drop_first(), node)
    }
}

/// Traversal state of the upstream search.
pub struct DfsState {
    /// Nodes on the current path.
    pub on_path: Set<ScopeId>,
    /// Fully explored nodes.
    pub done: Set<ScopeId>,
    /// A back edge to an on-path node was met.
    pub cycle: bool,
    /// The hop bound cut the traversal somewhere.
    pub hop_overrun: bool,
    /// The target was met as a neighbour.
    pub found: bool,
}

/// Depth-first exploration of the upstream region of `node`.
pub open spec fn dfs_node(
    g: Seq<(ScopeId, Vec<ScopeId>)>,
    node: ScopeId,
    target: ScopeId,
    hops: nat,
    st: DfsState,
) -> DfsState
    decreases hops, 1nat, 0nat,
{
    let st1 = DfsState { on_path: st.on_path.insert(node), ..st };
    let ns = neighbors(g, node);
    let st2 = dfs_list(g, ns, 0, target, hops, st1);
    DfsState { on_path: st2.on_path.remove(node), done: st2.done.insert(node), ..st2 }
}

/// Visits neighbours `ns[i..]` in order.
pub open spec fn dfs_list(
    g: Seq<(ScopeId, Vec<ScopeId>)>,
    ns: Seq<ScopeId>,
    i: int,
    target: ScopeId,
    hops: nat,
    st: DfsState,
) -> DfsState
    decreases hops, 0nat, ns.len() - i,
{
    if i < 0 || i >= ns.len() {
        st
    } else {
        let next = ns[i];
        let st1 = if next == target {
            DfsState { found: true, ..st }
        } else {
            st
        };
        let st2 = if st1.on_path.contains(next) {
            DfsState { cycle: true, ..st1 }
        } else if st1.done.contains(next) {
            st1
        } else if hops == 0 {
            DfsState { hop_overrun: true, ..st1 }
        } else {
            dfs_node(g, next, target, (hops - 1) as nat, st1)
        };
        dfs_list(g, ns, i + 1, target, hops, st2)
    }
}

/// The empty traversal state.
pub open spec fn dfs_init() -> DfsState {
    DfsState {
        on_path: Set::empty(),
        done: Set::empty(),
        cycle: false,
        hop_overrun: false,
        found: false,
    }
}

/// Deterministic in-memory topology for tests and offline harnesses.
#[derive(Debug)]
pub struct StaticTopology {
    known: Vec<ScopeId>,
    session: Vec<(ScopeId, ScopeId)>,
    client: Vec<(ScopeId, ScopeId)>,
    port: Vec<(ScopeId, ScopeId)>,
    ap: Vec<(ScopeId, ScopeId)>,
    vlan: Vec<(ScopeId, ScopeId)>,
    upstream: Vec<(ScopeId, Vec<ScopeId>)>,
    max_hops: usize,
    diagnostics: Vec<TopologyDiagnostic>,
}

/// Exec membership test for a scope list.
fn contains_scope(v: &Vec<ScopeId>, s: ScopeId) -> (b: bool)
    ensures
        b == v@.contains(s),
{
    let mut i: usize = 0;
    while i < v.len()
        invariant
            0 <= i <= v.len(),
            forall|j: int| 0 <= j < i ==> v@[j] != s,
        decreases v.len() - i,
    {
        if v[i].same(&s) {
            return true;
        }
        i = i + 1;
    }
    false
}

/// Exec membership test for a pair list.
fn contains_pair(v: &Vec<(ScopeId, ScopeId)>, p: (ScopeId, ScopeId)) -> (b: bool)
    ensures
        b == v@.contains(p),
{
    let mut i: usize = 0;
    while i < v.len()
        invariant
            0 <= i <= v.len(),
            forall|j: int| 0 <= j < i ==> v@[j] != p,
        decreases v.len() - i,
    {
        if v[i].0.same(&p.0) && v[i].1.same(&p.1) {
            return true;
        }
        i = i + 1;
    }
    false
}

/// Exec `norm_pair`.
fn norm(a: ScopeId, b: ScopeId) -> (p: (ScopeId, ScopeId))
    ensures
        p == norm_pair(a, b),
{
    if b.lt(&a) {
        (b, a)
    } else {
        (a, b)
    }
}

impl StaticTopology {
    /// Known scopes.
    pub closed spec fn known_view(&self) -> Seq<ScopeId> {
        self.known@
    }

    /// The pair list of one symmetric relation.
    pub closed spec fn relation_view(&self, f: TopoFunc) -> Seq<(ScopeId, ScopeId)> {
        match f {
            TopoFunc::SameSession => self.session@,
            TopoFunc::SameClient => self.client@,
            TopoFunc::SamePort => self.port@,
            TopoFunc::SameAp => self.ap@,
            _ => self.vlan@,
        }
    }

    /// The upstream adjacency (`down` → direct upstream neighbours).
    pub closed spec fn upstream_view(&self) -> Seq<(ScopeId, Vec<ScopeId>)> {
        self.upstream@
    }

    /// The hop bound (at least 1).
    pub closed spec fn hops_view(&self) -> nat {
        self.max_hops as nat
    }

    /// Recorded diagnostics in query order.
    pub closed spec fn diagnostics_view(&self) -> Seq<TopologyDiagnostic> {
        self.diagnostics@
    }

    /// Answer to a symmetric relation query.
    pub open spec fn relation_answer(&self, f: TopoFunc, a: ScopeId, b: ScopeId) -> T3 {
        if a == b {
            T3::True
        } else if self.relation_view(f).contains(norm_pair(a, b)) {
            T3::True
        } else if self.known_view().contains(a) && self.known_view().contains(b) {
            T3::False
        } else {
            T3::Unknown
        }
    }

    /// The traversal `upstream_of(up, down)` performs.
    pub open spec fn upstream_search(&self, up: ScopeId, down: ScopeId) -> DfsState {
        dfs_node(self.upstream_view(), down, up, self.hops_view(), dfs_init())
    }

    /// Answer to `upstream_of(up, down)`: `False` for `up == down`; `Unknown`
    /// when either scope is unknown; `False` on a cycle or on a hop-bound
    /// overrun that did not find `up`; otherwise whether `up` was found.
    pub open spec fn upstream_answer(&self, up: ScopeId, down: ScopeId) -> T3 {
        if up == down {
            T3::False
        } else if !self.known_view().contains(up) || !self.known_view().contains(down) {
            T3::Unknown
        } else {
            let st = self.upstream_search(up, down);
            if st.cycle {
                T3::False
            } else if st.hop_overrun && !st.found {
                T3::False
            } else {
                t3_of(st.found)
            }
        }
    }

    /// The diagnostic `upstream_of(up, down)` records, if any.
    pub open spec fn upstream_diagnostic(&self, up: ScopeId, down: ScopeId) -> Option<
        TopologyDiagnostic,
    > {
        if up == down || !self.known_view().contains(up) || !self.known_view().contains(down) {
            None
        } else {
            let st = self.upstream_search(up, down);
            if st.cycle {
                Some(TopologyDiagnostic::UpstreamCycle { from: down })
            } else if st.hop_overrun && !st.found {
                Some(TopologyDiagnostic::HopBoundExceeded { from: down })
            } else {
                None
            }
        }
    }

    /// Empty topology (every query `Unknown`) with hop bound `max(1, max_hops)`.
    pub fn new(max_hops: usize) -> (t: StaticTopology)
        ensures
            t.known_view().len() == 0,
            forall|f: TopoFunc| #[trigger] t.relation_view(f).len() == 0,
            t.upstream_view().len() == 0,
            t.hops_view() == if max_hops == 0 {
                1
            } else {
                max_hops
            },
            t.diagnostics_view().len() == 0,
            t.wf(),
    {
        StaticTopology {
            known: Vec::new(),
            session: Vec::new(),
            client: Vec::new(),
            port: Vec::new(),
            ap: Vec::new(),
            vlan: Vec::new(),
            upstream: Vec::new(),
            max_hops: if max_hops == 0 {
                1
            } else {
                max_hops
            },
            diagnostics: Vec::new(),
        }
    }

    fn learn(&mut self, s: ScopeId)
        ensures
            forall|x: ScopeId| #[trigger] final(self).known_view().contains(x) <==> (old(self).known_view().contains(x) || x == s),
            forall|f: TopoFunc| #[trigger] final(self).relation_view(f) == old(self).relation_view(f),
            final(self).session == old(self).session,
            final(self).client == old(self).client,
            final(self).port == old(self).port,
            final(self).ap == old(self).ap,
            final(self).vlan == old(self).vlan,
            final(self).upstream == old(self).upstream,
            final(self).upstream_view() == old(self).upstream_view(),
            final(self).hops_view() == old(self).hops_view(),
            final(self).diagnostics_view() == old(self).diagnostics_view(),
            old(self).wf() ==> final(self).wf(),
    {
        if !contains_scope(&self.known, s) {
            self.known.push(s);
            proof {
                assert forall|x: ScopeId| #[trigger] self.known@.contains(x) <==> (old(self).known@.contains(x) || x == s) by {
                    if old(self).known@.contains(x) {
                        let j = choose|j: int| 0 <= j < old(self).known@.len() && old(self).known@[j] == x;
                        assert(self.known@[j] == x);
                    }
                    if x == s {
                        assert(self.known@[self.known@.len() - 1] == s);
                    }
                }
                if old(self).wf() {
                    assert forall|f: TopoFunc, q: (ScopeId, ScopeId)| #[trigger] self.relation_view(f).contains(q)
                        implies self.known@.contains(q.0) && self.known@.contains(q.1) by {
                        assert(old(self).relation_view(f).contains(q));
                        assert(self.known_view().contains(q.0) == self.known@.contains(q.0));
                        assert(self.known_view().contains(q.1) == self.known@.contains(q.1));
                    }
                }
            }
        }
    }

    /// Declares a scope as known (queries against it answer `False`
    /// instead of `Unknown`).
    pub fn declare(&mut self, scope: ScopeId)
        requires
            old(self).wf(),
        ensures
            final(self).wf(),
            forall|x: ScopeId| #[trigger] final(self).known_view().contains(x) <==> (old(self).known_view().contains(x) || x == scope),
            forall|f: TopoFunc| #[trigger] final(self).relation_view(f) == old(self).relation_view(f),
            final(self).upstream_view() == old(self).upstream_view(),
            final(self).hops_view() == old(self).hops_view(),
            final(self).diagnostics_view() == old(self).diagnostics_view(),
    {
        self.learn(scope);
    }
}

/// Set of the elements of a sequence.
pub open spec fn elems(v: Seq<ScopeId>) -> Set<ScopeId> {
    Set::new(|x: ScopeId| v.contains(x))
}

proof fn lemma_elems_push(v: Seq<ScopeId>, x: ScopeId)
    ensures
        elems(v.push(x)) == elems(v).insert(x),
{
    assert forall|y: ScopeId| #[trigger] v.push(x).contains(y) <==> (v.contains(y) || y == x) by {
        if v.contains(y) {
            let j = choose|j: int| 0 <= j < v.len() && v[j] == y;
            assert(v.push(x)[j] == y);
        }
        if y == x {
            assert(v.push(x)[v.len() as int] == x);
        }
        if v.push(x).contains(y) {
            let j = choose|j: int| 0 <= j < v.len() + 1 && v.push(x)[j] == y;
            if j < v.len() {
                assert(v[j] == y);
            }
        }
    }
    assert(elems(v.push(x)) =~= elems(v).insert(x));
}

/// Scopes strictly increasing by `scope_lt`.
pub open spec fn scopes_sorted(v: Seq<ScopeId>) -> bool {
    forall|i: int, j: int| 0 <= i < j < v.len() ==> scope_lt(v[i], v[j])
}

proof fn lemma_dfs_keeps_path(
    g: Seq<(ScopeId, Vec<ScopeId>)>,
    node: ScopeId,
    target: ScopeId,
    hops: nat,
    st: DfsState,
)
    requires
        !st.on_path.contains(node),
    ensures
        dfs_node(g, node, target, hops, st).on_path == st.on_path,
    decreases hops, 1nat, 0nat,
{
    let st1 = DfsState { on_path: st.on_path.insert(node), ..st };
    lemma_dfs_list_keeps_path(g, neighbors(g, node), 0, target, hops, st1);
    assert(st1.on_path.remove(node) =~= st.on_path);
}

proof fn lemma_dfs_list_keeps_path(
    g: Seq<(ScopeId, Vec<ScopeId>)>,
    ns: Seq<ScopeId>,
    i: int,
    target: ScopeId,
    hops: nat,
    st: DfsState,
)
    ensures
        dfs_list(g, ns, i, target, hops, st).on_path == st.on_path,
    decreases hops, 0nat, ns.len() - i,
{
    if 0 <= i < ns.len() {
        let next = ns[i];
        let st1 = if next == target {
            DfsState { found: true, ..st }
        } else {
            st
        };
        if !st1.on_path.contains(next) && !st1.done.contains(next) && hops != 0 {
            lemma_dfs_keeps_path(g, next, target, (hops - 1) as nat, st1);
        }
        let st2 = if st1.on_path.contains(next) {
            DfsState { cycle: true, ..st1 }
        } else if st1.done.contains(next) {
            st1
        } else if hops == 0 {
            DfsState { hop_overrun: true, ..st1 }
        } else {
            dfs_node(g, next, target, (hops - 1) as nat, st1)
        };
        lemma_dfs_list_keeps_path(g, ns, i + 1, target, hops, st2);
    }
}

/// Abstract traversal state of the exec search.
pub open spec fn abs_state(path: Seq<ScopeId>, done: Seq<ScopeId>, flags: (bool, bool, bool)) -> DfsState {
    DfsState {
        on_path: elems(path),
        done: elems(done),
        cycle: flags.0,
        hop_overrun: flags.1,
        found: flags.2,
    }
}

/// Index of the adjacency entry for `node` (first match).
fn find_entry(g: &Vec<(ScopeId, Vec<ScopeId>)>, node: ScopeId) -> (r: Option<usize>)
    ensures
        match r {
            Some(i) => i < g@.len() && g@[i as int].0 == node && neighbors(g@, node) == g@[i as int].1@
                && forall|j: int| 0 <= j < i ==> g@[j].0 != node,
            None => neighbors(g@, node) == Seq::<ScopeId>::empty() && forall|j: int| 0 <= j < g@.len() ==> g@[j].0 != node,
        },
{
    let mut i: usize = 0;
    proof {
        assert(g@.subrange(0, g@.len() as int) =~= g@);
    }
    while i < g.len()
        invariant
            0 <= i <= g@.len(),
            neighbors(g@, node) == neighbors(g@.subrange(i as int, g@.len() as int), node),
            forall|j: int| 0 <= j < i ==> g@[j].0 != node,
        decreases g.len() - i,
    {
        let ghost rest = g@.subrange(i as int, g@.len() as int);
        if g[i].0.same(&node) {
            return Some(i);
        }
        proof {
            assert(rest.drop_first() =~= g@.subrange(i as int + 1, g@.len() as int));
        }
        i = i + 1;
    }
    None
}

impl StaticTopology {
    /// Exec depth-first search mirroring [`dfs_node`].
    fn dfs(
        &self,
        node: ScopeId,
        target: ScopeId,
        hops_left: usize,
        on_path: &mut Vec<ScopeId>,
        done: &mut Vec<ScopeId>,
        flags: &mut (bool, bool, bool),
    )
        requires
            !old(on_path)@.contains(node),
        ensures
            final(on_path)@ == old(on_path)@,
            abs_state(final(on_path)@, final(done)@, *final(flags)) == dfs_node(
                self.upstream@,
                node,
                target,
                hops_left as nat,
                abs_state(old(on_path)@, old(done)@, *old(flags)),
            ),
        decreases hops_left, 1nat, 0nat,
    {
        let ghost g = self.upstream@;
        let ghost st0 = abs_state(on_path@, done@, *flags);
        on_path.push(node);
        let ghost st1 = DfsState { on_path: st0.on_path.insert(node), ..st0 };
        proof {
            lemma_elems_push(old(on_path)@, node);
        }
        let empty: Vec<ScopeId> = Vec::new();
        let entry = find_entry(&self.upstream, node);
        let ns: &Vec<ScopeId> = match entry {
            Some(e) => &self.upstream[e].1,
            None => &empty,
        };
        let ghost nsv = neighbors(g, node);
        let mut i: usize = 0;
        while i < ns.len()
            invariant
                0 <= i <= ns@.len(),
                ns@ == nsv,
                g == self.upstream@,
                nsv == neighbors(g, node),
                on_path@ == old(on_path)@.push(node),
                dfs_list(g, nsv, 0, target, hops_left as nat, st1) == dfs_list(
                    g,
                    nsv,
                    i as int,
                    target,
                    hops_left as nat,
                    abs_state(on_path@, done@, *flags),
                ),
            decreases ns.len() - i,
        {
            let next = ns[i];
            let ghost cur = abs_state(on_path@, done@, *flags);
            if next.same(&target) {
                flags.2 = true;
            }
            let ghost c1 = abs_state(on_path@, done@, *flags);
            proof {
                assert(c1 == if next == target {
                    DfsState { found: true, ..cur }
                } else {
                    cur
                });
            }
            if contains_scope(on_path, next) {
                flags.0 = true;
            } else if contains_scope(done, next) {
            } else if hops_left == 0 {
                flags.1 = true;
            } else {
                self.dfs(next, target, hops_left - 1, on_path, done, flags);
            }
            proof {
                assert(ns@[i as int] == next);
            }
            i = i + 1;
        }
        let ghost st2 = abs_state(on_path@, done@, *flags);
        let ghost st2_done_seq = done@;
        on_path.pop();
        done.push(node);
        proof {
            assert(on_path@ =~= old(on_path)@);
            lemma_dfs_list_keeps_path(g, nsv, 0, target, hops_left as nat, st1);
            assert(st2.on_path == st1.on_path);
            assert(st1.on_path.remove(node) =~= st0.on_path);
            lemma_elems_push(st2_done_seq, node);
            assert(elems(done@) == st2.done.insert(node));
        }
    }
}

/// Inserts `x` into a strictly sorted scope list (no-op when present).
fn insert_sorted(v: &mut Vec<ScopeId>, x: ScopeId)
    requires
        scopes_sorted(old(v)@),
    ensures
        scopes_sorted(final(v)@),
        elems(final(v)@) == elems(old(v)@).insert(x),
{
    let ghost before = v@;
    let mut pos: usize = 0;
    while pos < v.len() && v[pos].lt(&x)
        invariant
            0 <= pos <= v@.len(),
            v@ == before,
            forall|j: int| 0 <= j < pos ==> scope_lt(v@[j], x),
        decreases v.len() - pos,
    {
        pos = pos + 1;
    }
    proof {
        crate::types::lemma_scope_order(x, x, x);
    }
    if pos < v.len() && v[pos].same(&x) {
        proof {
            assert(elems(before).insert(x) =~= elems(before)) by {
                assert(before[pos as int] == x);
            }
        }
        return;
    }
    proof {
        assert forall|j: int| pos <= j < before.len() implies scope_lt(x, before[j]) by {
            crate::types::lemma_scope_order(x, before[pos as int], before[j]);
            crate::types::lemma_scope_order(before[pos as int], x, x);
        }
    }
    v.insert(pos, x);
    proof {
        let after = v@;
        assert forall|a: int, b: int| 0 <= a < b < after.len() implies scope_lt(after[a], after[b]) by {
            if a < pos && b > pos {
                crate::types::lemma_scope_order(after[a], x, after[b]);
            }
        }
        assert forall|y: ScopeId| #[trigger] after.contains(y) <==> (before.contains(y) || y == x) by {
            if before.contains(y) {
                let j = choose|j: int| 0 <= j < before.len() && before[j] == y;
                if j < pos {
                    assert(after[j] == y);
                } else {
                    assert(after[j + 1] == y);
                }
            }
            if y == x {
                assert(after[pos as int] == x);
            }
            if after.contains(y) {
                let j = choose|j: int| 0 <= j < after.len() && after[j] == y;
                if j < pos {
                    assert(before[j] == y);
                } else if j > pos {
                    assert(before[j - 1] == y);
                }
            }
        }
        assert(elems(after) =~= elems(before).insert(x));
    }
}

/// Adds a pair to a relation list (no-op when present).
fn add_pair(v: &mut Vec<(ScopeId, ScopeId)>, p: (ScopeId, ScopeId))
    ensures
        forall|q: (ScopeId, ScopeId)| #[trigger] final(v)@.contains(q) <==> (old(v)@.contains(q) || q == p),
{
    if !contains_pair(v, p) {
        v.push(p);
        proof {
            assert forall|q: (ScopeId, ScopeId)| #[trigger] v@.contains(q) <==> (old(v)@.contains(q) || q == p) by {
                if old(v)@.contains(q) {
                    let j = choose|j: int| 0 <= j < old(v)@.len() && old(v)@[j] == q;
                    assert(v@[j] == q);
                }
                if q == p {
                    assert(v@[v@.len() - 1] == p);
                }
                if v@.contains(q) {
                    let j = choose|j: int| 0 <= j < v@.len() && v@[j] == q;
                    if j < old(v)@.len() {
                        assert(old(v)@[j] == q);
                    }
                }
            }
        }
    }
}

impl StaticTopology {
    /// Every upstream neighbour list is strictly sorted.
    pub closed spec fn wf(&self) -> bool {
        &&& forall|i: int| 0 <= i < self.upstream@.len() ==> scopes_sorted(#[trigger] self.upstream@[i].1@)
        &&& forall|f: TopoFunc, q: (ScopeId, ScopeId)| #[trigger] self.relation_view(f).contains(q)
            ==> self.known@.contains(q.0) && self.known@.contains(q.1)
    }

    proof fn lemma_neighbors_sorted(g: Seq<(ScopeId, Vec<ScopeId>)>, n: ScopeId)
        requires
            forall|i: int| 0 <= i < g.len() ==> scopes_sorted(#[trigger] g[i].1@),
        ensures
            scopes_sorted(neighbors(g, n)),
        decreases g.len(),
    {
        if g.len() > 0 && g[0].0 != n {
            assert forall|i: int| 0 <= i < g.drop_first().len() implies scopes_sorted(#[trigger] g.drop_first()[i].1@) by {
                assert(g.drop_first()[i] == g[i + 1]);
            }
            Self::lemma_neighbors_sorted(g.drop_first(), n);
        } else if g.len() > 0 {
            assert(scopes_sorted(g[0].1@));
        }
    }

    fn relate(&mut self, rel: TopoFunc, a: ScopeId, b: ScopeId)
        requires
            rel != TopoFunc::UpstreamOf,
            old(self).wf(),
        ensures
            final(self).wf(),
            forall|x: ScopeId| #[trigger] final(self).known_view().contains(x) <==> (old(self).known_view().contains(x) || x == a || x == b),
            forall|q: (ScopeId, ScopeId)| #[trigger] final(self).relation_view(rel).contains(q) <==> (old(self).relation_view(rel).contains(q) || q == norm_pair(a, b)),
            forall|f: TopoFunc| f != rel && f != TopoFunc::UpstreamOf ==> #[trigger] final(self).relation_view(f) == old(self).relation_view(f),
            final(self).upstream_view() == old(self).upstream_view(),
            final(self).hops_view() == old(self).hops_view(),
            final(self).diagnostics_view() == old(self).diagnostics_view(),
    {
        let ghost s0 = self.known@;
        self.learn(a);
        self.learn(b);
        let ghost s2 = self.known@;
        proof {
            assert forall|x: ScopeId| #[trigger] s2.contains(x) <==> (s0.contains(x) || x == a || x == b) by {
                assert(self.known_view().contains(x) == s2.contains(x));
            }
        }
        let p = norm(a, b);
        match rel {
            TopoFunc::SameSession => {
                add_pair(&mut self.session, p);
            },
            TopoFunc::SameClient => {
                add_pair(&mut self.client, p);
            },
            TopoFunc::SamePort => {
                add_pair(&mut self.port, p);
            },
            TopoFunc::SameAp => {
                add_pair(&mut self.ap, p);
            },
            _ => {
                add_pair(&mut self.vlan, p);
            },
        }
        assert(s0 == old(self).known@);
        assert(forall|x: ScopeId| #[trigger] self.known_view().contains(x) <==> (old(self).known_view().contains(x) || x == a || x == b));
        assert forall|q: (ScopeId, ScopeId)| #[trigger] self.relation_view(rel).contains(q) <==> (old(self).relation_view(rel).contains(q) || q == norm_pair(a, b)) by {
            match rel {
                TopoFunc::SameSession => assert(self.session@.contains(q) <==> (old(self).session@.contains(q) || q == p)),
                TopoFunc::SameClient => assert(self.client@.contains(q) <==> (old(self).client@.contains(q) || q == p)),
                TopoFunc::SamePort => assert(self.port@.contains(q) <==> (old(self).port@.contains(q) || q == p)),
                TopoFunc::SameAp => assert(self.ap@.contains(q) <==> (old(self).ap@.contains(q) || q == p)),
                _ => assert(self.vlan@.contains(q) <==> (old(self).vlan@.contains(q) || q == p)),
            }
        }
        assert forall|f: TopoFunc| f != rel && f != TopoFunc::UpstreamOf implies #[trigger] self.relation_view(f) == old(self).relation_view(f) by {
        }
        assert forall|f: TopoFunc, q: (ScopeId, ScopeId)| #[trigger] self.relation_view(f).contains(q)
            implies self.known@.contains(q.0) && self.known@.contains(q.1) by {
            assert(self.known_view().contains(q.0) == self.known@.contains(q.0));
            assert(self.known_view().contains(q.1) == self.known@.contains(q.1));
            if f == rel || (f == TopoFunc::UpstreamOf && rel == TopoFunc::SameVlan) || (rel == TopoFunc::UpstreamOf && f == TopoFunc::SameVlan) {
                assert(self.relation_view(f) == self.relation_view(rel));
                if old(self).relation_view(rel).contains(q) {
                    assert(old(self).known@.contains(q.0) && old(self).known@.contains(q.1));
                }
            } else {
                assert(self.relation_view(f) == old(self).relation_view(f));
                assert(old(self).known@.contains(q.0) && old(self).known@.contains(q.1));
            }
        }
    }

    /// Declares `same_session(a, b) = True` (symmetric).
    pub fn relate_session(&mut self, a: ScopeId, b: ScopeId)
        requires
            old(self).wf(),
        ensures
            final(self).wf(),
            forall|x: ScopeId| #[trigger] final(self).known_view().contains(x) <==> (old(self).known_view().contains(x) || x == a || x == b),
            forall|q: (ScopeId, ScopeId)| #[trigger] final(self).relation_view(TopoFunc::SameSession).contains(q) <==> (old(self).relation_view(TopoFunc::SameSession).contains(q) || q == norm_pair(a, b)),
            forall|f: TopoFunc| f != TopoFunc::SameSession && f != TopoFunc::UpstreamOf ==> #[trigger] final(self).relation_view(f) == old(self).relation_view(f),
            final(self).upstream_view() == old(self).upstream_view(),
            final(self).hops_view() == old(self).hops_view(),
            final(self).diagnostics_view() == old(self).diagnostics_view(),
    {
        self.relate(TopoFunc::SameSession, a, b)
    }

    /// Declares `same_client(a, b) = True` (symmetric).
    pub fn relate_client(&mut self, a: ScopeId, b: ScopeId)
        requires
            old(self).wf(),
        ensures
            final(self).wf(),
            forall|x: ScopeId| #[trigger] final(self).known_view().contains(x) <==> (old(self).known_view().contains(x) || x == a || x == b),
            forall|q: (ScopeId, ScopeId)| #[trigger] final(self).relation_view(TopoFunc::SameClient).contains(q) <==> (old(self).relation_view(TopoFunc::SameClient).contains(q) || q == norm_pair(a, b)),
            forall|f: TopoFunc| f != TopoFunc::SameClient && f != TopoFunc::UpstreamOf ==> #[trigger] final(self).relation_view(f) == old(self).relation_view(f),
            final(self).upstream_view() == old(self).upstream_view(),
            final(self).hops_view() == old(self).hops_view(),
            final(self).diagnostics_view() == old(self).diagnostics_view(),
    {
        self.relate(TopoFunc::SameClient, a, b)
    }

    /// Declares `same_port(a, b) = True` (symmetric).
    pub fn relate_port(&mut self, a: ScopeId, b: ScopeId)
        requires
            old(self).wf(),
        ensures
            final(self).wf(),
            forall|x: ScopeId| #[trigger] final(self).known_view().contains(x) <==> (old(self).known_view().contains(x) || x == a || x == b),
            forall|q: (ScopeId, ScopeId)| #[trigger] final(self).relation_view(TopoFunc::SamePort).contains(q) <==> (old(self).relation_view(TopoFunc::SamePort).contains(q) || q == norm_pair(a, b)),
            forall|f: TopoFunc| f != TopoFunc::SamePort && f != TopoFunc::UpstreamOf ==> #[trigger] final(self).relation_view(f) == old(self).relation_view(f),
            final(self).upstream_view() == old(self).upstream_view(),
            final(self).hops_view() == old(self).hops_view(),
            final(self).diagnostics_view() == old(self).diagnostics_view(),
    {
        self.relate(TopoFunc::SamePort, a, b)
    }

    /// Declares `same_ap(a, b) = True` (symmetric).
    pub fn relate_ap(&mut self, a: ScopeId, b: ScopeId)
        requires
            old(self).wf(),
        ensures
            final(self).wf(),
            forall|x: ScopeId| #[trigger] final(self).known_view().contains(x) <==> (old(self).known_view().contains(x) || x == a || x == b),
            forall|q: (ScopeId, ScopeId)| #[trigger] final(self).relation_view(TopoFunc::SameAp).contains(q) <==> (old(self).relation_view(TopoFunc::SameAp).contains(q) || q == norm_pair(a, b)),
            forall|f: TopoFunc| f != TopoFunc::SameAp && f != TopoFunc::UpstreamOf ==> #[trigger] final(self).relation_view(f) == old(self).relation_view(f),
            final(self).upstream_view() == old(self).upstream_view(),
            final(self).hops_view() == old(self).hops_view(),
            final(self).diagnostics_view() == old(self).diagnostics_view(),
    {
        self.relate(TopoFunc::SameAp, a, b)
    }

    /// Declares `same_vlan(a, b) = True` (symmetric).
    pub fn relate_vlan(&mut self, a: ScopeId, b: ScopeId)
        requires
            old(self).wf(),
        ensures
            final(self).wf(),
            forall|x: ScopeId| #[trigger] final(self).known_view().contains(x) <==> (old(self).known_view().contains(x) || x == a || x == b),
            forall|q: (ScopeId, ScopeId)| #[trigger] final(self).relation_view(TopoFunc::SameVlan).contains(q) <==> (old(self).relation_view(TopoFunc::SameVlan).contains(q) || q == norm_pair(a, b)),
            forall|f: TopoFunc| f != TopoFunc::SameVlan && f != TopoFunc::UpstreamOf ==> #[trigger] final(self).relation_view(f) == old(self).relation_view(f),
            final(self).upstream_view() == old(self).upstream_view(),
            final(self).hops_view() == old(self).hops_view(),
            final(self).diagnostics_view() == old(self).diagnostics_view(),
    {
        self.relate(TopoFunc::SameVlan, a, b)
    }

    /// Declares a directed edge: `up` is directly upstream of `down`.
    pub fn upstream_edge(&mut self, up: ScopeId, down: ScopeId)
        requires
            old(self).wf(),
        ensures
            final(self).wf(),
            forall|x: ScopeId| #[trigger] final(self).known_view().contains(x) <==> (old(self).known_view().contains(x) || x == up || x == down),
            elems(neighbors(final(self).upstream_view(), down)) == elems(neighbors(old(self).upstream_view(), down)).insert(up),
            scopes_sorted(neighbors(final(self).upstream_view(), down)),
            forall|n: ScopeId| n != down ==> #[trigger] neighbors(final(self).upstream_view(), n) == neighbors(old(self).upstream_view(), n),
            forall|f: TopoFunc| #[trigger] final(self).relation_view(f) == old(self).relation_view(f),
            final(self).hops_view() == old(self).hops_view(),
            final(self).diagnostics_view() == old(self).diagnostics_view(),
    {
        let ghost s0 = self.known@;
        self.learn(up);
        self.learn(down);
        let ghost s2 = self.known@;
        proof {
            assert forall|x: ScopeId| #[trigger] s2.contains(x) <==> (s0.contains(x) || x == up || x == down) by {
                assert(self.known_view().contains(x) == s2.contains(x));
            }
        }
        let ghost g0 = self.upstream@;
        let ghost mid = *self;
        match find_entry(&self.upstream, down) {
            Some(e) => {
                let mut list = self.upstream[e].1.clone();
                proof {
                    assert(list@ == g0[e as int].1@);
                    assert(scopes_sorted(g0[e as int].1@));
                }
                insert_sorted(&mut list, up);
                let ghost newlist = list;
                self.upstream.set(e, (down, list));
                proof {
                    let g1 = self.upstream@;
                    assert(g1 == g0.update(e as int, (down, newlist)));
                    assert forall|n: ScopeId| #[trigger] neighbors(g1, n) == if n == down { newlist@ } else { neighbors(g0, n) } by {
                        Self::lemma_neighbors_update(g0, e as int, down, newlist, n);
                    }
                    assert forall|i: int| 0 <= i < g1.len() implies scopes_sorted(#[trigger] g1[i].1@) by {
                        if i != e { assert(g1[i] == g0[i]); }
                    }
                }
            },
            None => {
                let mut list: Vec<ScopeId> = Vec::new();
                list.push(up);
                self.upstream.push((down, list));
                proof {
                    let g1 = self.upstream@;
                    assert forall|n: ScopeId| #[trigger] neighbors(g1, n) == if n == down { seq![up] } else { neighbors(g0, n) } by {
                        Self::lemma_neighbors_push(g0, (down, list), n);
                    }
                    assert forall|x: ScopeId| #[trigger] seq![up].contains(x) <==> x == up by {
                        if x == up {
                            assert(seq![up][0] == up);
                        }
                    }
                    assert(elems(seq![up]) =~= Set::<ScopeId>::empty().insert(up));
                    assert(elems(Seq::<ScopeId>::empty()) =~= Set::<ScopeId>::empty());
                    assert forall|i: int| 0 <= i < g1.len() implies scopes_sorted(#[trigger] g1[i].1@) by {
                        if i < g0.len() { assert(g1[i] == g0[i]); }
                    }
                }
            },
        }
        proof {
            assert forall|f: TopoFunc, q: (ScopeId, ScopeId)| #[trigger] self.relation_view(f).contains(q)
                implies self.known@.contains(q.0) && self.known@.contains(q.1) by {
                assert(self.relation_view(f) == mid.relation_view(f));
                assert(mid.relation_view(f).contains(q));
            }
        }
    }

    proof fn lemma_neighbors_update(g: Seq<(ScopeId, Vec<ScopeId>)>, e: int, down: ScopeId, l: Vec<ScopeId>, n: ScopeId)
        requires
            0 <= e < g.len(),
            g[e].0 == down,
            forall|j: int| 0 <= j < e ==> g[j].0 != down,
        ensures
            neighbors(g.update(e, (down, l)), n) == if n == down { l@ } else { neighbors(g, n) },
        decreases g.len(),
    {
        let g1 = g.update(e, (down, l));
        if e > 0 {
            assert(g1.drop_first() =~= g.drop_first().update(e - 1, (down, l)));
            assert(g1[0] == g[0]);
            assert forall|j: int| 0 <= j < e - 1 implies g.drop_first()[j].0 != down by {
                assert(g.drop_first()[j] == g[j + 1]);
            }
            Self::lemma_neighbors_update(g.drop_first(), e - 1, down, l, n);
        } else {
            assert(g1.drop_first() =~= g.drop_first());
            assert(g1[0] == (down, l));
        }
    }

    proof fn lemma_neighbors_push(g: Seq<(ScopeId, Vec<ScopeId>)>, entry: (ScopeId, Vec<ScopeId>), n: ScopeId)
        requires
            forall|j: int| 0 <= j < g.len() ==> g[j].0 != entry.0,
        ensures
            neighbors(g.push(entry), n) == if n == entry.0 { entry.1@ } else { neighbors(g, n) },
        decreases g.len(),
    {
        let g1 = g.push(entry);
        if g.len() > 0 {
            assert(g1.drop_first() =~= g.drop_first().push(entry));
            assert(g1[0] == g[0]);
            assert forall|j: int| 0 <= j < g.drop_first().len() implies g.drop_first()[j].0 != entry.0 by {
                assert(g.drop_first()[j] == g[j + 1]);
            }
            Self::lemma_neighbors_push(g.drop_first(), entry, n);
        } else {
            assert(g1.drop_first() =~= Seq::<(ScopeId, Vec<ScopeId>)>::empty());
            assert(g1[0] == entry);
            assert(neighbors(g1.drop_first(), n) == Seq::<ScopeId>::empty());
        }
    }

    /// Recorded cycle / hop-bound diagnostics, in query order.
    pub fn diagnostics(&self) -> (d: Vec<TopologyDiagnostic>)
        ensures
            d@ == self.diagnostics_view(),
    {
        self.diagnostics.clone()
    }
}

impl TopologyProvider for StaticTopology {
    open spec fn answer(&self, f: TopoFunc, a: ScopeId, b: ScopeId) -> T3 {
        match f {
            TopoFunc::UpstreamOf => self.upstream_answer(a, b),
            _ => self.relation_answer(f, a, b),
        }
    }

    fn same_session(&mut self, a: ScopeId, b: ScopeId) -> (t: T3) {
        self.query(TopoFunc::SameSession, a, b)
    }

    fn same_client(&mut self, a: ScopeId, b: ScopeId) -> (t: T3) {
        self.query(TopoFunc::SameClient, a, b)
    }

    fn same_port(&mut self, a: ScopeId, b: ScopeId) -> (t: T3) {
        self.query(TopoFunc::SamePort, a, b)
    }

    fn same_ap(&mut self, a: ScopeId, b: ScopeId) -> (t: T3) {
        self.query(TopoFunc::SameAp, a, b)
    }

    fn same_vlan(&mut self, a: ScopeId, b: ScopeId) -> (t: T3) {
        self.query(TopoFunc::SameVlan, a, b)
    }

    fn upstream_of(&mut self, up: ScopeId, down: ScopeId) -> (t: T3)
        ensures
            final(self).diagnostics_view() == old(self).diagnostics_view() + match old(self).upstream_diagnostic(up, down) {
                Some(d) => seq![d],
                None => Seq::<TopologyDiagnostic>::empty(),
            },
    {
        if up.same(&down) {
            proof { assert(self.diagnostics@ =~= old(self).diagnostics@ + Seq::<TopologyDiagnostic>::empty()); }
            return T3::False;
        }
        if !contains_scope(&self.known, up) || !contains_scope(&self.known, down) {
            proof { assert(self.diagnostics@ =~= old(self).diagnostics@ + Seq::<TopologyDiagnostic>::empty()); }
            return T3::Unknown;
        }
        let mut on_path: Vec<ScopeId> = Vec::new();
        let mut done: Vec<ScopeId> = Vec::new();
        let mut flags = (false, false, false);
        proof {
            assert(elems(Seq::<ScopeId>::empty()) =~= Set::<ScopeId>::empty());
            assert(abs_state(on_path@, done@, flags) == dfs_init());
        }
        self.dfs(down, up, self.max_hops, &mut on_path, &mut done, &mut flags);
        let (cycle, hop_overrun, found) = flags;
        if cycle {
            self.diagnostics.push(TopologyDiagnostic::UpstreamCycle { from: down });
            return T3::False;
        }
        if hop_overrun && !found {
            self.diagnostics.push(TopologyDiagnostic::HopBoundExceeded { from: down });
            return T3::False;
        }
        proof { assert(self.diagnostics@ =~= old(self).diagnostics@ + Seq::<TopologyDiagnostic>::empty()); }
        T3::from_bool(found)
    }
}

/// The five symmetric relations of a well-formed `StaticTopology`: each is
/// symmetric and reflexive, and a query that involves a scope the topology
/// never heard of answers `Unknown`, never `False`.
pub proof fn lemma_relation_laws(t: &StaticTopology, f: TopoFunc, a: ScopeId, b: ScopeId)
    requires
        t.wf(),
        f != TopoFunc::UpstreamOf,
    ensures
        t.answer(f, a, b) == t.answer(f, b, a),
        t.answer(f, a, a) == T3::True,
        a != b && !(t.known_view().contains(a) && t.known_view().contains(b)) ==> t.answer(f, a, b)
            == T3::Unknown,
{
    crate::types::lemma_scope_order(a, b, a);
    if a != b {
        assert(norm_pair(a, b) == norm_pair(b, a));
        if t.relation_view(f).contains(norm_pair(a, b)) {
            assert(t.known@.contains(norm_pair(a, b).0) && t.known@.contains(norm_pair(a, b).1));
        }
    }
}

/// `upstream_of` never answers `True` for a scope and itself, and answers
/// `Unknown` exactly when the two scopes differ and one of them is unknown.
pub proof fn lemma_upstream_laws(t: &StaticTopology, up: ScopeId, down: ScopeId)
    ensures
        t.answer(TopoFunc::UpstreamOf, up, up) == T3::False,
        t.answer(TopoFunc::UpstreamOf, up, down) == T3::Unknown <==> (up != down && !(
        t.known_view().contains(up) && t.known_view().contains(down))),
{
}

impl StaticTopology {
    fn query(&self, f: TopoFunc, a: ScopeId, b: ScopeId) -> (t: T3)
        requires
            f != TopoFunc::UpstreamOf,
        ensures
            t == self.relation_answer(f, a, b),
    {
        if a.same(&b) {
            return T3::True;
        }
        let p = norm(a, b);
        let hit = match f {
            TopoFunc::SameSession => contains_pair(&self.session, p),
            TopoFunc::SameClient => contains_pair(&self.client, p),
            TopoFunc::SamePort => contains_pair(&self.port, p),
            TopoFunc::SameAp => contains_pair(&self.ap, p),
            _ => contains_pair(&self.vlan, p),
        };
        if hit {
            return T3::True;
        }
        if contains_scope(&self.known, a) && contains_scope(&self.known, b) {
            T3::False
        } else {
            T3::Unknown
        }
    }
}


/// `p` follows upstream edges: each node's next is one of its direct
/// upstream neighbours.
pub open spec fn is_upstream_walk(g: Seq<(ScopeId, Vec<ScopeId>)>, p: Seq<ScopeId>) -> bool {
    forall|k: int| 0 <= k < p.len() - 1 ==> #[trigger] neighbors(g, p[k]).contains(p[k + 1])
}

/// The upstream graph has a directed cycle.
pub open spec fn has_upstream_cycle(g: Seq<(ScopeId, Vec<ScopeId>)>) -> bool {
    exists|p: Seq<ScopeId>| p.len() >= 2 && p[0] == p.last() && #[trigger] is_upstream_walk(g, p)
}

/// `to` is reachable from `from` by upstream edges.
pub open spec fn upstream_reachable(g: Seq<(ScopeId, Vec<ScopeId>)>, from: ScopeId, to: ScopeId) -> bool {
    exists|p: Seq<ScopeId>| p.len() >= 1 && p[0] == from && p.last() == to && #[trigger] is_upstream_walk(g, p)
}

proof fn lemma_dfs_node_sound(
    g: Seq<(ScopeId, Vec<ScopeId>)>,
    node: ScopeId,
    target: ScopeId,
    hops: nat,
    st: DfsState,
    path: Seq<ScopeId>,
)
    requires
        is_upstream_walk(g, path.push(node)),
        forall|x: ScopeId| st.on_path.contains(x) <==> path.contains(x),
        !st.on_path.contains(node),
    ensures
        dfs_node(g, node, target, hops, st).cycle ==> st.cycle || has_upstream_cycle(g),
        dfs_node(g, node, target, hops, st).found ==> st.found || upstream_reachable(g, path.push(node)[0], target),
    decreases hops, 1nat, 0nat,
{
    let st1 = DfsState { on_path: st.on_path.insert(node), ..st };
    let p1 = path.push(node);
    assert forall|x: ScopeId| st1.on_path.contains(x) <==> p1.contains(x) by {
        if p1.contains(x) {
            let k = choose|k: int| 0 <= k < p1.len() && p1[k] == x;
            if k < path.len() {
                assert(path[k] == x);
            }
        }
        if path.contains(x) {
            let k = choose|k: int| 0 <= k < path.len() && path[k] == x;
            assert(p1[k] == x);
        }
        assert(p1[path.len() as int] == node);
    }
    lemma_dfs_list_sound(g, neighbors(g, node), 0, target, hops, st1, p1);
}

proof fn lemma_dfs_list_sound(
    g: Seq<(ScopeId, Vec<ScopeId>)>,
    ns: Seq<ScopeId>,
    i: int,
    target: ScopeId,
    hops: nat,
    st: DfsState,
    path: Seq<ScopeId>,
)
    requires
        path.len() >= 1,
        is_upstream_walk(g, path),
        forall|x: ScopeId| st.on_path.contains(x) <==> path.contains(x),
        ns == neighbors(g, path.last()),
    ensures
        dfs_list(g, ns, i, target, hops, st).cycle ==> st.cycle || has_upstream_cycle(g),
        dfs_list(g, ns, i, target, hops, st).found ==> st.found || upstream_reachable(g, path[0], target),
    decreases hops, 0nat, ns.len() - i,
{
    if 0 <= i < ns.len() {
        let next = ns[i];
        assert(ns.contains(next));
        let ext = path.push(next);
        assert(is_upstream_walk(g, ext)) by {
            assert forall|k: int| 0 <= k < ext.len() - 1 implies #[trigger] neighbors(g, ext[k]).contains(ext[k + 1]) by {
                if k < path.len() - 1 {
                    assert(ext[k] == path[k] && ext[k + 1] == path[k + 1]);
                } else {
                    assert(ext[k] == path.last() && ext[k + 1] == next);
                }
            }
        }
        let st1 = if next == target {
            DfsState { found: true, ..st }
        } else {
            st
        };
        if next == target {
            assert(ext[0] == path[0] && ext.last() == target);
            assert(upstream_reachable(g, path[0], target));
        }
        if st1.on_path.contains(next) {
            assert(st.on_path.contains(next));
            assert(path.contains(next));
            let k = choose|k: int| 0 <= k < path.len() && path[k] == next;
            assert(0 <= k < path.len() && path[k] == next);
            let cyc = path.subrange(k, path.len() as int).push(next);
            assert(is_upstream_walk(g, cyc)) by {
                assert forall|m: int| 0 <= m < cyc.len() - 1 implies #[trigger] neighbors(g, cyc[m]).contains(cyc[m + 1]) by {
                    if m < path.len() - k - 1 {
                        assert(cyc[m] == path[k + m] && cyc[m + 1] == path[k + m + 1]);
                    } else {
                        assert(cyc[m] == path.last() && cyc[m + 1] == next);
                    }
                }
            }
            assert(cyc[0] == next && cyc.last() == next);
            assert(has_upstream_cycle(g));
        }
        if !st1.on_path.contains(next) && !st1.done.contains(next) && hops != 0 {
            lemma_dfs_node_sound(g, next, target, (hops - 1) as nat, st1, path);
            lemma_dfs_keeps_path(g, next, target, (hops - 1) as nat, st1);
            assert(path.push(next)[0] == path[0]);
        }
        let st2 = if st1.on_path.contains(next) {
            DfsState { cycle: true, ..st1 }
        } else if st1.done.contains(next) {
            st1
        } else if hops == 0 {
            DfsState { hop_overrun: true, ..st1 }
        } else {
            dfs_node(g, next, target, (hops - 1) as nat, st1)
        };
        lemma_dfs_list_sound(g, ns, i + 1, target, hops, st2, path);
    }
}

/// What an upstream search reports is real: a reported cycle is a directed
/// cycle of the upstream graph, and a found target is reachable from the
/// start by upstream edges.
pub proof fn law_upstream_search_sound(t: StaticTopology, up: ScopeId, down: ScopeId)
    ensures
        t.upstream_search(up, down).cycle ==> has_upstream_cycle(t.upstream_view()),
        t.upstream_search(up, down).found ==> upstream_reachable(t.upstream_view(), down, up),
{
    let path = Seq::<ScopeId>::empty();
    assert(is_upstream_walk(t.upstream_view(), path.push(down)));
    lemma_dfs_node_sound(t.upstream_view(), down, up, t.hops_view(), dfs_init(), path);
    assert(path.push(down)[0] == down);
}

/// `upstream_of(up, down)`: `True` only when `up` is reachable from `down`
/// by upstream edges, and an `UpstreamCycle` diagnostic only when the
/// upstream graph has a directed cycle; so on an acyclic graph no query
/// ever reports a cycle.
pub proof fn law_upstream_of_sound(t: StaticTopology, up: ScopeId, down: ScopeId)
    ensures
        t.upstream_answer(up, down) == T3::True ==> upstream_reachable(t.upstream_view(), down, up),
        t.upstream_diagnostic(up, down) matches Some(TopologyDiagnostic::UpstreamCycle { .. }) ==> has_upstream_cycle(
            t.upstream_view(),
        ),
        !has_upstream_cycle(t.upstream_view()) ==> !(t.upstream_diagnostic(up, down) matches Some(
            TopologyDiagnostic::UpstreamCycle { .. },
        )),
{
    law_upstream_search_sound(t, up, down);
}


/// `to` is reachable from `from` over at least one upstream edge.
pub open spec fn upstream_reachable1(g: Seq<(ScopeId, Vec<ScopeId>)>, from: ScopeId, to: ScopeId) -> bool {
    exists|p: Seq<ScopeId>| p.len() >= 2 && p[0] == from && p.last() == to && #[trigger] is_upstream_walk(g, p)
}

/// Every explored node that reaches the target has already found it.
pub open spec fn done_found(g: Seq<(ScopeId, Vec<ScopeId>)>, target: ScopeId, st: DfsState) -> bool {
    forall|d: ScopeId| #[trigger] st.done.contains(d) && upstream_reachable1(g, d, target) ==> st.found
}

proof fn lemma_dfs_node_flags(g: Seq<(ScopeId, Vec<ScopeId>)>, node: ScopeId, target: ScopeId, hops: nat, st: DfsState)
    ensures
        st.found ==> dfs_node(g, node, target, hops, st).found,
        st.cycle ==> dfs_node(g, node, target, hops, st).cycle,
        st.hop_overrun ==> dfs_node(g, node, target, hops, st).hop_overrun,
    decreases hops, 1nat, 0nat,
{
    let st1 = DfsState { on_path: st.on_path.insert(node), ..st };
    lemma_dfs_list_flags(g, neighbors(g, node), 0, target, hops, st1);
}

proof fn lemma_dfs_list_flags(
    g: Seq<(ScopeId, Vec<ScopeId>)>,
    ns: Seq<ScopeId>,
    i: int,
    target: ScopeId,
    hops: nat,
    st: DfsState,
)
    ensures
        st.found ==> dfs_list(g, ns, i, target, hops, st).found,
        st.cycle ==> dfs_list(g, ns, i, target, hops, st).cycle,
        st.hop_overrun ==> dfs_list(g, ns, i, target, hops, st).hop_overrun,
    decreases hops, 0nat, ns.len() - i,
{
    if 0 <= i < ns.len() {
        let next = ns[i];
        let st1 = if next == target {
            DfsState { found: true, ..st }
        } else {
            st
        };
        if !st1.on_path.contains(next) && !st1.done.contains(next) && hops != 0 {
            lemma_dfs_node_flags(g, next, target, (hops - 1) as nat, st1);
        }
        let st2 = if st1.on_path.contains(next) {
            DfsState { cycle: true, ..st1 }
        } else if st1.done.contains(next) {
            st1
        } else if hops == 0 {
            DfsState { hop_overrun: true, ..st1 }
        } else {
            dfs_node(g, next, target, (hops - 1) as nat, st1)
        };
        lemma_dfs_list_flags(g, ns, i + 1, target, hops, st2);
    }
}

proof fn lemma_dfs_node_complete(
    g: Seq<(ScopeId, Vec<ScopeId>)>,
    node: ScopeId,
    target: ScopeId,
    hops: nat,
    st: DfsState,
)
    requires
        done_found(g, target, st),
    ensures
        ({
            let r = dfs_node(g, node, target, hops, st);
            !r.cycle && !r.hop_overrun ==> done_found(g, target, r) && (upstream_reachable1(g, node, target) ==> r.found)
        }),
    decreases hops, 1nat, 0nat,
{
    let st1 = DfsState { on_path: st.on_path.insert(node), ..st };
    let ns = neighbors(g, node);
    lemma_dfs_list_complete(g, ns, 0, target, hops, st1);
    let st2 = dfs_list(g, ns, 0, target, hops, st1);
    let r = dfs_node(g, node, target, hops, st);
    if !r.cycle && !r.hop_overrun {
        if upstream_reachable1(g, node, target) {
            let p = choose|p: Seq<ScopeId>| p.len() >= 2 && p[0] == node && p.last() == target && #[trigger] is_upstream_walk(g, p);
            assert(neighbors(g, p[0]).contains(p[1]));
            let j = choose|j: int| 0 <= j < ns.len() && ns[j] == p[1];
            if p.len() > 2 {
                let q = p.subrange(1, p.len() as int);
                assert(is_upstream_walk(g, q)) by {
                    assert forall|m: int| 0 <= m < q.len() - 1 implies #[trigger] neighbors(g, q[m]).contains(q[m + 1]) by {
                        assert(q[m] == p[m + 1] && q[m + 1] == p[m + 2]);
                    }
                }
                assert(q[0] == p[1] && q.last() == target);
                assert(upstream_reachable1(g, ns[j], target));
            }
            assert(ns[j] == target || upstream_reachable1(g, ns[j], target));
        }
        assert forall|d: ScopeId| #[trigger] r.done.contains(d) && upstream_reachable1(g, d, target) implies r.found by {
            if d != node {
                assert(st2.done.contains(d));
            }
        }
    }
}

proof fn lemma_dfs_list_complete(
    g: Seq<(ScopeId, Vec<ScopeId>)>,
    ns: Seq<ScopeId>,
    i: int,
    target: ScopeId,
    hops: nat,
    st: DfsState,
)
    requires
        0 <= i,
        done_found(g, target, st),
    ensures
        ({
            let r = dfs_list(g, ns, i, target, hops, st);
            !r.cycle && !r.hop_overrun ==> done_found(g, target, r) && forall|j: int|
                i <= j < ns.len() && (ns[j] == target || upstream_reachable1(g, #[trigger] ns[j], target)) ==> r.found
        }),
    decreases hops, 0nat, ns.len() - i,
{
    if 0 <= i < ns.len() {
        let next = ns[i];
        let st1 = if next == target {
            DfsState { found: true, ..st }
        } else {
            st
        };
        assert(done_found(g, target, st1));
        let st2 = if st1.on_path.contains(next) {
            DfsState { cycle: true, ..st1 }
        } else if st1.done.contains(next) {
            st1
        } else if hops == 0 {
            DfsState { hop_overrun: true, ..st1 }
        } else {
            dfs_node(g, next, target, (hops - 1) as nat, st1)
        };
        if !st1.on_path.contains(next) && !st1.done.contains(next) && hops != 0 {
            lemma_dfs_node_complete(g, next, target, (hops - 1) as nat, st1);
            lemma_dfs_node_flags(g, next, target, (hops - 1) as nat, st1);
        }
        lemma_dfs_list_flags(g, ns, i + 1, target, hops, st2);
        let r = dfs_list(g, ns, i + 1, target, hops, st2);
        if !r.cycle && !r.hop_overrun {
            assert(!st2.cycle && !st2.hop_overrun);
            assert(!st1.on_path.contains(next));
            assert(st1.done.contains(next) || hops != 0);
            assert(done_found(g, target, st2));
            lemma_dfs_list_complete(g, ns, i + 1, target, hops, st2);
            if next == target || upstream_reachable1(g, next, target) {
                assert(st2.found);
                assert(r.found);
            }
            assert forall|j: int|
                i <= j < ns.len() && (ns[j] == target || upstream_reachable1(g, #[trigger] ns[j], target)) implies r.found by {
                if j == i {
                    assert(ns[j] == next);
                }
            }
        }
    }
}

/// A search that met neither a cycle nor the hop bound is complete:
/// `upstream_of(up, down)` is then `True` exactly when `up` (another scope
/// than `down`) is reachable from `down` by upstream edges.
pub proof fn law_upstream_of_complete(t: StaticTopology, up: ScopeId, down: ScopeId)
    requires
        up != down,
        t.known_view().contains(up) && t.known_view().contains(down),
        !t.upstream_search(up, down).cycle,
        !t.upstream_search(up, down).hop_overrun,
    ensures
        t.upstream_answer(up, down) == T3::True <==> upstream_reachable(t.upstream_view(), down, up),
{
    let g = t.upstream_view();
    lemma_dfs_node_complete(g, down, up, t.hops_view(), dfs_init());
    law_upstream_search_sound(t, up, down);
    if upstream_reachable(g, down, up) {
        let p = choose|p: Seq<ScopeId>| p.len() >= 1 && p[0] == down && p.last() == up && #[trigger] is_upstream_walk(g, p);
        assert(p.len() >= 2);
        assert(upstream_reachable1(g, down, up));
    }
}


/// The `same_*` relations are symmetric and reflexive: asking `f(a, b)`
/// and `f(b, a)` gives the same answer, and `f(a, a)` is `True`.
pub proof fn law_relations_symmetric(t: StaticTopology, f: TopoFunc, a: ScopeId, b: ScopeId)
    ensures
        t.relation_answer(f, a, b) == t.relation_answer(f, b, a),
        t.relation_answer(f, a, a) == T3::True,
{
    crate::types::lemma_scope_order(a, b, a);
    if a != b {
        assert(norm_pair(a, b) == norm_pair(b, a));
    }
}

/// Once `a` and `b` are recorded as related under `f`, both argument
/// orders answer `True`; two known scopes never recorded as related
/// answer `False`.
pub proof fn law_relations_recorded(t: StaticTopology, f: TopoFunc, a: ScopeId, b: ScopeId)
    ensures
        t.relation_view(f).contains(norm_pair(a, b)) ==> t.relation_answer(f, a, b) == T3::True
            && t.relation_answer(f, b, a) == T3::True,
        a != b && !t.relation_view(f).contains(norm_pair(a, b)) && t.known_view().contains(a) && t.known_view().contains(
            b,
        ) ==> t.relation_answer(f, a, b) == T3::False,
{
    law_relations_symmetric(t, f, a, b);
}

} // verus!
