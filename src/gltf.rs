//! The static collider plan of a loaded scene: one fixed triangle-mesh
//! collider for every primitive of every mesh that a scene node uses, placed
//! at that node. The engine builds each collider shape from the mesh data.
use vstd::prelude::*;

verus! {

/// One static collider to build: the primitive `primitive` of mesh `mesh`,
/// placed at the transform of node `node`.
#[derive(Clone, Copy, Debug, PartialEq, Eq)]
pub struct StaticCollider {
    pub node: usize,
    pub mesh: usize,
    pub primitive: usize,
}

/// Every mesh that a node refers to exists. `nodes[i]` is the mesh of node
/// `i`, if it has one; `mesh_primitives[m]` is the number of primitives of
/// mesh `m`.
pub open spec fn scene_ok(nodes: Seq<Option<usize>>, mesh_primitives: Seq<usize>) -> bool {
    forall|i: int|
        0 <= i < nodes.len() ==> (#[trigger] nodes[i] matches Some(m) ==> m < mesh_primitives.len())
}

/// The colliders of one node.
pub open spec fn node_colliders(
    node: usize,
    mesh: Option<usize>,
    mesh_primitives: Seq<usize>,
) -> Seq<StaticCollider> {
    match mesh {
        Some(m) => Seq::new(
            mesh_primitives[m as int] as nat,
            |p: int| StaticCollider { node, mesh: m, primitive: p as usize },
        ),
        None => Seq::empty(),
    }
}

/// The colliders of a scene: node by node, and within a node primitive by primitive.
pub open spec fn collider_plan(
    nodes: Seq<Option<usize>>,
    mesh_primitives: Seq<usize>,
) -> Seq<StaticCollider>
    decreases nodes.len(),
{
    if nodes.len() == 0 {
        Seq::empty()
    } else {
        collider_plan(nodes.drop_last(), mesh_primitives) + node_colliders(
            (nodes.len() - 1) as usize,
            nodes.last(),
            mesh_primitives,
        )
    }
}

/// Whether `a` comes before `b` in node-then-primitive order.
pub open spec fn before(a: StaticCollider, b: StaticCollider) -> bool {
    a.node < b.node || (a.node == b.node && a.primitive < b.primitive)
}

/// Every entry of `plan` is a primitive of the mesh that its node uses.
pub open spec fn entries_valid(
    nodes: Seq<Option<usize>>,
    mesh_primitives: Seq<usize>,
    plan: Seq<StaticCollider>,
) -> bool {
    forall|k: int|
        0 <= k < plan.len() ==> {
            let c = #[trigger] plan[k];
            &&& c.node < nodes.len()
            &&& nodes[c.node as int] == Some(c.mesh)
            &&& c.primitive < mesh_primitives[c.mesh as int]
        }
}

/// Whether `plan` has an entry for primitive `p` of the mesh of node `n`.
pub open spec fn has_entry(plan: Seq<StaticCollider>, n: int, m: usize, p: int) -> bool {
    exists|k: int|
        0 <= k < plan.len() && plan[k] == (StaticCollider {
            node: n as usize,
            mesh: m,
            primitive: p as usize,
        })
}

/// Every primitive of the mesh of every node has an entry in `plan`.
pub open spec fn covers_scene(
    nodes: Seq<Option<usize>>,
    mesh_primitives: Seq<usize>,
    plan: Seq<StaticCollider>,
) -> bool {
    forall|n: int, p: int|
        #![trigger nodes[n], has_entry(plan, n, nodes[n]->Some_0, p)]
        0 <= n < nodes.len() && nodes[n] is Some && 0 <= p < mesh_primitives[nodes[n]->Some_0 as int]
            ==> has_entry(plan, n, nodes[n]->Some_0, p)
}

/// Entries come strictly in node-then-primitive order, so no two name the
/// same node and primitive.
pub open spec fn strictly_ordered(plan: Seq<StaticCollider>) -> bool {
    forall|j: int, k: int| 0 <= j < k < plan.len() ==> before(#[trigger] plan[j], #[trigger] plan[k])
}

/// The plan holds exactly one collider per primitive per node: every entry
/// is a primitive of the mesh its node uses; every such primitive of every
/// node has an entry; and no two entries name the same node and primitive.
pub proof fn lemma_one_collider_per_primitive(
    nodes: Seq<Option<usize>>,
    mesh_primitives: Seq<usize>,
)
    requires
        scene_ok(nodes, mesh_primitives),
        nodes.len() <= usize::MAX + 1,
    ensures
        entries_valid(nodes, mesh_primitives, collider_plan(nodes, mesh_primitives)),
        covers_scene(nodes, mesh_primitives, collider_plan(nodes, mesh_primitives)),
        strictly_ordered(collider_plan(nodes, mesh_primitives)),
    decreases nodes.len(),
{
    if nodes.len() > 0 {
        let prefix = nodes.drop_last();
        let last = (nodes.len() - 1) as usize;
        assert(scene_ok(prefix, mesh_primitives)) by {
            assert forall|i: int| 0 <= i < prefix.len() implies (#[trigger] prefix[i] matches Some(
                m,
            ) ==> m < mesh_primitives.len()) by {
                assert(prefix[i] == nodes[i]);
            }
        }
        lemma_one_collider_per_primitive(prefix, mesh_primitives);
        let head = collider_plan(prefix, mesh_primitives);
        let tail = node_colliders(last, nodes.last(), mesh_primitives);
        let plan = collider_plan(nodes, mesh_primitives);
        assert(plan == head + tail);
        assert forall|k: int| 0 <= k < plan.len() implies {
            let c = #[trigger] plan[k];
            &&& c.node < nodes.len()
            &&& nodes[c.node as int] == Some(c.mesh)
            &&& c.primitive < mesh_primitives[c.mesh as int]
        } by {
            if k < head.len() {
                assert(plan[k] == head[k]);
                assert(prefix[head[k].node as int] == nodes[head[k].node as int]);
            } else {
                assert(plan[k] == tail[k - head.len()]);
            }
        }
        assert forall|n: int, p: int|
            0 <= n < nodes.len() && nodes[n] is Some && 0 <= p < mesh_primitives[nodes[n]->Some_0 as int]
            implies has_entry(plan, n, nodes[n]->Some_0, p) by {
            let m = nodes[n]->Some_0;
            if n < prefix.len() {
                assert(prefix[n] == nodes[n]);
                assert(has_entry(head, n, m, p));
                let k = choose|k: int|
                    0 <= k < head.len() && head[k] == (StaticCollider {
                        node: n as usize,
                        mesh: m,
                        primitive: p as usize,
                    });
                assert(plan[k] == head[k]);
            } else {
                let k = head.len() + p;
                assert(plan[k] == tail[p]);
            }
        }
        assert forall|j: int, k: int| 0 <= j < k < plan.len() implies before(
            #[trigger] plan[j],
            #[trigger] plan[k],
        ) by {
            if k < head.len() {
                assert(plan[j] == head[j] && plan[k] == head[k]);
            } else if j < head.len() {
                assert(plan[j] == head[j]);
                assert(plan[k] == tail[k - head.len()]);
            } else {
                assert(plan[j] == tail[j - head.len()]);
                assert(plan[k] == tail[k - head.len()]);
            }
        }
    }
}

/// The static colliders of a scene, one per primitive per node; see
/// `collider_plan`.
pub fn generate_gltf_colliders(
    nodes: &Vec<Option<usize>>,
    mesh_primitives: &Vec<usize>,
) -> (r: Vec<StaticCollider>)
    requires
        scene_ok(nodes@, mesh_primitives@),
    ensures
        r@ == collider_plan(nodes@, mesh_primitives@),
{
    let mut r: Vec<StaticCollider> = Vec::new();
    let mut i: usize = 0;
    while i < nodes.len()
        invariant
            i <= nodes@.len(),
            scene_ok(nodes@, mesh_primitives@),
            r@ == collider_plan(nodes@.take(i as int), mesh_primitives@),
        decreases nodes@.len() - i,
    {
        let ghost start = r@;
        proof {
            assert(nodes@.take(i + 1).drop_last() =~= nodes@.take(i as int));
            assert(nodes@.take(i + 1).last() == nodes@[i as int]);
        }
        if let Some(m) = nodes[i] {
            let count = mesh_primitives[m];
            let mut p: usize = 0;
            while p < count
                invariant
                    p <= count,
                    count == mesh_primitives@[m as int],
                    r@ == start + Seq::new(
                        p as nat,
                        |q: int| StaticCollider { node: i, mesh: m, primitive: q as usize },
                    ),
                decreases count - p,
            {
                r.push(StaticCollider { node: i, mesh: m, primitive: p });
                p = p + 1;
                assert(r@ =~= start + Seq::new(
                    p as nat,
                    |q: int| StaticCollider { node: i, mesh: m, primitive: q as usize },
                ));
            }
            assert(r@ =~= start + node_colliders(i, Some(m), mesh_primitives@));
        } else {
            assert(r@ =~= start + node_colliders(i, None, mesh_primitives@));
        }
        i = i + 1;
    }
    assert(nodes@.take(i as int) =~= nodes@);
    r
}

/// Builds a scene's collider plan once: the engine would add a second set of
/// colliders on top of the first if the plan were applied twice.
#[derive(Clone, Copy, Debug, PartialEq, Eq)]
pub struct ColliderGenerator {
    generated: bool,
}

/// What one invocation of a generator that has (`generated`) or has not yet
/// produced its plan hands out.
pub open spec fn generation_output(
    generated: bool,
    nodes: Seq<Option<usize>>,
    mesh_primitives: Seq<usize>,
) -> Seq<StaticCollider> {
    if generated {
        Seq::empty()
    } else {
        collider_plan(nodes, mesh_primitives)
    }
}

/// The outputs of `times` invocations on one scene, joined in order.
pub open spec fn generation_outputs(
    generated: bool,
    nodes: Seq<Option<usize>>,
    mesh_primitives: Seq<usize>,
    times: nat,
) -> Seq<StaticCollider>
    decreases times,
{
    if times == 0 {
        Seq::empty()
    } else {
        generation_output(generated, nodes, mesh_primitives) + generation_outputs(
            true,
            nodes,
            mesh_primitives,
            (times - 1) as nat,
        )
    }
}

impl ColliderGenerator {
    pub closed spec fn has_generated(&self) -> bool {
        self.generated
    }

    pub fn new() -> (r: ColliderGenerator)
        ensures
            !r.has_generated(),
    {
        ColliderGenerator { generated: false }
    }

    /// The scene's colliders on the first invocation; nothing afterwards.
    pub fn generate(
        &mut self,
        nodes: &Vec<Option<usize>>,
        mesh_primitives: &Vec<usize>,
    ) -> (r: Vec<StaticCollider>)
        requires
            scene_ok(nodes@, mesh_primitives@),
        ensures
            final(self).has_generated(),
            r@ == generation_output(old(self).has_generated(), nodes@, mesh_primitives@),
    {
        if self.generated {
            Vec::new()
        } else {
            self.generated = true;
            generate_gltf_colliders(nodes, mesh_primitives)
        }
    }
}

/// Invoking a generator again adds nothing: once it has produced its plan,
/// any number of further invocations hand out nothing, so the outputs of any
/// positive number of invocations of a fresh generator, joined, are the
/// scene's plan exactly once.
pub proof fn lemma_no_duplicate_generation(
    nodes: Seq<Option<usize>>,
    mesh_primitives: Seq<usize>,
    times: nat,
)
    ensures
        generation_outputs(true, nodes, mesh_primitives, times) == Seq::<StaticCollider>::empty(),
        times >= 1 ==> generation_outputs(false, nodes, mesh_primitives, times) == collider_plan(
            nodes,
            mesh_primitives,
        ),
    decreases times,
{
    if times >= 1 {
        lemma_no_duplicate_generation(nodes, mesh_primitives, (times - 1) as nat);
        assert(generation_outputs(true, nodes, mesh_primitives, times) =~= Seq::<
            StaticCollider,
        >::empty());
        assert(generation_outputs(false, nodes, mesh_primitives, times) =~= collider_plan(
            nodes,
            mesh_primitives,
        ));
    }
}

} // verus!
