//! The chunk mesher: a pure transform from a chunk snapshot to a batched
//! scene. Cells are scanned in a fixed order (height-major, then depth,
//! then width); fully enclosed cells are culled; visible cells are grouped
//! into one batch per block type, colored through the registry.

use vstd::prelude::*;

use vstd::arithmetic::div_mod::lemma_fundamental_div_mod_converse;

use crate::block_types::BlockTypeManager;
use crate::chunk::{
    CHUNK_AREA,
    CHUNK_SIZE,
    CHUNK_VOLUME,
    coord_to_index,
    is_face_visible,
    spec_cell,
    spec_chunk_index,
    spec_in_bounds,
    spec_solid,
    spec_visible,
};
use crate::scene::{Instance, InstanceBuffer, Material, Scene, SceneObject};

verus! {

/// The instances of block type `t` among the first `n` cells of the scan:
/// one instance for each visible cell of that type, in scan order.
pub open spec fn visible_positions(chunk: Seq<u32>, t: u32, n: int) -> Seq<Instance>
    decreases n,
{
    if n <= 0 {
        Seq::empty()
    } else {
        let i = n - 1;
        let x = i % (CHUNK_SIZE as int);
        let z = (i / (CHUNK_SIZE as int)) % (CHUNK_SIZE as int);
        let y = (i / (CHUNK_SIZE as int)) / (CHUNK_SIZE as int);
        let prev = visible_positions(chunk, t, i);
        if spec_visible(chunk, x, y, z) && spec_cell(chunk, x, y, z) == t {
            prev.push(Instance { x: x as usize, y: y as usize, z: z as usize })
        } else {
            prev
        }
    }
}

/// Recover the scan coordinates from a linear cell index.
pub proof fn lemma_chunk_index_decode(x: int, y: int, z: int)
    requires
        spec_in_bounds(x, y, z),
    ensures
        spec_chunk_index(x, y, z) % (CHUNK_SIZE as int) == x,
        (spec_chunk_index(x, y, z) / (CHUNK_SIZE as int)) % (CHUNK_SIZE as int) == z,
        (spec_chunk_index(x, y, z) / (CHUNK_SIZE as int)) / (CHUNK_SIZE as int) == y,
{
    let s = CHUNK_SIZE as int;
    let n = spec_chunk_index(x, y, z);
    assert(n == (y * s + z) * s + x);
    lemma_fundamental_div_mod_converse(n, s, y * s + z, x);
    lemma_fundamental_div_mod_converse(y * s + z, s, y, z);
}

/// One scan step: cell (x, y, z) extends exactly the sequence of its own
/// block type, and only when it is visible.
pub proof fn lemma_positions_step(chunk: Seq<u32>, t: u32, x: int, y: int, z: int)
    requires
        spec_in_bounds(x, y, z),
    ensures
        visible_positions(chunk, t, spec_chunk_index(x, y, z) + 1) == (if spec_visible(
            chunk,
            x,
            y,
            z,
        ) && spec_cell(chunk, x, y, z) == t {
            visible_positions(chunk, t, spec_chunk_index(x, y, z)).push(
                Instance { x: x as usize, y: y as usize, z: z as usize },
            )
        } else {
            visible_positions(chunk, t, spec_chunk_index(x, y, z))
        }),
{
    lemma_chunk_index_decode(x, y, z);
}

/// The per-type groups are sound and exact for the first `n` scanned
/// cells: distinct non-empty block types, each holding exactly its visible
/// cells so far, none empty.
spec fn groups_wf(groups: Seq<(u32, Vec<Instance>)>, chunk: Seq<u32>, n: int) -> bool {
    &&& forall|k1: int, k2: int|
        0 <= k1 < k2 < groups.len() ==> (#[trigger] groups[k1]).0 != (#[trigger] groups[k2]).0
    &&& forall|k: int|
        0 <= k < groups.len() ==> (#[trigger] groups[k]).0 != 0 && groups[k].1@
            == visible_positions(chunk, groups[k].0, n) && groups[k].1@.len() > 0
}

/// Every block type with a visible cell among the first `n` scanned cells
/// has a group.
spec fn groups_complete(groups: Seq<(u32, Vec<Instance>)>, chunk: Seq<u32>, n: int) -> bool {
    forall|t: u32|
        t != 0 && (#[trigger] visible_positions(chunk, t, n)).len() > 0 ==> exists|k: int|
            0 <= k < groups.len() && (#[trigger] groups[k]).0 == t
}

/// One batch drawn for `chunk`: a non-empty block type, exactly the
/// visible cells of that type in scan order, and the registry's color and
/// display name for it.
pub open spec fn batch_matches(reg: BlockTypeManager, chunk: Seq<u32>, b: SceneObject) -> bool {
    &&& b.id_spec() != 0
    &&& b.instances_spec() == visible_positions(chunk, b.id_spec(), CHUNK_VOLUME as int)
    &&& b.instances_spec().len() > 0
    &&& b.material_spec().color@ == reg.spec_resolve_color(b.id_spec())
    &&& b.material_spec().name@ == reg.spec_display_name(b.id_spec())
}

/// The batches are exactly one batch per block type visible in `chunk`:
/// each sound and exact, no type twice, no visible type missing.
pub open spec fn scene_matches_chunk(
    reg: BlockTypeManager,
    chunk: Seq<u32>,
    batches: Seq<SceneObject>,
) -> bool {
    &&& forall|j: int| 0 <= j < batches.len() ==> batch_matches(reg, chunk, #[trigger] batches[j])
    &&& forall|j1: int, j2: int|
        0 <= j1 < j2 < batches.len() ==> (#[trigger] batches[j1]).id_spec() != (
        #[trigger] batches[j2]).id_spec()
    &&& forall|t: u32|
        t != 0 && (#[trigger] visible_positions(chunk, t, CHUNK_VOLUME as int)).len() > 0
            ==> exists|j: int| 0 <= j < batches.len() && (#[trigger] batches[j]).id_spec() == t
}

/// A scan step over a cell that adds no instance: the groups stand as they
/// were.
proof fn lemma_groups_skip_step(
    groups: Seq<(u32, Vec<Instance>)>,
    chunk: Seq<u32>,
    x: int,
    y: int,
    z: int,
)
    requires
        spec_in_bounds(x, y, z),
        !spec_visible(chunk, x, y, z),
        groups_wf(groups, chunk, spec_chunk_index(x, y, z)),
        groups_complete(groups, chunk, spec_chunk_index(x, y, z)),
    ensures
        groups_wf(groups, chunk, spec_chunk_index(x, y, z) + 1),
        groups_complete(groups, chunk, spec_chunk_index(x, y, z) + 1),
{
    let n = spec_chunk_index(x, y, z);
    assert forall|t: u32| #[trigger] visible_positions(chunk, t, n + 1) == visible_positions(
        chunk,
        t,
        n,
    ) by {
        lemma_positions_step(chunk, t, x, y, z);
    }
}

/// A scan step over a visible cell whose block type already has a group:
/// that group alone grows, by this cell.
proof fn lemma_groups_grow_step(
    prev: Seq<(u32, Vec<Instance>)>,
    curr: Seq<(u32, Vec<Instance>)>,
    chunk: Seq<u32>,
    x: int,
    y: int,
    z: int,
    gi: int,
)
    requires
        spec_in_bounds(x, y, z),
        spec_visible(chunk, x, y, z),
        groups_wf(prev, chunk, spec_chunk_index(x, y, z)),
        groups_complete(prev, chunk, spec_chunk_index(x, y, z)),
        0 <= gi < prev.len(),
        prev[gi].0 == spec_cell(chunk, x, y, z),
        curr.len() == prev.len(),
        forall|k: int| 0 <= k < prev.len() && k != gi ==> #[trigger] curr[k] == prev[k],
        curr[gi].0 == prev[gi].0,
        curr[gi].1@ == prev[gi].1@.push(
            Instance { x: x as usize, y: y as usize, z: z as usize },
        ),
    ensures
        groups_wf(curr, chunk, spec_chunk_index(x, y, z) + 1),
        groups_complete(curr, chunk, spec_chunk_index(x, y, z) + 1),
{
    let n = spec_chunk_index(x, y, z);
    let bt = spec_cell(chunk, x, y, z);
    assert forall|t: u32| t != bt implies #[trigger] visible_positions(chunk, t, n + 1)
        == visible_positions(chunk, t, n) by {
        lemma_positions_step(chunk, t, x, y, z);
    }
    lemma_positions_step(chunk, bt, x, y, z);
    assert(groups_wf(curr, chunk, n + 1));
    assert forall|t: u32|
        t != 0 && (#[trigger] visible_positions(chunk, t, n + 1)).len() > 0 implies exists|k: int|
        0 <= k < curr.len() && (#[trigger] curr[k]).0 == t by {
        if t == bt {
            assert(curr[gi].0 == t);
        } else {
            assert(visible_positions(chunk, t, n).len() > 0);
            let k0 = choose|k: int| 0 <= k < prev.len() && (#[trigger] prev[k]).0 == t;
            assert(k0 != gi);
            assert(curr[k0].0 == t);
        }
    }
}

/// A scan step over a visible cell whose block type has no group yet: one
/// new group opens, holding this cell alone.
proof fn lemma_groups_open_step(
    prev: Seq<(u32, Vec<Instance>)>,
    curr: Seq<(u32, Vec<Instance>)>,
    chunk: Seq<u32>,
    x: int,
    y: int,
    z: int,
)
    requires
        spec_in_bounds(x, y, z),
        spec_visible(chunk, x, y, z),
        groups_wf(prev, chunk, spec_chunk_index(x, y, z)),
        groups_complete(prev, chunk, spec_chunk_index(x, y, z)),
        forall|k: int| 0 <= k < prev.len() ==> (#[trigger] prev[k]).0 != spec_cell(chunk, x, y, z),
        curr.len() == prev.len() + 1,
        forall|k: int| 0 <= k < prev.len() ==> #[trigger] curr[k] == prev[k],
        curr.last().0 == spec_cell(chunk, x, y, z),
        curr.last().1@ == Seq::empty().push(
            Instance { x: x as usize, y: y as usize, z: z as usize },
        ),
    ensures
        groups_wf(curr, chunk, spec_chunk_index(x, y, z) + 1),
        groups_complete(curr, chunk, spec_chunk_index(x, y, z) + 1),
{
    let n = spec_chunk_index(x, y, z);
    let bt = spec_cell(chunk, x, y, z);
    assert forall|t: u32| t != bt implies #[trigger] visible_positions(chunk, t, n + 1)
        == visible_positions(chunk, t, n) by {
        lemma_positions_step(chunk, t, x, y, z);
    }
    lemma_positions_step(chunk, bt, x, y, z);
    if visible_positions(chunk, bt, n).len() > 0 {
        let k0 = choose|k: int| 0 <= k < prev.len() && (#[trigger] prev[k]).0 == bt;
        assert(false);
    }
    assert(visible_positions(chunk, bt, n) =~= Seq::<Instance>::empty());
    assert(curr.last().1@ == visible_positions(chunk, bt, n + 1));
    assert forall|t: u32|
        t != 0 && (#[trigger] visible_positions(chunk, t, n + 1)).len() > 0 implies exists|k: int|
        0 <= k < curr.len() && (#[trigger] curr[k]).0 == t by {
        if t == bt {
            assert(curr[curr.len() - 1].0 == t);
        } else {
            assert(visible_positions(chunk, t, n).len() > 0);
            let k0 = choose|k: int| 0 <= k < prev.len() && (#[trigger] prev[k]).0 == t;
            assert(curr[k0].0 == t);
        }
    }
}

/// Find the group already opened for `block_type`, if any.
fn find_group(groups: &Vec<(u32, Vec<Instance>)>, block_type: u32) -> (r: Option<usize>)
    ensures
        match r {
            Some(k) => k < groups@.len() && groups@[k as int].0 == block_type,
            None => forall|k: int|
                0 <= k < groups@.len() ==> (#[trigger] groups@[k]).0 != block_type,
        },
{
    let mut gi: usize = 0;
    while gi < groups.len()
        invariant
            gi <= groups@.len(),
            forall|k: int| 0 <= k < gi ==> (#[trigger] groups@[k]).0 != block_type,
        decreases groups@.len() - gi,
    {
        if groups[gi].0 == block_type {
            return Some(gi);
        }
        gi += 1;
    }
    None
}

/// The mesher: turns chunk snapshots into batched scenes, resolving colors
/// and display names through its registry.
pub struct ChunkRenderer {
    pub block_manager: BlockTypeManager,
}

impl ChunkRenderer {
    /// A mesher over the given registry.
    pub fn new(block_manager: BlockTypeManager) -> (r: ChunkRenderer)
        ensures
            r.block_manager == block_manager,
    {
        ChunkRenderer { block_manager }
    }

    /// Scan the chunk and append one batch per visible block type to the
    /// scene; batches already in the scene are kept.
    pub fn generate_scene(&self, chunk_data: &Vec<u32>, scene: &mut Scene)
        requires
            chunk_data@.len() == CHUNK_VOLUME,
        ensures
            final(scene)@.len() >= old(scene)@.len(),
            final(scene)@.take(old(scene)@.len() as int) == old(scene)@,
            scene_matches_chunk(
                self.block_manager,
                chunk_data@,
                final(scene)@.skip(old(scene)@.len() as int),
            ),
    {
        let ghost c = chunk_data@;
        let mut groups: Vec<(u32, Vec<Instance>)> = Vec::new();

        assert forall|t: u32| (#[trigger] visible_positions(c, t, 0)).len() == 0 by {}

        let mut y: usize = 0;
        while y < CHUNK_SIZE
            invariant
                y <= CHUNK_SIZE,
                chunk_data@ == c,
                c.len() == CHUNK_VOLUME,
                groups_wf(groups@, c, (y * CHUNK_AREA) as int),
                groups_complete(groups@, c, (y * CHUNK_AREA) as int),
            decreases CHUNK_SIZE - y,
        {
            let mut z: usize = 0;
            while z < CHUNK_SIZE
                invariant
                    y < CHUNK_SIZE,
                    z <= CHUNK_SIZE,
                    chunk_data@ == c,
                    c.len() == CHUNK_VOLUME,
                    groups_wf(groups@, c, (y * CHUNK_AREA + z * CHUNK_SIZE) as int),
                    groups_complete(groups@, c, (y * CHUNK_AREA + z * CHUNK_SIZE) as int),
                decreases CHUNK_SIZE - z,
            {
                let mut x: usize = 0;
                while x < CHUNK_SIZE
                    invariant
                        y < CHUNK_SIZE,
                        z < CHUNK_SIZE,
                        x <= CHUNK_SIZE,
                        chunk_data@ == c,
                        c.len() == CHUNK_VOLUME,
                        groups_wf(groups@, c, (y * CHUNK_AREA + z * CHUNK_SIZE + x) as int),
                        groups_complete(groups@, c, (y * CHUNK_AREA + z * CHUNK_SIZE + x) as int),
                    decreases CHUNK_SIZE - x,
                {
                    let idx = coord_to_index(x, y, z);
                    let ghost n = idx as int;
                    assert(n == y * CHUNK_AREA + z * CHUNK_SIZE + x);
                    let block_type = chunk_data[idx];
                    assert(block_type == spec_cell(c, x as int, y as int, z as int));

                    let ghost prev_groups = groups@;
                    if block_type != 0 {
                        let xi = x as i32;
                        let yi = y as i32;
                        let zi = z as i32;
                        let visible = is_face_visible(chunk_data, xi, yi, zi, 1, 0, 0)
                            || is_face_visible(chunk_data, xi, yi, zi, -1, 0, 0)
                            || is_face_visible(chunk_data, xi, yi, zi, 0, 1, 0)
                            || is_face_visible(chunk_data, xi, yi, zi, 0, -1, 0)
                            || is_face_visible(chunk_data, xi, yi, zi, 0, 0, 1)
                            || is_face_visible(chunk_data, xi, yi, zi, 0, 0, -1);
                        assert(visible == spec_visible(c, x as int, y as int, z as int));

                        if visible {
                            let instance = Instance::new(x, y, z);
                            match find_group(&groups, block_type) {
                                Some(gi) => {
                                    let entry = &mut groups[gi];
                                    entry.1.push(instance);
                                    proof {
                                        lemma_groups_grow_step(
                                            prev_groups,
                                            groups@,
                                            c,
                                            x as int,
                                            y as int,
                                            z as int,
                                            gi as int,
                                        );
                                    }
                                },
                                None => {
                                    let mut insts: Vec<Instance> = Vec::new();
                                    insts.push(instance);
                                    groups.push((block_type, insts));
                                    proof {
                                        lemma_groups_open_step(
                                            prev_groups,
                                            groups@,
                                            c,
                                            x as int,
                                            y as int,
                                            z as int,
                                        );
                                    }
                                },
                            }
                        } else {
                            proof {
                                lemma_groups_skip_step(groups@, c, x as int, y as int, z as int);
                            }
                        }
                    } else {
                        proof {
                            lemma_groups_skip_step(groups@, c, x as int, y as int, z as int);
                        }
                    }
                    assert(groups_wf(groups@, c, n + 1));
                    assert(groups_complete(groups@, c, n + 1));
                    x += 1;
                }
                proof {
                    assert(y * CHUNK_AREA + z * CHUNK_SIZE + CHUNK_SIZE == y * CHUNK_AREA + (z + 1)
                        * CHUNK_SIZE);
                }
                z += 1;
            }
            proof {
                assert(CHUNK_AREA == 1024);
                assert(y * CHUNK_AREA + CHUNK_SIZE * CHUNK_SIZE == (y + 1) * CHUNK_AREA);
            }
            y += 1;
        }
        assert(CHUNK_SIZE * CHUNK_AREA == CHUNK_VOLUME);

        let ghost all_groups = groups@;
        let ghost old_scene = scene@;
        let ghost vol = CHUNK_VOLUME as int;

        while groups.len() > 0
            invariant
                chunk_data@ == c,
                c.len() == CHUNK_VOLUME,
                groups_wf(groups@, c, vol),
                vol == CHUNK_VOLUME as int,
                scene@.len() == old_scene.len() + (all_groups.len() - groups@.len()),
                groups@.len() <= all_groups.len(),
                scene@.take(old_scene.len() as int) == old_scene,
                forall|j: int|
                    old_scene.len() <= j < scene@.len() ==> batch_matches(
                        self.block_manager,
                        c,
                        #[trigger] scene@[j],
                    ),
                forall|j1: int, j2: int|
                    old_scene.len() <= j1 < j2 < scene@.len() ==> (#[trigger] scene@[j1]).id_spec()
                        != (#[trigger] scene@[j2]).id_spec(),
                forall|j: int, k: int|
                    old_scene.len() <= j < scene@.len() && 0 <= k < groups@.len() ==> (
                    #[trigger] scene@[j]).id_spec() != (#[trigger] groups@[k]).0,
                forall|t: u32|
                    t != 0 && (#[trigger] visible_positions(c, t, vol)).len() > 0 ==> (exists|k: int|
                        0 <= k < groups@.len() && (#[trigger] groups@[k]).0 == t) || (exists|j: int|
                        old_scene.len() <= j < scene@.len() && (#[trigger] scene@[j]).id_spec()
                            == t),
            decreases groups@.len(),
        {
            let ghost prev_groups = groups@;
            let ghost prev_scene = scene@;
            let entry = groups.pop().unwrap();
            let (block_type, insts) = entry;
            let color = self.block_manager.resolve_color(block_type);
            let name = self.block_manager.display_name(block_type);
            let material = Material::with_color(color, name);
            let buffer = InstanceBuffer::new(insts);
            let object = SceneObject::new(block_type, material, buffer);
            scene.add_object(object);
            proof {
                assert(scene@ == prev_scene.push(object));
                assert(groups@ == prev_groups.drop_last());
                assert(scene@.take(old_scene.len() as int) =~= prev_scene.take(
                    old_scene.len() as int,
                ));
                assert forall|t: u32|
                    t != 0 && (#[trigger] visible_positions(c, t, vol)).len() > 0 implies (exists|
                    k: int,
                |
                    0 <= k < groups@.len() && (#[trigger] groups@[k]).0 == t) || (exists|j: int|
                    old_scene.len() <= j < scene@.len() && (#[trigger] scene@[j]).id_spec()
                        == t) by {
                    if exists|k: int| 0 <= k < prev_groups.len() && (#[trigger] prev_groups[k]).0
                        == t {
                        let k0 = choose|k: int|
                            0 <= k < prev_groups.len() && (#[trigger] prev_groups[k]).0 == t;
                        if k0 < prev_groups.len() - 1 {
                            assert(groups@[k0].0 == t);
                        } else {
                            assert(scene@[scene@.len() - 1].id_spec() == t);
                        }
                    } else {
                        let j0 = choose|j: int|
                            old_scene.len() <= j < prev_scene.len() && (
                            #[trigger] prev_scene[j]).id_spec() == t;
                        assert(scene@[j0].id_spec() == t);
                    }
                }
            }
        }

        proof {
            let appended = scene@.skip(old_scene.len() as int);
            assert forall|j: int| 0 <= j < appended.len() implies batch_matches(
                self.block_manager,
                c,
                #[trigger] appended[j],
            ) by {
                assert(appended[j] == scene@[old_scene.len() + j]);
            }
            assert forall|j1: int, j2: int| 0 <= j1 < j2 < appended.len() implies (
            #[trigger] appended[j1]).id_spec() != (#[trigger] appended[j2]).id_spec() by {
                assert(appended[j1] == scene@[old_scene.len() + j1]);
                assert(appended[j2] == scene@[old_scene.len() + j2]);
            }
            assert forall|t: u32|
                t != 0 && (#[trigger] visible_positions(c, t, vol)).len() > 0 implies exists|j: int|
                0 <= j < appended.len() && (#[trigger] appended[j]).id_spec() == t by {
                let j0 = choose|j: int|
                    old_scene.len() <= j < scene@.len() && (#[trigger] scene@[j]).id_spec() == t;
                assert(appended[j0 - old_scene.len()] == scene@[j0]);
                assert(0 <= j0 - old_scene.len() < appended.len());
            }
        }
    }

    /// Rebuild the scene wholesale from a fresh chunk snapshot; the old
    /// batches are discarded.
    pub fn rebuild_scene(&self, chunk_data: &Vec<u32>, scene: &mut Scene)
        requires
            chunk_data@.len() == CHUNK_VOLUME,
        ensures
            scene_matches_chunk(self.block_manager, chunk_data@, final(scene)@),
    {
        *scene = Scene::new();
        self.generate_scene(chunk_data, scene);
        proof {
            assert(scene@.skip(0) =~= scene@);
        }
    }
}

/// The scan index of an instance's cell.
pub open spec fn inst_index(inst: Instance) -> int {
    spec_chunk_index(inst.x as int, inst.y as int, inst.z as int)
}

/// An instance stands in the first `n` scanned cells' sequence for block
/// type `t` exactly when its cell is in bounds, already scanned, visible,
/// and of that type.
pub proof fn lemma_positions_membership(chunk: Seq<u32>, t: u32, n: int, inst: Instance)
    requires
        0 <= n <= CHUNK_VOLUME,
    ensures
        visible_positions(chunk, t, n).contains(inst) <==> ({
            &&& spec_in_bounds(inst.x as int, inst.y as int, inst.z as int)
            &&& inst_index(inst) < n
            &&& spec_visible(chunk, inst.x as int, inst.y as int, inst.z as int)
            &&& spec_cell(chunk, inst.x as int, inst.y as int, inst.z as int) == t
        }),
    decreases n,
{
    let s = CHUNK_SIZE as int;
    if n <= 0 {
        assert(visible_positions(chunk, t, n) =~= Seq::<Instance>::empty());
        assert(!visible_positions(chunk, t, n).contains(inst));
    } else {
        let i = n - 1;
        let x = i % s;
        let z = (i / s) % s;
        let y = (i / s) / s;
        lemma_positions_membership(chunk, t, i, inst);
        vstd::arithmetic::div_mod::lemma_fundamental_div_mod(i, s);
        vstd::arithmetic::div_mod::lemma_fundamental_div_mod(i / s, s);
        assert(spec_chunk_index(x, y, z) == i);
        assert(spec_in_bounds(x, y, z));
        let prev = visible_positions(chunk, t, i);
        let here = Instance { x: x as usize, y: y as usize, z: z as usize };
        if spec_visible(chunk, x, y, z) && spec_cell(chunk, x, y, z) == t {
            assert(visible_positions(chunk, t, n) == prev.push(here));
            assert(inst_index(here) == i);
            if prev.contains(inst) {
                let k = choose|k: int| 0 <= k < prev.len() && prev[k] == inst;
                assert(prev.push(here)[k] == inst);
                assert(prev.push(here).contains(inst));
            }
            if inst == here {
                assert(prev.push(here)[prev.len() as int] == inst);
                assert(prev.push(here).contains(inst));
            }
            if visible_positions(chunk, t, n).contains(inst) {
                let k = choose|k: int|
                    0 <= k < prev.push(here).len() && prev.push(here)[k] == inst;
                if k < prev.len() {
                    assert(prev[k] == inst);
                    assert(prev.contains(inst));
                } else {
                    assert(inst == here);
                }
            }
            if !prev.contains(inst) && inst != here && spec_in_bounds(
                inst.x as int,
                inst.y as int,
                inst.z as int,
            ) && inst_index(inst) < n && spec_visible(
                chunk,
                inst.x as int,
                inst.y as int,
                inst.z as int,
            ) && spec_cell(chunk, inst.x as int, inst.y as int, inst.z as int) == t {
                assert(inst_index(inst) == i);
                lemma_chunk_index_decode(inst.x as int, inst.y as int, inst.z as int);
                assert(inst.x as int == x && inst.z as int == z && inst.y as int == y);
                assert(false);
            }
        } else {
            assert(visible_positions(chunk, t, n) == prev);
            if spec_in_bounds(inst.x as int, inst.y as int, inst.z as int) && inst_index(inst) == i
                && spec_visible(chunk, inst.x as int, inst.y as int, inst.z as int) && spec_cell(
                chunk,
                inst.x as int,
                inst.y as int,
                inst.z as int,
            ) == t {
                lemma_chunk_index_decode(inst.x as int, inst.y as int, inst.z as int);
                assert(inst.x as int == x && inst.z as int == z && inst.y as int == y);
                assert(false);
            }
        }
    }
}

/// Within one block type's sequence, instances come in strict scan order.
pub proof fn lemma_positions_ordered(chunk: Seq<u32>, t: u32, n: int)
    requires
        0 <= n <= CHUNK_VOLUME,
    ensures
        forall|i1: int, i2: int|
            0 <= i1 < i2 < visible_positions(chunk, t, n).len() ==> inst_index(
                #[trigger] visible_positions(chunk, t, n)[i1],
            ) < inst_index(#[trigger] visible_positions(chunk, t, n)[i2]),
    decreases n,
{
    let s = CHUNK_SIZE as int;
    if n > 0 {
        let i = n - 1;
        lemma_positions_ordered(chunk, t, i);
        let x = i % s;
        let z = (i / s) % s;
        let y = (i / s) / s;
        let prev = visible_positions(chunk, t, i);
        let curr = visible_positions(chunk, t, n);
        if spec_visible(chunk, x, y, z) && spec_cell(chunk, x, y, z) == t {
            vstd::arithmetic::div_mod::lemma_fundamental_div_mod(i, s);
            vstd::arithmetic::div_mod::lemma_fundamental_div_mod(i / s, s);
            let here = Instance { x: x as usize, y: y as usize, z: z as usize };
            assert(curr == prev.push(here));
            assert(inst_index(here) == i);
            assert forall|i1: int, i2: int| 0 <= i1 < i2 < curr.len() implies inst_index(
                #[trigger] curr[i1],
            ) < inst_index(#[trigger] curr[i2]) by {
                if i2 == curr.len() - 1 {
                    assert(curr[i1] == prev[i1]);
                    assert(prev.contains(prev[i1]));
                    lemma_positions_membership(chunk, t, i, prev[i1]);
                } else {
                    assert(curr[i1] == prev[i1]);
                    assert(curr[i2] == prev[i2]);
                }
            }
        }
    }
}

/// Within one block type's sequence, no instance appears twice.
pub proof fn lemma_positions_no_duplicates(chunk: Seq<u32>, t: u32, n: int, i1: int, i2: int)
    requires
        0 <= n <= CHUNK_VOLUME,
        0 <= i1 < i2 < visible_positions(chunk, t, n).len(),
    ensures
        visible_positions(chunk, t, n)[i1] != visible_positions(chunk, t, n)[i2],
{
    lemma_positions_ordered(chunk, t, n);
}

/// Law: every instance of every batch of a matching scene is a visible,
/// non-empty cell of the batch's own block type.
pub proof fn lemma_batch_instances_sound(
    reg: BlockTypeManager,
    chunk: Seq<u32>,
    batches: Seq<SceneObject>,
    j: int,
    i: int,
)
    requires
        scene_matches_chunk(reg, chunk, batches),
        0 <= j < batches.len(),
        0 <= i < batches[j].instances_spec().len(),
    ensures
        ({
            let inst = batches[j].instances_spec()[i];
            &&& spec_in_bounds(inst.x as int, inst.y as int, inst.z as int)
            &&& spec_cell(chunk, inst.x as int, inst.y as int, inst.z as int) == batches[j].id_spec()
            &&& batches[j].id_spec() != 0
            &&& spec_visible(chunk, inst.x as int, inst.y as int, inst.z as int)
        }),
{
    let inst = batches[j].instances_spec()[i];
    assert(batch_matches(reg, chunk, batches[j]));
    assert(batches[j].instances_spec().contains(inst));
    lemma_positions_membership(chunk, batches[j].id_spec(), CHUNK_VOLUME as int, inst);
}

/// Law: every visible non-empty cell of the chunk appears in exactly one
/// batch of a matching scene, exactly once, in the batch of its own block
/// type.
pub proof fn lemma_visible_cell_in_unique_batch(
    reg: BlockTypeManager,
    chunk: Seq<u32>,
    batches: Seq<SceneObject>,
    x: int,
    y: int,
    z: int,
)
    requires
        scene_matches_chunk(reg, chunk, batches),
        chunk.len() == CHUNK_VOLUME,
        spec_in_bounds(x, y, z),
        spec_visible(chunk, x, y, z),
    ensures
        exists|j: int|
            0 <= j < batches.len() && (#[trigger] batches[j]).id_spec() == spec_cell(chunk, x, y, z)
                && batches[j].instances_spec().contains(
                Instance { x: x as usize, y: y as usize, z: z as usize },
            ),
        forall|j: int|
            0 <= j < batches.len() && (#[trigger] batches[j]).instances_spec().contains(
                Instance { x: x as usize, y: y as usize, z: z as usize },
            ) ==> batches[j].id_spec() == spec_cell(chunk, x, y, z),
        forall|j1: int, j2: int|
            0 <= j1 < batches.len() && 0 <= j2 < batches.len() && (
            #[trigger] batches[j1]).instances_spec().contains(
                Instance { x: x as usize, y: y as usize, z: z as usize },
            ) && (#[trigger] batches[j2]).instances_spec().contains(
                Instance { x: x as usize, y: y as usize, z: z as usize },
            ) ==> j1 == j2,
        forall|j: int, i1: int, i2: int|
            #![trigger batches[j].instances_spec()[i1], batches[j].instances_spec()[i2]]
            0 <= j < batches.len() && 0 <= i1 < i2 < batches[j].instances_spec().len() ==> !(
            batches[j].instances_spec()[i1] == Instance {
                x: x as usize,
                y: y as usize,
                z: z as usize,
            } && batches[j].instances_spec()[i2] == Instance {
                x: x as usize,
                y: y as usize,
                z: z as usize,
            }),
{
    let t = spec_cell(chunk, x, y, z);
    let inst = Instance { x: x as usize, y: y as usize, z: z as usize };
    assert(inst_index(inst) == spec_chunk_index(x, y, z));
    assert(spec_chunk_index(x, y, z) < CHUNK_VOLUME);
    lemma_positions_membership(chunk, t, CHUNK_VOLUME as int, inst);
    assert(visible_positions(chunk, t, CHUNK_VOLUME as int).contains(inst));
    assert(visible_positions(chunk, t, CHUNK_VOLUME as int).len() > 0);
    let j0 = choose|j: int| 0 <= j < batches.len() && (#[trigger] batches[j]).id_spec() == t;
    assert(batch_matches(reg, chunk, batches[j0]));
    assert(batches[j0].instances_spec().contains(inst));

    assert forall|j: int|
        0 <= j < batches.len() && (#[trigger] batches[j]).instances_spec().contains(
            inst,
        ) implies batches[j].id_spec() == t by {
        assert(batch_matches(reg, chunk, batches[j]));
        lemma_positions_membership(chunk, batches[j].id_spec(), CHUNK_VOLUME as int, inst);
    }
    assert forall|j: int, i1: int, i2: int|
        #![trigger batches[j].instances_spec()[i1], batches[j].instances_spec()[i2]]
        0 <= j < batches.len() && 0 <= i1 < i2 < batches[j].instances_spec().len() implies !(
    batches[j].instances_spec()[i1] == inst && batches[j].instances_spec()[i2] == inst) by {
        assert(batch_matches(reg, chunk, batches[j]));
        lemma_positions_no_duplicates(chunk, batches[j].id_spec(), CHUNK_VOLUME as int, i1, i2);
    }
}

/// Law: a fully enclosed non-empty cell (all six neighbors solid) is
/// culled: no batch of a matching scene places an instance there.
pub proof fn lemma_enclosed_cell_culled(
    reg: BlockTypeManager,
    chunk: Seq<u32>,
    batches: Seq<SceneObject>,
    x: int,
    y: int,
    z: int,
)
    requires
        scene_matches_chunk(reg, chunk, batches),
        chunk.len() == CHUNK_VOLUME,
        spec_in_bounds(x, y, z),
        spec_cell(chunk, x, y, z) != 0,
        spec_solid(chunk, x + 1, y, z),
        spec_solid(chunk, x - 1, y, z),
        spec_solid(chunk, x, y + 1, z),
        spec_solid(chunk, x, y - 1, z),
        spec_solid(chunk, x, y, z + 1),
        spec_solid(chunk, x, y, z - 1),
    ensures
        !spec_visible(chunk, x, y, z),
        forall|j: int|
            0 <= j < batches.len() ==> !(#[trigger] batches[j]).instances_spec().contains(
                Instance { x: x as usize, y: y as usize, z: z as usize },
            ),
{
    let inst = Instance { x: x as usize, y: y as usize, z: z as usize };
    assert forall|j: int| 0 <= j < batches.len() implies !(
    #[trigger] batches[j]).instances_spec().contains(inst) by {
        assert(batch_matches(reg, chunk, batches[j]));
        lemma_positions_membership(chunk, batches[j].id_spec(), CHUNK_VOLUME as int, inst);
    }
}

/// Law: an all-empty chunk yields a scene with no batches at all.
pub proof fn lemma_empty_chunk_no_batches(
    reg: BlockTypeManager,
    chunk: Seq<u32>,
    batches: Seq<SceneObject>,
)
    requires
        scene_matches_chunk(reg, chunk, batches),
        chunk.len() == CHUNK_VOLUME,
        forall|i: int| 0 <= i < chunk.len() ==> chunk[i] == 0,
    ensures
        batches.len() == 0,
{
    if batches.len() > 0 {
        assert(batch_matches(reg, chunk, batches[0]));
        let positions = visible_positions(chunk, batches[0].id_spec(), CHUNK_VOLUME as int);
        assert(positions.len() > 0);
        let inst = positions[0];
        assert(positions.contains(inst));
        lemma_positions_membership(chunk, batches[0].id_spec(), CHUNK_VOLUME as int, inst);
        assert(spec_cell(chunk, inst.x as int, inst.y as int, inst.z as int) != 0);
        assert(spec_chunk_index(inst.x as int, inst.y as int, inst.z as int) >= 0);
        assert(false);
    }
}

} // verus!
