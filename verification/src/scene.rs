//! The assembled scene model: instances (placed cubes on the integer grid),
//! instance buffers, color-keyed materials, per-block-type batches
//! (`SceneObject`) and the ordered batch list (`Scene`). The GPU-side
//! resources that mirror these values live outside the library; everything
//! here is the data they are built from.

use vstd::prelude::*;

verus! {

/// One placed cube: a position on the integer grid. Every instance carries
/// the identity orientation; color belongs to the batch, not the instance.
#[derive(Clone, Copy, Debug, PartialEq, Eq, Structural)]
pub struct Instance {
    pub x: usize,
    pub y: usize,
    pub z: usize,
}

impl Instance {
    /// Place a cube at (x, y, z) with the identity orientation.
    pub fn new(x: usize, y: usize, z: usize) -> (r: Instance)
        ensures
            r == (Instance { x, y, z }),
    {
        Instance { x, y, z }
    }
}

/// The ordered list of instances drawn by one batch.
pub struct InstanceBuffer {
    instances: Vec<Instance>,
}

impl View for InstanceBuffer {
    type V = Seq<Instance>;

    closed spec fn view(&self) -> Seq<Instance> {
        self.instances@
    }
}

impl InstanceBuffer {
    /// Wrap a list of instances.
    pub fn new(instances: Vec<Instance>) -> (r: InstanceBuffer)
        ensures
            r@ == instances@,
    {
        InstanceBuffer { instances }
    }

    /// Move one instance to a new grid position; out-of-range indices are
    /// ignored.
    pub fn update_instance(&mut self, index: usize, x: usize, y: usize, z: usize)
        ensures
            index < old(self)@.len() ==> final(self)@ == old(self)@.update(
                index as int,
                Instance { x, y, z },
            ),
            index >= old(self)@.len() ==> final(self)@ == old(self)@,
    {
        if index < self.instances.len() {
            self.instances[index] = Instance { x, y, z };
        }
    }

    /// Number of instances in the buffer.
    pub fn len(&self) -> (n: usize)
        ensures
            n == self@.len(),
    {
        self.instances.len()
    }

    /// The instances, in draw order.
    pub fn instances(&self) -> (r: &Vec<Instance>)
        ensures
            r@ == self@,
    {
        &self.instances
    }
}

/// A material keyed by one flat color, with a display label. Color
/// components are per-mille: 1000 stands for full intensity.
pub struct Material {
    pub color: [u32; 4],
    pub name: String,
}

impl Material {
    /// Build a single-color material under the given label.
    pub fn with_color(color: [u32; 4], name: String) -> (r: Material)
        ensures
            r.color == color,
            r.name == name,
    {
        Material { color, name }
    }

    /// Replace the material's color.
    pub fn update_color(&mut self, color: [u32; 4])
        ensures
            final(self).color == color,
            final(self).name == old(self).name,
    {
        self.color = color;
    }
}

/// One batch: all visible instances of one block type, drawn with one
/// shared cube mesh and one material.
pub struct SceneObject {
    block_id: u32,
    material: Material,
    instance_buffer: InstanceBuffer,
}

impl SceneObject {
    /// Assemble a batch for one block type.
    pub fn new(block_id: u32, material: Material, instance_buffer: InstanceBuffer) -> (r:
        SceneObject)
        ensures
            r.id_spec() == block_id,
            r.material_spec() == material,
            r.instances_spec() == instance_buffer@,
    {
        SceneObject { block_id, material, instance_buffer }
    }

    /// The batch's block-type identifier.
    pub closed spec fn id_spec(&self) -> u32 {
        self.block_id
    }

    /// The batch's material.
    pub closed spec fn material_spec(&self) -> Material {
        self.material
    }

    /// The batch's instances, in draw order.
    pub closed spec fn instances_spec(&self) -> Seq<Instance> {
        self.instance_buffer@
    }

    /// The block type this batch draws.
    pub fn block_id(&self) -> (r: u32)
        ensures
            r == self.id_spec(),
    {
        self.block_id
    }

    /// The batch's material.
    pub fn material(&self) -> (r: &Material)
        ensures
            *r == self.material_spec(),
    {
        &self.material
    }

    /// Mutable access to the material, to change the batch's color.
    pub fn material_mut(&mut self) -> (r: &mut Material)
        ensures
            *r == old(self).material_spec(),
            final(self).material_spec() == *final(r),
            final(self).id_spec() == old(self).id_spec(),
            final(self).instances_spec() == old(self).instances_spec(),
    {
        &mut self.material
    }

    /// The batch's instance list.
    pub fn instance_buffer(&self) -> (r: &InstanceBuffer)
        ensures
            r@ == self.instances_spec(),
    {
        &self.instance_buffer
    }

    /// Mutable access to the instance list, for the position-marker channel.
    pub fn instance_buffer_mut(&mut self) -> (r: &mut InstanceBuffer)
        ensures
            r@ == old(self).instances_spec(),
            final(self).instances_spec() == final(r)@,
            final(self).id_spec() == old(self).id_spec(),
            final(self).material_spec() == old(self).material_spec(),
    {
        &mut self.instance_buffer
    }
}

/// The ordered collection of batches; rebuilt wholesale on every chunk
/// update.
pub struct Scene {
    objects: Vec<SceneObject>,
}

impl View for Scene {
    type V = Seq<SceneObject>;

    closed spec fn view(&self) -> Seq<SceneObject> {
        self.objects@
    }
}

impl Scene {
    /// An empty scene.
    pub fn new() -> (s: Scene)
        ensures
            s@ == Seq::<SceneObject>::empty(),
    {
        Scene { objects: Vec::new() }
    }

    /// Append one batch.
    pub fn add_object(&mut self, object: SceneObject)
        ensures
            final(self)@ == old(self)@.push(object),
    {
        self.objects.push(object);
    }

    /// The batches, in draw order.
    pub fn objects(&self) -> (r: &Vec<SceneObject>)
        ensures
            r@ == self@,
    {
        &self.objects
    }

    /// Mutable access to the batches.
    pub fn objects_mut(&mut self) -> (r: &mut Vec<SceneObject>)
        ensures
            r@ == old(self)@,
            final(self)@ == final(r)@,
    {
        &mut self.objects
    }

    /// Move one instance of one batch to a new grid position; out-of-range
    /// indices are ignored. This serves the position-marker channel, which
    /// runs every frame independently of chunk updates.
    pub fn update_instance(
        &mut self,
        object_index: usize,
        instance_index: usize,
        x: usize,
        y: usize,
        z: usize,
    )
        ensures
            final(self)@.len() == old(self)@.len(),
            forall|j: int|
                0 <= j < old(self)@.len() && j != object_index ==> #[trigger] final(self)@[j]
                    == old(self)@[j],
            object_index < old(self)@.len() ==> ({
                let b0 = old(self)@[object_index as int];
                let b1 = final(self)@[object_index as int];
                &&& b1.id_spec() == b0.id_spec()
                &&& b1.material_spec() == b0.material_spec()
                &&& (instance_index < b0.instances_spec().len() ==> b1.instances_spec()
                    == b0.instances_spec().update(
                    instance_index as int,
                    Instance { x, y, z },
                ))
                &&& (instance_index >= b0.instances_spec().len() ==> b1.instances_spec()
                    == b0.instances_spec())
            }),
            object_index >= old(self)@.len() ==> final(self)@ == old(self)@,
    {
        if object_index < self.objects.len() {
            let object = &mut self.objects[object_index];
            object.instance_buffer_mut().update_instance(instance_index, x, y, z);
        }
    }

    /// Replace one batch's material color; out-of-range indices are
    /// ignored.
    pub fn update_material_color(&mut self, object_index: usize, color: [u32; 4])
        ensures
            final(self)@.len() == old(self)@.len(),
            forall|j: int|
                0 <= j < old(self)@.len() && j != object_index ==> #[trigger] final(self)@[j]
                    == old(self)@[j],
            object_index < old(self)@.len() ==> ({
                let b0 = old(self)@[object_index as int];
                let b1 = final(self)@[object_index as int];
                &&& b1.id_spec() == b0.id_spec()
                &&& b1.instances_spec() == b0.instances_spec()
                &&& b1.material_spec().color == color
                &&& b1.material_spec().name == b0.material_spec().name
            }),
            object_index >= old(self)@.len() ==> final(self)@ == old(self)@,
    {
        if object_index < self.objects.len() {
            let object = &mut self.objects[object_index];
            object.material_mut().update_color(color);
        }
    }
}

impl Default for Scene {
    /// An empty scene.
    fn default() -> (s: Scene)
        ensures
            s@ == Seq::<SceneObject>::empty(),
    {
        Scene::new()
    }
}

} // verus!
