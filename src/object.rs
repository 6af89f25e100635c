//! A scene-graph entry. An object is a handle into a window's scene: its
//! identity and its shared mesh. Two handles are equal when they name the same
//! entry; what the entry holds is kept by the window.
use vstd::prelude::*;
use crate::command::RenderCommand;

verus! {

/// What a handle names: the entry's identity and its shared mesh.
pub struct ObjectView {
    pub id: u64,
    pub mesh: u64,
}

/// A handle to an object of a window's scene. Copies of a handle name the same
/// object; only the window hands out new identities.
#[derive(Clone, Copy, Debug)]
pub struct Object {
    id: u64,
    mesh: u64,
}

/// The mutable part of a scene entry: its texture and whether it is drawn.
#[derive(Clone, Copy, Debug, PartialEq, Eq, Structural)]
pub struct ObjectData {
    pub texture: u64,
    pub visible: bool,
}

/// The calls that uploading an entry issues: one draw call when it is visible,
/// none otherwise.
pub open spec fn upload_calls(o: ObjectView, d: ObjectData) -> Seq<RenderCommand> {
    if d.visible {
        seq![RenderCommand::DrawObject { object: o.id, mesh: o.mesh, texture: d.texture }]
    } else {
        seq![]
    }
}

impl View for Object {
    type V = ObjectView;

    closed spec fn view(&self) -> ObjectView {
        ObjectView { id: self.id, mesh: self.mesh }
    }
}

impl Object {
    /// The handle of identity `id` drawing `mesh`.
    pub(crate) fn new(id: u64, mesh: u64) -> (r: Object)
        ensures
            r@ == (ObjectView { id, mesh }),
    {
        Object { id, mesh }
    }

    /// The identity of this object.
    pub fn id(&self) -> (r: u64)
        ensures
            r == self@.id,
    {
        self.id
    }

    /// The handle of the mesh this object draws.
    pub fn mesh(&self) -> (r: u64)
        ensures
            r == self@.mesh,
    {
        self.mesh
    }

    /// The calls that draw this object with `data`: none when it is
    /// invisible, else one indexed draw of its mesh with its texture.
    pub fn upload(&self, data: &ObjectData) -> (r: Vec<RenderCommand>)
        ensures
            r@ == upload_calls(self@, *data),
    {
        if data.visible {
            vec![RenderCommand::DrawObject { object: self.id, mesh: self.mesh, texture: data.texture }]
        } else {
            Vec::new()
        }
    }
}

impl PartialEq for Object {
    fn eq(&self, other: &Object) -> (r: bool)
        ensures
            r == (self@.id == other@.id),
    {
        self.id == other.id
    }
}

impl vstd::std_specs::cmp::PartialEqSpecImpl for Object {
    open spec fn obeys_eq_spec() -> bool {
        true
    }

    open spec fn eq_spec(&self, other: &Object) -> bool {
        self@.id == other@.id
    }
}

} // verus!
