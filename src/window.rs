//! The window's scene state and the decisions of each frame: which objects are
//! drawn, which render target is bound, how events are handled by default and
//! how long a capped frame waits.
use vstd::prelude::*;
use crate::command::{Program, RenderCommand};
use crate::event::{Event, KEY_ESCAPE};
use crate::framebuffers::{after_select, resize_calls, select_calls, Bindings, FramebuffersManager, RenderTarget};
use crate::geometry::{is_quad_topology, quad_topology, QuadTopology};
use crate::object::{upload_calls, Object, ObjectData, ObjectView};

verus! {

/// What a window holds, as the contracts see it.
pub struct WindowView {
    /// The frame budget in milliseconds, when the frame rate is capped.
    pub frame_cap: Option<u64>,
    /// The scene graph, in drawing order: each object with its texture and visibility.
    pub objects: Seq<(Object, ObjectData)>,
    /// Whether everything is drawn as wireframe.
    pub wireframe: bool,
    /// The geometry registry: asset name and mesh handle, in registration order.
    pub geometries: Seq<(String, u64)>,
    /// The framebuffer bindings.
    pub bindings: Bindings,
    /// Whether a post-processing effect is attached.
    pub post_processing: bool,
    /// The offscreen target that post-processing renders into.
    pub offscreen: RenderTarget,
    /// The identity the next object gets.
    pub next_object: u64,
    /// The handle the next mesh gets.
    pub next_mesh: u64,
    /// The texture new objects are drawn with.
    pub default_texture: u64,
    /// Whether the window has been asked to close.
    pub closing: bool,
}

/// A window and its 3D scene.
pub struct Window {
    max_ms_per_frame: Option<u64>,
    objects: Vec<(Object, ObjectData)>,
    wireframe_mode: bool,
    geometries: Vec<(String, u64)>,
    framebuffers_manager: FramebuffersManager,
    post_processing: bool,
    post_process_render_target: RenderTarget,
    next_object: u64,
    next_mesh: u64,
    default_texture: u64,
    closing: bool,
}

impl View for Window {
    type V = WindowView;

    closed spec fn view(&self) -> WindowView {
        WindowView {
            frame_cap: self.max_ms_per_frame,
            objects: self.objects@,
            wireframe: self.wireframe_mode,
            geometries: self.geometries@,
            bindings: self.framebuffers_manager@,
            post_processing: self.post_processing,
            offscreen: self.post_process_render_target,
            next_object: self.next_object,
            next_mesh: self.next_mesh,
            default_texture: self.default_texture,
            closing: self.closing,
        }
    }
}

/// Whether the objects of `s` have pairwise distinct identities.
pub open spec fn distinct_ids(s: Seq<(Object, ObjectData)>) -> bool {
    forall|i: int, j: int| 0 <= i < s.len() && 0 <= j < s.len() && i != j ==> s[i].0@.id != s[j].0@.id
}

/// The mesh that the registry `g` holds under `name`: the latest entry wins.
pub open spec fn lookup(g: Seq<(String, u64)>, name: Seq<char>) -> Option<u64>
    decreases g.len(),
{
    if g.len() == 0 {
        None
    } else if g.last().0@ == name {
        Some(g.last().1)
    } else {
        lookup(g.drop_last(), name)
    }
}

/// Whether `i` is the last position of `s` that holds `o`'s identity.
pub open spec fn is_last_match(s: Seq<(Object, ObjectData)>, o: Object, i: int) -> bool {
    &&& 0 <= i < s.len()
    &&& s[i].0@.id == o@.id
    &&& forall|k: int| i < k < s.len() ==> s[k].0@.id != o@.id
}

/// Whether some position of `s` holds `o`'s identity.
pub open spec fn has_match(s: Seq<(Object, ObjectData)>, o: Object) -> bool {
    exists|i: int| 0 <= i < s.len() && s[i].0@.id == o@.id
}

/// `s` without its entry at `i`, the last entry taking its place.
pub open spec fn swap_removed(s: Seq<(Object, ObjectData)>, i: int) -> Seq<(Object, ObjectData)> {
    s.update(i, s.last()).drop_last()
}

/// How long a frame waits, given the budget `cap` and the milliseconds the
/// frame took: the rest of the budget, and nothing without a budget.
pub open spec fn sleep_ms(cap: Option<u64>, elapsed_ms: u64) -> u64 {
    match cap {
        None => 0,
        Some(ms) => if elapsed_ms < ms {
            (ms - elapsed_ms) as u64
        } else {
            0
        },
    }
}

/// `new` is `old` with `o` appended to the scene: a fresh visible object
/// drawing `mesh` with the default texture.
pub open spec fn object_added(old: WindowView, new: WindowView, o: Object, mesh: u64) -> bool {
    &&& old.next_object < u64::MAX
    &&& o@ == (ObjectView { id: old.next_object, mesh })
    &&& new == (WindowView {
        objects: old.objects.push((o, ObjectData { texture: old.default_texture, visible: true })),
        next_object: (old.next_object + 1) as u64,
        ..old
    })
}

/// `new` is `old` after asking the registry for `name`: a registered name
/// gives its mesh and changes nothing; an unknown one gets the next mesh
/// handle, which must then be loaded.
pub open spec fn geometry_registered(old: WindowView, name: Seq<char>, new: WindowView, mesh: u64, load: bool) -> bool {
    match lookup(old.geometries, name) {
        Some(m) => mesh == m && !load && new == old,
        None => {
            &&& old.next_mesh < u64::MAX
            &&& mesh == old.next_mesh
            &&& load
            &&& new.geometries.len() == old.geometries.len() + 1
            &&& new.geometries.drop_last() == old.geometries
            &&& new.geometries.last().0@ == name
            &&& new.geometries.last().1 == mesh
            &&& new == (WindowView {
                geometries: new.geometries,
                next_mesh: (old.next_mesh + 1) as u64,
                ..old
            })
        },
    }
}

/// `old` with the registry and the mesh counter of `new`.
pub open spec fn with_registry(old: WindowView, new: WindowView) -> WindowView {
    WindowView { geometries: new.geometries, next_mesh: new.next_mesh, ..old }
}

/// `new` is `old` after adding the model at `path` to the scene: the mesh is
/// taken from the registry, or registered (and `load` set) the first time.
pub open spec fn obj_added(old: WindowView, path: Seq<char>, new: WindowView, o: Object, load: bool) -> bool {
    &&& geometry_registered(old, path, with_registry(old, new), o@.mesh, load)
    &&& object_added(with_registry(old, new), new, o, o@.mesh)
}

/// `new` and `r` after adding an object of the registered geometry `name`:
/// nothing changes when the name is not registered.
pub open spec fn builtin_added(old: WindowView, name: Seq<char>, new: WindowView, r: Option<Object>) -> bool {
    match lookup(old.geometries, name) {
        None => r is None && new == old,
        Some(m) => r matches Some(o) && object_added(old, new, o, m),
    }
}

/// The calls that adapt the viewport and the offscreen target to a
/// framebuffer of `w` by `h` pixels.
pub open spec fn viewport_calls(v: WindowView, w: i32, h: i32) -> Seq<RenderCommand> {
    seq![RenderCommand::Scissor(w, h)] + resize_calls(RenderTarget::Screen, w, h) + resize_calls(v.offscreen, w, h)
}

/// The default handling of `e` from the state `v`: the new state, the calls to
/// issue, and whether the event then goes on to the camera. Releasing escape
/// asks the window to close; a resize adapts the viewport. The event then
/// goes on to the camera in every case.
pub open spec fn event_response(v: WindowView, e: Event) -> (WindowView, Seq<RenderCommand>, bool) {
    match e {
        Event::KeyReleased(k) => if k == KEY_ESCAPE {
            (WindowView { closing: true, ..v }, seq![], true)
        } else {
            (v, seq![], true)
        },
        Event::FramebufferSize(w, h) => (v, viewport_calls(v, w, h), true),
        _ => (v, seq![], true),
    }
}

/// The draw calls of the objects `objs`, in order.
pub open spec fn draw_calls(objs: Seq<(Object, ObjectData)>) -> Seq<RenderCommand>
    decreases objs.len(),
{
    if objs.len() == 0 {
        seq![]
    } else {
        draw_calls(objs.drop_last()) + upload_calls(objs.last().0@, objs.last().1)
    }
}

/// The calls that render the scene once: clear, the pending lines if any, the
/// polygon mode, then every object.
pub open spec fn scene_calls(v: WindowView, lines: bool) -> Seq<RenderCommand> {
    seq![RenderCommand::Clear] + (if lines {
        seq![
            RenderCommand::UseProgram(Program::Lines),
            RenderCommand::DrawLines,
            RenderCommand::UseProgram(Program::Object),
        ]
    } else {
        seq![]
    }) + seq![RenderCommand::PolygonMode(v.wireframe)] + draw_calls(v.objects)
}

/// The calls of render pass `p`: the camera's matrices go to both programs,
/// then the scene is rendered.
pub open spec fn pass_calls(v: WindowView, p: usize, lines: bool) -> Seq<RenderCommand> {
    seq![
        RenderCommand::StartPass(p),
        RenderCommand::UseProgram(Program::Lines),
        RenderCommand::UploadView(p),
        RenderCommand::UseProgram(Program::Object),
        RenderCommand::UploadView(p),
    ] + scene_calls(v, lines)
}

/// The calls of the first `n` render passes.
pub open spec fn passes_calls(v: WindowView, n: nat, lines: bool) -> Seq<RenderCommand>
    decreases n,
{
    if n == 0 {
        seq![]
    } else {
        passes_calls(v, (n - 1) as nat, lines) + pass_calls(v, (n - 1) as usize, lines)
    }
}

/// The target a frame renders into: the offscreen one when post-processing.
pub open spec fn frame_target(v: WindowView) -> RenderTarget {
    if v.post_processing {
        v.offscreen
    } else {
        RenderTarget::Screen
    }
}

/// The calls of the post-processing stage: solid fill again, the screen
/// bound, then the effect on the offscreen textures.
pub open spec fn post_calls(v: WindowView) -> Seq<RenderCommand> {
    if v.post_processing {
        (if v.wireframe {
            seq![RenderCommand::PolygonMode(false)]
        } else {
            seq![]
        }) + select_calls(after_select(v.bindings, v.offscreen), RenderTarget::Screen) + seq![
            RenderCommand::PostProcess { color: v.offscreen.spec_texture_id(), depth: v.offscreen.spec_depth_id() },
        ]
    } else {
        seq![]
    }
}

/// All calls of one frame with `n` camera passes.
pub open spec fn frame_calls(v: WindowView, n: nat, lines: bool) -> Seq<RenderCommand> {
    select_calls(v.bindings, frame_target(v)) + passes_calls(v, n, lines) + seq![RenderCommand::CompletePass]
        + post_calls(v) + seq![RenderCommand::Present]
}

/// The bindings after a frame: the screen is bound in the end either way.
pub open spec fn frame_bindings(v: WindowView) -> Bindings {
    if v.post_processing {
        after_select(after_select(v.bindings, v.offscreen), RenderTarget::Screen)
    } else {
        after_select(v.bindings, RenderTarget::Screen)
    }
}

/// The handles of the entries `s`, in order.
pub open spec fn handles(s: Seq<(Object, ObjectData)>) -> Seq<Object> {
    s.map_values(|e: (Object, ObjectData)| e.0)
}

/// `s` with every entry of `o`'s identity shown (`v`) or hidden.
pub open spec fn with_visible(s: Seq<(Object, ObjectData)>, o: Object, v: bool) -> Seq<(Object, ObjectData)> {
    Seq::new(
        s.len(),
        |k: int|
            if s[k].0@.id == o@.id {
                (s[k].0, ObjectData { visible: v, ..s[k].1 })
            } else {
                s[k]
            },
    )
}

/// `s` with every entry of `o`'s identity drawn with texture `t`.
pub open spec fn with_texture(s: Seq<(Object, ObjectData)>, o: Object, t: u64) -> Seq<(Object, ObjectData)> {
    Seq::new(
        s.len(),
        |k: int|
            if s[k].0@.id == o@.id {
                (s[k].0, ObjectData { texture: t, ..s[k].1 })
            } else {
                s[k]
            },
    )
}

impl Window {
    /// The window's own invariant: identities and mesh handles handed out so
    /// far are below the next ones, and identities are distinct.
    pub open spec fn wf(&self) -> bool {
        let v = self@;
        &&& distinct_ids(v.objects)
        &&& forall|i: int| 0 <= i < v.objects.len() ==> (#[trigger] v.objects[i]).0@.id < v.next_object
        &&& forall|i: int| 0 <= i < v.objects.len() ==> (#[trigger] v.objects[i]).0@.mesh < v.next_mesh
        &&& forall|i: int| 0 <= i < v.geometries.len() ==> (#[trigger] v.geometries[i]).1 < v.next_mesh
        &&& forall|i: int, j: int|
            0 <= i < j < v.geometries.len() ==> (#[trigger] v.geometries[i]).0@ != (#[trigger] v.geometries[j]).0@
        &&& v.offscreen is Offscreen
    }

    /// A window with an empty scene, no frame cap, solid fill and no
    /// post-processing, the screen bound, `fbo` as its offscreen framebuffer
    /// and `color` and `depth` as the textures of its offscreen target.
    pub fn new(fbo: u32, color: u32, depth: u32, default_texture: u64) -> (r: Window)
        ensures
            r.wf(),
            r@.frame_cap is None,
            r@.objects.len() == 0,
            !r@.wireframe,
            r@.geometries.len() == 0,
            r@.bindings == (Bindings { curr_fbo: 0, curr_color: 0, curr_depth: 0, fbo }),
            !r@.post_processing,
            r@.offscreen == FramebuffersManager::spec_offscreen(color, depth),
            r@.next_object == 0,
            r@.next_mesh == 0,
            r@.default_texture == default_texture,
            !r@.closing,
    {
        Window {
            max_ms_per_frame: None,
            objects: Vec::new(),
            wireframe_mode: false,
            geometries: Vec::new(),
            framebuffers_manager: FramebuffersManager::new(fbo),
            post_processing: false,
            post_process_render_target: FramebuffersManager::new_render_target(color, depth),
            next_object: 0,
            next_mesh: 0,
            default_texture,
            closing: false,
        }
    }

    /// Attaches (`true`) or detaches (`false`) the post-processing effect.
    pub fn set_post_processing_effect(&mut self, attached: bool)
        ensures
            final(self)@ == (WindowView { post_processing: attached, ..old(self)@ }),
    {
        self.post_processing = attached;
    }

    /// Whether a post-processing effect is attached.
    pub fn post_processing(&self) -> (r: bool)
        ensures
            r == self@.post_processing,
    {
        self.post_processing
    }

    /// Sets the maximum number of frames per second; `None` means no limit.
    /// The frame budget becomes `1000 / fps` milliseconds.
    pub fn set_framerate_limit(&mut self, fps: Option<u64>)
        requires
            fps != Some(0u64),
        ensures
            final(self)@ == (WindowView {
                frame_cap: match fps {
                    None => None,
                    Some(f) => Some(1000u64 / f),
                },
                ..old(self)@
            }),
    {
        self.max_ms_per_frame = match fps {
            None => None,
            Some(f) => Some(1000 / f),
        };
    }

    /// How many milliseconds to sleep after a frame that took `elapsed_ms`:
    /// the rest of the frame budget when the frame rate is capped and the
    /// frame was faster than the budget, else nothing.
    pub fn frame_sleep_ms(&self, elapsed_ms: u64) -> (r: u64)
        ensures
            r == sleep_ms(self@.frame_cap, elapsed_ms),
    {
        match self.max_ms_per_frame {
            None => 0,
            Some(ms) => if elapsed_ms < ms {
                ms - elapsed_ms
            } else {
                0
            },
        }
    }

    /// Asks the window to close; the render loop stops before its next frame.
    pub fn close(&mut self)
        ensures
            final(self)@ == (WindowView { closing: true, ..old(self)@ }),
    {
        self.closing = true;
    }

    /// Whether the window has been asked to close.
    pub fn should_close(&self) -> (r: bool)
        ensures
            r == self@.closing,
    {
        self.closing
    }

    /// Switches wireframe rendering on or off, for the whole scene.
    pub fn set_wireframe_mode(&mut self, mode: bool)
        ensures
            final(self)@ == (WindowView { wireframe: mode, ..old(self)@ }),
    {
        self.wireframe_mode = mode;
    }

    /// Whether the scene is drawn as wireframe.
    pub fn wireframe_mode(&self) -> (r: bool)
        ensures
            r == self@.wireframe,
    {
        self.wireframe_mode
    }

    /// The objects of the scene, in drawing order.
    pub fn objects(&self) -> (r: Vec<Object>)
        ensures
            r@ == handles(self@.objects),
    {
        let mut r: Vec<Object> = Vec::new();
        let mut i: usize = 0;
        while i < self.objects.len()
            invariant
                0 <= i <= self.objects@.len(),
                r@ == handles(self@.objects.subrange(0, i as int)),
            decreases self.objects@.len() - i,
        {
            r.push(self.objects[i].0);
            proof {
                assert(handles(self@.objects.subrange(0, i + 1)) =~= r@);
            }
            i = i + 1;
        }
        proof {
            assert(self@.objects.subrange(0, i as int) =~= self@.objects);
        }
        r
    }

    /// The texture and visibility of `o`, or `None` when `o` is not in the scene.
    pub fn object_data(&self, o: &Object) -> (r: Option<ObjectData>)
        requires
            self.wf(),
        ensures
            !has_match(self@.objects, *o) ==> r is None,
            forall|i: int| 0 <= i < self@.objects.len() && self@.objects[i].0@.id == o@.id ==> r == Some(
                self@.objects[i].1,
            ),
    {
        let mut i: usize = 0;
        while i < self.objects.len()
            invariant
                self.wf(),
                0 <= i <= self.objects@.len(),
                forall|k: int| 0 <= k < i ==> self@.objects[k].0@.id != o@.id,
            decreases self.objects@.len() - i,
        {
            if self.objects[i].0 == *o {
                return Some(self.objects[i].1);
            }
            i = i + 1;
        }
        None
    }

    /// Shows or hides `o`: its entry gets the new visibility, and nothing else
    /// changes. Does nothing when `o` is not in the scene.
    pub fn set_visible(&mut self, o: &Object, visible: bool)
        requires
            old(self).wf(),
        ensures
            final(self).wf(),
            final(self)@ == (WindowView { objects: with_visible(old(self)@.objects, *o, visible), ..old(self)@ }),
    {
        let mut i: usize = 0;
        while i < self.objects.len()
            invariant
                0 <= i <= self.objects@.len(),
                self.objects@.len() == old(self)@.objects.len(),
                self@ == (WindowView { objects: self@.objects, ..old(self)@ }),
                forall|k: int| 0 <= k < i ==> self@.objects[k] == #[trigger] with_visible(old(self)@.objects, *o, visible)[k],
                forall|k: int| i <= k < self.objects@.len() ==> self@.objects[k] == old(self)@.objects[k],
            decreases self.objects@.len() - i,
        {
            if self.objects[i].0 == *o {
                let (h, d) = self.objects[i];
                self.objects.set(i, (h, ObjectData { visible, ..d }));
            }
            i = i + 1;
        }
        proof {
            assert(self@.objects =~= with_visible(old(self)@.objects, *o, visible));
            lemma_same_handles_keep_wf(old(self)@, self@);
        }
    }

    /// Draws `o` with `texture` from now on; nothing else changes. Does nothing
    /// when `o` is not in the scene.
    pub fn set_texture(&mut self, o: &Object, texture: u64)
        requires
            old(self).wf(),
        ensures
            final(self).wf(),
            final(self)@ == (WindowView { objects: with_texture(old(self)@.objects, *o, texture), ..old(self)@ }),
    {
        let mut i: usize = 0;
        while i < self.objects.len()
            invariant
                0 <= i <= self.objects@.len(),
                self.objects@.len() == old(self)@.objects.len(),
                self@ == (WindowView { objects: self@.objects, ..old(self)@ }),
                forall|k: int| 0 <= k < i ==> self@.objects[k] == #[trigger] with_texture(old(self)@.objects, *o, texture)[k],
                forall|k: int| i <= k < self.objects@.len() ==> self@.objects[k] == old(self)@.objects[k],
            decreases self.objects@.len() - i,
        {
            if self.objects[i].0 == *o {
                let (h, d) = self.objects[i];
                self.objects.set(i, (h, ObjectData { texture, ..d }));
            }
            i = i + 1;
        }
        proof {
            assert(self@.objects =~= with_texture(old(self)@.objects, *o, texture));
            lemma_same_handles_keep_wf(old(self)@, self@);
        }
    }

    /// Removes from the scene the last entry that is the same object as `o`;
    /// the last entry takes its place. Does nothing when `o` is not in the scene.
    pub fn remove(&mut self, o: Object)
        requires
            old(self).wf(),
        ensures
            final(self).wf(),
            !has_match(old(self)@.objects, o) ==> final(self)@ == old(self)@,
            forall|i: int| is_last_match(old(self)@.objects, o, i) ==> final(self)@ == (WindowView {
                objects: swap_removed(old(self)@.objects, i),
                ..old(self)@
            }),
    {
        let mut i: usize = self.objects.len();
        while i > 0
            invariant
                0 <= i <= self.objects@.len(),
                self@ == old(self)@,
                old(self).wf(),
                forall|k: int| i <= k < self.objects@.len() ==> self.objects@[k].0@.id != o@.id,
            decreases i,
        {
            if self.objects[i - 1].0 == o {
                let ghost objs = self.objects@;
                self.objects.swap_remove(i - 1);
                proof {
                    assert(is_last_match(objs, o, i - 1));
                    assert forall|j: int| is_last_match(objs, o, j) implies j == i - 1 by {
                        if j < i - 1 {
                            assert(!(forall|k: int| j < k < objs.len() ==> objs[k].0@.id != o@.id));
                        }
                    }
                    lemma_swap_removed_keeps(objs, (i - 1) as int);
                    let r = self.objects@;
                    assert forall|j: int| 0 <= j < r.len() implies (#[trigger] r[j]).0@.id < self.next_object
                        && r[j].0@.mesh < self.next_mesh by {
                        let k = if j == i - 1 { objs.len() - 1 } else { j };
                        assert(r[j] == objs[k]);
                        assert(objs[k] == old(self)@.objects[k]);

                    }
                }
                return;
            }
            i = i - 1;
        }
    }

    /// The mesh registered under `name`, if any.
    pub fn geometry(&self, name: &str) -> (r: Option<u64>)
        ensures
            r == lookup(self@.geometries, name@),
    {
        let key = name.to_owned();
        let mut i: usize = self.geometries.len();
        assert(self@.geometries.subrange(0, i as int) =~= self@.geometries);
        while i > 0
            invariant
                key@ == name@,
                0 <= i <= self.geometries@.len(),
                lookup(self@.geometries, name@) == lookup(self@.geometries.subrange(0, i as int), name@),
            decreases i,
        {
            let ghost prefix = self@.geometries.subrange(0, i as int);
            assert(prefix.drop_last() =~= self@.geometries.subrange(0, i - 1));
            if self.geometries[i - 1].0 == key {
                return Some(self.geometries[i - 1].1);
            }
            i = i - 1;
        }
        assert(self@.geometries.subrange(0, 0) =~= Seq::<(String, u64)>::empty());
        None
    }

    /// The mesh for `name`: the registered one, or a fresh handle that is
    /// registered now; the flag tells whether the mesh still has to be loaded.
    pub fn register_geometry(&mut self, name: &str) -> (r: (u64, bool))
        requires
            old(self).wf(),
            old(self)@.next_mesh < u64::MAX,
        ensures
            final(self).wf(),
            geometry_registered(old(self)@, name@, final(self)@, r.0, r.1),
            lookup(final(self)@.geometries, name@) == Some(r.0),
            forall|n: Seq<char>| n != name@ ==> lookup(final(self)@.geometries, n) == lookup(old(self)@.geometries, n),
    {
        match self.geometry(name) {
            Some(m) => (m, false),
            None => {
                let m = self.next_mesh;
                self.geometries.push((name.to_owned(), m));
                self.next_mesh = m + 1;
                proof {
                    let g = self@.geometries;
                    assert(g.drop_last() =~= old(self)@.geometries);
                    lemma_lookup_none(old(self)@.geometries, name@);
                    assert forall|i: int, j: int| 0 <= i < j < g.len() implies (#[trigger] g[i]).0@ != (
                    #[trigger] g[j]).0@ by {
                        if j == g.len() - 1 {
                            assert(g[i] == old(self)@.geometries[i]);
                        } else {
                            assert(g[i] == old(self)@.geometries[i]);
                            assert(g[j] == old(self)@.geometries[j]);
                        }
                    }
                    assert forall|i: int| 0 <= i < g.len() implies (#[trigger] g[i]).1 < self.next_mesh by {
                        if i < g.len() - 1 {
                            assert(g[i] == old(self)@.geometries[i]);
                        }
                    }
                }
                (m, true)
            },
        }
    }

    fn push_object(&mut self, mesh: u64) -> (r: Object)
        requires
            old(self).wf(),
            old(self)@.next_object < u64::MAX,
            mesh < old(self)@.next_mesh,
        ensures
            final(self).wf(),
            object_added(old(self)@, final(self)@, r, mesh),
    {
        let o = Object::new(self.next_object, mesh);
        self.objects.push((o, ObjectData { texture: self.default_texture, visible: true }));
        self.next_object = self.next_object + 1;
        proof {
            let s = self@.objects;
            assert forall|i: int, j: int| 0 <= i < s.len() && 0 <= j < s.len() && i != j implies s[i].0@.id
                != s[j].0@.id by {
                if i < s.len() - 1 {
                    assert(s[i] == old(self)@.objects[i]);
                }
                if j < s.len() - 1 {
                    assert(s[j] == old(self)@.objects[j]);
                }
            }
            assert forall|i: int| 0 <= i < s.len() implies (#[trigger] s[i]).0@.id < self.next_object
                && s[i].0@.mesh < self.next_mesh by {
                if i < s.len() - 1 {
                    assert(s[i] == old(self)@.objects[i]);
                }
            }
            assert(distinct_ids(s));
            assert(self@.geometries == old(self)@.geometries);
            assert(self@.offscreen is Offscreen);
        }
        o
    }

    /// Adds the model at `path` to the scene. The mesh is shared with every
    /// object added from the same path; the flag is set when the path is new,
    /// and the mesh must then be loaded from the file.
    pub fn add_obj(&mut self, path: &str) -> (r: (Object, bool))
        requires
            old(self).wf(),
            old(self)@.next_mesh < u64::MAX,
            old(self)@.next_object < u64::MAX,
        ensures
            final(self).wf(),
            obj_added(old(self)@, path@, final(self)@, r.0, r.1),
            lookup(final(self)@.geometries, path@) == Some(r.0@.mesh),
            forall|n: Seq<char>| n != path@ ==> lookup(final(self)@.geometries, n) == lookup(old(self)@.geometries, n),
    {
        let (mesh, load) = self.register_geometry(path);
        let ghost mid = self@;
        proof {
            if !load {
                lemma_lookup_bound(old(self)@.geometries, path@, old(self)@.next_mesh);
            }
        }
        let o = self.push_object(mesh);
        assert(with_registry(old(self)@, self@) == mid);
        (o, load)
    }

    fn add_builtin(&mut self, name: &str) -> (r: Option<Object>)
        requires
            old(self).wf(),
            old(self)@.next_object < u64::MAX,
        ensures
            final(self).wf(),
            builtin_added(old(self)@, name@, final(self)@, r),
    {
        match self.geometry(name) {
            None => None,
            Some(mesh) => {
                proof {
                    lemma_lookup_bound(self@.geometries, name@, self@.next_mesh);
                }
                Some(self.push_object(mesh))
            },
        }
    }

    /// Adds a cube of the registered geometry "cube"; `None` when no such
    /// geometry is registered.
    pub fn add_cube(&mut self) -> (r: Option<Object>)
        requires
            old(self).wf(),
            old(self)@.next_object < u64::MAX,
        ensures
            final(self).wf(),
            builtin_added(old(self)@, "cube"@, final(self)@, r),
    {
        self.add_builtin("cube")
    }

    /// Adds a sphere of the registered geometry "sphere"; `None` when no such
    /// geometry is registered.
    pub fn add_sphere(&mut self) -> (r: Option<Object>)
        requires
            old(self).wf(),
            old(self)@.next_object < u64::MAX,
        ensures
            final(self).wf(),
            builtin_added(old(self)@, "sphere"@, final(self)@, r),
    {
        self.add_builtin("sphere")
    }

    /// Adds a cone of the registered geometry "cone"; `None` when no such
    /// geometry is registered.
    pub fn add_cone(&mut self) -> (r: Option<Object>)
        requires
            old(self).wf(),
            old(self)@.next_object < u64::MAX,
        ensures
            final(self).wf(),
            builtin_added(old(self)@, "cone"@, final(self)@, r),
    {
        self.add_builtin("cone")
    }

    /// Adds a cylinder of the registered geometry "cylinder"; `None` when no
    /// such geometry is registered.
    pub fn add_cylinder(&mut self) -> (r: Option<Object>)
        requires
            old(self).wf(),
            old(self)@.next_object < u64::MAX,
        ensures
            final(self).wf(),
            builtin_added(old(self)@, "cylinder"@, final(self)@, r),
    {
        self.add_builtin("cylinder")
    }

    /// Adds a capsule of the registered geometry "capsule"; `None` when no
    /// such geometry is registered.
    pub fn add_capsule(&mut self) -> (r: Option<Object>)
        requires
            old(self).wf(),
            old(self)@.next_object < u64::MAX,
        ensures
            final(self).wf(),
            builtin_added(old(self)@, "capsule"@, final(self)@, r),
    {
        self.add_builtin("capsule")
    }

    /// Adds a quad of `wsubdivs` by `hsubdivs` cells, on a mesh of its own
    /// with a fresh handle, and returns the mesh's grid and triangles.
    pub fn add_quad(&mut self, wsubdivs: usize, hsubdivs: usize) -> (r: (Object, QuadTopology))
        requires
            old(self).wf(),
            old(self)@.next_mesh < u64::MAX,
            old(self)@.next_object < u64::MAX,
            wsubdivs > 0,
            hsubdivs > 0,
            (wsubdivs + 1) * (hsubdivs + 1) <= u32::MAX,
        ensures
            final(self).wf(),
            is_quad_topology(r.1, wsubdivs as int, hsubdivs as int),
            r.0@.mesh == old(self)@.next_mesh,
            object_added(
                WindowView { next_mesh: (old(self)@.next_mesh + 1) as u64, ..old(self)@ },
                final(self)@,
                r.0,
                r.0@.mesh,
            ),
    {
        let topology = quad_topology(wsubdivs, hsubdivs);
        let mesh = self.next_mesh;
        self.next_mesh = mesh + 1;
        let o = self.push_object(mesh);
        (o, topology)
    }

    /// The calls that tear the window's render targets down: the screen is
    /// bound back, then the offscreen framebuffer and its textures are deleted.
    pub fn release(self) -> (r: Vec<RenderCommand>)
        requires
            self.wf(),
        ensures
            r@ == seq![RenderCommand::BindFramebuffer(0), RenderCommand::DeleteFramebuffer(self@.bindings.fbo)]
                + seq![
                RenderCommand::DeleteTexture(self@.offscreen.spec_texture_id()),
                RenderCommand::DeleteTexture(self@.offscreen.spec_depth_id()),
            ],
    {
        let Window { framebuffers_manager, post_process_render_target, .. } = self;
        let mut calls = framebuffers_manager.release();
        let mut textures = post_process_render_target.release();
        calls.append(&mut textures);
        proof {
            assert(calls@ =~= seq![RenderCommand::BindFramebuffer(0), RenderCommand::DeleteFramebuffer(self@.bindings.fbo)]
                + seq![
                RenderCommand::DeleteTexture(self@.offscreen.spec_texture_id()),
                RenderCommand::DeleteTexture(self@.offscreen.spec_depth_id()),
            ]);
        }
        calls
    }

    fn update_viewport(&mut self, w: i32, h: i32) -> (r: Vec<RenderCommand>)
        ensures
            final(self)@ == old(self)@,
            r@ == viewport_calls(old(self)@, w, h),
    {
        let mut calls: Vec<RenderCommand> = vec![RenderCommand::Scissor(w, h)];
        let mut screen = FramebuffersManager::screen();
        let mut on_screen = screen.resize(w, h);
        calls.append(&mut on_screen);
        let mut offscreen = self.post_process_render_target.resize(w, h);
        calls.append(&mut offscreen);
        proof {
            assert(calls@ =~= viewport_calls(old(self)@, w, h));
        }
        calls
    }

    /// The default handling of an event that the application let through:
    /// releasing escape asks the window to close; a resize returns the calls
    /// that adapt the viewport and the offscreen target. The flag tells whether
    /// the camera gets the event next.
    pub fn default_event_handling(&mut self, event: &Event) -> (r: (Vec<RenderCommand>, bool))
        ensures
            final(self)@ == event_response(old(self)@, *event).0,
            r.0@ == event_response(old(self)@, *event).1,
            r.1 == event_response(old(self)@, *event).2,
    {
        match event {
            Event::KeyReleased(k) => {
                if *k == KEY_ESCAPE {
                    self.close();
                    (Vec::new(), true)
                } else {
                    (Vec::new(), true)
                }
            },
            Event::FramebufferSize(w, h) => (self.update_viewport(*w, *h), true),
            _ => (Vec::new(), true),
        }
    }

    /// The calls that render the scene once, given whether lines are queued.
    pub fn render_scene(&self, lines_pending: bool) -> (r: Vec<RenderCommand>)
        ensures
            r@ == scene_calls(self@, lines_pending),
    {
        let mut calls: Vec<RenderCommand> = vec![RenderCommand::Clear];
        if lines_pending {
            calls.push(RenderCommand::UseProgram(Program::Lines));
            calls.push(RenderCommand::DrawLines);
            calls.push(RenderCommand::UseProgram(Program::Object));
        }
        calls.push(RenderCommand::PolygonMode(self.wireframe_mode));
        let ghost prefix = calls@;
        let mut i: usize = 0;
        while i < self.objects.len()
            invariant
                0 <= i <= self.objects@.len(),
                calls@ == prefix + draw_calls(self.objects@.subrange(0, i as int)),
            decreases self.objects@.len() - i,
        {
            let mut upload = self.objects[i].0.upload(&self.objects[i].1);
            calls.append(&mut upload);
            proof {
                let sub = self.objects@.subrange(0, i + 1);
                assert(sub.drop_last() =~= self.objects@.subrange(0, i as int));
                assert(sub.last() == self.objects@[i as int]);
                assert(calls@ =~= prefix + draw_calls(sub));
            }
            i = i + 1;
        }
        proof {
            assert(self.objects@.subrange(0, self.objects@.len() as int) =~= self.objects@);
            assert(calls@ =~= scene_calls(self@, lines_pending));
        }
        calls
    }

    fn render_pass(&self, pass: usize, lines_pending: bool) -> (r: Vec<RenderCommand>)
        ensures
            r@ == pass_calls(self@, pass, lines_pending),
    {
        let mut calls: Vec<RenderCommand> = vec![
            RenderCommand::StartPass(pass),
            RenderCommand::UseProgram(Program::Lines),
            RenderCommand::UploadView(pass),
            RenderCommand::UseProgram(Program::Object),
            RenderCommand::UploadView(pass),
        ];
        let mut scene = self.render_scene(lines_pending);
        calls.append(&mut scene);
        proof {
            assert(calls@ =~= pass_calls(self@, pass, lines_pending));
        }
        calls
    }

    /// The calls of one frame with `num_passes` camera passes: the render
    /// target is selected (offscreen when post-processing), each pass uploads
    /// the camera's matrices and renders the scene, then post-processing runs
    /// on the screen and the frame is presented.
    pub fn draw(&mut self, num_passes: usize, lines_pending: bool) -> (r: Vec<RenderCommand>)
        ensures
            r@ == frame_calls(old(self)@, num_passes as nat, lines_pending),
            final(self)@ == (WindowView { bindings: frame_bindings(old(self)@), ..old(self)@ }),
    {
        let mut calls: Vec<RenderCommand> = if self.post_processing {
            self.framebuffers_manager.select(&self.post_process_render_target)
        } else {
            self.framebuffers_manager.select(&RenderTarget::Screen)
        };
        let ghost v = WindowView { bindings: old(self)@.bindings, ..self@ };
        assert(v == old(self)@);
        let ghost prefix = calls@;
        let mut pass: usize = 0;
        while pass < num_passes
            invariant
                0 <= pass <= num_passes,
                v == (WindowView { bindings: old(self)@.bindings, ..self@ }),
                calls@ == prefix + passes_calls(v, pass as nat, lines_pending),
            decreases num_passes - pass,
        {
            let mut one = self.render_pass(pass, lines_pending);
            calls.append(&mut one);
            proof {
                assert(pass_calls(self@, pass, lines_pending) == pass_calls(v, pass, lines_pending));
                assert(calls@ =~= prefix + passes_calls(v, (pass + 1) as nat, lines_pending));
            }
            pass = pass + 1;
        }
        calls.push(RenderCommand::CompletePass);
        let ghost before_post = calls@;
        if self.post_processing {
            if self.wireframe_mode {
                calls.push(RenderCommand::PolygonMode(false));
            }
            let mut back = self.framebuffers_manager.select(&RenderTarget::Screen);
            calls.append(&mut back);
            calls.push(RenderCommand::PostProcess {
                color: self.post_process_render_target.texture_id(),
                depth: self.post_process_render_target.depth_id(),
            });
        }
        proof {
            assert(calls@ =~= before_post + post_calls(v));
        }
        calls.push(RenderCommand::Present);
        proof {
            assert(calls@ =~= frame_calls(v, num_passes as nat, lines_pending));
        }
        calls
    }
}

/// `swap_removed` keeps every other entry, so identities stay distinct and
/// below their bounds.
proof fn lemma_swap_removed_keeps(s: Seq<(Object, ObjectData)>, i: int)
    requires
        0 <= i < s.len(),
    ensures
        forall|j: int| 0 <= j < swap_removed(s, i).len() ==> #[trigger] swap_removed(s, i)[j] == s[if j == i { s.len() - 1 } else { j }],
        distinct_ids(s) ==> distinct_ids(swap_removed(s, i)),
{
    let r = swap_removed(s, i);
    if distinct_ids(s) {
        assert forall|a: int, b: int| 0 <= a < r.len() && 0 <= b < r.len() && a != b implies r[a].0@.id
            != r[b].0@.id by {
            let ka = if a == i { s.len() - 1 } else { a };
            let kb = if b == i { s.len() - 1 } else { b };
            assert(r[a] == s[ka]);
            assert(r[b] == s[kb]);
        }
    }
}

} // verus!

verus! {

proof fn lemma_lookup_none(g: Seq<(String, u64)>, name: Seq<char>)
    ensures
        lookup(g, name) is None ==> forall|i: int| 0 <= i < g.len() ==> (#[trigger] g[i]).0@ != name,
    decreases g.len(),
{
    if g.len() > 0 {
        lemma_lookup_none(g.drop_last(), name);
        if lookup(g, name) is None {
            assert forall|i: int| 0 <= i < g.len() implies (#[trigger] g[i]).0@ != name by {
                if i < g.len() - 1 {
                    assert(g[i] == g.drop_last()[i]);
                }
            }
        }
    }
}

proof fn lemma_lookup_bound(g: Seq<(String, u64)>, name: Seq<char>, bound: u64)
    requires
        forall|i: int| 0 <= i < g.len() ==> (#[trigger] g[i]).1 < bound,
    ensures
        lookup(g, name) matches Some(m) ==> m < bound,
    decreases g.len(),
{
    if g.len() > 0 {
        assert(g.last() == g[g.len() - 1]);
        assert forall|i: int| 0 <= i < g.drop_last().len() implies (#[trigger] g.drop_last()[i]).1 < bound by {
            assert(g.drop_last()[i] == g[i]);
        }
        lemma_lookup_bound(g.drop_last(), name, bound);
    }
}

/// A path added twice shares one mesh, loaded at most once: the second
/// addition reuses the first one's mesh and asks for no load, the first asks
/// for one exactly when the path was not registered yet, and the two objects
/// are distinct.
pub proof fn lemma_same_path_loads_once(
    v0: WindowView,
    v1: WindowView,
    v2: WindowView,
    path: Seq<char>,
    o1: Object,
    load1: bool,
    o2: Object,
    load2: bool,
)
    requires
        obj_added(v0, path, v1, o1, load1),
        obj_added(v1, path, v2, o2, load2),
    ensures
        o1@.mesh == o2@.mesh,
        !load2,
        load1 == (lookup(v0.geometries, path) is None),
        o1@.id != o2@.id,
{
    let g = v1.geometries;
    if lookup(v0.geometries, path) is None {
        assert(g.last().0@ == path);
        assert(lookup(g, path) == Some(o1@.mesh));
    }
}

/// Removing an object from a scene of distinct identities deletes exactly the
/// entry that is that object: one entry fewer, none left with its identity,
/// and every other entry, equal fields or not, still there.
pub proof fn lemma_remove_by_identity(s: Seq<(Object, ObjectData)>, o: Object, i: int)
    requires
        distinct_ids(s),
        0 <= i < s.len(),
        s[i].0@.id == o@.id,
    ensures
        is_last_match(s, o, i),
        swap_removed(s, i).len() == s.len() - 1,
        forall|j: int| 0 <= j < swap_removed(s, i).len() ==> (#[trigger] swap_removed(s, i)[j]).0@.id != o@.id,
        forall|k: int| 0 <= k < s.len() && k != i ==> swap_removed(s, i).contains(#[trigger] s[k]),
{
    let r = swap_removed(s, i);
    lemma_swap_removed_keeps(s, i);
    assert forall|j: int| 0 <= j < r.len() implies (#[trigger] r[j]).0@.id != o@.id by {
        let k = if j == i { s.len() - 1 } else { j };
        assert(r[j] == s[k]);
    }
    assert forall|k: int| 0 <= k < s.len() && k != i implies r.contains(#[trigger] s[k]) by {
        if k == s.len() - 1 {
            assert(r[i] == s[k]);
        } else {
            assert(r[k] == s[k]);
        }
    }
}

} // verus!

verus! {

/// How many draw calls of the object `id` the calls `s` hold.
pub open spec fn draws_of(s: Seq<RenderCommand>, id: u64) -> nat
    decreases s.len(),
{
    if s.len() == 0 {
        0
    } else {
        draws_of(s.drop_last(), id) + (if s.last() matches RenderCommand::DrawObject { object, .. } && object
            == id {
            1nat
        } else {
            0nat
        })
    }
}

proof fn lemma_draws_concat(a: Seq<RenderCommand>, b: Seq<RenderCommand>, id: u64)
    ensures
        draws_of(a + b, id) == draws_of(a, id) + draws_of(b, id),
    decreases b.len(),
{
    if b.len() == 0 {
        assert(a + b =~= a);
    } else {
        assert((a + b).drop_last() =~= a + b.drop_last());
        lemma_draws_concat(a, b.drop_last(), id);
    }
}

proof fn lemma_no_draw_commands(s: Seq<RenderCommand>, id: u64)
    requires
        forall|k: int| 0 <= k < s.len() ==> !(#[trigger] s[k] is DrawObject),
    ensures
        draws_of(s, id) == 0,
    decreases s.len(),
{
    if s.len() > 0 {
        assert(!(s[s.len() - 1] is DrawObject));
        assert forall|k: int| 0 <= k < s.drop_last().len() implies !(#[trigger] s.drop_last()[k] is DrawObject) by {
            assert(s.drop_last()[k] == s[k]);
        }
        lemma_no_draw_commands(s.drop_last(), id);
    }
}

proof fn lemma_upload_draws(e: (Object, ObjectData), id: u64)
    ensures
        draws_of(upload_calls(e.0@, e.1), id) == (if e.1.visible && e.0@.id == id { 1nat } else { 0nat }),
{
    reveal_with_fuel(draws_of, 2);
    if e.1.visible {
        assert(upload_calls(e.0@, e.1).drop_last() =~= Seq::<RenderCommand>::empty());
    }
}

proof fn lemma_objects_without_id(objs: Seq<(Object, ObjectData)>, id: u64)
    requires
        forall|k: int| 0 <= k < objs.len() ==> (#[trigger] objs[k]).0@.id != id,
    ensures
        draws_of(draw_calls(objs), id) == 0,
    decreases objs.len(),
{
    if objs.len() > 0 {
        assert(objs.last() == objs[objs.len() - 1]);
        assert forall|k: int| 0 <= k < objs.drop_last().len() implies (#[trigger] objs.drop_last()[k]).0@.id != id by {
            assert(objs.drop_last()[k] == objs[k]);
        }
        lemma_objects_without_id(objs.drop_last(), id);
        lemma_upload_draws(objs.last(), id);
        lemma_draws_concat(draw_calls(objs.drop_last()), upload_calls(objs.last().0@, objs.last().1), id);
    }
}

proof fn lemma_object_draws(objs: Seq<(Object, ObjectData)>, i: int)
    requires
        distinct_ids(objs),
        0 <= i < objs.len(),
    ensures
        draws_of(draw_calls(objs), objs[i].0@.id) == (if objs[i].1.visible { 1nat } else { 0nat }),
    decreases objs.len(),
{
    let id = objs[i].0@.id;
    let init = objs.drop_last();
    assert(objs.last() == objs[objs.len() - 1]);
    lemma_upload_draws(objs.last(), id);
    lemma_draws_concat(draw_calls(init), upload_calls(objs.last().0@, objs.last().1), id);
    if i == objs.len() - 1 {
        assert forall|k: int| 0 <= k < init.len() implies (#[trigger] init[k]).0@.id != id by {
            assert(init[k] == objs[k]);
        }
        lemma_objects_without_id(init, id);
    } else {
        assert(init[i] == objs[i]);
        assert forall|a: int, b: int| 0 <= a < init.len() && 0 <= b < init.len() && a != b implies init[a].0@.id
            != init[b].0@.id by {
            assert(init[a] == objs[a]);
            assert(init[b] == objs[b]);
        }
        lemma_object_draws(init, i);
    }
}

proof fn lemma_scene_draws(v: WindowView, lines: bool, i: int)
    requires
        distinct_ids(v.objects),
        0 <= i < v.objects.len(),
    ensures
        draws_of(scene_calls(v, lines), v.objects[i].0@.id) == (if v.objects[i].1.visible { 1nat } else { 0nat }),
{
    let id = v.objects[i].0@.id;
    let head = seq![RenderCommand::Clear] + (if lines {
        seq![
            RenderCommand::UseProgram(Program::Lines),
            RenderCommand::DrawLines,
            RenderCommand::UseProgram(Program::Object),
        ]
    } else {
        seq![]
    }) + seq![RenderCommand::PolygonMode(v.wireframe)];
    assert(scene_calls(v, lines) == head + draw_calls(v.objects));
    lemma_no_draw_commands(head, id);
    lemma_object_draws(v.objects, i);
    lemma_draws_concat(head, draw_calls(v.objects), id);
}

proof fn lemma_passes_draws(v: WindowView, n: nat, lines: bool, id: u64)
    ensures
        draws_of(passes_calls(v, n, lines), id) == n * draws_of(scene_calls(v, lines), id),
    decreases n,
{
    if n == 0 {
        assert(draws_of(Seq::<RenderCommand>::empty(), id) == 0);
    } else {
        let p = (n - 1) as usize;
        let head = seq![
            RenderCommand::StartPass(p),
            RenderCommand::UseProgram(Program::Lines),
            RenderCommand::UploadView(p),
            RenderCommand::UseProgram(Program::Object),
            RenderCommand::UploadView(p),
        ];
        let m = (n - 1) as nat;
        let x = draws_of(scene_calls(v, lines), id);
        assert(pass_calls(v, p, lines) == head + scene_calls(v, lines));
        lemma_no_draw_commands(head, id);
        lemma_draws_concat(head, scene_calls(v, lines), id);
        lemma_passes_draws(v, m, lines, id);
        lemma_draws_concat(passes_calls(v, m, lines), pass_calls(v, p, lines), id);
        assert(n * x == m * x + x) by (nonlinear_arith)
            requires
                n == m + 1,
        ;
    }
}

proof fn lemma_select_no_draws(b: Bindings, t: RenderTarget, id: u64)
    ensures
        draws_of(select_calls(b, t), id) == 0,
{
    let s = select_calls(b, t);
    assert forall|k: int| 0 <= k < s.len() implies !(#[trigger] s[k] is DrawObject) by {
        match t {
            RenderTarget::Screen => {},
            RenderTarget::Offscreen(o) => {
                let a = crate::framebuffers::bind_calls(b.curr_fbo, b.fbo);
                let c = if b.curr_color != o.texture {
                    seq![RenderCommand::AttachColor(o.texture)]
                } else {
                    seq![]
                };
                let d = if b.curr_depth != o.depth {
                    seq![RenderCommand::AttachDepth(o.depth)]
                } else {
                    seq![]
                };
                assert(s == a + c + d);
                if k < a.len() {
                    assert(s[k] == a[k]);
                } else if k < a.len() + c.len() {
                    assert(s[k] == (a + c)[k]);
                    assert((a + c)[k] == c[k - a.len()]);
                } else {
                    assert(s[k] == d[k - a.len() - c.len()]);
                }
            },
        }
    }
    lemma_no_draw_commands(s, id);
}

/// Visibility decides the draw calls: in a frame of `n` camera passes over a
/// scene of distinct objects, a visible object is drawn once per pass and an
/// invisible one not at all, so making an object visible again brings back
/// exactly its draw call in the next single-pass frame.
pub proof fn lemma_draws_follow_visibility(v: WindowView, n: nat, lines: bool, i: int)
    requires
        distinct_ids(v.objects),
        0 <= i < v.objects.len(),
    ensures
        draws_of(frame_calls(v, n, lines), v.objects[i].0@.id) == (if v.objects[i].1.visible { n } else { 0 }),
{
    let id = v.objects[i].0@.id;
    let sel = select_calls(v.bindings, frame_target(v));
    let passes = passes_calls(v, n, lines);
    let done = seq![RenderCommand::CompletePass];
    let post = post_calls(v);
    let present = seq![RenderCommand::Present];
    lemma_select_no_draws(v.bindings, frame_target(v), id);
    lemma_scene_draws(v, lines, i);
    lemma_passes_draws(v, n, lines, id);
    lemma_no_draw_commands(done, id);
    lemma_no_draw_commands(present, id);
    if v.post_processing {
        let fill = if v.wireframe {
            seq![RenderCommand::PolygonMode(false)]
        } else {
            seq![]
        };
        let back = select_calls(after_select(v.bindings, v.offscreen), RenderTarget::Screen);
        let fx = seq![
            RenderCommand::PostProcess { color: v.offscreen.spec_texture_id(), depth: v.offscreen.spec_depth_id() },
        ];
        lemma_no_draw_commands(fill, id);
        lemma_select_no_draws(after_select(v.bindings, v.offscreen), RenderTarget::Screen, id);
        lemma_no_draw_commands(fx, id);
        lemma_draws_concat(fill, back, id);
        lemma_draws_concat(fill + back, fx, id);
    } else {
        assert(draws_of(post, id) == 0);
    }
    lemma_draws_concat(sel, passes, id);
    lemma_draws_concat(sel + passes, done, id);
    lemma_draws_concat(sel + passes + done, post, id);
    lemma_draws_concat(sel + passes + done + post, present, id);
    assert(n * 1nat == n);
    assert(n * 0nat == 0);
}

} // verus!

verus! {

proof fn lemma_same_handles_keep_wf(a: WindowView, b: WindowView)
    requires
        b == (WindowView { objects: b.objects, ..a }),
        b.objects.len() == a.objects.len(),
        forall|k: int| 0 <= k < a.objects.len() ==> (#[trigger] b.objects[k]).0 == a.objects[k].0,
        distinct_ids(a.objects),
        forall|i: int| 0 <= i < a.objects.len() ==> (#[trigger] a.objects[i]).0@.id < a.next_object,
        forall|i: int| 0 <= i < a.objects.len() ==> (#[trigger] a.objects[i]).0@.mesh < a.next_mesh,
    ensures
        distinct_ids(b.objects),
        forall|i: int| 0 <= i < b.objects.len() ==> (#[trigger] b.objects[i]).0@.id < b.next_object,
        forall|i: int| 0 <= i < b.objects.len() ==> (#[trigger] b.objects[i]).0@.mesh < b.next_mesh,
{
    assert forall|i: int, j: int| 0 <= i < b.objects.len() && 0 <= j < b.objects.len() && i != j implies b.objects[i].0@.id
        != b.objects[j].0@.id by {
        assert(b.objects[i].0 == a.objects[i].0);
        assert(b.objects[j].0 == a.objects[j].0);
    }
    assert forall|i: int| 0 <= i < b.objects.len() implies (#[trigger] b.objects[i]).0@.id < b.next_object
        && b.objects[i].0@.mesh < b.next_mesh by {
        assert(b.objects[i].0 == a.objects[i].0);
    }
}

} // verus!

verus! {

/// A change made through one handle is seen through every equal handle: after
/// showing or hiding `o`, the entry of any handle `p` equal to `o` has the new
/// visibility and keeps its texture, and entries of other objects are untouched.
pub proof fn lemma_visibility_seen_through_equal_handles(
    s: Seq<(Object, ObjectData)>,
    o: Object,
    p: Object,
    v: bool,
    i: int,
)
    requires
        o == p,
        0 <= i < s.len(),
    ensures
        with_visible(s, o, v).len() == s.len(),
        s[i].0@.id == p@.id ==> with_visible(s, o, v)[i] == (s[i].0, ObjectData { visible: v, texture: s[i].1.texture }),
        s[i].0@.id != p@.id ==> with_visible(s, o, v)[i] == s[i],
{
}

/// A new object is distinct from every object already in the scene: the
/// window gives it an identity that no entry holds.
pub proof fn lemma_new_object_is_fresh(old: WindowView, new: WindowView, o: Object, mesh: u64)
    requires
        forall|i: int| 0 <= i < old.objects.len() ==> (#[trigger] old.objects[i]).0@.id < old.next_object,
        object_added(old, new, o, mesh),
    ensures
        forall|i: int| 0 <= i < old.objects.len() ==> (#[trigger] old.objects[i]).0@.id != o@.id,
        distinct_ids(old.objects) ==> distinct_ids(new.objects),
{
    let s = new.objects;
    if distinct_ids(old.objects) {
        assert forall|a: int, b: int| 0 <= a < s.len() && 0 <= b < s.len() && a != b implies s[a].0@.id
            != s[b].0@.id by {
            if a < s.len() - 1 {
                assert(s[a] == old.objects[a]);
            }
            if b < s.len() - 1 {
                assert(s[b] == old.objects[b]);
            }
        }
    }
}

} // verus!
