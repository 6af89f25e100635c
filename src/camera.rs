//! The first-person camera's control logic: which state changes an event or a
//! frame's held keys cause, and where its cached view-projection matrix and
//! inverse are recomputed.
use vstd::prelude::*;
use crate::event::Event;

verus! {

/// One step that the camera performs on its own state.
#[derive(Clone, Copy, Debug, PartialEq, Eq, Structural)]
pub enum CameraStep {
    /// Left drag: yaw and pitch grow with the cursor displacement.
    Look,
    /// Right drag: the eye moves on the plane orthogonal to the view direction.
    Pan,
    /// Scroll: the eye moves along the view direction.
    Zoom,
    /// Resize: the projection is rebuilt for the new aspect ratio.
    Reproject,
    /// Held up key: the eye moves one step forward.
    MoveForward,
    /// Held down key: the eye moves one step backward.
    MoveBackward,
    /// Held right key: the eye moves one step to the right.
    StrafeRight,
    /// Held left key: the eye moves one step to the left.
    StrafeLeft,
    /// The pitch is clamped away from the poles.
    ClampPitch,
    /// The view-projection matrix and its inverse are recomputed.
    Recompute,
    /// The cursor position is remembered for the next displacement.
    RecordCursor,
}

/// The keys that move a first-person camera, as held during a frame.
#[derive(Clone, Copy, Debug, PartialEq, Eq, Structural)]
pub struct HeldKeys {
    pub up: bool,
    pub down: bool,
    pub right: bool,
    pub left: bool,
}

/// Whether a step changes the camera's position, orientation or projection.
pub open spec fn is_mutation(s: CameraStep) -> bool {
    !(s is ClampPitch || s is Recompute || s is RecordCursor)
}

/// A handler that changes the camera: the change, the pitch clamp, then one
/// recomputation.
pub open spec fn handler_steps(m: CameraStep) -> Seq<CameraStep> {
    seq![m, CameraStep::ClampPitch, CameraStep::Recompute]
}

/// `s` when `b` holds, nothing otherwise.
pub open spec fn when(b: bool, s: Seq<CameraStep>) -> Seq<CameraStep> {
    if b {
        s
    } else {
        seq![]
    }
}

/// The steps a first-person camera performs for `e`, with the left and right
/// mouse buttons pressed as given.
pub open spec fn event_steps(e: Event, left: bool, right: bool) -> Seq<CameraStep> {
    match e {
        Event::CursorPos => when(left, handler_steps(CameraStep::Look)) + when(
            right,
            handler_steps(CameraStep::Pan),
        ) + seq![CameraStep::RecordCursor],
        Event::Scroll => handler_steps(CameraStep::Zoom),
        Event::FramebufferSize(_, _) => seq![CameraStep::Reproject, CameraStep::Recompute],
        _ => seq![],
    }
}

/// The steps of a first-person camera's per-frame update with `k` held.
pub open spec fn update_steps(k: HeldKeys) -> Seq<CameraStep> {
    when(k.up, seq![CameraStep::MoveForward]) + when(k.down, seq![CameraStep::MoveBackward])
        + when(k.right, seq![CameraStep::StrafeRight]) + when(k.left, seq![CameraStep::StrafeLeft])
        + seq![CameraStep::ClampPitch, CameraStep::Recompute]
}

/// The number of mutating camera operations that `e` triggers: one per
/// pressed drag button for a cursor move, one for a scroll or a resize.
pub open spec fn event_operations(e: Event, left: bool, right: bool) -> nat {
    match e {
        Event::CursorPos => (if left { 1nat } else { 0nat }) + (if right { 1nat } else { 0nat }),
        Event::Scroll => 1,
        Event::FramebufferSize(_, _) => 1,
        _ => 0,
    }
}

/// How many times `s` recomputes the cached matrices.
pub open spec fn recomputes(s: Seq<CameraStep>) -> nat
    decreases s.len(),
{
    if s.len() == 0 {
        0
    } else {
        (if s[0] is Recompute { 1nat } else { 0nat }) + recomputes(s.drop_first())
    }
}

/// The steps a first-person camera performs for `event`, with the left and
/// right mouse buttons pressed as given.
pub fn first_person_event_steps(event: &Event, left_pressed: bool, right_pressed: bool) -> (r: Vec<CameraStep>)
    ensures
        r@ == event_steps(*event, left_pressed, right_pressed),
{
    let mut steps: Vec<CameraStep> = Vec::new();
    match event {
        Event::CursorPos => {
            if left_pressed {
                push_handler(&mut steps, CameraStep::Look);
            }
            if right_pressed {
                push_handler(&mut steps, CameraStep::Pan);
            }
            steps.push(CameraStep::RecordCursor);
        },
        Event::Scroll => {
            push_handler(&mut steps, CameraStep::Zoom);
        },
        Event::FramebufferSize(_, _) => {
            steps.push(CameraStep::Reproject);
            steps.push(CameraStep::Recompute);
        },
        _ => {},
    }
    proof {
        assert(steps@ =~= event_steps(*event, left_pressed, right_pressed));
    }
    steps
}

/// The steps of one mutating camera operation `m` (a look, a pan, a zoom or a
/// move): the change itself, the pitch clamp, then one recomputation.
pub fn operation_steps(m: CameraStep) -> (r: Vec<CameraStep>)
    requires
        is_mutation(m),
    ensures
        r@ == handler_steps(m),
{
    let mut steps: Vec<CameraStep> = Vec::new();
    push_handler(&mut steps, m);
    proof {
        assert(steps@ =~= handler_steps(m));
    }
    steps
}

fn push_handler(steps: &mut Vec<CameraStep>, m: CameraStep)
    ensures
        final(steps)@ == old(steps)@ + handler_steps(m),
{
    steps.push(m);
    steps.push(CameraStep::ClampPitch);
    steps.push(CameraStep::Recompute);
    proof {
        assert(steps@ =~= old(steps)@ + handler_steps(m));
    }
}

/// The steps of a first-person camera's per-frame update with `keys` held:
/// one move per held key, then the pitch clamp and one recomputation.
pub fn first_person_update_steps(keys: HeldKeys) -> (r: Vec<CameraStep>)
    ensures
        r@ == update_steps(keys),
{
    let mut steps: Vec<CameraStep> = Vec::new();
    if keys.up {
        steps.push(CameraStep::MoveForward);
    }
    if keys.down {
        steps.push(CameraStep::MoveBackward);
    }
    if keys.right {
        steps.push(CameraStep::StrafeRight);
    }
    if keys.left {
        steps.push(CameraStep::StrafeLeft);
    }
    steps.push(CameraStep::ClampPitch);
    steps.push(CameraStep::Recompute);
    proof {
        assert(steps@ =~= update_steps(keys));
    }
    steps
}

proof fn lemma_recomputes_concat(a: Seq<CameraStep>, b: Seq<CameraStep>)
    ensures
        recomputes(a + b) == recomputes(a) + recomputes(b),
    decreases a.len(),
{
    if a.len() > 0 {
        assert((a + b).drop_first() =~= a.drop_first() + b);
        lemma_recomputes_concat(a.drop_first(), b);
    } else {
        assert(a + b =~= b);
    }
}

proof fn lemma_recomputes_one(x: CameraStep)
    ensures
        recomputes(seq![x]) == (if x is Recompute { 1nat } else { 0nat }),
{
    reveal_with_fuel(recomputes, 2);
    assert(seq![x].drop_first() =~= Seq::<CameraStep>::empty());
}

proof fn lemma_recomputes_when(b: bool, x: CameraStep)
    ensures
        recomputes(when(b, seq![x])) == (if b && x is Recompute { 1nat } else { 0nat }),
{
    lemma_recomputes_one(x);
    if !b {
        assert(recomputes(Seq::<CameraStep>::empty()) == 0);
    }
}

proof fn lemma_handler(m: CameraStep)
    requires
        is_mutation(m),
    ensures
        recomputes(handler_steps(m)) == 1,
{
    lemma_recomputes_one(m);
    lemma_recomputes_one(CameraStep::ClampPitch);
    lemma_recomputes_one(CameraStep::Recompute);
    assert(handler_steps(m) =~= seq![m] + seq![CameraStep::ClampPitch] + seq![CameraStep::Recompute]);
    lemma_recomputes_concat(seq![m], seq![CameraStep::ClampPitch]);
    lemma_recomputes_concat(seq![m] + seq![CameraStep::ClampPitch], seq![CameraStep::Recompute]);
}

/// The camera's cache discipline: for any event and any pressed buttons, the
/// matrices are recomputed exactly once per mutating operation the event
/// triggers, and never for an event that changes nothing; a per-frame update
/// recomputes them exactly once, whatever keys are held.
pub proof fn lemma_one_recompute_per_operation(e: Event, left: bool, right: bool, k: HeldKeys)
    ensures
        recomputes(event_steps(e, left, right)) == event_operations(e, left, right),
        recomputes(update_steps(k)) == 1,
{
    let empty = Seq::<CameraStep>::empty();
    assert(recomputes(empty) == 0);
    match e {
        Event::CursorPos => {
            let look = when(left, handler_steps(CameraStep::Look));
            let pan = when(right, handler_steps(CameraStep::Pan));
            let rec = seq![CameraStep::RecordCursor];
            lemma_handler(CameraStep::Look);
            lemma_handler(CameraStep::Pan);
            lemma_recomputes_one(CameraStep::RecordCursor);
            lemma_recomputes_concat(look, pan);
            lemma_recomputes_concat(look + pan, rec);
        },
        Event::Scroll => {
            lemma_handler(CameraStep::Zoom);
        },
        Event::FramebufferSize(_, _) => {
            lemma_recomputes_one(CameraStep::Reproject);
            lemma_recomputes_one(CameraStep::Recompute);
            assert(seq![CameraStep::Reproject, CameraStep::Recompute] =~= seq![CameraStep::Reproject]
                + seq![CameraStep::Recompute]);
            lemma_recomputes_concat(seq![CameraStep::Reproject], seq![CameraStep::Recompute]);
        },
        _ => {},
    }
    let m1 = when(k.up, seq![CameraStep::MoveForward]);
    let m2 = when(k.down, seq![CameraStep::MoveBackward]);
    let m3 = when(k.right, seq![CameraStep::StrafeRight]);
    let m4 = when(k.left, seq![CameraStep::StrafeLeft]);
    let tail = seq![CameraStep::ClampPitch, CameraStep::Recompute];
    lemma_recomputes_when(k.up, CameraStep::MoveForward);
    lemma_recomputes_when(k.down, CameraStep::MoveBackward);
    lemma_recomputes_when(k.right, CameraStep::StrafeRight);
    lemma_recomputes_when(k.left, CameraStep::StrafeLeft);
    lemma_recomputes_concat(m1, m2);
    lemma_recomputes_concat(m1 + m2, m3);
    lemma_recomputes_concat(m1 + m2 + m3, m4);
    lemma_recomputes_concat(m1 + m2 + m3 + m4, tail);
    lemma_recomputes_one(CameraStep::ClampPitch);
    lemma_recomputes_one(CameraStep::Recompute);
    assert(tail =~= seq![CameraStep::ClampPitch] + seq![CameraStep::Recompute]);
    lemma_recomputes_concat(seq![CameraStep::ClampPitch], seq![CameraStep::Recompute]);
}

} // verus!
