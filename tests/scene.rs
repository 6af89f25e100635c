use kiss3d::command::{Program, RenderCommand, TextureFormat};
use kiss3d::event::{Event, KEY_ESCAPE};
use kiss3d::object::ObjectData;
use kiss3d::window::Window;

fn window() -> Window {
    Window::new(7, 3, 4, 11)
}

fn draws_of(calls: &[RenderCommand], id: u64) -> usize {
    calls
        .iter()
        .filter(|c| matches!(c, RenderCommand::DrawObject { object, .. } if *object == id))
        .count()
}

#[test]
fn same_mesh_path_loads_once_and_shares_the_mesh() {
    let mut w = window();
    let (a, load_a) = w.add_obj("media/teapot.obj");
    let (b, load_b) = w.add_obj("media/teapot.obj");
    assert!(load_a);
    assert!(!load_b);
    assert_eq!(a.mesh(), b.mesh());
    assert!(a != b);
    assert_eq!(w.objects().len(), 2);
    let (c, load_c) = w.add_obj("media/cube.obj");
    assert!(load_c);
    assert_ne!(c.mesh(), a.mesh());
}

#[test]
fn registered_geometry_is_found_by_name() {
    let mut w = window();
    assert_eq!(w.geometry("cube"), None);
    let (cube, load) = w.register_geometry("cube");
    assert!(load);
    assert_eq!(w.geometry("cube"), Some(cube));
    assert_eq!(w.register_geometry("cube"), (cube, false));
}

#[test]
fn builtin_shapes_need_their_geometry() {
    let mut w = window();
    assert!(w.add_cube().is_none());
    assert!(w.add_sphere().is_none());
    assert!(w.objects().is_empty());
    let (cube, _) = w.register_geometry("cube");
    let (sphere, _) = w.register_geometry("sphere");
    let (cone, _) = w.register_geometry("cone");
    let (cylinder, _) = w.register_geometry("cylinder");
    let (capsule, _) = w.register_geometry("capsule");
    assert_eq!(w.add_cube().unwrap().mesh(), cube);
    assert_eq!(w.add_sphere().unwrap().mesh(), sphere);
    assert_eq!(w.add_cone().unwrap().mesh(), cone);
    assert_eq!(w.add_cylinder().unwrap().mesh(), cylinder);
    let o = w.add_capsule().unwrap();
    assert_eq!(o.mesh(), capsule);
    assert_eq!(w.object_data(&o), Some(ObjectData { texture: 11, visible: true }));
    assert_eq!(w.objects().len(), 5);
}

#[test]
fn quad_of_four_by_four_has_25_vertices_and_32_triangles() {
    let mut w = window();
    let (o, topology) = w.add_quad(4, 4);
    assert_eq!(topology.grid.len(), (4 + 1) * (4 + 1));
    assert_eq!(topology.triangles.len(), 4 * 4 * 2);
    assert_eq!(topology.grid[0], (0, 0));
    assert_eq!(topology.grid[6], (1, 1));
    assert_eq!(topology.grid[24], (4, 4));
    assert_eq!(topology.triangles[0], (5, 0, 6));
    assert_eq!(topology.triangles[1], (0, 1, 6));
    assert_eq!(topology.triangles[30], (23, 18, 24));
    assert_eq!(topology.triangles[31], (18, 19, 24));
    assert_eq!(w.objects(), vec![o]);
}

#[test]
fn quad_meshes_are_never_shared() {
    let mut w = window();
    let (a, _) = w.add_quad(1, 1);
    let (b, topology) = w.add_quad(2, 1);
    assert_ne!(a.mesh(), b.mesh());
    assert_eq!(topology.grid.len(), 6);
    assert_eq!(topology.triangles, vec![(3, 0, 4), (0, 1, 4), (4, 1, 5), (1, 2, 5)]);
}

#[test]
fn removing_by_identity_keeps_equal_looking_objects() {
    let mut w = window();
    w.register_geometry("cube");
    let a = w.add_cube().unwrap();
    let b = w.add_cube().unwrap();
    let c = w.add_cube().unwrap();
    w.remove(a);
    assert_eq!(w.objects().len(), 2);
    assert_eq!(w.objects()[0].id(), c.id());
    assert_eq!(w.objects()[1].id(), b.id());
    w.remove(a);
    assert_eq!(w.objects().len(), 2);
    w.remove(b);
    assert_eq!(w.objects().len(), 1);
    assert_eq!(w.objects()[0].id(), c.id());
}

#[test]
fn objects_are_equal_only_to_themselves() {
    let mut w = window();
    let (a, _) = w.add_obj("a.obj");
    let (b, _) = w.add_obj("a.obj");
    let a2 = a;
    assert!(a == a2);
    assert!(a != b);
    assert_eq!(a.mesh(), b.mesh());
}

#[test]
fn a_change_through_one_handle_is_seen_through_its_copies() {
    let mut w = window();
    let (a, _) = w.add_obj("a.obj");
    let (b, _) = w.add_obj("a.obj");
    let copy = a;
    w.set_visible(&a, false);
    assert_eq!(w.object_data(&copy), Some(ObjectData { texture: 11, visible: false }));
    assert_eq!(w.object_data(&b), Some(ObjectData { texture: 11, visible: true }));
    w.set_texture(&copy, 8);
    assert_eq!(w.object_data(&a), Some(ObjectData { texture: 8, visible: false }));
    assert_eq!(w.object_data(&b), Some(ObjectData { texture: 11, visible: true }));
}

#[test]
fn a_removed_object_has_no_data() {
    let mut w = window();
    let (a, _) = w.add_obj("a.obj");
    w.remove(a);
    assert_eq!(w.object_data(&a), None);
    w.set_visible(&a, false);
    assert!(w.objects().is_empty());
}

#[test]
fn invisible_objects_are_not_drawn() {
    let mut w = window();
    w.register_geometry("cube");
    let a = w.add_cube().unwrap();
    let b = w.add_cube().unwrap();
    w.set_visible(&a, false);
    let frame = w.draw(1, false);
    assert_eq!(draws_of(&frame, a.id()), 0);
    assert_eq!(draws_of(&frame, b.id()), 1);
    w.set_visible(&a, true);
    let frame = w.draw(1, false);
    assert_eq!(draws_of(&frame, a.id()), 1);
    assert_eq!(draws_of(&frame, b.id()), 1);
}

#[test]
fn upload_of_an_object() {
    let mut w = window();
    let (o, _) = w.add_obj("a.obj");
    let data = ObjectData { texture: 6, visible: true };
    assert_eq!(o.upload(&data), vec![RenderCommand::DrawObject { object: o.id(), mesh: o.mesh(), texture: 6 }]);
    assert!(o.upload(&ObjectData { texture: 6, visible: false }).is_empty());
}

#[test]
fn frame_on_screen() {
    let mut w = window();
    let (o, _) = w.add_obj("a.obj");
    let frame = w.draw(1, false);
    assert_eq!(
        frame,
        vec![
            RenderCommand::StartPass(0),
            RenderCommand::UseProgram(Program::Lines),
            RenderCommand::UploadView(0),
            RenderCommand::UseProgram(Program::Object),
            RenderCommand::UploadView(0),
            RenderCommand::Clear,
            RenderCommand::PolygonMode(false),
            RenderCommand::DrawObject { object: o.id(), mesh: o.mesh(), texture: 11 },
            RenderCommand::CompletePass,
            RenderCommand::Present,
        ]
    );
}

#[test]
fn frame_with_post_processing_and_lines() {
    let mut w = window();
    w.set_post_processing_effect(true);
    w.set_wireframe_mode(true);
    assert!(w.post_processing());
    assert!(w.wireframe_mode());
    let frame = w.draw(2, true);
    let scene = vec![
        RenderCommand::Clear,
        RenderCommand::UseProgram(Program::Lines),
        RenderCommand::DrawLines,
        RenderCommand::UseProgram(Program::Object),
        RenderCommand::PolygonMode(true),
    ];
    let mut expected = vec![
        RenderCommand::BindFramebuffer(7),
        RenderCommand::AttachColor(3),
        RenderCommand::AttachDepth(4),
    ];
    for pass in 0..2 {
        expected.push(RenderCommand::StartPass(pass));
        expected.push(RenderCommand::UseProgram(Program::Lines));
        expected.push(RenderCommand::UploadView(pass));
        expected.push(RenderCommand::UseProgram(Program::Object));
        expected.push(RenderCommand::UploadView(pass));
        expected.extend(scene.iter().copied());
    }
    expected.push(RenderCommand::CompletePass);
    expected.push(RenderCommand::PolygonMode(false));
    expected.push(RenderCommand::BindFramebuffer(0));
    expected.push(RenderCommand::PostProcess { color: 3, depth: 4 });
    expected.push(RenderCommand::Present);
    assert_eq!(frame, expected);
    let next = w.draw(1, false);
    assert_eq!(next[0], RenderCommand::BindFramebuffer(7));
    assert_eq!(next[1], RenderCommand::AttachColor(3));
}

#[test]
fn frame_cap_of_50_sleeps_the_rest_of_20_ms() {
    let mut w = window();
    assert_eq!(w.frame_sleep_ms(5), 0);
    assert_eq!(w.frame_sleep_ms(1_000_000), 0);
    w.set_framerate_limit(Some(50));
    assert_eq!(w.frame_sleep_ms(5), 15);
    assert_eq!(w.frame_sleep_ms(20), 0);
    assert_eq!(w.frame_sleep_ms(35), 0);
    w.set_framerate_limit(Some(60));
    assert_eq!(w.frame_sleep_ms(0), 16);
    w.set_framerate_limit(None);
    assert_eq!(w.frame_sleep_ms(5), 0);
}

#[test]
fn escape_release_closes_and_reaches_the_camera() {
    let mut w = window();
    assert!(!w.should_close());
    let (calls, forward) = w.default_event_handling(&Event::KeyPressed(KEY_ESCAPE));
    assert!(calls.is_empty());
    assert!(forward);
    assert!(!w.should_close());
    let (calls, forward) = w.default_event_handling(&Event::KeyReleased(KEY_ESCAPE));
    assert!(calls.is_empty());
    assert!(forward);
    assert!(w.should_close());
}

#[test]
fn resize_adapts_viewport_and_offscreen_target() {
    let mut w = window();
    let (calls, forward) = w.default_event_handling(&Event::FramebufferSize(640, 480));
    assert!(forward);
    assert_eq!(
        calls,
        vec![
            RenderCommand::Scissor(640, 480),
            RenderCommand::Viewport(640, 480),
            RenderCommand::AllocTexture { handle: 3, format: TextureFormat::Color, width: 640, height: 480 },
            RenderCommand::AllocTexture { handle: 4, format: TextureFormat::Depth, width: 640, height: 480 },
        ]
    );
    let (calls, forward) = w.default_event_handling(&Event::Scroll);
    assert!(calls.is_empty());
    assert!(forward);
}

#[test]
fn close_asks_the_loop_to_stop() {
    let mut w = window();
    w.close();
    assert!(w.should_close());
}

#[test]
fn releasing_the_window_frees_its_targets() {
    let w = window();
    assert_eq!(
        w.release(),
        vec![
            RenderCommand::BindFramebuffer(0),
            RenderCommand::DeleteFramebuffer(7),
            RenderCommand::DeleteTexture(3),
            RenderCommand::DeleteTexture(4),
        ]
    );
}

#[test]
fn each_pass_draws_each_visible_object_once() {
    let mut w = window();
    let (a, _) = w.add_obj("a.obj");
    let (b, _) = w.add_obj("b.obj");
    w.set_visible(&b, false);
    let frame = w.draw(3, false);
    assert_eq!(draws_of(&frame, a.id()), 3);
    assert_eq!(draws_of(&frame, b.id()), 0);
    let none = w.draw(0, false);
    assert_eq!(draws_of(&none, a.id()), 0);
    assert_eq!(none, vec![RenderCommand::CompletePass, RenderCommand::Present]);
}
