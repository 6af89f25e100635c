use kiss3d::command::{RenderCommand, TextureFormat};
use kiss3d::framebuffers::{FramebuffersManager, RenderTarget};

#[test]
fn selecting_the_same_target_twice_binds_once() {
    let mut manager = FramebuffersManager::new(7);
    let target = FramebuffersManager::new_render_target(3, 4);
    let first = manager.select(&target);
    assert_eq!(
        first,
        vec![
            RenderCommand::BindFramebuffer(7),
            RenderCommand::AttachColor(3),
            RenderCommand::AttachDepth(4),
        ]
    );
    let second = manager.select(&target);
    assert!(second.is_empty());
}

#[test]
fn selecting_the_screen_when_it_is_bound_issues_nothing() {
    let mut manager = FramebuffersManager::new(7);
    assert!(manager.select(&FramebuffersManager::screen()).is_empty());
    assert!(manager.select(&RenderTarget::Screen).is_empty());
}

#[test]
fn switching_back_and_forth_rebinds_each_time() {
    let mut manager = FramebuffersManager::new(7);
    let target = FramebuffersManager::new_render_target(3, 4);
    manager.select(&target);
    assert_eq!(manager.select(&RenderTarget::Screen), vec![RenderCommand::BindFramebuffer(0)]);
    assert_eq!(
        manager.select(&target),
        vec![
            RenderCommand::BindFramebuffer(7),
            RenderCommand::AttachColor(3),
            RenderCommand::AttachDepth(4),
        ]
    );
}

#[test]
fn attachments_already_in_place_are_not_rebound() {
    let mut manager = FramebuffersManager::new(7);
    let a = FramebuffersManager::new_render_target(3, 4);
    let b = FramebuffersManager::new_render_target(3, 9);
    manager.select(&a);
    assert_eq!(manager.select(&b), vec![RenderCommand::AttachDepth(9)]);
}

#[test]
fn handles_of_targets() {
    let target = FramebuffersManager::new_render_target(3, 4);
    assert_eq!(target.texture_id(), 3);
    assert_eq!(target.depth_id(), 4);
    let screen = FramebuffersManager::screen();
    assert_eq!(screen.texture_id(), 0);
    assert_eq!(screen.depth_id(), 0);
}

#[test]
fn resizing_keeps_handles() {
    let mut target = FramebuffersManager::new_render_target(3, 4);
    let calls = target.resize(640, 480);
    assert_eq!(
        calls,
        vec![
            RenderCommand::AllocTexture { handle: 3, format: TextureFormat::Color, width: 640, height: 480 },
            RenderCommand::AllocTexture { handle: 4, format: TextureFormat::Depth, width: 640, height: 480 },
        ]
    );
    assert_eq!(target.texture_id(), 3);
    assert_eq!(target.depth_id(), 4);
    let mut screen = RenderTarget::Screen;
    assert_eq!(screen.resize(800, 600), vec![RenderCommand::Viewport(800, 600)]);
}

#[test]
fn releasing_binds_the_screen_first() {
    let manager = FramebuffersManager::new(7);
    assert_eq!(
        manager.release(),
        vec![RenderCommand::BindFramebuffer(0), RenderCommand::DeleteFramebuffer(7)]
    );
    let target = FramebuffersManager::new_render_target(3, 4);
    assert_eq!(target.release(), vec![RenderCommand::DeleteTexture(3), RenderCommand::DeleteTexture(4)]);
    assert!(RenderTarget::Screen.release().is_empty());
}
