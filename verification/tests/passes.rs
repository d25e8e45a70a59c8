use render_task::passes::{RenderPass, RenderPassKind};
use render_task::task::{BlitSource, RenderTask, RenderTaskId, RenderTaskLocation};
use render_task::tree::{RenderTaskTree, RenderTaskTreeCounters};
use render_task::types::{FrameId, RenderTargetKind};
use render_task::units::DeviceIntSize;
use render_task::keys::{ImageCacheKey, ImageKey, ImageRendering, ImageRequest};

fn image_source() -> BlitSource {
    BlitSource::Image {
        key: ImageCacheKey {
            request: ImageRequest {
                key: ImageKey { namespace: 1, id: 2 },
                rendering: ImageRendering::Auto,
                tile: None,
            },
            texel_rect: None,
        },
    }
}

fn new_tree() -> RenderTaskTree {
    RenderTaskTree::new(FrameId::first(), &RenderTaskTreeCounters::new())
}

fn leaf(tree: &mut RenderTaskTree, side: i32) -> RenderTaskId {
    tree.add(RenderTask::new_blit(DeviceIntSize::new(side, side), image_source()))
}

fn over(tree: &mut RenderTaskTree, side: i32, child: RenderTaskId) -> RenderTaskId {
    tree.add(RenderTask::new_blit(
        DeviceIntSize::new(side, side),
        BlitSource::RenderTask { task_id: child },
    ))
}

fn ids(pass: &RenderPass) -> Vec<u32> {
    pass.tasks.iter().map(|t| t.id.index).collect()
}

#[test]
fn chain_of_three_needs_three_passes() {
    let mut tree = new_tree();
    let c = leaf(&mut tree, 8);
    let b = over(&mut tree, 16, c);
    let a = over(&mut tree, 32, b);
    let screen = DeviceIntSize::new(800, 600);
    let mut passes = vec![RenderPass::new_main_framebuffer(screen, true)];
    tree.assign_to_passes(a, 0, screen, &mut passes, true);
    assert_eq!(passes.len(), 3);
    assert_eq!(ids(&passes[0]), vec![a.index]);
    assert_eq!(ids(&passes[1]), vec![b.index]);
    assert_eq!(ids(&passes[2]), vec![c.index]);
    assert_eq!(passes[0].kind, RenderPassKind::MainFramebuffer);
    assert_eq!(passes[1].kind, RenderPassKind::OffScreen);
    assert_eq!(passes[2].screen_size, screen);
    assert!(passes[2].gpu_supports_fast_clears);
}

#[test]
fn task_without_dependencies_adds_no_pass() {
    let mut tree = new_tree();
    let a = leaf(&mut tree, 8);
    let screen = DeviceIntSize::new(800, 600);
    let mut passes = vec![RenderPass::new_main_framebuffer(screen, false)];
    tree.assign_to_passes(a, 0, screen, &mut passes, false);
    assert_eq!(passes.len(), 1);
    assert_eq!(passes[0].tasks.len(), 1);
    let entry = passes[0].tasks[0];
    assert_eq!(entry.id, a);
    assert_eq!(entry.size, DeviceIntSize::new(8, 8));
    assert_eq!(entry.target_kind, RenderTargetKind::Color);
    assert!(matches!(entry.location, RenderTaskLocation::Dynamic(None, _)));
}

#[test]
fn dependencies_are_registered_before_the_task_and_one_pass_later() {
    let mut tree = new_tree();
    let c1 = leaf(&mut tree, 8);
    let c2 = leaf(&mut tree, 9);
    let mut parent = RenderTask::new_blit(DeviceIntSize::new(32, 32), image_source());
    parent.children.push(c1);
    parent.children.push(c2);
    let a = tree.add(parent);
    let screen = DeviceIntSize::new(100, 100);
    let mut passes = vec![
        RenderPass::new_main_framebuffer(screen, true),
        RenderPass::new_off_screen(screen, true),
    ];
    tree.assign_to_passes(a, 1, screen, &mut passes, true);
    assert_eq!(passes.len(), 3);
    assert!(passes[0].tasks.is_empty());
    assert_eq!(ids(&passes[1]), vec![a.index]);
    assert_eq!(ids(&passes[2]), vec![c1.index, c2.index]);
}

#[test]
fn shared_dependency_is_registered_once_per_path() {
    let mut tree = new_tree();
    let d = leaf(&mut tree, 8);
    let b = over(&mut tree, 16, d);
    let mut top = RenderTask::new_blit(DeviceIntSize::new(32, 32), image_source());
    top.children.push(b);
    top.children.push(d);
    let a = tree.add(top);
    let screen = DeviceIntSize::new(100, 100);
    let mut passes = vec![RenderPass::new_main_framebuffer(screen, true)];
    tree.assign_to_passes(a, 0, screen, &mut passes, true);
    assert_eq!(passes.len(), 3);
    assert_eq!(ids(&passes[0]), vec![a.index]);
    assert_eq!(ids(&passes[1]), vec![b.index, d.index]);
    assert_eq!(ids(&passes[2]), vec![d.index]);
}

#[test]
fn deep_chain_is_assigned_without_deep_calls() {
    let mut tree = new_tree();
    let mut last = leaf(&mut tree, 8);
    for _ in 0..20000 {
        last = over(&mut tree, 8, last);
    }
    let screen = DeviceIntSize::new(100, 100);
    let mut passes = vec![RenderPass::new_main_framebuffer(screen, true)];
    tree.assign_to_passes(last, 0, screen, &mut passes, true);
    assert_eq!(passes.len(), 20001);
    assert_eq!(ids(&passes[20000]), vec![0]);
}

#[test]
fn tree_counts_addresses_and_saved_targets() {
    let mut tree = new_tree();
    let a = leaf(&mut tree, 8);
    let b = over(&mut tree, 8, a);
    assert_eq!(a.index, 0);
    assert_eq!(b.index, 1);
    assert_eq!(b.frame_id, FrameId::first());
    assert_eq!(tree.frame_id(), FrameId::first());
    assert_eq!(tree.get_task_address(b).0, 1);
    assert_eq!(tree.save_target().0, 0);
    assert_eq!(tree.save_target().0, 1);
    assert_eq!(tree.index(b).children, vec![a]);
    tree.index_mut(a).mark_for_saving();
    assert!(tree.index(a).saved_index.is_some());
    tree.write_task_data();
    assert_eq!(tree.task_data.len(), 2);
    tree.prepare_for_render();
    let next = RenderTaskTree::new(FrameId(2), &tree.counters());
    assert!(next.tasks.is_empty());
    assert!(next.tasks.capacity() >= 2);
}

#[test]
fn acyclic_trees_are_recognised_whatever_the_order_of_their_tasks() {
    let mut tree = new_tree();
    assert!(tree.forms_dag());
    let a = leaf(&mut tree, 8);
    let b = leaf(&mut tree, 8);
    let c = over(&mut tree, 8, b);
    assert!(tree.forms_dag());
    // A dependency added later, on a task of larger index.
    tree.index_mut(a).children.push(c);
    assert!(tree.forms_dag());
    tree.index_mut(a).children.push(b);
    assert!(tree.forms_dag());
}

#[test]
fn cycles_and_foreign_identifiers_are_refused() {
    let mut tree = new_tree();
    let a = leaf(&mut tree, 8);
    let b = over(&mut tree, 8, a);
    let c = over(&mut tree, 8, b);
    tree.index_mut(a).children.push(c);
    assert!(!tree.forms_dag());

    let mut own = new_tree();
    let d = leaf(&mut own, 8);
    own.index_mut(d).children.push(d);
    assert!(!own.forms_dag());

    let mut dangling = new_tree();
    let e = leaf(&mut dangling, 8);
    dangling
        .index_mut(e)
        .children
        .push(RenderTaskId { index: 7, frame_id: FrameId::first() });
    assert!(!dangling.forms_dag());

    let mut stale = new_tree();
    let f = leaf(&mut stale, 8);
    let g = leaf(&mut stale, 8);
    stale.index_mut(g).children.push(RenderTaskId { index: f.index, frame_id: FrameId(9) });
    assert!(!stale.forms_dag());
}
