use render_task::keys::{ImageCacheKey, ImageKey, ImageRendering, ImageRequest};
use render_task::print::{PrintEvent, PrintItem, PrintLabel};
use render_task::task::{BlitSource, ClearMode, RenderTask, RenderTaskId};
use render_task::tree::{RenderTaskTree, RenderTaskTreeCounters};
use render_task::types::{FrameId, RenderTargetKind};
use render_task::units::DeviceIntSize;

fn image_source() -> BlitSource {
    BlitSource::Image {
        key: ImageCacheKey {
            request: ImageRequest {
                key: ImageKey { namespace: 1, id: 2 },
                rendering: ImageRendering::Auto,
                tile: None,
            },
            texel_rect: None,
        },
    }
}

fn shape(events: &[PrintEvent]) -> Vec<String> {
    events
        .iter()
        .map(|e| match e {
            PrintEvent::NewLevel(PrintLabel::Blit) => "blit".to_string(),
            PrintEvent::NewLevel(PrintLabel::Scaling) => "scaling".to_string(),
            PrintEvent::NewLevel(_) => "level".to_string(),
            PrintEvent::AddItem(PrintItem::ClearTo(mode)) => format!("clear {:?}", mode),
            PrintEvent::AddItem(PrintItem::SelfId(id)) => format!("self {}", id.index),
            PrintEvent::AddItem(PrintItem::Source(_)) => "source".to_string(),
            PrintEvent::AddItem(PrintItem::Kind(_)) => "kind".to_string(),
            PrintEvent::AddItem(_) => "item".to_string(),
            PrintEvent::EndLevel => "end".to_string(),
        })
        .collect()
}

#[test]
fn tree_is_shown_level_by_level_with_the_identifier_after_each_dependency() {
    let mut tree = RenderTaskTree::new(FrameId::first(), &RenderTaskTreeCounters::new());
    let leaf = tree.add(RenderTask::new_blit(DeviceIntSize::new(8, 8), image_source()));
    let scaling = RenderTask::new_scaling(
        leaf,
        &mut tree,
        RenderTargetKind::Color,
        DeviceIntSize::new(4, 4),
    );
    let middle = tree.add(scaling);
    let mut root = RenderTask::new_blit(
        DeviceIntSize::new(8, 8),
        BlitSource::RenderTask { task_id: middle },
    );
    root.children.push(leaf);
    let mut out = Vec::new();
    assert!(root.print_with(&mut out, &tree));
    let expected = vec![
        "blit", "source", "clear DontCare",
        "scaling", "kind", "clear DontCare",
        "blit", "source", "clear DontCare", "end", "self 0",
        "end", "self 1",
        "blit", "source", "clear DontCare", "end", "self 0",
        "end",
    ];
    assert_eq!(shape(&out), expected);
    assert_eq!(root.clear_mode, ClearMode::DontCare);
}

#[test]
fn one_task_of_the_tree_is_shown_without_its_own_identifier() {
    let mut tree = RenderTaskTree::new(FrameId::first(), &RenderTaskTreeCounters::new());
    let leaf = tree.add(RenderTask::new_blit(DeviceIntSize::new(8, 8), image_source()));
    let over = tree.add(RenderTask::new_blit(
        DeviceIntSize::new(8, 8),
        BlitSource::RenderTask { task_id: leaf },
    ));
    let mut out = vec![PrintEvent::EndLevel];
    tree.print_task(over, &mut out);
    let expected = vec![
        "end",
        "blit", "source", "clear DontCare",
        "blit", "source", "clear DontCare", "end", "self 0",
        "end",
    ];
    assert_eq!(shape(&out), expected);
    assert_eq!(over, RenderTaskId { index: 1, frame_id: FrameId::first() });
}
