use cosmic_viewer::tools::{AnnotateTool, CropRatio, CursorKind, DragHandle, TextDragHandle};

#[test]
fn tool_lists() {
    assert_eq!(AnnotateTool::draw_tools(), &[AnnotateTool::Pen]);
    assert_eq!(
        AnnotateTool::shape_tools(),
        &[
            AnnotateTool::Rectangle,
            AnnotateTool::Ellipse,
            AnnotateTool::Arrow,
            AnnotateTool::Line,
            AnnotateTool::Star,
            AnnotateTool::Polygon,
        ]
    );
    assert_eq!(AnnotateTool::default(), AnnotateTool::Pen);
}

#[test]
fn tool_icons() {
    assert_eq!(AnnotateTool::Pen.icon_name(), "insert-drawing-symbolic");
    assert_eq!(AnnotateTool::Text.icon_name(), "insert-text-symbolic");
    assert_eq!(AnnotateTool::Polygon.icon_name(), "insert-polygon-symbolic");
}

#[test]
fn crop_ratios() {
    let presets = CropRatio::presets();
    assert_eq!(presets.len(), 7);
    assert_eq!(presets[0], CropRatio::Custom);
    assert_eq!(presets[3], CropRatio::Fixed(16, 9));
    assert!(!CropRatio::Custom.is_constrained());
    assert!(CropRatio::Original.is_constrained());
    assert!(CropRatio::Fixed(1, 1).is_constrained());
    assert_eq!(CropRatio::Custom.label(false), "Custom");
    assert_eq!(CropRatio::Original.label(true), "Original");
    assert_eq!(CropRatio::Fixed(1, 1).label(true), "1:1");
    assert_eq!(CropRatio::Fixed(16, 9).label(false), "16:9");
    assert_eq!(CropRatio::Fixed(16, 9).label(true), "9:16");
    assert_eq!(CropRatio::Fixed(3, 2).label(true), "2:3");
    assert_eq!(CropRatio::Fixed(5, 5).label(false), "?:?");
}

#[test]
fn handle_cursors() {
    assert_eq!(DragHandle::NoHandle.cursor(), CursorKind::Crosshair);
    assert_eq!(DragHandle::TopLeft.cursor(), CursorKind::ResizingDiagonallyDown);
    assert_eq!(DragHandle::BottomLeft.cursor(), CursorKind::ResizingDiagonallyUp);
    assert_eq!(DragHandle::Top.cursor(), CursorKind::ResizingVertically);
    assert_eq!(DragHandle::Right.cursor(), CursorKind::ResizingHorizontally);
    assert_eq!(DragHandle::Move.cursor(), CursorKind::Grabbing);
    assert_eq!(TextDragHandle::NoHandle.cursor(), CursorKind::Crosshair);
    assert_eq!(TextDragHandle::Move.cursor(), CursorKind::Grabbing);
}
