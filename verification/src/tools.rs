//! The editing tools: which annotation and crop tools exist, their names and
//! icons, and the rotation direction of the rotate tool.
use vstd::prelude::*;

verus! {

/// The tool active on the canvas.
#[derive(Debug, Clone, Copy, PartialEq, Eq, Structural)]
pub enum ToolKind {
    Crop,
    Rotate,
    Annotate,
    Pan,
}

/// The annotation tools.
#[derive(Debug, Clone, Copy, PartialEq, Eq, Structural)]
pub enum AnnotateTool {
    Pen,
    Highlighter,
    Text,
    Rectangle,
    Ellipse,
    Arrow,
    Line,
    Star,
    Polygon,
}

impl AnnotateTool {
    /// The tools of the drawing dropdown.
    pub fn draw_tools() -> (r: &'static [AnnotateTool])
        ensures
            r@ == seq![AnnotateTool::Pen],
    {
        let r: &'static [AnnotateTool] = &[AnnotateTool::Pen];
        assert(r@ =~= seq![AnnotateTool::Pen]);
        r
    }

    /// The tools of the shapes dropdown.
    pub fn shape_tools() -> (r: &'static [AnnotateTool])
        ensures
            r@ == seq![
                AnnotateTool::Rectangle,
                AnnotateTool::Ellipse,
                AnnotateTool::Arrow,
                AnnotateTool::Line,
                AnnotateTool::Star,
                AnnotateTool::Polygon,
            ],
    {
        let r: &'static [AnnotateTool] = &[
            AnnotateTool::Rectangle,
            AnnotateTool::Ellipse,
            AnnotateTool::Arrow,
            AnnotateTool::Line,
            AnnotateTool::Star,
            AnnotateTool::Polygon,
        ];
        assert(r@ =~= seq![
            AnnotateTool::Rectangle,
            AnnotateTool::Ellipse,
            AnnotateTool::Arrow,
            AnnotateTool::Line,
            AnnotateTool::Star,
            AnnotateTool::Polygon,
        ]);
        r
    }

    /// The icon naming the tool in toolbars and menus.
    pub open spec fn icon_of(tool: AnnotateTool) -> Seq<char> {
        match tool {
            AnnotateTool::Pen => "insert-drawing-symbolic"@,
            AnnotateTool::Highlighter => "text-highlight-symbolic"@,
            AnnotateTool::Text => "insert-text-symbolic"@,
            AnnotateTool::Rectangle => "insert-rectangle-symbolic"@,
            AnnotateTool::Ellipse => "insert-ellipse-symbolic"@,
            AnnotateTool::Arrow => "insert-arrow-symbolic"@,
            AnnotateTool::Line => "insert-line-symbolic"@,
            AnnotateTool::Star => "insert-star-symbolic"@,
            AnnotateTool::Polygon => "insert-polygon-symbolic"@,
        }
    }

    /// The icon name of the tool.
    pub fn icon_name(&self) -> (r: &'static str)
        ensures
            r@ == Self::icon_of(*self),
    {
        match self {
            AnnotateTool::Pen => "insert-drawing-symbolic",
            AnnotateTool::Highlighter => "text-highlight-symbolic",
            AnnotateTool::Text => "insert-text-symbolic",
            AnnotateTool::Rectangle => "insert-rectangle-symbolic",
            AnnotateTool::Ellipse => "insert-ellipse-symbolic",
            AnnotateTool::Arrow => "insert-arrow-symbolic",
            AnnotateTool::Line => "insert-line-symbolic",
            AnnotateTool::Star => "insert-star-symbolic",
            AnnotateTool::Polygon => "insert-polygon-symbolic",
        }
    }
}

impl Default for AnnotateTool {
    /// The pen.
    fn default() -> (r: Self)
        ensures
            r == AnnotateTool::Pen,
    {
        AnnotateTool::Pen
    }
}

/// The shapes the shape tools draw.
#[derive(Debug, Clone, Copy, PartialEq, Eq, Structural)]
pub enum ShapeKind {
    Rectangle,
    Ellipse,
    Line,
    Arrow,
    Star,
    Polygon,
}

/// The mouse cursor shown over a part of a selection frame.
#[derive(Debug, Clone, Copy, PartialEq, Eq, Structural)]
pub enum CursorKind {
    Crosshair,
    ResizingDiagonallyDown,
    ResizingDiagonallyUp,
    ResizingVertically,
    ResizingHorizontally,
    Grabbing,
}

/// Which part of the crop selection is dragged.
#[derive(Debug, Clone, Copy, PartialEq, Eq, Structural)]
pub enum DragHandle {
    /// Not dragging any handle.
    NoHandle,
    TopLeft,
    TopRight,
    BottomLeft,
    BottomRight,
    Top,
    Bottom,
    Left,
    Right,
    Move,
}

/// The cursor for a handle: resize arrows along the direction it moves,
/// a grab hand inside the frame, a crosshair elsewhere.
pub open spec fn handle_cursor(is_none: bool, corner_down: bool, corner_up: bool, vertical: bool, horizontal: bool) -> CursorKind {
    if is_none {
        CursorKind::Crosshair
    } else if corner_down {
        CursorKind::ResizingDiagonallyDown
    } else if corner_up {
        CursorKind::ResizingDiagonallyUp
    } else if vertical {
        CursorKind::ResizingVertically
    } else if horizontal {
        CursorKind::ResizingHorizontally
    } else {
        CursorKind::Grabbing
    }
}

impl DragHandle {
    /// The cursor shown over this handle.
    pub fn cursor(&self) -> (r: CursorKind)
        ensures
            r == handle_cursor(
                *self == DragHandle::NoHandle,
                *self == DragHandle::TopLeft || *self == DragHandle::BottomRight,
                *self == DragHandle::TopRight || *self == DragHandle::BottomLeft,
                *self == DragHandle::Top || *self == DragHandle::Bottom,
                *self == DragHandle::Left || *self == DragHandle::Right,
            ),
    {
        match self {
            DragHandle::NoHandle => CursorKind::Crosshair,
            DragHandle::TopLeft | DragHandle::BottomRight => CursorKind::ResizingDiagonallyDown,
            DragHandle::TopRight | DragHandle::BottomLeft => CursorKind::ResizingDiagonallyUp,
            DragHandle::Top | DragHandle::Bottom => CursorKind::ResizingVertically,
            DragHandle::Left | DragHandle::Right => CursorKind::ResizingHorizontally,
            DragHandle::Move => CursorKind::Grabbing,
        }
    }
}

/// Which part of a text box is dragged.
#[derive(Debug, Clone, Copy, PartialEq, Eq, Structural)]
pub enum TextDragHandle {
    /// Not dragging any handle.
    NoHandle,
    TopLeft,
    TopRight,
    BottomLeft,
    BottomRight,
    Top,
    Bottom,
    Left,
    Right,
    Move,
}

impl TextDragHandle {
    /// The cursor shown over this handle.
    pub fn cursor(&self) -> (r: CursorKind)
        ensures
            r == handle_cursor(
                *self == TextDragHandle::NoHandle,
                *self == TextDragHandle::TopLeft || *self == TextDragHandle::BottomRight,
                *self == TextDragHandle::TopRight || *self == TextDragHandle::BottomLeft,
                *self == TextDragHandle::Top || *self == TextDragHandle::Bottom,
                *self == TextDragHandle::Left || *self == TextDragHandle::Right,
            ),
    {
        match self {
            TextDragHandle::NoHandle => CursorKind::Crosshair,
            TextDragHandle::TopLeft | TextDragHandle::BottomRight => {
                CursorKind::ResizingDiagonallyDown
            },
            TextDragHandle::TopRight | TextDragHandle::BottomLeft => {
                CursorKind::ResizingDiagonallyUp
            },
            TextDragHandle::Top | TextDragHandle::Bottom => CursorKind::ResizingVertically,
            TextDragHandle::Left | TextDragHandle::Right => CursorKind::ResizingHorizontally,
            TextDragHandle::Move => CursorKind::Grabbing,
        }
    }
}

/// The phases of placing and editing a text box.
#[derive(Debug, Clone, Copy, PartialEq, Eq, Structural)]
pub enum TextEditState {
    Placing,
    PlacingDrag,
    Editing,
    Resizing,
}

/// The aspect ratio constraint of the crop tool.
#[derive(Debug, Clone, Copy, PartialEq, Eq, Structural)]
pub enum CropRatio {
    /// Free-form drag.
    Custom,
    /// The aspect ratio of the image.
    Original,
    /// A fixed ratio, stored wider side first (16:9); portrait images use it turned.
    Fixed(u32, u32),
}

/// The label of a ratio for an image of the given orientation.
pub open spec fn ratio_label(r: CropRatio, is_portrait: bool) -> Seq<char> {
    match r {
        CropRatio::Custom => "Custom"@,
        CropRatio::Original => "Original"@,
        CropRatio::Fixed(w, h) => if w == 1 && h == 1 {
            "1:1"@
        } else if w == 16 && h == 9 {
            if is_portrait {
                "9:16"@
            } else {
                "16:9"@
            }
        } else if w == 7 && h == 5 {
            if is_portrait {
                "5:7"@
            } else {
                "7:5"@
            }
        } else if w == 4 && h == 3 {
            if is_portrait {
                "3:4"@
            } else {
                "4:3"@
            }
        } else if w == 3 && h == 2 {
            if is_portrait {
                "2:3"@
            } else {
                "3:2"@
            }
        } else {
            "?:?"@
        },
    }
}

impl CropRatio {
    /// The ratios offered in the crop toolbar, landscape form.
    pub fn presets() -> (r: &'static [CropRatio])
        ensures
            r@ == seq![
                CropRatio::Custom,
                CropRatio::Original,
                CropRatio::Fixed(1, 1),
                CropRatio::Fixed(16, 9),
                CropRatio::Fixed(7, 5),
                CropRatio::Fixed(4, 3),
                CropRatio::Fixed(3, 2),
            ],
    {
        let r: &'static [CropRatio] = &[
            CropRatio::Custom,
            CropRatio::Original,
            CropRatio::Fixed(1, 1),
            CropRatio::Fixed(16, 9),
            CropRatio::Fixed(7, 5),
            CropRatio::Fixed(4, 3),
            CropRatio::Fixed(3, 2),
        ];
        assert(r@ =~= seq![
            CropRatio::Custom,
            CropRatio::Original,
            CropRatio::Fixed(1, 1),
            CropRatio::Fixed(16, 9),
            CropRatio::Fixed(7, 5),
            CropRatio::Fixed(4, 3),
            CropRatio::Fixed(3, 2),
        ]);
        r
    }

    /// The label shown for the ratio, turned for portrait images.
    pub fn label(&self, is_portrait: bool) -> (r: &'static str)
        ensures
            r@ == ratio_label(*self, is_portrait),
    {
        match self {
            CropRatio::Custom => "Custom",
            CropRatio::Original => "Original",
            CropRatio::Fixed(w, h) => {
                if *w == 1 && *h == 1 {
                    "1:1"
                } else if *w == 16 && *h == 9 {
                    if is_portrait {
                        "9:16"
                    } else {
                        "16:9"
                    }
                } else if *w == 7 && *h == 5 {
                    if is_portrait {
                        "5:7"
                    } else {
                        "7:5"
                    }
                } else if *w == 4 && *h == 3 {
                    if is_portrait {
                        "3:4"
                    } else {
                        "4:3"
                    }
                } else if *w == 3 && *h == 2 {
                    if is_portrait {
                        "2:3"
                    } else {
                        "3:2"
                    }
                } else {
                    "?:?"
                }
            },
        }
    }

    /// Whether the ratio locks the crop frame.
    pub fn is_constrained(&self) -> (r: bool)
        ensures
            r == !(*self is Custom),
    {
        !matches!(self, CropRatio::Custom)
    }
}

/// The direction of a quarter turn.
#[derive(Debug, Clone, Copy, PartialEq, Eq, Structural)]
pub enum RotateDirection {
    Left,
    Right,
}

/// The turn that undoes a turn in `d`.
pub open spec fn opposite(d: RotateDirection) -> RotateDirection {
    match d {
        RotateDirection::Left => RotateDirection::Right,
        RotateDirection::Right => RotateDirection::Left,
    }
}

impl RotateDirection {
    /// The opposite direction.
    pub fn inverse(&self) -> (r: RotateDirection)
        ensures
            r == opposite(*self),
    {
        match self {
            RotateDirection::Left => RotateDirection::Right,
            RotateDirection::Right => RotateDirection::Left,
        }
    }
}

/// The opposite of the opposite direction is the direction itself, and no
/// direction is its own opposite.
pub proof fn lemma_opposite_involution(d: RotateDirection)
    ensures
        opposite(opposite(d)) == d,
        opposite(d) != d,
{
}

} // verus!
