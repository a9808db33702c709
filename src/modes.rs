//! Small enumerations shared by the pipeline and the mask engine.
use vstd::prelude::*;

verus! {

/// Global tone mapper selected by the adjustments payload.
#[derive(Clone, Copy, Debug, PartialEq, Eq, Structural)]
pub enum ToneMapper {
    Basic,
    Agx,
}

impl ToneMapper {
    /// The default RAW processing step (brightness and S-curve) runs only under `Basic`.
    pub fn uses_default_raw_processing(self) -> (r: bool)
        ensures
            r == (self == ToneMapper::Basic),
    {
        match self {
            ToneMapper::Basic => true,
            ToneMapper::Agx => false,
        }
    }
}

/// How a sub-mask combines with the selection accumulated so far.
#[derive(Clone, Copy, Debug, PartialEq, Eq, Structural)]
pub enum SubMaskMode {
    Additive,
    Subtractive,
}

/// The tool a brush stroke was painted with.
#[derive(Clone, Copy, Debug, PartialEq, Eq, Structural)]
pub enum BrushTool {
    Brush,
    Eraser,
}

/// What a feathered disk of a brush stroke does to the selection.
#[derive(Clone, Copy, Debug, PartialEq, Eq, Structural)]
pub enum CircleOp {
    /// Raise the selection towards the disk's intensity.
    Add,
    /// Lower the selection by the disk's intensity.
    Sub,
}

/// The operator of a brush sub-mask: additive brushes add, subtractive brushes
/// subtract, and the eraser inverts whichever operator the mode selects.
pub open spec fn circle_op_spec(mode: SubMaskMode, tool: BrushTool) -> CircleOp {
    if (mode == SubMaskMode::Additive) == (tool == BrushTool::Brush) {
        CircleOp::Add
    } else {
        CircleOp::Sub
    }
}

/// Picks the disk operator for a brush stroke painted with `tool` in a sub-mask of `mode`.
pub fn circle_op(mode: SubMaskMode, tool: BrushTool) -> (r: CircleOp)
    ensures
        r == circle_op_spec(mode, tool),
{
    match (mode, tool) {
        (SubMaskMode::Additive, BrushTool::Brush) => CircleOp::Add,
        (SubMaskMode::Additive, BrushTool::Eraser) => CircleOp::Sub,
        (SubMaskMode::Subtractive, BrushTool::Brush) => CircleOp::Sub,
        (SubMaskMode::Subtractive, BrushTool::Eraser) => CircleOp::Add,
    }
}

/// Switching the tool between brush and eraser flips the disk operator, whatever the mode.
pub proof fn lemma_eraser_inverts(mode: SubMaskMode)
    ensures
        circle_op_spec(mode, BrushTool::Brush) != circle_op_spec(mode, BrushTool::Eraser),
{
}

} // verus!
