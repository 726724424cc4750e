//! What the command line asks for, as plain values. The argument parser that
//! fills these in is the caller's.

use vstd::prelude::*;

verus! {

/// How an analysis report is written.
#[derive(Debug, Clone, Copy, PartialEq, Eq, Structural)]
pub enum OutputFormat {
    Text,
    Json,
}

impl Default for OutputFormat {
    fn default() -> (r: OutputFormat)
        ensures
            r == OutputFormat::Text,
    {
        OutputFormat::Text
    }
}

/// Whether the run opens the viewer or analyzes a model.
#[derive(Debug, Clone, Copy, PartialEq, Eq, Structural)]
pub enum OperationMode {
    View,
    Analyze,
}

/// An auxiliary pass, as a flag value.
#[derive(Debug, Clone, Copy, PartialEq, Eq, Structural)]
pub enum AovArg {
    Albedo,
    Normal,
    Depth,
}

/// Which floats a float image carries.
#[derive(Debug, Clone, Copy, PartialEq, Eq, Structural)]
pub enum ExrSpaceArg {
    /// Light as the scene has it.
    SceneLinear,
    /// The finished look, without a screen's quantization.
    Display,
}

/// The engine choice as a flag.
#[derive(Debug, Clone, Copy, PartialEq, Eq, Structural)]
pub enum RenderEngineArg {
    Raster,
    PathTraced,
}

/// `solarxy-cli render`. Every option with a counterpart on the render node
/// is optional and overrides it.
#[derive(Debug, PartialEq, Eq)]
pub struct RenderArgs {
    /// A scene, or a model file.
    pub input: String,
    /// Where the image goes; `-` is standard output.
    pub out: String,
    pub render_node: Option<String>,
    /// Output size as `WIDTHxHEIGHT`.
    pub res: Option<String>,
    pub spp: Option<u32>,
    pub bounces: Option<u32>,
    pub engine: Option<RenderEngineArg>,
    pub denoise: bool,
    pub no_denoise: bool,
    pub seed: Option<u32>,
    pub aov: Vec<AovArg>,
    pub exr_space: Option<ExrSpaceArg>,
    pub json: bool,
    pub tui: bool,
    pub watch: bool,
}

/// The subcommands.
#[derive(Debug, PartialEq, Eq)]
pub enum Command {
    /// Render a scene or a model to an image file.
    Render(RenderArgs),
}

} // verus!
