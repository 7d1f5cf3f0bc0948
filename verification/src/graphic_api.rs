//! Hardware-render negotiation state: which context type the frontend
//! prefers and the GL attributes the core asked for.

use vstd::prelude::*;

use crate::retro_sys::retro_hw_context_type;

verus! {

/// Hardware-render context parameters of one core instance.
///
/// `context_type` is fixed when the instance is created; the remaining
/// attributes are filled in when the core pushes a hardware-render
/// request through the environment dispatcher.
#[derive(Clone, Debug)]
pub struct GraphicApi {
    pub context_type: retro_hw_context_type,
    /// Framebuffer object handle the embedder exposes to the core.
    pub fbo: Option<usize>,
    pub depth: bool,
    pub stencil: bool,
    pub bottom_left_origin: bool,
    pub major: u32,
    pub minor: u32,
    pub cache_context: bool,
    pub debug_context: bool,
}

impl Default for GraphicApi {
    fn default() -> (r: GraphicApi)
        ensures
            r == GraphicApi::spec_default(),
    {
        GraphicApi {
            context_type: retro_hw_context_type::RETRO_HW_CONTEXT_NONE,
            fbo: None,
            depth: false,
            stencil: false,
            bottom_left_origin: false,
            major: 0,
            minor: 0,
            cache_context: false,
            debug_context: false,
        }
    }
}

impl GraphicApi {
    /// The all-off configuration with no hardware context requested.
    pub open spec fn spec_default() -> GraphicApi {
        GraphicApi {
            context_type: retro_hw_context_type::RETRO_HW_CONTEXT_NONE,
            fbo: None,
            depth: false,
            stencil: false,
            bottom_left_origin: false,
            major: 0,
            minor: 0,
            cache_context: false,
            debug_context: false,
        }
    }

    /// The default configuration with the given context type selected.
    pub fn with(context_type: retro_hw_context_type) -> (r: GraphicApi)
        ensures
            r == (GraphicApi { context_type, ..GraphicApi::spec_default() }),
    {
        GraphicApi {
            context_type,
            fbo: None,
            depth: false,
            stencil: false,
            bottom_left_origin: false,
            major: 0,
            minor: 0,
            cache_context: false,
            debug_context: false,
        }
    }
}

} // verus!
