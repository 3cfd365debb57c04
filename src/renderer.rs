use vstd::prelude::*;

verus! {

/// A graphic backend.
pub trait GraphicBackend {

}

/// Resources for a renderer: usually a render pass and pipelines, shared between
/// renderers.
pub trait RenderingContext<B: GraphicBackend> {

}

/// A rendering target, usually a swapchain image.
pub trait RenderingTarget<B: GraphicBackend> {

}

/// A surface that hands out targets to draw on.
pub trait RenderingSurface<B: GraphicBackend, Ctx: RenderingContext<B>> {
    type Target: RenderingTarget<B>;

    /// Begins a draw command.
    fn draw_begin(&mut self, context: &Ctx) -> Option<Self::Target>;

    /// Finalizes a draw command.
    fn draw_end(&mut self, target: Self::Target, context: &Ctx);
}

/// Renders a model onto a surface using a given context.
pub trait Renderer<M, B: GraphicBackend> {
    type Context: RenderingContext<B>;

    fn render<S: RenderingSurface<B, Self::Context>>(
        &mut self,
        model: &M,
        surface: &mut S,
        context: &Self::Context,
    );
}

/// The Vulkan backend.
pub struct VulkanoBackend;

impl GraphicBackend for VulkanoBackend {

}

} // verus!
