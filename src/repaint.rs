use vstd::prelude::*;

verus! {

/// egui::Context, the viewer handle that receives repaint requests.
#[verifier::external_type_specification]
#[verifier::external_body]
pub struct ExUiContext(egui::Context);

/// Relies on egui::Context::request_repaint: asks the viewer to draw another
/// frame; it changes nothing that this library reads.
pub assume_specification[ egui::Context::request_repaint ](ctx: &egui::Context);

} // verus!
