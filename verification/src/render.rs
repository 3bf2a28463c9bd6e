use vstd::prelude::*;
use crate::app::{App, Plugin};
use crate::resource::Resource;
use crate::schedule::Stage;
use crate::system::{Op, OpSystem};
use crate::value::Value;

verus! {

/// A component naming the model an entity is drawn with.  The renderer —
/// outside this library — resolves the path to mesh and texture data.
pub struct ModelRenderer {
    pub model_path: String,
}

impl Resource for ModelRenderer {
    open spec fn type_key_spec() -> u64 {
        6
    }

    open spec fn to_value_spec(self) -> Value {
        Value::Text(self.model_path)
    }

    open spec fn from_value_spec(v: Value) -> Option<ModelRenderer> {
        match v {
            Value::Text(s) => Some(ModelRenderer { model_path: s }),
            _ => None,
        }
    }

    fn type_key() -> u64 {
        6
    }

    fn to_value(self) -> Value {
        Value::Text(self.model_path)
    }

    fn from_value(v: &Value) -> Option<ModelRenderer> {
        match v {
            Value::Text(s) => Some(ModelRenderer { model_path: s.clone() }),
            _ => None,
        }
    }

    proof fn lemma_round_trip(self) {
    }
}

/// Configuration of the phong lighting pass; the pass itself lives with the
/// graphics device, outside this library.
pub struct PhongConfig {
    pub max_lights: usize,
    pub ambient: [u32; 4],
}

/// The system the render plugin registers for the Start stage.  Render
/// set-up holds nothing scheduled yet, so it does nothing.
pub fn startup_render(p: ()) -> (r: ()) {
    p
}

/// The per-frame counterpart of [`startup_render`]; nothing is scheduled
/// yet either.
pub fn update_render(p: ()) -> (r: ()) {
    p
}

/// Set-up composition unit for rendering: registers the render start-up
/// system.
pub struct RenderPlugin;

impl Plugin<OpSystem> for RenderPlugin {
    fn build(&self, app: App<OpSystem>) -> (out: App<OpSystem>) {
        app.add_system(Stage::Start, OpSystem { op: Op::Nop })
    }
}

} // verus!
