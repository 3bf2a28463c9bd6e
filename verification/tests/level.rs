use terre_core::app::App;
use terre_core::level::{Block, RegistryManager};
use terre_core::render::{startup_render, update_render, ModelRenderer, PhongConfig, RenderPlugin};
use terre_core::resource::Resource;
use terre_core::system::OpSystem;
use terre_core::transform::TransformPlugin;
use terre_core::value::Value;
use terre_core::world::World;

#[test]
fn blocks_register_under_their_name() {
    let mut registry = RegistryManager::new();
    assert!(registry.get_block(&String::from("stone")).is_none());
    registry.registry_block(Block { registry_name: String::from("stone") });
    registry.registry_block(Block { registry_name: String::from("grass") });
    let stone = registry.get_block(&String::from("stone")).unwrap();
    assert_eq!(stone.registry_name, "stone");
    let grass = registry.get_block(&String::from("grass")).unwrap();
    assert_eq!(grass.registry_name, "grass");
    assert!(registry.get_block(&String::from("dirt")).is_none());
}

#[test]
fn registering_a_name_twice_replaces_the_block() {
    let mut registry = RegistryManager::new();
    let first = Block { registry_name: String::from("stone") };
    let second = first.clone();
    registry.registry_block(first);
    registry.registry_block(second);
    // The later registration wins; the name still resolves.
    assert!(registry.get_block(&String::from("stone")).is_some());
}

#[test]
fn model_renderer_is_a_component() {
    let mut world = World::new();
    let id = world.spawn_with(ModelRenderer { model_path: String::from("cube.obj") });
    let back = world.read_component::<ModelRenderer>(id).unwrap();
    assert_eq!(back.model_path, "cube.obj");
}

#[test]
fn model_renderer_encoding_round_trips() {
    let v = ModelRenderer { model_path: String::from("cube.obj") }.to_value();
    assert!(matches!(v, Value::Text(ref s) if s == "cube.obj"));
    let back = <ModelRenderer as Resource>::from_value(&v).unwrap();
    assert_eq!(back.model_path, "cube.obj");
}

#[test]
fn plugins_compose_at_setup_time() {
    let app: App<OpSystem> = App::new().add_plugin(RenderPlugin).add_plugin(TransformPlugin);
    let mut app = app;
    app.run_start();
    // The render start-up system does nothing observable yet.
    assert_eq!(app.world.entity_count(), 0);
}

#[test]
fn render_systems_do_nothing_yet() {
    startup_render(());
    update_render(());
    let config = PhongConfig { max_lights: 0, ambient: [1, 1, 1, 1] };
    assert_eq!(config.max_lights, 0);
    assert_eq!(config.ambient, [1, 1, 1, 1]);
}
