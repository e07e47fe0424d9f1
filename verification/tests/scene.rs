use scene_sync::scene::{
    Appearance, CameraScaling, CameraSettings, Color, InitError, Model, NewObject, ObjectError,
    new_layer,
};

fn white() -> Color {
    Color { r: 255, g: 255, b: 255, a: 255 }
}

fn green() -> Color {
    Color { r: 0, g: 255, b: 0, a: 255 }
}

fn red() -> Color {
    Color { r: 255, g: 0, b: 0, a: 255 }
}

#[test]
fn fresh_layer_is_empty_and_live() {
    let layer = new_layer();
    assert!(!layer.destroyed);
    assert_eq!(layer.camera, CameraSettings { zoom_milli: 1000, mode: CameraScaling::Stretch });
    assert_eq!(layer.appearance_of(0), None);
}

#[test]
fn new_object_has_initial_appearance() {
    let o = NewObject::new();
    assert_eq!(o.appearance, Appearance { model: None, color: white() });
}

#[test]
fn init_attaches_and_publishes_appearance() {
    let mut layer = new_layer();
    let mut o = NewObject::new();
    o.appearance.set_model(Some(Model::Circle { corner_count: 30 }));
    let live = o.init(&mut layer).unwrap();
    assert_eq!(live.id, 0);
    assert_eq!(
        layer.appearance_of(0),
        Some(Appearance { model: Some(Model::Circle { corner_count: 30 }), color: white() }),
    );
}

#[test]
fn init_on_destroyed_layer_fails() {
    let mut layer = new_layer();
    layer.destroy();
    let o = NewObject::new();
    assert_eq!(o.init(&mut layer).unwrap_err(), InitError::LayerDestroyed);
    assert_eq!(layer.appearance_of(0), None);
}

#[test]
fn mutation_is_local_until_sync() {
    let mut layer = new_layer();
    let mut live = NewObject::new().init(&mut layer).unwrap();
    live.update(&layer).unwrap();
    live.appearance.set_color(green());
    // Not committed yet: readers still see the old color.
    assert_eq!(layer.appearance_of(live.id).unwrap().color, white());
    live.sync(&mut layer).unwrap();
    assert_eq!(layer.appearance_of(live.id).unwrap().color, green());
}

#[test]
fn update_refreshes_snapshot_from_authoritative_copy() {
    let mut layer = new_layer();
    let mut live = NewObject::new().init(&mut layer).unwrap();
    live.update(&layer).unwrap();
    live.appearance.set_color(green());
    live.sync(&mut layer).unwrap();
    // A local edit that is never committed...
    live.appearance.set_color(red());
    // ...is discarded by the next update.
    live.update(&layer).unwrap();
    assert_eq!(live.appearance.color, green());
    assert_eq!(layer.appearance_of(live.id).unwrap().color, green());
}

#[test]
fn sync_after_destroy_is_a_recoverable_error() {
    let mut layer = new_layer();
    let mut live = NewObject::new().init(&mut layer).unwrap();
    layer.destroy();
    assert_eq!(live.sync(&mut layer).unwrap_err(), ObjectError::LayerDestroyed);
    assert_eq!(live.update(&layer).unwrap_err(), ObjectError::LayerDestroyed);
    // The authoritative copy is untouched by the failed commit.
    assert_eq!(layer.appearance_of(live.id).unwrap().color, white());
}

#[test]
fn init_on_full_layer_fails() {
    let mut layer = new_layer();
    for _ in 0..1024 {
        NewObject::new().init(&mut layer).unwrap();
    }
    assert_eq!(NewObject::new().init(&mut layer).unwrap_err(), InitError::LayerFull);
}

#[test]
fn removed_object_makes_mutation_a_recoverable_error() {
    let mut layer = new_layer();
    let mut live = NewObject::new().init(&mut layer).unwrap();
    assert!(layer.remove_object(live.id));
    assert!(!layer.remove_object(live.id), "the slot is already vacant");
    assert_eq!(live.update(&layer).unwrap_err(), ObjectError::ObjectGone);
    assert_eq!(live.sync(&mut layer).unwrap_err(), ObjectError::ObjectGone);
    assert_eq!(layer.appearance_of(live.id), None);
}

#[test]
fn stale_handle_against_another_layer_is_object_gone() {
    let mut layer = new_layer();
    let mut live = NewObject::new().init(&mut layer).unwrap();
    let mut other = new_layer();
    assert_eq!(live.update(&other).unwrap_err(), ObjectError::ObjectGone);
    assert_eq!(live.sync(&mut other).unwrap_err(), ObjectError::ObjectGone);
}

#[test]
fn camera_settings_replace_previous_ones() {
    let mut layer = new_layer();
    layer.set_camera_settings(CameraSettings { zoom_milli: 500, mode: CameraScaling::Expand });
    assert_eq!(layer.camera, CameraSettings { zoom_milli: 500, mode: CameraScaling::Expand });
}
