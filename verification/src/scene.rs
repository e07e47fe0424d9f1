//! Scene graph: layers own objects, and a live object is mutated through an
//! explicit begin-update / commit pair so that readers never observe a
//! partially edited appearance.

use vstd::prelude::*;

verus! {

/// An RGBA color; the only appearance field the synchronization logic mutates.
#[derive(Clone, Copy, PartialEq, Eq, Structural, Debug)]
pub struct Color {
    pub r: u8,
    pub g: u8,
    pub b: u8,
    pub a: u8,
}

impl Color {
    pub open spec fn white() -> Color {
        Color { r: 255, g: 255, b: 255, a: 255 }
    }

    pub open spec fn green() -> Color {
        Color { r: 0, g: 255, b: 0, a: 255 }
    }

    pub open spec fn red() -> Color {
        Color { r: 255, g: 0, b: 0, a: 255 }
    }

    pub open spec fn blue() -> Color {
        Color { r: 0, g: 0, b: 255, a: 255 }
    }
}

/// A model reference held by an appearance; the demo scene uses a circle
/// approximated by a fan of corner vertices.
#[derive(Clone, Copy, PartialEq, Eq, Structural, Debug)]
pub enum Model {
    Circle { corner_count: u32 },
}

/// The visual state of an object: an optional model and a color.
#[derive(Clone, Copy, PartialEq, Eq, Structural, Debug)]
pub struct Appearance {
    pub model: Option<Model>,
    pub color: Color,
}

impl Appearance {
    /// The appearance of a freshly constructed object.
    pub open spec fn initial() -> Appearance {
        Appearance { model: None, color: Color::white() }
    }

    /// Replaces the model reference on this (local) appearance.
    pub fn set_model(&mut self, model: Option<Model>)
        ensures
            final(self).model == model,
            final(self).color == old(self).color,
    {
        self.model = model;
    }

    /// Replaces the color on this (local) appearance.
    pub fn set_color(&mut self, color: Color)
        ensures
            final(self).color == color,
            final(self).model == old(self).model,
    {
        self.color = color;
    }
}

/// How the camera maps the scene to the window.
#[derive(Clone, Copy, PartialEq, Eq, Structural, Debug)]
pub enum CameraScaling {
    Stretch,
    Expand,
}

/// Camera configuration surface; zoom is kept in thousandths.
#[derive(Clone, Copy, PartialEq, Eq, Structural, Debug)]
pub struct CameraSettings {
    pub zoom_milli: u32,
    pub mode: CameraScaling,
}

impl CameraSettings {
    /// The camera configuration a fresh layer starts with.
    pub open spec fn initial() -> CameraSettings {
        CameraSettings { zoom_milli: 1000, mode: CameraScaling::Stretch }
    }
}

/// The most objects a single layer will attach.
pub const LAYER_CAPACITY: usize = 1024;

/// The mathematical state of a layer.
#[verifier::ext_equal]
pub ghost struct LayerView {
    pub destroyed: bool,
    pub camera: CameraSettings,
    pub objects: Seq<Option<Appearance>>,
}

impl LayerView {
    /// A layer accepts a new object while it is alive and under capacity.
    pub open spec fn can_attach(self) -> bool {
        !self.destroyed && self.objects.len() < LAYER_CAPACITY
    }

    /// The authoritative appearance stored for `id`, `None` when the slot is
    /// out of range or its object is gone.
    pub open spec fn slot(self, id: usize) -> Option<Appearance> {
        if id < self.objects.len() {
            self.objects[id as int]
        } else {
            None
        }
    }
}

/// An ownership container for scene objects, also holding the camera
/// configuration under which they are drawn.
pub struct Layer {
    pub destroyed: bool,
    pub camera: CameraSettings,
    pub objects: Vec<Option<Appearance>>,
}

impl View for Layer {
    type V = LayerView;

    open spec fn view(&self) -> LayerView {
        LayerView { destroyed: self.destroyed, camera: self.camera, objects: self.objects@ }
    }
}

/// Creates a fresh, empty, live layer with the initial camera configuration.
pub fn new_layer() -> (l: Layer)
    ensures
        !l@.destroyed,
        l@.camera == CameraSettings::initial(),
        l@.objects.len() == 0,
{
    Layer {
        destroyed: false,
        camera: CameraSettings { zoom_milli: 1000, mode: CameraScaling::Stretch },
        objects: Vec::new(),
    }
}

impl Layer {
    /// Replaces the camera configuration; objects are untouched.
    pub fn set_camera_settings(&mut self, settings: CameraSettings)
        ensures
            final(self)@.camera == settings,
            final(self)@.destroyed == old(self)@.destroyed,
            final(self)@.objects == old(self)@.objects,
    {
        self.camera = settings;
    }

    /// Marks the layer as released; later attachments and commits fail.
    pub fn destroy(&mut self)
        ensures
            final(self)@.destroyed,
            final(self)@.camera == old(self)@.camera,
            final(self)@.objects == old(self)@.objects,
    {
        self.destroyed = true;
    }

    /// Destroys one object while handles to it may still exist; a later
    /// `update` or `sync` through such a handle fails recoverably.
    pub fn remove_object(&mut self, id: usize) -> (r: bool)
        ensures
            r <==> old(self)@.slot(id) is Some,
            r ==> final(self)@.objects == old(self)@.objects.update(id as int, None::<Appearance>),
            !r ==> final(self)@ == old(self)@,
            final(self)@.camera == old(self)@.camera,
            final(self)@.destroyed == old(self)@.destroyed,
    {
        if id < self.objects.len() && self.objects[id].is_some() {
            self.objects.set(id, None);
            true
        } else {
            false
        }
    }

    /// The render/query path: reads the authoritative appearance of a slot.
    pub fn appearance_of(&self, id: usize) -> (r: Option<Appearance>)
        ensures
            r == self@.slot(id),
    {
        if id < self.objects.len() {
            self.objects[id]
        } else {
            None
        }
    }
}

/// Why attaching an object to a layer failed.
#[derive(Clone, Copy, PartialEq, Eq, Structural, Debug)]
pub enum InitError {
    LayerDestroyed,
    LayerFull,
}

/// Why beginning or committing a mutation failed.
#[derive(Clone, Copy, PartialEq, Eq, Structural, Debug)]
pub enum ObjectError {
    LayerDestroyed,
    ObjectGone,
}

/// A freshly constructed object, not yet attached to any layer.
#[derive(Clone, Copy, PartialEq, Eq, Structural, Debug)]
pub struct NewObject {
    pub appearance: Appearance,
}

impl NewObject {
    /// Constructs an object with the initial appearance.
    pub fn new() -> (o: NewObject)
        ensures
            o.appearance == Appearance::initial(),
    {
        NewObject {
            appearance: Appearance {
                model: None,
                color: Color { r: 255, g: 255, b: 255, a: 255 },
            },
        }
    }

    /// Attaches the object to a layer. On success the layer stores the
    /// appearance authoritatively and the returned handle carries a local
    /// snapshot of it; on failure the layer is unchanged and the object is
    /// simply discarded by the caller.
    pub fn init(self, layer: &mut Layer) -> (r: Result<LiveObject, InitError>)
        ensures
            r is Ok <==> old(layer)@.can_attach(),
            r matches Ok(obj) ==> {
                &&& obj.id == old(layer)@.objects.len()
                &&& obj.appearance == self.appearance
                &&& final(layer)@.objects == old(layer)@.objects.push(Some(self.appearance))
                &&& final(layer)@.camera == old(layer)@.camera
                &&& final(layer)@.destroyed == old(layer)@.destroyed
            },
            r is Err ==> final(layer)@ == old(layer)@,
            old(layer)@.destroyed ==> r == Err::<LiveObject, InitError>(InitError::LayerDestroyed),
            !old(layer)@.destroyed && old(layer)@.objects.len() >= LAYER_CAPACITY ==> r
                == Err::<LiveObject, InitError>(InitError::LayerFull),
    {
        if layer.destroyed {
            Err(InitError::LayerDestroyed)
        } else if layer.objects.len() >= LAYER_CAPACITY {
            Err(InitError::LayerFull)
        } else {
            let id = layer.objects.len();
            layer.objects.push(Some(self.appearance));
            Ok(LiveObject { id, appearance: self.appearance })
        }
    }
}

/// A handle to an object attached to a layer: the slot index of the
/// authoritative copy together with a locally editable snapshot.
#[derive(Clone, Copy, PartialEq, Eq, Structural, Debug)]
pub struct LiveObject {
    pub id: usize,
    pub appearance: Appearance,
}

impl LiveObject {
    /// Begins a mutation scope: refreshes the local snapshot from the
    /// authoritative copy. Fails, leaving the snapshot untouched, when the
    /// layer was destroyed or the object is gone.
    pub fn update(&mut self, layer: &Layer) -> (r: Result<(), ObjectError>)
        ensures
            final(self).id == old(self).id,
            r is Ok <==> (!layer@.destroyed && layer@.slot(old(self).id) is Some),
            r is Ok ==> final(self).appearance == layer@.slot(old(self).id).unwrap(),
            r is Err ==> final(self).appearance == old(self).appearance,
            layer@.destroyed ==> r == Err::<(), ObjectError>(ObjectError::LayerDestroyed),
            !layer@.destroyed && layer@.slot(old(self).id) is None ==> r == Err::<
                (),
                ObjectError,
            >(ObjectError::ObjectGone),
    {
        if layer.destroyed {
            return Err(ObjectError::LayerDestroyed);
        }
        if self.id >= layer.objects.len() {
            return Err(ObjectError::ObjectGone);
        }
        match layer.objects[self.id] {
            Some(a) => {
                self.appearance = a;
                Ok(())
            },
            None => Err(ObjectError::ObjectGone),
        }
    }

    /// Commits the local snapshot: atomically replaces the authoritative
    /// appearance observed by the render/query path. Fails, leaving the
    /// layer untouched, when the layer was destroyed or the object is gone;
    /// callers are expected to skip the update, not abort.
    pub fn sync(&self, layer: &mut Layer) -> (r: Result<(), ObjectError>)
        ensures
            r is Ok <==> (!old(layer)@.destroyed && old(layer)@.slot(self.id) is Some),
            r is Ok ==> {
                &&& final(layer)@.objects == old(layer)@.objects.update(
                    self.id as int,
                    Some(self.appearance),
                )
                &&& final(layer)@.camera == old(layer)@.camera
                &&& final(layer)@.destroyed == old(layer)@.destroyed
            },
            r is Err ==> final(layer)@ == old(layer)@,
            old(layer)@.destroyed ==> r == Err::<(), ObjectError>(ObjectError::LayerDestroyed),
            !old(layer)@.destroyed && old(layer)@.slot(self.id) is None ==> r == Err::<
                (),
                ObjectError,
            >(ObjectError::ObjectGone),
    {
        if layer.destroyed {
            return Err(ObjectError::LayerDestroyed);
        }
        if self.id >= layer.objects.len() {
            return Err(ObjectError::ObjectGone);
        }
        if layer.objects[self.id].is_none() {
            return Err(ObjectError::ObjectGone);
        }
        layer.objects.set(self.id, Some(self.appearance));
        Ok(())
    }
}

} // verus!
