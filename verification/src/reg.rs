//! The registry: named assets, the sprite atlas, the key latch and the queue
//! of sound commands waiting for the host.

use crate::audio::{SoundCommand, SoundOp, Source};
use crate::graphics::{Canvas, DrawOp, Font, Image, Quad, Sheet, Text};
use crate::objects::Entity;
use crate::key::{after_press, after_release, press_counts, KeyCode, KeyScan};
use std::collections::HashMap;
use vstd::hash_map::StringHashMap;
use vstd::prelude::*;

verus! {

broadcast use vstd::std_specs::hash::group_hash_axioms;

/// What a registry holds.
pub struct RegView {
    pub sounds: Map<Seq<char>, Source>,
    pub fonts: Map<Seq<char>, Font>,
    pub images: Map<Seq<char>, Image>,
    pub texts: Map<Seq<char>, Text>,
    pub latched: Set<KeyCode>,
    pub objects: Map<Seq<char>, Entity>,
    pub f32_values: Map<Seq<char>, u32>,
    pub i32_values: Map<Seq<char>, i32>,
    pub sprites: Map<i32, Quad>,
    pub hearts: Map<i32, Quad>,
    pub audio: Seq<SoundCommand>,
}

/// Keyed store of everything a game state shares with the host.
pub struct Reg {
    pub sounds: StringHashMap<Source>,
    pub fonts: StringHashMap<Font>,
    pub images: StringHashMap<Image>,
    pub texts: StringHashMap<Text>,
    pub key_status: KeyScan,
    pub objects: StringHashMap<Entity>,
    pub f32_values: StringHashMap<u32>,
    pub i32_values: StringHashMap<i32>,
    pub sprites: HashMap<i32, Quad>,
    pub hearts: HashMap<i32, Quad>,
    pub audio: Vec<SoundCommand>,
}

impl View for Reg {
    type V = RegView;

    open spec fn view(&self) -> RegView {
        RegView {
            sounds: self.sounds@,
            fonts: self.fonts@,
            images: self.images@,
            texts: self.texts@,
            latched: self.key_status@,
            objects: self.objects@,
            f32_values: self.f32_values@,
            i32_values: self.i32_values@,
            sprites: self.sprites@,
            hearts: self.hearts@,
            audio: self.audio@,
        }
    }
}

impl RegView {
    /// The registry with nothing in it.
    pub open spec fn empty() -> RegView {
        RegView {
            sounds: Map::empty(),
            fonts: Map::empty(),
            images: Map::empty(),
            texts: Map::empty(),
            latched: Set::empty(),
            objects: Map::empty(),
            f32_values: Map::empty(),
            i32_values: Map::empty(),
            sprites: Map::empty(),
            hearts: Map::empty(),
            audio: Seq::empty(),
        }
    }

    /// The registry after one more sound command was queued.
    pub open spec fn queued(self, op: SoundOp, source: Source) -> RegView {
        RegView { audio: self.audio.push(SoundCommand { op, source }), ..self }
    }
}

impl Reg {
    /// An empty registry.
    pub fn new() -> (reg: Reg)
        ensures
            reg@ == RegView::empty(),
    {
        Reg {
            sounds: StringHashMap::new(),
            fonts: StringHashMap::new(),
            images: StringHashMap::new(),
            texts: StringHashMap::new(),
            key_status: KeyScan::new(),
            objects: StringHashMap::new(),
            f32_values: StringHashMap::new(),
            i32_values: StringHashMap::new(),
            sprites: HashMap::new(),
            hearts: HashMap::new(),
            audio: Vec::new(),
        }
    }

    /// Reports a press of `key`, which the caller has seen down: `true` the
    /// first time, `false` until the key is released in between.
    pub fn just_pressed(&mut self, key: KeyCode) -> (pressed: bool)
        ensures
            pressed == press_counts(old(self)@.latched, key),
            final(self)@ == (RegView { latched: after_press(old(self)@.latched, key), ..old(self)@ }),
    {
        self.key_status.just_pressed(key)
    }

    /// Records that `key` was seen up, so that its next press counts again.
    pub fn just_released(&mut self, key: KeyCode)
        ensures
            final(self)@ == (RegView { latched: after_release(old(self)@.latched, key), ..old(self)@ }),
    {
        self.key_status.just_released(key);
    }

    /// Stores `sound` under `key`, replacing what was there.
    pub fn add_sound(&mut self, key: String, sound: Source)
        ensures
            final(self)@ == (RegView { sounds: old(self)@.sounds.insert(key@, sound), ..old(self)@ }),
    {
        self.sounds.insert(key, sound);
    }

    /// The sound stored under `key`. A key that was never stored is a
    /// fault of the caller's.
    pub fn get_sound_mut(&mut self, key: String) -> (sound: Option<Source>)
        requires
            old(self)@.sounds.contains_key(key@),
        ensures
            final(self)@ == old(self)@,
            sound == Some(old(self)@.sounds[key@]),
    {
        match self.sounds.get(key.as_str()) {
            Some(s) => Some(*s),
            None => None,
        }
    }

    /// Stores `object` under `key`, replacing what was there.
    pub fn add_object(&mut self, key: String, object: Entity)
        ensures
            final(self)@ == (RegView { objects: old(self)@.objects.insert(key@, object), ..old(self)@ }),
    {
        self.objects.insert(key, object);
    }

    /// The entity stored under `key`. A key that was never stored is a
    /// fault of the caller's.
    pub fn get_object_mut(&mut self, key: String) -> (object: Option<Entity>)
        requires
            old(self)@.objects.contains_key(key@),
        ensures
            final(self)@ == old(self)@,
            object == Some(old(self)@.objects[key@]),
    {
        match self.objects.get(key.as_str()) {
            Some(e) => Some(*e),
            None => None,
        }
    }

    /// Stores `font` under `key`, replacing what was there.
    pub fn add_font(&mut self, key: String, font: Font)
        ensures
            final(self)@ == (RegView { fonts: old(self)@.fonts.insert(key@, font), ..old(self)@ }),
    {
        self.fonts.insert(key, font);
    }

    /// The font stored under `key`. A key that was never stored is a
    /// fault of the caller's.
    pub fn get_font(&self, key: String) -> (font: Option<&Font>)
        requires
            self@.fonts.contains_key(key@),
        ensures
            font == Some(&self@.fonts[key@]),
    {
        self.fonts.get(key.as_str())
    }

    /// Stores `text` under `key`, replacing what was there.
    pub fn add_text(&mut self, key: String, text: Text)
        ensures
            final(self)@ == (RegView { texts: old(self)@.texts.insert(key@, text), ..old(self)@ }),
    {
        self.texts.insert(key, text);
    }

    /// The text stored under `key`. A key that was never stored is a
    /// fault of the caller's.
    pub fn get_text(&self, key: String) -> (text: Option<&Text>)
        requires
            self@.texts.contains_key(key@),
        ensures
            text == Some(&self@.texts[key@]),
    {
        self.texts.get(key.as_str())
    }

    /// Stores the bit pattern of a single-precision number under `key`,
    /// replacing what was there.
    pub fn add_f32(&mut self, key: String, bits: u32)
        ensures
            final(self)@ == (RegView {
                f32_values: old(self)@.f32_values.insert(key@, bits),
                ..old(self)@
            }),
    {
        self.f32_values.insert(key, bits);
    }

    /// The bit pattern stored under `key`. A key that was never stored is a
    /// fault of the caller's.
    pub fn get_f32(&self, key: String) -> (bits: Option<&u32>)
        requires
            self@.f32_values.contains_key(key@),
        ensures
            bits == Some(&self@.f32_values[key@]),
    {
        self.f32_values.get(key.as_str())
    }

    /// Stores `value` under `key`, replacing what was there.
    pub fn add_i32(&mut self, key: String, value: i32)
        ensures
            final(self)@ == (RegView {
                i32_values: old(self)@.i32_values.insert(key@, value),
                ..old(self)@
            }),
    {
        self.i32_values.insert(key, value);
    }

    /// The number stored under `key`. A key that was never stored is a
    /// fault of the caller's.
    pub fn get_i32(&self, key: String) -> (value: Option<&i32>)
        requires
            self@.i32_values.contains_key(key@),
        ensures
            value == Some(&self@.i32_values[key@]),
    {
        self.i32_values.get(key.as_str())
    }

    /// Stores `image` under `key`, replacing what was there.
    pub fn add_image(&mut self, key: String, image: Image)
        ensures
            final(self)@ == (RegView { images: old(self)@.images.insert(key@, image), ..old(self)@ }),
    {
        self.images.insert(key, image);
    }

    /// The image stored under `key`. A key that was never stored is a
    /// fault of the caller's.
    pub fn get_image(&self, key: String) -> (image: Option<&Image>)
        requires
            self@.images.contains_key(key@),
        ensures
            image == Some(&self@.images[key@]),
    {
        self.images.get(key.as_str())
    }

    /// Forgets every sound.
    pub fn clear_sound(&mut self)
        ensures
            final(self)@ == (RegView { sounds: Map::empty(), ..old(self)@ }),
    {
        self.sounds.clear();
    }

    /// Forgets every text.
    pub fn clear_text(&mut self)
        ensures
            final(self)@ == (RegView { texts: Map::empty(), ..old(self)@ }),
    {
        self.texts.clear();
    }

    /// Forgets every font.
    pub fn clear_font(&mut self)
        ensures
            final(self)@ == (RegView { fonts: Map::empty(), ..old(self)@ }),
    {
        self.fonts.clear();
    }

    /// Forgets every image.
    pub fn clear_image(&mut self)
        ensures
            final(self)@ == (RegView { images: Map::empty(), ..old(self)@ }),
    {
        self.images.clear();
    }

    /// Forgets every entity.
    pub fn clear_objects(&mut self)
        ensures
            final(self)@ == (RegView { objects: Map::empty(), ..old(self)@ }),
    {
        self.objects.clear();
    }

    /// Gives `key` the rectangle `(u, v, w, h)` of the main sheet, replacing
    /// the one it had.
    pub fn register_sprite(&mut self, key: i32, u: i32, v: i32, w: i32, h: i32)
        ensures
            final(self)@ == (RegView {
                sprites: old(self)@.sprites.insert(key, Quad { u, v, w, h }),
                ..old(self)@
            }),
    {
        self.sprites.insert(key, Quad { u, v, w, h });
    }

    /// Gives `key` the rectangle `(u, v, w, h)` of the hearts sheet,
    /// replacing the one it had.
    pub fn register_heart(&mut self, key: i32, u: i32, v: i32, w: i32, h: i32)
        ensures
            final(self)@ == (RegView {
                hearts: old(self)@.hearts.insert(key, Quad { u, v, w, h }),
                ..old(self)@
            }),
    {
        self.hearts.insert(key, Quad { u, v, w, h });
    }

    /// Records the sprite `key` at `(x, y)` on `canvas`.
    pub fn draw_sprite(&self, canvas: &mut Canvas, key: i32, x: i32, y: i32)
        requires
            old(canvas).is_bound(),
            self@.sprites.contains_key(key),
        ensures
            final(canvas).is_bound(),
            final(canvas)@ == old(canvas)@.push(
                DrawOp::Sprite { sheet: Sheet::Main, src: self@.sprites[key], x, y },
            ),
    {
        let src = *self.sprites.get(&key).unwrap();
        canvas.draw(DrawOp::Sprite { sheet: Sheet::Main, src, x, y });
    }

    /// Records the heart `key` at `(x, y)` on `canvas`.
    pub fn draw_heart(&self, canvas: &mut Canvas, key: i32, x: i32, y: i32)
        requires
            old(canvas).is_bound(),
            self@.hearts.contains_key(key),
        ensures
            final(canvas).is_bound(),
            final(canvas)@ == old(canvas)@.push(
                DrawOp::Sprite { sheet: Sheet::Hearts, src: self@.hearts[key], x, y },
            ),
    {
        let src = *self.hearts.get(&key).unwrap();
        canvas.draw(DrawOp::Sprite { sheet: Sheet::Hearts, src, x, y });
    }

    /// Hands the queued sound commands to the caller, oldest first, and
    /// leaves the queue empty.
    pub fn take_audio(&mut self) -> (commands: Vec<SoundCommand>)
        ensures
            commands@ == old(self)@.audio,
            final(self)@ == (RegView { audio: Seq::empty(), ..old(self)@ }),
    {
        let mut out: Vec<SoundCommand> = Vec::new();
        std::mem::swap(&mut self.audio, &mut out);
        out
    }
}

} // verus!
