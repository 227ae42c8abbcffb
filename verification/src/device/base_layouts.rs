//! Layouts of the base levels of textures.
//!
//! An image is in the undefined layout until something is uploaded or rendered to it. What reads a
//! base level has to know the layout that each of its layers is in.
use std::collections::HashMap;

use vstd::prelude::*;

use crate::vk;

verus! {

broadcast use vstd::std_specs::hash::group_hash_axioms;

/// Tracked layout of a layer of the base level of an image; undefined if it is not tracked.
pub open spec fn layout_of(base: Map<u64, Seq<i32>>, image: u64, layer: int) -> i32 {
    if base.contains_key(image) && 0 <= layer < base[image].len() {
        base[image][layer]
    } else {
        vk::IMAGE_LAYOUT_UNDEFINED
    }
}

/// Layouts with a new image, whose layers are all in the undefined layout.
pub open spec fn added(base: Map<u64, Seq<i32>>, image: u64, layers: u32) -> Map<u64, Seq<i32>> {
    base.insert(image, Seq::new(layers as nat, |i: int| vk::IMAGE_LAYOUT_UNDEFINED))
}

/// Layouts once a layer of an image is in `layout`. An image that is not tracked is ignored.
pub open spec fn noted(base: Map<u64, Seq<i32>>, image: u64, layer: int, layout: i32) -> Map<
    u64,
    Seq<i32>,
> {
    if base.contains_key(image) && 0 <= layer < base[image].len() {
        base.insert(image, base[image].update(layer, layout))
    } else {
        base
    }
}

/// Layouts once all layers of an image are in `layout`. An image that is not tracked is ignored.
pub open spec fn noted_all(base: Map<u64, Seq<i32>>, image: u64, layout: i32) -> Map<
    u64,
    Seq<i32>,
> {
    if base.contains_key(image) {
        base.insert(image, Seq::new(base[image].len(), |i: int| layout))
    } else {
        base
    }
}

/// Layouts of the layers of base levels, by image.
pub struct BaseLayouts {
    layouts: HashMap<u64, Vec<i32>>,
}

impl View for BaseLayouts {
    type V = Map<u64, Seq<i32>>;

    closed spec fn view(&self) -> Map<u64, Seq<i32>> {
        self.layouts@.map_values(|layers: Vec<i32>| layers@)
    }
}

fn filled(n: usize, layout: i32) -> (layers: Vec<i32>)
    ensures
        layers@ == Seq::new(n as nat, |i: int| layout),
{
    let mut layers: Vec<i32> = Vec::new();
    let mut i: usize = 0;
    while i < n
        invariant
            i <= n,
            layers@ == Seq::new(i as nat, |i: int| layout),
        decreases n - i,
    {
        layers.push(layout);
        i += 1;
        assert(layers@ =~= Seq::new(i as nat, |i: int| layout));
    }
    layers
}

impl BaseLayouts {
    /// No images.
    pub fn new() -> (base: Self)
        ensures
            base@ == Map::<u64, Seq<i32>>::empty(),
    {
        let base = BaseLayouts { layouts: HashMap::new() };
        assert(base@ =~= Map::<u64, Seq<i32>>::empty());
        base
    }

    /// Tracks a new image.
    pub fn add_image(&mut self, image: u64, layers: u32)
        ensures
            final(self)@ == added(old(self)@, image, layers),
    {
        self.layouts.insert(image, filled(layers as usize, vk::IMAGE_LAYOUT_UNDEFINED));
        assert(self@ =~= added(old(self)@, image, layers));
    }

    /// Stops to track an image.
    pub fn forget(&mut self, image: u64)
        ensures
            final(self)@ == old(self)@.remove(image),
    {
        self.layouts.remove(&image);
        assert(self@ =~= old(self)@.remove(image));
    }

    /// Layout of a layer.
    pub fn layout(&self, image: u64, layer: u32) -> (layout: i32)
        ensures
            layout == layout_of(self@, image, layer as int),
    {
        match self.layouts.get(&image) {
            Some(layers) => if (layer as usize) < layers.len() {
                layers[layer as usize]
            } else {
                vk::IMAGE_LAYOUT_UNDEFINED
            },
            None => vk::IMAGE_LAYOUT_UNDEFINED,
        }
    }

    /// Notes that a layer is in `layout`.
    pub fn note(&mut self, image: u64, layer: u32, layout: i32)
        ensures
            final(self)@ == noted(old(self)@, image, layer as int, layout),
    {
        if let Some(found) = self.layouts.remove(&image) {
            let mut layers = found;
            if (layer as usize) < layers.len() {
                layers.set(layer as usize, layout);
            }
            self.layouts.insert(image, layers);
        }
        assert(self@ =~= noted(old(self)@, image, layer as int, layout));
    }

    /// Notes that all layers are in `layout`.
    pub fn note_all(&mut self, image: u64, layout: i32)
        ensures
            final(self)@ == noted_all(old(self)@, image, layout),
    {
        if let Some(layers) = self.layouts.remove(&image) {
            self.layouts.insert(image, filled(layers.len(), layout));
        }
        assert(self@ =~= noted_all(old(self)@, image, layout));
    }
}

// ── Laws ───────────────────────────────────────────────────────────────────────

/// A new image is in the undefined layout in every layer; noting a layout changes that of one
/// layer of one image, or of all its layers, and of no other.
pub proof fn layouts_are_noted(
    base: Map<u64, Seq<i32>>,
    image: u64,
    layer: int,
    layout: i32,
    layers: u32,
    other: u64,
    i: int,
)
    ensures
        layout_of(added(base, image, layers), image, i) == vk::IMAGE_LAYOUT_UNDEFINED,
        other != image ==> layout_of(added(base, image, layers), other, i) == layout_of(
            base,
            other,
            i,
        ),
        added(base, image, layers)[image].len() == layers,
        base.contains_key(image) && 0 <= layer < base[image].len() ==> layout_of(
            noted(base, image, layer, layout),
            image,
            layer,
        ) == layout,
        other != image || i != layer ==> layout_of(noted(base, image, layer, layout), other, i)
            == layout_of(base, other, i),
        base.contains_key(image) && 0 <= i < base[image].len() ==> layout_of(
            noted_all(base, image, layout),
            image,
            i,
        ) == layout,
        other != image ==> layout_of(noted_all(base, image, layout), other, i) == layout_of(
            base,
            other,
            i,
        ),
        !base.contains_key(other) ==> layout_of(base, other, i) == vk::IMAGE_LAYOUT_UNDEFINED,
{
}

} // verus!
