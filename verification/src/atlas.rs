//! A table of images by tag, shared by the wall textures and the sprite
//! textures.

use vstd::prelude::*;
use std::collections::HashMap;
use crate::bitmap::{CpuImage, ImageView};

verus! {

/// Distinct tags have distinct code points.
proof fn lemma_tag_code(a: char, b: char)
    ensures
        a as u32 == b as u32 <==> a == b,
{
}

/// Images stored under one-character tags.
pub struct Atlas {
    images: HashMap<u32, CpuImage>,
}

impl View for Atlas {
    type V = Map<char, ImageView>;

    closed spec fn view(&self) -> Map<char, ImageView> {
        Map::new(
            |tag: char| self.images@.contains_key(tag as u32),
            |tag: char| self.images@[tag as u32]@,
        )
    }
}

impl Atlas {
    /// A table without images.
    pub fn new() -> (atlas: Atlas)
        ensures
            atlas@ == Map::<char, ImageView>::empty(),
    {
        broadcast use vstd::std_specs::hash::group_hash_axioms;

        let atlas = Atlas { images: HashMap::new() };
        proof {
            assert(atlas@ =~= Map::<char, ImageView>::empty());
        }
        atlas
    }

    /// Stores an image under a tag, replacing any that was there.
    pub fn store(&mut self, tag: char, img: CpuImage)
        ensures
            final(self)@ == old(self)@.insert(tag, img@),
    {
        broadcast use vstd::std_specs::hash::group_hash_axioms;

        self.images.insert(tag as u32, img);
        proof {
            let after = self@;
            let wanted = old(self)@.insert(tag, img@);
            assert forall|t: char| after.contains_key(t) == wanted.contains_key(t) by {
                lemma_tag_code(t, tag);
            }
            assert forall|t: char| after.contains_key(t) implies after[t] == wanted[t] by {
                lemma_tag_code(t, tag);
            }
            assert(after =~= wanted);
        }
    }

    /// The image stored under a tag.
    pub fn get(&self, tag: char) -> (found: Option<&CpuImage>)
        ensures
            match found {
                Some(img) => self@.contains_key(tag) && self@[tag] == img@,
                None => !self@.contains_key(tag),
            },
    {
        broadcast use vstd::std_specs::hash::group_hash_axioms;

        self.images.get(&(tag as u32))
    }
}

} // verus!
