//! The asset manager: three independent name-keyed caches.
//!
//! Images, textures and sounds live in separate namespaces; the same name
//! may appear in more than one, standing for different forms of one
//! logical asset. Caches start empty, are populated by batch merges, and
//! change afterwards only through explicit insertion, conversion or
//! placeholder calls. A missing name is a reported [`AssetError`], never
//! a crash.

use vstd::prelude::*;
use vstd::hash_map::StringHashMap;

use crate::assets::Image;
use crate::assets::Texture;
use crate::assets::read_back;
use crate::assets::upload_image;
use crate::batch::LoadOutcome;
use crate::batch::failed_paths;
use crate::batch::lemma_merged_value_source;
use crate::batch::loaded_as;
use crate::batch::merge_outcomes;
use crate::batch::merged;
use crate::batch::views_of;
use macroquad::audio::Sound;

verus! {

/// The recoverable failures the caches report.
#[derive(Debug, PartialEq, Eq, Structural)]
pub enum AssetError {
    /// A lookup or conversion named a key absent from its source cache.
    NotFound,
}

/// True when a loaded image outcome carries a well-formed pixel buffer.
pub open spec fn wf_loaded(o: LoadOutcome<Image>) -> bool {
    match o {
        LoadOutcome::Loaded(_, img) => img.wf(),
        LoadOutcome::Failed(_) => true,
    }
}

/// Every loaded outcome of an image batch carries a well-formed buffer.
pub open spec fn wf_image_outcomes(s: Seq<LoadOutcome<Image>>) -> bool {
    forall|i: int| 0 <= i < s.len() ==> wf_loaded(#[trigger] s[i])
}

/// The outcomes a configured directory contributed: none when the
/// directory was absent.
pub open spec fn outcome_seq<V>(o: Option<Vec<LoadOutcome<V>>>) -> Seq<LoadOutcome<V>> {
    match o {
        Some(v) => v@,
        None => Seq::empty(),
    }
}

/// Relates a manager before and after a successful `image_to_tex` for
/// `name`: the texture cache gained (or overwrote) `name` with a texture
/// of the source image's pixel size; every other entry, and the other two
/// caches, stayed as they were.
pub open spec fn image_to_tex_ok(pre: AssetManager, post: AssetManager, name: Seq<char>) -> bool {
    &&& pre.images@.contains_key(name)
    &&& post.images@ == pre.images@
    &&& post.sounds@ == pre.sounds@
    &&& post.textures@.contains_key(name)
    &&& post.textures@ == pre.textures@.insert(name, post.textures@[name])
    &&& post.textures@[name].spec_width() == pre.images@[name].width
    &&& post.textures@[name].spec_height() == pre.images@[name].height
}

/// Relates a manager before and after a successful `tex_to_image` for
/// `name`: the image cache gained (or overwrote) `name` with the read
/// back pixel buffer, of the source texture's pixel size; every other
/// entry, and the other two caches, stayed as they were.
pub open spec fn tex_to_image_ok(pre: AssetManager, post: AssetManager, name: Seq<char>) -> bool {
    &&& pre.textures@.contains_key(name)
    &&& post.textures@ == pre.textures@
    &&& post.sounds@ == pre.sounds@
    &&& post.images@.contains_key(name)
    &&& post.images@ == pre.images@.insert(name, post.images@[name])
    &&& post.images@[name].width == pre.textures@[name].spec_width()
    &&& post.images@[name].height == pre.textures@[name].spec_height()
    &&& post.images@[name].wf()
}

/// Owns the three caches. Keys within one cache are unique; the caches
/// are independent, and conversions between them are explicit calls.
pub struct AssetManager {
    pub images: StringHashMap<Image>,
    pub textures: StringHashMap<Texture>,
    pub sounds: StringHashMap<Sound>,
}

impl AssetManager {
    /// Every cached image is a well-formed pixel buffer. Constructors
    /// establish this and every operation preserves it.
    pub open spec fn wf(&self) -> bool {
        forall|k: Seq<char>| #[trigger] self.images@.contains_key(k) ==> self.images@[k].wf()
    }

    /// A manager with all three caches empty; no loading is performed.
    pub fn empty() -> (r: Self)
        ensures
            r.images@ == Map::<Seq<char>, Image>::empty(),
            r.textures@ == Map::<Seq<char>, Texture>::empty(),
            r.sounds@ == Map::<Seq<char>, Sound>::empty(),
            r.wf(),
    {
        AssetManager {
            images: StringHashMap::new(),
            textures: StringHashMap::new(),
            sounds: StringHashMap::new(),
        }
    }

    /// Configured construction: merges one optional batch of load
    /// outcomes per cache — the scan of up to three configured
    /// directories — into a fresh manager. An absent directory
    /// contributes nothing. Returns the manager together with the
    /// diagnostics of the three batches, in batch order.
    pub fn new(
        texture_batch: Option<Vec<LoadOutcome<Texture>>>,
        image_batch: Option<Vec<LoadOutcome<Image>>>,
        sound_batch: Option<Vec<LoadOutcome<Sound>>>,
    ) -> (r: (Self, Vec<String>))
        requires
            wf_image_outcomes(outcome_seq(image_batch)),
        ensures
            r.0.textures@ == merged(
                Map::<Seq<char>, Texture>::empty(),
                outcome_seq(texture_batch),
            ),
            r.0.images@ == merged(Map::<Seq<char>, Image>::empty(), outcome_seq(image_batch)),
            r.0.sounds@ == merged(Map::<Seq<char>, Sound>::empty(), outcome_seq(sound_batch)),
            views_of(r.1@) == failed_paths(outcome_seq(texture_batch)) + failed_paths(
                outcome_seq(image_batch),
            ) + failed_paths(outcome_seq(sound_batch)),
            r.0.wf(),
    {
        let mut m = Self::empty();
        let mut diags: Vec<String> = Vec::new();
        if let Some(b) = texture_batch {
            let mut f = m.apply_texture_batch(b);
            diags.append(&mut f);
        }
        if let Some(b) = image_batch {
            let mut f = m.apply_image_batch(b);
            diags.append(&mut f);
        }
        if let Some(b) = sound_batch {
            let mut f = m.apply_sound_batch(b);
            diags.append(&mut f);
        }
        proof {
            assert(views_of(diags@) =~= failed_paths(outcome_seq(texture_batch)) + failed_paths(
                outcome_seq(image_batch),
            ) + failed_paths(outcome_seq(sound_batch)));
        }
        (m, diags)
    }

    /// Merges one batch of texture load outcomes into the texture cache:
    /// completion order decides collisions, failures only produce
    /// diagnostics.
    pub fn apply_texture_batch(&mut self, outcomes: Vec<LoadOutcome<Texture>>) -> (failed: Vec<
        String,
    >)
        requires
            old(self).wf(),
        ensures
            final(self).textures@ == merged(old(self).textures@, outcomes@),
            final(self).images@ == old(self).images@,
            final(self).sounds@ == old(self).sounds@,
            views_of(failed@) == failed_paths(outcomes@),
            final(self).wf(),
    {
        merge_outcomes(&mut self.textures, outcomes)
    }

    /// Merges one batch of image load outcomes into the image cache.
    pub fn apply_image_batch(&mut self, outcomes: Vec<LoadOutcome<Image>>) -> (failed: Vec<String>)
        requires
            old(self).wf(),
            wf_image_outcomes(outcomes@),
        ensures
            final(self).images@ == merged(old(self).images@, outcomes@),
            final(self).textures@ == old(self).textures@,
            final(self).sounds@ == old(self).sounds@,
            views_of(failed@) == failed_paths(outcomes@),
            final(self).wf(),
    {
        let ghost m0 = self.images@;
        let ghost s = outcomes@;
        let failed = merge_outcomes(&mut self.images, outcomes);
        proof {
            assert forall|k: Seq<char>| #[trigger] self.images@.contains_key(k) implies self
                .images@[k].wf() by {
                lemma_merged_value_source(m0, s, k);
                if !(m0.contains_key(k) && merged(m0, s)[k] == m0[k]) {
                    let i0 = choose|i: int| 0 <= i < s.len() && loaded_as(s[i], k, merged(m0, s)[k]);
                    assert(wf_loaded(s[i0]));
                }
            }
        }
        failed
    }

    /// Merges one batch of sound load outcomes into the sound cache.
    pub fn apply_sound_batch(&mut self, outcomes: Vec<LoadOutcome<Sound>>) -> (failed: Vec<String>)
        requires
            old(self).wf(),
        ensures
            final(self).sounds@ == merged(old(self).sounds@, outcomes@),
            final(self).images@ == old(self).images@,
            final(self).textures@ == old(self).textures@,
            views_of(failed@) == failed_paths(outcomes@),
            final(self).wf(),
    {
        merge_outcomes(&mut self.sounds, outcomes)
    }

    /// Uploads the cached image `name` to a new texture stored under the
    /// same name, overwriting any prior texture of that name. Reports
    /// `NotFound`, and changes nothing, when no image of that name is
    /// cached. The upload is the rendering subsystem's: the call may only
    /// run on the thread of a live macroquad application.
    pub fn image_to_tex(&mut self, name: &str) -> (r: Result<(), AssetError>)
        requires
            old(self).wf(),
        ensures
            final(self).wf(),
            match r {
                Ok(()) => image_to_tex_ok(*old(self), *final(self), name@),
                Err(e) => {
                    &&& e == AssetError::NotFound
                    &&& !old(self).images@.contains_key(name@)
                    &&& final(self).images@ == old(self).images@
                    &&& final(self).textures@ == old(self).textures@
                    &&& final(self).sounds@ == old(self).sounds@
                },
            },
    {
        match self.images.get(name) {
            Some(img) => {
                let t = upload_image(img);
                self.textures.insert(name.to_owned(), t);
                Ok(())
            },
            None => Err(AssetError::NotFound),
        }
    }

    /// Reads the pixel data of the cached texture `name` back into an
    /// image stored under the same name, overwriting any prior image of
    /// that name. Reports `NotFound`, and changes nothing, when no
    /// texture of that name is cached. The readback is the rendering
    /// subsystem's: the call may only run on the thread of a live
    /// macroquad application.
    pub fn tex_to_image(&mut self, name: &str) -> (r: Result<(), AssetError>)
        requires
            old(self).wf(),
        ensures
            final(self).wf(),
            match r {
                Ok(()) => tex_to_image_ok(*old(self), *final(self), name@),
                Err(e) => {
                    &&& e == AssetError::NotFound
                    &&& !old(self).textures@.contains_key(name@)
                    &&& final(self).images@ == old(self).images@
                    &&& final(self).textures@ == old(self).textures@
                    &&& final(self).sounds@ == old(self).sounds@
                },
            },
    {
        match self.textures.get(name) {
            Some(t) => {
                let img = read_back(t);
                self.images.insert(name.to_owned(), img);
                Ok(())
            },
            None => Err(AssetError::NotFound),
        }
    }

    /// Stores `tex` — the placeholder just rendered for `text` — in the
    /// texture cache under the text itself as the asset name, overwriting
    /// any prior entry, and hands back a reference to the stored handle.
    /// The offscreen rendering that produces `tex`, and the restoration
    /// of the previous rendering view, are the rendering side's part and
    /// happen before this call.
    pub fn add_get_placeholder<'a>(&'a mut self, text: &str, tex: Texture) -> (r: &'a Texture)
        requires
            old(self).wf(),
        ensures
            final(self).wf(),
            final(self).textures@ == old(self).textures@.insert(text@, tex),
            final(self).images@ == old(self).images@,
            final(self).sounds@ == old(self).sounds@,
            *r == tex,
    {
        self.textures.insert(text.to_owned(), tex);
        match self.textures.get(text) {
            Some(t) => t,
            None => vstd::pervasive::unreached(),
        }
    }

    /// Inserts an image under `name`, overwriting any prior entry.
    pub fn insert_image(&mut self, name: String, img: Image)
        requires
            old(self).wf(),
            img.wf(),
        ensures
            final(self).wf(),
            final(self).images@ == old(self).images@.insert(name@, img),
            final(self).textures@ == old(self).textures@,
            final(self).sounds@ == old(self).sounds@,
    {
        self.images.insert(name, img);
    }

    /// Inserts a texture under `name`, overwriting any prior entry.
    pub fn insert_texture(&mut self, name: String, tex: Texture)
        requires
            old(self).wf(),
        ensures
            final(self).wf(),
            final(self).textures@ == old(self).textures@.insert(name@, tex),
            final(self).images@ == old(self).images@,
            final(self).sounds@ == old(self).sounds@,
    {
        self.textures.insert(name, tex);
    }

    /// Inserts a sound under `name`, overwriting any prior entry.
    pub fn insert_sound(&mut self, name: String, sound: Sound)
        requires
            old(self).wf(),
        ensures
            final(self).wf(),
            final(self).sounds@ == old(self).sounds@.insert(name@, sound),
            final(self).images@ == old(self).images@,
            final(self).textures@ == old(self).textures@,
    {
        self.sounds.insert(name, sound);
    }

    /// Looks an image up by name; a missing key is a `None`, never a
    /// crash.
    pub fn get_image<'a>(&'a self, name: &str) -> (r: Option<&'a Image>)
        ensures
            match r {
                Some(img) => self.images@.contains_key(name@) && *img == self.images@[name@],
                None => !self.images@.contains_key(name@),
            },
    {
        self.images.get(name)
    }

    /// Looks a texture up by name.
    pub fn get_texture<'a>(&'a self, name: &str) -> (r: Option<&'a Texture>)
        ensures
            match r {
                Some(t) => self.textures@.contains_key(name@) && *t == self.textures@[name@],
                None => !self.textures@.contains_key(name@),
            },
    {
        self.textures.get(name)
    }

    /// Looks a sound up by name.
    pub fn get_sound<'a>(&'a self, name: &str) -> (r: Option<&'a Sound>)
        ensures
            match r {
                Some(s) => self.sounds@.contains_key(name@) && *s == self.sounds@[name@],
                None => !self.sounds@.contains_key(name@),
            },
    {
        self.sounds.get(name)
    }

    /// How many images are cached.
    pub fn image_count(&self) -> (n: usize)
        ensures
            n == self.images@.len(),
    {
        self.images.len()
    }

    /// How many textures are cached.
    pub fn texture_count(&self) -> (n: usize)
        ensures
            n == self.textures@.len(),
    {
        self.textures.len()
    }

    /// How many sounds are cached.
    pub fn sound_count(&self) -> (n: usize)
        ensures
            n == self.sounds@.len(),
    {
        self.sounds.len()
    }
}

/// Uploading a cached image to a texture and reading that texture back
/// yields an image of the original's pixel size. The pixel data itself
/// may differ: the round trip through the GPU format is not required to
/// be lossless.
pub proof fn lemma_conversion_preserves_dimensions(
    m0: AssetManager,
    m1: AssetManager,
    m2: AssetManager,
    name: Seq<char>,
)
    requires
        image_to_tex_ok(m0, m1, name),
        tex_to_image_ok(m1, m2, name),
    ensures
        m2.images@.contains_key(name),
        m2.images@[name].width == m0.images@[name].width,
        m2.images@[name].height == m0.images@[name].height,
{
}

/// The two construction paths agree: configured construction, and empty
/// construction followed by the same three batches, leave identical
/// caches — each cache is the merge of its batch into the empty map,
/// whichever path built it.
pub proof fn lemma_construction_paths_agree(
    configured: AssetManager,
    stepwise: AssetManager,
    texture_batch: Seq<LoadOutcome<Texture>>,
    image_batch: Seq<LoadOutcome<Image>>,
    sound_batch: Seq<LoadOutcome<Sound>>,
)
    requires
        configured.textures@ == merged(Map::<Seq<char>, Texture>::empty(), texture_batch),
        configured.images@ == merged(Map::<Seq<char>, Image>::empty(), image_batch),
        configured.sounds@ == merged(Map::<Seq<char>, Sound>::empty(), sound_batch),
        stepwise.textures@ == merged(Map::<Seq<char>, Texture>::empty(), texture_batch),
        stepwise.images@ == merged(Map::<Seq<char>, Image>::empty(), image_batch),
        stepwise.sounds@ == merged(Map::<Seq<char>, Sound>::empty(), sound_batch),
    ensures
        configured.textures@ == stepwise.textures@,
        configured.images@ == stepwise.images@,
        configured.sounds@ == stepwise.sounds@,
{
}

} // verus!
