//! Textures and their name registry.
//!
//! A texture is a backend allocation with its sampling parameters and
//! pixel dimensions.  The registry caches textures by name, so that a
//! name is decoded and uploaded once and shared afterwards.  Image
//! decoding itself is the one outside call of this crate: the `image`
//! crate turns encoded bytes into raw pixels behind a trusted wrapper,
//! and everything around that call is verified.

use vstd::prelude::*;
use crate::context::RenderContext;

verus! {

/// How a texture coordinate outside the unit square samples.
#[derive(Clone, Copy, PartialEq, Eq, Structural, Debug, Hash)]
pub enum TextureWrapping {
    /// Repeat the texture.
    Repeat,
    /// Repeat it mirrored.
    MirroredRepeat,
    /// Clamp to the border texels.
    ClampToEdge,
}

/// One texture: its backend name, sampling parameters and dimensions.
#[derive(Clone, Copy, PartialEq, Eq, Structural, Debug)]
pub struct Texture {
    /// The backend name of the allocation.
    pub id: u64,
    /// Wrapping along the first axis.
    pub wrap_s: TextureWrapping,
    /// Wrapping along the second axis.
    pub wrap_t: TextureWrapping,
    /// Pixel width.
    pub width: u32,
    /// Pixel height.
    pub height: u32,
}

/// Decoded raw pixels: dimensions, channel layout and the bytes, rows
/// top to bottom.
pub struct ImagePixels {
    /// Whether the bytes carry four channels; three otherwise.
    pub rgba: bool,
    /// Pixel width.
    pub width: u32,
    /// Pixel height.
    pub height: u32,
    /// The raw channel bytes.
    pub data: Vec<u8>,
}

/// What decoding an encoded image byte stream yields: raw pixels when
/// the bytes hold a well-formed image, in a three- or four-channel
/// layout, in a format the decoder is built with — here PNG — and
/// nothing otherwise.  The result depends on the bytes alone.
pub uninterp spec fn decoded_image(bytes: Seq<u8>) -> Option<ImagePixels>;

/// Relies on `image::load_from_memory`: decoding is a pure function of
/// the input bytes; a three-channel image yields its raw buffer of
/// `3 * width * height` bytes, a four-channel one `4 * width * height`,
/// and any other outcome is reported as absent.
#[verifier::external_body]
fn decode_image(data: &[u8]) -> (r: Option<ImagePixels>)
    ensures
        (r is Some) == (decoded_image(data@) is Some),
        r matches Some(p) ==> (decoded_image(data@) matches Some(q) && p.rgba == q.rgba && p.width
            == q.width && p.height == q.height && p.data@ == q.data@),
        r matches Some(p) ==> p.data@.len() == (if p.rgba {
            4int
        } else {
            3int
        }) * (p.width as int) * (p.height as int),
{
    match image::load_from_memory(data) {
        Ok(image::DynamicImage::ImageRgb8(img)) => {
            let (width, height) = (img.width(), img.height());
            Some(ImagePixels { rgba: false, width, height, data: img.into_raw() })
        },
        Ok(image::DynamicImage::ImageRgba8(img)) => {
            let (width, height) = (img.width(), img.height());
            Some(ImagePixels { rgba: true, width, height, data: img.into_raw() })
        },
        _ => None,
    }
}

/// What resampling raw pixels to a new size yields.  The result
/// depends on the pixels, their layout and the target size alone.
pub uninterp spec fn resized_image(
    rgba: bool,
    w: u32,
    h: u32,
    data: Seq<u8>,
    nw: u32,
    nh: u32,
) -> Seq<u8>;

/// Relies on `image::imageops::resize` with the Catmull-Rom filter: a
/// pure resampling of the pixel grid to the target size, keeping the
/// channel layout.
#[verifier::external_body]
fn resize_pixels(p: &ImagePixels, nw: u32, nh: u32) -> (r: ImagePixels)
    requires
        p.data@.len() == (if p.rgba {
            4int
        } else {
            3int
        }) * (p.width as int) * (p.height as int),
        nw > 0,
        nh > 0,
    ensures
        r.rgba == p.rgba,
        r.width == nw,
        r.height == nh,
        r.data@ == resized_image(p.rgba, p.width, p.height, p.data@, nw, nh),
        r.data@.len() == (if p.rgba {
            4int
        } else {
            3int
        }) * (nw as int) * (nh as int),
{
    if p.rgba {
        let img = image::RgbaImage::from_raw(p.width, p.height, p.data.clone()).unwrap();
        let out = image::imageops::resize(&img, nw, nh, image::imageops::FilterType::CatmullRom);
        ImagePixels { rgba: true, width: nw, height: nh, data: out.into_raw() }
    } else {
        let img = image::RgbImage::from_raw(p.width, p.height, p.data.clone()).unwrap();
        let out = image::imageops::resize(&img, nw, nh, image::imageops::FilterType::CatmullRom);
        ImagePixels { rgba: false, width: nw, height: nh, data: out.into_raw() }
    }
}

impl Texture {
    /// Allocates a texture with default sampling and no storage yet.
    pub fn new(ctxt: &mut RenderContext) -> (t: Texture)
        ensures
            t.id == old(ctxt).next_id,
            t.wrap_s == TextureWrapping::Repeat,
            t.wrap_t == TextureWrapping::Repeat,
            t.width == 0 && t.height == 0,
            *final(ctxt) == (RenderContext {
                next_id: crate::context::sat64(old(ctxt).next_id + 1) as u64,
                ..*old(ctxt)
            }),
    {
        let id = ctxt.fresh_id();
        Texture {
            id,
            wrap_s: TextureWrapping::Repeat,
            wrap_t: TextureWrapping::Repeat,
            width: 0,
            height: 0,
        }
    }

    /// Sets the wrapping along the first axis.
    pub fn set_wrapping_s(&mut self, wrapping: TextureWrapping)
        ensures
            *final(self) == (Texture { wrap_s: wrapping, ..*old(self) }),
    {
        self.wrap_s = wrapping;
    }

    /// Sets the wrapping along the second axis.
    pub fn set_wrapping_t(&mut self, wrapping: TextureWrapping)
        ensures
            *final(self) == (Texture { wrap_t: wrapping, ..*old(self) }),
    {
        self.wrap_t = wrapping;
    }
}

/// The texture registry: a name resolves to one shared texture, and a
/// plain default texture always exists.
pub struct TextureManager {
    /// The default texture every object starts with.
    pub default_texture: Texture,
    /// The named textures.
    pub textures: Vec<(String, Texture)>,
    /// Whether newly added images also build reduced levels.
    pub generate_mipmaps: bool,
}

impl TextureManager {
    /// A registry holding only the default texture, freshly allocated
    /// from the context with default sampling and no storage.
    pub fn new(ctxt: &mut RenderContext) -> (m: TextureManager)
        ensures
            m.textures@.len() == 0,
            !m.generate_mipmaps,
            m.default_texture == (Texture {
                id: old(ctxt).next_id,
                wrap_s: TextureWrapping::Repeat,
                wrap_t: TextureWrapping::Repeat,
                width: 0,
                height: 0,
            }),
            *final(ctxt) == (RenderContext {
                next_id: crate::context::sat64(old(ctxt).next_id + 1) as u64,
                ..*old(ctxt)
            }),
    {
        let default_texture = Texture::new(ctxt);
        TextureManager { default_texture, textures: Vec::new(), generate_mipmaps: false }
    }

    /// The default texture.
    pub fn get_default(&self) -> (t: Texture)
        ensures
            t == self.default_texture,
    {
        self.default_texture
    }

    /// The position of a name in the registry, if present.
    fn find(&self, name: &str) -> (r: Option<usize>)
        ensures
            r matches Some(k) ==> (k as int) < self.textures@.len()
                && self.textures@[k as int].0@ == name@,
            r is None ==> forall|k: int|
                0 <= k < self.textures@.len() ==> (#[trigger] self.textures@[k].0@) != name@,
    {
        let owned = name.to_owned();
        let mut k: usize = 0;
        while k < self.textures.len()
            invariant
                k <= self.textures@.len(),
                owned@ == name@,
                forall|m: int| 0 <= m < k ==> (#[trigger] self.textures@[m].0@) != name@,
            decreases self.textures@.len() - k,
        {
            if self.textures[k].0 == owned {
                return Some(k);
            }
            k += 1;
        }
        None
    }

    /// The texture registered under `name`, if any.
    pub fn get(&self, name: &str) -> (r: Option<Texture>)
        ensures
            r matches Some(t) ==> exists|k: int|
                0 <= k < self.textures@.len() && (#[trigger] self.textures@[k]).0@ == name@
                    && self.textures@[k].1 == t,
            r is None ==> forall|k: int|
                0 <= k < self.textures@.len() ==> (#[trigger] self.textures@[k].0@) != name@,
    {
        match self.find(name) {
            Some(k) => Some(self.textures[k].1),
            None => None,
        }
    }

    /// The texture registered under `name` with its dimensions.
    pub fn get_with_size(&self, name: &str) -> (r: Option<(Texture, (u32, u32))>)
        ensures
            r matches Some(p) ==> exists|k: int|
                0 <= k < self.textures@.len() && (#[trigger] self.textures@[k]).0@ == name@
                    && self.textures@[k].1 == p.0 && p.1.0 == p.0.width && p.1.1 == p.0.height,
            r is None ==> forall|k: int|
                0 <= k < self.textures@.len() ==> (#[trigger] self.textures@[k].0@) != name@,
    {
        match self.find(name) {
            Some(k) => {
                let t = self.textures[k].1;
                Some((t, (t.width, t.height)))
            },
            None => None,
        }
    }

    /// Registers an empty texture under `name`, or returns the one
    /// already there: a name resolves to one texture, however often it
    /// is added.
    pub fn add_empty(&mut self, name: &str, ctxt: &mut RenderContext) -> (t: Texture)
        requires
            old(self).textures@.len() < usize::MAX as int,
        ensures
            final(self).default_texture == old(self).default_texture,
            final(self).generate_mipmaps == old(self).generate_mipmaps,
            (exists|k: int|
                0 <= k < old(self).textures@.len() && (#[trigger] old(self).textures@[k]).0@
                    == name@) ==> (exists|k: int|
                0 <= k < old(self).textures@.len() && (#[trigger] old(self).textures@[k]).0@
                    == name@ && old(self).textures@[k].1 == t) && *final(self) == *old(self)
                && *final(ctxt) == *old(ctxt),
            (forall|k: int|
                0 <= k < old(self).textures@.len() ==> (#[trigger] old(self).textures@[k].0@)
                    != name@) ==> ({
                &&& t == (Texture {
                    id: old(ctxt).next_id,
                    wrap_s: TextureWrapping::Repeat,
                    wrap_t: TextureWrapping::Repeat,
                    width: 0,
                    height: 0,
                })
                &&& final(self).textures@.len() == old(self).textures@.len() + 1
                &&& final(self).textures@.last().0@ == name@
                &&& final(self).textures@.last().1 == t
                &&& final(self).textures@.drop_last() == old(self).textures@
                &&& *final(ctxt) == (RenderContext {
                    next_id: crate::context::sat64(old(ctxt).next_id + 1) as u64,
                    ..*old(ctxt)
                })
            }),
    {
        match self.find(name) {
            Some(k) => self.textures[k].1,
            None => {
                let t = Texture::new(ctxt);
                self.textures.push((name.to_owned(), t));
                t
            },
        }
    }

    /// Decodes `image_data` and registers the pixels as a texture
    /// under `name`, or returns the texture already registered there.
    /// Undecodable bytes yield nothing; decodable ones yield a texture
    /// carrying the decoded dimensions, uploaded once.
    pub fn add_image_from_memory(
        &mut self,
        image_data: &[u8],
        name: &str,
        ctxt: &mut RenderContext,
    ) -> (r: Option<Texture>)
        requires
            old(self).textures@.len() < usize::MAX as int,
        ensures
            final(self).default_texture == old(self).default_texture,
            (exists|k: int|
                0 <= k < old(self).textures@.len() && (#[trigger] old(self).textures@[k]).0@
                    == name@) ==> r is Some && *final(self) == *old(self) && *final(ctxt) == *old(
                ctxt,
            ),
            (forall|k: int|
                0 <= k < old(self).textures@.len() ==> (#[trigger] old(self).textures@[k].0@)
                    != name@) ==> ({
                &&& (r is Some) == (decoded_image(image_data@) is Some)
                &&& (r matches Some(t) ==> (decoded_image(image_data@) matches Some(p) && t.width
                    == p.width && t.height == p.height
                    && final(self).textures@.len() == old(self).textures@.len() + 1
                    && final(self).textures@.last().0@ == name@
                    && final(self).textures@.last().1 == t
                    && final(self).textures@.drop_last() == old(self).textures@))
                &&& (r is None ==> *final(self) == *old(self) && *final(ctxt) == *old(ctxt))
                &&& (r is Some && !old(self).generate_mipmaps ==> final(ctxt).uploads
                    == crate::context::sat64(old(ctxt).uploads + 1))
                &&& (r is Some ==> final(ctxt).uploads >= old(ctxt).uploads)
            }),
    {
        match self.find(name) {
            Some(k) => Some(self.textures[k].1),
            None => {
                match decode_image(image_data) {
                    Some(p) => {
                        let mut t = Texture::new(ctxt);
                        t.width = p.width;
                        t.height = p.height;
                        t.wrap_s = TextureWrapping::ClampToEdge;
                        t.wrap_t = TextureWrapping::ClampToEdge;
                        ctxt.note_upload();
                        if self.generate_mipmaps && p.width > 0 && p.height > 0 {
                            // Build the reduced levels, halving until a
                            // single texel remains, uploading each.
                            let mut level = resize_pixels(&p, p.width, p.height);
                            while level.width > 1 || level.height > 1
                                invariant
                                    ctxt.uploads >= old(ctxt).uploads,
                                    level.width > 0,
                                    level.height > 0,
                                    level.data@.len() == (if level.rgba {
                                        4int
                                    } else {
                                        3int
                                    }) * (level.width as int) * (level.height as int),
                                decreases level.width + level.height,
                            {
                                let w = level.width / 2 + level.width % 2;
                                let h = level.height / 2 + level.height % 2;
                                level = resize_pixels(&level, w, h);
                                ctxt.note_upload();
                            }
                        }
                        self.textures.push((name.to_owned(), t));
                        Some(t)
                    },
                    None => None,
                }
            },
        }
    }

    /// Turns mipmap generation for later additions on or off.
    pub fn set_generate_mipmaps(&mut self, enabled: bool)
        ensures
            *final(self) == (TextureManager { generate_mipmaps: enabled, ..*old(self) }),
    {
        self.generate_mipmaps = enabled;
    }
}

} // verus!
