//! Texture registry behaviour and image decoding, the framebuffer
//! state machine, and the input vocabulary.

use std::io::Cursor;

use starman::context::RenderContext;
use starman::event::{Action, Key, Modifiers, MouseButton, NumSamples, TouchAction, MODIFIER_ALT,
    MODIFIER_SHIFT};
use starman::framebuffer::{FramebufferManager, RenderTarget};
use starman::texture::{TextureManager, TextureWrapping};

fn tiny_png(w: u32, h: u32) -> Vec<u8> {
    let img = image::RgbImage::from_raw(w, h, vec![10u8; (w * h * 3) as usize]).unwrap();
    let mut out = Cursor::new(Vec::new());
    image::DynamicImage::ImageRgb8(img)
        .write_to(&mut out, image::ImageOutputFormat::Png)
        .unwrap();
    out.into_inner()
}

#[test]
fn decoded_image_is_registered_with_its_dimensions() {
    let mut ctxt = RenderContext::new(true);
    let mut tm = TextureManager::new(&mut ctxt);
    let bytes = tiny_png(2, 1);
    let t = tm.add_image_from_memory(&bytes, "checker", &mut ctxt).unwrap();
    // The decoder really ran: the stored dimensions come from the
    // decoded image, not from the byte stream handed in.
    assert_eq!((t.width, t.height), (2, 1));
    let (t2, size) = tm.get_with_size("checker").unwrap();
    assert_eq!(size, (2, 1));
    assert_eq!(t2, t);
    assert_eq!(ctxt.uploads, 1);
}

#[test]
fn undecodable_bytes_register_nothing() {
    let mut ctxt = RenderContext::new(true);
    let mut tm = TextureManager::new(&mut ctxt);
    let r = tm.add_image_from_memory(&[1, 2, 3, 4], "junk", &mut ctxt);
    assert!(r.is_none());
    assert!(tm.get("junk").is_none());
}

#[test]
fn a_name_is_decoded_once_and_shared() {
    let mut ctxt = RenderContext::new(true);
    let mut tm = TextureManager::new(&mut ctxt);
    let bytes = tiny_png(1, 1);
    let t1 = tm.add_image_from_memory(&bytes, "one", &mut ctxt).unwrap();
    let uploads = ctxt.uploads;
    let t2 = tm.add_image_from_memory(&bytes, "one", &mut ctxt).unwrap();
    assert_eq!(t1, t2);
    assert_eq!(ctxt.uploads, uploads);
}

#[test]
fn textures_carry_their_wrapping() {
    let mut ctxt = RenderContext::new(true);
    let mut tm = TextureManager::new(&mut ctxt);
    let mut t = tm.add_empty("slot", &mut ctxt);
    assert_eq!(t.wrap_s, TextureWrapping::Repeat);
    t.set_wrapping_s(TextureWrapping::ClampToEdge);
    t.set_wrapping_t(TextureWrapping::MirroredRepeat);
    assert_eq!(t.wrap_s, TextureWrapping::ClampToEdge);
    assert_eq!(t.wrap_t, TextureWrapping::MirroredRepeat);
}

#[test]
fn framebuffer_selection_is_idempotent() {
    let mut ctxt = RenderContext::new(true);
    let mut fm = FramebufferManager::new(&mut ctxt);
    let target = FramebufferManager::new_render_target(64, 64, true, &mut ctxt);
    assert!(matches!(target, RenderTarget::Offscreen { .. }));
    assert!(target.texture_id().is_some());
    fm.select(&target, &mut ctxt);
    let bound = ctxt.bound_framebuffer;
    assert!(bound.is_some());
    // Selecting the side already bound touches nothing.
    fm.select(&target, &mut ctxt);
    assert_eq!(ctxt.bound_framebuffer, bound);
    fm.select(&FramebufferManager::screen(), &mut ctxt);
    assert_eq!(ctxt.bound_framebuffer, None);
    fm.select(&FramebufferManager::screen(), &mut ctxt);
    assert_eq!(ctxt.bound_framebuffer, None);
}

#[test]
fn sample_counts_accept_only_powers_of_two() {
    assert_eq!(NumSamples::from_u32(0), Some(NumSamples::Zero));
    assert_eq!(NumSamples::from_u32(1), Some(NumSamples::One));
    assert_eq!(NumSamples::from_u32(2), Some(NumSamples::Two));
    assert_eq!(NumSamples::from_u32(4), Some(NumSamples::Four));
    assert_eq!(NumSamples::from_u32(8), Some(NumSamples::Eight));
    assert_eq!(NumSamples::from_u32(16), Some(NumSamples::Sixteen));
    assert_eq!(NumSamples::from_u32(3), None);
    assert_eq!(NumSamples::from_u32(32), None);
}

#[test]
fn modifiers_form_a_bit_set() {
    let shift = Modifiers { bits: MODIFIER_SHIFT };
    let alt = Modifiers { bits: MODIFIER_ALT };
    let both = shift.union(&alt);
    assert!(both.contains(&shift));
    assert!(both.contains(&alt));
    assert!(!shift.contains(&alt));
    assert!(both.contains(&Modifiers::empty()));
}

#[test]
fn input_vocabulary_is_comparable() {
    assert_ne!(Key::A, Key::B);
    assert_eq!(Action::Press, Action::Press);
    assert_ne!(Action::Press, Action::Release);
    assert_ne!(MouseButton::Button1, MouseButton::Button2);
    assert_ne!(TouchAction::Start, TouchAction::End);
}

#[test]
fn mipmap_generation_uploads_each_level() {
    let mut ctxt = RenderContext::new(true);
    let mut tm = TextureManager::new(&mut ctxt);
    tm.set_generate_mipmaps(true);
    let bytes = {
        let img = image::RgbImage::from_raw(4, 4, vec![10u8; 48]).unwrap();
        let mut out = Cursor::new(Vec::new());
        image::DynamicImage::ImageRgb8(img)
            .write_to(&mut out, image::ImageOutputFormat::Png)
            .unwrap();
        out.into_inner()
    };
    let t = tm.add_image_from_memory(&bytes, "mipped", &mut ctxt).unwrap();
    assert_eq!((t.width, t.height), (4, 4));
    // The base level and the two reduced levels: 4x4, 2x2, 1x1.
    assert_eq!(ctxt.uploads, 3);
}
