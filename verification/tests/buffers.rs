//! Deferred CPU-to-GPU synchronization: upload laziness, idempotence
//! of clean buffers, and sync before the CPU side is dropped.

use starman::context::RenderContext;
use starman::gpu_vector::{AllocationType, BufferType, GPUVec};

#[test]
fn first_load_allocates_and_uploads_once() {
    let mut ctxt = RenderContext::new(true);
    let mut v: GPUVec<u32> = GPUVec::new(vec![1, 2, 3], BufferType::Array,
        AllocationType::StaticDraw);
    assert!(v.trash());
    assert!(!v.is_on_gpu());
    v.load_to_gpu(&mut ctxt);
    assert!(!v.trash());
    assert!(v.is_on_gpu());
    assert_eq!(ctxt.uploads, 1);
    assert_eq!(v.buffer.as_ref().unwrap().contents, vec![1, 2, 3]);
}

#[test]
fn clean_buffer_never_reuploads() {
    let mut ctxt = RenderContext::new(true);
    let mut v: GPUVec<u32> = GPUVec::new(vec![1, 2, 3], BufferType::Array,
        AllocationType::StaticDraw);
    v.load_to_gpu(&mut ctxt);
    assert_eq!(ctxt.uploads, 1);
    // A second synchronization of a clean buffer transfers nothing.
    v.load_to_gpu(&mut ctxt);
    assert_eq!(ctxt.uploads, 1);
    v.bind(&mut ctxt);
    assert_eq!(ctxt.uploads, 1);
}

#[test]
fn dirty_buffer_reuploads_in_place_when_smaller() {
    let mut ctxt = RenderContext::new(true);
    let mut v: GPUVec<u32> = GPUVec::new(vec![1, 2, 3, 4], BufferType::Array,
        AllocationType::DynamicDraw);
    v.load_to_gpu(&mut ctxt);
    v.set_data(vec![9, 8]);
    assert!(v.trash());
    v.load_to_gpu(&mut ctxt);
    assert_eq!(ctxt.uploads, 2);
    // The shorter data updated the prefix; the allocation kept its size.
    assert_eq!(v.buffer.as_ref().unwrap().contents, vec![9, 8, 3, 4]);
    assert_eq!(v.len(), 2);
}

#[test]
fn dirty_buffer_reallocates_when_larger() {
    let mut ctxt = RenderContext::new(true);
    let mut v: GPUVec<u32> = GPUVec::new(vec![1, 2], BufferType::Array,
        AllocationType::DynamicDraw);
    v.load_to_gpu(&mut ctxt);
    v.set_data(vec![5, 6, 7]);
    v.load_to_gpu(&mut ctxt);
    assert_eq!(v.buffer.as_ref().unwrap().contents, vec![5, 6, 7]);
    assert_eq!(v.len(), 3);
}

#[test]
fn unload_from_ram_syncs_unsaved_data_first() {
    let mut ctxt = RenderContext::new(true);
    let mut v: GPUVec<u32> = GPUVec::new(vec![1, 2, 3], BufferType::Array,
        AllocationType::StaticDraw);
    v.load_to_gpu(&mut ctxt);
    v.set_data(vec![7, 7, 7]);
    // Dropping the CPU side of a dirty buffer writes it back first:
    // reading the backend copy gives the last written data.
    v.unload_from_ram(&mut ctxt);
    assert!(!v.is_on_ram());
    assert!(!v.trash());
    assert_eq!(v.buffer.as_ref().unwrap().contents, vec![7, 7, 7]);
    assert_eq!(v.len(), 3);
}

#[test]
fn unload_from_ram_of_an_unuploaded_buffer_syncs_too() {
    let mut ctxt = RenderContext::new(true);
    let mut v: GPUVec<u32> = GPUVec::new(vec![4, 5], BufferType::Array,
        AllocationType::StaticDraw);
    v.unload_from_ram(&mut ctxt);
    assert!(v.is_on_gpu());
    assert_eq!(v.buffer.as_ref().unwrap().contents, vec![4, 5]);
}

#[test]
fn len_survives_unloading_both_sides() {
    let mut ctxt = RenderContext::new(true);
    let mut v: GPUVec<u32> = GPUVec::new(vec![1, 2, 3], BufferType::ElementArray,
        AllocationType::StaticDraw);
    v.load_to_gpu(&mut ctxt);
    v.unload_from_ram(&mut ctxt);
    assert_eq!(v.len(), 3);
    v.unload_from_gpu();
    assert!(!v.is_on_gpu());
    assert!(!v.is_on_ram());
    assert_eq!(v.len(), 3);
}

#[test]
fn bind_tracks_the_slot() {
    let mut ctxt = RenderContext::new(true);
    let mut v: GPUVec<u32> = GPUVec::new(vec![1], BufferType::Array, AllocationType::StaticDraw);
    v.bind(&mut ctxt);
    let id = v.buffer.as_ref().unwrap().id;
    assert_eq!(ctxt.bound_array, Some(id));
    v.unbind(&mut ctxt);
    assert_eq!(ctxt.bound_array, None);
}

#[test]
fn to_owned_copies_the_resident_data() {
    let v: GPUVec<u32> = GPUVec::new(vec![1, 2], BufferType::Array, AllocationType::StaticDraw);
    assert_eq!(v.to_owned(), Some(vec![1, 2]));
}
