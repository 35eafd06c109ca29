//! Adapts strided pixel memory to typed planes, routes a format descriptor to
//! its conversion routine and writes results back in the caller's layout.
//!
//! Pixel memory arrives as bytes with a row stride. Planes of 16-bit samples
//! may start at any address: they are viewed in place where the memory is
//! packed and word-aligned and staged through a packed copy otherwise, and
//! results take the same two ways back. The pixel arithmetic itself belongs
//! to outside libraries and stands behind contracts in `kernels`.

pub mod cvt;
pub mod dispatch;
pub mod format;
pub mod icc;
pub mod kernels;
pub mod planes;
pub mod rgb_to_yuv;
pub mod scale;
pub mod support;
pub mod tonemapper;
pub mod words;
pub mod yuv_to_rgb;

pub use cvt::{weave_cvt_rgba16_to_ar30, weave_cvt_rgba8_to_ar30};
pub use format::{
    Kernel, KernelFamily, PackedDepth, PixelError, SampleDepth, StandardMatrix, YuvMatrix,
    YuvRange, YuvType,
};
pub use icc::{
    apply_icc_rgba16, apply_icc_rgba8, free_profile, new_adobe_rgb_profile, new_dci_p3_profile,
    straight_copy, BuiltinProfile, ColorOutcome, FfiProfileData,
};
pub use rgb_to_yuv::{
    weave_rgba8_to_y08, weave_rgba8_to_yuv8, weave_rgba_to_yuv, weave_rgba_to_yuv400,
};
pub use scale::{weave_scale_u16, weave_scale_u8, ScaleFilter};
pub use support::{SliceStore, SliceStoreMut};
pub use tonemapper::{
    apply_tone_mapping_rgba16, apply_tone_mapping_rgba8, FfiTrc, ToneMapping, ToneSpace,
};
pub use yuv_to_rgb::{
    weave_yuv16_to_rgba16, weave_yuv16_with_alpha_to_rgba16, weave_yuv400_p16_to_rgba16,
    weave_yuv400_p16_with_alpha_to_rgba16, weave_yuv400_to_rgba8,
    weave_yuv400_with_alpha_to_rgba8, weave_yuv8_to_rgba8, weave_yuv8_with_alpha_to_rgba8,
};
