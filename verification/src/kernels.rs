//! The numeric conversion routines of the outside libraries. Their pixel
//! arithmetic is taken as given: each stands behind a contract that says
//! what it needs and the little that is claimed of it.

pub mod decode16;
pub mod decode8;
pub mod encode;
pub mod encode_yuv;
pub mod packed30;

use vstd::prelude::*;

verus! {

#[verifier::external_type_specification]
#[verifier::external_body]
pub struct ExKernelError(yuvutils_rs::YuvError);

#[verifier::external_type_specification]
#[verifier::external_body]
pub struct ExEncoderError(yuv::YuvError);

} // verus!
