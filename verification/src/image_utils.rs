//! The image stages around inference: from the caller's image to the
//! model's tensor, and from the model's tensor back to the caller's size.

use vstd::prelude::*;
use crate::blend::{blend, blend_spec};
use crate::codec::{decode, decode_accepts, decode_spec, encode, encode_spec};
use crate::error::StylizerError;
use crate::model_registry::ModelMeta;
use crate::resize::{lemma_resize_len, resize_accepts, resize_rgba, resize_spec};

verus! {

/// The input tensor for an image: the image resized to the model's
/// resolution, then encoded with the model's profile.
pub open spec fn preprocess_spec(image: Seq<u8>, width: int, height: int, meta: ModelMeta) -> Result<
    Seq<i128>,
    StylizerError,
> {
    if resize_accepts(image, width, height, meta.input_width as int, meta.input_height as int) {
        Ok(
            encode_spec(
                resize_spec(image, width, height, meta.input_width as int, meta.input_height as int),
                meta.input_width as int,
                meta.input_height as int,
                meta.profile,
            ),
        )
    } else {
        Err(StylizerError::InvalidDimensions)
    }
}

/// The image for an output tensor: the tensor decoded at the model's
/// resolution with the model's profile, then resized to the target.
pub open spec fn postprocess_spec(tensor: Seq<i128>, meta: ModelMeta, width: int, height: int) -> Result<
    Seq<u8>,
    StylizerError,
> {
    if decode_accepts(tensor, meta.input_width as int, meta.input_height as int) && resize_accepts(
        decode_spec(tensor, meta.input_width as int, meta.input_height as int, meta.profile),
        meta.input_width as int,
        meta.input_height as int,
        width,
        height,
    ) {
        Ok(
            resize_spec(
                decode_spec(tensor, meta.input_width as int, meta.input_height as int, meta.profile),
                meta.input_width as int,
                meta.input_height as int,
                width,
                height,
            ),
        )
    } else {
        Err(StylizerError::InvalidDimensions)
    }
}

/// Whether `shape` is that of one batch of three planes at the resolution
/// of `meta`: 1, 3, height, width.
pub open spec fn shape_matches(shape: Seq<usize>, meta: ModelMeta) -> bool {
    &&& shape.len() == 4
    &&& shape[0] == 1
    &&& shape[1] == 3
    &&& shape[2] == meta.input_height
    &&& shape[3] == meta.input_width
}

/// The stages that turn images into tensors and back.
#[derive(Clone, Copy, Debug)]
pub struct ImageProcessor {}

impl ImageProcessor {
    /// A processor; it holds nothing.
    pub fn new() -> ImageProcessor {
        ImageProcessor {  }
    }

    /// Resizes a `width` by `height` image to the resolution `meta` asks
    /// for and encodes it with the profile of `meta`.
    ///
    /// Refused with `InvalidDimensions`: what [`resize_rgba`] refuses.
    pub fn preprocess_image(&self, image: &[u8], width: u32, height: u32, meta: &ModelMeta) -> (r: Result<
        Vec<i128>,
        StylizerError,
    >)
        ensures
            preprocess_spec(image@, width as int, height as int, *meta) is Ok ==> r is Ok
                && r->Ok_0@ == preprocess_spec(image@, width as int, height as int, *meta)->Ok_0,
            preprocess_spec(image@, width as int, height as int, *meta) is Err ==> r == Err::<
                Vec<i128>,
                StylizerError,
            >(StylizerError::InvalidDimensions),
    {
        match resize_rgba(image, width, height, meta.input_width, meta.input_height) {
            Err(e) => Err(e),
            Ok(resized) => {
                proof {
                    lemma_resize_len(
                        image@,
                        width as int,
                        height as int,
                        meta.input_width as int,
                        meta.input_height as int,
                    );
                }
                encode(resized.as_slice(), meta.input_width, meta.input_height, &meta.profile)
            },
        }
    }

    /// Decodes an output tensor at the resolution and with the profile of
    /// `meta`, and resizes the image to `width` by `height`.
    ///
    /// Refused with `InvalidDimensions`: a tensor that is not three planes
    /// of the model's resolution, and what [`resize_rgba`] refuses.
    pub fn postprocess_image(&self, tensor: &[i128], meta: &ModelMeta, width: u32, height: u32) -> (r:
        Result<Vec<u8>, StylizerError>)
        ensures
            postprocess_spec(tensor@, *meta, width as int, height as int) is Ok ==> r is Ok
                && r->Ok_0@ == postprocess_spec(tensor@, *meta, width as int, height as int)->Ok_0,
            postprocess_spec(tensor@, *meta, width as int, height as int) is Err ==> r == Err::<
                Vec<u8>,
                StylizerError,
            >(StylizerError::InvalidDimensions),
    {
        match decode(tensor, meta.input_width, meta.input_height, &meta.profile) {
            Err(e) => Err(e),
            Ok(decoded) => resize_rgba(
                decoded.as_slice(),
                meta.input_width,
                meta.input_height,
                width,
                height,
            ),
        }
    }

    /// The shape of the tensors of the model: one batch, three planes,
    /// height, width.
    pub fn tensor_shape(&self, meta: &ModelMeta) -> (shape: [usize; 4])
        ensures
            shape_matches(shape@, *meta),
    {
        [1, 3, meta.input_height as usize, meta.input_width as usize]
    }

    /// Checks the shape of an output tensor against the model.
    ///
    /// Refused with `InvalidDimensions`: a shape that is not 1, 3, the
    /// model's height, the model's width.
    pub fn check_output_shape(&self, shape: &[usize], meta: &ModelMeta) -> (r: Result<
        (),
        StylizerError,
    >)
        ensures
            shape_matches(shape@, *meta) ==> r is Ok,
            !shape_matches(shape@, *meta) ==> r == Err::<(), StylizerError>(
                StylizerError::InvalidDimensions,
            ),
    {
        if shape.len() == 4 && shape[0] == 1 && shape[1] == 3 && shape[2]
            == meta.input_height as usize && shape[3] == meta.input_width as usize {
            Ok(())
        } else {
            Err(StylizerError::InvalidDimensions)
        }
    }

    /// Blends the stylized image over the original; see [`blend`].
    pub fn blend_images(&self, original: &[u8], stylized: &[u8], strength: i64) -> (r: Result<
        Vec<u8>,
        StylizerError,
    >)
        ensures
            original@.len() != stylized@.len() ==> r == Err::<Vec<u8>, StylizerError>(
                StylizerError::InvalidDimensions,
            ),
            original@.len() == stylized@.len() ==> r is Ok && r->Ok_0@ == blend_spec(
                original@,
                stylized@,
                strength as int,
            ),
    {
        blend(original, stylized, strength)
    }
}

} // verus!
