//! From a picture to the fixed-length input of the classifier.
//!
//! The bytes of a picture file are decoded into a [`Raster`] of interleaved RGB
//! samples. The raster is resampled to a square of [`SIDE`] pixels and laid out
//! channel by channel: all red levels in row-major order, then all green ones,
//! then all blue ones. A stored level `n` stands for the feature
//! `n / MAX_LEVEL`, which lies between 0 and 1; the division is left to the
//! classifier, which computes in floating point.
//!
//! Decoding and resampling are the work of the `image` crate. What the
//! decoder reads from given bytes has a name here, [`decoded_rgb8`], and the
//! contracts say over that name when a file gives features and which error it
//! gives when it gives none. What the resampler gives is not pinned down
//! beyond its size, but for a picture that has the target size already or has
//! no pixels.

use vstd::prelude::*;

verus! {

/// Side of the square that every picture is resampled to.
pub const SIDE: u32 = 28;

/// Colour channels of a pixel.
pub const CHANNELS: usize = 3;

/// Pixels of one resampled picture, and so levels of one channel.
pub const PLANE: usize = 784;

/// Length of a feature vector: [`CHANNELS`] planes of [`PLANE`] levels.
pub const INPUT_DIM: usize = 2352;

/// The level that stands for the feature 1.
pub const MAX_LEVEL: u8 = 255;

/// The channel-major order of `rgb`, a sequence of interleaved RGB samples:
/// place `c * PLANE + i` holds channel `c` of pixel `i`.
pub open spec fn channel_major(rgb: Seq<u8>) -> Seq<u8> {
    Seq::new(rgb.len(), |k: int| rgb[CHANNELS * (k % PLANE as int) + k / PLANE as int])
}

/// The samples, and the levels, of a picture that is black all over.
pub open spec fn dark() -> Seq<u8> {
    Seq::new(INPUT_DIM as nat, |k: int| 0u8)
}

/// The feature that a level stands for, as a fraction of two integers.
pub open spec fn feature_of(level: u8) -> (int, int) {
    (level as int, MAX_LEVEL as int)
}

/// Whether a fraction with a positive denominator lies between 0 and 1.
pub open spec fn in_unit_interval(fraction: (int, int)) -> bool {
    0 < fraction.1 && 0 <= fraction.0 <= fraction.1
}

/// Whether a picture of this size can be resampled on this machine. The
/// resampler keeps an intermediate picture of `width` by [`SIDE`] pixels with
/// four 4-byte samples each, and a weight for each pixel of a column that goes
/// into one pixel of the result; each has to fit in one allocation.
pub open spec fn can_resize(width: nat, height: nat) -> bool {
    448 * width <= isize::MAX && 16 * height <= isize::MAX
}

/// Whether `levels` can be the features of a picture of this size with these
/// samples: they are [`INPUT_DIM`] many, each stands for a feature between 0
/// and 1, they are the picture's own samples in channel-major order where it
/// has the target size already, and they are all 0 where it has no pixels.
pub open spec fn is_chw_of(levels: Seq<u8>, width: nat, height: nat, pixels: Seq<u8>) -> bool {
    &&& levels.len() == INPUT_DIM
    &&& forall|k: int| 0 <= k < levels.len() ==> in_unit_interval(feature_of(#[trigger] levels[k]))
    &&& width == SIDE && height == SIDE ==> levels == channel_major(pixels)
    &&& width == 0 || height == 0 ==> levels == dark()
}

/// A decoded picture: `height` rows of `width` pixels, three samples each.
pub struct Raster {
    width: u32,
    height: u32,
    pixels: Vec<u8>,
}

impl View for Raster {
    type V = Seq<u8>;

    /// The samples, row by row, as red, green and blue of each pixel.
    closed spec fn view(&self) -> Seq<u8> {
        self.pixels@
    }
}

impl Raster {
    #[verifier::type_invariant]
    spec fn fits(self) -> bool {
        self.pixels@.len() == CHANNELS * self.width * self.height
    }

    pub closed spec fn spec_width(self) -> nat {
        self.width as nat
    }

    pub closed spec fn spec_height(self) -> nat {
        self.height as nat
    }

    /// Whether the picture can be resampled on this machine.
    pub open spec fn resizable(self) -> bool {
        can_resize(self.spec_width(), self.spec_height())
    }

    /// A raster of the given size over `pixels`, where they are as many
    /// samples as the size asks for.
    pub fn new(width: u32, height: u32, pixels: Vec<u8>) -> (r: Option<Raster>)
        ensures
            r is Some <==> pixels@.len() == CHANNELS * width * height,
            r matches Some(raster) ==> raster.spec_width() == width && raster.spec_height()
                == height && raster@ == pixels@,
    {
        assert(width * height <= 0xffff_ffff * 0xffff_ffff) by (nonlinear_arith)
            requires
                0 <= width <= 0xffff_ffff,
                0 <= height <= 0xffff_ffff,
        ;
        let area: u64 = width as u64 * height as u64;
        assert(CHANNELS * width * height == 3 * area) by (nonlinear_arith)
            requires
                area == width * height,
                CHANNELS == 3,
        ;
        if pixels.len() as u128 == 3 * (area as u128) {
            Some(Raster { width, height, pixels })
        } else {
            None
        }
    }

    pub fn width(&self) -> (w: u32)
        ensures
            w == self.spec_width(),
    {
        self.width
    }

    pub fn height(&self) -> (h: u32)
        ensures
            h == self.spec_height(),
    {
        self.height
    }

    /// The samples, with the count that the size asks for.
    pub fn pixels(&self) -> (p: &Vec<u8>)
        ensures
            p@ == self@,
            p@.len() == CHANNELS * self.spec_width() * self.spec_height(),
    {
        proof {
            use_type_invariant(self);
        }
        &self.pixels
    }
}

/// The input of the classifier for one picture: [`INPUT_DIM`] levels in
/// channel-major order.
pub struct FeatureVector {
    levels: Vec<u8>,
}

impl View for FeatureVector {
    type V = Seq<u8>;

    /// The levels, red plane first.
    closed spec fn view(&self) -> Seq<u8> {
        self.levels@
    }
}

impl FeatureVector {
    /// What holds of every feature vector that a program has: it is full.
    #[verifier::type_invariant]
    pub closed spec fn full(self) -> bool {
        self.levels@.len() == INPUT_DIM
    }

    /// A full feature vector has [`INPUT_DIM`] levels.
    pub proof fn lemma_full_length(self)
        requires
            self.full(),
        ensures
            self@.len() == INPUT_DIM,
    {
    }

    /// A feature vector over `levels`, where they are [`INPUT_DIM`] many.
    pub fn from_levels(levels: Vec<u8>) -> (f: Option<FeatureVector>)
        ensures
            f is Some <==> levels@.len() == INPUT_DIM,
            f matches Some(features) ==> features@ == levels@,
    {
        if levels.len() == INPUT_DIM {
            Some(FeatureVector { levels })
        } else {
            None
        }
    }

    /// The levels, which are always [`INPUT_DIM`] many, each at most
    /// [`MAX_LEVEL`], so that each stands for a feature between 0 and 1.
    pub fn levels(&self) -> (l: &Vec<u8>)
        ensures
            l@ == self@,
            l@.len() == INPUT_DIM,
            forall|k: int| 0 <= k < l@.len() ==> in_unit_interval(feature_of(#[trigger] l@[k])),
    {
        proof {
            use_type_invariant(self);
        }
        &self.levels
    }
}

/// Calls `image::imageops::resize` with the filter `Lanczos3` and the target
/// `nwidth` by `nheight` on an `ImageBuffer` that borrows `pixels` as RGB
/// samples, and hands out the raw samples of the picture that comes back.
///
/// Trusted: the result has three samples for each pixel of the target. A
/// picture that already has the target size comes back as a copy, and one
/// without pixels comes back dark. Of any other picture nothing is said of the
/// values: the resampling sums in floating point through a sine whose rounding
/// is left open, so the same picture need not give the same levels everywhere.
/// The preconditions keep `from_raw` from refusing the buffer, and keep within
/// one allocation each the intermediate picture (`width` by `nheight` pixels
/// of 16 bytes), the weights of one column and the result.
#[verifier::external_body]
fn resize_lanczos3(width: u32, height: u32, pixels: &Vec<u8>, nwidth: u32, nheight: u32) -> (out:
    Vec<u8>)
    requires
        pixels@.len() == CHANNELS * width * height,
        0 < nwidth,
        0 < nheight,
        16 * width * nheight <= isize::MAX,
        16 * height <= isize::MAX,
        CHANNELS * nwidth * nheight <= isize::MAX,
    ensures
        out@.len() == CHANNELS * nwidth * nheight,
        width == nwidth && height == nheight ==> out@ == pixels@,
        width == 0 || height == 0 ==> forall|k: int| 0 <= k < out@.len() ==> out@[k] == 0,
{
    let source = image::ImageBuffer::<image::Rgb<u8>, &[u8]>::from_raw(
        width,
        height,
        pixels.as_slice(),
    ).unwrap();
    image::imageops::resize(&source, nwidth, nheight, image::imageops::FilterType::Lanczos3)
        .into_raw()
}

/// Lays interleaved RGB samples of a [`SIDE`] by [`SIDE`] picture out channel
/// by channel. Any other number of samples is refused.
pub fn chw_from_rgb(rgb: &Vec<u8>) -> (f: Option<FeatureVector>)
    ensures
        f is Some <==> rgb@.len() == INPUT_DIM,
        f matches Some(features) ==> features@ == channel_major(rgb@),
{
    if rgb.len() != INPUT_DIM {
        return None;
    }
    let mut levels: Vec<u8> = Vec::with_capacity(INPUT_DIM);
    let mut channel: usize = 0;
    while channel < CHANNELS
        invariant
            rgb@.len() == INPUT_DIM,
            channel <= CHANNELS,
            levels@.len() == channel * PLANE,
            forall|k: int| 0 <= k < levels@.len() ==> levels@[k] == channel_major(rgb@)[k],
        decreases CHANNELS - channel,
    {
        let mut pixel: usize = 0;
        while pixel < PLANE
            invariant
                rgb@.len() == INPUT_DIM,
                channel < CHANNELS,
                pixel <= PLANE,
                levels@.len() == channel * PLANE + pixel,
                forall|k: int| 0 <= k < levels@.len() ==> levels@[k] == channel_major(rgb@)[k],
            decreases PLANE - pixel,
        {
            levels.push(rgb[CHANNELS * pixel + channel]);
            pixel += 1;
        }
        channel += 1;
    }
    assert(levels@ =~= channel_major(rgb@));
    Some(FeatureVector { levels })
}

/// Why a picture gave no feature vector.
#[derive(Clone, Copy, Debug, PartialEq, Eq, Structural)]
pub enum FeatureError {
    /// The bytes are no picture that the decoder can read.
    Decode,
    /// The picture is too large to be resampled on this machine.
    Resize,
}

/// The feature vector of a picture: the picture resampled to [`SIDE`] by
/// [`SIDE`] pixels, channel by channel. A picture that cannot be resampled on
/// this machine has none. The levels are [`INPUT_DIM`] many and each stands
/// for a feature between 0 and 1; they are the picture's own samples where it
/// has the target size already, and all 0 where it has no pixels.
pub fn to_chw(raster: &Raster) -> (r: Result<FeatureVector, FeatureError>)
    ensures
        match r {
            Ok(features) => raster.resizable() && is_chw_of(
                features@,
                raster.spec_width(),
                raster.spec_height(),
                raster@,
            ),
            Err(e) => e == FeatureError::Resize && !raster.resizable(),
        },
{
    proof {
        use_type_invariant(raster);
    }
    let limit: u64 = isize::MAX as u64;
    if raster.width as u64 * 448 > limit || raster.height as u64 * 16 > limit {
        return Err(FeatureError::Resize);
    }
    let small = resize_lanczos3(raster.width, raster.height, &raster.pixels, SIDE, SIDE);
    proof {
        if raster.width == 0 || raster.height == 0 {
            assert(small@ =~= dark());
        }
        assert(channel_major(dark()) =~= dark());
    }
    match chw_from_rgb(&small) {
        Some(features) => Ok(features),
        None => Err(FeatureError::Resize),
    }
}

/// The error `image::ImageError`, carried through and never looked into.
#[verifier::external_type_specification]
#[verifier::external_body]
pub struct ExImageError(image::ImageError);

/// The RGB picture that the `image` crate decodes from the bytes of a picture
/// file, as its width, its height and its raw samples; none where it refuses
/// the bytes.
pub uninterp spec fn decoded_rgb8(bytes: Seq<u8>) -> Option<(u32, u32, Seq<u8>)>;

/// Calls `image::load_from_memory_with_format` on the bytes of a picture file,
/// with the format that `image::guess_format` reads off their beginning, turns
/// the picture into RGB with `DynamicImage::to_rgb8`, and hands out its width,
/// its height and its raw samples.
///
/// Trusted: the same bytes always give the same outcome, which
/// [`decoded_rgb8`] names. Neither call reads anything but the bytes, and the
/// decoders that are built in, for JPEG and PNG, compute in integers. Nothing
/// is said of what the outcome is; it is held to the size it claims by
/// [`Raster::new`].
#[verifier::external_body]
fn decode_rgb8(bytes: &Vec<u8>) -> (decoded: Result<(u32, u32, Vec<u8>), image::ImageError>)
    ensures
        match decoded {
            Ok((width, height, pixels)) => decoded_rgb8(bytes@) == Some((width, height, pixels@)),
            Err(_) => decoded_rgb8(bytes@) is None,
        },
{
    let format = image::guess_format(bytes.as_slice())?;
    let rgb = image::load_from_memory_with_format(bytes.as_slice(), format)?.to_rgb8();
    Ok((rgb.width(), rgb.height(), rgb.into_raw()))
}

/// The picture that the bytes of a picture file hold: what the decoder reads
/// from them, where that has three samples for each of its pixels.
pub open spec fn picture_in(bytes: Seq<u8>) -> Option<(nat, nat, Seq<u8>)> {
    match decoded_rgb8(bytes) {
        Some((width, height, pixels)) => if pixels.len() == CHANNELS * width * height {
            Some((width as nat, height as nat, pixels))
        } else {
            None
        },
        None => None,
    }
}

/// Why the bytes of a picture file give no feature vector, if they give none:
/// they hold no picture, or one that cannot be resampled on this machine.
pub open spec fn failure_of(bytes: Seq<u8>) -> Option<FeatureError> {
    match picture_in(bytes) {
        Some((width, height, pixels)) => if can_resize(width, height) {
            None
        } else {
            Some(FeatureError::Resize)
        },
        None => Some(FeatureError::Decode),
    }
}

/// Whether `levels` can be the features of the picture that `bytes` hold.
pub open spec fn is_features_of(levels: Seq<u8>, bytes: Seq<u8>) -> bool {
    picture_in(bytes) matches Some((width, height, pixels)) && can_resize(width, height)
        && is_chw_of(levels, width, height, pixels)
}

/// The picture that the bytes of a picture file hold, as the decoder reads
/// them. Bytes that it cannot read are refused.
pub fn decode(bytes: &Vec<u8>) -> (r: Result<Raster, FeatureError>)
    ensures
        match r {
            Ok(raster) => picture_in(bytes@) == Some(
                (raster.spec_width(), raster.spec_height(), raster@),
            ),
            Err(e) => e == FeatureError::Decode && picture_in(bytes@) is None,
        },
{
    match decode_rgb8(bytes) {
        Ok((width, height, pixels)) => match Raster::new(width, height, pixels) {
            Some(raster) => Ok(raster),
            None => Err(FeatureError::Decode),
        },
        Err(_) => Err(FeatureError::Decode),
    }
}

/// The feature vector of the picture that the bytes of a picture file hold:
/// the picture decoded, resampled and laid out channel by channel. Bytes that
/// hold no picture, or one that cannot be resampled, give the error that says
/// so.
pub fn jpg_to_chw(bytes: &Vec<u8>) -> (r: Result<FeatureVector, FeatureError>)
    ensures
        match r {
            Ok(features) => is_features_of(features@, bytes@),
            Err(e) => failure_of(bytes@) == Some(e),
        },
{
    match decode(bytes) {
        Ok(raster) => to_chw(&raster),
        Err(e) => Err(e),
    }
}

} // verus!
