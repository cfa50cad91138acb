//! The edge filter as a plan: which image operations run, in which order and
//! with which parameters, for an image of a given channel count.
//!
//! The operations themselves belong to an image library; a plan only names
//! them. Parameters are whole numbers, a blend weight is a ratio.

use vstd::prelude::*;

verus! {

/// Side of the square kernel used for blurring and for the gradients.
pub const KERNEL_SIZE: i32 = 3;

/// Value given to the pixels above the automatic threshold.
pub const THRESHOLD_MAX: u8 = 255;

/// How a colour image is reduced to one channel.
#[derive(Clone, Copy, PartialEq, Eq, Debug, Structural)]
pub enum ColorConversion {
    /// Blue, green, red to luma.
    BgrToGray,
    /// Blue, green, red, alpha to luma; alpha is ignored.
    BgraToGray,
}

/// How an operation treats pixels beyond the edge of the image.
#[derive(Clone, Copy, PartialEq, Eq, Debug, Structural)]
pub enum Border {
    /// The nearest pixel of the image is repeated.
    Replicate,
    /// Whatever the image library does by default.
    Default,
}

/// One image operation of the edge filter.
#[derive(Clone, Copy, PartialEq, Eq, Debug, Structural)]
pub enum Stage {
    /// Reduce the decoded image to a single channel.
    Grayscale { conversion: ColorConversion },
    /// Gaussian blur with a square kernel. A `sigma` of zero leaves the
    /// deviation to follow from the kernel size.
    Blur { kernel: i32, sigma: i32, border: Border },
    /// Sobel derivative of order `dx` across and `dy` down, times `scale`
    /// plus `delta`, into a raster of 64-bit floats, so that nothing is
    /// clipped.
    Gradient { dx: i32, dy: i32, kernel: i32, scale: i32, delta: i32, border: Border },
    /// Absolute value of the gradient taken with `dx`, `dy`, times `scale`
    /// plus `offset`, clipped to eight bits.
    AbsScale { dx: i32, dy: i32, scale: i32, offset: i32 },
    /// Weighted sum of the two absolute gradients; each weight is
    /// `weight_num / weight_den`.
    Blend { weight_num: i32, weight_den: i32, offset: i32 },
    /// Binarize to `{0, max}` at the threshold that Otsu's method picks.
    OtsuThreshold { max: u8 },
    /// Replace every pixel `p` by `255 - p`.
    Invert,
}

/// The stages every image goes through once it has a single channel.
pub open spec fn single_channel_stages() -> Seq<Stage> {
    seq![
        Stage::Blur { kernel: 3, sigma: 0, border: Border::Replicate },
        Stage::Gradient { dx: 1, dy: 0, kernel: 3, scale: 1, delta: 0, border: Border::Default },
        Stage::Gradient { dx: 0, dy: 1, kernel: 3, scale: 1, delta: 0, border: Border::Default },
        Stage::AbsScale { dx: 1, dy: 0, scale: 1, offset: 0 },
        Stage::AbsScale { dx: 0, dy: 1, scale: 1, offset: 0 },
        Stage::Blend { weight_num: 1, weight_den: 2, offset: 0 },
        Stage::OtsuThreshold { max: 255 },
        Stage::Invert,
    ]
}

/// The conversion an image with `channels` channels needs before the
/// single-channel stages: none for one channel. `None` where the channel
/// count is not one the filter handles.
pub open spec fn conversion_for(channels: int) -> Option<Option<ColorConversion>> {
    if channels == 1 {
        Some(None)
    } else if channels == 3 {
        Some(Some(ColorConversion::BgrToGray))
    } else if channels == 4 {
        Some(Some(ColorConversion::BgraToGray))
    } else {
        None
    }
}

/// The whole plan for an image with `channels` channels.
pub open spec fn plan_for(channels: int) -> Option<Seq<Stage>> {
    match conversion_for(channels) {
        Some(Some(conversion)) => Some(
            seq![Stage::Grayscale { conversion }] + single_channel_stages(),
        ),
        Some(None) => Some(single_channel_stages()),
        None => None,
    }
}

/// Picks the grayscale conversion by channel count.
pub fn grayscale_conversion(channels: i32) -> (step: Option<Option<ColorConversion>>)
    ensures
        step == conversion_for(channels as int),
{
    if channels == 3 {
        Some(Some(ColorConversion::BgrToGray))
    } else if channels == 4 {
        Some(Some(ColorConversion::BgraToGray))
    } else if channels == 1 {
        Some(None)
    } else {
        None
    }
}

/// Builds the edge filter's plan for a decoded image with `channels`
/// channels, or `None` where the filter does not handle that many.
pub fn edge_plan(channels: i32) -> (plan: Option<Vec<Stage>>)
    ensures
        plan is Some <==> (channels == 1 || channels == 3 || channels == 4),
        match plan {
            Some(stages) => plan_for(channels as int) == Some(stages@),
            None => plan_for(channels as int) is None,
        },
{
    let mut stages: Vec<Stage> = Vec::new();
    match grayscale_conversion(channels) {
        None => {
            return None;
        },
        Some(None) => {},
        Some(Some(conversion)) => {
            stages.push(Stage::Grayscale { conversion });
        },
    }
    let ghost head = stages@;
    stages.push(Stage::Blur { kernel: KERNEL_SIZE, sigma: 0, border: Border::Replicate });
    stages.push(
        Stage::Gradient {
            dx: 1,
            dy: 0,
            kernel: KERNEL_SIZE,
            scale: 1,
            delta: 0,
            border: Border::Default,
        },
    );
    stages.push(
        Stage::Gradient {
            dx: 0,
            dy: 1,
            kernel: KERNEL_SIZE,
            scale: 1,
            delta: 0,
            border: Border::Default,
        },
    );
    stages.push(Stage::AbsScale { dx: 1, dy: 0, scale: 1, offset: 0 });
    stages.push(Stage::AbsScale { dx: 0, dy: 1, scale: 1, offset: 0 });
    stages.push(Stage::Blend { weight_num: 1, weight_den: 2, offset: 0 });
    stages.push(Stage::OtsuThreshold { max: THRESHOLD_MAX });
    stages.push(Stage::Invert);
    assert(stages@ =~= head + single_channel_stages());
    Some(stages)
}

} // verus!
