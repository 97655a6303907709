//! The discrete half of a zscale display stretch.
//!
//! A zscale stretch turns a single-band image of arbitrary dynamic range into
//! 8-bit grey levels: it samples the image, orders the sample, fits a line to
//! it, derives a display range from the fit and maps every pixel through a
//! linear stretch followed by a gamma curve.
//!
//! This crate holds every step of that pipeline that compares, orders, picks
//! or looks up: which pixels are sampled and in what order they come out,
//! where the raw extremes and the median of the sample lie, when a fit is
//! determined, how the display range is held to the sample and every pixel to
//! the display range, and how a linear level becomes a gamma-corrected output
//! level. Intensities enter as ordinals, signed integers that stand one to
//! one for the bit patterns of the intensities and are ordered as they are.
//! The arithmetic on the intensities themselves, the line fit and the linear
//! stretch, is left to the caller.
//!
//! The modules follow the pipeline:
//! `ordinal` turns intensities into ordinals and compares them,
//! `sorting` and `sampler` draw the sample,
//! `fit` admits a sample to the line fit,
//! `bounds` reads the sample's extremes and median and holds the display
//! range to them,
//! `survey` bundles what the stretch reads off the image,
//! `mapper` brings pixels into the display range and levels through the
//! gamma table, and `gamma` defines the curve and builds the table.

pub mod bounds;
pub mod error;
pub mod fit;
pub mod gamma;
pub mod mapper;
pub mod ordinal;
pub mod sampler;
pub mod sorting;
pub mod survey;
