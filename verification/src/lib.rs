//! Capture-and-composition core of a screenshot tool.
//!
//! The crate clamps a requested screen region to the primary display, drives
//! the two-tier capture strategy, lays captured images out on one canvas, and
//! scales images down to fit given bounds. Every function carries a contract
//! that Verus proves; the few calls into image and text codecs are isolated in
//! small trusted wrappers whose contracts are spelled out where they stand.

pub mod pixel;
pub mod layout;
pub mod error;
pub mod compose;
pub mod region;
pub mod monitor;
pub mod capture;
pub mod resize;
pub mod codec;
pub mod store;

pub use capture::{advance, begin, BackendReply, CaptureCommand, CapturePhase, CaptureRequest};
pub use codec::{base64_to_image, image_to_base64};
pub use compose::{
    check_canvas_fits, compose, compose_grid, compose_horizontal, compose_images, compose_vertical,
};
pub use error::{CaptureError, CodecError, ComposeError, RequestError};
pub use layout::{ceil_sqrt, Layout};
pub use monitor::{
    get_all_monitors, get_screen_dimensions, primary_index, primary_monitor, MonitorDescriptor,
    MonitorProbe,
};
pub use pixel::{PixelBuffer, Rgba};
pub use region::{clamp_region, CaptureRegion, ScreenRect};
pub use resize::{fit_dimensions, resize_image};
pub use store::{compose_screenshots, ScreenshotData};
