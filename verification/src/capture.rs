//! The region capturer as a state machine. The backend's work (enumerating
//! displays, grabbing pixels) happens outside this crate; the machine
//! decides what to ask of it next and what to make of each answer.

use vstd::prelude::*;
use vstd::string::StringExecFns;
use crate::error::CaptureError;
use crate::monitor::{first_primary, lemma_first_primary, primary_index, MonitorProbe};
use crate::pixel::{PixelBuffer, Raster};
use crate::region::{
    clamp_outcome, clamp_region, lemma_clamped_region_is_inside, lemma_region_inside_is_kept,
    CaptureRegion, ScreenRect,
};

verus! {

/// What is to be captured.
#[derive(Clone, Copy, Debug, PartialEq, Eq, Structural)]
pub enum CaptureRequest {
    /// A rectangle of the primary display.
    Region(CaptureRegion),
    /// The whole primary display, unmodified.
    FullScreen,
}

/// Where a capture stands.
#[derive(Clone, Copy, Debug, PartialEq, Eq, Structural)]
pub enum CapturePhase {
    /// The displays are being enumerated.
    Resolving { request: CaptureRequest },
    /// The direct capture of `target` on display `monitor` is under way.
    Direct { monitor: usize, target: ScreenRect },
    /// The direct capture failed; the whole of display `monitor` is being
    /// captured and will be cropped to `target`.
    Fallback { monitor: usize, target: ScreenRect },
    /// The whole of display `monitor` is being captured for its own sake.
    Full { monitor: usize },
    /// The request has been answered.
    Finished,
}

/// What the backend answered.
#[derive(Debug, PartialEq, Eq)]
pub enum BackendReply {
    /// The enumeration of the displays.
    Monitors(Vec<MonitorProbe>),
    /// The pixels that were asked for.
    Frame(PixelBuffer),
    /// The backend failed, with its cause.
    Failed(String),
}

/// What is to be done next.
#[derive(Debug, PartialEq, Eq)]
pub enum CaptureCommand {
    /// Capture the rectangle `target` of display `monitor`.
    CaptureRegion { monitor: usize, target: ScreenRect },
    /// Capture the whole of display `monitor`.
    CaptureDisplay { monitor: usize },
    /// The capture is done: hand the buffer to the caller.
    Deliver(PixelBuffer),
    /// The capture failed: hand the error to the caller.
    Fail(CaptureError),
}

/// The cause reported when a full frame does not hold the whole target.
pub open spec fn frame_too_small() -> Seq<char> {
    "captured frame does not cover the requested region"@
}

/// The cause reported when an answer does not fit the phase it came in.
pub open spec fn unexpected_reply() -> Seq<char> {
    "unexpected reply from the capture backend"@
}

impl CaptureCommand {
    /// Whether this command fails the capture with a backend failure of the
    /// given cause.
    pub open spec fn fails_with(self, cause: Seq<char>) -> bool {
        self matches CaptureCommand::Fail(CaptureError::CaptureBackendFailure(text)) && text@
            == cause
    }
}

/// Whether `frame` holds the whole of `target`, so that cropping the frame
/// to the target gives exactly the target's size.
pub open spec fn frame_covers(frame: Raster, target: ScreenRect) -> bool {
    target.inside(frame.width as int, frame.height as int)
}

/// The machine's rule: from `phase`, on `reply`, the machine moves to `next`
/// and issues `command`.
///
/// * While resolving: no primary display fails with `NoPrimaryMonitor`; a
///   failed enumeration, or a failed query of the primary display's size,
///   fails with that cause. Otherwise a full-screen request asks for the
///   whole display, and a region request is clamped to the display and
///   either refused as `InvalidRegion` or asked for directly.
/// * After the direct capture: the frame is delivered as it came; a
///   failure, and nothing else, falls back to capturing the whole display.
/// * After the fallback capture: the frame cropped to the target is
///   delivered if the frame covers the target; a frame that does not, or a
///   failure, fails the capture.
/// * After a full-screen capture: the frame is delivered as it came, a
///   failure fails the capture.
pub open spec fn step(
    phase: CapturePhase,
    reply: BackendReply,
    next: CapturePhase,
    command: CaptureCommand,
) -> bool {
    match (phase, reply) {
        (CapturePhase::Resolving { request }, BackendReply::Monitors(probes)) => {
            match first_primary(probes@, 0) {
                None => next == CapturePhase::Finished && command == CaptureCommand::Fail(
                    CaptureError::NoPrimaryMonitor,
                ),
                Some(i) => match request {
                    CaptureRequest::FullScreen => next == (CapturePhase::Full {
                        monitor: i as usize,
                    }) && command == (CaptureCommand::CaptureDisplay { monitor: i as usize }),
                    CaptureRequest::Region(region) => match (probes[i].width, probes[i].height) {
                        (Ok(width), Ok(height)) => match clamp_outcome(region, width, height) {
                            Ok(target) => next == (CapturePhase::Direct {
                                monitor: i as usize,
                                target,
                            }) && command == (CaptureCommand::CaptureRegion {
                                monitor: i as usize,
                                target,
                            }),
                            Err(error) => next == CapturePhase::Finished && command
                                == CaptureCommand::Fail(error),
                        },
                        (Err(cause), _) => next == CapturePhase::Finished && command.fails_with(
                            cause@,
                        ),
                        (Ok(_), Err(cause)) => next == CapturePhase::Finished
                            && command.fails_with(cause@),
                    },
                },
            }
        },
        (CapturePhase::Resolving { .. }, BackendReply::Failed(cause)) => next
            == CapturePhase::Finished && command.fails_with(cause@),
        (CapturePhase::Direct { .. }, BackendReply::Frame(frame)) => next
            == CapturePhase::Finished && command == CaptureCommand::Deliver(frame),
        (CapturePhase::Direct { monitor, target }, BackendReply::Failed(_)) => next
            == (CapturePhase::Fallback { monitor, target }) && command
            == (CaptureCommand::CaptureDisplay { monitor }),
        (CapturePhase::Fallback { monitor, target }, BackendReply::Frame(frame)) => {
            if frame_covers(frame@, target) {
                &&& next == CapturePhase::Finished
                &&& command matches CaptureCommand::Deliver(cut)
                &&& cut@ == frame@.cropped(
                    target.x as int,
                    target.y as int,
                    target.width as int,
                    target.height as int,
                )
            } else {
                next == CapturePhase::Finished && command.fails_with(frame_too_small())
            }
        },
        (CapturePhase::Fallback { .. }, BackendReply::Failed(cause)) => next
            == CapturePhase::Finished && command.fails_with(cause@),
        (CapturePhase::Full { .. }, BackendReply::Frame(frame)) => next == CapturePhase::Finished
            && command == CaptureCommand::Deliver(frame),
        (CapturePhase::Full { .. }, BackendReply::Failed(cause)) => next == CapturePhase::Finished
            && command.fails_with(cause@),
        _ => next == CapturePhase::Finished && command.fails_with(unexpected_reply()),
    }
}

/// The phase in which a capture starts: the displays are to be enumerated.
pub fn begin(request: CaptureRequest) -> (phase: CapturePhase)
    ensures
        phase == (CapturePhase::Resolving { request }),
{
    CapturePhase::Resolving { request }
}

/// Ends the capture with a backend failure of the given cause.
fn fail(cause: String) -> (next: (CapturePhase, CaptureCommand))
    ensures
        next.0 == CapturePhase::Finished,
        next.1.fails_with(cause@),
{
    (CapturePhase::Finished, CaptureCommand::Fail(CaptureError::CaptureBackendFailure(cause)))
}

/// Decides what to ask of the backend once the displays are known.
fn resolve(request: CaptureRequest, probes: Vec<MonitorProbe>) -> (next: (
    CapturePhase,
    CaptureCommand,
))
    ensures
        step(CapturePhase::Resolving { request }, BackendReply::Monitors(probes), next.0, next.1),
{
    let monitor = match primary_index(&probes) {
        Some(monitor) => monitor,
        None => {
            return (CapturePhase::Finished, CaptureCommand::Fail(CaptureError::NoPrimaryMonitor));
        },
    };
    proof {
        lemma_first_primary(probes@, 0);
    }
    let region = match request {
        CaptureRequest::FullScreen => {
            return (CapturePhase::Full { monitor }, CaptureCommand::CaptureDisplay { monitor });
        },
        CaptureRequest::Region(region) => region,
    };
    let width = match &probes[monitor].width {
        Ok(width) => *width,
        Err(cause) => {
            return fail(cause.clone());
        },
    };
    let height = match &probes[monitor].height {
        Ok(height) => *height,
        Err(cause) => {
            return fail(cause.clone());
        },
    };
    match clamp_region(&region, width, height) {
        Ok(target) => (
            CapturePhase::Direct { monitor, target },
            CaptureCommand::CaptureRegion { monitor, target },
        ),
        Err(error) => (CapturePhase::Finished, CaptureCommand::Fail(error)),
    }
}

/// Moves the capture on by one answer of the backend, following `step`.
pub fn advance(phase: CapturePhase, reply: BackendReply) -> (next: (CapturePhase, CaptureCommand))
    ensures
        step(phase, reply, next.0, next.1),
{
    match phase {
        CapturePhase::Resolving { request } => match reply {
            BackendReply::Monitors(probes) => resolve(request, probes),
            BackendReply::Failed(cause) => fail(cause),
            BackendReply::Frame(_) => fail(
                String::from_str("unexpected reply from the capture backend"),
            ),
        },
        CapturePhase::Direct { monitor, target } => match reply {
            BackendReply::Frame(frame) => (CapturePhase::Finished, CaptureCommand::Deliver(frame)),
            BackendReply::Failed(_) => (
                CapturePhase::Fallback { monitor, target },
                CaptureCommand::CaptureDisplay { monitor },
            ),
            BackendReply::Monitors(_) => fail(
                String::from_str("unexpected reply from the capture backend"),
            ),
        },
        CapturePhase::Fallback { monitor, target } => match reply {
            BackendReply::Frame(frame) => {
                let covered = target.width >= 1 && target.height >= 1 && target.x as u64
                    + target.width as u64 <= frame.width() as u64 && target.y as u64
                    + target.height as u64 <= frame.height() as u64;
                if !covered {
                    return fail(
                        String::from_str("captured frame does not cover the requested region"),
                    );
                }
                match frame.crop(target.x, target.y, target.width, target.height) {
                    Some(cut) => (CapturePhase::Finished, CaptureCommand::Deliver(cut)),
                    None => fail(
                        String::from_str("captured frame does not cover the requested region"),
                    ),
                }
            },
            BackendReply::Failed(cause) => fail(cause),
            BackendReply::Monitors(_) => fail(
                String::from_str("unexpected reply from the capture backend"),
            ),
        },
        CapturePhase::Full { monitor } => match reply {
            BackendReply::Frame(frame) => (CapturePhase::Finished, CaptureCommand::Deliver(frame)),
            BackendReply::Failed(cause) => fail(cause),
            BackendReply::Monitors(_) => fail(
                String::from_str("unexpected reply from the capture backend"),
            ),
        },
        CapturePhase::Finished => fail(
            String::from_str("unexpected reply from the capture backend"),
        ),
    }
}

/// A region that lies wholly inside the primary display is asked of the
/// backend exactly as requested.
pub proof fn lemma_inside_region_is_requested(
    region: CaptureRegion,
    probes: Vec<MonitorProbe>,
    next: CapturePhase,
    command: CaptureCommand,
)
    requires
        step(
            CapturePhase::Resolving { request: CaptureRequest::Region(region) },
            BackendReply::Monitors(probes),
            next,
            command,
        ),
        first_primary(probes@, 0) matches Some(i) && (probes[i].width matches Ok(width)
            && probes[i].height matches Ok(height) && region.x >= 0 && region.y >= 0
            && region.width >= 1 && region.height >= 1 && region.x + region.width <= width
            && region.y + region.height <= height),
    ensures
        command matches CaptureCommand::CaptureRegion { target, .. } && target == (ScreenRect {
            x: region.x as u32,
            y: region.y as u32,
            width: region.width,
            height: region.height,
        }),
{
    let i = first_primary(probes@, 0)->0;
    lemma_region_inside_is_kept(region, probes[i].width->Ok_0, probes[i].height->Ok_0);
}

/// Whatever region is requested, what is asked of the backend lies wholly
/// inside the primary display, is no larger than requested and starts at 0
/// on each axis on which the request started off screen; a request that
/// starts at or beyond the display's right or bottom edge is refused as
/// `InvalidRegion`.
pub proof fn lemma_requested_region_is_clamped(
    region: CaptureRegion,
    probes: Vec<MonitorProbe>,
    next: CapturePhase,
    command: CaptureCommand,
)
    requires
        step(
            CapturePhase::Resolving { request: CaptureRequest::Region(region) },
            BackendReply::Monitors(probes),
            next,
            command,
        ),
        first_primary(probes@, 0) matches Some(i) && probes[i].width is Ok && probes[i].height
            is Ok,
    ensures
        ({
            let i = first_primary(probes@, 0)->0;
            let width = probes[i].width->Ok_0;
            let height = probes[i].height->Ok_0;
            if region.width >= 1 && region.height >= 1 && width >= 1 && height >= 1 && region.x
                < width && region.y < height {
                &&& command matches CaptureCommand::CaptureRegion { target, .. }
                &&& next matches CapturePhase::Direct { target: kept, .. }
                &&& kept == target
                &&& target.inside(width as int, height as int)
                &&& target.width <= region.width
                &&& target.height <= region.height
                &&& region.x < 0 ==> target.x == 0
                &&& region.y < 0 ==> target.y == 0
            } else {
                command matches CaptureCommand::Fail(CaptureError::InvalidRegion { .. })
                    && next == CapturePhase::Finished
            }
        }),
{
    let i = first_primary(probes@, 0)->0;
    lemma_clamped_region_is_inside(region, probes[i].width->Ok_0, probes[i].height->Ok_0);
}

/// A successful direct capture is delivered unmodified, whatever its size,
/// and ends the capture.
pub proof fn lemma_direct_frame_is_delivered(
    monitor: usize,
    target: ScreenRect,
    frame: PixelBuffer,
    next: CapturePhase,
    command: CaptureCommand,
)
    requires
        step(CapturePhase::Direct { monitor, target }, BackendReply::Frame(frame), next, command),
    ensures
        next == CapturePhase::Finished,
        command == CaptureCommand::Deliver(frame),
{
}

/// The whole display is captured as a fallback only after the direct
/// capture of the same target on the same display has failed.
pub proof fn lemma_fallback_only_after_failure(
    phase: CapturePhase,
    reply: BackendReply,
    next: CapturePhase,
    command: CaptureCommand,
)
    requires
        step(phase, reply, next, command),
        next is Fallback,
    ensures
        reply is Failed,
        phase matches CapturePhase::Direct { monitor, target } && next == (CapturePhase::Fallback {
            monitor,
            target,
        }) && command == (CaptureCommand::CaptureDisplay { monitor }),
{
}

/// The direct capture is asked for only on resolving a region request, and
/// exactly when the clamped region is valid.
pub proof fn lemma_direct_request(
    phase: CapturePhase,
    reply: BackendReply,
    next: CapturePhase,
    command: CaptureCommand,
)
    requires
        step(phase, reply, next, command),
    ensures
        command is CaptureRegion <==> next is Direct,
        command matches CaptureCommand::CaptureRegion { monitor, target } ==> {
            &&& phase matches CapturePhase::Resolving { request: CaptureRequest::Region(region) }
            &&& reply matches BackendReply::Monitors(probes)
            &&& first_primary(probes@, 0) == Some(monitor as int)
            &&& probes[monitor as int].width matches Ok(width)
            &&& probes[monitor as int].height matches Ok(height)
            &&& clamp_outcome(region, width, height) == Ok::<ScreenRect, CaptureError>(target)
            &&& next == (CapturePhase::Direct { monitor, target })
        },
{
    if let CapturePhase::Resolving { request } = phase {
        if let BackendReply::Monitors(probes) = reply {
            lemma_first_primary(probes@, 0);
            assert(probes@.len() == probes.len());
        }
    }
}

/// A buffer delivered for a region has exactly the size that was asked of
/// the backend: always when it was cropped from the whole display, and when
/// it came from the direct capture provided the backend answered with a
/// frame of the size asked.
pub proof fn lemma_delivered_size(
    phase: CapturePhase,
    reply: BackendReply,
    next: CapturePhase,
    buffer: PixelBuffer,
)
    requires
        step(phase, reply, next, CaptureCommand::Deliver(buffer)),
        phase is Direct || phase is Fallback,
        phase matches CapturePhase::Direct { target, .. } ==> (reply matches BackendReply::Frame(
            frame,
        ) ==> frame@.width == target.width && frame@.height == target.height),
    ensures
        ({
            let target = match phase {
                CapturePhase::Direct { target, .. } => target,
                CapturePhase::Fallback { target, .. } => target,
                _ => arbitrary(),
            };
            buffer@.width == target.width && buffer@.height == target.height
        }),
{
}

/// What the fallback delivers is the frame's content at the target: pixel
/// `(x, y)` of the buffer is the frame's pixel at the target's origin plus
/// `(x, y)`.
pub proof fn lemma_fallback_content(
    monitor: usize,
    target: ScreenRect,
    frame: PixelBuffer,
    next: CapturePhase,
    buffer: PixelBuffer,
    x: int,
    y: int,
)
    requires
        step(
            CapturePhase::Fallback { monitor, target },
            BackendReply::Frame(frame),
            next,
            CaptureCommand::Deliver(buffer),
        ),
        0 <= x < target.width,
        0 <= y < target.height,
    ensures
        buffer@.pixel(x, y) == frame@.pixel(target.x + x, target.y + y),
{
    crate::pixel::lemma_from_pixels(
        target.width as nat,
        target.height as nat,
        |i: int, j: int| frame@.pixel(target.x + i, target.y + j),
        x,
        y,
    );
}

/// The fallback is the last attempt: whatever the backend answers to it, the
/// capture is finished, and a full-screen capture is finished by its first
/// answer.
pub proof fn lemma_no_second_retry(
    phase: CapturePhase,
    reply: BackendReply,
    next: CapturePhase,
    command: CaptureCommand,
)
    requires
        step(phase, reply, next, command),
        phase is Fallback || phase is Full || phase is Finished,
    ensures
        next == CapturePhase::Finished,
        command is Deliver || command is Fail,
{
}

} // verus!
