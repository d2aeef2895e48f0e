//! Stored screenshots: the record kept of each capture, and the composition
//! of a chosen few of them into one image.

use vstd::prelude::*;
use vstd::utf8::encode_utf8;
use crate::codec::{
    base64_to_image, data_url_of, image_of, image_to_base64, is_image_outcome, is_text_outcome,
};
use crate::compose::{check_canvas_fits, compose};
use crate::error::{CodecError, CodecFault, ComposeError, RequestError, RequestFault};
use crate::layout::{canvas_fits, composite, Layout};
use crate::pixel::{views, PixelBuffer, Raster};
use crate::region::CaptureRegion;

verus! {

/// The record of one capture: who it is, when it was taken, the image as a
/// data URL, the image's size, and the region that was asked for.
#[derive(Clone, Debug, PartialEq, Eq)]
pub struct ScreenshotData {
    pub id: String,
    pub timestamp: u64,
    pub base64_data: String,
    pub width: u32,
    pub height: u32,
    pub region: CaptureRegion,
}

impl ScreenshotData {
    /// Whether this record is the record of `image`, captured for `region`,
    /// under the given identifier and time, with `text` as its data URL.
    pub open spec fn records(
        self,
        id: Seq<char>,
        timestamp: u64,
        image: Raster,
        region: CaptureRegion,
        text: Seq<char>,
    ) -> bool {
        &&& self.id@ == id
        &&& self.timestamp == timestamp
        &&& self.base64_data@ == text
        &&& self.width == image.width
        &&& self.height == image.height
        &&& self.region == region
    }

    /// Makes the record of a captured image. The image is written as a data
    /// URL; the record holds the image's own size, not the requested one.
    pub fn record(id: String, timestamp: u64, image: &PixelBuffer, region: CaptureRegion) -> (result:
        Result<ScreenshotData, CodecError>)
        ensures
            match data_url_of(image@) {
                Ok(text) => result matches Ok(data) && data.records(
                    id@,
                    timestamp,
                    image@,
                    region,
                    text,
                ),
                Err(fault) => result matches Err(error) && error@ == fault,
            },
    {
        match image_to_base64(image) {
            Ok(base64_data) => Ok(
                ScreenshotData {
                    id,
                    timestamp,
                    base64_data,
                    width: image.width(),
                    height: image.height(),
                    region,
                },
            ),
            Err(error) => Err(error),
        }
    }
}

/// The position of the first stored screenshot at or after `start` whose
/// identifier is `id`, if there is one.
pub open spec fn position_of(stored: Seq<ScreenshotData>, id: Seq<char>, start: int) -> Option<int>
    decreases stored.len() - start,
{
    if start < 0 || start >= stored.len() {
        None
    } else if stored[start].id@ == id {
        Some(start)
    } else {
        position_of(stored, id, start + 1)
    }
}

/// Whether no identifier occurs twice among the stored screenshots, as in a
/// store that is keyed by identifier.
pub open spec fn distinct_ids(stored: Seq<ScreenshotData>) -> bool {
    forall|i: int, j: int|
        0 <= i < j < stored.len() ==> (#[trigger] stored[i]).id@ != (#[trigger] stored[j]).id@
}

/// A lookup finds the first record with the identifier at or after the
/// start, and finds none exactly when there is none.
pub proof fn lemma_position_of(stored: Seq<ScreenshotData>, id: Seq<char>, start: int)
    requires
        0 <= start,
    ensures
        match position_of(stored, id, start) {
            Some(found) => {
                &&& start <= found < stored.len()
                &&& stored[found].id@ == id
                &&& forall|i: int| start <= i < found ==> (#[trigger] stored[i]).id@ != id
            },
            None => forall|i: int| start <= i < stored.len() ==> (#[trigger] stored[i]).id@ != id,
        },
    decreases stored.len() - start,
{
    if start < stored.len() && stored[start].id@ != id {
        lemma_position_of(stored, id, start + 1);
    }
}

/// Where no identifier occurs twice, a lookup by a record's identifier
/// finds that record, and the record found is the only one with the
/// identifier.
pub proof fn lemma_position_of_unique(stored: Seq<ScreenshotData>, k: int)
    requires
        distinct_ids(stored),
        0 <= k < stored.len(),
    ensures
        position_of(stored, stored[k].id@, 0) == Some(k),
        forall|i: int| 0 <= i < stored.len() && i != k ==> (#[trigger] stored[i]).id@ != stored[k].id@,
{
    lemma_position_of(stored, stored[k].id@, 0);
    assert forall|i: int| 0 <= i < stored.len() && i != k implies (#[trigger] stored[i]).id@
        != stored[k].id@ by {
        if i < k {
            assert(stored[i].id@ != stored[k].id@);
        } else {
            assert(stored[k].id@ != stored[i].id@);
        }
    }
}

/// The positions of the stored screenshots named by the first `n` wanted
/// identifiers, in the order of the identifiers; an identifier that names
/// none is passed over.
pub open spec fn selection(stored: Seq<ScreenshotData>, wanted: Seq<String>, n: int) -> Seq<int>
    decreases n,
{
    if n <= 0 {
        Seq::empty()
    } else {
        match position_of(stored, wanted[n - 1]@, 0) {
            Some(found) => selection(stored, wanted, n - 1).push(found),
            None => selection(stored, wanted, n - 1),
        }
    }
}

/// The images of the first `n` chosen screenshots, or the fault of the
/// first that cannot be read.
pub open spec fn images_of(stored: Seq<ScreenshotData>, chosen: Seq<int>, n: int) -> Result<
    Seq<Raster>,
    CodecFault,
>
    decreases n,
{
    if n <= 0 {
        Ok(Seq::empty())
    } else {
        match images_of(stored, chosen, n - 1) {
            Err(fault) => Err(fault),
            Ok(images) => match image_of(encode_utf8(stored[chosen[n - 1]].base64_data@)) {
                Err(fault) => Err(fault),
                Ok(image) => Ok(images.push(image)),
            },
        }
    }
}

/// What composing stored screenshots gives: the named screenshots are
/// looked up, read as images in the order asked, composed under the named
/// layout, and the composite written as a data URL.
pub open spec fn composed_url(
    stored: Seq<ScreenshotData>,
    wanted: Seq<String>,
    layout: Seq<char>,
) -> Result<Seq<char>, RequestFault> {
    let chosen = selection(stored, wanted, wanted.len() as int);
    if chosen.len() == 0 {
        Err(RequestFault::NoScreenshotsFound)
    } else {
        match images_of(stored, chosen, chosen.len() as int) {
            Err(fault) => Err(RequestFault::Codec(fault)),
            Ok(images) => match Layout::named(layout) {
                None => Err(RequestFault::Compose(ComposeError::UnsupportedLayout)),
                Some(known) => if !canvas_fits(images, known) {
                    Err(RequestFault::CanvasTooLarge)
                } else {
                    match data_url_of(composite(images, known)) {
                        Ok(text) => Ok(text),
                        Err(fault) => Err(RequestFault::Codec(fault)),
                    }
                },
            },
        }
    }
}

/// Finds a stored screenshot by its identifier.
pub fn find_screenshot(stored: &Vec<ScreenshotData>, id: &String) -> (found: Option<usize>)
    ensures
        match found {
            Some(i) => position_of(stored@, id@, 0) == Some(i as int) && i < stored.len(),
            None => position_of(stored@, id@, 0) is None,
        },
{
    let mut i: usize = 0;
    while i < stored.len()
        invariant
            i <= stored.len(),
            position_of(stored@, id@, 0) == position_of(stored@, id@, i as int),
        decreases stored.len() - i,
    {
        if stored[i].id == *id {
            return Some(i);
        }
        i = i + 1;
    }
    None
}

/// Looks up each wanted identifier and keeps the positions of those found,
/// in the order asked.
pub fn select_screenshots(stored: &Vec<ScreenshotData>, wanted: &Vec<String>) -> (chosen: Vec<usize>)
    ensures
        chosen@.map_values(|i: usize| i as int) == selection(stored@, wanted@, wanted.len() as int),
        forall|k: int| 0 <= k < chosen.len() ==> (#[trigger] chosen[k]) < stored.len(),
{
    let mut chosen: Vec<usize> = Vec::new();
    let mut n: usize = 0;
    while n < wanted.len()
        invariant
            n <= wanted.len(),
            chosen@.map_values(|i: usize| i as int) == selection(stored@, wanted@, n as int),
            forall|k: int| 0 <= k < chosen.len() ==> (#[trigger] chosen[k]) < stored.len(),
        decreases wanted.len() - n,
    {
        let ghost before = chosen@;
        match find_screenshot(stored, &wanted[n]) {
            Some(found) => {
                chosen.push(found);
                assert(chosen@.map_values(|i: usize| i as int) =~= before.map_values(
                    |i: usize| i as int,
                ).push(found as int));
            },
            None => {},
        }
        n = n + 1;
    }
    chosen
}

/// Reads the chosen screenshots as images, in order, stopping at the first
/// that cannot be read.
pub fn decode_screenshots(stored: &Vec<ScreenshotData>, chosen: &Vec<usize>) -> (result: Result<
    Vec<PixelBuffer>,
    CodecError,
>)
    requires
        forall|k: int| 0 <= k < chosen.len() ==> (#[trigger] chosen[k]) < stored.len(),
    ensures
        match result {
            Ok(images) => images_of(
                stored@,
                chosen@.map_values(|i: usize| i as int),
                chosen.len() as int,
            ) == Ok::<Seq<Raster>, CodecFault>(views(images@)) && images.len() == chosen.len(),
            Err(error) => images_of(
                stored@,
                chosen@.map_values(|i: usize| i as int),
                chosen.len() as int,
            ) == Err::<Seq<Raster>, CodecFault>(error@),
        },
{
    let ghost positions = chosen@.map_values(|i: usize| i as int);
    let mut images: Vec<PixelBuffer> = Vec::new();
    assert(views(images@) =~= Seq::<Raster>::empty());
    let mut n: usize = 0;
    while n < chosen.len()
        invariant
            n <= chosen.len(),
            images.len() == n,
            positions == chosen@.map_values(|i: usize| i as int),
            forall|k: int| 0 <= k < chosen.len() ==> (#[trigger] chosen[k]) < stored.len(),
            images_of(stored@, positions, n as int) == Ok::<Seq<Raster>, CodecFault>(
                views(images@),
            ),
        decreases chosen.len() - n,
    {
        let ghost before = images@;
        assert(positions[n as int] == chosen[n as int] as int);
        match base64_to_image(stored[chosen[n]].base64_data.as_str()) {
            Ok(image) => {
                images.push(image);
                assert(views(images@) =~= views(before).push(image@));
            },
            Err(error) => {
                proof {
                    lemma_images_of_fails(stored@, positions, n as int + 1, chosen.len() as int);
                }
                return Err(error);
            },
        }
        n = n + 1;
    }
    Ok(images)
}

/// Once a screenshot cannot be read, reading on does not mend it.
pub proof fn lemma_images_of_fails(stored: Seq<ScreenshotData>, chosen: Seq<int>, n: int, m: int)
    requires
        n <= m,
        images_of(stored, chosen, n) is Err,
    ensures
        images_of(stored, chosen, m) == images_of(stored, chosen, n),
    decreases m - n,
{
    if n < m {
        lemma_images_of_fails(stored, chosen, n, m - 1);
    }
}

/// Composes the stored screenshots named by `wanted` under the layout named
/// `layout` and writes the composite as a data URL.
///
/// Identifiers that name no stored screenshot are passed over; if none is
/// left the request fails with `NoScreenshotsFound`. A canvas too large to
/// be held fails with `CanvasTooLarge`.
pub fn compose_screenshots(stored: &Vec<ScreenshotData>, wanted: &Vec<String>, layout: &str) -> (result:
    Result<String, RequestError>)
    ensures
        match result {
            Ok(text) => composed_url(stored@, wanted@, layout@) == Ok::<Seq<char>, RequestFault>(
                text@,
            ),
            Err(error) => composed_url(stored@, wanted@, layout@) == Err::<
                Seq<char>,
                RequestFault,
            >(error@),
        },
{
    let chosen = select_screenshots(stored, wanted);
    let ghost positions = chosen@.map_values(|i: usize| i as int);
    assert(positions.len() == chosen.len());
    if chosen.len() == 0 {
        return Err(RequestError::NoScreenshotsFound);
    }
    let images = match decode_screenshots(stored, &chosen) {
        Ok(images) => images,
        Err(error) => {
            return Err(RequestError::Codec(error));
        },
    };
    let known = match Layout::from_name(layout) {
        Some(known) => known,
        None => {
            return Err(RequestError::Compose(ComposeError::UnsupportedLayout));
        },
    };
    if !check_canvas_fits(&images, known) {
        return Err(RequestError::CanvasTooLarge);
    }
    let canvas = match compose(&images, known) {
        Ok(canvas) => canvas,
        Err(error) => {
            return Err(RequestError::Compose(error));
        },
    };
    match image_to_base64(&canvas) {
        Ok(text) => Ok(text),
        Err(error) => Err(RequestError::Codec(error)),
    }
}

} // verus!
