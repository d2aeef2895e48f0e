//! Displays: what an enumeration found out about each, and which is primary.

use vstd::prelude::*;
use vstd::string::StringExecFns;
use crate::error::CaptureError;

verus! {

/// What was learned about one display. Each field is the answer to one
/// query, or the reason why the query failed.
#[derive(Debug, PartialEq, Eq)]
pub struct MonitorProbe {
    pub name: Result<String, String>,
    pub width: Result<u32, String>,
    pub height: Result<u32, String>,
    pub x: Result<i32, String>,
    pub y: Result<i32, String>,
    pub is_primary: Result<bool, String>,
}

/// The geometry of one display, with a sentinel in place of every value
/// that could not be queried.
#[derive(Clone, Debug, PartialEq, Eq)]
pub struct MonitorDescriptor {
    pub name: String,
    pub width: u32,
    pub height: u32,
    pub x: i32,
    pub y: i32,
    pub is_primary: bool,
}

impl MonitorProbe {
    /// Whether the display is known to be primary. A failed query counts as
    /// "not primary".
    pub open spec fn flagged_primary(self) -> bool {
        self.is_primary matches Ok(flag) && flag
    }

    /// Whether `descriptor` describes this probe: each answered query is
    /// taken over, each failed one replaced by its sentinel (the name
    /// `Unknown`, size 0, position 0, not primary).
    pub open spec fn described_by(self, descriptor: MonitorDescriptor) -> bool {
        &&& descriptor.name@ == match self.name {
            Ok(name) => name@,
            Err(_) => "Unknown"@,
        }
        &&& descriptor.width == match self.width {
            Ok(width) => width,
            Err(_) => 0,
        }
        &&& descriptor.height == match self.height {
            Ok(height) => height,
            Err(_) => 0,
        }
        &&& descriptor.x == match self.x {
            Ok(x) => x,
            Err(_) => 0,
        }
        &&& descriptor.y == match self.y {
            Ok(y) => y,
            Err(_) => 0,
        }
        &&& descriptor.is_primary == self.flagged_primary()
    }

    /// Decides whether the display is known to be primary.
    pub fn is_flagged_primary(&self) -> (flagged: bool)
        ensures
            flagged == self.flagged_primary(),
    {
        match &self.is_primary {
            Ok(flag) => *flag,
            Err(_) => false,
        }
    }

    /// The descriptor of this probe, sentinels in place of failed queries.
    pub fn describe(&self) -> (descriptor: MonitorDescriptor)
        ensures
            self.described_by(descriptor),
    {
        let name = match &self.name {
            Ok(name) => name.clone(),
            Err(_) => String::from_str("Unknown"),
        };
        let width = match &self.width {
            Ok(width) => *width,
            Err(_) => 0,
        };
        let height = match &self.height {
            Ok(height) => *height,
            Err(_) => 0,
        };
        let x = match &self.x {
            Ok(x) => *x,
            Err(_) => 0,
        };
        let y = match &self.y {
            Ok(y) => *y,
            Err(_) => 0,
        };
        MonitorDescriptor { name, width, height, x, y, is_primary: self.is_flagged_primary() }
    }
}

/// The position of the first display at or after `start` that is flagged as
/// primary, if there is one.
pub open spec fn first_primary(probes: Seq<MonitorProbe>, start: int) -> Option<int>
    decreases probes.len() - start,
{
    if start < 0 || start >= probes.len() {
        None
    } else if probes[start].flagged_primary() {
        Some(start)
    } else {
        first_primary(probes, start + 1)
    }
}

/// The primary display is the first one flagged; none is found exactly when
/// no display is flagged.
pub proof fn lemma_first_primary(probes: Seq<MonitorProbe>, start: int)
    requires
        0 <= start,
    ensures
        match first_primary(probes, start) {
            Some(found) => {
                &&& start <= found < probes.len()
                &&& probes[found].flagged_primary()
                &&& forall|i: int| start <= i < found ==> !(#[trigger] probes[i]).flagged_primary()
            },
            None => forall|i: int|
                start <= i < probes.len() ==> !(#[trigger] probes[i]).flagged_primary(),
        },
    decreases probes.len() - start,
{
    if start < probes.len() && !probes[start].flagged_primary() {
        lemma_first_primary(probes, start + 1);
    }
}

/// Describes every display of an enumeration, in order. One display's failed
/// query never keeps the others from being listed.
pub fn get_all_monitors(probes: &Vec<MonitorProbe>) -> (monitors: Vec<MonitorDescriptor>)
    ensures
        monitors.len() == probes.len(),
        forall|i: int| 0 <= i < probes.len() ==> (#[trigger] probes[i]).described_by(monitors[i]),
{
    let mut monitors: Vec<MonitorDescriptor> = Vec::new();
    let mut i: usize = 0;
    while i < probes.len()
        invariant
            i <= probes.len(),
            monitors.len() == i,
            forall|j: int| 0 <= j < i ==> (#[trigger] probes[j]).described_by(monitors[j]),
        decreases probes.len() - i,
    {
        monitors.push(probes[i].describe());
        i = i + 1;
    }
    monitors
}

/// Finds the primary display: the first one flagged as primary.
pub fn primary_index(probes: &Vec<MonitorProbe>) -> (found: Option<usize>)
    ensures
        found matches Some(i) ==> first_primary(probes@, 0) == Some(i as int),
        found is None ==> first_primary(probes@, 0) is None,
{
    let mut i: usize = 0;
    while i < probes.len()
        invariant
            i <= probes.len(),
            first_primary(probes@, 0) == first_primary(probes@, i as int),
        decreases probes.len() - i,
    {
        if probes[i].is_flagged_primary() {
            return Some(i);
        }
        i = i + 1;
    }
    None
}

/// The descriptor of the primary display. Fails with `NoPrimaryMonitor`
/// exactly when no display is flagged as primary; the first entry is never
/// taken in its place.
pub fn primary_monitor(probes: &Vec<MonitorProbe>) -> (result: Result<
    MonitorDescriptor,
    CaptureError,
>)
    ensures
        match first_primary(probes@, 0) {
            Some(i) => result matches Ok(descriptor) && probes[i].described_by(descriptor),
            None => result == Err::<MonitorDescriptor, CaptureError>(
                CaptureError::NoPrimaryMonitor,
            ),
        },
{
    proof {
        lemma_first_primary(probes@, 0);
    }
    match primary_index(probes) {
        Some(i) => Ok(probes[i].describe()),
        None => Err(CaptureError::NoPrimaryMonitor),
    }
}

/// Whether `result` is a backend failure with the given cause.
pub open spec fn is_backend_failure<T>(result: Result<T, CaptureError>, cause: Seq<char>) -> bool {
    result matches Err(CaptureError::CaptureBackendFailure(text)) && text@ == cause
}

/// The width and height of the primary display. Fails with
/// `NoPrimaryMonitor` when no display is flagged as primary, and with the
/// cause of the first failed query when the primary display's width or
/// height could not be queried.
pub fn get_screen_dimensions(probes: &Vec<MonitorProbe>) -> (result: Result<(u32, u32), CaptureError>)
    ensures
        match first_primary(probes@, 0) {
            None => result == Err::<(u32, u32), CaptureError>(CaptureError::NoPrimaryMonitor),
            Some(i) => match (probes[i].width, probes[i].height) {
                (Ok(width), Ok(height)) => result == Ok::<(u32, u32), CaptureError>((width, height)),
                (Err(cause), _) => is_backend_failure(result, cause@),
                (Ok(_), Err(cause)) => is_backend_failure(result, cause@),
            },
        },
{
    proof {
        lemma_first_primary(probes@, 0);
    }
    match primary_index(probes) {
        None => Err(CaptureError::NoPrimaryMonitor),
        Some(i) => {
            let width = match &probes[i].width {
                Ok(width) => *width,
                Err(cause) => {
                    return Err(CaptureError::CaptureBackendFailure(cause.clone()));
                },
            };
            let height = match &probes[i].height {
                Ok(height) => *height,
                Err(cause) => {
                    return Err(CaptureError::CaptureBackendFailure(cause.clone()));
                },
            };
            Ok((width, height))
        },
    }
}

} // verus!
