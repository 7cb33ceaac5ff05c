//! Where the curve of each noodle runs: the two points that its ends resolve
//! to, and how finely the curve between them is sampled.

use crate::entity_map::{EntityMap, Entry};
use crate::noodle::{Canvas, Noodle};
use vstd::prelude::*;

verus! {

/// The two ends of a noodle's curve.
#[derive(Clone, Copy, Debug, PartialEq)]
pub struct Segment<P> {
    pub start: P,
    pub end: P,
}

/// How many points of a curve are sampled for each of its segments.
pub const SAMPLES_PER_SEGMENT: usize = 100;

/// How far, in units of the scene, the control points of a curve lie from
/// its ends.
pub const TANGENT_LENGTH: u16 = 100;

/// The position of the connector, if it has one.
pub open spec fn anchored<P>(anchors: Map<u64, P>, connector: u64) -> Option<P> {
    if anchors.contains_key(connector) {
        Some(anchors[connector])
    } else {
        None
    }
}

/// The point where the noodle starts: the position of the connector that the
/// start is bound to, or the free point of a hanging start.
pub open spec fn start_point<P>(noodle: Noodle<P>, anchors: Map<u64, P>) -> Option<P> {
    match noodle {
        Noodle::Connected { start_connector, .. } => anchored(anchors, start_connector),
        Noodle::HangingStart { start_position, .. } => Some(start_position),
        Noodle::HangingEnd { start_connector, .. } => anchored(anchors, start_connector),
    }
}

/// The point where the noodle ends: the position of the connector that the
/// end is bound to, or the free point of a hanging end.
pub open spec fn end_point<P>(noodle: Noodle<P>, anchors: Map<u64, P>) -> Option<P> {
    match noodle {
        Noodle::Connected { end_connector, .. } => anchored(anchors, end_connector),
        Noodle::HangingStart { end_connector, .. } => anchored(anchors, end_connector),
        Noodle::HangingEnd { end_position, .. } => Some(end_position),
    }
}

/// The two ends of the noodle's curve, if both of them resolve.
pub open spec fn segment_of<P>(noodle: Noodle<P>, anchors: Map<u64, P>) -> Option<Segment<P>> {
    match (start_point(noodle, anchors), end_point(noodle, anchors)) {
        (Some(start), Some(end)) => Some(Segment { start, end }),
        _ => None,
    }
}

/// The curves to draw for a list of noodles: one for each noodle of which
/// both ends resolve, in the order of the list.
pub open spec fn segments_of<P>(noodles: Seq<Entry<Noodle<P>>>, anchors: Map<u64, P>) -> Seq<
    Segment<P>,
> {
    noodles.filter_map(|entry: Entry<Noodle<P>>| segment_of(entry.value, anchors))
}

/// The number of points to sample along a curve of `segments` segments, if
/// it can be counted.
pub fn line_strip_resolution(segments: usize) -> (resolution: Option<usize>)
    ensures
        resolution == if SAMPLES_PER_SEGMENT * segments <= usize::MAX {
            Some((SAMPLES_PER_SEGMENT * segments) as usize)
        } else {
            None
        },
{
    SAMPLES_PER_SEGMENT.checked_mul(segments)
}

/// Resolves the ends of every noodle for one frame. `anchors` holds the
/// position of each connector that can be found in the scene. A noodle with
/// a bound end whose connector cannot be found is left out for this frame;
/// the other noodles are not affected.
pub fn draw_noodle<P: Copy>(canvas: &Canvas<P>, anchors: &EntityMap<P>) -> (segments: Vec<
    Segment<P>,
>)
    requires
        anchors.wf(),
    ensures
        segments@ == segments_of(canvas.noodle_entries(), anchors.map()),
{
    let mut segments: Vec<Segment<P>> = Vec::new();
    let ghost entries = canvas.noodle_entries();
    let ghost resolve = |entry: Entry<Noodle<P>>| segment_of(entry.value, anchors.map());
    let mut i: usize = 0;
    while i < canvas.noodle_count()
        invariant
            i <= entries.len(),
            anchors.wf(),
            entries == canvas.noodle_entries(),
            resolve == |entry: Entry<Noodle<P>>| segment_of(entry.value, anchors.map()),
            segments@ == entries.take(i as int).filter_map(resolve),
        decreases entries.len() - i,
    {
        let noodle = canvas.noodle_entry(i).value;
        let start = match noodle {
            Noodle::Connected { start_connector, .. } => copied(anchors.get(start_connector)),
            Noodle::HangingStart { start_position, .. } => Some(start_position),
            Noodle::HangingEnd { start_connector, .. } => copied(anchors.get(start_connector)),
        };
        let end = match noodle {
            Noodle::Connected { end_connector, .. } => copied(anchors.get(end_connector)),
            Noodle::HangingStart { end_connector, .. } => copied(anchors.get(end_connector)),
            Noodle::HangingEnd { end_position, .. } => Some(end_position),
        };
        proof {
            entries.lemma_filter_map_take_succ(resolve, i as int);
        }
        match (start, end) {
            (Some(start), Some(end)) => {
                segments.push(Segment { start, end });
            },
            _ => {},
        }
        i += 1;
    }
    assert(entries.take(i as int) =~= entries);
    segments
}

/// The value behind the reference, if there is one.
fn copied<P: Copy>(found: Option<&P>) -> (value: Option<P>)
    ensures
        value == match found {
            Some(position) => Some(*position),
            None => None,
        },
{
    match found {
        Some(position) => Some(*position),
        None => None,
    }
}

} // verus!
