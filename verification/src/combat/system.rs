//! Hit-resolution rules: mana billing for free hits, which skill conditions execute as their
//! own timelines, and the bound on triggered resolutions per hit.
use vstd::prelude::*;

verus! {

/// Hard cap on the number of triggered-effect resolutions processed for a single hit.
pub const MAX_TRIGGER_RESOLUTIONS: usize = 8;

/// The billing rule: mana bills per hit only for a cast's own scheduled windows. Chain re-strikes
/// (`hop > 0`), triggered sub-casts (`depth > 0`) and emitted instances never passed cast
/// validation, so their hits are free.
pub fn is_free_hit(depth: u8, hop: u8, emitted: bool) -> (r: bool)
    ensures
        r == (depth > 0 || hop > 0 || emitted),
{
    depth > 0 || hop > 0 || emitted
}

/// A condition naming a skill that has its own timeline while marked `additional = false` is a
/// content-authoring mistake (the timeline branch never replaces the primary packet).
pub fn is_invalid_timeline_target(trigger_has_timeline: bool, additional: bool) -> (r: bool)
    ensures
        r == (trigger_has_timeline && !additional),
{
    trigger_has_timeline && !additional
}

/// Splits conditions (given, for each, whether the skill it triggers has a registered timeline)
/// into the timeline-target indices and the packet indices, each in input order.
pub fn partition_conditions(has_timeline: &Vec<bool>) -> (r: (Vec<usize>, Vec<usize>))
    ensures
        forall|a: int| 0 <= a < r.0.len() ==> (#[trigger] r.0@[a]) < has_timeline.len() && has_timeline@[r.0@[a] as int],
        forall|a: int| 0 <= a < r.1.len() ==> (#[trigger] r.1@[a]) < has_timeline.len() && !has_timeline@[r.1@[a] as int],
        forall|i: int| 0 <= i < has_timeline.len() ==> if #[trigger] has_timeline@[i] {
            exists|a: int| 0 <= a < r.0.len() && r.0@[a] == i
        } else {
            exists|a: int| 0 <= a < r.1.len() && r.1@[a] == i
        },
        forall|a: int, b: int| 0 <= a < b < r.0.len() ==> #[trigger] r.0@[a] < #[trigger] r.0@[b],
        forall|a: int, b: int| 0 <= a < b < r.1.len() ==> #[trigger] r.1@[a] < #[trigger] r.1@[b],
{
    let mut timeline: Vec<usize> = Vec::new();
    let mut packet: Vec<usize> = Vec::new();
    let mut i: usize = 0;
    while i < has_timeline.len()
        invariant
            i <= has_timeline.len(),
            forall|a: int| 0 <= a < timeline.len() ==> (#[trigger] timeline@[a]) < i && has_timeline@[timeline@[a] as int],
            forall|a: int| 0 <= a < packet.len() ==> (#[trigger] packet@[a]) < i && !has_timeline@[packet@[a] as int],
            forall|k: int| 0 <= k < i ==> if #[trigger] has_timeline@[k] {
                exists|a: int| 0 <= a < timeline.len() && timeline@[a] == k
            } else {
                exists|a: int| 0 <= a < packet.len() && packet@[a] == k
            },
            forall|a: int, b: int| 0 <= a < b < timeline.len() ==> #[trigger] timeline@[a] < #[trigger] timeline@[b],
            forall|a: int, b: int| 0 <= a < b < packet.len() ==> #[trigger] packet@[a] < #[trigger] packet@[b],
        decreases has_timeline.len() - i,
    {
        let ghost t0 = timeline@;
        let ghost p0 = packet@;
        if has_timeline[i] {
            timeline.push(i);
        } else {
            packet.push(i);
        }
        proof {
            assert forall|k: int| 0 <= k < i + 1 implies if #[trigger] has_timeline@[k] {
                exists|a: int| 0 <= a < timeline.len() && timeline@[a] == k
            } else {
                exists|a: int| 0 <= a < packet.len() && packet@[a] == k
            } by {
                if k < i {
                    if has_timeline@[k] {
                        let a = choose|a: int| 0 <= a < t0.len() && t0[a] == k;
                        assert(timeline@[a] == k);
                    } else {
                        let a = choose|a: int| 0 <= a < p0.len() && p0[a] == k;
                        assert(packet@[a] == k);
                    }
                } else if has_timeline@[i as int] {
                    assert(timeline@[timeline.len() - 1] == k);
                } else {
                    assert(packet@[packet.len() - 1] == k);
                }
            }
        }
        i += 1;
    }
    (timeline, packet)
}

/// How a hit is handed to the resolver: with the skill's mana cost zeroed (a free hit), and/or
/// with its timeline-target conditions stripped (they execute spatially instead). When neither
/// applies the registry skill is used as is.
#[derive(Clone, Copy, Debug, PartialEq, Eq, Structural)]
pub struct ResolvePlan {
    pub zero_mana: bool,
    pub strip_timeline_conditions: bool,
}

/// The resolve plan for a hit (see [`ResolvePlan`]).
pub fn resolve_plan(depth: u8, hop: u8, emitted: bool, timeline_targets: usize) -> (r: ResolvePlan)
    ensures
        r.zero_mana == (depth > 0 || hop > 0 || emitted),
        r.strip_timeline_conditions == (timeline_targets > 0),
{
    ResolvePlan { zero_mana: is_free_hit(depth, hop, emitted), strip_timeline_conditions: timeline_targets > 0 }
}

/// How many of `pending` triggered effects one hit resolves: at most [`MAX_TRIGGER_RESOLUTIONS`].
pub fn triggers_to_resolve(pending: usize) -> (r: usize)
    ensures
        r == if pending < MAX_TRIGGER_RESOLUTIONS { pending } else { MAX_TRIGGER_RESOLUTIONS },
{
    if pending < MAX_TRIGGER_RESOLUTIONS {
        pending
    } else {
        MAX_TRIGGER_RESOLUTIONS
    }
}

/// The trigger depth of an execution fired from a hit at `depth` (one deeper, saturating).
pub fn next_depth(depth: u8) -> (r: u8)
    ensures
        r == if depth < 255 { depth + 1 } else { 255 },
{
    if depth < 255 {
        depth + 1
    } else {
        255
    }
}

} // verus!
