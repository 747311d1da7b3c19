//! Presentation cue slots: which authored `vfx_cues` slot a simulation moment looks up.
use crate::assets::CastTimeline;
use crate::events::CueKind;
use vstd::prelude::*;

verus! {

/// The slot a window-open cue looks up, and the cue's kind: an emitted instance uses
/// `emit_<window>` (`OnEmit`), any other window `on_window_<window>` (`OnWindow`).
pub open spec fn window_slot_spec(window_id: Seq<char>, emitted: bool) -> (Seq<char>, CueKind) {
    if emitted {
        ("emit_"@ + window_id, CueKind::OnEmit)
    } else {
        ("on_window_"@ + window_id, CueKind::OnWindow)
    }
}

/// The slot the cast-begin cue looks up.
pub fn cast_slot() -> (r: String)
    ensures
        r@ == "on_cast"@,
{
    "on_cast".to_owned()
}

/// The slot the hit cue looks up.
pub fn hit_slot() -> (r: String)
    ensures
        r@ == "on_hit"@,
{
    "on_hit".to_owned()
}

/// The slot (and cue kind) a window-open cue looks up; see [`window_slot_spec`].
pub fn window_slot(window_id: &str, emitted: bool) -> (r: (String, CueKind))
    ensures
        (r.0@, r.1) == window_slot_spec(window_id@, emitted),
{
    if emitted {
        let mut s = "emit_".to_owned();
        s.append(window_id);
        (s, CueKind::OnEmit)
    } else {
        let mut s = "on_window_".to_owned();
        s.append(window_id);
        (s, CueKind::OnWindow)
    }
}

/// The slot a window-end cue looks up: `on_end_<window>`.
pub fn end_slot(window_id: &str) -> (r: String)
    ensures
        r@ == "on_end_"@ + window_id@,
{
    let mut s = "on_end_".to_owned();
    s.append(window_id);
    s
}

/// The cue id authored for `slot` in `timeline`, if the timeline is loaded and authors it.
pub fn cue_for(timeline: Option<&CastTimeline>, slot: &str) -> (r: Option<String>)
    ensures
        match timeline {
            None => r is None,
            Some(tl) => match r {
                Some(c) => tl.vfx_cues@.contains_key(slot@) && c == tl.vfx_cues@[slot@],
                None => !tl.vfx_cues@.contains_key(slot@),
            },
        },
{
    match timeline {
        None => None,
        Some(tl) => match tl.vfx_cues.get(slot) {
            Some(c) => Some(c.clone()),
            None => None,
        },
    }
}

/// An emitted window instance never looks up the ordinary window-open slot (nor the other way
/// round), whatever the window ids: the two slot families never collide.
pub proof fn lemma_emit_and_window_slots_differ(a: Seq<char>, b: Seq<char>)
    ensures
        window_slot_spec(a, true).0 != window_slot_spec(b, false).0,
        window_slot_spec(a, true).1 != window_slot_spec(b, false).1,
{
    reveal_strlit("emit_");
    reveal_strlit("on_window_");
    assert(window_slot_spec(a, true).0[0] == 'e');
    assert(window_slot_spec(b, false).0[0] == 'o');
}

} // verus!
