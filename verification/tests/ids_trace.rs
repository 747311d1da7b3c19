use obelisk_bevy::ids::ObeliskEntityIndex;
use obelisk_bevy::present::{EventLog, EVENT_LOG_CAP};
use obelisk_bevy::trace::{id_label, TickCounter, Trace, TraceLine};

#[test]
fn index_syncs_on_spawn_and_despawn() {
    let mut index = ObeliskEntityIndex::default();
    let e: u64 = 0x0000_0001_0000_0004;
    index.insert(e, "goblin".into());
    assert_eq!(index.entity("goblin"), Some(e));
    index.remove(e);
    assert_eq!(index.entity("goblin"), None);
}

#[test]
fn index_maps_both_directions() {
    let mut index = ObeliskEntityIndex::new();
    index.insert(3, "player".into());
    index.insert(9, "dummy".into());
    assert_eq!(index.id(3), Some("player"));
    assert_eq!(index.id(9), Some("dummy"));
    assert_eq!(index.entity("dummy"), Some(9));
    index.remove(3);
    assert_eq!(index.id(3), None);
    assert_eq!(index.entity("player"), None);
    assert_eq!(index.entity("dummy"), Some(9));
    // Removing an unknown entity changes nothing.
    index.remove(77);
    assert_eq!(index.entity("dummy"), Some(9));
}

#[test]
fn trace_names_unknown_entities_with_a_question_mark() {
    let mut index = ObeliskEntityIndex::new();
    index.insert(5, "player".into());
    assert_eq!(id_label(&index, 5), "player");
    assert_eq!(id_label(&index, 6), "?");
}

#[test]
fn to_text_is_stable_and_ordered() {
    let tr = Trace {
        lines: vec![
            TraceLine { tick: 1, kind: "CastBegan", detail: "caster=player skill=firebolt dur=0.600".into() },
            TraceLine {
                tick: 7,
                kind: "Damage",
                detail: "caster=player target=dummy skill=firebolt dmg=20.000 kill=false life_after=5.000".into(),
            },
        ],
    };
    let txt = tr.to_text();
    assert!(txt.contains("CastBegan"));
    assert!(txt.lines().count() == 2);
    assert!(txt.starts_with("   1\tCastBegan"));
}

#[test]
fn to_text_exact_layout() {
    let tr = Trace {
        lines: vec![
            TraceLine { tick: 12, kind: "Died", detail: "target=dummy killer=player".into() },
            TraceLine { tick: 12345, kind: "Cue", detail: "cue=boom".into() },
        ],
    };
    assert_eq!(tr.to_text(), "  12\tDied\ttarget=dummy killer=player\n12345\tCue\tcue=boom");
    assert_eq!(Trace::default().to_text(), "");
}

#[test]
fn tick_counter_counts_up() {
    let mut t = TickCounter::default();
    t.advance();
    t.advance();
    assert_eq!(t.0, 2);
}

#[test]
fn event_log_keeps_the_newest_lines() {
    let mut log = EventLog::default();
    for i in 0..(EVENT_LOG_CAP + 3) {
        log.push(format!("line {i}"));
    }
    assert_eq!(log.len(), EVENT_LOG_CAP);
    let text = log.text();
    let lines: Vec<&str> = text.lines().collect();
    assert_eq!(lines.len(), 12);
    assert_eq!(lines[0], "line 3");
    assert_eq!(lines[11], "line 14");
}

#[test]
fn event_log_below_cap_keeps_everything() {
    let mut log = EventLog::new();
    log.push("cast firebolt".into());
    log.push("died".into());
    assert_eq!(log.len(), 2);
    assert_eq!(log.text(), "cast firebolt\ndied");
}
