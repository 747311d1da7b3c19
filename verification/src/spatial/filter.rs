use crate::assets::HitFilter;
use crate::combatant::components::Faction;
use vstd::prelude::*;

verus! {

/// The hit-filter rule: whether a volume with `filter`, cast by a member of `caster_faction`, may
/// strike a member of `target_faction`; `is_self` is true when the target IS the caster.
pub open spec fn filter_admits(filter: HitFilter, caster_faction: Faction, target_faction: Faction, is_self: bool) -> bool {
    match filter {
        HitFilter::Caster => is_self,
        HitFilter::All => !is_self,
        HitFilter::Enemies => !is_self && target_faction != caster_faction,
        HitFilter::Allies => !is_self && target_faction == caster_faction,
    }
}

/// Whether a hitbox with `filter` (owned by `caster_faction`) may hit a target.
/// `is_self` is true when the target entity IS the caster.
pub fn passes_filter(filter: HitFilter, caster_faction: Faction, target_faction: Faction, is_self: bool) -> (r: bool)
    ensures
        r == filter_admits(filter, caster_faction, target_faction, is_self),
{
    match filter {
        HitFilter::Caster => is_self,
        HitFilter::All => !is_self,
        HitFilter::Enemies => !is_self && target_faction != caster_faction,
        HitFilter::Allies => !is_self && target_faction == caster_faction,
    }
}

/// Only `Caster` ever admits the caster itself, and it admits nobody else.
pub proof fn lemma_only_caster_filter_hits_self(filter: HitFilter, caster_faction: Faction, target_faction: Faction)
    ensures
        filter_admits(filter, caster_faction, target_faction, true) <==> filter == HitFilter::Caster,
        filter == HitFilter::Caster ==> !filter_admits(filter, caster_faction, target_faction, false),
{
}

/// For any other target, `All` admits exactly what `Allies` or `Enemies` admits, and those two
/// never both admit the same target.
pub proof fn lemma_allies_enemies_partition_all(caster_faction: Faction, target_faction: Faction)
    ensures
        filter_admits(HitFilter::All, caster_faction, target_faction, false) <==> (
            filter_admits(HitFilter::Allies, caster_faction, target_faction, false)
            || filter_admits(HitFilter::Enemies, caster_faction, target_faction, false)),
        !(filter_admits(HitFilter::Allies, caster_faction, target_faction, false)
            && filter_admits(HitFilter::Enemies, caster_faction, target_faction, false)),
{
}

} // verus!
