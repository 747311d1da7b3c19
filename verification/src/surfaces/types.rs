//! Surface-type content and its load-time validation.
use crate::assets::HitFilter;
use crate::units::{Fixed, Micros};
use vstd::hash_map::StringHashMap;
use vstd::prelude::*;

verus! {

/// Vertical tolerance of the 2.5D patch membership test.
pub const SURFACE_Y_TOLERANCE: Fixed = 1_500_000;
/// Acquisition match slack added to a patch's radius.
pub const SURFACE_MATCH_SLACK: Fixed = 300_000;
/// Default patch lifetime.
pub const DEFAULT_LIFETIME: Micros = 180_000_000;
/// Default merge (dedup) radius.
pub const DEFAULT_MERGE_RADIUS: Fixed = 250_000;
/// Default per-type patch cap.
pub const DEFAULT_MAX_PATCHES: usize = 64;
/// Default patch radius.
pub const DEFAULT_PATCH_RADIUS: Fixed = 450_000;
/// Default standing-payload rehit interval.
pub const DEFAULT_REHIT_INTERVAL: Micros = 500_000;

/// Standing-payload faction filter, relative to the painter.
#[derive(Clone, Copy, Debug, PartialEq, Eq, Structural)]
pub enum StandingFilter {
    Enemies,
    Allies,
    All,
}

impl StandingFilter {
    /// The hit filter with the same meaning.
    pub fn to_hit_filter(self) -> (r: HitFilter)
        ensures
            r == match self {
                StandingFilter::Enemies => HitFilter::Enemies,
                StandingFilter::Allies => HitFilter::Allies,
                StandingFilter::All => HitFilter::All,
            },
    {
        match self {
            StandingFilter::Enemies => HitFilter::Enemies,
            StandingFilter::Allies => HitFilter::Allies,
            StandingFilter::All => HitFilter::All,
        }
    }
}

/// What happens to entities standing in a surface.
pub struct StandingPayload {
    pub filter: StandingFilter,
    /// Effect applied/refreshed while standing.
    pub effect: Option<String>,
    /// Triggered-only skill executed at the victim on the clock.
    pub tick_skill: Option<String>,
    pub rehit_interval: Micros,
    /// Fire on entering a patch instead of on the clock.
    pub on_enter_only: bool,
}

/// A reaction to a hitbox contacting a surface: if the contacting skill's tags meet `tags_any`,
/// execute `trigger_skill` at the contact point, optionally consuming the patch.
pub struct ContactReaction {
    pub tags_any: Vec<String>,
    pub trigger_skill: String,
    pub consume: bool,
}

/// One authored surface type.
pub struct SurfaceType {
    pub id: String,
    pub lifetime: Micros,
    pub merge_radius: Fixed,
    pub max_patches: usize,
    pub patch_radius: Fixed,
    pub standing: Option<StandingPayload>,
    pub on_skill_contact: Vec<ContactReaction>,
}

/// Why a surface type was rejected at load.
#[derive(Debug)]
pub enum SurfaceError {
    EmptyId,
    NonPositiveLifetime { surface: String },
    NegativeMergeRadius { surface: String },
    ZeroMaxPatches { surface: String },
    NonPositivePatchRadius { surface: String },
    NonPositiveRehitInterval { surface: String },
    UnknownEffect { surface: String, effect: String },
    UnknownTickSkill { surface: String, skill: String },
    EmptyContactTags { surface: String },
    UnknownTriggerSkill { surface: String, skill: String },
    DuplicateId { surface: String },
}

/// [`SurfaceError`] with its strings as character sequences.
pub enum SurfaceErrorView {
    EmptyId,
    NonPositiveLifetime { surface: Seq<char> },
    NegativeMergeRadius { surface: Seq<char> },
    ZeroMaxPatches { surface: Seq<char> },
    NonPositivePatchRadius { surface: Seq<char> },
    NonPositiveRehitInterval { surface: Seq<char> },
    UnknownEffect { surface: Seq<char>, effect: Seq<char> },
    UnknownTickSkill { surface: Seq<char>, skill: Seq<char> },
    EmptyContactTags { surface: Seq<char> },
    UnknownTriggerSkill { surface: Seq<char>, skill: Seq<char> },
    DuplicateId { surface: Seq<char> },
}

impl View for SurfaceError {
    type V = SurfaceErrorView;

    open spec fn view(&self) -> SurfaceErrorView {
        match self {
            SurfaceError::EmptyId => SurfaceErrorView::EmptyId,
            SurfaceError::NonPositiveLifetime { surface } => SurfaceErrorView::NonPositiveLifetime { surface: surface@ },
            SurfaceError::NegativeMergeRadius { surface } => SurfaceErrorView::NegativeMergeRadius { surface: surface@ },
            SurfaceError::ZeroMaxPatches { surface } => SurfaceErrorView::ZeroMaxPatches { surface: surface@ },
            SurfaceError::NonPositivePatchRadius { surface } => SurfaceErrorView::NonPositivePatchRadius { surface: surface@ },
            SurfaceError::NonPositiveRehitInterval { surface } => SurfaceErrorView::NonPositiveRehitInterval { surface: surface@ },
            SurfaceError::UnknownEffect { surface, effect } => SurfaceErrorView::UnknownEffect { surface: surface@, effect: effect@ },
            SurfaceError::UnknownTickSkill { surface, skill } => SurfaceErrorView::UnknownTickSkill { surface: surface@, skill: skill@ },
            SurfaceError::EmptyContactTags { surface } => SurfaceErrorView::EmptyContactTags { surface: surface@ },
            SurfaceError::UnknownTriggerSkill { surface, skill } => SurfaceErrorView::UnknownTriggerSkill { surface: surface@, skill: skill@ },
            SurfaceError::DuplicateId { surface } => SurfaceErrorView::DuplicateId { surface: surface@ },
        }
    }
}

/// The message a surface-type error reads as.
pub open spec fn surface_error_text(e: SurfaceErrorView) -> Seq<char> {
    match e {
        SurfaceErrorView::EmptyId => "surface id must be non-empty"@,
        SurfaceErrorView::NonPositiveLifetime { surface } => "surface '"@ + surface + "': lifetime must be > 0"@,
        SurfaceErrorView::NegativeMergeRadius { surface } => "surface '"@ + surface + "': merge_radius must be >= 0"@,
        SurfaceErrorView::ZeroMaxPatches { surface } => "surface '"@ + surface + "': max_patches must be >= 1"@,
        SurfaceErrorView::NonPositivePatchRadius { surface } => "surface '"@ + surface + "': patch_radius must be > 0"@,
        SurfaceErrorView::NonPositiveRehitInterval { surface } => "surface '"@ + surface + "': rehit_interval must be > 0"@,
        SurfaceErrorView::UnknownEffect { surface, effect } => "surface '"@ + surface + "': standing.effect '"@ + effect
            + "' is not a registered effect (no_such_effect check)"@,
        SurfaceErrorView::UnknownTickSkill { surface, skill } => "surface '"@ + surface + "': standing.tick_skill '"@
            + skill + "' is not a registered skill"@,
        SurfaceErrorView::EmptyContactTags { surface } => "surface '"@ + surface
            + "': on_skill_contact.tags_any must be non-empty"@,
        SurfaceErrorView::UnknownTriggerSkill { surface, skill } => "surface '"@ + surface
            + "': on_skill_contact.trigger_skill '"@ + skill + "' is not a registered skill"@,
        SurfaceErrorView::DuplicateId { surface } => "duplicate surface id '"@ + surface + "'"@,
    }
}

impl SurfaceError {
    /// The message this error reads as.
    pub fn message(&self) -> (r: String)
        ensures
            r@ == surface_error_text(self@),
    {
        let mut s = String::new();
        match self {
            SurfaceError::EmptyId => {
                s.append("surface id must be non-empty");
            },
            SurfaceError::NonPositiveLifetime { surface } => {
                s.append("surface '");
                s.append(surface.as_str());
                s.append("': lifetime must be > 0");
            },
            SurfaceError::NegativeMergeRadius { surface } => {
                s.append("surface '");
                s.append(surface.as_str());
                s.append("': merge_radius must be >= 0");
            },
            SurfaceError::ZeroMaxPatches { surface } => {
                s.append("surface '");
                s.append(surface.as_str());
                s.append("': max_patches must be >= 1");
            },
            SurfaceError::NonPositivePatchRadius { surface } => {
                s.append("surface '");
                s.append(surface.as_str());
                s.append("': patch_radius must be > 0");
            },
            SurfaceError::NonPositiveRehitInterval { surface } => {
                s.append("surface '");
                s.append(surface.as_str());
                s.append("': rehit_interval must be > 0");
            },
            SurfaceError::UnknownEffect { surface, effect } => {
                s.append("surface '");
                s.append(surface.as_str());
                s.append("': standing.effect '");
                s.append(effect.as_str());
                s.append("' is not a registered effect (no_such_effect check)");
            },
            SurfaceError::UnknownTickSkill { surface, skill } => {
                s.append("surface '");
                s.append(surface.as_str());
                s.append("': standing.tick_skill '");
                s.append(skill.as_str());
                s.append("' is not a registered skill");
            },
            SurfaceError::EmptyContactTags { surface } => {
                s.append("surface '");
                s.append(surface.as_str());
                s.append("': on_skill_contact.tags_any must be non-empty");
            },
            SurfaceError::UnknownTriggerSkill { surface, skill } => {
                s.append("surface '");
                s.append(surface.as_str());
                s.append("': on_skill_contact.trigger_skill '");
                s.append(skill.as_str());
                s.append("' is not a registered skill");
            },
            SurfaceError::DuplicateId { surface } => {
                s.append("duplicate surface id '");
                s.append(surface.as_str());
                s.append("'");
            },
        }
        proof {
            assert(s@ =~= surface_error_text(self@));
        }
        s
    }
}

/// `name` is among the known skill ids.
pub open spec fn skill_known(skills: Seq<String>, name: Seq<char>) -> bool {
    exists|k: int| 0 <= k < skills.len() && (#[trigger] skills[k])@ == name
}

/// What is wrong with reaction `r` of surface `surface`, if anything.
pub open spec fn reaction_error(surface: Seq<char>, r: ContactReaction, skills: Option<Seq<String>>) -> Option<SurfaceErrorView> {
    if r.tags_any@.len() == 0 {
        Some(SurfaceErrorView::EmptyContactTags { surface })
    } else if skills is Some && !skill_known(skills->0, r.trigger_skill@) {
        Some(SurfaceErrorView::UnknownTriggerSkill { surface, skill: r.trigger_skill@ })
    } else {
        None
    }
}

/// The first reaction error among reactions `i..`.
pub open spec fn first_reaction_error(surface: Seq<char>, rs: Seq<ContactReaction>, skills: Option<Seq<String>>, i: int) -> Option<SurfaceErrorView>
    decreases rs.len() - i,
{
    if i < 0 || i >= rs.len() {
        None
    } else {
        match reaction_error(surface, rs[i], skills) {
            Some(e) => Some(e),
            None => first_reaction_error(surface, rs, skills, i + 1),
        }
    }
}

/// The first thing wrong with a surface type, checked in order: its id, its numeric sanity,
/// its standing payload (interval, effect, tick skill), then each contact reaction.
/// `effect_registered` is `Some(known)` when an effect registry is available to check the
/// standing effect against; `skills` is the set of known skill ids when available.
pub open spec fn surface_error(st: SurfaceType, effect_registered: Option<bool>, skills: Option<Seq<String>>) -> Option<SurfaceErrorView> {
    let id = st.id@;
    if id.len() == 0 {
        Some(SurfaceErrorView::EmptyId)
    } else if st.lifetime <= 0 {
        Some(SurfaceErrorView::NonPositiveLifetime { surface: id })
    } else if st.merge_radius < 0 {
        Some(SurfaceErrorView::NegativeMergeRadius { surface: id })
    } else if st.max_patches == 0 {
        Some(SurfaceErrorView::ZeroMaxPatches { surface: id })
    } else if st.patch_radius <= 0 {
        Some(SurfaceErrorView::NonPositivePatchRadius { surface: id })
    } else if st.standing is Some && st.standing->0.rehit_interval <= 0 {
        Some(SurfaceErrorView::NonPositiveRehitInterval { surface: id })
    } else if st.standing is Some && st.standing->0.effect is Some && effect_registered == Some(false) {
        Some(SurfaceErrorView::UnknownEffect { surface: id, effect: st.standing->0.effect->0@ })
    } else if st.standing is Some && st.standing->0.tick_skill is Some && skills is Some
        && !skill_known(skills->0, st.standing->0.tick_skill->0@) {
        Some(SurfaceErrorView::UnknownTickSkill { surface: id, skill: st.standing->0.tick_skill->0@ })
    } else {
        first_reaction_error(id, st.on_skill_contact@, skills, 0)
    }
}

fn skill_in(skills: &Vec<String>, name: &String) -> (r: bool)
    ensures
        r == skill_known(skills@, name@),
{
    let mut i: usize = 0;
    while i < skills.len()
        invariant
            i <= skills.len(),
            forall|k: int| 0 <= k < i ==> (#[trigger] skills@[k])@ != name@,
        decreases skills.len() - i,
    {
        if skills[i] == *name {
            return true;
        }
        i += 1;
    }
    false
}

/// Check a surface type (see [`surface_error`]).
pub fn validate_surface(st: &SurfaceType, effect_registered: Option<bool>, skills: Option<&Vec<String>>) -> (r: Result<(), SurfaceError>)
    ensures
        match r {
            Ok(_) => surface_error(*st, effect_registered, match skills { Some(s) => Some(s@), None => None }) is None,
            Err(e) => surface_error(*st, effect_registered, match skills { Some(s) => Some(s@), None => None }) == Some(e@),
        },
{
    let ghost sk = match skills { Some(s) => Some(s@), None => None::<Seq<String>> };
    let id = &st.id;
    if id.as_str().unicode_len() == 0 {
        return Err(SurfaceError::EmptyId);
    }
    if st.lifetime <= 0 {
        return Err(SurfaceError::NonPositiveLifetime { surface: id.clone() });
    }
    if st.merge_radius < 0 {
        return Err(SurfaceError::NegativeMergeRadius { surface: id.clone() });
    }
    if st.max_patches == 0 {
        return Err(SurfaceError::ZeroMaxPatches { surface: id.clone() });
    }
    if st.patch_radius <= 0 {
        return Err(SurfaceError::NonPositivePatchRadius { surface: id.clone() });
    }
    match &st.standing {
        Some(standing) => {
            if standing.rehit_interval <= 0 {
                return Err(SurfaceError::NonPositiveRehitInterval { surface: id.clone() });
            }
            match &standing.effect {
                Some(eff) => {
                    if effect_registered == Some(false) {
                        return Err(SurfaceError::UnknownEffect { surface: id.clone(), effect: eff.clone() });
                    }
                },
                None => {},
            }
            match (&standing.tick_skill, skills) {
                (Some(ts), Some(reg)) => {
                    if !skill_in(reg, ts) {
                        return Err(SurfaceError::UnknownTickSkill { surface: id.clone(), skill: ts.clone() });
                    }
                },
                _ => {},
            }
        },
        None => {},
    }
    let rs = &st.on_skill_contact;
    proof {
        assert(surface_error(*st, effect_registered, sk) == first_reaction_error(st.id@, rs@, sk, 0));
    }
    let mut i: usize = 0;
    while i < rs.len()
        invariant
            i <= rs.len(),
            surface_error(*st, effect_registered, sk) == first_reaction_error(st.id@, rs@, sk, 0),
            rs@ == st.on_skill_contact@,
            id@ == st.id@,
            sk == match skills { Some(s) => Some(s@), None => None::<Seq<String>> },
            first_reaction_error(st.id@, rs@, sk, 0) == first_reaction_error(st.id@, rs@, sk, i as int),
        decreases rs.len() - i,
    {
        let r = &rs[i];
        if r.tags_any.len() == 0 {
            let e = SurfaceError::EmptyContactTags { surface: id.clone() };
            proof {
                assert(first_reaction_error(st.id@, rs@, sk, i as int) == Some(e@));
            }
            return Err(e);
        }
        match skills {
            Some(reg) => {
                if !skill_in(reg, &r.trigger_skill) {
                    let e = SurfaceError::UnknownTriggerSkill { surface: id.clone(), skill: r.trigger_skill.clone() };
                    proof {
                        assert(first_reaction_error(st.id@, rs@, sk, i as int) == Some(e@));
                    }
                    return Err(e);
                }
            },
            None => {},
        }
        proof {
            assert(reaction_error(st.id@, rs@[i as int], sk) is None);
        }
        i += 1;
    }
    Ok(())
}

/// Registry of loaded surface types, keyed by id.
pub struct SurfaceRegistry {
    pub types: StringHashMap<SurfaceType>,
}

impl SurfaceRegistry {
    /// An empty registry (surface systems are then no-ops).
    pub fn new() -> (r: Self)
        ensures
            r.types@ == Map::<Seq<char>, SurfaceType>::empty(),
    {
        SurfaceRegistry { types: StringHashMap::new() }
    }

    /// Validate `st` (see [`validate_surface`]) and register it; a valid type whose id is
    /// already registered is a duplicate. The type is registered only when `Ok` is returned.
    pub fn add(&mut self, st: SurfaceType, effect_registered: Option<bool>, skills: Option<&Vec<String>>) -> (r: Result<(), SurfaceError>)
        ensures
            match r {
                Ok(_) => {
                    &&& surface_error(st, effect_registered, match skills { Some(s) => Some(s@), None => None }) is None
                    &&& !old(self).types@.contains_key(st.id@)
                    &&& final(self).types@ == old(self).types@.insert(st.id@, st)
                },
                Err(e) => {
                    &&& final(self).types@ == old(self).types@
                    &&& match surface_error(st, effect_registered, match skills { Some(s) => Some(s@), None => None }) {
                        Some(v) => e@ == v,
                        None => old(self).types@.contains_key(st.id@) && e@ == (SurfaceErrorView::DuplicateId { surface: st.id@ }),
                    }
                },
            },
    {
        match validate_surface(&st, effect_registered, skills) {
            Err(e) => Err(e),
            Ok(_) => {
                if self.types.contains_key(st.id.as_str()) {
                    Err(SurfaceError::DuplicateId { surface: st.id.clone() })
                } else {
                    let id = st.id.clone();
                    self.types.insert(id, st);
                    Ok(())
                }
            },
        }
    }
}

/// Loading surface types in order (each with whether its standing effect is a registered
/// effect, when that can be checked): the registry of the first `n`, or the first error, which
/// stops the load. A type is rejected when it is invalid ([`surface_error`]) or its id was
/// already loaded.
pub open spec fn load_result(
    ts: Seq<(SurfaceType, Option<bool>)>,
    skills: Option<Seq<String>>,
    n: int,
) -> Result<Map<Seq<char>, SurfaceType>, SurfaceErrorView>
    decreases n,
{
    if n <= 0 {
        Ok(Map::empty())
    } else {
        match load_result(ts, skills, n - 1) {
            Err(e) => Err(e),
            Ok(m) => {
                let st = ts[n - 1].0;
                match surface_error(st, ts[n - 1].1, skills) {
                    Some(e) => Err(e),
                    None => if m.contains_key(st.id@) {
                        Err(SurfaceErrorView::DuplicateId { surface: st.id@ })
                    } else {
                        Ok(m.insert(st.id@, st))
                    },
                }
            },
        }
    }
}

/// The known skill ids, when given.
pub open spec fn skills_view(skills: Option<&Vec<String>>) -> Option<Seq<String>> {
    match skills {
        Some(s) => Some(s@),
        None => None,
    }
}

/// Build a registry from surface types in load order (see [`load_result`]).
pub fn load_surfaces(types: Vec<(SurfaceType, Option<bool>)>, skills: Option<&Vec<String>>) -> (r: Result<SurfaceRegistry, SurfaceError>)
    ensures
        match r {
            Ok(loaded) => load_result(types@, skills_view(skills), types@.len() as int)
                == Ok::<Map<Seq<char>, SurfaceType>, SurfaceErrorView>(loaded.types@),
            Err(e) => load_result(types@, skills_view(skills), types@.len() as int)
                == Err::<Map<Seq<char>, SurfaceType>, SurfaceErrorView>(e@),
        },
{
    let ghost ts = types@;
    let ghost sk = skills_view(skills);
    let total = types.len();
    let mut rest = types;
    let mut reg = SurfaceRegistry::new();
    let mut k: usize = 0;
    while rest.len() > 0
        invariant
            k + rest@.len() == ts.len(),
            ts == types@,
            ts.len() == total,
            rest@ == ts.subrange(k as int, ts.len() as int),
            sk == skills_view(skills),
            load_result(ts, sk, k as int) == Ok::<Map<Seq<char>, SurfaceType>, SurfaceErrorView>(reg.types@),
        decreases rest@.len(),
    {
        let (st, eff) = rest.remove(0);
        proof {
            assert(ts[k as int] == (st, eff));
        }
        match reg.add(st, eff, skills) {
            Err(e) => {
                proof {
                    assert(load_result(ts, sk, k + 1) == Err::<Map<Seq<char>, SurfaceType>, SurfaceErrorView>(e@));
                    lemma_load_error_sticks(ts, sk, k + 1, ts.len() as int);
                    assert(load_result(ts, sk, ts.len() as int) == Err::<Map<Seq<char>, SurfaceType>, SurfaceErrorView>(e@));
                }
                return Err(e);
            },
            Ok(_) => {},
        }
        k += 1;
    }
    Ok(reg)
}

/// Once the load has failed, it stays failed with that error.
proof fn lemma_load_error_sticks(ts: Seq<(SurfaceType, Option<bool>)>, skills: Option<Seq<String>>, n: int, m: int)
    requires
        0 <= n <= m,
        load_result(ts, skills, n) is Err,
    ensures
        load_result(ts, skills, m) == load_result(ts, skills, n),
    decreases m - n,
{
    if m > n {
        lemma_load_error_sticks(ts, skills, n, m - 1);
    }
}


impl Default for SurfaceRegistry {
    /// An empty registry.
    fn default() -> (r: Self)
        ensures
            r.types@ == Map::<Seq<char>, SurfaceType>::empty(),
    {
        SurfaceRegistry::new()
    }
}

} // verus!
