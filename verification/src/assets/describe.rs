//! Human-readable text for timeline content and validation errors.
use crate::assets::{AcqFallback, Acquisition, HitFilter, TimelineError, TimelineErrorView, WindowPhase, WindowSpawn};
use crate::text::{fixed_text, push_fixed};
use vstd::prelude::*;

verus! {

/// The name of a phase.
pub open spec fn phase_name(p: WindowPhase) -> Seq<char> {
    match p {
        WindowPhase::Windup => "Windup"@,
        WindowPhase::Active => "Active"@,
        WindowPhase::Recovery => "Recovery"@,
    }
}

/// The name of a hit filter.
pub open spec fn filter_name(f: HitFilter) -> Seq<char> {
    match f {
        HitFilter::Caster => "Caster"@,
        HitFilter::Allies => "Allies"@,
        HitFilter::Enemies => "Enemies"@,
        HitFilter::All => "All"@,
    }
}

/// A spawn role written out in debug form, e.g. `Scheduled { phase: Active, offset: 0.0 }`.
pub open spec fn spawn_text(s: WindowSpawn) -> Seq<char> {
    match s {
        WindowSpawn::Scheduled { phase, offset } => "Scheduled { phase: "@ + phase_name(phase) + ", offset: "@
            + fixed_text(offset as int, true) + " }"@,
        WindowSpawn::Template => "Template"@,
    }
}

/// An acquisition tree written out in debug form.
pub open spec fn acquisition_text(a: Acquisition) -> Seq<char>
    decreases a,
{
    match a {
        Acquisition::Aim => "Aim"@,
        Acquisition::SelfPoint => "SelfPoint"@,
        Acquisition::HitscanEntity { range, filter, fallback } => "HitscanEntity { range: "@ + fixed_text(range as int, true)
            + ", filter: "@ + filter_name(filter) + ", fallback: "@ + fallback_text(fallback) + " }"@,
        Acquisition::GroundPoint { range, fallback } => "GroundPoint { range: "@ + fixed_text(range as int, true)
            + ", fallback: "@ + fallback_text(fallback) + " }"@,
    }
}

/// A fallback chain written out in debug form.
pub open spec fn fallback_text(f: AcqFallback) -> Seq<char>
    decreases f,
{
    match f {
        AcqFallback::Fizzle => "Fizzle"@,
        AcqFallback::Then(next) => "Then("@ + acquisition_text(*next) + ")"@,
    }
}

/// The message a validation error reads as.
pub open spec fn error_text(e: TimelineErrorView) -> Seq<char> {
    match e {
        TimelineErrorView::TemplateCarriesEmitter { window } => "window '"@ + window
            + "' is a Template and may not itself carry an emitter (Template->Template recursion guard)"@,
        TimelineErrorView::NonPositiveRate { window, rate } => "window '"@ + window
            + "' emitter rate must be > 0.0, got "@ + fixed_text(rate as int, false),
        TimelineErrorView::NegativeJitter { window, jitter } => "window '"@ + window
            + "' emitter jitter must be >= 0.0, got "@ + fixed_text(jitter as int, false),
        TimelineErrorView::UnknownEmitterTarget { window, target } => "window '"@ + window
            + "' emitter targets unknown window '"@ + target + "'"@,
        TimelineErrorView::EmitterTargetNotTemplate { window, target, spawn } => "window '"@ + window
            + "' emitter targets window '"@ + target + "', which is not a Template (spawn: "@ + spawn_text(spawn)
            + ") — an emitter may only instantiate a Template window"@,
        TimelineErrorView::UnreferencedTemplate { window } => "window '"@ + window
            + "' is a Template but is never referenced by an emitter — it can never spawn"@,
        TimelineErrorView::UnreachableCastPoint { window, acquisition } => "window '"@ + window
            + "' anchors on CastPoint, but this timeline's acquisition ("@ + acquisition_text(acquisition)
            + ") can never produce a cast point — add a GroundPoint/SelfPoint branch (directly or via a fallback chain) or change the window's anchor to Caster"@,
    }
}

fn push_phase(s: &mut String, p: WindowPhase)
    ensures
        final(s)@ == old(s)@ + phase_name(p),
{
    match p {
        WindowPhase::Windup => s.append("Windup"),
        WindowPhase::Active => s.append("Active"),
        WindowPhase::Recovery => s.append("Recovery"),
    }
}

fn push_filter(s: &mut String, f: HitFilter)
    ensures
        final(s)@ == old(s)@ + filter_name(f),
{
    match f {
        HitFilter::Caster => s.append("Caster"),
        HitFilter::Allies => s.append("Allies"),
        HitFilter::Enemies => s.append("Enemies"),
        HitFilter::All => s.append("All"),
    }
}

fn push_spawn(s: &mut String, sp: WindowSpawn)
    ensures
        final(s)@ == old(s)@ + spawn_text(sp),
{
    match sp {
        WindowSpawn::Scheduled { phase, offset } => {
            s.append("Scheduled { phase: ");
            push_phase(s, phase);
            s.append(", offset: ");
            push_fixed(s, offset, true);
            s.append(" }");
            proof {
                assert(final(s)@ =~= old(s)@ + spawn_text(sp));
            }
        },
        WindowSpawn::Template => s.append("Template"),
    }
}

fn push_acquisition(s: &mut String, a: &Acquisition)
    ensures
        final(s)@ == old(s)@ + acquisition_text(*a),
    decreases a,
{
    match a {
        Acquisition::Aim => s.append("Aim"),
        Acquisition::SelfPoint => s.append("SelfPoint"),
        Acquisition::HitscanEntity { range, filter, fallback } => {
            s.append("HitscanEntity { range: ");
            push_fixed(s, *range, true);
            s.append(", filter: ");
            push_filter(s, *filter);
            s.append(", fallback: ");
            push_fallback(s, fallback);
            s.append(" }");
            proof {
                assert(final(s)@ =~= old(s)@ + acquisition_text(*a));
            }
        },
        Acquisition::GroundPoint { range, fallback } => {
            s.append("GroundPoint { range: ");
            push_fixed(s, *range, true);
            s.append(", fallback: ");
            push_fallback(s, fallback);
            s.append(" }");
            proof {
                assert(final(s)@ =~= old(s)@ + acquisition_text(*a));
            }
        },
    }
}

fn push_fallback(s: &mut String, f: &AcqFallback)
    ensures
        final(s)@ == old(s)@ + fallback_text(*f),
    decreases f,
{
    match f {
        AcqFallback::Fizzle => s.append("Fizzle"),
        AcqFallback::Then(next) => {
            s.append("Then(");
            push_acquisition(s, next);
            s.append(")");
            proof {
                assert(final(s)@ =~= old(s)@ + fallback_text(*f));
            }
        },
    }
}

/// A spawn role written out in debug form.
pub fn spawn_string(sp: WindowSpawn) -> (r: String)
    ensures
        r@ == spawn_text(sp),
{
    let mut s = String::new();
    push_spawn(&mut s, sp);
    proof {
        assert(s@ =~= spawn_text(sp));
    }
    s
}

/// An acquisition tree written out in debug form.
pub fn acquisition_string(a: &Acquisition) -> (r: String)
    ensures
        r@ == acquisition_text(*a),
{
    let mut s = String::new();
    push_acquisition(&mut s, a);
    proof {
        assert(s@ =~= acquisition_text(*a));
    }
    s
}

impl TimelineError {
    /// The error's message.
    pub fn message(&self) -> (r: String)
        ensures
            r@ == error_text(self@),
    {
        let mut s = String::new();
        s.append("window '");
        match self {
            TimelineError::TemplateCarriesEmitter { window } => {
                s.append(window.as_str());
                s.append("' is a Template and may not itself carry an emitter (Template->Template recursion guard)");
            },
            TimelineError::NonPositiveRate { window, rate } => {
                s.append(window.as_str());
                s.append("' emitter rate must be > 0.0, got ");
                push_fixed(&mut s, *rate, false);
            },
            TimelineError::NegativeJitter { window, jitter } => {
                s.append(window.as_str());
                s.append("' emitter jitter must be >= 0.0, got ");
                push_fixed(&mut s, *jitter, false);
            },
            TimelineError::UnknownEmitterTarget { window, target } => {
                s.append(window.as_str());
                s.append("' emitter targets unknown window '");
                s.append(target.as_str());
                s.append("'");
            },
            TimelineError::EmitterTargetNotTemplate { window, target, spawn } => {
                s.append(window.as_str());
                s.append("' emitter targets window '");
                s.append(target.as_str());
                s.append("', which is not a Template (spawn: ");
                push_spawn(&mut s, *spawn);
                s.append(") — an emitter may only instantiate a Template window");
            },
            TimelineError::UnreferencedTemplate { window } => {
                s.append(window.as_str());
                s.append("' is a Template but is never referenced by an emitter — it can never spawn");
            },
            TimelineError::UnreachableCastPoint { window, acquisition } => {
                s.append(window.as_str());
                s.append("' anchors on CastPoint, but this timeline's acquisition (");
                push_acquisition(&mut s, acquisition);
                s.append(") can never produce a cast point — add a GroundPoint/SelfPoint branch (directly or via a fallback chain) or change the window's anchor to Caster");
            },
        }
        proof {
            assert(s@ =~= error_text(self@));
        }
        s
    }
}

} // verus!
