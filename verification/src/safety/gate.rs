//! The guard that stands before every action.
use vstd::prelude::*;
use crate::apps::AppInfo;
use crate::safety::destructive::{
    candidate_text, destructive_context, destructive_key, destructive_token, key_against,
    question_against, readable_text, token_of, Candidate, CandidateText,
};
use crate::safety::policy::{
    admits, allowed_apps_display, app_allowed, forbidden_bundle, forbidden_reason, scope_view,
    scope_wording,
};
use crate::safety::refusal::{Refused, RefusedText};
use crate::safety::runtime::{HumanWatch, Watch};
use crate::session::target::Target;
use crate::text::owned;

verus! {

/// One action's worth of safety context.
///
/// Built at the call site, so that the choice of which gates apply to which tool is visible next to
/// the tool.
#[derive(Debug, Clone)]
pub struct Gate {
    pub verb: &'static str,
    pub target: Option<Target>,
    pub confirm_destructive: bool,
    pub key: Option<String>,
    pub labelled: Option<Candidate>,
}

impl Gate {
    /// A gate for an action aimed at an element.
    pub fn at(verb: &'static str, target: &Target) -> (r: Self)
        ensures
            r.verb == verb,
            r.target == Some(*target),
            !r.confirm_destructive,
            r.key is None,
            r.labelled is None,
    {
        Gate {
            verb,
            target: Some(target.copied()),
            confirm_destructive: false,
            key: None,
            labelled: None,
        }
    }

    /// A gate for an action whose target has a label but no snapshot index: a menu bar row, which
    /// is named by its path.
    pub fn labelled(verb: &'static str, candidate: Candidate) -> (r: Self)
        ensures
            r.verb == verb,
            r.target is None,
            !r.confirm_destructive,
            r.key is None,
            r.labelled == Some(candidate),
    {
        Gate {
            verb,
            target: None,
            confirm_destructive: false,
            key: None,
            labelled: Some(candidate),
        }
    }

    /// A gate for an action with no element behind it. There is no label to judge, because there
    /// is no element.
    pub fn elementless(verb: &'static str) -> (r: Self)
        ensures
            r.verb == verb,
            r.target is None,
            !r.confirm_destructive,
            r.key is None,
            r.labelled is None,
    {
        Gate { verb, target: None, confirm_destructive: false, key: None, labelled: None }
    }

    /// Carries the caller's `confirm_destructive` through.
    pub fn confirmed(self, confirmed: bool) -> (r: Self)
        ensures
            r == (Gate { confirm_destructive: confirmed, ..self }),
    {
        Gate { confirm_destructive: confirmed, ..self }
    }

    /// Also classifies the key itself, for `press_key`.
    pub fn with_key(self, key: &str) -> (r: Self)
        ensures
            r == (Gate { key: r.key, ..self }),
            r.key is Some,
            r.key->0@ == key@,
    {
        Gate { key: Some(owned(key)), ..self }
    }

    /// The key this gate is for, when it is a `press_key`.
    pub fn key(&self) -> (r: Option<&str>)
        ensures
            match r {
                Some(k) => self.key is Some && k@ == self.key->0@,
                None => self.key is None,
            },
    {
        match &self.key {
            Some(k) => Some(k.as_str()),
            None => None,
        }
    }

    /// The element this action will land on, for the caller to resolve.
    pub fn target(&self) -> (r: Option<&Target>)
        ensures
            match r {
                Some(t) => self.target == Some(*t),
                None => self.target is None,
            },
    {
        match &self.target {
            Some(t) => Some(t),
            None => None,
        }
    }

    /// The already-described target, for a gate whose action resolved its own.
    pub fn labelled_candidate(&self) -> (r: Option<&Candidate>)
        ensures
            match r {
                Some(c) => self.labelled == Some(*c),
                None => self.labelled is None,
            },
    {
        match &self.labelled {
            Some(c) => Some(c),
            None => None,
        }
    }
}

/// What is the case around an action, read just before it.
#[derive(Debug, Clone)]
pub struct Surroundings {
    /// Whether the session is locked or showing its screen saver.
    pub locked: bool,
    /// Whether the blocklist has been switched off.
    pub allow_forbidden: bool,
    /// The bundle identifiers this run may act on, where it is scoped.
    pub allowed: Option<Vec<String>>,
    /// How long the human has to be idle.
    pub idle_ms: u64,
    /// The process that is frontmost.
    pub frontmost: Option<i32>,
}

/// What speaks against acting in a session at all.
pub open spec fn session_objection(verb: Seq<char>, around: Surroundings) -> Option<RefusedText> {
    if around.locked {
        Some(RefusedText::SessionLocked { verb })
    } else {
        None
    }
}

/// What speaks against acting on a forbidden app.
pub open spec fn forbidden_objection(
    verb: Seq<char>,
    app: AppInfo,
    around: Surroundings,
) -> Option<RefusedText> {
    if around.allow_forbidden || app.bundle_id is None {
        None
    } else {
        match forbidden_reason(app.bundle_id->0@) {
            Some(why) => Some(
                RefusedText::ForbiddenTarget {
                    verb,
                    app: app.name@,
                    bundle_id: app.bundle_id->0@,
                    why,
                },
            ),
            None => None,
        }
    }
}

/// What speaks against acting on an app outside the scope of the run.
pub open spec fn scope_objection(
    verb: Seq<char>,
    app: AppInfo,
    around: Surroundings,
) -> Option<RefusedText> {
    match scope_view(around.allowed) {
        Some(names) => match app.bundle_id {
            Some(id) => if admits(names, id@) {
                None
            } else {
                Some(
                    RefusedText::NotInAllowlist {
                        verb,
                        app: app.name@,
                        bundle_id: id@,
                        allowed: scope_wording(scope_view(around.allowed)),
                    },
                )
            },
            None => Some(
                RefusedText::UnidentifiableUnderAllowlist {
                    verb,
                    app: app.name@,
                    pid: app.pid,
                    allowed: scope_wording(scope_view(around.allowed)),
                },
            ),
        },
        None => None,
    }
}

/// What speaks against acting on an app that the human is using.
pub open spec fn human_objection(
    verb: Seq<char>,
    app: AppInfo,
    watch: Watch,
    around: Surroundings,
) -> Option<RefusedText> {
    match watch {
        Watch::Off => None,
        Watch::Broken { reason } => Some(
            RefusedText::YieldWatchUnavailable { verb, reason: reason@ },
        ),
        Watch::On { since_ms } => match since_ms {
            Some(ago_ms) => if ago_ms < around.idle_ms && around.frontmost == Some(app.pid) {
                Some(
                    RefusedText::HumanTookOver {
                        verb,
                        app: app.name@,
                        ago_ms,
                        idle_ms: around.idle_ms,
                    },
                )
            } else {
                None
            },
            None => None,
        },
    }
}

/// What speaks against pressing a key without confirmation.
pub open spec fn key_objection(
    app: AppInfo,
    key: Option<String>,
    candidate: Option<CandidateText>,
) -> Option<RefusedText> {
    match key {
        Some(k) => match key_against(k@, candidate) {
            Some(matched) => Some(
                RefusedText::NeedsConfirmationForKey {
                    key: k@,
                    target: match candidate {
                        Some(c) => c.description,
                        None => "`"@ + app.name@ + "`"@,
                    },
                    matched,
                },
            ),
            None => None,
        },
        None => None,
    }
}

/// What speaks against acting on an element without confirmation: its own text, or else the
/// question that it answers.
pub open spec fn element_objection(
    verb: Seq<char>,
    candidate: Option<CandidateText>,
) -> Option<RefusedText> {
    match candidate {
        Some(c) => match token_of(readable_text(c)) {
            Some(matched) => Some(
                RefusedText::NeedsConfirmation { verb, target: c.description, matched },
            ),
            None => match question_against(c) {
                Some((context, matched)) => Some(
                    RefusedText::NeedsConfirmationInContext {
                        verb,
                        target: c.description,
                        context: context.kind,
                        question: context.question,
                        matched,
                    },
                ),
                None => None,
            },
        },
        None => None,
    }
}

/// The first of two objections.
pub open spec fn or_else(
    first: Option<RefusedText>,
    second: Option<RefusedText>,
) -> Option<RefusedText> {
    match first {
        Some(r) => Some(r),
        None => second,
    }
}

/// What no confirmation can clear, the most fundamental reason first: the session, the blocklist,
/// the scope, the human.
pub open spec fn standing_objection(
    app: AppInfo,
    watch: Watch,
    verb: Seq<char>,
    around: Surroundings,
) -> Option<RefusedText> {
    or_else(
        session_objection(verb, around),
        or_else(
            forbidden_objection(verb, app, around),
            or_else(
                scope_objection(verb, app, around),
                human_objection(verb, app, watch, around),
            ),
        ),
    )
}

/// What a confirmation clears: the key, then the element.
pub open spec fn destructive_objection(
    app: AppInfo,
    gate: Gate,
    candidate: Option<CandidateText>,
) -> Option<RefusedText> {
    or_else(
        key_objection(app, gate.key, candidate),
        element_objection(gate.verb@, candidate),
    )
}

/// The refusal of an action, where anything speaks against it.
pub open spec fn verdict(
    app: AppInfo,
    watch: Watch,
    around: Surroundings,
    gate: Gate,
    candidate: Option<CandidateText>,
) -> Option<RefusedText> {
    or_else(
        standing_objection(app, watch, gate.verb@, around),
        if gate.confirm_destructive {
            None
        } else {
            destructive_objection(app, gate, candidate)
        },
    )
}

/// Runs every gate, in the order a reader would want them reported.
///
/// Session-wide conditions come first, then app-wide ones, then the element, so that the error a
/// caller sees is the most fundamental reason rather than the last one checked.
pub fn guard(
    app: &AppInfo,
    watch: &HumanWatch,
    around: &Surroundings,
    gate: &Gate,
    candidate: Option<&Candidate>,
) -> (r: Result<(), Refused>)
    ensures
        match r {
            Ok(_) => verdict(*app, watch.watch, *around, *gate, candidate_text(candidate)) is None,
            Err(e) => verdict(*app, watch.watch, *around, *gate, candidate_text(candidate)) == Some(
                e@,
            ),
        },
{
    let verb = gate.verb;

    if around.locked {
        return Err(Refused::SessionLocked { verb });
    }

    if !around.allow_forbidden {
        if let Some(bundle_id) = &app.bundle_id {
            if let Some(why) = forbidden_bundle(bundle_id.as_str()) {
                return Err(
                    Refused::ForbiddenTarget {
                        verb,
                        app: owned(app.name.as_str()),
                        bundle_id: owned(bundle_id.as_str()),
                        why,
                    },
                );
            }
        }
    }

    // Behind the forbidden floor on purpose: where an app is both forbidden and out of scope,
    // widening the scope would not help.
    if around.allowed.is_some() {
        match &app.bundle_id {
            Some(bundle_id) => {
                if !app_allowed(&around.allowed, bundle_id.as_str()) {
                    return Err(
                        Refused::NotInAllowlist {
                            verb,
                            app: owned(app.name.as_str()),
                            bundle_id: owned(bundle_id.as_str()),
                            allowed: allowed_apps_display(&around.allowed),
                        },
                    );
                }
            },
            None => {
                return Err(
                    Refused::UnidentifiableUnderAllowlist {
                        verb,
                        app: owned(app.name.as_str()),
                        pid: app.pid,
                        allowed: allowed_apps_display(&around.allowed),
                    },
                );
            },
        }
    }

    match &watch.watch {
        Watch::Off => {},
        Watch::Broken { reason } => {
            return Err(Refused::YieldWatchUnavailable { verb, reason: owned(reason.as_str()) });
        },
        Watch::On { .. } => {
            if let Some(ago_ms) = watch.since_human_input_ms() {
                // An app being driven is frontmost only because the human put it there. Input that
                // arrives while some other app is frontmost is the human working elsewhere.
                let in_front = match around.frontmost {
                    Some(pid) => pid == app.pid,
                    None => false,
                };
                if ago_ms < around.idle_ms && in_front {
                    return Err(
                        Refused::HumanTookOver {
                            verb,
                            app: owned(app.name.as_str()),
                            ago_ms,
                            idle_ms: around.idle_ms,
                        },
                    );
                }
            }
        },
    }

    if gate.confirm_destructive {
        return Ok(());
    }
    if let Some(key) = &gate.key {
        if let Some(matched) = destructive_key(key.as_str(), candidate) {
            let target = match candidate {
                Some(c) => owned(c.description.as_str()),
                None => {
                    let mut name = owned("`");
                    name.append(app.name.as_str());
                    name.append("`");
                    name
                },
            };
            return Err(
                Refused::NeedsConfirmationForKey { key: owned(key.as_str()), target, matched },
            );
        }
    }
    if let Some(c) = candidate {
        if let Some(matched) = destructive_token(c.classifiable_text().as_str()) {
            return Err(
                Refused::NeedsConfirmation {
                    verb,
                    target: owned(c.description.as_str()),
                    matched,
                },
            );
        }
        if let Some((context, matched)) = destructive_context(c) {
            return Err(
                Refused::NeedsConfirmationInContext {
                    verb,
                    target: owned(c.description.as_str()),
                    context: owned(context.kind.as_str()),
                    question: owned(context.question.as_str()),
                    matched,
                },
            );
        }
    }
    Ok(())
}

} // verus!
