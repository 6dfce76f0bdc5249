//! Environment switches, the scope of a run, and the apps nobody may drive.
use vstd::prelude::*;
use crate::apps::AppInfo;
use crate::decimal::{parse_u64, parsed_u64};
use crate::safety::destructive::{find_part, first_part_in};
use crate::text::{
    ascii_lower, eq_ignore_case, has_prefix, join, joined, lowercase, non_empty, owned, pieces,
    same, same_but_case, slice_of, split, starts_with, text_of, texts, to_ascii_lower, trim,
    trimmed, CharKind,
};

verus! {

// -- switches ----------------------------------------------------------------------------------

/// Whether the value of an environment switch turns it on: `1`, or `true` in any case.
pub open spec fn switches_on(value: Seq<char>) -> bool {
    value == "1"@ || same_but_case(value, "true"@)
}

/// Whether a switch is on, given its value where it is set at all.
pub open spec fn switch_set(raw: Option<&str>) -> bool {
    raw is Some && switches_on(raw->0@)
}

/// What counts as "on" for an environment switch.
///
/// Anything else, `0`, `false` and the empty text among them, is off.
pub fn truthy(value: &str) -> (r: bool)
    ensures
        r == switches_on(value@),
{
    same(value, "1") || eq_ignore_case(value, "true")
}

/// Whether a switch is on, given its value where it is set at all.
pub fn flag(raw: Option<&str>) -> (r: bool)
    ensures
        r == switch_set(raw),
{
    match raw {
        Some(value) => truthy(value),
        None => false,
    }
}

/// Whether the blocklist has been switched off, given the value of `CUA_ALLOW_FORBIDDEN_TARGETS`.
pub fn forbidden_targets_allowed(raw: Option<&str>) -> (r: bool)
    ensures
        r == switch_set(raw),
{
    flag(raw)
}

/// Whether to stop acting on an app the human has started using, given the value of
/// `CUA_YIELD_TO_HUMAN`.
pub fn yield_to_human_enabled(raw: Option<&str>) -> (r: bool)
    ensures
        r == switch_set(raw),
{
    flag(raw)
}

/// The shortest and the longest time the human may be asked to be idle, and the usual one.
pub const MIN_IDLE_MS: u64 = 250;

pub const MAX_IDLE_MS: u64 = 60_000;

pub const DEFAULT_IDLE_MS: u64 = 3_000;

/// The idle time that a value of `CUA_YIELD_IDLE_MS` asks for.
pub open spec fn idle_time(raw: Option<&str>) -> u64 {
    match raw {
        Some(v) => match parsed_u64(trimmed(v@)) {
            Some(n) => if n < MIN_IDLE_MS {
                MIN_IDLE_MS
            } else if n > MAX_IDLE_MS {
                MAX_IDLE_MS
            } else {
                n
            },
            None => DEFAULT_IDLE_MS,
        },
        None => DEFAULT_IDLE_MS,
    }
}

/// How long the human has to be idle before the app is picked back up, given the value of
/// `CUA_YIELD_IDLE_MS`.
///
/// Values outside the limits are clamped rather than rejected: a typo in an environment variable
/// should not take that guard out of service in either direction.
pub fn yield_idle_ms(raw: Option<&str>) -> (r: u64)
    ensures
        r == idle_time(raw),
        MIN_IDLE_MS <= r <= MAX_IDLE_MS,
{
    match raw {
        Some(v) => match parse_u64(trim(v).as_str()) {
            Some(n) => if n < MIN_IDLE_MS {
                MIN_IDLE_MS
            } else if n > MAX_IDLE_MS {
                MAX_IDLE_MS
            } else {
                n
            },
            None => DEFAULT_IDLE_MS,
        },
        None => DEFAULT_IDLE_MS,
    }
}

// -- the scope of a run ------------------------------------------------------------------------

/// A bundle identifier as scopes compare it: without surrounding space and without regard to case.
pub open spec fn scope_name(id: Seq<char>) -> Seq<char> {
    ascii_lower(trimmed(id))
}

/// The bundle identifiers that a value of `CUA_ALLOWED_APPS` names, between commas.
pub open spec fn scope_names(raw: Seq<char>) -> Seq<Seq<char>> {
    non_empty(pieces(raw, CharKind::Just(',')).map_values(|p: Seq<char>| scope_name(p)))
}

/// Whether a scope admits a bundle identifier: it must be listed as a whole.
pub open spec fn admits(scope: Seq<Seq<char>>, id: Seq<char>) -> bool {
    scope.contains(scope_name(id))
}

/// The view of an optional scope.
pub open spec fn scope_view(scope: Option<Vec<String>>) -> Option<Seq<Seq<char>>> {
    match scope {
        Some(list) => Some(texts(list@)),
        None => None,
    }
}

/// Splits and normalizes a value of `CUA_ALLOWED_APPS`.
///
/// An empty value is an empty scope, not an absent one: a scope that opens itself when its value
/// fails to arrive would fail open on a misspelling.
pub fn parse_allowlist(raw: &str) -> (r: Vec<String>)
    ensures
        texts(r@) == scope_names(raw@),
{
    let parts = split(raw, CharKind::Just(','));
    let ghost all = texts(parts@).map_values(|p: Seq<char>| scope_name(p));
    let mut out: Vec<String> = Vec::new();
    let mut i: usize = 0;
    assert(all.take(0) == Seq::<Seq<char>>::empty());
    while i < parts.len()
        invariant
            i <= parts@.len(),
            all == texts(parts@).map_values(|p: Seq<char>| scope_name(p)),
            texts(out@) == non_empty(all.take(i as int)),
        decreases parts@.len() - i,
    {
        let name = to_ascii_lower(trim(parts[i].as_str()).as_str());
        assert(all.take(i + 1).drop_last() == all.take(i as int));
        assert(all.take(i + 1).last() == name@);
        if !name.as_str().is_empty() {
            let ghost longer = texts(out@).push(name@);
            out.push(name);
            assert(texts(out@) == longer);
        }
        i += 1;
    }
    assert(all.take(all.len() as int) == all);
    out
}

/// Whether a normalized scope admits a bundle identifier.
///
/// The whole identifier must match, never a prefix: a scope of `com.apple` must not quietly mean
/// all of Apple's apps.
pub fn in_scope(list: &[String], bundle_id: &str) -> (r: bool)
    ensures
        r == admits(texts(list@), bundle_id@),
{
    let want = to_ascii_lower(trim(bundle_id).as_str());
    let ghost names = texts(list@);
    let mut i: usize = 0;
    while i < list.len()
        invariant
            i <= list@.len(),
            names == texts(list@),
            want@ == scope_name(bundle_id@),
            forall|j: int| 0 <= j < i ==> names[j] != want@,
        decreases list@.len() - i,
    {
        assert(names[i as int] == list@[i as int]@);
        if same(list[i].as_str(), want.as_str()) {
            return true;
        }
        i += 1;
    }
    false
}

/// The bundle identifiers this run may act on, given the value of `CUA_ALLOWED_APPS`. `None` means
/// unscoped: every app may be acted on.
pub fn allowed_apps(raw: Option<&str>) -> (r: Option<Vec<String>>)
    ensures
        match raw {
            Some(v) => scope_view(r) == Some(scope_names(v@)),
            None => r is None,
        },
{
    match raw {
        Some(v) => Some(parse_allowlist(v)),
        None => None,
    }
}

/// How a scope reads back in a refusal.
pub open spec fn scope_wording(scope: Option<Seq<Seq<char>>>) -> Seq<char> {
    match scope {
        Some(names) => joined(names, ","@),
        None => Seq::empty(),
    }
}

/// How the scope reads back in a refusal.
pub fn allowed_apps_display(scope: &Option<Vec<String>>) -> (r: String)
    ensures
        r@ == scope_wording(scope_view(*scope)),
{
    match scope {
        Some(list) => join(list, ","),
        None => String::new(),
    }
}

/// Whether `bundle_id` is inside this run's scope. Everything is, where there is none.
pub fn app_allowed(scope: &Option<Vec<String>>, bundle_id: &str) -> (r: bool)
    ensures
        r == match scope_view(*scope) {
            Some(names) => admits(names, bundle_id@),
            None => true,
        },
{
    match scope {
        Some(list) => in_scope(list.as_slice(), bundle_id),
        None => true,
    }
}

// -- forbidden apps ----------------------------------------------------------------------------

pub const CREDENTIALS: &'static str = "holds credentials";

pub const SECURITY_SURFACE: &'static str = "is a system security or privacy surface";

pub const AUTH_PROMPT: &'static str = "is a login, unlock or authorization prompt";

/// Bundle identifiers of credential stores. Each stands for itself and for every identifier that
/// goes on behind a dot.
pub const CREDENTIAL_STORES: [&'static str; 18] = [
    "com.apple.keychainaccess",
    "com.apple.Passwords",
    "com.apple.PasswordManagerBrowserExtensionHelper",
    "com.apple.KeychainCircleNotification",
    "com.1password",
    "com.agilebits.onepassword",
    "com.bitwarden.desktop",
    "com.lastpass",
    "com.dashlane",
    "org.keepassxc.keepassxc",
    "com.kyuubi.KeePassium",
    "in.sinew.Enpass-Desktop",
    "me.proton.pass",
    "com.nordsecurity.nordpass",
    "com.authy.authy-mac",
    "com.stephenradford.MacPass",
    "com.mattreduce.Secrets",
    "com.strongbox",
];

/// Bundle identifiers of System Settings. The app is refused whole: which pane is open cannot be
/// seen from here.
pub const SECURITY_SURFACES: [&'static str; 3] = [
    "com.apple.systempreferences",
    "com.apple.SystemSettings",
    "com.apple.preference",
];

/// Bundle identifiers of login, unlock and authorization prompts.
pub const AUTH_PROMPTS: [&'static str; 7] = [
    "com.apple.SecurityAgent",
    "com.apple.loginwindow",
    "com.apple.CoreAuthUI",
    "com.apple.LocalAuthentication.UIAgent",
    "com.apple.ScreenSaver.Engine",
    "com.apple.screensaver",
    "com.apple.TouchBarServer",
];

/// Fragments that make an unknown app a credential store by self-description.
pub const SUSPICIOUS: [&'static str; 9] = [
    "1password",
    "authenticator",
    "bitwarden",
    "dashlane",
    "keepass",
    "keychain",
    "lastpass",
    "passwd",
    "password",
];

/// Whether an identifier in lower case is the given one or goes on behind it and a dot.
pub open spec fn covered_by(lower: Seq<char>, entry: Seq<char>) -> bool {
    lower == lowercase(entry) || has_prefix(lower, lowercase(entry) + "."@)
}

/// Whether an identifier in lower case is covered by a list.
pub open spec fn on_list(list: Seq<&str>, lower: Seq<char>) -> bool {
    exists|i: int| 0 <= i < list.len() && covered_by(lower, (#[trigger] list[i])@)
}

/// The suspicious fragment of an identifier.
pub open spec fn suspicion(id: Seq<char>) -> Option<Seq<char>> {
    first_part_in(SUSPICIOUS@, lowercase(id), 0)
}

/// Why an app with this bundle identifier may not be acted on.
pub open spec fn forbidden_reason(bundle_id: Seq<char>) -> Option<Seq<char>> {
    let id = trimmed(bundle_id);
    let lower = lowercase(id);
    if id.len() == 0 {
        None
    } else if on_list(CREDENTIAL_STORES@, lower) {
        Some(CREDENTIALS@)
    } else if on_list(SECURITY_SURFACES@, lower) {
        Some(SECURITY_SURFACE@)
    } else if on_list(AUTH_PROMPTS@, lower) {
        Some(AUTH_PROMPT@)
    } else if suspicion(id) is Some {
        Some(CREDENTIALS@)
    } else {
        None
    }
}

/// Computes [`on_list`].
fn is_on_list(list: &[&'static str], lower: &str) -> (r: bool)
    ensures
        r == on_list(list@, lower@),
{
    let mut i: usize = 0;
    while i < list.len()
        invariant
            i <= list@.len(),
            forall|j: int| 0 <= j < i ==> !covered_by(lower@, (#[trigger] list@[j])@),
        decreases list@.len() - i,
    {
        let entry = list[i].to_lowercase();
        let mut extended = owned(entry.as_str());
        extended.append(".");
        if same(lower, entry.as_str()) || starts_with(lower, extended.as_str()) {
            assert(covered_by(lower@, list@[i as int]@));
            return true;
        }
        i += 1;
    }
    false
}

/// The suspicious fragment `bundle_id` contains, if any.
pub fn suspicious_token(bundle_id: &str) -> (r: Option<&'static str>)
    ensures
        slice_of(r) == suspicion(bundle_id@),
{
    let lower = bundle_id.to_lowercase();
    find_part(SUSPICIOUS.as_slice(), lower.as_str())
}

/// Why this bundle identifier may not be acted on, or `None`.
///
/// This is the classification alone. Whether it is heeded is decided by the callers, so that the
/// reason is available even where the blocklist has been switched off.
pub fn forbidden_bundle(bundle_id: &str) -> (r: Option<&'static str>)
    ensures
        slice_of(r) == forbidden_reason(bundle_id@),
{
    let id = trim(bundle_id);
    if id.as_str().is_empty() {
        return None;
    }
    let lower = id.as_str().to_lowercase();
    if is_on_list(CREDENTIAL_STORES.as_slice(), lower.as_str()) {
        return Some(CREDENTIALS);
    }
    if is_on_list(SECURITY_SURFACES.as_slice(), lower.as_str()) {
        return Some(SECURITY_SURFACE);
    }
    if is_on_list(AUTH_PROMPTS.as_slice(), lower.as_str()) {
        return Some(AUTH_PROMPT);
    }
    if suspicious_token(id.as_str()).is_some() {
        Some(CREDENTIALS)
    } else {
        None
    }
}

/// The warning in place of a screenshot of a forbidden app.
pub open spec fn withheld_notice(name: Seq<char>, bundle_id: Seq<char>, why: Seq<char>) -> Seq<
    char,
> {
    "screenshot withheld: `"@ + name + "` ("@ + bundle_id + ") "@ + why
        + ", and a picture of it would reproduce the secret itself rather than describe the UI \
        around it. The accessibility tree below is still the full read. Actions on this app are \
        refused too; CUA_ALLOW_FORBIDDEN_TARGETS=1 lifts both."@
}

/// The warning that stands in place of an app's screenshot: where the blocklist is heeded and the
/// app is on it.
pub open spec fn screenshot_notice(app: AppInfo, allow_forbidden: bool) -> Option<Seq<char>> {
    if allow_forbidden || app.bundle_id is None {
        None
    } else {
        match forbidden_reason(app.bundle_id->0@) {
            Some(why) => Some(withheld_notice(app.name@, app.bundle_id->0@, why)),
            None => None,
        }
    }
}

/// The warning `get_app_state` attaches when it drops a forbidden app's image.
///
/// `None` when the app is not forbidden or the operator has opted out.
pub fn screenshot_refusal(app: &AppInfo, allow_forbidden: bool) -> (r: Option<String>)
    ensures
        text_of(r) == screenshot_notice(*app, allow_forbidden),
{
    if allow_forbidden {
        return None;
    }
    match &app.bundle_id {
        Some(bundle_id) => match forbidden_bundle(bundle_id.as_str()) {
            Some(why) => {
                let mut out = owned("screenshot withheld: `");
                out.append(app.name.as_str());
                out.append("` (");
                out.append(bundle_id.as_str());
                out.append(") ");
                out.append(why);
                out.append(
                    ", and a picture of it would reproduce the secret itself rather than describe the UI \
        around it. The accessibility tree below is still the full read. Actions on this app are \
        refused too; CUA_ALLOW_FORBIDDEN_TARGETS=1 lifts both.",
                );
                Some(out)
            },
            None => None,
        },
        None => None,
    }
}

} // verus!
