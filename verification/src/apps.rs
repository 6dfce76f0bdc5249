//! Finding the app the agent asked for.
use vstd::prelude::*;
use crate::decimal::{signed_decimal, signed_numeral};
use crate::order::{is_text_before, lemma_text_before_orders, ranked, sort, text_before, Ranked};
use crate::text::{
    chars_of, contains, ends_with, has_part, has_prefix, has_suffix, join, joined,
    lemma_pieces_not_empty, lowercase, owned, pieces, same, split, starts_with, string_of,
    strip_end, strip_end_of, text_of, texts, trim, trimmed, CharKind,
};

pub mod laws;
pub mod listing;
pub mod naming;

verus! {

/// A running application, as an agent should see it.
#[derive(Debug, Clone)]
pub struct AppInfo {
    pub name: String,
    pub bundle_id: Option<String>,
    pub pid: i32,
    /// Whether this app is currently frontmost.
    pub active: bool,
    /// Whether the app has a Dock icon and can show windows. Background agents, services and
    /// menu-bar-only helpers are `false` and are almost never what a user means by an app name.
    pub regular: bool,
}

impl AppInfo {
    /// An equal app.
    pub fn copied(&self) -> (r: AppInfo)
        ensures
            r == *self,
    {
        AppInfo {
            name: self.name.clone(),
            bundle_id: match &self.bundle_id {
                Some(b) => Some(b.clone()),
                None => None,
            },
            pid: self.pid,
            active: self.active,
            regular: self.regular,
        }
    }
}

/// A running app, given what the workspace says of it. One without a name is called so.
pub fn app_of(
    name: Option<String>,
    bundle_id: Option<String>,
    pid: i32,
    active: bool,
    regular: bool,
) -> (r: AppInfo)
    ensures
        r.name@ == match name {
            Some(n) => n@,
            None => "(unnamed)"@,
        },
        r.bundle_id == bundle_id,
        r.pid == pid,
        r.active == active,
        r.regular == regular,
{
    let name = match name {
        Some(n) => n,
        None => owned("(unnamed)"),
    };
    AppInfo { name, bundle_id, pid, active, regular }
}

// -- listing -----------------------------------------------------------------------------------

impl Ranked for AppInfo {
    /// The frontmost app first, then those with a Dock icon, then by name without regard to case.
    open spec fn before(self, other: AppInfo) -> bool {
        if self.active != other.active {
            self.active
        } else if self.regular != other.regular {
            self.regular
        } else {
            text_before(lowercase(self.name@), lowercase(other.name@))
        }
    }

    fn is_before(&self, other: &AppInfo) -> (r: bool) {
        if self.active != other.active {
            self.active
        } else if self.regular != other.regular {
            self.regular
        } else {
            is_text_before(
                self.name.as_str().to_lowercase().as_str(),
                other.name.as_str().to_lowercase().as_str(),
            )
        }
    }

    proof fn before_orders(a: AppInfo, b: AppInfo, c: AppInfo) {
        lemma_text_before_orders(lowercase(a.name@), lowercase(b.name@), lowercase(c.name@));
    }
}

/// The apps of a list that `keep` marks, in order.
pub open spec fn selected(apps: Seq<AppInfo>, keep: Seq<bool>) -> Seq<AppInfo>
    decreases apps.len(),
{
    if apps.len() == 0 || keep.len() < apps.len() {
        Seq::empty()
    } else {
        let before = selected(apps.drop_last(), keep.take(apps.len() - 1));
        if keep[apps.len() - 1] {
            before.push(apps.last())
        } else {
            before
        }
    }
}

/// The apps with a GUI presence: those with a process identifier above zero.
pub open spec fn drivable(running: Seq<AppInfo>) -> Seq<AppInfo> {
    selected(running, running.map_values(|a: AppInfo| a.pid > 0))
}

/// Every running application with a GUI presence, the frontmost first.
///
/// When a user gives an ambiguous name, what they are looking at is the best prior.
pub fn list_apps(running: Vec<AppInfo>) -> (r: Vec<AppInfo>)
    ensures
        r@ == ranked(drivable(running@)),
{
    let ghost keep = running@.map_values(|a: AppInfo| a.pid > 0);
    let mut out: Vec<AppInfo> = Vec::new();
    let mut i: usize = 0;
    while i < running.len()
        invariant
            i <= running@.len(),
            keep == running@.map_values(|a: AppInfo| a.pid > 0),
            out@ == selected(running@.take(i as int), keep.take(i as int)),
        decreases running@.len() - i,
    {
        proof {
            lemma_selected_step(running@, keep, i as int);
        }
        if running[i].pid > 0 {
            out.push(running[i].copied());
        }
        i += 1;
    }
    assert(running@.take(running@.len() as int) == running@);
    assert(keep.take(running@.len() as int) == keep);
    sort(out)
}

proof fn lemma_selected_step(apps: Seq<AppInfo>, keep: Seq<bool>, i: int)
    requires
        0 <= i < apps.len() == keep.len(),
    ensures
        selected(apps.take(i + 1), keep.take(i + 1)) == if keep[i] {
            selected(apps.take(i), keep.take(i)).push(apps[i])
        } else {
            selected(apps.take(i), keep.take(i))
        },
{
    assert(apps.take(i + 1).drop_last() == apps.take(i));
    assert(keep.take(i + 1).take(i) == keep.take(i));
}

// -- resolving ---------------------------------------------------------------------------------

/// Why an app string could not be turned into exactly one app.
#[derive(Debug, Clone)]
pub enum ResolveError {
    NotFound { query: String },
    /// Deliberately an error rather than a guess. Silently picking one of two matching apps is how
    /// an agent ends up typing a message into the wrong window.
    Ambiguous { query: String, matches: String },
}

/// What a [`ResolveError`] says.
pub enum ResolveErrorText {
    NotFound { query: Seq<char> },
    Ambiguous { query: Seq<char>, matches: Seq<char> },
}

impl View for ResolveError {
    type V = ResolveErrorText;

    open spec fn view(&self) -> ResolveErrorText {
        match self {
            ResolveError::NotFound { query } => ResolveErrorText::NotFound { query: query@ },
            ResolveError::Ambiguous { query, matches } => ResolveErrorText::Ambiguous {
                query: query@,
                matches: matches@,
            },
        }
    }
}

impl ResolveErrorText {
    /// The sentence for the agent.
    pub open spec fn sentence(self) -> Seq<char> {
        match self {
            ResolveErrorText::NotFound { query } => "no running app matches `"@ + query
                + "`. Call list_apps to see what is running"@,
            ResolveErrorText::Ambiguous { query, matches } => "`"@ + query
                + "` is ambiguous: it matches "@ + matches
                + ". Use the bundle identifier instead"@,
        }
    }
}

impl ResolveError {
    /// The sentence for the agent.
    pub fn message(&self) -> (r: String)
        ensures
            r@ == self@.sentence(),
    {
        match self {
            ResolveError::NotFound { query } => {
                let mut out = owned("no running app matches `");
                out.append(query.as_str());
                out.append("`. Call list_apps to see what is running");
                out
            },
            ResolveError::Ambiguous { query, matches } => {
                let mut out = owned("`");
                out.append(query.as_str());
                out.append("` is ambiguous: it matches ");
                out.append(matches.as_str());
                out.append(". Use the bundle identifier instead");
                out
            },
        }
    }
}

/// A text without the given suffix, however often it stands there.
pub open spec fn without_suffixes(s: Seq<char>, suffix: Seq<char>) -> Seq<char>
    decreases s.len(),
{
    if suffix.len() > 0 && has_suffix(s, suffix) {
        without_suffixes(s.take(s.len() - suffix.len()), suffix)
    } else {
        s
    }
}

/// The last component of a path, without `.app`.
pub open spec fn basename(query: Seq<char>) -> Seq<char> {
    without_suffixes(
        pieces(strip_end(query, CharKind::Just('/')), CharKind::Just('/')).last(),
        ".app"@,
    )
}

/// The ways an app can answer to a query, from the most specific to the least.
pub const TIERS: usize = 6;

/// Whether an app answers to a trimmed query in the given way.
pub open spec fn answers_to(a: AppInfo, query: Seq<char>, tier: nat) -> bool {
    let name = lowercase(a.name@);
    let base = lowercase(basename(query));
    if tier == 0 {
        text_of(a.bundle_id) == Some(query)
    } else if tier == 1 {
        name == lowercase(query)
    } else if tier == 2 {
        name == base
    } else if tier == 3 {
        a.bundle_id is Some && has_suffix(lowercase(a.bundle_id->0@), "."@ + base)
    } else if tier == 4 {
        has_prefix(name, base)
    } else {
        has_part(name, base)
    }
}

/// Whether any app of a list has a Dock icon.
pub open spec fn any_regular(apps: Seq<AppInfo>) -> bool {
    exists|i: int| 0 <= i < apps.len() && (#[trigger] apps[i]).regular
}

/// The apps of a list without background helpers, if any real app is among them.
pub open spec fn preferring_regular(hits: Seq<AppInfo>) -> Seq<AppInfo> {
    if any_regular(hits) {
        selected(hits, hits.map_values(|a: AppInfo| a.regular))
    } else {
        hits
    }
}

/// The apps that answer to a query in the given way.
pub open spec fn tier_hits(apps: Seq<AppInfo>, query: Seq<char>, tier: nat) -> Seq<AppInfo> {
    preferring_regular(
        selected(apps, apps.map_values(|a: AppInfo| answers_to(a, query, tier))),
    )
}

/// How one app reads in a list of matches.
pub open spec fn app_label(a: AppInfo) -> Seq<char> {
    match a.bundle_id {
        Some(b) => a.name@ + " ("@ + b@ + ")"@,
        None => a.name@ + " (pid "@ + signed_numeral(a.pid as int) + ")"@,
    }
}

/// How several apps read in an error.
pub open spec fn app_labels(apps: Seq<AppInfo>) -> Seq<char> {
    joined(apps.map_values(|a: AppInfo| app_label(a)), ", "@)
}

/// What a trimmed query comes to, looking from `tier` on: the first way in which any app answers
/// decides, and it must name one app.
pub open spec fn resolution(apps: Seq<AppInfo>, query: Seq<char>, tier: nat) -> Result<
    AppInfo,
    ResolveErrorText,
>
    decreases TIERS - tier,
{
    if tier >= TIERS {
        Err(ResolveErrorText::NotFound { query })
    } else {
        let hits = tier_hits(apps, query, tier);
        if hits.len() == 0 {
            resolution(apps, query, tier + 1)
        } else if hits.len() == 1 {
            Ok(hits[0])
        } else {
            Err(ResolveErrorText::Ambiguous { query, matches: app_labels(hits) })
        }
    }
}

/// Applies `pred`, then drops background helpers if any real app matched.
///
/// This keeps `Slack` from being ambiguous between Slack and its helper processes, while a
/// menu-bar-only app can still be driven when it is the only thing that matches.
pub fn filter_preferring_regular<F: Fn(&AppInfo) -> bool>(
    apps: &[AppInfo],
    pred: F,
) -> (r: Vec<AppInfo>)
    requires
        forall|i: int| 0 <= i < apps@.len() ==> call_requires(pred, (&#[trigger] apps@[i],)),
    ensures
        exists|keep: Seq<bool>|
            #![trigger selected(apps@, keep)]
            {
                &&& keep.len() == apps@.len()
                &&& forall|i: int|
                    0 <= i < apps@.len() ==> call_ensures(pred, (&apps@[i],), #[trigger] keep[i])
                &&& r@ == preferring_regular(selected(apps@, keep))
            },
{
    let mut hits: Vec<AppInfo> = Vec::new();
    let mut regular = false;
    let ghost mut keep: Seq<bool> = Seq::empty();
    let mut i: usize = 0;
    while i < apps.len()
        invariant
            i <= apps@.len(),
            forall|k: int| 0 <= k < apps@.len() ==> call_requires(pred, (&#[trigger] apps@[k],)),
            keep.len() == i,
            forall|k: int| 0 <= k < i ==> call_ensures(pred, (&apps@[k],), #[trigger] keep[k]),
            hits@ == selected(apps@.take(i as int), keep),
            regular == any_regular(hits@),
        decreases apps@.len() - i,
    {
        let hit = pred(&apps[i]);
        let ghost before = hits@;
        proof {
            let longer = keep.push(hit);
            assert(longer.take(i as int) == keep);
            assert(apps@.take(i + 1).drop_last() == apps@.take(i as int));
            keep = longer;
        }
        if hit {
            regular = regular || apps[i].regular;
            hits.push(apps[i].copied());
            assert(forall|k: int| 0 <= k < before.len() ==> hits@[k] == before[k]);
            assert(hits@[before.len() as int] == apps@[i as int]);
        }
        i += 1;
    }
    assert(apps@.take(apps@.len() as int) == apps@);
    let ghost matched = hits@;
    if !regular {
        assert(hits@ == preferring_regular(selected(apps@, keep)));
        return hits;
    }
    let ghost marks = matched.map_values(|a: AppInfo| a.regular);
    let mut out: Vec<AppInfo> = Vec::new();
    let mut j: usize = 0;
    while j < hits.len()
        invariant
            j <= hits@.len(),
            hits@ == matched,
            marks == matched.map_values(|a: AppInfo| a.regular),
            out@ == selected(matched.take(j as int), marks.take(j as int)),
        decreases hits@.len() - j,
    {
        proof {
            lemma_selected_step(matched, marks, j as int);
        }
        if hits[j].regular {
            out.push(hits[j].copied());
        }
        j += 1;
    }
    assert(matched.take(matched.len() as int) == matched);
    assert(marks.take(marks.len() as int) == marks);
    assert(out@ == preferring_regular(selected(apps@, keep)));
    out
}

/// How several apps read in an error.
pub fn describe(apps: &[AppInfo]) -> (r: String)
    ensures
        r@ == app_labels(apps@),
{
    let ghost labels = apps@.map_values(|a: AppInfo| app_label(a));
    let mut parts: Vec<String> = Vec::new();
    let mut i: usize = 0;
    while i < apps.len()
        invariant
            i <= apps@.len(),
            labels == apps@.map_values(|a: AppInfo| app_label(a)),
            texts(parts@) == labels.take(i as int),
        decreases apps@.len() - i,
    {
        let a = &apps[i];
        let mut label = owned(a.name.as_str());
        match &a.bundle_id {
            Some(b) => {
                label.append(" (");
                label.append(b.as_str());
                label.append(")");
            },
            None => {
                label.append(" (pid ");
                label.append(signed_decimal(a.pid as i64).as_str());
                label.append(")");
            },
        }
        assert(label@ == labels[i as int]);
        let ghost longer = texts(parts@).push(label@);
        parts.push(label);
        assert(texts(parts@) == longer);
        assert(longer == labels.take(i + 1));
        i += 1;
    }
    assert(labels.take(labels.len() as int) == labels);
    join(&parts, ", ")
}

/// Computes [`without_suffixes`].
fn drop_suffixes(s: &str, suffix: &str) -> (r: String)
    ensures
        r@ == without_suffixes(s@, suffix@),
    decreases s@.len(),
{
    let n: usize = suffix.unicode_len();
    if n > 0 && ends_with(s, suffix) {
        let v = chars_of(s);
        let shorter = string_of(&v, 0, v.len() - n);
        assert(shorter@ == s@.take(s@.len() - n));
        drop_suffixes(shorter.as_str(), suffix)
    } else {
        owned(s)
    }
}

/// Computes [`basename`].
fn basename_of(query: &str) -> (r: String)
    ensures
        r@ == basename(query@),
{
    let path = strip_end_of(query, CharKind::Just('/'));
    let parts = split(path.as_str(), CharKind::Just('/'));
    proof {
        lemma_pieces_not_empty(path@, CharKind::Just('/'));
        assert(texts(parts@).last() == parts@.last()@);
    }
    drop_suffixes(parts[parts.len() - 1].as_str(), ".app")
}

/// Computes [`answers_to`], given the query and its base name in lower case.
fn is_answer(a: &AppInfo, query: &str, lower: &str, base: &str, tier: usize) -> (r: bool)
    requires
        lower@ == lowercase(query@),
        base@ == lowercase(basename(query@)),
    ensures
        r == answers_to(*a, query@, tier as nat),
{
    if tier == 0 {
        match &a.bundle_id {
            Some(b) => same(b.as_str(), query),
            None => false,
        }
    } else if tier == 3 {
        match &a.bundle_id {
            Some(b) => {
                let mut suffix = owned(".");
                suffix.append(base);
                ends_with(b.as_str().to_lowercase().as_str(), suffix.as_str())
            },
            None => false,
        }
    } else {
        let name = a.name.as_str().to_lowercase();
        if tier == 1 {
            same(name.as_str(), lower)
        } else if tier == 2 {
            same(name.as_str(), base)
        } else if tier == 4 {
            starts_with(name.as_str(), base)
        } else {
            contains(name.as_str(), base)
        }
    }
}

/// Resolves an app name, bundle identifier or bundle path to one of the running apps.
///
/// Matching runs from most to least specific and only falls through to fuzzier rules when the
/// precise ones find nothing, so `Notes` can never be beaten by a substring hit on
/// `Notes Widget Extension`:
///
/// 1. exact bundle identifier, `com.apple.Notes`
/// 2. exact name without regard to case, `notes`
/// 3. base name of a bundle path, `/Applications/Notes.app`
/// 4. suffix of the bundle identifier, `Notes` for `com.apple.Notes`
/// 5. prefix of the name, then part of the name
pub fn resolve_app(query: &str, apps: &[AppInfo]) -> (r: Result<AppInfo, ResolveError>)
    ensures
        match r {
            Ok(a) => resolution(apps@, trimmed(query@), 0) == Ok::<AppInfo, ResolveErrorText>(a),
            Err(e) => resolution(apps@, trimmed(query@), 0) == Err::<AppInfo, ResolveErrorText>(
                e@,
            ),
        },
{
    let q = trim(query);
    let lower = q.as_str().to_lowercase();
    let base = basename_of(q.as_str()).as_str().to_lowercase();
    let mut tier: usize = 0;
    while tier < TIERS
        invariant
            tier <= TIERS,
            q@ == trimmed(query@),
            lower@ == lowercase(q@),
            base@ == lowercase(basename(q@)),
            resolution(apps@, q@, tier as nat) == resolution(apps@, q@, 0),
        decreases TIERS - tier,
    {
        let matching = |a: &AppInfo| -> (b: bool)
            ensures
                b == answers_to(*a, q@, tier as nat),
            { is_answer(a, q.as_str(), lower.as_str(), base.as_str(), tier) };
        let hits = filter_preferring_regular(apps, matching);
        proof {
            let wanted = apps@.map_values(|a: AppInfo| answers_to(a, q@, tier as nat));
            let keep = choose|keep: Seq<bool>|
                #![trigger selected(apps@, keep)]
                {
                    &&& keep.len() == apps@.len()
                    &&& forall|i: int|
                        0 <= i < apps@.len() ==> call_ensures(
                            matching,
                            (&apps@[i],),
                            #[trigger] keep[i],
                        )
                    &&& hits@ == preferring_regular(selected(apps@, keep))
                };
            assert(keep =~= wanted);
        }
        if hits.len() == 1 {
            return Ok(hits[0].copied());
        }
        if hits.len() > 1 {
            return Err(
                ResolveError::Ambiguous { query: q, matches: describe(hits.as_slice()) },
            );
        }
        tier += 1;
    }
    Err(ResolveError::NotFound { query: q })
}

} // verus!
