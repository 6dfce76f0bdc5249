//! Reading an app, and seeing what an action changed.
use vstd::prelude::*;
use crate::apps::AppInfo;
use crate::decimal::{decimal, numeral};
use crate::diff::{diff_trees, lines, surplus, TreeDiff};
use crate::safety::context::as_list;
use crate::safety::policy::{screenshot_notice, screenshot_refusal};
use crate::session::error::{CoreError, CoreErrorText};
use crate::session::find::{match_lines, match_nodes};
use crate::session::kinds::{elapsed_ms_until, FindResult, Observed, Presence, WaitOutcome};
use crate::session::store::{
    snapshot_view, Limits, ProcessKey, Snapshot, StateOptions, Store,
};
use crate::session::targeting::{listed_view, snapshot_window, window_of};
use crate::session::windows::{
    best_window_match, distances_view, is_best_match, is_candidate, popup_id_list, popup_ids, popups,
    transient_popups, FrameBits, TransientWindow, WindowInfo,
};
use crate::snapshot::{render_tree, rendering, AxNode, RenderOptions};
use crate::text::{contains, has_part, owned, same, text_of, texts};

pub mod laws;

verus! {

// -- what a re-read is compared with -----------------------------------------------------------

/// The options of a rendering after an action, as values.
pub open spec fn plain_render() -> RenderOptions {
    RenderOptions {
        include_noise: false,
        include_frames: false,
        note_omissions: false,
        skeleton: false,
        skeleton_depth: 2,
        collapse_over: 8,
    }
}

/// How a read after an action is rendered: without the notes on omissions, which are prose about
/// the rendering and not about the app.
pub fn post_action_render() -> (r: RenderOptions)
    ensures
        r == plain_render(),
{
    RenderOptions { note_omissions: false, ..RenderOptions::default() }
}

/// The options of the read after an action, given the usual caps.
pub fn post_action_options(usual: Limits) -> (r: StateOptions)
    ensures
        r == (StateOptions {
            limits: usual,
            render: plain_render(),
            include_screenshot: false,
            max_image_dim: 1400,
            scope: None,
        }),
{
    StateOptions {
        include_screenshot: false,
        render: post_action_render(),
        ..StateOptions::usual(usual)
    }
}

/// The options of a read that only the tree is wanted of, given the usual caps.
pub fn tree_options(usual: Limits) -> (r: StateOptions)
    ensures
        r.limits == usual,
        r.render == (RenderOptions { note_omissions: true, ..plain_render() }),
        !r.include_screenshot,
        r.max_image_dim == 1400,
        r.scope is None,
{
    StateOptions { include_screenshot: false, ..StateOptions::usual(usual) }
}

pub const SCOPED_BASIS: &'static str =
    "the previous snapshot was scoped to one subtree, which a whole-window re-read cannot be \
    subtracted from";

pub const CAPPED_BASIS: &'static str =
    "the previous snapshot was walked under different caps, so it never described the whole window \
    and the difference would be mostly nodes it did not reach";

pub const UNFINISHED_BASIS: &'static str =
    "the previous snapshot's walk did not finish, so nodes it never reached would read as newly \
    appeared";

pub const ACTED_ON_BASIS: &'static str =
    "an action has already run against this snapshot without re-reading, so a diff would attribute \
    that action's changes to this one";

pub const UNRESOLVED_BASIS: &'static str = "this app could not be resolved before the action";

pub const NO_BASIS: &'static str = "this app had no previous snapshot to diff against";

/// What speaks against comparing a re-read with a snapshot: that it does not describe the whole
/// window, or not the moment before this action.
pub open spec fn basis_objection(snapshot: Snapshot, usual: Limits) -> Option<Seq<char>> {
    if snapshot.scoped {
        Some(SCOPED_BASIS@)
    } else if snapshot.limits != usual {
        Some(CAPPED_BASIS@)
    } else if !snapshot.complete {
        Some(UNFINISHED_BASIS@)
    } else if snapshot.acted_on {
        Some(ACTED_ON_BASIS@)
    } else {
        None
    }
}

/// Whether a stored snapshot can be the earlier side of a difference, given the caps that the
/// re-read walks under.
///
/// A stated reason is worth more than a difference that reports what was there all along.
pub fn diff_basis(snapshot: &Snapshot, usual: Limits) -> (r: Result<(), &'static str>)
    ensures
        match r {
            Ok(_) => basis_objection(*snapshot, usual) is None,
            Err(why) => basis_objection(*snapshot, usual) == Some(why@),
        },
{
    if snapshot.scoped {
        return Err(SCOPED_BASIS);
    }
    if snapshot.limits != usual {
        return Err(CAPPED_BASIS);
    }
    if !snapshot.complete {
        return Err(UNFINISHED_BASIS);
    }
    if snapshot.acted_on {
        return Err(ACTED_ON_BASIS);
    }
    Ok(())
}

/// The outline that a re-read is compared with and the window it describes, or why there is none.
/// `None` for the snapshot's owner means that the app could not be resolved.
pub open spec fn basis(found: bool, snapshot: Option<Snapshot>, usual: Limits) -> Result<
    (Seq<char>, Option<u32>),
    Seq<char>,
> {
    if !found {
        Err(UNRESOLVED_BASIS@)
    } else {
        match snapshot {
            None => Err(NO_BASIS@),
            Some(s) => match basis_objection(s, usual) {
                Some(why) => Err(why),
                None => Ok((rendering(s.nodes@, plain_render()), window_of(Some(s)))),
            },
        }
    }
}

/// The view of a basis.
pub open spec fn basis_view(b: Result<(String, Option<u32>), &'static str>) -> Result<
    (Seq<char>, Option<u32>),
    Seq<char>,
> {
    match b {
        Ok((tree, window)) => Ok((tree@, window)),
        Err(why) => Err(why@),
    }
}

/// The outline of the snapshot that an app already has, plus the window it described, rendered the
/// way the read after the action will be.
pub fn rendered_current_tree(
    found: bool,
    snapshot: Option<&Snapshot>,
    usual: Limits,
) -> (r: Result<(String, Option<u32>), &'static str>)
    ensures
        basis_view(r) == basis(found, snapshot_view(snapshot), usual),
{
    if !found {
        return Err(UNRESOLVED_BASIS);
    }
    match snapshot {
        None => Err(NO_BASIS),
        Some(s) => match diff_basis(s, usual) {
            Err(why) => Err(why),
            Ok(_) => Ok(
                (
                    render_tree(s.nodes.as_slice(), post_action_render()),
                    snapshot_window(Some(s)),
                ),
            ),
        },
    }
}

/// The target's state right after an action.
#[derive(Debug, Clone)]
pub struct PostActionState {
    /// Id of the snapshot taken after the action. `None` when the re-read itself failed, which is
    /// not the same as nothing having changed.
    pub snapshot_id: Option<u64>,
    /// Lines that appeared or vanished, where there was something fair to compare with.
    pub diff: Option<TreeDiff>,
    /// Why there is no difference, when there is none.
    pub note: Option<String>,
    pub node_count: usize,
}

/// What a re-read after an action found.
#[derive(Debug, Clone)]
pub struct ReRead {
    pub snapshot_id: u64,
    pub tree: String,
    pub node_count: usize,
    /// The window that the re-read describes, where it could be identified.
    pub window: Option<u32>,
}

pub const OTHER_WINDOW: &'static str =
    "the window this app is showing is not the one the previous snapshot described, so there is \
    nothing to diff against";

pub const UNKNOWN_WINDOW: &'static str =
    "this app's window could not be identified, so there is no evidence the re-read describes the \
    same window as the previous snapshot (a missing Screen Recording grant is the usual reason)";

/// The outline to compare a re-read with. Two unknown windows are not the same window.
pub open spec fn comparable(
    before: Result<(Seq<char>, Option<u32>), Seq<char>>,
    after: Option<u32>,
) -> Result<Seq<char>, Seq<char>> {
    match before {
        Err(why) => Err(why),
        Ok((tree, window)) => if window is Some && after is Some {
            if window->0 == after->0 {
                Ok(tree)
            } else {
                Err(OTHER_WINDOW@)
            }
        } else {
            Err(UNKNOWN_WINDOW@)
        },
    }
}

/// What is noted where the window could not be read after an action.
pub const UNOBSERVED: &'static str =
    "the action ran, but the window could not be read afterwards, so its                          effect is unobserved: ";

/// What is noted where the window could not be read after an action, with the reason.
pub open spec fn unobserved_note(e: CoreErrorText) -> Seq<char> {
    UNOBSERVED@ + e.sentence()
}

/// Where to find what a difference would have said.
pub const FULL_TREE: &'static str =
    ". The full tree is at the snapshot_id above; call get_app_state to read it";

/// What is noted where there is nothing fair to compare with.
pub open spec fn no_diff_note(why: Seq<char>) -> Seq<char> {
    why + FULL_TREE@
}

/// What a re-read after an action reports: the difference where the two reads describe the same
/// window, and the reason where there is none.
pub fn read_state_after(
    before: Result<(String, Option<u32>), &'static str>,
    read: Result<ReRead, CoreError>,
) -> (r: PostActionState)
    ensures
        match read {
            Err(e) => {
                &&& r.snapshot_id is None
                &&& r.diff is None
                &&& text_of(r.note) == Some(unobserved_note(e@))
                &&& r.node_count == 0
            },
            Ok(now) => {
                &&& r.snapshot_id == Some(now.snapshot_id)
                &&& r.node_count == now.node_count
                &&& match comparable(basis_view(before), now.window) {
                    Ok(tree) => {
                        &&& r.note is None
                        &&& r.diff is Some
                        &&& texts(r.diff->0.added@) == surplus(lines(now.tree@), lines(tree))
                        &&& texts(r.diff->0.removed@) == surplus(lines(tree), lines(now.tree@))
                    },
                    Err(why) => {
                        &&& r.diff is None
                        &&& text_of(r.note) == Some(no_diff_note(why))
                    },
                }
            },
        },
{
    let now = match read {
        Ok(n) => n,
        Err(e) => {
            let mut note = owned(UNOBSERVED);
            note.append(e.message().as_str());
            return PostActionState {
                snapshot_id: None,
                diff: None,
                note: Some(note),
                node_count: 0,
            };
        },
    };
    let (diff, why): (Option<TreeDiff>, &'static str) = match before {
        Err(why) => (None, why),
        Ok((tree, window)) => match (window, now.window) {
            (Some(a), Some(b)) => if a == b {
                (Some(diff_trees(tree.as_str(), now.tree.as_str())), "")
            } else {
                (None, OTHER_WINDOW)
            },
            _ => (None, UNKNOWN_WINDOW),
        },
    };
    let note = if diff.is_some() {
        None
    } else {
        let mut out = owned(why);
        out.append(FULL_TREE);
        Some(out)
    };
    PostActionState {
        snapshot_id: Some(now.snapshot_id),
        diff,
        note,
        node_count: now.node_count,
    }
}

// -- reading an app ----------------------------------------------------------------------------

/// A read of an app under way.
#[derive(Debug, Clone)]
pub struct Reading {
    pub info: AppInfo,
    pub opts: StateOptions,
    pub key: ProcessKey,
    /// Whether this process is read for the first time.
    pub first_read: bool,
    pub warnings: Vec<String>,
}

/// The options that a read goes by: as asked, but without pixels where those are withheld.
pub open spec fn reading_options(
    info: AppInfo,
    opts: StateOptions,
    allow_forbidden: bool,
) -> StateOptions {
    StateOptions {
        include_screenshot: opts.include_screenshot && screenshot_notice(info, allow_forbidden) is None,
        ..opts
    }
}

/// Begins a read. Reading a forbidden app stays allowed; photographing one does not.
pub fn begin_reading(
    info: AppInfo,
    opts: StateOptions,
    key: ProcessKey,
    first_read: bool,
    allow_forbidden: bool,
) -> (r: Reading)
    ensures
        r.info == info,
        r.key == key,
        r.first_read == first_read,
        r.opts == reading_options(info, opts, allow_forbidden),
        texts(r.warnings@) == (if opts.include_screenshot {
            as_list(screenshot_notice(info, allow_forbidden))
        } else {
            Seq::empty()
        }),
{
    let mut warnings: Vec<String> = Vec::new();
    let mut include_screenshot = opts.include_screenshot;
    assert(texts(warnings@) == Seq::<Seq<char>>::empty());
    if include_screenshot {
        if let Some(why) = screenshot_refusal(&info, allow_forbidden) {
            include_screenshot = false;
            let ghost one = seq![why@];
            warnings.push(why);
            assert(texts(warnings@) == one);
        }
    }
    Reading {
        info,
        opts: StateOptions { include_screenshot, ..opts },
        key,
        first_read,
        warnings,
    }
}

/// What asking an app for one of its window attributes came to.
#[derive(Debug, Clone, Copy, PartialEq, Eq, Structural)]
pub enum WindowAnswer {
    There,
    Missing,
    /// The app did not answer in time.
    NoAnswer,
}

/// What an app said of its windows.
#[derive(Debug, Clone, Copy, PartialEq, Eq, Structural)]
pub struct WindowAnswers {
    pub focused: WindowAnswer,
    pub main: WindowAnswer,
    pub listed: WindowAnswer,
}

/// Which window to read.
#[derive(Debug, Clone, Copy, PartialEq, Eq, Structural)]
pub enum WindowPick {
    Focused,
    Main,
    First,
    /// The app did not answer; wait a moment and ask once more.
    AskAgain,
}

/// Which window to read, or why none can be: the focused one, else the main one, else the first. An
/// app that does not answer is asked once more before that is reported.
pub open spec fn picked_window(app: Seq<char>, said: WindowAnswers, asked_before: bool) -> Result<
    WindowPick,
    CoreErrorText,
> {
    if said.focused == WindowAnswer::There {
        Ok(WindowPick::Focused)
    } else if said.main == WindowAnswer::There {
        Ok(WindowPick::Main)
    } else if said.listed == WindowAnswer::There {
        Ok(WindowPick::First)
    } else if said.focused == WindowAnswer::NoAnswer || said.main == WindowAnswer::NoAnswer
        || said.listed == WindowAnswer::NoAnswer {
        if asked_before {
            Err(CoreErrorText::WindowQueryTimedOut { app })
        } else {
            Ok(WindowPick::AskAgain)
        }
    } else {
        Err(CoreErrorText::NoWindow { app })
    }
}

/// The caller sees a capture failure blamed on an open menu only where the window server refused
/// and a menu is open.
pub const WINDOW_SERVER_REFUSAL: &'static str = "could not create image from window";

/// What is added to the window server's refusal where a menu is open.
pub const MENU_MAY_BE_WHY: &'static str =
    ". This app has a menu open, which may be why: the same window has been seen to capture once \
    its menu closed. The tree above is current either way; if you need pixels, dismiss the menu \
    (press_key `escape` on the AXMenu) and read again";

/// Whether a snapshot has a menu in it.
pub open spec fn has_menu(nodes: Seq<AxNode>) -> bool {
    exists|i: int| 0 <= i < nodes.len() && (#[trigger] nodes[i]).role@ == "AXMenu"@
}

/// What is said of a failed capture.
pub open spec fn capture_warning(err: Seq<char>, nodes: Seq<AxNode>) -> Seq<char> {
    if has_part(err, WINDOW_SERVER_REFUSAL@) && has_menu(nodes) {
        err
            + MENU_MAY_BE_WHY@
    } else {
        err
    }
}

/// Offers an open menu as a possible cause of a capture failure.
pub fn capture_failure_warning(err: &str, nodes: &[AxNode]) -> (r: String)
    ensures
        r@ == capture_warning(err@, nodes@),
{
    let mut menu = false;
    let mut i: usize = 0;
    while i < nodes.len()
        invariant
            i <= nodes@.len(),
            menu == (exists|j: int| 0 <= j < i && (#[trigger] nodes@[j]).role@ == "AXMenu"@),
        decreases nodes@.len() - i,
    {
        if same(nodes[i].role.as_str(), "AXMenu") {
            assert(nodes@[i as int].role@ == "AXMenu"@);
            menu = true;
        }
        i += 1;
    }
    let mut out = owned(err);
    if contains(err, WINDOW_SERVER_REFUSAL) && menu {
        out.append(MENU_MAY_BE_WHY);
    }
    out
}

/// Below how many elements a first read looks empty.
pub const LOOKS_EMPTY: usize = 20;

/// What a first read that found little may mean.
pub const STILL_BUILDING: &'static str =
    " elements on the first read of this app. Chromium and Electron apps build their \
    accessibility tree lazily after being asked, and it can take several seconds to appear — \
    call get_app_state again. If it stays this small across a few tries, this app does not \
    expose its web content over the accessibility API at all and has to be driven over CDP \
    instead; its native chrome (window buttons, menu bar) is still reachable here.";

/// What is said of a first read that found little.
pub open spec fn small_tree_note(count: nat) -> Seq<char> {
    "only "@ + numeral(count)
        + STILL_BUILDING@
}

/// What is said of a tree that hit its cap.
pub open spec fn truncated_note(max_nodes: nat) -> Seq<char> {
    "tree truncated at "@ + numeral(max_nodes)
        + " elements; pass a larger max_nodes or narrow the target"@
}

/// What a walk that ran out of time means.
pub const MISSING_NOT_ABSENT: &'static str =
    " elements, so anything further down is missing rather than absent. This app is answering \
    accessibility calls slowly. Narrow the walk with scope_element_id, or use find to search, \
    before concluding an element is not there";

/// What is said of a walk that ran out of time.
pub open spec fn incomplete_note(budget: Seq<char>, count: nat) -> Seq<char> {
    "tree is INCOMPLETE: the walk hit its "@ + budget + "s time budget after "@ + numeral(count)
        + MISSING_NOT_ABSENT@
}

/// What is said of a walk: where a first read found little, and where the tree is not whole.
pub open spec fn walk_notes(
    count: nat,
    first_read: bool,
    max_nodes: nat,
    complete: bool,
    budget: Seq<char>,
) -> Seq<Seq<char>> {
    (if count < LOOKS_EMPTY && first_read {
        seq![small_tree_note(count)]
    } else {
        Seq::empty()
    }) + (if count >= max_nodes {
        seq![truncated_note(max_nodes)]
    } else if !complete {
        seq![incomplete_note(budget, count)]
    } else {
        Seq::empty()
    })
}

/// What is said of windows above the content.
pub const UNDESCRIBED: &'static str =
    " window(s) open above its content that the tree below does not describe and accessibility \
    cannot see into — see the `transient UI` section. A menu item is reached with \
    click_in_window against the pop-up's own window_id, or more cheaply with press_key if it \
    shows a keyboard shortcut";

/// What is said of pop-ups that the tree does not describe.
pub open spec fn popups_note(count: nat) -> Seq<char> {
    "this app has "@ + numeral(count)
        + UNDESCRIBED@
}

pub const NO_CAPTURABLE_WINDOW: &'static str =
    "could not identify a capturable window for this app";

/// What to capture.
#[derive(Debug, Clone, Copy, PartialEq, Eq, Structural)]
pub enum CapturePlan {
    Capture { window: u32, max_image_dim: u32 },
    Skip,
}

/// What a read captures: the window it describes, where pixels are wanted and the window is known.
pub open spec fn capture_of(opts: StateOptions, window: Option<WindowInfo>) -> CapturePlan {
    if opts.include_screenshot && window is Some {
        CapturePlan::Capture { window: window->0.id, max_image_dim: opts.max_image_dim }
    } else {
        CapturePlan::Skip
    }
}

/// What the agent gets back from a read, the pixels apart.
#[derive(Debug, Clone)]
pub struct AppState {
    pub app: AppInfo,
    pub snapshot_id: u64,
    /// The rendered outline.
    pub tree: String,
    pub node_count: usize,
    pub actionable_count: usize,
    pub window_title: Option<String>,
    /// The window that the walk describes, when one was verified.
    pub window_id: Option<u32>,
    pub window_frame: Option<FrameBits>,
    /// Transient UI above the app's own content, topmost first. The tree cannot report it.
    pub popups: Vec<TransientWindow>,
    /// Problems worth telling the agent about.
    pub warnings: Vec<String>,
}

/// How many elements of a list take an action, among the first `upto`.
pub open spec fn actionable_below(nodes: Seq<AxNode>, upto: nat) -> nat
    decreases upto,
{
    if upto == 0 {
        0
    } else {
        actionable_below(nodes, (upto - 1) as nat) + if nodes[upto - 1].actionable {
            1nat
        } else {
            0
        }
    }
}

fn count_actionable(nodes: &[AxNode]) -> (r: usize)
    ensures
        r == actionable_below(nodes@, nodes@.len()),
{
    let mut count: usize = 0;
    let mut i: usize = 0;
    while i < nodes.len()
        invariant
            count <= i <= nodes@.len(),
            count == actionable_below(nodes@, i as nat),
        decreases nodes@.len() - i,
    {
        if nodes[i].actionable {
            count += 1;
        }
        i += 1;
    }
    count
}

/// Appends a text to a list of texts.
fn push_text(list: &mut Vec<String>, text: String)
    ensures
        texts(final(list)@) == texts(old(list)@).push(text@),
{
    let ghost longer = texts(list@).push(text@);
    list.push(text);
    assert(texts(list@) == longer);
}

impl Reading {
    /// Whether only the warnings of a read have changed.
    pub open spec fn same_but_warnings(self, other: Reading) -> bool {
        &&& self.info == other.info
        &&& self.opts == other.opts
        &&& self.key == other.key
        &&& self.first_read == other.first_read
    }

    /// Whether a snapshot is the one that this read keeps.
    pub open spec fn kept(
        self,
        s: Snapshot,
        id: u64,
        nodes: Vec<AxNode>,
        complete: bool,
        window: Option<WindowInfo>,
        up: Seq<TransientWindow>,
    ) -> bool {
        &&& s.id == id
        &&& s.nodes == nodes
        &&& s.window == window
        &&& s.process_key == self.key
        &&& s.scoped == (self.opts.scope is Some)
        &&& s.limits == self.opts.limits
        &&& s.complete == complete
        &&& !s.acted_on
        &&& s.popups@ == up
    }

    /// Whether this is what the agent is told of a snapshot that was just taken. The frame is that
    /// of the window, or else what accessibility said of it.
    pub open spec fn told_of(
        self,
        state: AppState,
        s: Snapshot,
        ax_frame: Option<FrameBits>,
    ) -> bool {
        &&& state.app == self.info
        &&& state.snapshot_id == s.id
        &&& state.tree@ == rendering(s.nodes@, self.opts.render)
        &&& state.node_count == s.nodes@.len()
        &&& state.actionable_count == actionable_below(s.nodes@, s.nodes@.len())
        &&& text_of(state.window_title) == match s.window {
            Some(w) => text_of(w.title),
            None => None,
        }
        &&& state.window_id == window_of(Some(s))
        &&& state.window_frame == match s.window {
            Some(w) => Some(w.frame),
            None => ax_frame,
        }
        &&& state.popups@ == s.popups@
        &&& state.warnings == self.warnings
    }

    /// Chooses the window to read.
    pub fn choose_window(&self, said: WindowAnswers, asked_before: bool) -> (r: Result<
        WindowPick,
        CoreError,
    >)
        ensures
            match r {
                Ok(p) => picked_window(self.info.name@, said, asked_before) == Ok::<
                    WindowPick,
                    CoreErrorText,
                >(p),
                Err(e) => picked_window(self.info.name@, said, asked_before) == Err::<
                    WindowPick,
                    CoreErrorText,
                >(e@),
            },
    {
        if said.focused == WindowAnswer::There {
            return Ok(WindowPick::Focused);
        }
        if said.main == WindowAnswer::There {
            return Ok(WindowPick::Main);
        }
        if said.listed == WindowAnswer::There {
            return Ok(WindowPick::First);
        }
        if said.focused == WindowAnswer::NoAnswer || said.main == WindowAnswer::NoAnswer
            || said.listed == WindowAnswer::NoAnswer {
            if asked_before {
                return Err(
                    CoreError::WindowQueryTimedOut { app: owned(self.info.name.as_str()) },
                );
            }
            return Ok(WindowPick::AskAgain);
        }
        Err(CoreError::NoWindow { app: owned(self.info.name.as_str()) })
    }

    /// What speaks against starting the walk where the options ask.
    pub open spec fn root_objection(self, snapshot: Option<Snapshot>) -> Option<CoreErrorText> {
        match self.opts.scope {
            None => None,
            Some(index) => match snapshot {
                None => Some(CoreErrorText::NoSnapshot { app: self.info.name@ }),
                Some(s) => if s.process_key != self.key {
                    Some(CoreErrorText::ProcessReplaced { app: self.info.name@ })
                } else if index >= s.nodes@.len() {
                    Some(CoreErrorText::BadIndex { index, count: s.nodes.len() })
                } else {
                    None
                },
            },
        }
    }

    /// Chooses where the walk starts: at the window, or at an element of the snapshot that is about
    /// to be replaced.
    pub fn choose_root(&self, snapshot: Option<&Snapshot>) -> (r: Result<Option<usize>, CoreError>)
        ensures
            match r {
                Ok(root) => self.root_objection(snapshot_view(snapshot)) is None && root
                    == self.opts.scope,
                Err(e) => self.root_objection(snapshot_view(snapshot)) == Some(e@),
            },
    {
        let index: usize = match self.opts.scope {
            None => {
                return Ok(None);
            },
            Some(i) => i,
        };
        match snapshot {
            None => Err(CoreError::NoSnapshot { app: owned(self.info.name.as_str()) }),
            Some(s) => if s.process_key != self.key {
                Err(CoreError::ProcessReplaced { app: owned(self.info.name.as_str()) })
            } else if index >= s.nodes.len() {
                Err(CoreError::BadIndex { index, count: s.nodes.len() })
            } else {
                Ok(Some(index))
            },
        }
    }

    /// Notes what a walk came to. `budget` is how its time budget reads in whole seconds.
    pub fn note_walk(&mut self, count: usize, complete: bool, budget: &str)
        ensures
            final(self).same_but_warnings(*old(self)),
            texts(final(self).warnings@) == texts(old(self).warnings@) + walk_notes(
                count as nat,
                old(self).first_read,
                old(self).opts.limits.max_nodes as nat,
                complete,
                budget@,
            ),
    {
        let ghost start = texts(self.warnings@);
        let ghost mut notes: Seq<Seq<char>> = Seq::empty();
        if count < LOOKS_EMPTY && self.first_read {
            let mut note = owned("only ");
            note.append(decimal(count as u64).as_str());
            note.append(STILL_BUILDING);
            proof {
                notes = notes.push(note@);
            }
            push_text(&mut self.warnings, note);
        }
        assert(texts(self.warnings@) == start + notes);
        if count >= self.opts.limits.max_nodes {
            let mut note = owned("tree truncated at ");
            note.append(decimal(self.opts.limits.max_nodes as u64).as_str());
            note.append(" elements; pass a larger max_nodes or narrow the target");
            proof {
                notes = notes.push(note@);
            }
            push_text(&mut self.warnings, note);
        } else if !complete {
            let mut note = owned("tree is INCOMPLETE: the walk hit its ");
            note.append(budget);
            note.append("s time budget after ");
            note.append(decimal(count as u64).as_str());
            note.append(MISSING_NOT_ABSENT);
            proof {
                notes = notes.push(note@);
            }
            push_text(&mut self.warnings, note);
        }
        assert(texts(self.warnings@) == start + notes);
        assert(notes == walk_notes(
            count as nat,
            old(self).first_read,
            old(self).opts.limits.max_nodes as nat,
            complete,
            budget@,
        ));
    }

    /// What is said of an enumeration of windows.
    pub open spec fn window_notes(self, listed: Result<Seq<WindowInfo>, Seq<char>>) -> Seq<
        Seq<char>,
    > {
        match listed {
            Err(e) => seq![e],
            Ok(windows) => {
                let up = popups(windows, self.info.pid, None);
                if up.len() > 0 {
                    seq![popups_note(up.len())]
                } else {
                    Seq::empty()
                }
            },
        }
    }

    /// Notes an enumeration of windows: which one the walk is of, and what is up above it. Without
    /// one the tree is still useful, so a failure is a warning.
    pub fn note_windows(
        &mut self,
        listed: &Result<Vec<WindowInfo>, String>,
        distances: Option<&Vec<i64>>,
    ) -> (r: (Option<WindowInfo>, Vec<TransientWindow>))
        requires
            listed is Ok && distances is Some ==> distances->0@.len() == listed->Ok_0@.len(),
        ensures
            final(self).same_but_warnings(*old(self)),
            texts(final(self).warnings@) == texts(old(self).warnings@) + old(self).window_notes(
                listed_view(*listed),
            ),
            match listed {
                Err(_) => r.0 is None && r.1@.len() == 0,
                Ok(windows) => {
                    &&& r.1@ == popups(windows@, old(self).info.pid, None)
                    &&& match r.0 {
                        Some(w) => exists|i: int|
                            is_best_match(
                                windows@,
                                old(self).info.pid,
                                distances_view(distances),
                                i,
                            ) && windows@[i] == w,
                        None => forall|i: int|
                            0 <= i < windows@.len() ==> !is_candidate(
                                #[trigger] windows@[i],
                                old(self).info.pid,
                                distances is Some,
                            ),
                    }
                },
            },
    {
        let ghost start = texts(self.warnings@);
        match listed {
            Err(e) => {
                push_text(&mut self.warnings, owned(e.as_str()));
                assert(texts(self.warnings@) == start + seq![e@]);
                (None, Vec::new())
            },
            Ok(windows) => {
                let window = best_window_match(windows.as_slice(), self.info.pid, distances);
                let up = transient_popups(windows.as_slice(), self.info.pid, None);
                if up.len() > 0 {
                    let mut note = owned("this app has ");
                    note.append(decimal(up.len() as u64).as_str());
                    note.append(UNDESCRIBED);
                    let ghost said = note@;
                    push_text(&mut self.warnings, note);
                    assert(texts(self.warnings@) == start + seq![said]);
                } else {
                    assert(start + Seq::<Seq<char>>::empty() == start);
                }
                (window, up)
            },
        }
    }

    /// Decides what to capture, noting where a capture was asked for and no window is known.
    pub fn plan_capture(&mut self, window: &Option<WindowInfo>) -> (r: CapturePlan)
        ensures
            final(self).same_but_warnings(*old(self)),
            r == capture_of(old(self).opts, *window),
            texts(final(self).warnings@) == (if old(self).opts.include_screenshot && window is None {
                texts(old(self).warnings@).push(NO_CAPTURABLE_WINDOW@)
            } else {
                texts(old(self).warnings@)
            }),
    {
        if !self.opts.include_screenshot {
            return CapturePlan::Skip;
        }
        match window {
            Some(w) => CapturePlan::Capture {
                window: w.id,
                max_image_dim: self.opts.max_image_dim,
            },
            None => {
                push_text(&mut self.warnings, owned(NO_CAPTURABLE_WINDOW));
                CapturePlan::Skip
            },
        }
    }

    /// Notes a capture that failed.
    pub fn note_capture_failure(&mut self, err: &str, nodes: &[AxNode])
        ensures
            final(self).same_but_warnings(*old(self)),
            texts(final(self).warnings@) == texts(old(self).warnings@).push(
                capture_warning(err@, nodes@),
            ),
    {
        push_text(&mut self.warnings, capture_failure_warning(err, nodes));
    }

    /// Ends a read: what to keep as the app's snapshot, and what the agent gets back.
    pub fn finish(
        self,
        id: u64,
        nodes: Vec<AxNode>,
        complete: bool,
        window: Option<WindowInfo>,
        up: Vec<TransientWindow>,
        ax_frame: Option<FrameBits>,
    ) -> (r: (Snapshot, AppState))
        ensures
            self.kept(r.0, id, nodes, complete, window, up@),
            self.told_of(r.1, r.0, ax_frame),
    {
        let tree = render_tree(nodes.as_slice(), self.opts.render);
        let node_count: usize = nodes.len();
        let actionable_count: usize = count_actionable(nodes.as_slice());
        let window_title = match &window {
            Some(w) => match &w.title {
                Some(t) => Some(owned(t.as_str())),
                None => None,
            },
            None => None,
        };
        let window_id = match &window {
            Some(w) => Some(w.id),
            None => None,
        };
        let window_frame = match &window {
            Some(w) => Some(w.frame),
            None => ax_frame,
        };
        let mut kept: Vec<TransientWindow> = Vec::new();
        let mut i: usize = 0;
        while i < up.len()
            invariant
                i <= up@.len(),
                kept@ == up@.take(i as int),
            decreases up@.len() - i,
        {
            kept.push(up[i]);
            i += 1;
        }
        assert(up@.take(up@.len() as int) == up@);
        let snapshot = Snapshot {
            id,
            nodes,
            window,
            process_key: self.key,
            scoped: self.opts.scope.is_some(),
            limits: self.opts.limits,
            complete,
            acted_on: false,
            popups: kept,
        };
        let state = AppState {
            app: self.info,
            snapshot_id: id,
            tree,
            node_count,
            actionable_count,
            window_title,
            window_id,
            window_frame,
            popups: up,
            warnings: self.warnings,
        };
        (snapshot, state)
    }
}

/// Ends a read in a store: the snapshot gets a fresh id and takes the place of the one before.
pub fn record(
    store: &mut Store,
    reading: Reading,
    nodes: Vec<AxNode>,
    complete: bool,
    window: Option<WindowInfo>,
    up: Vec<TransientWindow>,
    ax_frame: Option<FrameBits>,
) -> (r: AppState)
    ensures
        final(store).snapshots@.dom().contains(reading.info.pid),
        ({
            let taken = final(store).snapshots@[reading.info.pid];
            &&& reading.kept(taken, old(store).next_id, nodes, complete, window, up@)
            &&& reading.told_of(r, taken, ax_frame)
            &&& final(store).read_from(*old(store), reading.info.pid, taken)
        }),
        old(store).wf() && old(store).next_id < u64::MAX ==> final(store).wf(),
{
    let pid: i32 = reading.info.pid;
    let id: u64 = store.fresh_id();
    let (snapshot, state) = reading.finish(id, nodes, complete, window, up, ax_frame);
    store.put(pid, snapshot);
    state
}

// -- searching and waiting ---------------------------------------------------------------------

/// Whether a search has to read the app first: there is nothing to search, or an action has run
/// since, and a search of the tree from before it would answer about a window that is no longer
/// there.
pub fn find_needs_read(snapshot: Option<&Snapshot>) -> (r: bool)
    ensures
        r == match snapshot_view(snapshot) {
            Some(s) => s.acted_on,
            None => true,
        },
{
    match snapshot {
        Some(s) => s.acted_on,
        None => true,
    }
}

/// Searches the snapshot of an app.
pub fn find(
    info: &AppInfo,
    snapshot: Option<&Snapshot>,
    needle: &str,
    limit: usize,
) -> (r: Result<FindResult, CoreError>)
    ensures
        match snapshot_view(snapshot) {
            None => r is Err && r->Err_0@ == (CoreErrorText::NoSnapshot { app: info.name@ }),
            Some(s) => {
                &&& r is Ok
                &&& r->Ok_0.snapshot_id == s.id
                &&& texts(r->Ok_0.lines@) == match_lines(s.nodes@, needle@, limit as nat)
                &&& r->Ok_0.total == r->Ok_0.lines@.len()
                &&& r->Ok_0.searched == s.nodes@.len()
            },
        },
{
    match snapshot {
        None => Err(CoreError::NoSnapshot { app: owned(info.name.as_str()) }),
        Some(s) => {
            let lines = match_nodes(s.nodes.as_slice(), needle, limit);
            Ok(
                FindResult {
                    snapshot_id: s.id,
                    total: lines.len(),
                    lines,
                    searched: s.nodes.len(),
                },
            )
        },
    }
}

/// How long to sleep between two polls.
pub const POLL_INTERVAL_MS: u64 = 250;

/// What to do after a poll.
#[derive(Debug, Clone, Copy, PartialEq, Eq, Structural)]
pub enum WaitStep {
    Done(WaitOutcome),
    SleepMs(u64),
}

/// What to do after a poll: end where the text is as wanted, or where the time is up; sleep
/// otherwise.
pub open spec fn step_after(
    tree: Seq<char>,
    needle: Seq<char>,
    want: Presence,
    polls: u32,
    snapshot_id: u64,
    remaining_ms: u64,
    timeout_ms: u64,
) -> WaitStep {
    if has_part(tree, needle) == (want is Appears) {
        WaitStep::Done(
            WaitOutcome {
                satisfied: true,
                polls,
                snapshot_id,
                elapsed_ms: (if remaining_ms <= timeout_ms {
                    timeout_ms - remaining_ms
                } else {
                    0
                }) as u64,
            },
        )
    } else if remaining_ms == 0 {
        WaitStep::Done(
            WaitOutcome { satisfied: false, polls, snapshot_id, elapsed_ms: timeout_ms },
        )
    } else {
        WaitStep::SleepMs(POLL_INTERVAL_MS)
    }
}

/// Judges one poll. `polls` counts it, and `remaining_ms` is what is left until the deadline.
pub fn wait_step(
    tree: &str,
    needle: &str,
    want: Presence,
    polls: u32,
    snapshot_id: u64,
    remaining_ms: u64,
    timeout_ms: u64,
) -> (r: WaitStep)
    ensures
        r == step_after(tree@, needle@, want, polls, snapshot_id, remaining_ms, timeout_ms),
{
    let present = contains(tree, needle);
    if present == want.wants_present() {
        return WaitStep::Done(
            WaitOutcome {
                satisfied: true,
                polls,
                snapshot_id,
                elapsed_ms: elapsed_ms_until(remaining_ms, timeout_ms),
            },
        );
    }
    if remaining_ms == 0 {
        return WaitStep::Done(
            WaitOutcome { satisfied: false, polls, snapshot_id, elapsed_ms: timeout_ms },
        );
    }
    WaitStep::SleepMs(POLL_INTERVAL_MS)
}

// -- settling ----------------------------------------------------------------------------------

/// A text, or none at all in place of a missing one.
pub open spec fn or_empty(s: Option<Seq<char>>) -> Seq<char> {
    match s {
        Some(t) => t,
        None => Seq::empty(),
    }
}

/// The fingerprint of an app's focused window: its title, and the role and title of the focused
/// element. Nothing where the app said nothing: silence is not a state.
pub open spec fn fingerprint(
    window_title: Option<Seq<char>>,
    role: Option<Seq<char>>,
    title: Option<Seq<char>>,
) -> Option<Seq<char>> {
    let text = or_empty(window_title) + "|"@ + or_empty(role) + "|"@ + or_empty(title);
    if text == "||"@ {
        None
    } else {
        Some(text)
    }
}

fn str_or_empty(s: &Option<String>) -> (r: String)
    ensures
        r@ == or_empty(text_of(*s)),
{
    match s {
        Some(t) => owned(t.as_str()),
        None => String::new(),
    }
}

/// Takes the fingerprint of an app's focused window.
pub fn window_fingerprint(
    window_title: &Option<String>,
    role: &Option<String>,
    title: &Option<String>,
) -> (r: Option<String>)
    ensures
        text_of(r) == fingerprint(text_of(*window_title), text_of(*role), text_of(*title)),
{
    let mut out = str_or_empty(window_title);
    out.append("|");
    out.append(str_or_empty(role).as_str());
    out.append("|");
    out.append(str_or_empty(title).as_str());
    if same(out.as_str(), "||") {
        None
    } else {
        Some(out)
    }
}

/// What was known of an app right before an action.
#[derive(Debug, Clone)]
pub struct Watch {
    pub fingerprint: Option<String>,
    /// The pop-ups that were up, where anyone looked.
    pub popups: Option<Vec<u32>>,
}

impl Watch {
    /// What is known before an action, given the fingerprint. The pop-ups are those of the last
    /// read, where there was one.
    pub fn start(fingerprint: Option<String>, snapshot: Option<&Snapshot>) -> (r: Watch)
        ensures
            r.fingerprint == fingerprint,
            match snapshot_view(snapshot) {
                Some(s) => r.popups is Some && r.popups->0@ == ids_of(s.popups@),
                None => r.popups is None,
            },
    {
        let popups = match snapshot {
            Some(s) => Some(id_list(&s.popups)),
            None => None,
        };
        Watch { fingerprint, popups }
    }

    /// Records the pop-ups of a list of windows that the caller already had.
    pub fn with_windows(self, windows: &[WindowInfo], pid: i32) -> (r: Watch)
        ensures
            r.fingerprint == self.fingerprint,
            r.popups is Some,
            r.popups->0@ == popup_id_list(windows@, pid),
    {
        Watch { fingerprint: self.fingerprint, popups: Some(popup_ids(windows, pid)) }
    }
}

/// The ids of a list of pop-ups.
pub open spec fn ids_of(up: Seq<TransientWindow>) -> Seq<u32> {
    up.map_values(|p: TransientWindow| p.id)
}

/// Computes [`ids_of`].
fn id_list(up: &Vec<TransientWindow>) -> (r: Vec<u32>)
    ensures
        r@ == ids_of(up@),
{
    let mut out: Vec<u32> = Vec::new();
    let mut i: usize = 0;
    while i < up.len()
        invariant
            i <= up@.len(),
            out@ == ids_of(up@).take(i as int),
        decreases up@.len() - i,
    {
        out.push(up[i].id);
        i += 1;
    }
    assert(ids_of(up@).take(up@.len() as int) == ids_of(up@));
    out
}

/// What the settling after an action observed.
#[derive(Debug, Clone)]
pub struct Settled {
    pub changed: Observed,
    pub popups: Vec<TransientWindow>,
}

/// How long to wait for an action's effect to become readable, and how often to look.
pub const SETTLE_MS: u64 = 120;

pub const SETTLE_POLL_MS: u64 = 16;

/// Whether settling is over: a readable fingerprint differs from the one before, which nothing can
/// undo, or the time is up.
pub fn has_settled(before: &Watch, after: &Option<String>, elapsed_ms: u64, deadline_ms: u64) -> (r:
    bool)
    ensures
        r == ((after is Some && text_of(*after) != text_of(before.fingerprint)) || elapsed_ms
            >= deadline_ms),
{
    let moved = match after {
        Some(a) => match &before.fingerprint {
            Some(b) => !same(a.as_str(), b.as_str()),
            None => true,
        },
        None => false,
    };
    moved || elapsed_ms >= deadline_ms
}

/// What two fingerprints say. Where either end could not be read, the comparison means nothing.
pub open spec fn fingerprint_verdict(
    before: Option<Seq<char>>,
    after: Option<Seq<char>>,
) -> Observed {
    if before is None || after is None {
        Observed::Unknown
    } else if before->0 == after->0 {
        Observed::Unchanged
    } else {
        Observed::Changed
    }
}

/// How often an id is in a list.
pub open spec fn id_count(ids: Seq<u32>, id: u32) -> nat
    decreases ids.len(),
{
    if ids.len() == 0 {
        0
    } else {
        id_count(ids.drop_last(), id) + if ids.last() == id {
            1nat
        } else {
            0
        }
    }
}

/// Whether two lists hold the same ids, each as often.
pub open spec fn same_ids(a: Seq<u32>, b: Seq<u32>) -> bool {
    forall|id: u32| #[trigger] id_count(a, id) == id_count(b, id)
}

/// What an action is seen to have changed: a pop-up that came or went is a change whatever the
/// fingerprint says.
pub open spec fn observed(
    before: Option<Seq<char>>,
    seen: Option<Seq<u32>>,
    after: Option<Seq<char>>,
    up: Seq<TransientWindow>,
) -> Observed {
    if seen is Some && !same_ids(seen->0, ids_of(up)) {
        Observed::Changed
    } else {
        fingerprint_verdict(before, after)
    }
}

fn count_id(ids: &Vec<u32>, id: u32) -> (r: usize)
    ensures
        r == id_count(ids@, id),
{
    let mut n: usize = 0;
    let mut i: usize = 0;
    assert(ids@.take(0) == Seq::<u32>::empty());
    while i < ids.len()
        invariant
            n <= i <= ids@.len(),
            n == id_count(ids@.take(i as int), id),
        decreases ids@.len() - i,
    {
        assert(ids@.take(i + 1).drop_last() == ids@.take(i as int));
        if ids[i] == id {
            n += 1;
        }
        i += 1;
    }
    assert(ids@.take(ids@.len() as int) == ids@);
    n
}

proof fn lemma_absent_id(ids: Seq<u32>, id: u32)
    requires
        !ids.contains(id),
    ensures
        id_count(ids, id) == 0,
    decreases ids.len(),
{
    if ids.len() > 0 {
        assert(ids[ids.len() - 1] == ids.last());
        assert forall|i: int| 0 <= i < ids.drop_last().len() implies ids.drop_last()[i] != id by {
            assert(ids[i] == ids.drop_last()[i]);
        }
        lemma_absent_id(ids.drop_last(), id);
    }
}

/// Computes [`same_ids`].
pub fn have_same_ids(a: &Vec<u32>, b: &Vec<u32>) -> (r: bool)
    ensures
        r == same_ids(a@, b@),
{
    let mut i: usize = 0;
    while i < a.len()
        invariant
            i <= a@.len(),
            forall|j: int| 0 <= j < i ==> id_count(a@, #[trigger] a@[j]) == id_count(b@, a@[j]),
        decreases a@.len() - i,
    {
        if count_id(a, a[i]) != count_id(b, a[i]) {
            assert(id_count(a@, a@[i as int]) != id_count(b@, a@[i as int]));
            return false;
        }
        i += 1;
    }
    let mut k: usize = 0;
    while k < b.len()
        invariant
            k <= b@.len(),
            forall|j: int| 0 <= j < k ==> id_count(a@, #[trigger] b@[j]) == id_count(b@, b@[j]),
        decreases b@.len() - k,
    {
        if count_id(a, b[k]) != count_id(b, b[k]) {
            assert(id_count(a@, b@[k as int]) != id_count(b@, b@[k as int]));
            return false;
        }
        k += 1;
    }
    assert forall|id: u32| #[trigger] id_count(a@, id) == id_count(b@, id) by {
        if a@.contains(id) {
            let j = choose|j: int| 0 <= j < a@.len() && a@[j] == id;
            assert(id_count(a@, a@[j]) == id_count(b@, a@[j]));
        } else if b@.contains(id) {
            let j = choose|j: int| 0 <= j < b@.len() && b@[j] == id;
            assert(id_count(a@, b@[j]) == id_count(b@, b@[j]));
        } else {
            lemma_absent_id(a@, id);
            lemma_absent_id(b@, id);
        }
    }
    true
}

/// Says what moved, given the last fingerprint and a fresh enumeration of windows.
pub fn settle(before: Watch, after: Option<String>, windows: &[WindowInfo], pid: i32) -> (r: Settled)
    ensures
        r.popups@ == popups(
            windows@,
            pid,
            match before.popups {
                Some(ids) => Some(ids@),
                None => None,
            },
        ),
        r.changed == observed(
            text_of(before.fingerprint),
            match before.popups {
                Some(ids) => Some(ids@),
                None => None,
            },
            text_of(after),
            r.popups@,
        ),
{
    let verdict = match &before.fingerprint {
        Some(a) => match &after {
            Some(b) => if same(a.as_str(), b.as_str()) {
                Observed::Unchanged
            } else {
                Observed::Changed
            },
            None => Observed::Unknown,
        },
        None => Observed::Unknown,
    };
    match &before.popups {
        None => {
            let up = transient_popups(windows, pid, None);
            Settled { changed: verdict, popups: up }
        },
        Some(ids) => {
            let up = transient_popups(windows, pid, Some(ids));
            let now = id_list(&up);
            let changed = if have_same_ids(ids, &now) {
                verdict
            } else {
                Observed::Changed
            };
            Settled { changed, popups: up }
        },
    }
}

// -- laws --------------------------------------------------------------------------------------

/// A forbidden app is never photographed: while the blocklist is heeded, no read of one captures
/// anything, whatever was asked and whatever window it has.
pub proof fn law_a_forbidden_app_is_never_photographed(
    info: AppInfo,
    opts: StateOptions,
    window: Option<WindowInfo>,
)
    requires
        screenshot_notice(info, false) is Some,
    ensures
        capture_of(reading_options(info, opts, false), window) == CapturePlan::Skip,
{
}

/// Only a whole, finished, untouched read of the window is compared with: a snapshot that passes is
/// unscoped, walked under the usual caps to its end, and nothing has run since.
pub proof fn law_a_fair_basis_is_whole_and_current(snapshot: Snapshot, usual: Limits)
    ensures
        basis_objection(snapshot, usual) is None <==> !snapshot.scoped && snapshot.limits == usual
            && snapshot.complete && !snapshot.acted_on,
{
}

/// Two windows that could not be identified are not the same window.
pub proof fn law_unknown_windows_are_never_compared(
    tree: Seq<char>,
    before: Option<u32>,
    after: Option<u32>,
)
    ensures
        comparable(Ok((tree, before)), after) is Ok <==> before is Some && before == after,
{
}

/// An app that cannot be read says nothing either way: without pop-ups to compare, an unreadable end
/// is unknown and never unchanged.
pub proof fn law_silence_is_not_unchanged(
    before: Option<Seq<char>>,
    after: Option<Seq<char>>,
    up: Seq<TransientWindow>,
)
    requires
        before is None || after is None,
    ensures
        observed(before, None, after, up) == Observed::Unknown,
{
}

} // verus!
