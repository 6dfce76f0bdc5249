//! The vocabulary of requests and results.
use vstd::prelude::*;
use crate::safety::policy::{flag, switch_set};
use crate::text::{
    ascii_lower, debug_quoted, join, joined, lowercase, owned, quoted, same, slice_of, text_of,
    texts, to_ascii_lower, trim, trimmed,
};

pub mod laws;

verus! {

/// Whether a switch is on, given its value where it is set at all: `1`, or `true` in any case.
pub fn flag_is_on(value: Option<&str>) -> (r: bool)
    ensures
        r == switch_set(value),
{
    flag(value)
}

// -- what was observed -------------------------------------------------------------------------

/// What was observed after an action, in three values rather than two.
#[derive(Debug, Clone, Copy, PartialEq, Eq, Structural)]
pub enum Observed {
    /// Something in the app's UI moved.
    Changed,
    /// What could be read was identical. That is still no proof of failure.
    Unchanged,
    /// There was nothing to compare. Says nothing either way.
    Unknown,
}

impl Observed {
    pub open spec fn label(self) -> Seq<char> {
        match self {
            Observed::Changed => "yes"@,
            Observed::Unchanged => "no"@,
            Observed::Unknown => "unknown"@,
        }
    }

    pub fn as_str(self) -> (r: &'static str)
        ensures
            r@ == self.label(),
    {
        match self {
            Observed::Changed => "yes",
            Observed::Unchanged => "no",
            Observed::Unknown => "unknown",
        }
    }
}

/// How an action reached the app.
#[derive(Debug, Clone, Copy, PartialEq, Eq, Structural)]
pub enum Delivery {
    /// Addressed to a specific element.
    Ax,
    /// Routed to one process's window, at an element.
    Pid,
    /// Routed to a point that the caller chose. The event reached that pixel; nothing verified that
    /// anything is there.
    PidNoElement,
    /// Keys routed to the process. They land wherever its own first responder is.
    PidKey,
}

impl Delivery {
    pub open spec fn label(self) -> Seq<char> {
        match self {
            Delivery::Ax => "ax"@,
            Delivery::Pid => "pid"@,
            Delivery::PidNoElement => "pid (no element)"@,
            Delivery::PidKey => "pid (keyboard)"@,
        }
    }

    pub fn as_str(self) -> (r: &'static str)
        ensures
            r@ == self.label(),
    {
        match self {
            Delivery::Ax => "ax",
            Delivery::Pid => "pid",
            Delivery::PidNoElement => "pid (no element)",
            Delivery::PidKey => "pid (keyboard)",
        }
    }
}

/// How `type_text` gets a string into an element.
#[derive(Debug, Clone, Copy, PartialEq, Eq, Structural)]
pub enum Mechanism {
    /// A single accessibility write.
    Ax,
    /// Real key events, one per character, routed to the process.
    Keystrokes,
}

impl Default for Mechanism {
    fn default() -> (r: Self)
        ensures
            r == Mechanism::Ax,
    {
        Mechanism::Ax
    }
}

/// The mechanism that a text names, up to surrounding space and ASCII case.
pub open spec fn named_mechanism(s: Seq<char>) -> Option<Mechanism> {
    let name = ascii_lower(trimmed(s));
    if name == "ax"@ {
        Some(Mechanism::Ax)
    } else if name == "keystrokes"@ {
        Some(Mechanism::Keystrokes)
    } else {
        None
    }
}

impl Mechanism {
    /// What is said of a text that names no mechanism.
    pub open spec fn unknown_name(name: Seq<char>) -> Seq<char> {
        "mechanism must be \"ax\" (one atomic AXValue write, the default) or \"keystrokes\" \
            (real key events routed to the pid, for terminals and canvases that ignore AXValue), \
            got "@
            + debug_quoted(name)
    }

    /// Parses the wire spelling. An unknown value is an error rather than a silent fall back to the
    /// default: a caller who typed `keystroke` meant keystrokes.
    pub fn parse(s: &str) -> (r: Result<Self, String>)
        ensures
            match r {
                Ok(m) => named_mechanism(s@) == Some(m),
                Err(e) => named_mechanism(s@) is None && e@ == Self::unknown_name(
                    ascii_lower(trimmed(s@)),
                ),
            },
    {
        let name = to_ascii_lower(trim(s).as_str());
        if same(name.as_str(), "ax") {
            return Ok(Mechanism::Ax);
        }
        if same(name.as_str(), "keystrokes") {
            proof {
                reveal_strlit("ax");
                reveal_strlit("keystrokes");
            }
            return Ok(Mechanism::Keystrokes);
        }
        let mut out = owned(
            "mechanism must be \"ax\" (one atomic AXValue write, the default) or \"keystrokes\" \
            (real key events routed to the pid, for terminals and canvases that ignore AXValue), \
            got ",
        );
        out.append(quoted(name.as_str()).as_str());
        Err(out)
    }

    pub open spec fn label(self) -> Seq<char> {
        match self {
            Mechanism::Ax => "ax"@,
            Mechanism::Keystrokes => "keystrokes"@,
        }
    }

    pub fn as_str(self) -> (r: &'static str)
        ensures
            r@ == self.label(),
    {
        match self {
            Mechanism::Ax => "ax",
            Mechanism::Keystrokes => "keystrokes",
        }
    }
}

// -- focus -------------------------------------------------------------------------------------

/// Where a keystroke routed to a process was going to land, as far as accessibility can say.
#[derive(Debug, Clone, Copy, PartialEq, Eq, Structural)]
pub enum FocusState {
    /// The app names the addressed element as focused.
    Verified,
    /// The app published no focused element. No evidence either way.
    Unverified,
    /// The app names a different element of the same process.
    Mismatched,
}

impl FocusState {
    pub open spec fn label(self) -> Seq<char> {
        match self {
            FocusState::Verified => "verified"@,
            FocusState::Unverified => "unverified"@,
            FocusState::Mismatched => "mismatched"@,
        }
    }

    pub fn as_str(self) -> (r: &'static str)
        ensures
            r@ == self.label(),
    {
        match self {
            FocusState::Verified => "verified",
            FocusState::Unverified => "unverified",
            FocusState::Mismatched => "mismatched",
        }
    }
}

/// What a read-back of the focused element says.
pub open spec fn focus_verdict(addressed_is_focused: Option<bool>) -> FocusState {
    match addressed_is_focused {
        Some(true) => FocusState::Verified,
        Some(false) => FocusState::Mismatched,
        None => FocusState::Unverified,
    }
}

/// Classifies a focus check from the read-back alone. `None` means that the app published no
/// focused element at all, which is not the same as a different one.
pub fn classify_focus(addressed_is_focused: Option<bool>) -> (r: FocusState)
    ensures
        r == focus_verdict(addressed_is_focused),
{
    match addressed_is_focused {
        Some(is) => if is {
            FocusState::Verified
        } else {
            FocusState::Mismatched
        },
        None => FocusState::Unverified,
    }
}

/// A [`FocusState`] with what it was derived from.
#[derive(Debug, Clone, PartialEq, Eq)]
pub struct FocusCheck {
    pub state: FocusState,
    /// Whether moving focus onto the addressed element was accepted. Not every element takes it.
    pub focus_write_accepted: bool,
    /// Why it was refused, when it was.
    pub focus_write_error: Option<String>,
    /// What the app reports as focused instead of the addressed element.
    pub focused_instead: Option<String>,
}

/// What a [`FocusCheck`] says.
pub struct FocusCheckText {
    pub state: FocusState,
    pub focus_write_accepted: bool,
    pub focus_write_error: Option<Seq<char>>,
    pub focused_instead: Option<Seq<char>>,
}

impl View for FocusCheck {
    type V = FocusCheckText;

    open spec fn view(&self) -> FocusCheckText {
        FocusCheckText {
            state: self.state,
            focus_write_accepted: self.focus_write_accepted,
            focus_write_error: text_of(self.focus_write_error),
            focused_instead: text_of(self.focused_instead),
        }
    }
}

/// Puts a focus check together, given the outcome of the write and, where the app published a
/// focused element, whether that is the addressed one and how it reads.
pub fn check_focus(
    write: Result<(), String>,
    focused: Option<(bool, String)>,
) -> (r: FocusCheck)
    ensures
        r@ == (FocusCheckText {
            state: focus_verdict(
                match focused {
                    Some((is, _)) => Some(is),
                    None => None,
                },
            ),
            focus_write_accepted: write is Ok,
            focus_write_error: match write {
                Ok(_) => None,
                Err(e) => Some(e@),
            },
            focused_instead: match focused {
                Some((is, name)) => if is {
                    None
                } else {
                    Some(name@)
                },
                None => None,
            },
        }),
{
    let accepted = write.is_ok();
    let error = match write {
        Ok(_) => None,
        Err(e) => Some(e),
    };
    match focused {
        Some((is, name)) => FocusCheck {
            state: classify_focus(Some(is)),
            focus_write_accepted: accepted,
            focus_write_error: error,
            focused_instead: if is {
                None
            } else {
                Some(name)
            },
        },
        None => FocusCheck {
            state: classify_focus(None),
            focus_write_accepted: accepted,
            focus_write_error: error,
            focused_instead: None,
        },
    }
}

/// A text, where it is there and not empty.
pub open spec fn said(text: Option<Seq<char>>) -> Option<Seq<char>> {
    match text {
        Some(t) => if t.len() > 0 {
            Some(t)
        } else {
            None
        },
        None => None,
    }
}

/// How a live element reads: its role, with the first of its title, its description and its
/// placeholder that says anything.
pub open spec fn element_name(
    role: Option<Seq<char>>,
    title: Option<Seq<char>>,
    description: Option<Seq<char>>,
    placeholder: Option<Seq<char>>,
) -> Seq<char> {
    let kind = match role {
        Some(r) => r,
        None => "element"@,
    };
    let label = if said(title) is Some {
        said(title)
    } else if said(description) is Some {
        said(description)
    } else {
        said(placeholder)
    };
    match label {
        Some(l) => kind + " "@ + debug_quoted(l),
        None => kind,
    }
}

fn first_said(list: Vec<Option<String>>) -> (r: Option<String>)
    requires
        list@.len() == 3,
    ensures
        text_of(r) == (if said(text_of(list@[0])) is Some {
            said(text_of(list@[0]))
        } else if said(text_of(list@[1])) is Some {
            said(text_of(list@[1]))
        } else {
            said(text_of(list@[2]))
        }),
{
    let mut i: usize = 0;
    while i < 3
        invariant
            i <= 3,
            list@.len() == 3,
            forall|j: int| 0 <= j < i ==> said(text_of(#[trigger] list@[j])) is None,
        decreases 3 - i,
    {
        if let Some(t) = &list[i] {
            if !t.as_str().is_empty() {
                return Some(owned(t.as_str()));
            }
        }
        i += 1;
    }
    None
}

/// A short name for a live element, by which the one that holds focus is named.
pub fn describe_element(
    role: Option<String>,
    title: Option<String>,
    description: Option<String>,
    placeholder: Option<String>,
) -> (r: String)
    ensures
        r@ == element_name(
            text_of(role),
            text_of(title),
            text_of(description),
            text_of(placeholder),
        ),
{
    let mut out = match role {
        Some(r) => r,
        None => owned("element"),
    };
    let said = vec![title, description, placeholder];
    match first_said(said) {
        Some(label) => {
            out.append(" ");
            out.append(quoted(label.as_str()).as_str());
        },
        None => {},
    }
    out
}

// -- permissions, scrolling, waiting -----------------------------------------------------------

/// The two grants the server needs.
#[derive(Debug, Clone, Copy, PartialEq, Eq, Structural)]
pub struct Permissions {
    pub accessibility: bool,
    pub screen_recording: bool,
}

#[derive(Debug, Clone, Copy, PartialEq, Eq, Structural)]
pub enum ScrollDir {
    Up,
    Down,
    Left,
    Right,
}

impl ScrollDir {
    pub open spec fn page_verb(self) -> Seq<char> {
        match self {
            ScrollDir::Up => "AXScrollUpByPage"@,
            ScrollDir::Down => "AXScrollDownByPage"@,
            ScrollDir::Left => "AXScrollLeftByPage"@,
            ScrollDir::Right => "AXScrollRightByPage"@,
        }
    }

    /// The accessibility action that scrolls this way by a page.
    pub fn verb(self) -> (r: &'static str)
        ensures
            r@ == self.page_verb(),
    {
        match self {
            ScrollDir::Up => "AXScrollUpByPage",
            ScrollDir::Down => "AXScrollDownByPage",
            ScrollDir::Left => "AXScrollLeftByPage",
            ScrollDir::Right => "AXScrollRightByPage",
        }
    }

    /// The vertical and the horizontal wheel delta that move the view this way. Up and left are
    /// positive.
    pub open spec fn delta(self, amount: int) -> (int, int) {
        match self {
            ScrollDir::Up => (amount, 0int),
            ScrollDir::Down => (-amount, 0int),
            ScrollDir::Left => (0int, amount),
            ScrollDir::Right => (0int, -amount),
        }
    }

    /// The `(vertical, horizontal)` wheel delta that moves the view this way by `amount` units.
    pub fn wheel_delta(self, amount: i32) -> (r: (i32, i32))
        requires
            self is Down || self is Right ==> amount > i32::MIN,
        ensures
            r.0 == self.delta(amount as int).0,
            r.1 == self.delta(amount as int).1,
    {
        match self {
            ScrollDir::Up => (amount, 0),
            ScrollDir::Down => (-amount, 0),
            ScrollDir::Left => (0, amount),
            ScrollDir::Right => (0, -amount),
        }
    }

    pub open spec fn label(self) -> Seq<char> {
        match self {
            ScrollDir::Up => "up"@,
            ScrollDir::Down => "down"@,
            ScrollDir::Left => "left"@,
            ScrollDir::Right => "right"@,
        }
    }

    pub fn as_str(self) -> (r: &'static str)
        ensures
            r@ == self.label(),
    {
        match self {
            ScrollDir::Up => "up",
            ScrollDir::Down => "down",
            ScrollDir::Left => "left",
            ScrollDir::Right => "right",
        }
    }

    /// The other way.
    pub open spec fn opposite(self) -> ScrollDir {
        match self {
            ScrollDir::Up => ScrollDir::Down,
            ScrollDir::Down => ScrollDir::Up,
            ScrollDir::Left => ScrollDir::Right,
            ScrollDir::Right => ScrollDir::Left,
        }
    }
}

/// Opposite directions have opposite wheel deltas.
pub proof fn law_opposite_directions_cancel(dir: ScrollDir, amount: int)
    ensures
        dir.opposite().delta(amount).0 == -dir.delta(amount).0,
        dir.opposite().delta(amount).1 == -dir.delta(amount).1,
        dir.opposite().opposite() == dir,
{
}

/// How much to scroll. Pages are what accessibility can express; points are an event or nothing.
#[derive(Debug, Clone, Copy, PartialEq, Eq, Structural)]
pub enum ScrollAmount {
    Pages(u32),
    Points(u32),
}

/// Which mechanism a scroll uses.
#[derive(Debug, Clone, Copy, PartialEq, Eq, Structural)]
pub enum ScrollTier {
    /// The accessibility action of the element.
    Ax,
    /// A wheel event at the element's point.
    Wheel,
}

/// Chooses the scroll tier: accessibility where the caller asked in pages and the element
/// advertises the action, a wheel event otherwise.
pub fn scroll_tier(amount: ScrollAmount, advertises_ax_scroll: bool) -> (r: ScrollTier)
    ensures
        r == if amount is Pages && advertises_ax_scroll {
            ScrollTier::Ax
        } else {
            ScrollTier::Wheel
        },
{
    match amount {
        ScrollAmount::Points(_) => ScrollTier::Wheel,
        ScrollAmount::Pages(_) => if advertises_ax_scroll {
            ScrollTier::Ax
        } else {
            ScrollTier::Wheel
        },
    }
}

/// How often the accessibility action is performed for a number of pages: at least once.
pub fn page_count(pages: u32) -> (r: u32)
    ensures
        r == if pages == 0 {
            1
        } else {
            pages
        },
{
    if pages == 0 {
        1
    } else {
        pages
    }
}

/// Whether the caller is waiting for text to appear or to go away.
#[derive(Debug, Clone, Copy, PartialEq, Eq, Structural)]
pub enum Presence {
    Appears,
    Disappears,
}

impl Presence {
    pub fn wants_present(self) -> (r: bool)
        ensures
            r == (self is Appears),
    {
        match self {
            Presence::Appears => true,
            Presence::Disappears => false,
        }
    }
}

#[derive(Debug, Clone)]
pub struct FindResult {
    pub snapshot_id: u64,
    /// Matching lines, already rendered.
    pub lines: Vec<String>,
    pub total: usize,
    /// How many nodes were scanned, so that no matches can be told apart from an empty tree.
    pub searched: usize,
}

#[derive(Debug, Clone, Copy, PartialEq, Eq, Structural)]
pub struct WaitOutcome {
    pub satisfied: bool,
    pub polls: u32,
    pub snapshot_id: u64,
    pub elapsed_ms: u64,
}

/// How much of a timeout has passed when `remaining_ms` are left until the deadline.
pub fn elapsed_ms_until(remaining_ms: u64, timeout_ms: u64) -> (r: u64)
    ensures
        r == if remaining_ms <= timeout_ms {
            timeout_ms - remaining_ms
        } else {
            0
        },
{
    if remaining_ms <= timeout_ms {
        timeout_ms - remaining_ms
    } else {
        0
    }
}

// -- pointer options ---------------------------------------------------------------------------

/// The modifier keys held during a pointer action.
#[derive(Debug, Clone, Copy, PartialEq, Eq, Structural)]
pub struct Modifiers {
    pub command: bool,
    pub shift: bool,
    pub alternate: bool,
    pub control: bool,
    pub function: bool,
}

impl Modifiers {
    /// No modifier held.
    pub open spec fn none() -> Modifiers {
        Modifiers {
            command: false,
            shift: false,
            alternate: false,
            control: false,
            function: false,
        }
    }

    pub fn empty() -> (r: Self)
        ensures
            r == Self::none(),
    {
        Modifiers {
            command: false,
            shift: false,
            alternate: false,
            control: false,
            function: false,
        }
    }

    pub fn is_empty(&self) -> (r: bool)
        ensures
            r == (*self == Self::none()),
    {
        !self.command && !self.shift && !self.alternate && !self.control && !self.function
    }

    /// The names of the modifiers held, always in the same order.
    pub open spec fn names(self) -> Seq<Seq<char>> {
        (if self.command {
            seq!["cmd"@]
        } else {
            Seq::empty()
        }) + (if self.shift {
            seq!["shift"@]
        } else {
            Seq::empty()
        }) + (if self.alternate {
            seq!["alt"@]
        } else {
            Seq::empty()
        }) + (if self.control {
            seq!["ctrl"@]
        } else {
            Seq::empty()
        }) + (if self.function {
            seq!["fn"@]
        } else {
            Seq::empty()
        })
    }
}

/// Renders a modifier set in the vocabulary it was parsed from.
pub fn describe_modifiers(flags: &Modifiers) -> (r: String)
    ensures
        r@ == joined(flags.names(), "+"@),
{
    let mut parts: Vec<String> = Vec::new();
    let ghost mut all: Seq<Seq<char>> = Seq::empty();
    if flags.command {
        parts.push(owned("cmd"));
        proof {
            all = all.push("cmd"@);
        }
    }
    if flags.shift {
        parts.push(owned("shift"));
        proof {
            all = all.push("shift"@);
        }
    }
    if flags.alternate {
        parts.push(owned("alt"));
        proof {
            all = all.push("alt"@);
        }
    }
    if flags.control {
        parts.push(owned("ctrl"));
        proof {
            all = all.push("ctrl"@);
        }
    }
    if flags.function {
        parts.push(owned("fn"));
        proof {
            all = all.push("fn"@);
        }
    }
    assert(texts(parts@) == all);
    assert(all == flags.names());
    join(&parts, "+")
}

/// The button, the modifier keys and the click count that a pointer action carries.
#[derive(Debug, Clone)]
pub struct MouseOptions {
    /// The name of the button.
    pub button: String,
    pub modifiers: Modifiers,
    /// Ignored by the gestures that have no click count.
    pub count: u8,
}

impl Default for MouseOptions {
    fn default() -> (r: Self)
        ensures
            r.button@ == "left"@,
            r.modifiers == Modifiers::none(),
            r.count == 1,
    {
        MouseOptions { button: owned("left"), modifiers: Modifiers::empty(), count: 1 }
    }
}

impl MouseOptions {
    /// The options for one click, given what the button and the modifiers were parsed to.
    pub fn parse(
        button: Result<String, String>,
        modifiers: Result<Modifiers, String>,
    ) -> (r: Result<Self, String>)
        ensures
            match r {
                Ok(m) => button is Ok && modifiers is Ok && m.button == button->Ok_0 && m.modifiers
                    == modifiers->Ok_0 && m.count == 1,
                Err(e) => (button is Err && e == button->Err_0) || (button is Ok && modifiers is Err
                    && e == modifiers->Err_0),
            },
    {
        match button {
            Ok(name) => match modifiers {
                Ok(held) => Ok(MouseOptions { button: name, modifiers: held, count: 1 }),
                Err(e) => Err(e),
            },
            Err(e) => Err(e),
        }
    }

    /// The same options with a click count.
    pub fn with_count(self, count: u8) -> (r: Self)
        ensures
            r == (MouseOptions { count, ..self }),
    {
        MouseOptions { count, ..self }
    }

    /// How the options read in a result line.
    pub open spec fn wording(self) -> Seq<char> {
        if self.modifiers == Modifiers::none() {
            self.button@
        } else {
            joined(self.modifiers.names(), "+"@) + " "@ + self.button@
        }
    }

    /// How this reads in a result line: `left`, or `cmd+shift right`.
    pub fn describe(&self) -> (r: String)
        ensures
            r@ == self.wording(),
    {
        if self.modifiers.is_empty() {
            return owned(self.button.as_str());
        }
        let mut out = describe_modifiers(&self.modifiers);
        out.append(" ");
        out.append(self.button.as_str());
        out
    }

    /// Whether these are an ordinary single click, which is all that an accessibility action can
    /// stand in for.
    pub open spec fn plain(self) -> bool {
        self.count <= 1 && self.button@ == "left"@ && self.modifiers == Modifiers::none()
    }

    /// Whether these are an ordinary single click.
    pub fn is_plain(&self) -> (r: bool)
        ensures
            r == self.plain(),
    {
        self.count <= 1 && same(self.button.as_str(), "left") && self.modifiers.is_empty()
    }
}

// -- keys --------------------------------------------------------------------------------------

/// The accessibility verb that expresses a key, up to case and surrounding space.
pub open spec fn verb_for_key(key: Seq<char>) -> Option<Seq<char>> {
    let name = lowercase(trimmed(key));
    if name == "return"@ || name == "enter"@ {
        Some("AXConfirm"@)
    } else if name == "escape"@ || name == "esc"@ {
        Some("AXCancel"@)
    } else if name == "up"@ {
        Some("AXIncrement"@)
    } else if name == "down"@ {
        Some("AXDecrement"@)
    } else {
        None
    }
}

/// The accessibility verb that expresses a key, when one exists.
///
/// Accessibility models intents rather than keys. Return and escape map cleanly, the arrows map on
/// steppers, and everything else has no representation at all.
pub fn ax_verb_for_key(key: &str) -> (r: Option<&'static str>)
    ensures
        slice_of(r) == verb_for_key(key@),
{
    let name = trim(key).as_str().to_lowercase();
    let n = name.as_str();
    if same(n, "return") || same(n, "enter") {
        Some("AXConfirm")
    } else if same(n, "escape") || same(n, "esc") {
        Some("AXCancel")
    } else if same(n, "up") {
        Some("AXIncrement")
    } else if same(n, "down") {
        Some("AXDecrement")
    } else {
        None
    }
}

} // verus!
