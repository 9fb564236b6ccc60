//! The console session's decisions: what a key does to the screen state
//! (help, the points list and its selection, mute, what fills the screen)
//! and which outside work it asks for — loading or forgetting a kept point,
//! a step of the search, saving, exporting. The caller performs the work
//! (the search's floating-point side, the files, the sound) and reports
//! back where the counters depend on the outcome.

use vstd::prelude::*;
use vstd::string::StringExecFns;
use crate::text::{decimal_string, decimal_text, join3};
use crate::tui::{Action, VizMode, viz_next};

verus! {

/// The screen state the keys act on.
#[derive(Clone, Copy, Debug, PartialEq, Eq, Structural)]
pub struct Session {
    /// Steps taken from the named point the search started from.
    pub steps: u32,
    pub muted: bool,
    pub show_help: bool,
    pub points_open: bool,
    /// The selected row of the points list.
    pub selected: usize,
    pub viz: VizMode,
}

/// What the caller has to do after a key.
#[derive(Debug)]
pub enum Effect<T> {
    /// Nothing beyond redrawing.
    Nothing,
    Quit,
    /// Load the kept point at this index (the list has closed).
    Load(usize),
    /// This point was removed from the list: write the list back.
    Forgot(T),
    /// The sound was muted (`true`) or unmuted.
    Sound(bool),
    Like,
    Dislike,
    Surprise,
    Undo,
    /// Keep the current point under a new name.
    Save,
    /// Reload the kept points and open the list
    /// ([`Session::points_reloaded`]).
    OpenPoints,
    Details,
    Export,
    /// What fills the screen changed.
    Viz(VizMode),
}

/// The kind of an effect, without what it carries.
#[derive(Clone, Copy, Debug, PartialEq, Eq, Structural)]
pub enum EffectKind {
    Nothing,
    Quit,
    Load,
    Forgot,
    Sound,
    Like,
    Dislike,
    Surprise,
    Undo,
    Save,
    OpenPoints,
    Details,
    Export,
    Viz,
}

impl<T> Effect<T> {
    pub open spec fn kind(&self) -> EffectKind {
        match self {
            Effect::Nothing => EffectKind::Nothing,
            Effect::Quit => EffectKind::Quit,
            Effect::Load(_) => EffectKind::Load,
            Effect::Forgot(_) => EffectKind::Forgot,
            Effect::Sound(_) => EffectKind::Sound,
            Effect::Like => EffectKind::Like,
            Effect::Dislike => EffectKind::Dislike,
            Effect::Surprise => EffectKind::Surprise,
            Effect::Undo => EffectKind::Undo,
            Effect::Save => EffectKind::Save,
            Effect::OpenPoints => EffectKind::OpenPoints,
            Effect::Details => EffectKind::Details,
            Effect::Export => EffectKind::Export,
            Effect::Viz(_) => EffectKind::Viz,
        }
    }
}

/// The last row of a list of `len` (0 for an empty one).
pub open spec fn last_row(len: nat) -> nat {
    if len == 0 {
        0
    } else {
        (len - 1) as nat
    }
}

pub open spec fn min_nat(a: nat, b: nat) -> nat {
    if a <= b {
        a
    } else {
        b
    }
}

/// The session after `action` with `len` kept points, and what it asks for.
pub open spec fn step_spec(s: Session, action: Action, len: nat) -> (Session, EffectKind) {
    let s = if s.show_help && action != Action::Help {
        Session { show_help: false, ..s }
    } else {
        s
    };
    if s.points_open {
        match action {
            Action::Escape | Action::Points => (Session { points_open: false, ..s }, EffectKind::Nothing),
            Action::Up => (
                Session { selected: if s.selected > 0 { (s.selected - 1) as usize } else { 0 }, ..s },
                EffectKind::Nothing,
            ),
            Action::Down => (
                Session { selected: min_nat((s.selected + 1) as nat, last_row(len)) as usize, ..s },
                EffectKind::Nothing,
            ),
            Action::Enter => (
                Session { points_open: false, ..s },
                if s.selected < len {
                    EffectKind::Load
                } else {
                    EffectKind::Nothing
                },
            ),
            Action::Delete => if s.selected < len {
                (
                    Session { selected: min_nat(s.selected as nat, last_row((len - 1) as nat)) as usize, ..s },
                    EffectKind::Forgot,
                )
            } else {
                (s, EffectKind::Nothing)
            },
            Action::Quit => (s, EffectKind::Quit),
            _ => (s, EffectKind::Nothing),
        }
    } else {
        match action {
            Action::Quit => (s, EffectKind::Quit),
            Action::Help => (Session { show_help: !s.show_help, ..s }, EffectKind::Nothing),
            Action::ToggleSound => (Session { muted: !s.muted, ..s }, EffectKind::Sound),
            Action::Like => (s, EffectKind::Like),
            Action::Dislike => (s, EffectKind::Dislike),
            Action::Surprise => (s, EffectKind::Surprise),
            Action::Undo => (s, EffectKind::Undo),
            Action::Save => (s, EffectKind::Save),
            Action::Points => (s, EffectKind::OpenPoints),
            Action::Details => (s, EffectKind::Details),
            Action::Export => (s, EffectKind::Export),
            Action::Picture => (Session { viz: viz_next(s.viz), ..s }, EffectKind::Viz),
            _ => (s, EffectKind::Nothing),
        }
    }
}

/// While the list is open its selection is a row of it (row 0 of an empty
/// one).
pub open spec fn selection_valid(s: Session, len: nat) -> bool {
    s.points_open ==> s.selected <= last_row(len)
}

impl Session {
    /// A fresh session: help shown, sound on, the list closed.
    pub fn new(viz: VizMode) -> (r: Self)
        ensures
            r == (Session {
                steps: 0,
                muted: false,
                show_help: true,
                points_open: false,
                selected: 0,
                viz,
            }),
    {
        Session { steps: 0, muted: false, show_help: true, points_open: false, selected: 0, viz }
    }

    /// Acts on one key. `points` is the list of kept points; a forgotten
    /// one is taken out of it and handed back.
    pub fn on_action<T>(&mut self, action: Action, points: &mut Vec<T>) -> (r: Effect<T>)
        ensures
            (*final(self), r.kind()) == step_spec(*old(self), action, old(points)@.len()),
            r matches Effect::Load(i) ==> i == old(self).selected && i < old(points)@.len(),
            r matches Effect::Sound(m) ==> m == final(self).muted,
            r matches Effect::Viz(v) ==> v == final(self).viz,
            r matches Effect::Forgot(p) ==> p == old(points)@[old(self).selected as int]
                && final(points)@ == old(points)@.remove(old(self).selected as int),
            !(r is Forgot) ==> final(points)@ == old(points)@,
            !old(self).points_open && action == Action::Like ==> r is Like,
            !old(self).points_open && action == Action::Dislike ==> r is Dislike,
            !old(self).points_open && action == Action::Surprise ==> r is Surprise,
            !old(self).points_open && action == Action::Undo ==> r is Undo,
    {
        if self.show_help && action != Action::Help {
            self.show_help = false;
        }
        let len = points.len();
        if self.points_open {
            match action {
                Action::Escape | Action::Points => {
                    self.points_open = false;
                    Effect::Nothing
                },
                Action::Up => {
                    self.selected = if self.selected > 0 { self.selected - 1 } else { 0 };
                    Effect::Nothing
                },
                Action::Down => {
                    let last = if len > 0 { len - 1 } else { 0 };
                    let next = if self.selected < last { self.selected + 1 } else { last };
                    self.selected = next;
                    Effect::Nothing
                },
                Action::Enter => {
                    self.points_open = false;
                    if self.selected < len {
                        Effect::Load(self.selected)
                    } else {
                        Effect::Nothing
                    }
                },
                Action::Delete => {
                    if self.selected < len {
                        let gone = points.remove(self.selected);
                        let left = points.len();
                        let last = if left > 0 { left - 1 } else { 0 };
                        if self.selected > last {
                            self.selected = last;
                        }
                        Effect::Forgot(gone)
                    } else {
                        Effect::Nothing
                    }
                },
                Action::Quit => Effect::Quit,
                _ => Effect::Nothing,
            }
        } else {
            match action {
                Action::Quit => Effect::Quit,
                Action::Help => {
                    self.show_help = !self.show_help;
                    Effect::Nothing
                },
                Action::ToggleSound => {
                    self.muted = !self.muted;
                    Effect::Sound(self.muted)
                },
                Action::Like => Effect::Like,
                Action::Dislike => Effect::Dislike,
                Action::Surprise => Effect::Surprise,
                Action::Undo => Effect::Undo,
                Action::Save => Effect::Save,
                Action::Points => Effect::OpenPoints,
                Action::Details => Effect::Details,
                Action::Export => Effect::Export,
                Action::Picture => {
                    self.viz = self.viz.next();
                    Effect::Viz(self.viz)
                },
                _ => Effect::Nothing,
            }
        }
    }

    /// The kept points were read again (`len` of them): the list opens
    /// with its selection kept inside it.
    pub fn points_reloaded(&mut self, len: usize)
        ensures
            final(self).points_open,
            final(self).selected == min_nat(old(self).selected as nat, last_row(len as nat)),
            final(self).steps == old(self).steps,
            final(self).muted == old(self).muted,
            final(self).show_help == old(self).show_help,
            final(self).viz == old(self).viz,
    {
        let last = if len > 0 { len - 1 } else { 0 };
        if self.selected > last {
            self.selected = last;
        }
        self.points_open = true;
    }

    /// A step of the search started its morph.
    pub fn stepped(&mut self)
        requires
            old(self).steps < u32::MAX,
        ensures
            *final(self) == (Session { steps: (old(self).steps + 1) as u32, ..*old(self) }),
    {
        self.steps = self.steps + 1;
    }

    /// An undo started its morph: it takes back the step it reverts, so the
    /// count goes down by one (never below zero).
    pub fn undone(&mut self)
        ensures
            *final(self) == (Session {
                steps: if old(self).steps > 0 { (old(self).steps - 1) as u32 } else { 0 },
                ..*old(self)
            }),
    {
        self.steps = if self.steps > 0 { self.steps - 1 } else { 0 };
    }

    /// A new named point (a kept one, or the preset a surprise jumped near):
    /// the count starts again.
    pub fn restarted(&mut self)
        ensures
            *final(self) == (Session { steps: 0, ..*old(self) }),
    {
        self.steps = 0;
    }
}

/// Whatever the key, an open list's selection stays one of its rows.
pub proof fn lemma_selection_stays_valid(s: Session, action: Action, len: nat)
    requires
        selection_valid(s, len),
    ensures
        ({
            let (t, e) = step_spec(s, action, len);
            e == EffectKind::Forgot ==> selection_valid(t, (len - 1) as nat)
        }),
        ({
            let (t, e) = step_spec(s, action, len);
            e != EffectKind::Forgot ==> selection_valid(t, len)
        }),
{
}

/// With the points list closed, each key of the search asks for its own
/// step: like for like, dislike for dislike, surprise for surprise, undo for
/// undo; none of them touches the screen state beyond hiding the help.
pub proof fn lemma_search_keys_ask_for_their_own_step(s: Session, len: nat)
    requires
        !s.points_open,
    ensures
        step_spec(s, Action::Like, len).1 == EffectKind::Like,
        step_spec(s, Action::Dislike, len).1 == EffectKind::Dislike,
        step_spec(s, Action::Surprise, len).1 == EffectKind::Surprise,
        step_spec(s, Action::Undo, len).1 == EffectKind::Undo,
        step_spec(s, Action::Save, len).1 == EffectKind::Save,
        step_spec(s, Action::Export, len).1 == EffectKind::Export,
        step_spec(s, Action::Details, len).1 == EffectKind::Details,
        step_spec(s, Action::Points, len).1 == EffectKind::OpenPoints,
        step_spec(s, Action::Quit, len).1 == EffectKind::Quit,
        step_spec(s, Action::Like, len).0 == (Session { show_help: false, ..s }),
        step_spec(s, Action::Dislike, len).0 == (Session { show_help: false, ..s }),
        step_spec(s, Action::Surprise, len).0 == (Session { show_help: false, ..s }),
        step_spec(s, Action::Undo, len).0 == (Session { show_help: false, ..s }),
{
}

/// With the points list open, no key asks for a step of the search.
pub proof fn lemma_open_list_takes_no_step(s: Session, action: Action, len: nat)
    requires
        s.points_open,
    ensures
        step_spec(s, action, len).1 != EffectKind::Like,
        step_spec(s, action, len).1 != EffectKind::Dislike,
        step_spec(s, action, len).1 != EffectKind::Surprise,
        step_spec(s, action, len).1 != EffectKind::Undo,
{
}

/// With the points list open: `Up` moves the selection one row up (staying
/// on the first), `Down` one row down (staying on the last), `Enter` closes
/// the list and loads the selected point when it is a row of the list,
/// `Escape` and the points key close it, and `Delete` forgets the selected
/// point, keeping the selection on a row of what is left. None of these
/// mutes, redraws something else or counts a step.
pub proof fn lemma_open_list_keys(s: Session, len: nat)
    requires
        s.points_open,
        selection_valid(s, len),
        len <= usize::MAX,
    ensures
        step_spec(s, Action::Up, len).0.selected as int == if s.selected == 0 {
            0
        } else {
            s.selected - 1
        },
        len > 0 ==> step_spec(s, Action::Down, len).0.selected as int == if s.selected + 1 < len {
            s.selected + 1
        } else {
            len - 1
        },
        step_spec(s, Action::Up, len).0.points_open,
        step_spec(s, Action::Down, len).0.points_open,
        !step_spec(s, Action::Enter, len).0.points_open,
        step_spec(s, Action::Enter, len).1 == if s.selected < len {
            EffectKind::Load
        } else {
            EffectKind::Nothing
        },
        !step_spec(s, Action::Escape, len).0.points_open,
        !step_spec(s, Action::Points, len).0.points_open,
        step_spec(s, Action::Escape, len).1 == EffectKind::Nothing,
        s.selected < len ==> step_spec(s, Action::Delete, len).1 == EffectKind::Forgot,
        s.selected < len ==> step_spec(s, Action::Delete, len).0.selected as int == if s.selected + 1 < len {
            s.selected as int
        } else if len >= 2 {
            len - 2
        } else {
            0
        },
        forall|a: Action|
            {
                let t = #[trigger] step_spec(s, a, len).0;
                &&& t.muted == s.muted
                &&& t.steps == s.steps
                &&& t.viz == s.viz
            },
{
}

/// Three presses of `v` come back to the same screen.
pub proof fn lemma_picture_key_cycles(s: Session)
    requires
        !s.points_open,
        !s.show_help,
    ensures
        step_spec(step_spec(step_spec(s, Action::Picture, 0).0, Action::Picture, 0).0, Action::Picture, 0).0 == s,
{
    crate::tui::lemma_viz_cycle_and_round_trip(s.viz);
}

/// The title of the playing point: the name it was loaded under, followed,
/// once the search has moved, by how many steps it took from there.
pub fn point_title(base_name: &str, steps: u32) -> (r: String)
    ensures
        r@ == if steps == 0 {
            base_name@
        } else {
            base_name@ + " \u{b7} "@ + decimal_text(steps as nat) + " steps"@
        },
{
    if steps == 0 {
        String::from_str(base_name)
    } else {
        let n = decimal_string(steps as usize);
        let head = join3(base_name, " \u{b7} ", n.as_str());
        head.concat(" steps")
    }
}

} // verus!
