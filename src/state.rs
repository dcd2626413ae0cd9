//! The picker's state and what each key does to it.
//!
//! Work that reaches outside (rescanning, listing, connecting) is not done
//! here: a key that calls for it yields an [`Action`], and whoever performs
//! it hands the outcome back through [`App::update`] or
//! [`App::finish_connect`].
use vstd::prelude::*;
use crate::layout::{
    centered, centered_area, overlay_views, Area, Overlay, Panel, PanelView, INFO_ROWS,
    PROMPT_ROWS, RESULT_ROWS,
};
use crate::listing::{listing, lines_of, name_bytes, parse_listing, NetworkEntry};
use crate::text::{lossy_text, pop_char, push_char};

verus! {

/// A key press, as far as the picker tells keys apart.
#[derive(Clone, Copy, PartialEq, Eq, Structural, Debug)]
pub enum Key {
    Char(char),
    Backspace,
    Enter,
    Esc,
    Up,
    Down,
    Other,
}

/// The overlay that takes the keys, if any.
#[derive(PartialEq, Eq, Debug)]
pub enum Modal {
    /// No overlay: the list takes the keys.
    Browsing,
    /// A password is being typed for the selected network.
    PasswordPrompt { input: String },
    /// What the last connection attempt printed.
    ConnectionResult { text: String },
}

pub enum ModalView {
    Browsing,
    PasswordPrompt(Seq<char>),
    ConnectionResult(Seq<char>),
}

impl View for Modal {
    type V = ModalView;

    open spec fn view(&self) -> ModalView {
        match self {
            Modal::Browsing => ModalView::Browsing,
            Modal::PasswordPrompt { input } => ModalView::PasswordPrompt(input@),
            Modal::ConnectionResult { text } => ModalView::ConnectionResult(text@),
        }
    }
}

/// What a key asks of the world outside the picker.
#[derive(PartialEq, Eq, Debug)]
pub enum Action {
    /// Nothing: draw the next frame.
    Stay,
    /// Leave the picker.
    Quit,
    /// Rescan, list the networks again and hand the listing to `update`.
    Refresh,
    /// Join `ssid` with `password` and hand what was printed to
    /// `finish_connect`.
    Connect { ssid: String, password: String },
}

pub enum ActionView {
    Stay,
    Quit,
    Refresh,
    Connect(Seq<char>, Seq<char>),
}

impl View for Action {
    type V = ActionView;

    open spec fn view(&self) -> ActionView {
        match self {
            Action::Stay => ActionView::Stay,
            Action::Quit => ActionView::Quit,
            Action::Refresh => ActionView::Refresh,
            Action::Connect { ssid, password } => ActionView::Connect(ssid@, password@),
        }
    }
}

/// The picker as a value: the listed lines, the selected index, whether the
/// instructions are shown, and the overlay that takes the keys.
pub struct AppView {
    pub entries: Seq<Seq<u8>>,
    pub cursor: Option<int>,
    pub info: bool,
    pub modal: ModalView,
}

/// A cursor fits a list of `n` entries: nothing is selected exactly when the
/// list is empty, and a selection is an index into it.
pub open spec fn cursor_fits(cursor: Option<int>, n: int) -> bool {
    match cursor {
        None => n == 0,
        Some(i) => 0 <= i < n,
    }
}

/// The cursor kept as close as it can stay to where it was, over a list of
/// `n` entries.
pub open spec fn clamp_cursor(cursor: Option<int>, n: int) -> Option<int> {
    if n <= 0 {
        None
    } else {
        match cursor {
            None => Some(0),
            Some(i) => Some(if i < n { i } else { n - 1 }),
        }
    }
}

impl AppView {
    pub open spec fn wf(self) -> bool {
        cursor_fits(self.cursor, self.entries.len() as int)
    }

    /// The name of the selected network; empty when nothing is selected.
    pub open spec fn selected_name(self) -> Seq<char> {
        match self.cursor {
            Some(i) => if 0 <= i < self.entries.len() {
                lossy_text(name_bytes(self.entries[i]))
            } else {
                seq![]
            },
            None => seq![],
        }
    }

    pub open spec fn with_modal(self, m: ModalView) -> AppView {
        AppView { modal: m, ..self }
    }

    /// The cursor one entry up; it stays on the first.
    pub open spec fn moved_up(self) -> AppView {
        match self.cursor {
            Some(i) => AppView { cursor: Some(if i > 0 { i - 1 } else { i }), ..self },
            None => self,
        }
    }

    /// The cursor one entry down; it stays on the last.
    pub open spec fn moved_down(self) -> AppView {
        match self.cursor {
            Some(i) => AppView {
                cursor: Some(if i + 1 < self.entries.len() { i + 1 } else { i }),
                ..self
            },
            None => self,
        }
    }

    /// A new listing `lines` in place of the old one.
    pub open spec fn relisted(self, lines: Seq<Seq<u8>>) -> AppView {
        AppView {
            entries: lines,
            cursor: clamp_cursor(self.cursor, lines.len() as int),
            ..self
        }
    }

    /// The connection attempt has printed `out`.
    pub open spec fn connected(self, out: Seq<u8>) -> AppView {
        self.with_modal(ModalView::ConnectionResult(lossy_text(out)))
    }
}

/// The picker right after the first listing `out`: the first entry selected,
/// no overlay.
pub open spec fn initial(out: Seq<u8>) -> AppView {
    AppView {
        entries: listing(out),
        cursor: if listing(out).len() == 0 { None } else { Some(0) },
        info: false,
        modal: ModalView::Browsing,
    }
}

/// What `k` does to `v`, and what it asks for. An open password prompt or
/// connection result takes every key; the list takes them only when neither
/// is open.
pub open spec fn step(v: AppView, k: Key) -> (AppView, ActionView) {
    match v.modal {
        ModalView::PasswordPrompt(input) => match k {
            Key::Char(c) => (v.with_modal(ModalView::PasswordPrompt(input.push(c))), ActionView::Stay),
            Key::Backspace => (
                v.with_modal(
                    ModalView::PasswordPrompt(
                        if input.len() > 0 { input.drop_last() } else { input },
                    ),
                ),
                ActionView::Stay,
            ),
            Key::Enter => (v, ActionView::Connect(v.selected_name(), input)),
            Key::Esc => (v.with_modal(ModalView::Browsing), ActionView::Stay),
            _ => (v, ActionView::Stay),
        },
        ModalView::ConnectionResult(_) => match k {
            Key::Enter => (v.with_modal(ModalView::Browsing), ActionView::Stay),
            Key::Esc => (v.with_modal(ModalView::Browsing), ActionView::Stay),
            _ => (v, ActionView::Stay),
        },
        ModalView::Browsing => match k {
            Key::Char(c) => if c == 'q' {
                (v, ActionView::Quit)
            } else if c == 'r' {
                (v, ActionView::Refresh)
            } else if c == 'i' {
                (AppView { info: !v.info, ..v }, ActionView::Stay)
            } else {
                (v, ActionView::Stay)
            },
            Key::Esc => (v, ActionView::Quit),
            Key::Up => (v.moved_up(), ActionView::Stay),
            Key::Down => (v.moved_down(), ActionView::Stay),
            Key::Enter => (v.with_modal(ModalView::PasswordPrompt(seq![])), ActionView::Stay),
            _ => (v, ActionView::Stay),
        },
    }
}

/// The picker after the keys `ks`, one after another, starting from `v`.
pub open spec fn run(v: AppView, ks: Seq<Key>) -> AppView
    decreases ks.len(),
{
    if ks.len() == 0 {
        v
    } else {
        step(run(v, ks.drop_last()), ks.last()).0
    }
}

/// Every key of `ks` types a character.
pub open spec fn all_chars(ks: Seq<Key>) -> bool {
    forall|i: int| 0 <= i < ks.len() ==> #[trigger] ks[i] is Char
}

/// `n` presses of Backspace.
pub open spec fn backspaces(n: nat) -> Seq<Key> {
    Seq::new(n, |i: int| Key::Backspace)
}

/// The selection always fits the list: no key, no new listing and no
/// connection outcome leaves a selected index outside the list, or nothing
/// selected while the list has entries; the first listing starts that way.
pub proof fn lemma_cursor_always_fits(v: AppView, k: Key, out: Seq<u8>)
    requires
        v.wf(),
    ensures
        initial(out).wf(),
        step(v, k).0.wf(),
        v.relisted(listing(out)).wf(),
        v.connected(out).wf(),
{
}

/// A password prompt and a connection result are never open together, and
/// while either is open it takes every key: no key then quits, refreshes,
/// moves the selection or changes the listing or the instructions.
pub proof fn lemma_overlay_takes_keys(v: AppView, k: Key)
    requires
        !(v.modal is Browsing),
    ensures
        !(v.modal is PasswordPrompt && v.modal is ConnectionResult),
        !(step(v, k).0.modal is PasswordPrompt && step(v, k).0.modal is ConnectionResult),
        !(step(v, k).1 is Quit),
        !(step(v, k).1 is Refresh),
        step(v, k).0.entries == v.entries,
        step(v, k).0.cursor == v.cursor,
        step(v, k).0.info == v.info,
{
}

/// Pressing `i` twice on the list shows or hides the instructions as before,
/// and leaves the picker as it was.
pub proof fn lemma_info_toggle_twice(v: AppView)
    requires
        v.modal is Browsing,
    ensures
        step(step(v, Key::Char('i')).0, Key::Char('i')).0 == v,
        step(v, Key::Char('i')).0.info == !v.info,
{
}

proof fn lemma_typing_appends(v: AppView, input: Seq<char>, ks: Seq<Key>)
    -> (typed: Seq<char>)
    requires
        v.modal == ModalView::PasswordPrompt(input),
        all_chars(ks),
    ensures
        run(v, ks) == v.with_modal(ModalView::PasswordPrompt(typed)),
        typed.len() == input.len() + ks.len(),
        typed.take(input.len() as int) == input,
    decreases ks.len(),
{
    if ks.len() == 0 {
        assert(input.take(input.len() as int) =~= input);
        assert(v.with_modal(ModalView::PasswordPrompt(input)) == v);
        input
    } else {
        let init = ks.drop_last();
        assert(all_chars(init)) by {
            assert forall|i: int| 0 <= i < init.len() implies #[trigger] init[i] is Char by {
                assert(init[i] == ks[i]);
            }
        }
        let before = lemma_typing_appends(v, input, init);
        assert(ks[ks.len() - 1] is Char);
        let c = ks.last()->Char_0;
        let typed = before.push(c);
        assert(typed.take(input.len() as int) =~= before.take(input.len() as int));
        typed
    }
}

proof fn lemma_backspaces_erase(v: AppView, input: Seq<char>, n: nat)
    requires
        v.modal == ModalView::PasswordPrompt(input),
        n <= input.len(),
    ensures
        run(v, backspaces(n)) == v.with_modal(
            ModalView::PasswordPrompt(input.take(input.len() - n)),
        ),
    decreases n,
{
    if n == 0 {
        assert(input.take(input.len() as int) =~= input);
        assert(v.with_modal(ModalView::PasswordPrompt(input)) == v);
    } else {
        assert(backspaces(n).drop_last() =~= backspaces((n - 1) as nat));
        lemma_backspaces_erase(v, input, (n - 1) as nat);
        assert(input.take(input.len() - (n - 1)).drop_last() =~= input.take(input.len() - n));
    }
}

/// Typing characters into the password prompt and then pressing Backspace
/// as many times gives back the password that was there before.
pub proof fn lemma_type_then_erase(v: AppView, ks: Seq<Key>)
    requires
        v.modal is PasswordPrompt,
        all_chars(ks),
    ensures
        run(run(v, ks), backspaces(ks.len())) == v,
{
    let input = v.modal->PasswordPrompt_0;
    let typed = lemma_typing_appends(v, input, ks);
    lemma_backspaces_erase(run(v, ks), typed, ks.len());
    assert(v.with_modal(ModalView::PasswordPrompt(input)) == v);
}

/// The panels drawn over the list of `v` on a `width` by `height` frame,
/// bottom first: the instructions when they are shown, then the password
/// prompt or the connection result when one is open.
pub open spec fn overlays_of(v: AppView, width: u16, height: u16) -> Seq<(Area, PanelView)> {
    let info: Seq<(Area, PanelView)> = if v.info {
        seq![(centered_area(width, height, INFO_ROWS), PanelView::Instructions)]
    } else {
        seq![]
    };
    info + match v.modal {
        ModalView::Browsing => seq![],
        ModalView::PasswordPrompt(input) => seq![
            (centered_area(width, height, PROMPT_ROWS), PanelView::Password(input)),
        ],
        ModalView::ConnectionResult(text) => seq![
            (centered_area(width, height, RESULT_ROWS), PanelView::Result(text)),
        ],
    }
}

/// The picker: the listed networks, the selection, the instructions flag and
/// the overlay that takes the keys.
pub struct App {
    entries: Vec<NetworkEntry>,
    cursor: Option<usize>,
    info: bool,
    modal: Modal,
}

impl View for App {
    type V = AppView;

    closed spec fn view(&self) -> AppView {
        AppView {
            entries: lines_of(self.entries@),
            cursor: match self.cursor {
                Some(i) => Some(i as int),
                None => None,
            },
            info: self.info,
            modal: self.modal@,
        }
    }
}

impl App {
    pub open spec fn wf(&self) -> bool {
        self@.wf()
    }

    /// The picker over the first listing `out`.
    pub fn new(out: &[u8]) -> (r: App)
        ensures
            r@ == initial(out@),
            r.wf(),
    {
        let entries = parse_listing(out);
        let cursor = if entries.len() == 0 {
            None
        } else {
            Some(0)
        };
        App { entries, cursor, info: false, modal: Modal::Browsing }
    }

    /// Moves the selection one entry up, staying on the first.
    pub fn up(&mut self)
        requires
            old(self).wf(),
        ensures
            final(self)@ == old(self)@.moved_up(),
            final(self).wf(),
    {
        if let Some(i) = self.cursor {
            if i > 0 {
                self.cursor = Some(i - 1);
            }
        }
    }

    /// Moves the selection one entry down, staying on the last.
    pub fn down(&mut self)
        requires
            old(self).wf(),
        ensures
            final(self)@ == old(self)@.moved_down(),
            final(self).wf(),
    {
        if let Some(i) = self.cursor {
            assert(self@.entries.len() == self.entries@.len());
            assert(i < self.entries.len());
            if i + 1 < self.entries.len() {
                self.cursor = Some(i + 1);
            }
        }
    }

    /// Takes the fresh listing `out` in place of the old one; the selection
    /// stays where it was as far as the new list reaches.
    pub fn update(&mut self, out: &[u8])
        requires
            old(self).wf(),
        ensures
            final(self)@ == old(self)@.relisted(listing(out@)),
            final(self).wf(),
    {
        let entries = parse_listing(out);
        let n = entries.len();
        self.cursor = if n == 0 {
            None
        } else {
            match self.cursor {
                None => Some(0),
                Some(i) => Some(if i < n { i } else { n - 1 }),
            }
        };
        self.entries = entries;
    }

    /// Shows what the connection attempt printed, `out`, in place of the
    /// password prompt.
    pub fn finish_connect(&mut self, out: &[u8])
        requires
            old(self).wf(),
        ensures
            final(self)@ == old(self)@.connected(out@),
            final(self).wf(),
    {
        self.modal = Modal::ConnectionResult { text: crate::text::decode_lossy(out) };
    }

    /// The name of the selected network; empty when nothing is selected.
    pub fn selected_ssid(&self) -> (r: String)
        requires
            self.wf(),
        ensures
            r@ == self@.selected_name(),
    {
        match self.cursor {
            Some(i) => self.entries[i].ssid(),
            None => String::new(),
        }
    }

    /// Handles one key press: changes the picker as `step` says and returns
    /// what it asks for.
    pub fn handle_key(&mut self, key: Key) -> (r: Action)
        requires
            old(self).wf(),
        ensures
            (final(self)@, r@) == step(old(self)@, key),
            final(self).wf(),
    {
        match self.modal {
            Modal::PasswordPrompt { .. } => self.prompt_key(key),
            Modal::ConnectionResult { .. } => {
                match key {
                    Key::Enter | Key::Esc => {
                        self.modal = Modal::Browsing;
                    },
                    _ => {},
                }
                Action::Stay
            },
            Modal::Browsing => self.browse_key(key),
        }
    }

    fn prompt_key(&mut self, key: Key) -> (r: Action)
        requires
            old(self).wf(),
            old(self).modal is PasswordPrompt,
        ensures
            (final(self)@, r@) == step(old(self)@, key),
            final(self).wf(),
    {
        match key {
            Key::Char(c) => {
                if let Modal::PasswordPrompt { input } = &mut self.modal {
                    push_char(input, c);
                }
                Action::Stay
            },
            Key::Backspace => {
                if let Modal::PasswordPrompt { input } = &mut self.modal {
                    pop_char(input);
                }
                Action::Stay
            },
            Key::Enter => {
                let password = match &self.modal {
                    Modal::PasswordPrompt { input } => input.clone(),
                    _ => String::new(),
                };
                Action::Connect { ssid: self.selected_ssid(), password }
            },
            Key::Esc => {
                self.modal = Modal::Browsing;
                Action::Stay
            },
            _ => Action::Stay,
        }
    }

    fn browse_key(&mut self, key: Key) -> (r: Action)
        requires
            old(self).wf(),
            old(self).modal is Browsing,
        ensures
            (final(self)@, r@) == step(old(self)@, key),
            final(self).wf(),
    {
        match key {
            Key::Char(c) => {
                if c == 'q' {
                    Action::Quit
                } else if c == 'r' {
                    Action::Refresh
                } else if c == 'i' {
                    self.info = !self.info;
                    Action::Stay
                } else {
                    Action::Stay
                }
            },
            Key::Esc => Action::Quit,
            Key::Up => {
                self.up();
                Action::Stay
            },
            Key::Down => {
                self.down();
                Action::Stay
            },
            Key::Enter => {
                self.modal = Modal::PasswordPrompt { input: String::new() };
                Action::Stay
            },
            _ => Action::Stay,
        }
    }

    /// The listed networks, in order.
    pub fn entries(&self) -> (r: &[NetworkEntry])
        ensures
            lines_of(r@) == self@.entries,
    {
        self.entries.as_slice()
    }

    /// The index of the selected network, if any.
    pub fn selected(&self) -> (r: Option<usize>)
        ensures
            match r {
                Some(i) => self@.cursor == Some(i as int),
                None => self@.cursor is None,
            },
    {
        self.cursor
    }

    /// Whether the instructions are shown.
    pub fn info_visible(&self) -> (r: bool)
        ensures
            r == self@.info,
    {
        self.info
    }

    /// The overlay that takes the keys.
    pub fn modal(&self) -> (r: &Modal)
        ensures
            r@ == self@.modal,
    {
        &self.modal
    }

    /// The panels to draw over the list on a `width` by `height` frame, in
    /// the order they are drawn.
    pub fn overlays(&self, width: u16, height: u16) -> (r: Vec<Overlay>)
        ensures
            overlay_views(r@) == overlays_of(self@, width, height),
    {
        let mut r: Vec<Overlay> = Vec::new();
        if self.info {
            r.push(Overlay { area: centered(width, height, INFO_ROWS), panel: Panel::Instructions });
        }
        match &self.modal {
            Modal::Browsing => {},
            Modal::PasswordPrompt { input } => {
                r.push(
                    Overlay {
                        area: centered(width, height, PROMPT_ROWS),
                        panel: Panel::Password { input: input.clone() },
                    },
                );
            },
            Modal::ConnectionResult { text } => {
                r.push(
                    Overlay {
                        area: centered(width, height, RESULT_ROWS),
                        panel: Panel::Result { text: text.clone() },
                    },
                );
            },
        }
        assert(overlay_views(r@) =~= overlays_of(self@, width, height));
        r
    }
}

} // verus!
