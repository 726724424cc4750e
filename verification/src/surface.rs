//! The analyze surface's decisions: what a key does to the arrangement and to
//! whatever is open over it, and what the loop around the surface has to do
//! next.
//!
//! The surface owns the arrangement, the modal state (an overlay, a filter
//! being typed, arrange mode, a maximized panel) and the notice in the
//! focused border. Panels, files and the terminal belong to the loop: every
//! key answers with an [`Effect`] naming the one thing the loop must do for
//! the state here to be the whole truth.

use vstd::prelude::*;
use crate::arrange;
use crate::arrange::{apply, apply_spec, Outcome, Toward};
use crate::codec::{encode_spec, renumber};
use crate::keymap::{law_arrows_move_the_divider, lookup, lookup_spec, Command, Context, KeyCode, KeyEvent};
use crate::layout::{
    active_share, choosable_spec, decode_spec, first_rect_of, law_decode_inverts_encode,
    resized_as_asked, Direction, Layout, LeafId, Node, PanelType, Placement, Preset, MAX_SHARE,
    MIN_SHARE, RESIZE_STEP,
};
use crate::overlay::{Catalogue, Confirm, Export, Overlay};
use crate::panels::validation::{home_of, row_of, IssueScope};
use crate::rect::Rect;
use crate::shell::Input;
use crate::text::{chars_of, owned, push_char, push_str, string_of};

verus! {

/// What is open over the grid, as contracts read it.
pub ghost enum OverlayView {
    Help,
    Export { json: bool, path: Seq<char> },
    Confirm { panel: Seq<char>, address: u8 },
    Catalogue { selected: usize },
}

impl View for Overlay {
    type V = OverlayView;

    open spec fn view(&self) -> OverlayView {
        match self {
            Overlay::Help => OverlayView::Help,
            Overlay::Export(e) => OverlayView::Export { json: e.json, path: e.path@ },
            Overlay::Confirm(c) => OverlayView::Confirm { panel: c.panel@, address: c.address },
            Overlay::Catalogue(c) => OverlayView::Catalogue { selected: c.selected },
        }
    }
}

/// The text of an optional string.
pub open spec fn text_of(o: Option<String>) -> Option<Seq<char>> {
    match o {
        Some(s) => Some(s@),
        None => None,
    }
}

/// The one thing the loop must do after a key, beyond redrawing.
#[derive(Debug, PartialEq, Eq)]
pub enum Effect {
    /// Nothing outside the surface's own state.
    Nothing,
    /// The arrangement changed: give every leaf a panel and drop the panels
    /// whose leaves are gone.
    Sync,
    /// This leaf now shows another panel type: its old panel goes, then
    /// every leaf gets a panel.
    Replace(LeafId),
    /// Hand the focused panel this filter, or clear its filter.
    Filter(Option<String>),
    /// The key is the focused panel's own: selection, sort and its border
    /// words.
    Panel(KeyEvent),
    /// Write the report here, as JSON or as text, and `tell` the surface how
    /// that went.
    Export { json: bool, path: String },
    /// Store this encoding as the saved arrangement, and `tell` the surface
    /// how that went.
    SaveLayout(String),
    /// Store this encoding as the arrangement to open with next time, and
    /// end the session.
    Quit(String),
}

pub ghost enum EffectView {
    Nothing,
    Sync,
    Replace(LeafId),
    Filter(Option<Seq<char>>),
    Panel(KeyEvent),
    Export { json: bool, path: Seq<char> },
    SaveLayout(Seq<char>),
    Quit(Seq<char>),
}

impl View for Effect {
    type V = EffectView;

    open spec fn view(&self) -> EffectView {
        match self {
            Effect::Nothing => EffectView::Nothing,
            Effect::Sync => EffectView::Sync,
            Effect::Replace(id) => EffectView::Replace(*id),
            Effect::Filter(q) => EffectView::Filter(text_of(*q)),
            Effect::Panel(key) => EffectView::Panel(*key),
            Effect::Export { json, path } => EffectView::Export { json: *json, path: path@ },
            Effect::SaveLayout(s) => EffectView::SaveLayout(s@),
            Effect::Quit(s) => EffectView::Quit(s@),
        }
    }
}

/// The surface over one report: the arrangement, the panel it was built
/// from, and the modal state over it.
pub struct App {
    /// The report's model name, which the export path is made from.
    pub model_name: String,
    pub layout: Layout,
    /// A panel drawn over the whole pane, if one is.
    pub maximized: Option<LeafId>,
    /// The preset the cycle key moves on from.
    pub preset: Preset,
    /// A refusal or an outcome, shown in the focused panel's border until
    /// the next key.
    pub notice: Option<String>,
    pub overlay: Option<Overlay>,
    /// Whether the reader is arranging rather than reading.
    pub arranging: bool,
    /// The live filter query, while one is being typed.
    pub filtering: Option<String>,
    pub exit: bool,
}

pub ghost struct AppView {
    pub model_name: Seq<char>,
    pub layout: Layout,
    pub maximized: Option<LeafId>,
    pub preset: Preset,
    pub notice: Option<Seq<char>>,
    pub overlay: Option<OverlayView>,
    pub arranging: bool,
    pub filtering: Option<Seq<char>>,
    pub exit: bool,
}

impl View for App {
    type V = AppView;

    open spec fn view(&self) -> AppView {
        AppView {
            model_name: self.model_name@,
            layout: self.layout,
            maximized: self.maximized,
            preset: self.preset,
            notice: text_of(self.notice),
            overlay: match self.overlay {
                Some(o) => Some(o@),
                None => None,
            },
            arranging: self.arranging,
            filtering: text_of(self.filtering),
            exit: self.exit,
        }
    }
}

/// A catalogue pick always names a choosable panel type.
pub open spec fn view_wf(s: AppView) -> bool {
    s.overlay matches Some(OverlayView::Catalogue { selected }) ==> selected
        < choosable_spec().len()
}

impl App {
    pub open spec fn wf(&self) -> bool {
        view_wf(self@)
    }
}

// ---------------------------------------------------------------------------
// What each key means.
// ---------------------------------------------------------------------------

/// The pane the arrangement gets: everything but the footer row.
pub open spec fn pane_spec(area: Rect) -> Rect {
    Rect {
        x: area.x,
        y: area.y,
        width: area.width,
        height: if area.height > 0 {
            (area.height - 1) as u16
        } else {
            0
        },
    }
}

/// The index of the last `.` in a name.
pub open spec fn last_dot(s: Seq<char>) -> Option<int>
    decreases s.len(),
{
    if s.len() == 0 {
        None
    } else if s.last() == '.' {
        Some(s.len() - 1)
    } else {
        last_dot(s.drop_last())
    }
}

/// A file name without its last extension.
pub open spec fn stem_spec(name: Seq<char>) -> Seq<char> {
    match last_dot(name) {
        Some(i) => name.take(i),
        None => name,
    }
}

/// Where an export lands unless the reader says otherwise.
pub open spec fn export_path_spec(model_name: Seq<char>, json: bool) -> Seq<char> {
    if json {
        stem_spec(model_name) + ".json"@
    } else {
        stem_spec(model_name) + "_report.txt"@
    }
}

/// Whether return on the focused panel opens a row rather than maximizing:
/// only validation has rows a reader can open.
pub open spec fn opens_rows(l: Layout) -> bool {
    l.tree().panel_spec(l.focus_spec()) == Some(PanelType::Validation)
}

/// The address a leaf is drawn under, or zero if it is not drawn.
pub open spec fn address_of(s: Seq<Placement>, id: LeafId) -> u8
    decreases s.len(),
{
    if s.len() == 0 {
        0
    } else if s[0].id == id {
        s[0].address
    } else {
        address_of(s.drop_first(), id)
    }
}

/// The first leaf showing a panel type, in tree order.
pub open spec fn first_showing(s: Seq<(LeafId, PanelType)>, kind: PanelType) -> Option<LeafId>
    decreases s.len(),
{
    if s.len() == 0 {
        None
    } else if s[0].1 == kind {
        Some(s[0].0)
    } else {
        first_showing(s.drop_first(), kind)
    }
}

pub open spec fn nothing_behind() -> Seq<char> {
    "nothing to go back to; press q to quit"@
}

/// Escape means back, one layer per press: an overlay, then a filter, then
/// arrange mode, then maximize. With nothing left it says so, and never
/// quits.
pub open spec fn escape_spec(s: AppView) -> (AppView, EffectView) {
    if s.overlay is Some {
        (AppView { overlay: None, ..s }, EffectView::Nothing)
    } else if s.filtering is Some {
        (AppView { filtering: None, ..s }, EffectView::Filter(None))
    } else if s.arranging {
        (AppView { arranging: false, ..s }, EffectView::Nothing)
    } else if s.maximized is Some {
        (AppView { maximized: None, ..s }, EffectView::Nothing)
    } else {
        (AppView { notice: Some(nothing_behind()), ..s }, EffectView::Nothing)
    }
}

/// The keys that work whatever panel has focus.
pub open spec fn global_spec(s: AppView, command: Command, area: Rect) -> (AppView, EffectView) {
    match command {
        Command::Quit => (AppView { exit: true, ..s }, EffectView::Quit(encode_spec(s.layout.tree()))),
        Command::FocusAddress(address) => (
            AppView { layout: s.layout.focused_on_address(pane_spec(area), address), ..s },
            EffectView::Nothing,
        ),
        Command::CyclePreset => (
            AppView {
                preset: s.preset.next_spec(),
                layout: s.preset.next_spec().layout_spec(),
                maximized: None,
                ..s
            },
            EffectView::Sync,
        ),
        Command::EnterArrange => (AppView { arranging: true, ..s }, EffectView::Nothing),
        Command::SaveLayout => (s, EffectView::SaveLayout(encode_spec(s.layout.tree()))),
        Command::Help => (AppView { overlay: Some(OverlayView::Help), ..s }, EffectView::Nothing),
        _ => (s, EffectView::Nothing),
    }
}

/// The keys the focused-panel context claims before the panel sees them, or
/// `None` when the panel should have the key.
pub open spec fn focused_spec(s: AppView, command: Command) -> Option<(AppView, EffectView)> {
    match command {
        Command::Open => if !opens_rows(s.layout) {
            Some((AppView { maximized: Some(s.layout.focus_spec()), ..s }, EffectView::Nothing))
        } else {
            None
        },
        Command::Filter => Some((AppView { filtering: Some(Seq::empty()), ..s }, EffectView::Nothing)),
        Command::Export => Some(
            (
                AppView {
                    overlay: Some(
                        OverlayView::Export {
                            json: false,
                            path: export_path_spec(s.model_name, false),
                        },
                    ),
                    ..s
                },
                EffectView::Nothing,
            ),
        ),
        _ => None,
    }
}

/// An arrange command run against the pane: a changed arrangement, or the
/// refusal in the focused border.
pub open spec fn arranged(s: AppView, command: arrange::Command, area: Rect) -> (
    AppView,
    EffectView,
) {
    match apply_spec(s.layout, pane_spec(area), command) {
        Outcome::Changed(l) => (AppView { layout: l, ..s }, EffectView::Sync),
        Outcome::Refused(r) => (AppView { notice: Some(r.message_spec()), ..s }, EffectView::Nothing),
    }
}

/// The confirmation before closing a panel that holds something unsaved.
pub open spec fn confirm_spec(s: AppView, area: Rect) -> AppView {
    let focus = s.layout.focus_spec();
    AppView {
        overlay: Some(
            OverlayView::Confirm {
                panel: match s.layout.tree().panel_spec(focus) {
                    Some(p) => p.name_spec(),
                    None => "this panel"@,
                },
                address: address_of(s.layout.solve_spec(pane_spec(area), None), focus),
            },
        ),
        ..s
    }
}

/// What a key does in arrange mode.
pub open spec fn arrange_key_spec(s: AppView, key: KeyEvent, area: Rect) -> (AppView, EffectView) {
    match lookup_spec(Context::Arrange, key) {
        None => (s, EffectView::Nothing),
        Some(command) => match command {
            Command::LeaveArrange => (AppView { arranging: false, ..s }, EffectView::Nothing),
            Command::ArrangeLeft => arranged(s, arrange::Command::Focus(Toward::Left), area),
            Command::ArrangeDown => arranged(s, arrange::Command::Focus(Toward::Down), area),
            Command::ArrangeUp => arranged(s, arrange::Command::Focus(Toward::Up), area),
            Command::ArrangeRight => arranged(s, arrange::Command::Focus(Toward::Right), area),
            Command::SplitHorizontal => arranged(
                s,
                arrange::Command::Split(Direction::Horizontal),
                area,
            ),
            Command::SplitVertical => arranged(s, arrange::Command::Split(Direction::Vertical), area),
            Command::GrowDivider => arranged(s, arrange::Command::Grow, area),
            Command::ShrinkDivider => arranged(s, arrange::Command::Shrink, area),
            Command::Balance => arranged(s, arrange::Command::Balance, area),
            Command::Close => if s.filtering is Some {
                (confirm_spec(s, area), EffectView::Nothing)
            } else {
                arranged(s, arrange::Command::Close, area)
            },
            Command::Add => (
                AppView { overlay: Some(OverlayView::Catalogue { selected: 0 }), ..s },
                EffectView::Nothing,
            ),
            _ => (s, EffectView::Nothing),
        },
    }
}

/// A string with its last character removed, if it has one.
pub open spec fn popped(q: Seq<char>) -> Seq<char> {
    if q.len() > 0 {
        q.drop_last()
    } else {
        q
    }
}

/// What a key does to the export dialog.
pub open spec fn export_key_spec(s: AppView, json: bool, path: Seq<char>, key: KeyEvent) -> (
    AppView,
    EffectView,
) {
    match key.code {
        KeyCode::Right | KeyCode::Left | KeyCode::Tab => (
            AppView {
                overlay: Some(
                    OverlayView::Export { json: !json, path: export_path_spec(s.model_name, !json) },
                ),
                ..s
            },
            EffectView::Nothing,
        ),
        KeyCode::Char(c) => (
            AppView { overlay: Some(OverlayView::Export { json, path: path.push(c) }), ..s },
            EffectView::Nothing,
        ),
        KeyCode::Backspace => (
            AppView { overlay: Some(OverlayView::Export { json, path: popped(path) }), ..s },
            EffectView::Nothing,
        ),
        KeyCode::Enter => (AppView { overlay: None, ..s }, EffectView::Export { json, path }),
        _ => (s, EffectView::Nothing),
    }
}

/// What a key does to the panel pick.
pub open spec fn catalogue_key_spec(s: AppView, selected: usize, key: KeyEvent) -> (
    AppView,
    EffectView,
) {
    let count = choosable_spec().len();
    match key.code {
        KeyCode::Up | KeyCode::Char('k') | KeyCode::Char('K') => (
            AppView {
                overlay: Some(
                    OverlayView::Catalogue { selected: ((selected + count - 1) % count as int) as usize },
                ),
                ..s
            },
            EffectView::Nothing,
        ),
        KeyCode::Down | KeyCode::Char('j') | KeyCode::Char('J') => (
            AppView {
                overlay: Some(
                    OverlayView::Catalogue { selected: ((selected + 1) % count as int) as usize },
                ),
                ..s
            },
            EffectView::Nothing,
        ),
        KeyCode::Enter => (
            AppView {
                overlay: None,
                layout: s.layout.assigned(choosable_spec()[selected as int]),
                ..s
            },
            EffectView::Replace(s.layout.focus_spec()),
        ),
        _ => (s, EffectView::Nothing),
    }
}

/// What a key does while an overlay is open: the overlay takes the whole
/// keyboard.
pub open spec fn overlay_key_spec(s: AppView, key: KeyEvent, area: Rect) -> (AppView, EffectView) {
    match s.overlay {
        Some(OverlayView::Help) => (AppView { overlay: None, ..s }, EffectView::Nothing),
        Some(OverlayView::Export { json, path }) => export_key_spec(s, json, path, key),
        Some(OverlayView::Confirm { .. }) => if key.code == KeyCode::Enter {
            let closed = AppView { overlay: None, filtering: None, ..s };
            match apply_spec(s.layout, pane_spec(area), arrange::Command::Close) {
                Outcome::Changed(l) => (AppView { layout: l, ..closed }, EffectView::Sync),
                Outcome::Refused(_) => (closed, EffectView::Nothing),
            }
        } else {
            (s, EffectView::Nothing)
        },
        Some(OverlayView::Catalogue { selected }) => catalogue_key_spec(s, selected, key),
        None => (s, EffectView::Nothing),
    }
}

/// What a key does while a filter is being typed: the query takes the whole
/// keyboard, and return commits it.
pub open spec fn filter_key_spec(s: AppView, key: KeyEvent) -> (AppView, EffectView) {
    let q = s.filtering.unwrap();
    match key.code {
        KeyCode::Char(c) => (
            AppView { filtering: Some(q.push(c)), ..s },
            EffectView::Filter(Some(q.push(c))),
        ),
        KeyCode::Backspace => (
            AppView { filtering: Some(popped(q)), ..s },
            EffectView::Filter(Some(popped(q))),
        ),
        KeyCode::Enter => (AppView { filtering: None, ..s }, EffectView::Filter(Some(q))),
        _ => (s, EffectView::Nothing),
    }
}

/// What a key does in the reading state: a global key, then a key the
/// focused context claims, then the panel's own.
pub open spec fn reading_key_spec(s: AppView, key: KeyEvent, area: Rect) -> (AppView, EffectView) {
    match lookup_spec(Context::Global, key) {
        Some(command) => global_spec(s, command, area),
        None => match lookup_spec(Context::Focused, key) {
            Some(command) => match focused_spec(s, command) {
                Some(r) => r,
                None => (s, EffectView::Panel(key)),
            },
            None => (s, EffectView::Panel(key)),
        },
    }
}

/// The direction an arrange key splits in, if it is a split key.
pub open spec fn split_of(key: KeyEvent) -> Option<Direction> {
    match lookup_spec(Context::Arrange, key) {
        Some(Command::SplitHorizontal) => Some(Direction::Horizontal),
        Some(Command::SplitVertical) => Some(Direction::Vertical),
        _ => None,
    }
}

/// Whether an input splits the focused panel: a split key in arrange mode,
/// with nothing open over it, where the panel has room to split.
pub open spec fn would_split(s: AppView, input: Input, area: Rect) -> bool {
    match input {
        Input::Key(k) => match split_of(k) {
            Some(dir) => k.code != KeyCode::Esc && s.overlay is None && s.filtering is None
                && s.arranging && !s.layout.split_refused(pane_spec(area), dir),
            None => false,
        },
        _ => false,
    }
}

/// The surface's answer to one input. Only keys do anything; a key first
/// clears the notice, then escape is answered before anything else, then
/// whatever is open takes the key: an overlay, a filter, arrange mode.
pub open spec fn handle_spec(s: AppView, input: Input, area: Rect) -> (AppView, EffectView) {
    match input {
        Input::Key(key) => {
            let s = AppView { notice: None, ..s };
            if key.code == KeyCode::Esc {
                escape_spec(s)
            } else if s.overlay is Some {
                overlay_key_spec(s, key, area)
            } else if s.filtering is Some {
                filter_key_spec(s, key)
            } else if s.arranging {
                arrange_key_spec(s, key, area)
            } else {
                reading_key_spec(s, key, area)
            }
        },
        _ => (s, EffectView::Nothing),
    }
}

// ---------------------------------------------------------------------------
// The surface.
// ---------------------------------------------------------------------------

/// The pane the arrangement gets, which is everything but the footer.
pub fn pane(area: Rect) -> (r: Rect)
    requires
        area.wf(),
    ensures
        r == pane_spec(area),
        r.wf(),
{
    Rect { x: area.x, y: area.y, width: area.width, height: area.height.saturating_sub(1) }
}

/// Where an export lands unless the reader says otherwise: the model's name
/// without its extension, as `.json` or as `_report.txt`.
pub fn default_export_path(model_name: &str, json: bool) -> (r: String)
    ensures
        r@ == export_path_spec(model_name@, json),
{
    let chars = chars_of(model_name);
    let mut end: usize = chars.len();
    let mut found = false;
    assert(chars@.take(chars@.len() as int) =~= chars@);
    while end > 0 && !found
        invariant
            chars@ == model_name@,
            end <= chars.len(),
            found ==> end < chars.len() && last_dot(chars@) == Some(end as int),
            !found ==> last_dot(chars@) == last_dot(chars@.take(end as int)),
        decreases end + (if found { 0int } else { 1int }),
    {
        assert(chars@.take(end as int).drop_last() =~= chars@.take(end - 1));
        if chars[end - 1] == '.' {
            end = end - 1;
            found = true;
        } else {
            end = end - 1;
        }
    }
    proof {
        if !found {
            assert(chars@.take(0) =~= Seq::<char>::empty());
        }
    }
    let mut stem: Vec<char> = Vec::new();
    let stop = if found {
        end
    } else {
        chars.len()
    };
    let mut i: usize = 0;
    while i < stop
        invariant
            stop <= chars.len(),
            i <= stop,
            stem@ == chars@.take(i as int),
        decreases stop - i,
    {
        stem.push(chars[i]);
        i = i + 1;
        assert(stem@ =~= chars@.take(i as int));
    }
    proof {
        assert(chars@.take(chars@.len() as int) =~= chars@);
    }
    let mut r = string_of(&stem);
    if json {
        push_str(&mut r, ".json");
    } else {
        push_str(&mut r, "_report.txt");
    }
    r
}

/// A string with its last character removed, if it has one.
fn without_last(q: &String) -> (r: String)
    ensures
        r@ == popped(q@),
{
    let chars = chars_of(q.as_str());
    let keep = if chars.len() > 0 {
        chars.len() - 1
    } else {
        0
    };
    let mut kept: Vec<char> = Vec::new();
    let mut i: usize = 0;
    while i < keep
        invariant
            keep <= chars.len(),
            i <= keep,
            kept@ == chars@.take(i as int),
        decreases keep - i,
    {
        kept.push(chars[i]);
        i = i + 1;
        assert(kept@ =~= chars@.take(i as int));
    }
    proof {
        assert(chars@.take(chars@.len() as int) =~= chars@);
    }
    string_of(&kept)
}

/// The first leaf showing a panel type, in tree order.
fn find_showing(leaves: &Vec<(LeafId, PanelType)>, kind: PanelType) -> (r: Option<LeafId>)
    ensures
        r == first_showing(leaves@, kind),
{
    let mut i: usize = 0;
    assert(leaves@.skip(0) =~= leaves@);
    while i < leaves.len()
        invariant
            i <= leaves.len(),
            first_showing(leaves@, kind) == first_showing(leaves@.skip(i as int), kind),
        decreases leaves.len() - i,
    {
        assert(leaves@.skip(i as int)[0] == leaves@[i as int]);
        if leaves[i].1 == kind {
            return Some(leaves[i].0);
        }
        assert(leaves@.skip(i as int).drop_first() =~= leaves@.skip(i + 1));
        i = i + 1;
    }
    None
}

/// The address a leaf is drawn under, or zero.
fn find_address(placements: &Vec<Placement>, id: LeafId) -> (r: u8)
    ensures
        r == address_of(placements@, id),
{
    let mut i: usize = 0;
    assert(placements@.skip(0) =~= placements@);
    while i < placements.len()
        invariant
            i <= placements.len(),
            address_of(placements@, id) == address_of(placements@.skip(i as int), id),
        decreases placements.len() - i,
    {
        assert(placements@.skip(i as int)[0] == placements@[i as int]);
        if placements[i].id == id {
            return placements[i].address;
        }
        assert(placements@.skip(i as int).drop_first() =~= placements@.skip(i + 1));
        i = i + 1;
    }
    0
}

/// The names the panel pick offers, in catalogue order.
pub fn catalogue_names() -> (r: Vec<&'static str>)
    ensures
        r@.len() == choosable_spec().len(),
        forall|i: int| 0 <= i < r@.len() ==> #[trigger] r@[i]@ == choosable_spec()[i].name_spec(),
{
    let kinds = PanelType::choosable();
    let mut names: Vec<&'static str> = Vec::new();
    let mut i: usize = 0;
    while i < kinds.len()
        invariant
            kinds@ == choosable_spec(),
            i <= kinds.len(),
            names@.len() == i,
            forall|j: int| 0 <= j < i ==> #[trigger] names@[j]@ == choosable_spec()[j].name_spec(),
        decreases kinds.len() - i,
    {
        names.push(kinds[i].name());
        i = i + 1;
    }
    names
}

impl App {
    /// The surface over a report with this model name, opening on an
    /// arrangement, with nothing open over it.
    pub fn new(model_name: String, layout: Layout) -> (r: App)
        ensures
            r@ == (AppView {
                model_name: model_name@,
                layout,
                maximized: None,
                preset: Preset::Survey,
                notice: None,
                overlay: None,
                arranging: false,
                filtering: None,
                exit: false,
            }),
            r.wf(),
    {
        App {
            model_name,
            layout,
            maximized: None,
            preset: Preset::Survey,
            notice: None,
            overlay: None,
            arranging: false,
            filtering: None,
            exit: false,
        }
    }

    /// Say something in the focused border until the next key.
    pub fn tell(&mut self, message: String)
        ensures
            final(self)@ == (AppView { notice: Some(message@), ..old(self)@ }),
    {
        self.notice = Some(message);
    }

    fn escape(&mut self) -> (r: Effect)
        ensures
            (final(self)@, r@) == escape_spec(old(self)@),
    {
        if self.overlay.is_some() {
            self.overlay = None;
            return Effect::Nothing;
        }
        if self.filtering.is_some() {
            self.filtering = None;
            return Effect::Filter(None);
        }
        if self.arranging {
            self.arranging = false;
            return Effect::Nothing;
        }
        if self.maximized.is_some() {
            self.maximized = None;
            return Effect::Nothing;
        }
        self.notice = Some(owned("nothing to go back to; press q to quit"));
        Effect::Nothing
    }

    fn global(&mut self, command: Command, area: Rect) -> (r: Effect)
        requires
            area.wf(),
        ensures
            (final(self)@, r@) == global_spec(old(self)@, command, area),
    {
        match command {
            Command::Quit => {
                self.exit = true;
                Effect::Quit(self.layout.encode())
            },
            Command::FocusAddress(address) => {
                self.layout = self.layout.with_focus_on_address(pane(area), address);
                Effect::Nothing
            },
            Command::CyclePreset => {
                self.preset = self.preset.next();
                self.layout = self.preset.layout();
                self.maximized = None;
                Effect::Sync
            },
            Command::EnterArrange => {
                self.arranging = true;
                Effect::Nothing
            },
            Command::SaveLayout => Effect::SaveLayout(self.layout.encode()),
            Command::Help => {
                self.overlay = Some(Overlay::Help);
                Effect::Nothing
            },
            _ => Effect::Nothing,
        }
    }

    fn opens_rows(&self) -> (r: bool)
        ensures
            r == opens_rows(self.layout),
    {
        match self.layout.panel_of(self.layout.focus()) {
            Some(PanelType::Validation) => true,
            _ => false,
        }
    }

    fn focused(&mut self, command: Command) -> (r: Option<Effect>)
        ensures
            match focused_spec(old(self)@, command) {
                Some(t) => r is Some && (final(self)@, r.unwrap()@) == t,
                None => r is None && final(self)@ == old(self)@,
            },
    {
        match command {
            Command::Open => {
                if self.opens_rows() {
                    return None;
                }
                self.maximized = Some(self.layout.focus());
                Some(Effect::Nothing)
            },
            Command::Filter => {
                self.filtering = Some(String::new());
                Some(Effect::Nothing)
            },
            Command::Export => {
                let path = default_export_path(self.model_name.as_str(), false);
                self.overlay = Some(Overlay::Export(Export { json: false, path }));
                Some(Effect::Nothing)
            },
            _ => None,
        }
    }

    fn arranged(&mut self, command: arrange::Command, area: Rect) -> (r: Effect)
        requires
            area.wf(),
            command matches arrange::Command::Split(dir) ==> (!old(self).layout.split_refused(
                pane_spec(area),
                dir,
            ) ==> old(self).layout.next_id_spec() < u32::MAX),
        ensures
            (final(self)@, r@) == arranged(old(self)@, command, area),
    {
        match apply(&self.layout, pane(area), command) {
            Outcome::Changed(layout) => {
                self.layout = layout;
                Effect::Sync
            },
            Outcome::Refused(refusal) => {
                self.notice = Some(refusal.message());
                Effect::Nothing
            },
        }
    }

    fn confirm_close(&mut self, area: Rect)
        requires
            area.wf(),
        ensures
            final(self)@ == confirm_spec(old(self)@, area),
    {
        let focus = self.layout.focus();
        let panel = match self.layout.panel_of(focus) {
            Some(p) => owned(p.name()),
            None => owned("this panel"),
        };
        let placements = self.layout.solve(pane(area), None);
        let address = find_address(&placements, focus);
        self.overlay = Some(Overlay::Confirm(Confirm { panel, address }));
    }

    fn arrange_key(&mut self, key: KeyEvent, area: Rect) -> (r: Effect)
        requires
            area.wf(),
            split_of(key) matches Some(dir) ==> (!old(self).layout.split_refused(pane_spec(area), dir)
                ==> old(self).layout.next_id_spec() < u32::MAX),
        ensures
            (final(self)@, r@) == arrange_key_spec(old(self)@, key, area),
    {
        let command = match lookup(Context::Arrange, key) {
            Some(c) => c,
            None => {
                return Effect::Nothing;
            },
        };
        match command {
            Command::LeaveArrange => {
                self.arranging = false;
                Effect::Nothing
            },
            Command::ArrangeLeft => self.arranged(arrange::Command::Focus(Toward::Left), area),
            Command::ArrangeDown => self.arranged(arrange::Command::Focus(Toward::Down), area),
            Command::ArrangeUp => self.arranged(arrange::Command::Focus(Toward::Up), area),
            Command::ArrangeRight => self.arranged(arrange::Command::Focus(Toward::Right), area),
            Command::SplitHorizontal => self.arranged(
                arrange::Command::Split(Direction::Horizontal),
                area,
            ),
            Command::SplitVertical => self.arranged(
                arrange::Command::Split(Direction::Vertical),
                area,
            ),
            Command::GrowDivider => self.arranged(arrange::Command::Grow, area),
            Command::ShrinkDivider => self.arranged(arrange::Command::Shrink, area),
            Command::Balance => self.arranged(arrange::Command::Balance, area),
            Command::Close => {
                // The one destructive thing in a read-only report, and the
                // only thing that asks first.
                if self.filtering.is_some() {
                    self.confirm_close(area);
                    return Effect::Nothing;
                }
                self.arranged(arrange::Command::Close, area)
            },
            Command::Add => {
                self.overlay = Some(Overlay::Catalogue(Catalogue { selected: 0 }));
                Effect::Nothing
            },
            _ => Effect::Nothing,
        }
    }

    fn export_key(&mut self, export: Export, key: KeyEvent) -> (r: Effect)
        requires
            old(self).overlay is None,
        ensures
            (final(self)@, r@) == export_key_spec(
                AppView { overlay: Some(Overlay::Export(export)@), ..old(self)@ },
                export.json,
                export.path@,
                key,
            ),
    {
        let mut export = export;
        match key.code {
            KeyCode::Right | KeyCode::Left | KeyCode::Tab => {
                export.json = !export.json;
                export.path = default_export_path(self.model_name.as_str(), export.json);
                self.overlay = Some(Overlay::Export(export));
                Effect::Nothing
            },
            KeyCode::Char(c) => {
                push_char(&mut export.path, c);
                self.overlay = Some(Overlay::Export(export));
                Effect::Nothing
            },
            KeyCode::Backspace => {
                export.path = without_last(&export.path);
                self.overlay = Some(Overlay::Export(export));
                Effect::Nothing
            },
            KeyCode::Enter => Effect::Export { json: export.json, path: export.path },
            _ => {
                self.overlay = Some(Overlay::Export(export));
                Effect::Nothing
            },
        }
    }

    fn catalogue_key(&mut self, selected: usize, key: KeyEvent) -> (r: Effect)
        requires
            old(self).overlay is None,
            selected < choosable_spec().len(),
        ensures
            (final(self)@, r@) == catalogue_key_spec(
                AppView {
                    overlay: Some(OverlayView::Catalogue { selected }),
                    ..old(self)@
                },
                selected,
                key,
            ),
    {
        let kinds = PanelType::choosable();
        let count = kinds.len();
        match key.code {
            KeyCode::Up | KeyCode::Char('k') | KeyCode::Char('K') => {
                self.overlay = Some(
                    Overlay::Catalogue(Catalogue { selected: (selected + count - 1) % count }),
                );
                Effect::Nothing
            },
            KeyCode::Down | KeyCode::Char('j') | KeyCode::Char('J') => {
                self.overlay = Some(Overlay::Catalogue(Catalogue { selected: (selected + 1) % count }));
                Effect::Nothing
            },
            KeyCode::Enter => {
                self.layout = self.layout.assign(kinds[selected]);
                Effect::Replace(self.layout.focus())
            },
            _ => {
                self.overlay = Some(Overlay::Catalogue(Catalogue { selected }));
                Effect::Nothing
            },
        }
    }

    fn overlay_key(&mut self, key: KeyEvent, area: Rect) -> (r: Effect)
        requires
            area.wf(),
            old(self).overlay is Some,
            old(self).wf(),
        ensures
            (final(self)@, r@) == overlay_key_spec(old(self)@, key, area),
    {
        let ghost before = self@;
        let overlay = self.overlay.take();
        assert(self@ == AppView { overlay: None, ..before });
        match overlay {
            Some(Overlay::Help) => Effect::Nothing,
            Some(Overlay::Export(export)) => self.export_key(export, key),
            Some(Overlay::Confirm(confirm)) => {
                if key.code != KeyCode::Enter {
                    self.overlay = Some(Overlay::Confirm(confirm));
                    return Effect::Nothing;
                }
                self.filtering = None;
                match apply(&self.layout, pane(area), arrange::Command::Close) {
                    Outcome::Changed(layout) => {
                        self.layout = layout;
                        Effect::Sync
                    },
                    Outcome::Refused(_) => Effect::Nothing,
                }
            },
            Some(Overlay::Catalogue(catalogue)) => self.catalogue_key(catalogue.selected, key),
            None => Effect::Nothing,
        }
    }

    fn filter_key(&mut self, key: KeyEvent) -> (r: Effect)
        requires
            old(self).filtering is Some,
        ensures
            (final(self)@, r@) == filter_key_spec(old(self)@, key),
    {
        let query = match self.filtering.take() {
            Some(q) => q,
            None => String::new(),
        };
        match key.code {
            KeyCode::Char(c) => {
                let mut query = query;
                push_char(&mut query, c);
                let shown = query.clone();
                self.filtering = Some(query);
                Effect::Filter(Some(shown))
            },
            KeyCode::Backspace => {
                let query = without_last(&query);
                let shown = query.clone();
                self.filtering = Some(query);
                Effect::Filter(Some(shown))
            },
            KeyCode::Enter => Effect::Filter(Some(query)),
            _ => {
                self.filtering = Some(query);
                Effect::Nothing
            },
        }
    }

    fn reading_key(&mut self, key: KeyEvent, area: Rect) -> (r: Effect)
        requires
            area.wf(),
        ensures
            (final(self)@, r@) == reading_key_spec(old(self)@, key, area),
    {
        if let Some(command) = lookup(Context::Global, key) {
            return self.global(command, area);
        }
        if let Some(command) = lookup(Context::Focused, key) {
            if let Some(effect) = self.focused(command) {
                return effect;
            }
        }
        Effect::Panel(key)
    }

    /// Answer one input against a terminal of this size.
    ///
    /// The size is the whole terminal; the arrangement is solved in all of it
    /// but the footer row. The counter check, on a key that splits a panel
    /// with room to, is the arrangement's own limit on how many leaves it can
    /// ever have made.
    pub fn handle(&mut self, input: Input, area: Rect) -> (r: Effect)
        requires
            area.wf(),
            old(self).wf(),
            would_split(old(self)@, input, area) ==> old(self).layout.next_id_spec() < u32::MAX,
        ensures
            (final(self)@, r@) == handle_spec(old(self)@, input, area),
            final(self).wf(),
    {
        let key = match input {
            Input::Key(key) => key,
            _ => {
                return Effect::Nothing;
            },
        };
        self.notice = None;
        if key.code == KeyCode::Esc {
            return self.escape();
        }
        if self.overlay.is_some() {
            return self.overlay_key(key, area);
        }
        if self.filtering.is_some() {
            return self.filter_key(key);
        }
        if self.arranging {
            return self.arrange_key(key, area);
        }
        self.reading_key(key, area)
    }

    /// Where a jump from a validation issue lands: the first leaf showing the
    /// panel that holds the issue's subject, and the row to reveal there.
    ///
    /// A model-wide issue has nowhere to go, and a panel the arrangement does
    /// not hold cannot be jumped to; both say so in the border. The jump
    /// itself happens when the panel confirms it revealed the row: see
    /// [`App::land`].
    pub fn jump(&mut self, scope: &IssueScope) -> (r: Option<(LeafId, usize)>)
        ensures
            ({
                let home = match *scope {
                    IssueScope::Mesh(_) | IssueScope::Face(..) | IssueScope::Edge { .. } => Some(
                        PanelType::Meshes,
                    ),
                    IssueScope::Material(_) => Some(PanelType::Materials),
                    IssueScope::Model => None::<PanelType>,
                };
                let row = match *scope {
                    IssueScope::Mesh(i) | IssueScope::Face(i, _) | IssueScope::Material(i) => i,
                    IssueScope::Edge { mesh_index, .. } => mesh_index,
                    IssueScope::Model => 0,
                };
                match home {
                    None => r is None && final(self)@ == (AppView {
                        notice: Some("this issue is about the whole model"@),
                        ..old(self)@
                    }),
                    Some(kind) => match first_showing(old(self).layout.tree().leaves_spec(), kind) {
                        None => r is None && final(self)@ == (AppView {
                            notice: Some("no "@ + kind.name_spec() + " panel to jump to"@),
                            ..old(self)@
                        }),
                        Some(id) => r == Some((id, row)) && final(self)@ == old(self)@,
                    },
                }
            }),
    {
        let kind = match home_of(scope) {
            Some(k) => k,
            None => {
                self.notice = Some(owned("this issue is about the whole model"));
                return None;
            },
        };
        let leaves = self.layout.leaves();
        let target = match find_showing(&leaves, kind) {
            Some(id) => id,
            None => {
                let mut message = owned("no ");
                push_str(&mut message, kind.name());
                push_str(&mut message, " panel to jump to");
                self.notice = Some(message);
                return None;
            },
        };
        match row_of(scope) {
            Some(row) => Some((target, row)),
            None => None,
        }
    }

    /// Finish a jump the target panel accepted: focus moves there and a
    /// maximized panel gives the pane back.
    pub fn land(&mut self, target: LeafId)
        ensures
            final(self)@ == (AppView {
                layout: old(self).layout.focused_on(target),
                maximized: None,
                ..old(self)@
            }),
    {
        self.layout = self.layout.with_focus(target);
        self.maximized = None;
    }
}


// ---------------------------------------------------------------------------
// What holds of every key.
// ---------------------------------------------------------------------------

/// Escape means back and never quit: it closes exactly the first layer that
/// is open, in the order overlay, filter (telling the focused panel its
/// filter is gone), arrange mode, maximized panel, and changes nothing else;
/// with nothing open it only says so. The session never ends on it.
pub proof fn law_escape_goes_back(s: AppView, key: KeyEvent, area: Rect)
    requires
        key.code == KeyCode::Esc,
    ensures
        ({
            let (t, e) = handle_spec(s, Input::Key(key), area);
            let c = AppView { notice: None, ..s };
            &&& !(e is Quit)
            &&& t.exit == s.exit
            &&& t.layout == s.layout
            &&& if s.overlay is Some {
                t == (AppView { overlay: None, ..c }) && e == EffectView::Nothing
            } else if s.filtering is Some {
                t == (AppView { filtering: None, ..c }) && e == EffectView::Filter(None)
            } else if s.arranging {
                t == (AppView { arranging: false, ..c }) && e == EffectView::Nothing
            } else if s.maximized is Some {
                t == (AppView { maximized: None, ..c }) && e == EffectView::Nothing
            } else {
                t == (AppView { notice: Some(nothing_behind()), ..s }) && e == EffectView::Nothing
            }
        }),
{
}

/// A session ends on exactly one thing: the key bound to quit, pressed while
/// reading, with no overlay, no filter and no arranging open. Escape never
/// quits, and a quit key typed into an open buffer is text. Ending it always
/// marks the surface exited.
pub proof fn law_quit_only_from_reading(s: AppView, input: Input, area: Rect)
    ensures
        ({
            let (t, e) = handle_spec(s, input, area);
            &&& e is Quit <==> (input matches Input::Key(k) && k.code != KeyCode::Esc
                && s.overlay is None && s.filtering is None && !s.arranging && lookup_spec(
                Context::Global,
                k,
            ) == Some(Command::Quit))
            &&& e is Quit ==> t.exit
            &&& !(e is Quit) ==> t.exit == s.exit
        }),
{
    match input {
        Input::Key(key) => {
            let c = AppView { notice: None, ..s };
            if key.code == KeyCode::Esc {
            } else if c.overlay is Some {
                match c.overlay {
                    Some(OverlayView::Export { json, path }) => {},
                    Some(OverlayView::Catalogue { selected }) => {},
                    Some(OverlayView::Confirm { .. }) => {
                        match apply_spec(c.layout, pane_spec(area), arrange::Command::Close) {
                            Outcome::Changed(l) => {},
                            Outcome::Refused(_) => {},
                        }
                    },
                    _ => {},
                }
            } else if c.filtering is Some {
            } else if c.arranging {
                match lookup_spec(Context::Arrange, key) {
                    None => {},
                    Some(command) => {
                        lemma_arranged_never_quits(c, command, area);
                    },
                }
            } else {
                match lookup_spec(Context::Global, key) {
                    Some(command) => {},
                    None => match lookup_spec(Context::Focused, key) {
                        Some(command) => {},
                        None => {},
                    },
                }
            }
        },
        _ => {},
    }
}

proof fn lemma_arranged_never_quits(s: AppView, command: Command, area: Rect)
    ensures
        forall|a: arrange::Command| !(#[trigger] arranged(s, a, area).1 is Quit) && arranged(
            s,
            a,
            area,
        ).0.exit == s.exit,
{
    assert forall|a: arrange::Command| !(#[trigger] arranged(s, a, area).1 is Quit) && arranged(
        s,
        a,
        area,
    ).0.exit == s.exit by {
        match apply_spec(s.layout, pane_spec(area), a) {
            Outcome::Changed(l) => {},
            Outcome::Refused(r) => {},
        }
    }
}

/// A text buffer takes the whole keyboard while it is open: with an overlay
/// up or a filter being typed no key ends the session, and a typed
/// character lands in the buffer, so a path holding a `q` cannot quit
/// underneath the prompt.
pub proof fn law_buffers_take_the_keyboard(s: AppView, key: KeyEvent, area: Rect)
    requires
        s.overlay is Some || s.filtering is Some,
    ensures
        ({
            let (t, e) = handle_spec(s, Input::Key(key), area);
            &&& !(e is Quit)
            &&& t.exit == s.exit
            &&& key.code is Char ==> match s.overlay {
                Some(OverlayView::Export { json, path }) => t.overlay == Some(
                    OverlayView::Export { json, path: path.push(key.code->Char_0) },
                ),
                None => t.filtering == Some(s.filtering.unwrap().push(key.code->Char_0)) && e
                    == EffectView::Filter(t.filtering),
                _ => true,
            }
        }),
{
}

/// What a session leaves behind is the reader's own arrangement: quitting
/// and saving both hand over the encoding of the tree as it stands, never of
/// the maximized or elided view, and that encoding reads back as the same
/// tree.
pub proof fn law_persist_the_readers_tree(s: AppView, input: Input, area: Rect)
    requires
        s.layout.wf(),
    ensures
        ({
            let (t, e) = handle_spec(s, input, area);
            &&& e matches EffectView::Quit(text) ==> text == encode_spec(s.layout.tree())
                && decode_spec(text) == Ok::<(Node, nat), Seq<char>>(
                (renumber(s.layout.tree(), 0), s.layout.tree().leaf_count()),
            ) && t.exit
            &&& e matches EffectView::SaveLayout(text) ==> text == encode_spec(s.layout.tree())
                && t == (AppView { notice: None, ..s })
        }),
{
    law_decode_inverts_encode(s.layout);
}

/// In the panel pick, up then down comes back to the same row, and the pick
/// never leaves the list.
pub proof fn law_catalogue_wraps(s: AppView, up: KeyEvent, down: KeyEvent, area: Rect)
    requires
        view_wf(s),
        s.overlay is Some && s.overlay.unwrap() is Catalogue,
        up.code == KeyCode::Up,
        down.code == KeyCode::Down,
    ensures
        ({
            let (t, _) = handle_spec(s, Input::Key(up), area);
            let (u, _) = handle_spec(t, Input::Key(down), area);
            &&& view_wf(t)
            &&& u.overlay == s.overlay
        }),
{
    let sel = s.overlay.unwrap()->Catalogue_selected;
    assert(choosable_spec().len() == 10);
    let back = ((sel + 10 - 1) % 10int) as usize;
    assert(back < 10);
    assert((back + 1) % 10int == sel) by {
        if sel == 0 {
            assert(back == 9);
        } else {
            assert(back == sel - 1);
        }
    }
}

/// Switching the export format twice gives back the dialog as it opened:
/// the same format and the default path for it.
pub proof fn law_export_format_toggles_back(s: AppView, key: KeyEvent, area: Rect)
    requires
        s.overlay == Some(OverlayView::Export { json: false, path: export_path_spec(s.model_name, false) }),
        key.code == KeyCode::Tab,
    ensures
        ({
            let (t, _) = handle_spec(s, Input::Key(key), area);
            let (u, _) = handle_spec(t, Input::Key(key), area);
            &&& t.overlay == Some(OverlayView::Export { json: true, path: export_path_spec(s.model_name, true) })
            &&& u.overlay == s.overlay
        }),
{
}

/// Backspace takes back the character just typed into a filter.
pub proof fn law_backspace_undoes_typing(s: AppView, typed: KeyEvent, back: KeyEvent, area: Rect)
    requires
        s.overlay is None,
        s.filtering is Some,
        typed.code is Char,
        back.code == KeyCode::Backspace,
    ensures
        ({
            let (t, _) = handle_spec(s, Input::Key(typed), area);
            let (u, e) = handle_spec(t, Input::Key(back), area);
            &&& u.filtering == s.filtering
            &&& e == EffectView::Filter(s.filtering)
        }),
{
    let q = s.filtering.unwrap();
    let c = typed.code->Char_0;
    assert(q.push(c).drop_last() =~= q);
}

/// A refused arrange command leaves the arrangement exactly as it was and
/// says why in the focused border; an accepted one asks the loop to give
/// the new leaves their panels.
pub proof fn law_refusals_leave_the_arrangement(s: AppView, key: KeyEvent, area: Rect)
    requires
        s.overlay is None,
        s.filtering is None,
        s.arranging,
        key.code != KeyCode::Esc,
    ensures
        ({
            let (t, e) = handle_spec(s, Input::Key(key), area);
            &&& t.layout != s.layout ==> e == EffectView::Sync
            &&& e != EffectView::Sync ==> t.layout == s.layout
            &&& !(e is Quit)
        }),
{
}


/// In arrange mode the right arrow grows the focused panel and the left arrow
/// shrinks it, whichever side of its divider the panel is on; a press the
/// arrangement refuses leaves it as it was.
pub proof fn law_arrows_resize_the_focused_panel(s: AppView, area: Rect)
    requires
        s.layout.wf(),
        area.wf(),
        s.overlay is None,
        s.filtering is None,
        s.arranging,
        active_share(s.layout.tree(), s.layout.focus_spec()) matches Some(share) ==> MIN_SHARE
            <= share <= MAX_SHARE,
    ensures
        ({
            let t = handle_spec(s, Input::Key(KeyEvent { code: KeyCode::Right, control: false }), area).0;
            t.layout != s.layout ==> resized_as_asked(
                first_rect_of(s.layout.tree().placements(pane_spec(area)), s.layout.focus_spec()),
                first_rect_of(t.layout.tree().placements(pane_spec(area)), t.layout.focus_spec()),
                RESIZE_STEP,
            )
        }),
        ({
            let t = handle_spec(s, Input::Key(KeyEvent { code: KeyCode::Left, control: false }), area).0;
            t.layout != s.layout ==> resized_as_asked(
                first_rect_of(s.layout.tree().placements(pane_spec(area)), s.layout.focus_spec()),
                first_rect_of(t.layout.tree().placements(pane_spec(area)), t.layout.focus_spec()),
                (-RESIZE_STEP) as i32,
            )
        }),
{
    law_arrows_move_the_divider(Context::Arrange);
    arrange::law_grow_and_shrink_act_on_the_focused_panel(s.layout, pane_spec(area));
}

} // verus!
