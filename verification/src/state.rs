use vstd::prelude::*;
use crate::types::{EcLevel, ModuleShape, Rgba, SaveFormat, level_code, level_from_code, is_level_code, lemma_level_code_valid, lemma_level_code_roundtrip};
use crate::history::{HistoryEntry, HistoryRecord, record_of};
use crate::qr::{QrMatrix, QrModules, QrGenError, qr_encoding};

verus! {

/// The export size, in pixels, a new editor starts with.
pub const DEFAULT_EXPORT_SIZE: u32 = 512;

/// What the editor holds between two frames, apart from the preview's scale.
pub struct AppState {
    pub text: String,
    pub ec_level: EcLevel,
    pub fmt: SaveFormat,
    pub module_shape: ModuleShape,
    pub dark_mode: bool,
    pub history: Vec<HistoryEntry>,
    pub fg_color: Rgba,
    pub bg_color: Rgba,
    pub export_size: u32,
    pub select: bool,
}

/// The content of an editor state.
pub struct AppView {
    pub text: Seq<char>,
    pub ec_level: EcLevel,
    pub fmt: SaveFormat,
    pub module_shape: ModuleShape,
    pub dark_mode: bool,
    pub history: Seq<HistoryRecord>,
    pub fg_color: Rgba,
    pub bg_color: Rgba,
    pub export_size: u32,
    pub select: bool,
}

/// The records of a list of history entries.
pub open spec fn records(h: Seq<HistoryEntry>) -> Seq<HistoryRecord> {
    h.map_values(|e: HistoryEntry| e@)
}

impl View for AppState {
    type V = AppView;

    open spec fn view(&self) -> AppView {
        AppView {
            text: self.text@,
            ec_level: self.ec_level,
            fmt: self.fmt,
            module_shape: self.module_shape,
            dark_mode: self.dark_mode,
            history: records(self.history@),
            fg_color: self.fg_color,
            bg_color: self.bg_color,
            export_size: self.export_size,
            select: self.select,
        }
    }
}

/// Opaque black.
pub open spec fn black() -> Rgba {
    Rgba { r: 0, g: 0, b: 0, a: 255 }
}

/// Opaque white.
pub open spec fn white() -> Rgba {
    Rgba { r: 255, g: 255, b: 255, a: 255 }
}

/// A fresh editor over a loaded history: empty text, level M, PNG at the default
/// size, rounded modules, dark theme, black on white.
pub open spec fn initial_view(history: Seq<HistoryRecord>) -> AppView {
    AppView {
        text: Seq::empty(),
        ec_level: EcLevel::M,
        fmt: SaveFormat::PNG,
        module_shape: ModuleShape::ROUNDED,
        dark_mode: true,
        history,
        fg_color: black(),
        bg_color: white(),
        export_size: DEFAULT_EXPORT_SIZE,
        select: true,
    }
}

/// The state after the theme button: the other theme, nothing else changed.
pub open spec fn theme_toggled(v: AppView) -> AppView {
    AppView { dark_mode: !v.dark_mode, ..v }
}

/// The state after entry `i` is restored: its text and the level its code stands for.
pub open spec fn restored(v: AppView, i: int) -> AppView {
    AppView { text: v.history[i].text, ec_level: level_from_code(v.history[i].ec_level), ..v }
}

/// The state after entry `i` is deleted.
pub open spec fn deleted(v: AppView, i: int) -> AppView {
    AppView { history: v.history.remove(i), ..v }
}

/// The state after the whole history is cleared.
pub open spec fn cleared(v: AppView) -> AppView {
    AppView { history: Seq::empty(), ..v }
}

/// The state after a format button is clicked: that format, and the PNG size
/// choice shown exactly when the format is PNG.
pub open spec fn format_chosen(v: AppView, fmt: SaveFormat) -> AppView {
    AppView { fmt, select: fmt == SaveFormat::PNG, ..v }
}

/// The state after "generate": the current text and level appended to the
/// history, unless the text is empty, in which case nothing changes.
pub open spec fn generated(v: AppView) -> AppView {
    if v.text.len() == 0 {
        v
    } else {
        AppView { history: v.history.push(record_of(v.text, v.ec_level)), ..v }
    }
}

/// Every entry of a history holds a non-empty text and a valid level code.
pub open spec fn history_well_formed(h: Seq<HistoryRecord>) -> bool {
    forall|i: int| 0 <= i < h.len() ==> #[trigger] h[i].text.len() > 0 && is_level_code(h[i].ec_level)
}

impl AppState {
    /// A fresh editor over a history loaded from disk.
    pub fn new(history: Vec<HistoryEntry>) -> (res: AppState)
        ensures
            res@ == initial_view(records(history@)),
    {
        AppState {
            text: String::new(),
            ec_level: EcLevel::M,
            fmt: SaveFormat::PNG,
            module_shape: ModuleShape::ROUNDED,
            dark_mode: true,
            history,
            fg_color: Rgba { r: 0, g: 0, b: 0, a: 255 },
            bg_color: Rgba { r: 255, g: 255, b: 255, a: 255 },
            export_size: DEFAULT_EXPORT_SIZE,
            select: true,
        }
    }

    /// Brings `code` up to date with the current text and level; when the text
    /// cannot be encoded, `code` keeps the last symbol that could, and the reason is
    /// returned.
    pub fn refresh_code(&self, code: &mut QrMatrix) -> (res: Result<(), QrGenError>)
        ensures
            match res {
                Ok(()) => qr_encoding(self.text@, self.ec_level) == Ok::<QrModules, QrGenError>(final(code)@),
                Err(e) => {
                    &&& qr_encoding(self.text@, self.ec_level) == Err::<QrModules, QrGenError>(e)
                    &&& final(code)@ == old(code)@
                },
            },
    {
        code.reencode(self.text.as_str(), self.ec_level)
    }

    /// Switches between the dark and the light theme.
    pub fn toggle_theme(&mut self)
        ensures
            final(self)@ == theme_toggled(old(self)@),
    {
        self.dark_mode = !self.dark_mode;
    }

    /// Puts entry `i` of the history back into the editor.
    pub fn restore_entry(&mut self, i: usize)
        requires
            i < old(self).history@.len(),
        ensures
            final(self)@ == restored(old(self)@, i as int),
    {
        let text = self.history[i].text.clone();
        let level = self.history[i].level();
        self.text = text;
        self.ec_level = level;
        proof {
            assert(self@.history =~= old(self)@.history);
        }
    }

    /// Removes entry `i` of the history.
    pub fn delete_entry(&mut self, i: usize)
        requires
            i < old(self).history@.len(),
        ensures
            final(self)@ == deleted(old(self)@, i as int),
    {
        let ghost h0 = self.history@;
        self.history.remove(i);
        proof {
            assert(records(self.history@) =~= records(h0).remove(i as int));
        }
    }

    /// Removes every entry of the history.
    pub fn clear_history(&mut self)
        ensures
            final(self)@ == cleared(old(self)@),
    {
        self.history.clear();
        proof {
            assert(records(self.history@) =~= Seq::<HistoryRecord>::empty());
        }
    }

    /// Selects an export format.
    pub fn choose_format(&mut self, fmt: SaveFormat)
        ensures
            final(self)@ == format_chosen(old(self)@, fmt),
    {
        self.select = match fmt {
            SaveFormat::PNG => true,
            SaveFormat::SVG => false,
        };
        self.fmt = fmt;
    }

    /// Saves the current text and level to the history, unless the text is
    /// empty; returns whether an entry was added.
    pub fn generate(&mut self) -> (added: bool)
        ensures
            final(self)@ == generated(old(self)@),
            added == (old(self)@.text.len() > 0),
    {
        if self.text.as_str().is_empty() {
            return false;
        }
        let entry = HistoryEntry::new(self.text.as_str(), self.ec_level);
        let ghost h0 = self.history@;
        self.history.push(entry);
        proof {
            assert(records(self.history@) =~= records(h0).push(entry@));
        }
        true
    }
}

/// One thing the user does in the editor during a frame.
pub enum EditorEvent {
    ToggleTheme,
    SetText(String),
    SetLevel(EcLevel),
    SetShape(ModuleShape),
    SetFgColor(Rgba),
    SetBgColor(Rgba),
    ChooseFormat(SaveFormat),
    SetExportSize(u32),
    Restore(usize),
    Delete(usize),
    ClearHistory,
    Generate,
}

/// A size the PNG size chooser offers.
pub open spec fn is_export_choice(size: u32) -> bool {
    size == 256 || size == 512 || size == 1024 || size == 2048
}

/// The events the editor can produce in a state: restoring and deleting name an
/// entry of the history, and a chosen size is one the size chooser offers.
pub open spec fn event_allowed(v: AppView, e: EditorEvent) -> bool {
    match e {
        EditorEvent::Restore(i) => i < v.history.len(),
        EditorEvent::Delete(i) => i < v.history.len(),
        EditorEvent::SetExportSize(size) => is_export_choice(size),
        _ => true,
    }
}

/// The state after one event.
pub open spec fn applied(v: AppView, e: EditorEvent) -> AppView {
    match e {
        EditorEvent::ToggleTheme => theme_toggled(v),
        EditorEvent::SetText(t) => AppView { text: t@, ..v },
        EditorEvent::SetLevel(l) => AppView { ec_level: l, ..v },
        EditorEvent::SetShape(sh) => AppView { module_shape: sh, ..v },
        EditorEvent::SetFgColor(c) => AppView { fg_color: c, ..v },
        EditorEvent::SetBgColor(c) => AppView { bg_color: c, ..v },
        EditorEvent::ChooseFormat(f) => format_chosen(v, f),
        EditorEvent::SetExportSize(size) => AppView { export_size: size, ..v },
        EditorEvent::Restore(i) => restored(v, i as int),
        EditorEvent::Delete(i) => deleted(v, i as int),
        EditorEvent::ClearHistory => cleared(v),
        EditorEvent::Generate => generated(v),
    }
}

/// The state after the events of a frame, in order.
pub open spec fn frame_result(v: AppView, events: Seq<EditorEvent>) -> AppView
    decreases events.len(),
{
    if events.len() == 0 {
        v
    } else {
        frame_result(applied(v, events[0]), events.drop_first())
    }
}

/// Every event of a frame is allowed in the state it meets.
pub open spec fn frame_allowed(v: AppView, events: Seq<EditorEvent>) -> bool
    decreases events.len(),
{
    events.len() == 0 || (event_allowed(v, events[0]) && frame_allowed(applied(v, events[0]), events.drop_first()))
}

/// What the editor keeps true from frame to frame: the PNG size chooser is shown
/// exactly when the format is PNG, the export size is one the chooser offers, and
/// every history entry holds a valid level code.
pub open spec fn editor_invariant(v: AppView) -> bool {
    &&& v.select == (v.fmt == SaveFormat::PNG)
    &&& is_export_choice(v.export_size)
    &&& forall|i: int| 0 <= i < v.history.len() ==> is_level_code(#[trigger] v.history[i].ec_level)
}

impl AppState {
    /// Carries out one event of the editor.
    pub fn apply(&mut self, event: EditorEvent)
        requires
            event_allowed(old(self)@, event),
        ensures
            final(self)@ == applied(old(self)@, event),
    {
        match event {
            EditorEvent::ToggleTheme => self.toggle_theme(),
            EditorEvent::SetText(t) => self.text = t,
            EditorEvent::SetLevel(l) => self.ec_level = l,
            EditorEvent::SetShape(sh) => self.module_shape = sh,
            EditorEvent::SetFgColor(c) => self.fg_color = c,
            EditorEvent::SetBgColor(c) => self.bg_color = c,
            EditorEvent::ChooseFormat(f) => self.choose_format(f),
            EditorEvent::SetExportSize(size) => self.export_size = size,
            EditorEvent::Restore(i) => self.restore_entry(i),
            EditorEvent::Delete(i) => self.delete_entry(i),
            EditorEvent::ClearHistory => self.clear_history(),
            EditorEvent::Generate => {
                self.generate();
            },
        }
    }
}

/// What each event of the editor does, field by field, and that it leaves every
/// other field as it was:
/// - the theme button flips the theme;
/// - the text box, the level, shape and color choosers and the PNG size chooser set
///   their own field to the value chosen;
/// - a format button sets the format, and shows the PNG size chooser exactly for PNG;
/// - restoring entry `i` sets the text to the entry's text and the level to the one
///   its code names ("L", "M", "Q"; anything else is `H`);
/// - deleting entry `i` removes that entry only, keeping the others in order;
/// - clearing empties the history;
/// - generating with a non-empty text appends one entry with the text and the
///   level's code, and with an empty text changes nothing.
pub proof fn lemma_event_effects(v: AppView, e: EditorEvent)
    requires
        event_allowed(v, e),
    ensures
        ({
            let w = applied(v, e);
            &&& w.dark_mode == (if e is ToggleTheme { !v.dark_mode } else { v.dark_mode })
            &&& w.text == match e {
                EditorEvent::SetText(t) => t@,
                EditorEvent::Restore(i) => v.history[i as int].text,
                _ => v.text,
            }
            &&& (e matches EditorEvent::Restore(i) ==> {
                let code = v.history[i as int].ec_level;
                &&& code == seq!['L'] ==> w.ec_level == EcLevel::L
                &&& code == seq!['M'] ==> w.ec_level == EcLevel::M
                &&& code == seq!['Q'] ==> w.ec_level == EcLevel::Q
                &&& (code != seq!['L'] && code != seq!['M'] && code != seq!['Q']) ==> w.ec_level == EcLevel::H
            })
            &&& (e matches EditorEvent::SetLevel(l) ==> w.ec_level == l)
            &&& (!(e is Restore) && !(e is SetLevel) ==> w.ec_level == v.ec_level)
            &&& w.module_shape == match e {
                EditorEvent::SetShape(sh) => sh,
                _ => v.module_shape,
            }
            &&& w.fg_color == match e {
                EditorEvent::SetFgColor(c) => c,
                _ => v.fg_color,
            }
            &&& w.bg_color == match e {
                EditorEvent::SetBgColor(c) => c,
                _ => v.bg_color,
            }
            &&& w.fmt == match e {
                EditorEvent::ChooseFormat(f) => f,
                _ => v.fmt,
            }
            &&& w.select == match e {
                EditorEvent::ChooseFormat(f) => f == SaveFormat::PNG,
                _ => v.select,
            }
            &&& w.export_size == match e {
                EditorEvent::SetExportSize(size) => size,
                _ => v.export_size,
            }
            &&& match e {
                EditorEvent::Delete(i) => {
                    &&& w.history.len() == v.history.len() - 1
                    &&& forall|j: int| 0 <= j < i ==> w.history[j] == v.history[j]
                    &&& forall|j: int| i <= j < w.history.len() ==> w.history[j] == v.history[j + 1]
                },
                EditorEvent::ClearHistory => w.history.len() == 0,
                EditorEvent::Generate => if v.text.len() == 0 {
                    w.history == v.history
                } else {
                    &&& w.history.len() == v.history.len() + 1
                    &&& forall|j: int| 0 <= j < v.history.len() ==> w.history[j] == v.history[j]
                    &&& w.history[v.history.len() as int].text == v.text
                    &&& w.history[v.history.len() as int].ec_level == match v.ec_level {
                        EcLevel::L => seq!['L'],
                        EcLevel::M => seq!['M'],
                        EcLevel::Q => seq!['Q'],
                        EcLevel::H => seq!['H'],
                    }
                },
                _ => w.history == v.history,
            }
        }),
{
    let w = applied(v, e);
    match e {
        EditorEvent::Restore(i) => {
            lemma_level_code_roundtrip(EcLevel::L);
            lemma_level_code_roundtrip(EcLevel::M);
            lemma_level_code_roundtrip(EcLevel::Q);
        },
        EditorEvent::Delete(i) => {
            assert forall|j: int| i <= j < w.history.len() implies w.history[j] == v.history[j + 1] by {}
        },
        EditorEvent::Generate => {
            if v.text.len() > 0 {
                assert(w.history[v.history.len() as int] == record_of(v.text, v.ec_level));
            }
        },
        _ => {},
    }
}

/// A fresh editor starts on the loaded history with an empty text, level M, PNG
/// export at 512 pixels with the size chooser shown, rounded modules, the dark
/// theme, and black modules on white.
pub proof fn lemma_initial_values(history: Seq<HistoryRecord>)
    ensures
        ({
            let v = initial_view(history);
            &&& v.text.len() == 0
            &&& v.ec_level == EcLevel::M
            &&& v.fmt == SaveFormat::PNG
            &&& v.select
            &&& v.export_size == 512
            &&& v.module_shape == ModuleShape::ROUNDED
            &&& v.dark_mode
            &&& v.fg_color == Rgba { r: 0, g: 0, b: 0, a: 255 }
            &&& v.bg_color == Rgba { r: 255, g: 255, b: 255, a: 255 }
            &&& v.history == history
        }),
{
}

/// A fresh editor over a history whose codes are valid keeps the editor invariant.
pub proof fn lemma_initial_state_invariant(history: Seq<HistoryRecord>)
    requires
        forall|i: int| 0 <= i < history.len() ==> is_level_code(#[trigger] history[i].ec_level),
    ensures
        editor_invariant(initial_view(history)),
{
}

/// Every allowed event keeps the editor invariant.
pub proof fn lemma_event_keeps_invariant(v: AppView, e: EditorEvent)
    requires
        editor_invariant(v),
        event_allowed(v, e),
    ensures
        editor_invariant(applied(v, e)),
{
    let w = applied(v, e);
    assert forall|i: int| 0 <= i < w.history.len() implies is_level_code(#[trigger] w.history[i].ec_level) by {
        match e {
            EditorEvent::Delete(d) => {
                if i < d {
                    assert(w.history[i] == v.history[i]);
                } else {
                    assert(w.history[i] == v.history[i + 1]);
                }
            },
            EditorEvent::Generate => {
                if v.text.len() > 0 && i == v.history.len() {
                    lemma_level_code_roundtrip(v.ec_level);
                    assert(w.history[i] == record_of(v.text, v.ec_level));
                } else {
                    assert(w.history[i] == v.history[i]);
                }
            },
            _ => {},
        }
    }
}

/// Whatever the user does during a frame, the editor invariant holds at its end
/// when it held at its start.
pub proof fn lemma_frame_keeps_invariant(v: AppView, events: Seq<EditorEvent>)
    requires
        editor_invariant(v),
        frame_allowed(v, events),
    ensures
        editor_invariant(frame_result(v, events)),
    decreases events.len(),
{
    if events.len() > 0 {
        lemma_event_keeps_invariant(v, events[0]);
        lemma_frame_keeps_invariant(applied(v, events[0]), events.drop_first());
    }
}

/// Switching the theme twice gives back the state one started from.
pub proof fn lemma_toggle_theme_twice(v: AppView)
    ensures
        theme_toggled(theme_toggled(v)) == v,
{
}

/// Generating with an empty text changes nothing.
pub proof fn lemma_generate_empty_text_unchanged(v: AppView)
    requires
        v.text.len() == 0,
    ensures
        generated(v) == v,
{
}

/// Generating right after restoring an entry appends a copy of that entry, when
/// the entry holds a non-empty text and a valid level code.
pub proof fn lemma_restore_then_generate(v: AppView, i: int)
    requires
        0 <= i < v.history.len(),
        v.history[i].text.len() > 0,
        is_level_code(v.history[i].ec_level),
    ensures
        generated(restored(v, i)).history == v.history.push(v.history[i]),
        generated(restored(v, i)).text == v.history[i].text,
{
    lemma_level_code_valid(v.history[i].ec_level);
}

/// Generating, clearing, switching the theme and choosing a format keep the
/// history well formed, whatever the history holds (an empty one too): only
/// non-empty texts with valid level codes are ever stored.
pub proof fn lemma_history_stays_well_formed(v: AppView, fmt: SaveFormat)
    requires
        history_well_formed(v.history),
    ensures
        history_well_formed(generated(v).history),
        history_well_formed(cleared(v).history),
        history_well_formed(theme_toggled(v).history),
        history_well_formed(format_chosen(v, fmt).history),
{
    if v.text.len() > 0 {
        let h = generated(v).history;
        assert forall|j: int| 0 <= j < h.len() implies #[trigger] h[j].text.len() > 0 && is_level_code(
            h[j].ec_level,
        ) by {
            if j == v.history.len() {
                lemma_level_code_roundtrip(v.ec_level);
                assert(h[j] == record_of(v.text, v.ec_level));
            } else {
                assert(h[j] == v.history[j]);
                assert(v.history[j].text.len() > 0 && is_level_code(v.history[j].ec_level));
            }
        }
    }
}

/// Deleting or restoring entry `i` keeps the history well formed.
pub proof fn lemma_entry_edits_keep_history_well_formed(v: AppView, i: int)
    requires
        history_well_formed(v.history),
        0 <= i < v.history.len(),
    ensures
        history_well_formed(deleted(v, i).history),
        history_well_formed(restored(v, i).history),
{
    let d = deleted(v, i).history;
    assert forall|j: int| 0 <= j < d.len() implies #[trigger] d[j].text.len() > 0 && is_level_code(d[j].ec_level) by {
        if j < i {
            assert(d[j] == v.history[j]);
        } else {
            assert(d[j] == v.history[j + 1]);
        }
    }
}

/// Every allowed event keeps the history well formed.
pub proof fn lemma_event_keeps_history_well_formed(v: AppView, e: EditorEvent)
    requires
        history_well_formed(v.history),
        event_allowed(v, e),
    ensures
        history_well_formed(applied(v, e).history),
{
    lemma_history_stays_well_formed(v, SaveFormat::PNG);
    match e {
        EditorEvent::ChooseFormat(f) => lemma_history_stays_well_formed(v, f),
        EditorEvent::Restore(i) => lemma_entry_edits_keep_history_well_formed(v, i as int),
        EditorEvent::Delete(i) => lemma_entry_edits_keep_history_well_formed(v, i as int),
        _ => {},
    }
}

/// Whatever the user does during a frame, a well-formed history stays well formed.
pub proof fn lemma_frame_keeps_history_well_formed(v: AppView, events: Seq<EditorEvent>)
    requires
        history_well_formed(v.history),
        frame_allowed(v, events),
    ensures
        history_well_formed(frame_result(v, events).history),
    decreases events.len(),
{
    if events.len() > 0 {
        lemma_event_keeps_history_well_formed(v, events[0]);
        lemma_frame_keeps_history_well_formed(applied(v, events[0]), events.drop_first());
    }
}

} // verus!
