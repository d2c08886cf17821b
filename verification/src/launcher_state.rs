//! The launcher's screens as data: the home screen, the mod list and the
//! selection of mods for a preset, the server screen and an instance's log.
use vstd::prelude::*;

use crate::auth::{Account, AccountData, AuthCodeResponse, AuthTokenResponse};
use crate::java::GenericProgress;
use crate::mods_menu::RecommendedMod;
use crate::mods::ModConfig;
use crate::presets::{SelectedMod, SelectedModView};
use crate::text::str_eq;
use crate::version_list::FabricVersionListItem;

verus! {

#[verifier::external_type_specification]
#[verifier::external_body]
#[verifier::reject_recursive_types(T)]
pub struct ExReceiver<T>(std::sync::mpsc::Receiver<T>);

/// A Minecraft version that can be installed.
pub struct ListEntry {
    pub name: String,
    pub is_classic_server: bool,
}

/// The home screen of the launcher.
pub struct MenuLaunch {
    pub message: String,
    pub java_recv: Option<std::sync::mpsc::Receiver<GenericProgress>>,
    pub asset_recv: Option<std::sync::mpsc::Receiver<GenericProgress>>,
}

impl MenuLaunch {
    /// The home screen showing `message`, with no download in progress.
    pub fn with_message(message: String) -> (m: MenuLaunch)
        ensures
            m.message == message,
            m.java_recv is None,
            m.asset_recv is None,
    {
        MenuLaunch { message, java_recv: None, asset_recv: None }
    }
}

/// The settings screen of the launcher (it holds no state of its own).
pub struct MenuLauncherSettings;

/// The screen that manages a server.
pub struct MenuServerManage {
    pub java_install_recv: Option<std::sync::mpsc::Receiver<GenericProgress>>,
    pub message: Option<String>,
}

/// The output of a running instance or server, and the command being
/// typed for a server.
pub struct InstanceLog {
    pub log: Vec<String>,
    pub has_crashed: bool,
    pub command: String,
}

impl InstanceLog {
    /// Sends the typed command: gives back the line to write to the
    /// server's input (the command and a newline), shows `> command` in the
    /// log, and clears the command.
    pub fn submit_command(&mut self) -> (input: String)
        ensures
            input@ == old(self).command@ + "\n"@,
            final(self).log@.len() == old(self).log@.len() + 1,
            final(self).log@.drop_last() == old(self).log@,
            final(self).log@.last()@ == "> "@ + old(self).command@,
            final(self).command@ == Seq::<char>::empty(),
            final(self).has_crashed == old(self).has_crashed,
    {
        let mut line = crate::text::chars_of(self.command.as_str());
        line.push('\n');
        let mut shown = crate::text::chars_of("> ");
        crate::text::push_str_chars(&mut shown, self.command.as_str());
        self.log.push(crate::text::string_of(shown.as_slice()));
        assert(self.log@.drop_last() =~= old(self).log@);
        self.command = String::new();
        let r = crate::text::string_of(line.as_slice());
        proof {
            reveal_strlit("\n");
        }
        assert(r@ =~= old(self).command@ + "\n"@);
        r
    }

    /// The whole log as one text.
    pub fn text(&self) -> (t: String)
        ensures
            t@ == crate::text::join(crate::mods::strs(self.log@), seq![]),
    {
        let t = crate::text::join_with(self.log.as_slice(), "");
        proof {
            reveal_strlit("");
            assert(""@ =~= Seq::<char>::empty());
        }
        t
    }
}

/// How much of a mod list is selected.
#[derive(PartialEq, Eq, Structural, Clone, Copy)]
pub enum SelectedState {
    All,
    /// Some of the list.
    Partial,
    /// None of the list.
    Nothing,
}

/// An entry of an instance's mod list: a mod from the store (with its
/// index record) or a file put into the mods folder by hand.
pub enum ModListEntry {
    Downloaded { id: String, config: Box<ModConfig> },
    Local { file_name: String },
}

impl ModListEntry {
    /// Whether the user installed this mod (rather than it coming in as a
    /// dependency); local files always count.
    pub fn is_manually_installed(&self) -> (b: bool)
        ensures
            b == match self {
                ModListEntry::Local { .. } => true,
                ModListEntry::Downloaded { config, .. } => config.manually_installed,
            },
    {
        match self {
            ModListEntry::Local { .. } => true,
            ModListEntry::Downloaded { config, .. } => config.manually_installed,
        }
    }

    /// The name shown for the entry.
    pub fn name(&self) -> (n: String)
        ensures
            n@ == match self {
                ModListEntry::Local { file_name } => file_name@,
                ModListEntry::Downloaded { config, .. } => config.name@,
            },
    {
        match self {
            ModListEntry::Local { file_name } => file_name.clone(),
            ModListEntry::Downloaded { config, .. } => config.name.clone(),
        }
    }

    /// The entry as a selection.
    pub fn id(&self) -> (s: SelectedMod)
        ensures
            s@ == entry_selection(*self),
    {
        match self {
            ModListEntry::Local { file_name } => SelectedMod::Local { file_name: file_name.clone() },
            ModListEntry::Downloaded { id, config } => SelectedMod::Downloaded {
                name: config.name.clone(),
                id: id.clone(),
            },
        }
    }
}

pub open spec fn entry_selection(e: ModListEntry) -> SelectedModView {
    match e {
        ModListEntry::Local { file_name } => SelectedModView::Local { file_name: file_name@ },
        ModListEntry::Downloaded { id, config } => SelectedModView::Downloaded { name: config.name@, id: id@ },
    }
}

pub open spec fn manual(e: ModListEntry) -> bool {
    match e {
        ModListEntry::Local { .. } => true,
        ModListEntry::Downloaded { config, .. } => config.manually_installed,
    }
}

/// The mods of a selection, as a set.
pub open spec fn selection_set(sel: Seq<SelectedMod>) -> Set<SelectedModView> {
    sel.map_values(|m: SelectedMod| m@).to_set()
}

/// A selection holds each mod at most once.
pub open spec fn no_repeats(sel: Seq<SelectedMod>) -> bool {
    forall|a: int, b: int| 0 <= a < b < sel.len() ==> sel[a]@ != sel[b]@
}

/// The manually installed mods of a list, as selections.
pub open spec fn manual_set(list: Seq<ModListEntry>) -> Set<SelectedModView> {
    Set::new(|v: SelectedModView| exists|i: int| 0 <= i < list.len() && manual(list[i]) && entry_selection(list[i]) == v)
}

fn same_mod(a: &SelectedMod, b: &SelectedMod) -> (r: bool)
    ensures
        r == (a@ == b@),
{
    match (a, b) {
        (SelectedMod::Downloaded { name: n1, id: i1 }, SelectedMod::Downloaded { name: n2, id: i2 }) => {
            str_eq(n1.as_str(), n2.as_str()) && str_eq(i1.as_str(), i2.as_str())
        },
        (SelectedMod::Local { file_name: f1 }, SelectedMod::Local { file_name: f2 }) => {
            str_eq(f1.as_str(), f2.as_str())
        },
        _ => false,
    }
}

pub(crate) fn position_of(sel: &Vec<SelectedMod>, m: &SelectedMod) -> (r: Option<usize>)
    ensures
        match r {
            Some(i) => i < sel@.len() && sel@[i as int]@ == m@,
            None => forall|i: int| 0 <= i < sel@.len() ==> (#[trigger] sel@[i])@ != m@,
        },
{
    let mut i: usize = 0;
    while i < sel.len()
        invariant
            i <= sel@.len(),
            forall|k: int| 0 <= k < i ==> (#[trigger] sel@[k])@ != m@,
        decreases sel@.len() - i,
    {
        if same_mod(&sel[i], m) {
            return Some(i);
        }
        i = i + 1;
    }
    None
}

proof fn lemma_set_push(sel: Seq<SelectedMod>, m: SelectedMod)
    ensures
        selection_set(sel.push(m)) == selection_set(sel).insert(m@),
{
    let f = |x: SelectedMod| x@;
    crate::mods::lemma_map_push(sel, m, f);
    assert(selection_set(sel.push(m)) =~= selection_set(sel).insert(m@)) by {
        assert forall|v: SelectedModView| selection_set(sel.push(m)).contains(v) <==> selection_set(sel).insert(m@).contains(v) by {
            let mapped = sel.map_values(f);
            if v == m@ {
                assert(mapped.push(m@)[mapped.len() as int] == v);
            }
            if selection_set(sel.push(m)).contains(v) && v != m@ {
                let i = choose|i: int| 0 <= i < mapped.push(m@).len() && mapped.push(m@)[i] == v;
                assert(mapped[i] == v);
            }
            if selection_set(sel).contains(v) {
                let i = choose|i: int| 0 <= i < mapped.len() && mapped[i] == v;
                assert(mapped.push(m@)[i] == v);
            }
        }
    }
}

proof fn lemma_set_remove(sel: Seq<SelectedMod>, i: int)
    requires
        0 <= i < sel.len(),
        no_repeats(sel),
    ensures
        selection_set(sel.remove(i)) == selection_set(sel).remove(sel[i]@),
        no_repeats(sel.remove(i)),
{
    let f = |x: SelectedMod| x@;
    let r = sel.remove(i);
    assert forall|v: SelectedModView| selection_set(r).contains(v) <==> selection_set(sel).remove(sel[i]@).contains(v) by {
        if selection_set(r).contains(v) {
            let k = choose|k: int| 0 <= k < r.map_values(f).len() && r.map_values(f)[k] == v;
            let src = if k < i { k } else { k + 1 };
            assert(sel.map_values(f)[src] == v);
            assert(src != i);
        }
        if selection_set(sel).remove(sel[i]@).contains(v) {
            let k = choose|k: int| 0 <= k < sel.map_values(f).len() && sel.map_values(f)[k] == v;
            assert(k != i);
            let dst = if k < i { k } else { k - 1 };
            assert(r.map_values(f)[dst] == v);
        }
    }
    assert(selection_set(r) =~= selection_set(sel).remove(sel[i]@));
}

/// The selection of mods for a preset, and how much of the list it covers.
pub struct PresetSelection {
    pub selected_mods: Vec<SelectedMod>,
    pub selected_state: SelectedState,
}

impl PresetSelection {
    /// The selection a preset starts with: every manually installed mod.
    pub fn all_manual(list: &[ModListEntry]) -> (s: PresetSelection)
        ensures
            no_repeats(s.selected_mods@),
            selection_set(s.selected_mods@) == manual_set(list@),
            s.selected_state == SelectedState::All,
    {
        let mut sel: Vec<SelectedMod> = Vec::new();
        let mut i: usize = 0;
        while i < list.len()
            invariant
                i <= list@.len(),
                no_repeats(sel@),
                selection_set(sel@) == Set::new(|v: SelectedModView| exists|k: int| 0 <= k < i && manual(list@[k]) && entry_selection(list@[k]) == v),
            decreases list@.len() - i,
        {
            let e = &list[i];
            let ghost before = Set::new(|v: SelectedModView| exists|k: int| 0 <= k < i && manual(list@[k]) && entry_selection(list@[k]) == v);
            let ghost after = Set::new(|v: SelectedModView| exists|k: int| 0 <= k < i + 1 && manual(list@[k]) && entry_selection(list@[k]) == v);
            if e.is_manually_installed() {
                let m = e.id();
                match position_of(&sel, &m) {
                    Some(j) => {
                        proof {
                            assert(sel@.map_values(|x: SelectedMod| x@)[j as int] == m@);
                            assert(before.contains(m@));
                            assert(after =~= before);
                        }
                    },
                    None => {
                        let ghost old_sel = sel@;
                        sel.push(m);
                        proof {
                            lemma_set_push(old_sel, m);
                            assert(after =~= before.insert(m@));
                        }
                    },
                }
            } else {
                assert(after =~= before);
            }
            i = i + 1;
        }
        assert(Set::new(|v: SelectedModView| exists|k: int| 0 <= k < list@.len() && manual(list@[k]) && entry_selection(list@[k]) == v) =~= manual_set(list@));
        PresetSelection { selected_mods: sel, selected_state: SelectedState::All }
    }

    /// Ticks or unticks one mod; the selection is then partial.
    pub fn toggle(&mut self, m: SelectedMod, enable: bool)
        requires
            no_repeats(old(self).selected_mods@),
        ensures
            no_repeats(final(self).selected_mods@),
            selection_set(final(self).selected_mods@) == if enable {
                selection_set(old(self).selected_mods@).insert(m@)
            } else {
                selection_set(old(self).selected_mods@).remove(m@)
            },
            final(self).selected_state == SelectedState::Partial,
    {
        let pos = position_of(&self.selected_mods, &m);
        let ghost old_sel = self.selected_mods@;
        if enable {
            match pos {
                Some(i) => {
                    proof {
                        assert(selection_set(old_sel).contains(m@)) by {
                            assert(old_sel.map_values(|x: SelectedMod| x@)[i as int] == m@);
                        }
                        assert(selection_set(old_sel).insert(m@) =~= selection_set(old_sel));
                    }
                },
                None => {
                    let ghost mv = m;
                    self.selected_mods.push(m);
                    proof {
                        lemma_set_push(old_sel, mv);
                    }
                },
            }
        } else {
            match pos {
                Some(i) => {
                    self.selected_mods.remove(i);
                    proof {
                        lemma_set_remove(old_sel, i as int);
                    }
                },
                None => {
                    proof {
                        let mapped = old_sel.map_values(|x: SelectedMod| x@);
                        assert(!selection_set(old_sel).contains(m@)) by {
                            if mapped.contains(m@) {
                                let k = choose|k: int| 0 <= k < mapped.len() && #[trigger] mapped[k] == m@;
                                assert(old_sel[k]@ == m@);
                            }
                        }
                        assert(selection_set(old_sel).remove(m@) =~= selection_set(old_sel));
                    }
                },
            }
        }
        self.selected_state = SelectedState::Partial;
    }

    /// The "select all" button: clears a full selection, and otherwise
    /// selects every manually installed mod.
    pub fn select_all(&mut self, list: &[ModListEntry])
        ensures
            no_repeats(final(self).selected_mods@),
            old(self).selected_state == SelectedState::All ==> final(self).selected_mods@.len() == 0
                && final(self).selected_state == SelectedState::Nothing,
            old(self).selected_state != SelectedState::All ==> selection_set(final(self).selected_mods@) == manual_set(list@)
                && final(self).selected_state == SelectedState::All,
    {
        if self.selected_state == SelectedState::All {
            self.selected_mods = Vec::new();
            self.selected_state = SelectedState::Nothing;
        } else {
            let fresh = PresetSelection::all_manual(list);
            self.selected_mods = fresh.selected_mods;
            self.selected_state = SelectedState::All;
        }
    }
}

/// Ticking a mod and then unticking it leaves the selection as it was
/// without that mod; when the mod was not selected before, exactly as it
/// was.
pub proof fn lemma_tick_then_untick(sel: Seq<SelectedMod>, m: SelectedModView)
    ensures
        selection_set(sel).insert(m).remove(m) == selection_set(sel).remove(m),
        !selection_set(sel).contains(m) ==> selection_set(sel).insert(m).remove(m) == selection_set(sel),
{
    assert(selection_set(sel).insert(m).remove(m) =~= selection_set(sel).remove(m));
    if !selection_set(sel).contains(m) {
        assert(selection_set(sel).remove(m) =~= selection_set(sel));
    }
}

/// The messages of the Fabric installation screen.
pub enum InstallFabricMessage {
    End(Result<bool, String>),
    VersionSelected(String),
    VersionsLoaded(Result<Vec<FabricVersionListItem>, String>),
    ButtonClicked,
    ScreenOpen { is_quilt: bool },
}

/// The messages of the instance creation screen.
pub enum CreateInstanceMessage {
    ScreenOpen,
    VersionsLoaded(Result<Vec<ListEntry>, String>),
    VersionSelected(ListEntry),
    NameInput(String),
    Start,
    End(Result<String, String>),
    ChangeAssetToggle(bool),
}

/// The messages of the mod management screen.
pub enum ManageModsMessage {
    ScreenOpen,
    ToggleCheckbox((String, String), bool),
    ToggleCheckboxLocal(String, bool),
    DeleteSelected,
    DeleteFinished(Result<Vec<String>, String>),
    LocalDeleteFinished(Result<(), String>),
    LocalIndexLoaded(Vec<String>),
    ToggleSelected,
    ToggleFinished(Result<(), String>),
    UpdateMods,
    UpdateModsFinished(Result<(), String>),
    UpdateCheckResult(Option<Vec<(String, String)>>),
    UpdateCheckToggle(usize, bool),
}

/// The messages of the mod export screen.
pub enum ExportModsMessage {
    ExportAsPlainText,
    ExportAsMarkdown,
    CopyMarkdownToClipboard,
    CopyPlainTextToClipboard,
}

/// The messages of the preset screen.
pub enum EditPresetsMessage {
    Open,
    ToggleCheckbox((String, String), bool),
    ToggleCheckboxLocal(String, bool),
    SelectAll,
    BuildYourOwn,
    BuildYourOwnEnd(Result<Vec<u8>, String>),
    /// Loading a preset ended; on success, the mods that must be
    /// downloaded by hand.
    LoadComplete(Result<Vec<String>, String>),
}

/// The messages of the recommended-mods screen.
pub enum RecommendedModMessage {
    Open,
    ModCheckResult(Result<Vec<RecommendedMod>, String>),
    Toggle(usize, bool),
    Download,
    /// The download ended; on success, the mods that must be downloaded
    /// by hand.
    DownloadEnd(Result<Vec<String>, String>),
}

/// A jar mod of an instance: a file patched into the game jar.
pub struct JarMod {
    pub filename: String,
    pub enabled: bool,
}

/// The jar mods of an instance, in the order they are applied.
pub struct JarMods {
    pub mods: Vec<JarMod>,
}

/// The messages of the jar-mods screen.
pub enum ManageJarModsMessage {
    Open,
    Loaded(Result<JarMods, String>),
    ToggleCheckbox(String, bool),
    DeleteSelected,
    AddFile,
    ToggleSelected,
    SelectAll,
    AutosaveFinished((Result<(), String>, JarMods)),
    MoveUp,
    MoveDown,
}

/// The messages of the account screens.
pub enum AccountMessage {
    Selected(String),
    Response1 { r: Result<AuthCodeResponse, String>, is_from_welcome_screen: bool },
    Response2(Result<AuthTokenResponse, String>),
    Response3(Result<AccountData, String>),
    LogoutCheck,
    LogoutConfirm,
    RefreshComplete(Result<AccountData, String>),
    OpenMicrosoft { is_from_welcome_screen: bool },
    OpenElyBy { is_from_welcome_screen: bool },
    OpenLittleSkin { is_from_welcome_screen: bool },
    AltUsernameInput(String),
    AltPasswordInput(String),
    AltOtpInput(String),
    AltShowPassword(bool),
    AltLogin,
    AltLoginResponse(Result<Account, String>),
    LittleSkinOauthButtonClicked,
    LittleSkinDeviceCodeReady {
        user_code: String,
        verification_uri: String,
        expires_in: u64,
        interval: u64,
        device_code: String,
    },
    LittleSkinDeviceCodeError(String),
}

} // verus!
