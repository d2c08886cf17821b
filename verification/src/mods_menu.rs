//! The decisions of the mod-management screen: which loader actions it
//! offers for an instance, how each entry of the mod list is shown, and the
//! list of recommended mods with their check boxes.
use vstd::prelude::*;

use crate::auth::{strip_suffix, strip_suffix_exec};
use crate::export::ModId;
use crate::instance_config::InstanceConfigJson;
use crate::multimc::Loader;
use crate::launcher_state::{position_of, selection_set, ModListEntry};
use crate::presets::{SelectedMod, SelectedModView};
use crate::text::{chars_of, ends_with, ends_with_exec, str_eq};

verus! {

/// Which Forge installer a button starts.
#[derive(PartialEq, Eq, Structural, Clone, Copy)]
pub enum ForgeKind {
    Normal,
    NeoForge,
    OptiFine,
}

/// Which uninstaller a button starts.
#[derive(PartialEq, Eq, Structural, Clone, Copy)]
pub enum UninstallKind {
    Forge,
    OptiFine,
    Fabric,
    Paper,
}

/// One button of the loader panel of the mod-management screen.
pub enum LoaderAction {
    InstallFabric { is_quilt: bool },
    InstallForge(ForgeKind),
    InstallOptifine,
    InstallPaper,
    /// A loader that is shown but cannot be installed yet.
    Unavailable(String),
    /// Asks to confirm removing the OptiFine jar at this path.
    UninstallOptifine(String),
    /// Asks to confirm removing the instance's loader, named by its mod type.
    Uninstall { mod_type: String, kind: UninstallKind },
    /// The instance's mod type is not one the launcher knows.
    UnknownModType(String),
}

/// Whether action `a` is an uninstall button for `mod_type` of kind `k`.
pub open spec fn is_uninstall(a: LoaderAction, mod_type: Seq<char>, k: UninstallKind) -> bool {
    a matches LoaderAction::Uninstall { mod_type: m, kind } && m@ == mod_type && kind == k
}

/// The loader panel `r` of an instance whose mod type is `mod_type`.
pub open spec fn offers(r: Seq<LoaderAction>, mod_type: Seq<char>, is_server: bool, jar: Option<&str>) -> bool {
    if mod_type == "Vanilla"@ {
        &&& r.len() == if is_server { 7int } else { 5int }
        &&& r[0] == LoaderAction::InstallFabric { is_quilt: false }
        &&& r[1] == LoaderAction::InstallFabric { is_quilt: true }
        &&& r[2] == LoaderAction::InstallForge(ForgeKind::Normal)
        &&& r[3] == LoaderAction::InstallForge(ForgeKind::NeoForge)
        &&& if is_server {
            &&& r[4] matches LoaderAction::Unavailable(n) && n@ == "Bukkit"@
            &&& r[5] matches LoaderAction::Unavailable(n) && n@ == "Spigot"@
            &&& r[6] == LoaderAction::InstallPaper
        } else {
            r[4] == LoaderAction::InstallOptifine
        }
    } else if mod_type == "Forge"@ {
        &&& r.len() == 2
        &&& match jar {
            Some(j) => r[0] matches LoaderAction::UninstallOptifine(p) && p@ == j@,
            None => r[0] == LoaderAction::InstallOptifine,
        }
        &&& is_uninstall(r[1], mod_type, UninstallKind::Forge)
    } else if mod_type == "OptiFine"@ {
        &&& r.len() == 2
        &&& r[0] == LoaderAction::InstallForge(ForgeKind::OptiFine)
        &&& is_uninstall(r[1], mod_type, UninstallKind::OptiFine)
    } else if mod_type == "NeoForge"@ {
        r.len() == 1 && is_uninstall(r[0], mod_type, UninstallKind::Forge)
    } else if mod_type == "Fabric"@ || mod_type == "Quilt"@ {
        r.len() == 1 && is_uninstall(r[0], mod_type, UninstallKind::Fabric)
    } else if mod_type == "Paper"@ {
        r.len() == 1 && is_uninstall(r[0], mod_type, UninstallKind::Paper)
    } else {
        r.len() == 1 && (r[0] matches LoaderAction::UnknownModType(m) && m@ == mod_type)
    }
}

/// The buttons of the loader panel, for an instance (or server) whose mod
/// type is `mod_type`: install buttons for a vanilla instance; for a Forge
/// instance, OptiFine's installer (or its removal, once a jar is recorded)
/// and Forge's removal; for the other loaders, their removal.
pub fn installer_actions(mod_type: &str, is_server: bool, optifine_jar: Option<&str>) -> (r: Vec<LoaderAction>)
    ensures
        offers(r@, mod_type@, is_server, optifine_jar),
{
    proof {
        reveal_strlit("Vanilla");
        reveal_strlit("Forge");
        reveal_strlit("OptiFine");
        reveal_strlit("NeoForge");
        reveal_strlit("Fabric");
        reveal_strlit("Quilt");
        reveal_strlit("Paper");
    }
    let mut r: Vec<LoaderAction> = Vec::new();
    if str_eq(mod_type, "Vanilla") {
        r.push(LoaderAction::InstallFabric { is_quilt: false });
        r.push(LoaderAction::InstallFabric { is_quilt: true });
        r.push(LoaderAction::InstallForge(ForgeKind::Normal));
        r.push(LoaderAction::InstallForge(ForgeKind::NeoForge));
        if is_server {
            r.push(LoaderAction::Unavailable("Bukkit".to_owned()));
            r.push(LoaderAction::Unavailable("Spigot".to_owned()));
            r.push(LoaderAction::InstallPaper);
        } else {
            r.push(LoaderAction::InstallOptifine);
        }
    } else if str_eq(mod_type, "Forge") {
        match optifine_jar {
            Some(j) => r.push(LoaderAction::UninstallOptifine(j.to_owned())),
            None => r.push(LoaderAction::InstallOptifine),
        }
        r.push(LoaderAction::Uninstall { mod_type: mod_type.to_owned(), kind: UninstallKind::Forge });
    } else if str_eq(mod_type, "OptiFine") {
        r.push(LoaderAction::InstallForge(ForgeKind::OptiFine));
        r.push(LoaderAction::Uninstall { mod_type: mod_type.to_owned(), kind: UninstallKind::OptiFine });
    } else if str_eq(mod_type, "NeoForge") {
        r.push(LoaderAction::Uninstall { mod_type: mod_type.to_owned(), kind: UninstallKind::Forge });
    } else if str_eq(mod_type, "Fabric") || str_eq(mod_type, "Quilt") {
        r.push(LoaderAction::Uninstall { mod_type: mod_type.to_owned(), kind: UninstallKind::Fabric });
    } else if str_eq(mod_type, "Paper") {
        r.push(LoaderAction::Uninstall { mod_type: mod_type.to_owned(), kind: UninstallKind::Paper });
    } else {
        r.push(LoaderAction::UnknownModType(mod_type.to_owned()));
    }
    r
}

/// How one entry of the mod list is shown.
pub enum ModRow {
    /// A mod the user can tick: its label, its version (for a downloaded
    /// mod), whether it is enabled (a disabled one is greyed out and
    /// carries a "Disabled" tooltip), whether it is ticked, and the name
    /// and id that ticking it sends.
    Selectable {
        label: String,
        version: Option<String>,
        enabled: bool,
        selected: bool,
        toggle_name: String,
        toggle_id: Option<String>,
    },
    /// A mod that came in as a dependency: listed by name, with no box.
    Dependency { name: String },
}

/// Whether `r` shows the entry `e` of the list, with the mods of `sel`
/// ticked.
pub open spec fn row_fits(r: ModRow, e: ModListEntry, sel: Set<SelectedModView>) -> bool {
    match e {
        ModListEntry::Downloaded { id, config } => if config.manually_installed {
            &&& r matches ModRow::Selectable { label, version, enabled, selected, toggle_name, toggle_id }
            &&& label@ == config.name@
            &&& version matches Some(v) && v@ == config.installed_version@
            &&& enabled == config.enabled
            &&& selected == sel.contains(SelectedModView::Downloaded { name: config.name@, id: id@ })
            &&& toggle_name@ == config.name@
            &&& toggle_id matches Some(t) && t@ == id@
        } else {
            r matches ModRow::Dependency { name } && name@ == config.name@
        },
        ModListEntry::Local { file_name } => {
            &&& r matches ModRow::Selectable { label, version, enabled, selected, toggle_name, toggle_id }
            &&& label@ == strip_suffix(file_name@, ".disabled"@)
            &&& version is None
            &&& enabled == !ends_with(file_name@, ".disabled"@)
            &&& selected == sel.contains(SelectedModView::Local { file_name: file_name@ })
            &&& toggle_name@ == file_name@
            &&& toggle_id is None
        },
    }
}

/// Whether the mod `m` is among the selection.
pub fn is_selected(sel: &Vec<SelectedMod>, m: &SelectedMod) -> (b: bool)
    ensures
        b == selection_set(sel@).contains(m@),
{
    match position_of(sel, m) {
        Some(i) => {
            assert(sel@.map_values(|x: SelectedMod| x@)[i as int] == m@);
            true
        },
        None => {
            proof {
                if selection_set(sel@).contains(m@) {
                    let mapped = sel@.map_values(|x: SelectedMod| x@);
                    let k = choose|k: int| 0 <= k < mapped.len() && #[trigger] mapped[k] == m@;
                    assert(sel@[k]@ == m@);
                }
            }
            false
        },
    }
}

/// The row that shows the entry `e` of the mod list, given the mods that
/// are ticked.
pub fn mod_entry_row(e: &ModListEntry, sel: &Vec<SelectedMod>) -> (r: ModRow)
    ensures
        row_fits(r, *e, selection_set(sel@)),
{
    match e {
        ModListEntry::Downloaded { id, config } => {
            if config.manually_installed {
                let m = SelectedMod::Downloaded { name: config.name.clone(), id: id.clone() };
                let selected = is_selected(sel, &m);
                ModRow::Selectable {
                    label: config.name.clone(),
                    version: Some(config.installed_version.clone()),
                    enabled: config.enabled,
                    selected,
                    toggle_name: config.name.clone(),
                    toggle_id: Some(id.clone()),
                }
            } else {
                ModRow::Dependency { name: config.name.clone() }
            }
        },
        ModListEntry::Local { file_name } => {
            let m = SelectedMod::Local { file_name: file_name.clone() };
            let selected = is_selected(sel, &m);
            let v = chars_of(file_name.as_str());
            let suffix = chars_of(".disabled");
            let disabled = ends_with_exec(v.as_slice(), suffix.as_slice());
            ModRow::Selectable {
                label: strip_suffix_exec(file_name.as_str(), ".disabled"),
                version: None,
                enabled: !disabled,
                selected,
                toggle_name: file_name.clone(),
                toggle_id: None,
            }
        },
    }
}

/// A mod the launcher recommends for a loader.
pub struct RecommendedMod {
    /// The project, with the store it comes from.
    pub id: ModId,
    pub name: String,
    /// Whether its box starts ticked.
    pub enabled_by_default: bool,
}

impl RecommendedMod {
    pub fn copy(&self) -> (r: RecommendedMod)
        ensures
            r == *self,
    {
        RecommendedMod {
            id: copy_mod_id(&self.id),
            name: self.name.clone(),
            enabled_by_default: self.enabled_by_default,
        }
    }
}

/// A copy of a store id.
pub fn copy_mod_id(id: &ModId) -> (r: ModId)
    ensures
        r == *id,
{
    match id {
        ModId::Modrinth(m) => ModId::Modrinth(m.clone()),
        ModId::Curseforge(c) => ModId::Curseforge(c.clone()),
    }
}

/// The loader named by an instance's mod type, if the mod type names one.
pub open spec fn loader_of(mod_type: Seq<char>) -> Option<Loader> {
    if mod_type == "Fabric"@ {
        Some(Loader::Fabric)
    } else if mod_type == "Quilt"@ {
        Some(Loader::Quilt)
    } else if mod_type == "Forge"@ {
        Some(Loader::Forge)
    } else if mod_type == "NeoForge"@ {
        Some(Loader::Neoforge)
    } else if mod_type == "OptiFine"@ {
        Some(Loader::OptiFine)
    } else if mod_type == "Paper"@ {
        Some(Loader::Paper)
    } else {
        None
    }
}

/// The loader named by an instance's mod type: none for a vanilla
/// instance or a mod type the launcher does not know.
pub fn loader_from_mod_type(mod_type: &str) -> (r: Option<Loader>)
    ensures
        r == loader_of(mod_type@),
{
    if str_eq(mod_type, "Fabric") {
        Some(Loader::Fabric)
    } else if str_eq(mod_type, "Quilt") {
        Some(Loader::Quilt)
    } else if str_eq(mod_type, "Forge") {
        Some(Loader::Forge)
    } else if str_eq(mod_type, "NeoForge") {
        Some(Loader::Neoforge)
    } else if str_eq(mod_type, "OptiFine") {
        Some(Loader::OptiFine)
    } else if str_eq(mod_type, "Paper") {
        Some(Loader::Paper)
    } else {
        None
    }
}

/// The recommended-mods screen.
pub enum MenuRecommendedMods {
    /// Checking which recommended mods fit the instance, or downloading
    /// the ticked ones; the instance's configuration is kept at hand.
    Loading { config: InstanceConfigJson },
    /// The instance has no loader, so no mod can be recommended.
    InstallALoader,
    /// None of the recommended mods fits the instance.
    NotSupported,
    /// The mods that fit, each with whether its box is ticked, and the
    /// instance's configuration.
    Loaded { mods: Vec<(bool, RecommendedMod)>, config: InstanceConfigJson },
}

/// The ids of the ticked mods, in list order.
pub open spec fn ticked_ids(mods: Seq<(bool, RecommendedMod)>) -> Seq<ModId>
    decreases mods.len(),
{
    if mods.len() == 0 {
        seq![]
    } else {
        ticked_ids(mods.drop_last()) + if mods.last().0 { seq![mods.last().1.id] } else { seq![] }
    }
}

impl MenuRecommendedMods {
    /// The screen that opening it for an instance with configuration
    /// `config` leads to: asking for a loader when the instance's mod type
    /// names none, else the check of which mods fit, keeping `config`.
    pub fn open(config: InstanceConfigJson) -> (r: MenuRecommendedMods)
        ensures
            loader_of(config.mod_type@) is None ==> r is InstallALoader,
            loader_of(config.mod_type@) is Some ==> (r matches MenuRecommendedMods::Loading { config: c } && c == config),
    {
        match loader_from_mod_type(config.mod_type.as_str()) {
            Some(_) => MenuRecommendedMods::Loading { config },
            None => MenuRecommendedMods::InstallALoader,
        }
    }

    /// The instance configuration the screen keeps, while it checks,
    /// downloads or lists mods; `None` on the other screens (the caller
    /// then reads it from the instance).
    pub fn get_config(&self) -> (r: Option<&InstanceConfigJson>)
        ensures
            match self {
                MenuRecommendedMods::Loading { config } => r == Some(config),
                MenuRecommendedMods::Loaded { config, .. } => r == Some(config),
                _ => r is None,
            },
    {
        match self {
            MenuRecommendedMods::Loading { config } => Some(config),
            MenuRecommendedMods::Loaded { config, .. } => Some(config),
            _ => None,
        }
    }

    /// The screen once the check is done: each mod that fits, its box
    /// ticked as the mod says, or "not supported" when none fits.
    pub fn after_check(mods: Vec<RecommendedMod>, config: InstanceConfigJson) -> (r: MenuRecommendedMods)
        ensures
            mods@.len() == 0 ==> r is NotSupported,
            mods@.len() > 0 ==> (r matches MenuRecommendedMods::Loaded { mods: m, config: c }
                && c == config
                && m@.len() == mods@.len()
                && forall|i: int| 0 <= i < m@.len() ==> #[trigger] m@[i] == (mods@[i].enabled_by_default, mods@[i])),
    {
        if mods.len() == 0 {
            return MenuRecommendedMods::NotSupported;
        }
        let mut out: Vec<(bool, RecommendedMod)> = Vec::new();
        let mut i: usize = 0;
        while i < mods.len()
            invariant
                i <= mods@.len(),
                out@.len() == i,
                forall|k: int| 0 <= k < i ==> #[trigger] out@[k] == (mods@[k].enabled_by_default, mods@[k]),
            decreases mods@.len() - i,
        {
            let m = mods[i].copy();
            out.push((m.enabled_by_default, m));
            i = i + 1;
        }
        MenuRecommendedMods::Loaded { mods: out, config }
    }

    /// Ticks or unticks the mod at `idx`; nothing happens when the list is
    /// not shown or has no such entry.
    pub fn toggle(&mut self, idx: usize, on: bool)
        ensures
            match *old(self) {
                MenuRecommendedMods::Loaded { mods, config } => idx < mods@.len() ==> (*final(self) matches MenuRecommendedMods::Loaded { mods: m, config: c }
                    && m@ == mods@.update(idx as int, (on, mods@[idx as int].1)) && c == config),
                _ => true,
            },
            (match *old(self) {
                MenuRecommendedMods::Loaded { mods, .. } => idx >= mods@.len(),
                _ => true,
            }) ==> *final(self) == *old(self),
    {
        if let MenuRecommendedMods::Loaded { mods, .. } = self {
            if idx < mods.len() {
                mods[idx].0 = on;
            }
        }
    }

    /// Confirming the list: the ids of the ticked mods to download, in
    /// order, and the screen waits for the download, keeping the
    /// configuration; nothing happens when the list is not shown.
    pub fn begin_download(&mut self) -> (r: Option<Vec<ModId>>)
        ensures
            match *old(self) {
                MenuRecommendedMods::Loaded { mods, config } => r matches Some(ids) && ids@ == ticked_ids(mods@)
                    && *final(self) == (MenuRecommendedMods::Loading { config }),
                _ => r is None && *final(self) == *old(self),
            },
    {
        let ids = self.download_ids();
        if ids.is_some() {
            let mut taken = MenuRecommendedMods::NotSupported;
            std::mem::swap(&mut taken, self);
            match taken {
                MenuRecommendedMods::Loaded { config, .. } => {
                    *self = MenuRecommendedMods::Loading { config };
                },
                other => {
                    *self = other;
                },
            }
        }
        ids
    }

    /// The ids to download when the user confirms: those of the ticked
    /// mods, in order; none when the list is not shown.
    pub fn download_ids(&self) -> (r: Option<Vec<ModId>>)
        ensures
            match self {
                MenuRecommendedMods::Loaded { mods, .. } => r matches Some(ids) && ids@ == ticked_ids(mods@),
                _ => r is None,
            },
    {
        match self {
            MenuRecommendedMods::Loaded { mods, .. } => {
                let mut ids: Vec<ModId> = Vec::new();
                let mut i: usize = 0;
                while i < mods.len()
                    invariant
                        i <= mods@.len(),
                        ids@ == ticked_ids(mods@.take(i as int)),
                    decreases mods@.len() - i,
                {
                    assert(mods@.take(i + 1).drop_last() =~= mods@.take(i as int));
                    if mods[i].0 {
                        ids.push(copy_mod_id(&mods[i].1.id));
                    }
                    i = i + 1;
                }
                assert(mods@.take(mods@.len() as int) =~= mods@);
                Some(ids)
            },
            _ => None,
        }
    }
}

/// The loaders a store search is filtered by: Forge and Fabric instances
/// search for their loader; for any other mod type there is no search.
pub fn search_loaders(mod_type: &str) -> (r: Option<Vec<Loader>>)
    ensures
        mod_type@ == "Forge"@ ==> (r matches Some(l) && l@ == seq![Loader::Forge]),
        mod_type@ == "Fabric"@ ==> (r matches Some(l) && l@ == seq![Loader::Fabric]),
        mod_type@ != "Forge"@ && mod_type@ != "Fabric"@ ==> r is None,
{
    proof {
        reveal_strlit("Forge");
        reveal_strlit("Fabric");
        assert("Forge"@.len() != "Fabric"@.len());
    }
    if str_eq(mod_type, "Forge") {
        Some(vec![Loader::Forge])
    } else if str_eq(mod_type, "Fabric") {
        Some(vec![Loader::Fabric])
    } else {
        None
    }
}

} // verus!
