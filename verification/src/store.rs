//! Records of the mod store: a project's details as Modrinth describes it,
//! and the index of a mod preset.
use vstd::prelude::*;

use crate::mods::{keys, strs, ModConfig, ModIndex};
use crate::presets::{
    downloaded_ids, is_dependency_closure, local_files, lookup, out_view, plan_preset, SelectedMod,
};

verus! {

/// A project of the Modrinth store.
pub struct ProjectInfo {
    pub slug: String,
    pub title: String,
    pub description: String,
    pub categories: Vec<String>,
    pub client_side: String,
    pub server_side: String,
    pub body: String,
    pub status: String,
    pub requested_status: Option<String>,
    pub additional_categories: Vec<String>,
    pub issues_url: Option<String>,
    pub source_url: Option<String>,
    pub wiki_url: Option<String>,
    pub discord_url: Option<String>,
    pub donation_urls: Vec<DonationLink>,
    pub project_type: String,
    pub downloads: usize,
    pub icon_url: Option<String>,
    pub color: Option<usize>,
    pub thread_id: Option<String>,
    pub monetization_status: Option<String>,
    pub id: String,
    pub team: String,
    pub published: String,
    pub updated: String,
    pub approved: Option<String>,
    pub followers: usize,
    pub license: License,
    pub versions: Vec<String>,
    pub game_versions: Vec<String>,
    pub loaders: Vec<String>,
    pub gallery: Vec<GalleryItem>,
}

pub struct DonationLink {
    pub id: String,
    pub platform: String,
    pub url: String,
}

pub struct License {
    pub id: String,
    pub name: String,
    pub url: Option<String>,
}

pub struct GalleryItem {
    pub url: String,
    pub featured: bool,
    pub title: String,
    pub description: Option<String>,
    pub created: String,
    pub ordering: usize,
}

/// Where a project's details are fetched from.
pub fn project_url(id: &str) -> (res: String)
    ensures
        res@ == "https://api.modrinth.com/v2/project/"@ + id@,
{
    let mut out = crate::text::chars_of("https://api.modrinth.com/v2/project/");
    crate::text::push_str_chars(&mut out, id);
    crate::text::string_of(out.as_slice())
}

/// The index (`index.json`) of a mod preset.
pub struct PresetJson {
    pub launcher_version: String,
    pub minecraft_version: String,
    /// The store mods of the preset with their index records.
    pub entries_modrinth: Vec<(String, ModConfig)>,
    /// The names of the local mod files packed into the preset.
    pub entries_local: Vec<String>,
}

impl PresetJson {
    /// The index of a preset made from a selection: every selected store
    /// mod with everything it depends on (as far as the instance's index
    /// knows), and the selected local files that no indexed mod provides.
    pub fn build(
        launcher_version: String,
        minecraft_version: String,
        index: &ModIndex,
        selected: &[SelectedMod],
    ) -> (p: PresetJson)
        ensures
            p.launcher_version@ == launcher_version@,
            p.minecraft_version@ == minecraft_version@,
            is_dependency_closure(
                index@,
                downloaded_ids(selected@.map_values(|m: SelectedMod| m@)),
                keys(out_view(p.entries_modrinth@)).to_set(),
            ),
            forall|a: int| 0 <= a < p.entries_modrinth@.len() ==> #[trigger] out_view(p.entries_modrinth@)[a]
                == lookup(index@, out_view(p.entries_modrinth@)[a].0),
            forall|a: int, b: int| 0 <= a < b < p.entries_modrinth@.len() ==> out_view(p.entries_modrinth@)[a].0
                != out_view(p.entries_modrinth@)[b].0,
            strs(p.entries_local@) == local_files(index@, selected@.map_values(|m: SelectedMod| m@)),
    {
        let (entries_modrinth, entries_local) = plan_preset(index, selected);
        PresetJson { launcher_version, minecraft_version, entries_modrinth, entries_local }
    }
}

} // verus!
