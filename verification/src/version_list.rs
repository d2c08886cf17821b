//! The Fabric-like loader backends and the catalogue of loader versions
//! that they offer for one Minecraft version.
use vstd::prelude::*;

use crate::request::{is_not_found_view, json_error_view, Is404NotFound, JsonDownloadError};
use crate::text::{chars_of, push_all, push_str_chars, starts_with, string_of};

verus! {

/// A loader version as the meta server lists it.
pub struct FabricVersion {
    pub version: String,
}

pub struct FabricVersionListItem {
    pub loader: FabricVersion,
}

impl FabricVersionListItem {
    /// What the item shows as (its loader version).
    pub fn label(&self) -> (res: String)
        ensures
            res@ == self.loader.version@,
    {
        self.loader.version.clone()
    }
}

/// A meta server (or, for Cursed Legacy, a git repository) that serves
/// Fabric-like loaders.
#[derive(PartialEq, Eq, Structural, Clone, Copy)]
pub enum BackendType {
    Fabric,
    Quilt,
    LegacyFabric,
    OrnitheMC,
    CursedLegacy,
    Babric,
}

impl BackendType {
    /// The base URL of the backend's meta API. Cursed Legacy has none (it
    /// is served from git commits).
    pub fn get_url(self) -> (res: &'static str)
        requires
            self != BackendType::CursedLegacy,
        ensures
            self == BackendType::Fabric ==> res@ == "https://meta.fabricmc.net/v2"@,
            self == BackendType::Quilt ==> res@ == "https://meta.quiltmc.org/v3"@,
            self == BackendType::LegacyFabric ==> res@ == "https://meta.legacyfabric.net/v2"@,
            self == BackendType::OrnitheMC ==> res@ == "https://meta.ornithemc.net/v2"@,
            self == BackendType::Babric ==> res@ == "https://meta.babric.glass-launcher.net/v2"@,
    {
        match self {
            BackendType::Fabric => "https://meta.fabricmc.net/v2",
            BackendType::Quilt => "https://meta.quiltmc.org/v3",
            BackendType::LegacyFabric => "https://meta.legacyfabric.net/v2",
            BackendType::OrnitheMC => "https://meta.ornithemc.net/v2",
            BackendType::Babric => "https://meta.babric.glass-launcher.net/v2",
            BackendType::CursedLegacy => "https://meta.fabricmc.net/v2",
        }
    }

    pub fn is_quilt(self) -> (b: bool)
        ensures
            b == (self == BackendType::Quilt),
    {
        matches!(self, BackendType::Quilt)
    }

    /// The name the backend is shown under.
    pub fn label(self) -> (res: &'static str)
        ensures
            self == BackendType::Fabric ==> res@ == "Fabric"@,
            self == BackendType::Quilt ==> res@ == "Quilt"@,
            self == BackendType::LegacyFabric ==> res@ == "Fabric (Legacy)"@,
            self == BackendType::OrnitheMC ==> res@ == "Fabric (OrnitheMC)"@,
            self == BackendType::CursedLegacy ==> res@ == "Fabric (Cursed Legacy)"@,
            self == BackendType::Babric ==> res@ == "Fabric (Babric)"@,
    {
        match self {
            BackendType::Fabric => "Fabric",
            BackendType::Quilt => "Quilt",
            BackendType::LegacyFabric => "Fabric (Legacy)",
            BackendType::OrnitheMC => "Fabric (OrnitheMC)",
            BackendType::CursedLegacy => "Fabric (Cursed Legacy)",
            BackendType::Babric => "Fabric (Babric)",
        }
    }

    /// The loader name recorded in the instance: `"Quilt"` or `"Fabric"`.
    pub fn loader_name(self) -> (res: &'static str)
        ensures
            self == BackendType::Quilt ==> res@ == "Quilt"@,
            self != BackendType::Quilt ==> res@ == "Fabric"@,
    {
        if self.is_quilt() {
            "Quilt"
        } else {
            "Fabric"
        }
    }

    /// Which backend implementation an instance records: none for the two
    /// official backends, the backend's name for the others.
    pub fn backend_implementation(self) -> (res: Option<String>)
        ensures
            (self == BackendType::Fabric || self == BackendType::Quilt) ==> res is None,
            !(self == BackendType::Fabric || self == BackendType::Quilt) ==> res is Some && res->0@
                == self.label_spec(),
    {
        match self {
            BackendType::Fabric | BackendType::Quilt => None,
            _ => {
                let l = self.label();
                Some(string_of(chars_of(l).as_slice()))
            },
        }
    }

    pub open spec fn label_spec(self) -> Seq<char> {
        match self {
            BackendType::Fabric => "Fabric"@,
            BackendType::Quilt => "Quilt"@,
            BackendType::LegacyFabric => "Fabric (Legacy)"@,
            BackendType::OrnitheMC => "Fabric (OrnitheMC)"@,
            BackendType::CursedLegacy => "Fabric (Cursed Legacy)"@,
            BackendType::Babric => "Fabric (Babric)"@,
        }
    }

    pub open spec fn url_spec(self) -> Seq<char> {
        match self {
            BackendType::Fabric => "https://meta.fabricmc.net/v2"@,
            BackendType::Quilt => "https://meta.quiltmc.org/v3"@,
            BackendType::LegacyFabric => "https://meta.legacyfabric.net/v2"@,
            BackendType::OrnitheMC => "https://meta.ornithemc.net/v2"@,
            BackendType::Babric => "https://meta.babric.glass-launcher.net/v2"@,
            BackendType::CursedLegacy => arbitrary(),
        }
    }
}

/// The full URL of an API path on a backend: a `/` is put between the base
/// and the path unless the path starts with one.
pub fn backend_request_url(backend: BackendType, path: &str) -> (res: String)
    requires
        backend != BackendType::CursedLegacy,
    ensures
        res@ == backend.url_spec() + (if starts_with(path@, "/"@) { seq![] } else { "/"@ }) + path@,
{
    let mut out = chars_of(backend.get_url());
    let p = chars_of(path);
    let slash = chars_of("/");
    let starts = crate::text::starts_with_exec(p.as_slice(), slash.as_slice());
    if !starts {
        push_str_chars(&mut out, "/");
    }
    push_all(&mut out, p.as_slice());
    proof {
        if starts {
            assert(out@ =~= backend.url_spec() + seq![] + path@);
        }
    }
    string_of(out.as_slice())
}

pub type List = Vec<FabricVersionListItem>;

/// Which loader versions exist for a Minecraft version, per backend.
pub enum VersionList {
    /// Beta 1.7.3 is served by three community backends.
    Beta173 { ornithe_mc: List, babric: List, cursed_legacy: List },
    Quilt(List),
    Fabric(List),
    LegacyFabric(List),
    OrnitheMC(List),
    /// Both community backends for old versions have loaders.
    Both { legacy_fabric: List, ornithe_mc: List },
    Unsupported,
}

impl VersionList {
    /// One list and its backend: the only one, or the preferred one (Babric
    /// for Beta 1.7.3, Legacy Fabric when both old-version backends serve).
    /// An unsupported version gives an empty Fabric list.
    pub fn just_get_one(self) -> (r: (List, BackendType))
        ensures
            !(self is Unsupported) ==> r == self.default_pick(),
            self is Unsupported ==> r.0@.len() == 0 && r.1 == BackendType::Fabric,
    {
        match self {
            VersionList::Quilt(l) => (l, BackendType::Quilt),
            VersionList::Fabric(l) => (l, BackendType::Fabric),
            VersionList::LegacyFabric(l) => (l, BackendType::LegacyFabric),
            VersionList::OrnitheMC(l) => (l, BackendType::OrnitheMC),
            VersionList::Beta173 { babric, .. } => (babric, BackendType::Babric),
            VersionList::Both { legacy_fabric, .. } => (legacy_fabric, BackendType::LegacyFabric),
            VersionList::Unsupported => (Vec::new(), BackendType::Fabric),
        }
    }

    /// The list and backend picked when the user picks none.
    pub open spec fn default_pick(self) -> (List, BackendType) {
        match self {
            VersionList::Quilt(l) => (l, BackendType::Quilt),
            VersionList::Fabric(l) => (l, BackendType::Fabric),
            VersionList::LegacyFabric(l) => (l, BackendType::LegacyFabric),
            VersionList::OrnitheMC(l) => (l, BackendType::OrnitheMC),
            VersionList::Beta173 { babric, .. } => (babric, BackendType::Babric),
            VersionList::Both { legacy_fabric, .. } => (legacy_fabric, BackendType::LegacyFabric),
            VersionList::Unsupported => (arbitrary(), BackendType::Fabric),
        }
    }

    /// The backends that the user can pick from.
    pub fn get_choices(&self) -> (r: Vec<BackendType>)
        ensures
            r@ == self.choices_spec(),
    {
        match self {
            VersionList::Quilt(_) => vec![BackendType::Quilt],
            VersionList::Fabric(_) => vec![BackendType::Fabric],
            VersionList::LegacyFabric(_) => vec![BackendType::LegacyFabric],
            VersionList::OrnitheMC(_) => vec![BackendType::OrnitheMC],
            VersionList::Unsupported => vec![BackendType::Fabric],
            VersionList::Beta173 { .. } => vec![
                BackendType::OrnitheMC,
                BackendType::Babric,
                BackendType::CursedLegacy,
            ],
            VersionList::Both { .. } => vec![BackendType::LegacyFabric, BackendType::OrnitheMC],
        }
    }

    pub open spec fn choices_spec(&self) -> Seq<BackendType> {
        match self {
            VersionList::Quilt(_) => seq![BackendType::Quilt],
            VersionList::Fabric(_) => seq![BackendType::Fabric],
            VersionList::LegacyFabric(_) => seq![BackendType::LegacyFabric],
            VersionList::OrnitheMC(_) => seq![BackendType::OrnitheMC],
            VersionList::Unsupported => seq![BackendType::Fabric],
            VersionList::Beta173 { .. } => seq![
                BackendType::OrnitheMC,
                BackendType::Babric,
                BackendType::CursedLegacy,
            ],
            VersionList::Both { .. } => seq![BackendType::LegacyFabric, BackendType::OrnitheMC],
        }
    }

    /// The list of one backend, if this catalogue has one for it.
    pub fn get_specific(self, backend: BackendType) -> (r: Option<List>)
        ensures
            r == self.specific_spec(backend),
    {
        match (self, backend) {
            (VersionList::Beta173 { ornithe_mc, .. }, BackendType::OrnitheMC) => Some(ornithe_mc),
            (VersionList::Beta173 { cursed_legacy, .. }, BackendType::CursedLegacy) => Some(cursed_legacy),
            (VersionList::Beta173 { babric, .. }, BackendType::Babric) => Some(babric),
            (VersionList::Both { legacy_fabric, .. }, BackendType::LegacyFabric) => Some(legacy_fabric),
            (VersionList::Both { ornithe_mc, .. }, BackendType::OrnitheMC) => Some(ornithe_mc),
            (VersionList::Fabric(l), BackendType::Fabric) => Some(l),
            (VersionList::LegacyFabric(l), BackendType::LegacyFabric) => Some(l),
            (VersionList::OrnitheMC(l), BackendType::OrnitheMC) => Some(l),
            (VersionList::Quilt(l), BackendType::Quilt) => Some(l),
            _ => None,
        }
    }

    pub open spec fn specific_spec(self, backend: BackendType) -> Option<List> {
        match (self, backend) {
            (VersionList::Beta173 { ornithe_mc, .. }, BackendType::OrnitheMC) => Some(ornithe_mc),
            (VersionList::Beta173 { cursed_legacy, .. }, BackendType::CursedLegacy) => Some(cursed_legacy),
            (VersionList::Beta173 { babric, .. }, BackendType::Babric) => Some(babric),
            (VersionList::Both { legacy_fabric, .. }, BackendType::LegacyFabric) => Some(legacy_fabric),
            (VersionList::Both { ornithe_mc, .. }, BackendType::OrnitheMC) => Some(ornithe_mc),
            (VersionList::Fabric(l), BackendType::Fabric) => Some(l),
            (VersionList::LegacyFabric(l), BackendType::LegacyFabric) => Some(l),
            (VersionList::OrnitheMC(l), BackendType::OrnitheMC) => Some(l),
            (VersionList::Quilt(l), BackendType::Quilt) => Some(l),
            _ => None,
        }
    }

    /// Whether no backend has a loader for the version.
    pub fn is_unsupported(&self) -> (b: bool)
        ensures
            b == match self {
                VersionList::Quilt(l) => l@.len() == 0,
                VersionList::Fabric(l) => l@.len() == 0,
                VersionList::LegacyFabric(l) => l@.len() == 0,
                VersionList::OrnitheMC(l) => l@.len() == 0,
                VersionList::Beta173 { ornithe_mc, babric, cursed_legacy } => ornithe_mc@.len() == 0
                    && babric@.len() == 0 && cursed_legacy@.len() == 0,
                VersionList::Both { legacy_fabric, ornithe_mc } => legacy_fabric@.len() == 0
                    && ornithe_mc@.len() == 0,
                VersionList::Unsupported => true,
            },
    {
        match self {
            VersionList::Quilt(l) | VersionList::Fabric(l) | VersionList::LegacyFabric(l)
            | VersionList::OrnitheMC(l) => l.len() == 0,
            VersionList::Beta173 { ornithe_mc, babric, cursed_legacy } => ornithe_mc.len() == 0
                && babric.len() == 0 && cursed_legacy.len() == 0,
            VersionList::Both { legacy_fabric, ornithe_mc } => legacy_fabric.len() == 0
                && ornithe_mc.len() == 0,
            VersionList::Unsupported => true,
        }
    }

    /// The catalogue for a version that the official backend does not
    /// serve, from what the two old-version backends offer.
    pub fn from_old_version_lists(legacy_fabric: List, ornithe_mc: List) -> (r: VersionList)
        ensures
            legacy_fabric@.len() == 0 && ornithe_mc@.len() == 0 ==> r is Unsupported,
            legacy_fabric@.len() == 0 && ornithe_mc@.len() != 0 ==> r == VersionList::OrnitheMC(ornithe_mc),
            legacy_fabric@.len() != 0 && ornithe_mc@.len() == 0 ==> r == VersionList::LegacyFabric(legacy_fabric),
            legacy_fabric@.len() != 0 && ornithe_mc@.len() != 0 ==> r == (VersionList::Both { legacy_fabric, ornithe_mc }),
    {
        let a = legacy_fabric.len() == 0;
        let b = ornithe_mc.len() == 0;
        if a && b {
            VersionList::Unsupported
        } else if a {
            VersionList::OrnitheMC(ornithe_mc)
        } else if b {
            VersionList::LegacyFabric(legacy_fabric)
        } else {
            VersionList::Both { legacy_fabric, ornithe_mc }
        }
    }
}

/// The list picked by default is the one that picking its backend gives,
/// and that backend is among the choices offered; for an unsupported
/// version the one choice, Fabric, has no list.
pub proof fn lemma_default_pick_is_a_choice(v: VersionList)
    ensures
        !(v is Unsupported) ==> v.specific_spec(v.default_pick().1) == Some(v.default_pick().0),
        v.choices_spec().contains(v.default_pick().1),
        v is Unsupported ==> v.specific_spec(BackendType::Fabric) is None,
{
    let c = v.choices_spec();
    let b = v.default_pick().1;
    match v {
        VersionList::Beta173 { .. } => assert(c[1] == b),
        VersionList::Both { .. } => assert(c[0] == b),
        _ => assert(c[0] == b),
    }
}

/// The first seven characters of a commit hash (all of it when shorter).
pub fn first_seven_chars(input: &str) -> (res: String)
    ensures
        res@ == input@.take(if input@.len() < 7 { input@.len() as int } else { 7 }),
{
    let v = chars_of(input);
    let end = if v.len() < 7 { v.len() } else { 7 };
    string_of(&v.as_slice()[0..end])
}

/// The short form of the newest commit, or a fixed known commit when the
/// list is empty.
pub fn latest_commit_short(shas: &[String]) -> (res: String)
    ensures
        shas@.len() > 0 ==> res@ == shas@[0]@.take(if shas@[0]@.len() < 7 { shas@[0]@.len() as int } else { 7 }),
        shas@.len() == 0 ==> res@ == "5e8a1e8"@,
{
    if shas.len() > 0 {
        first_seven_chars(shas[0].as_str())
    } else {
        string_of(chars_of("5e8a1e8").as_slice())
    }
}


/// The loader versions of a list, in order.
pub open spec fn list_view(l: List) -> Seq<Seq<char>> {
    l@.map_values(|i: FabricVersionListItem| i.loader.version@)
}

/// A catalogue as plain values: which kind it is (0 Beta 1.7.3 with the
/// OrnitheMC, Babric and Cursed Legacy lists; 1 Quilt; 2 Fabric; 3 Legacy
/// Fabric; 4 OrnitheMC; 5 both old-version backends, Legacy Fabric first;
/// 6 unsupported) and its lists.
pub open spec fn catalogue_view(v: VersionList) -> (u8, Seq<Seq<Seq<char>>>) {
    match v {
        VersionList::Beta173 { ornithe_mc, babric, cursed_legacy } => (0u8, seq![list_view(ornithe_mc), list_view(babric), list_view(cursed_legacy)]),
        VersionList::Quilt(l) => (1u8, seq![list_view(l)]),
        VersionList::Fabric(l) => (2u8, seq![list_view(l)]),
        VersionList::LegacyFabric(l) => (3u8, seq![list_view(l)]),
        VersionList::OrnitheMC(l) => (4u8, seq![list_view(l)]),
        VersionList::Both { legacy_fabric, ornithe_mc } => (5u8, seq![list_view(legacy_fabric), list_view(ornithe_mc)]),
        VersionList::Unsupported => (6u8, seq![]),
    }
}

/// The catalogue of a version that the official backend does not serve.
pub open spec fn classified(legacy: Seq<Seq<char>>, ornithe: Seq<Seq<char>>) -> (u8, Seq<Seq<Seq<char>>>) {
    if legacy.len() == 0 && ornithe.len() == 0 {
        (6u8, seq![])
    } else if legacy.len() == 0 {
        (4u8, seq![ornithe])
    } else if ornithe.len() == 0 {
        (3u8, seq![legacy])
    } else {
        (5u8, seq![legacy, ornithe])
    }
}

/// A backend's answer to one request: a list of loader versions or an
/// error (see [`crate::request::json_error_view`]).
pub type Reply = Result<Seq<Seq<char>>, (u8, u16, Seq<char>)>;

/// What looking up the catalogue comes to.
pub type Outcome = Result<(u8, Seq<Seq<Seq<char>>>), (u8, u16, Seq<char>)>;

pub open spec fn official_url(b: BackendType, version: Seq<char>) -> Seq<char> {
    b.url_spec() + "/versions/loader/"@ + version
}

pub open spec fn ornithe_url(version: Seq<char>) -> Seq<char> {
    "https://meta.ornithemc.net/v3/versions/fabric-loader/"@ + version
}

pub open spec fn ornithe_side_url(version: Seq<char>, is_server: bool) -> Seq<char> {
    ornithe_url(version) + "-"@ + (if is_server { "server"@ } else { "client"@ })
}

/// What a backend offers for a version when every address is answered as
/// `srv` answers it. Cursed Legacy always offers Beta 1.7.3; OrnitheMC is
/// asked again for the game side when its general list is empty, and a
/// failure of that second question leaves the empty list.
pub open spec fn offered(srv: spec_fn(Seq<char>) -> Reply, b: BackendType, version: Seq<char>, is_server: bool) -> Reply {
    if b == BackendType::CursedLegacy {
        Ok(seq!["b1.7.3"@])
    } else if b == BackendType::OrnitheMC {
        match srv(ornithe_url(version)) {
            Err(e) => Err(e),
            Ok(l) => if l.len() == 0 {
                match srv(ornithe_side_url(version, is_server)) {
                    Ok(l2) => Ok(l2),
                    Err(_) => Ok(l),
                }
            } else {
                Ok(l)
            },
        }
    } else {
        srv(official_url(b, version))
    }
}

/// One look-up of the catalogue: Quilt when asked for; else the official
/// Fabric list when it is not empty, the three community backends for
/// Beta 1.7.3, or the two old-version backends. The first failure ends it.
pub open spec fn one_attempt(srv: spec_fn(Seq<char>) -> Reply, version: Seq<char>, is_quilt: bool, is_server: bool) -> Outcome {
    if is_quilt {
        match offered(srv, BackendType::Quilt, version, is_server) {
            Ok(l) => Ok((1u8, seq![l])),
            Err(e) => Err(e),
        }
    } else {
        match offered(srv, BackendType::Fabric, version, is_server) {
            Err(e) => Err(e),
            Ok(f) => if f.len() > 0 {
                Ok((2u8, seq![f]))
            } else if version == "b1.7.3"@ {
                match offered(srv, BackendType::OrnitheMC, version, is_server) {
                    Err(e) => Err(e),
                    Ok(o) => match offered(srv, BackendType::Babric, version, is_server) {
                        Err(e) => Err(e),
                        Ok(b) => Ok((0u8, seq![o, b, seq!["b1.7.3"@]])),
                    },
                }
            } else {
                match offered(srv, BackendType::LegacyFabric, version, is_server) {
                    Err(e) => Err(e),
                    Ok(l) => match offered(srv, BackendType::OrnitheMC, version, is_server) {
                        Err(e) => Err(e),
                        Ok(o) => Ok(classified(l, o)),
                    },
                }
            },
        }
    }
}

/// The catalogue looked up from servers that answer every address the same
/// way each time: the look-up's result, except that a `404 Not Found`
/// means the version has no loaders (an empty Quilt or Fabric list).
pub open spec fn fetch_outcome(srv: spec_fn(Seq<char>) -> Reply, version: Seq<char>, is_quilt: bool, is_server: bool) -> Outcome {
    match one_attempt(srv, version, is_quilt, is_server) {
        Ok(v) => Ok(v),
        Err(e) => if is_not_found_view(e) {
            Ok((if is_quilt { 1u8 } else { 2u8 }, seq![seq![]]))
        } else {
            Err(e)
        },
    }
}

/// Where a look-up stands: the attempt (0 the first, up to 5 retries), the
/// question being asked, and the lists had so far (Legacy Fabric,
/// OrnitheMC, and OrnitheMC's general list while its side list is asked).
pub type Progress = (nat, nat, Seq<Seq<char>>, Seq<Seq<char>>, Seq<Seq<char>>);

pub open spec fn first_stage(is_quilt: bool) -> nat {
    if is_quilt { 0 } else { 1 }
}

pub open spec fn attempt_start(a: nat, is_quilt: bool) -> Progress {
    (a, first_stage(is_quilt), seq![], seq![], seq![])
}

/// The address asked at each question.
pub open spec fn stage_url(version: Seq<char>, is_server: bool, stage: nat) -> Seq<char> {
    if stage == 0 {
        official_url(BackendType::Quilt, version)
    } else if stage == 1 {
        official_url(BackendType::Fabric, version)
    } else if stage == 2 || stage == 6 {
        ornithe_url(version)
    } else if stage == 3 || stage == 7 {
        ornithe_side_url(version, is_server)
    } else if stage == 4 {
        official_url(BackendType::Babric, version)
    } else {
        official_url(BackendType::LegacyFabric, version)
    }
}

/// What follows a failed question: a retry (the first attempt's failure
/// is always retried), the empty catalogue for a `404 Not Found`, or the
/// error once the retries are spent.
pub open spec fn after_failure(a: nat, e: (u8, u16, Seq<char>), is_quilt: bool) -> (bool, Progress, Outcome) {
    if a == 0 {
        (false, attempt_start(1, is_quilt), Err(e))
    } else if is_not_found_view(e) {
        (true, attempt_start(a, is_quilt), Ok((if is_quilt { 1u8 } else { 2u8 }, seq![seq![]])))
    } else if a >= 5 {
        (true, attempt_start(a, is_quilt), Err(e))
    } else {
        (false, attempt_start(a + 1, is_quilt), Err(e))
    }
}

/// One step of the look-up: given where it stands and the answer to the
/// question asked, whether it is finished, where it stands next, and (when
/// finished) its result.
pub open spec fn advance(version: Seq<char>, is_quilt: bool, m: Progress, r: Reply) -> (bool, Progress, Outcome) {
    let (a, stage, legacy, ornithe, first) = m;
    match r {
        Err(e) => if stage == 3 {
            (false, (a, 4, legacy, first, first), Err(e))
        } else if stage == 7 {
            (true, m, Ok(classified(legacy, first)))
        } else {
            after_failure(a, e, is_quilt)
        },
        Ok(l) => if stage == 0 {
            (true, m, Ok((1u8, seq![l])))
        } else if stage == 1 {
            if l.len() > 0 {
                (true, m, Ok((2u8, seq![l])))
            } else if version == "b1.7.3"@ {
                (false, (a, 2, legacy, ornithe, first), Ok((6u8, seq![])))
            } else {
                (false, (a, 5, legacy, ornithe, first), Ok((6u8, seq![])))
            }
        } else if stage == 2 {
            if l.len() == 0 {
                (false, (a, 3, legacy, ornithe, l), Ok((6u8, seq![])))
            } else {
                (false, (a, 4, legacy, l, first), Ok((6u8, seq![])))
            }
        } else if stage == 3 {
            (false, (a, 4, legacy, l, first), Ok((6u8, seq![])))
        } else if stage == 4 {
            (true, m, Ok((0u8, seq![ornithe, l, seq!["b1.7.3"@]])))
        } else if stage == 5 {
            (false, (a, 6, l, ornithe, first), Ok((6u8, seq![])))
        } else if stage == 6 {
            if l.len() == 0 {
                (false, (a, 7, legacy, ornithe, l), Ok((6u8, seq![])))
            } else {
                (true, m, Ok(classified(legacy, l)))
            }
        } else {
            (true, m, Ok(classified(legacy, l)))
        },
    }
}

pub open spec fn progress_ok(m: Progress) -> bool {
    m.0 <= 5 && m.1 <= 7
}

pub open spec fn progress_measure(m: Progress) -> nat {
    ((6 - m.0) * 10 + (10 - m.1)) as nat
}

/// The look-up carried through to its end, every question answered as
/// `srv` answers it.
pub open spec fn run(srv: spec_fn(Seq<char>) -> Reply, version: Seq<char>, is_quilt: bool, is_server: bool, m: Progress) -> Outcome
    decreases progress_measure(m),
    when progress_ok(m)
{
    let (done, next, out) = advance(version, is_quilt, m, srv(stage_url(version, is_server, m.1)));
    if done {
        out
    } else {
        run(srv, version, is_quilt, is_server, next)
    }
}


/// What one attempt leads to: its catalogue, or what follows its failure.
pub open spec fn attempt_then(srv: spec_fn(Seq<char>) -> Reply, version: Seq<char>, is_quilt: bool, is_server: bool, a: nat) -> Outcome {
    match one_attempt(srv, version, is_quilt, is_server) {
        Ok(v) => Ok(v),
        Err(e) => {
            let (done, next, out) = after_failure(a, e, is_quilt);
            if done {
                out
            } else {
                run(srv, version, is_quilt, is_server, next)
            }
        },
    }
}

proof fn lemma_ornithe_then_babric(srv: spec_fn(Seq<char>) -> Reply, version: Seq<char>, is_server: bool, a: nat)
    requires
        a <= 5,
        version == "b1.7.3"@,
    ensures
        run(srv, version, false, is_server, (a, 2, seq![], seq![], seq![])) == match offered(srv, BackendType::OrnitheMC, version, is_server) {
            Err(e) => {
                let (done, next, out) = after_failure(a, e, false);
                if done { out } else { run(srv, version, false, is_server, next) }
            },
            Ok(o) => match offered(srv, BackendType::Babric, version, is_server) {
                Err(e) => {
                    let (done, next, out) = after_failure(a, e, false);
                    if done { out } else { run(srv, version, false, is_server, next) }
                },
                Ok(b) => Ok((0u8, seq![o, b, seq!["b1.7.3"@]])),
            },
        },
{
    let m2: Progress = (a, 2, seq![], seq![], seq![]);
    let empty: Seq<Seq<char>> = seq![];
    match srv(ornithe_url(version)) {
        Err(e) => {},
        Ok(o) => {
            let m4: Progress = if o.len() == 0 {
                let m3: Progress = (a, 3, seq![], seq![], o);
                assert(run(srv, version, false, is_server, m2) == run(srv, version, false, is_server, m3));
                match srv(ornithe_side_url(version, is_server)) {
                    Ok(o2) => {
                        let m4: Progress = (a, 4, empty, o2, o);
                        assert(run(srv, version, false, is_server, m3) == run(srv, version, false, is_server, m4));
                        m4
                    },
                    Err(_) => {
                        let m4: Progress = (a, 4, empty, o, o);
                        assert(run(srv, version, false, is_server, m3) == run(srv, version, false, is_server, m4));
                        m4
                    },
                }
            } else {
                let m4: Progress = (a, 4, empty, o, empty);
                assert(run(srv, version, false, is_server, m2) == run(srv, version, false, is_server, m4));
                m4
            };
            assert(m4.3 == offered(srv, BackendType::OrnitheMC, version, is_server)->Ok_0);
            assert(run(srv, version, false, is_server, m2) == run(srv, version, false, is_server, m4));
            assert(stage_url(version, is_server, 4) == official_url(BackendType::Babric, version));
        },
    }
}

proof fn lemma_legacy_then_ornithe(srv: spec_fn(Seq<char>) -> Reply, version: Seq<char>, is_server: bool, a: nat)
    requires
        a <= 5,
    ensures
        run(srv, version, false, is_server, (a, 5, seq![], seq![], seq![])) == match offered(srv, BackendType::LegacyFabric, version, is_server) {
            Err(e) => {
                let (done, next, out) = after_failure(a, e, false);
                if done { out } else { run(srv, version, false, is_server, next) }
            },
            Ok(l) => match offered(srv, BackendType::OrnitheMC, version, is_server) {
                Err(e) => {
                    let (done, next, out) = after_failure(a, e, false);
                    if done { out } else { run(srv, version, false, is_server, next) }
                },
                Ok(o) => Ok(classified(l, o)),
            },
        },
{
    let m5: Progress = (a, 5, seq![], seq![], seq![]);
    let empty: Seq<Seq<char>> = seq![];
    assert(stage_url(version, is_server, 5) == official_url(BackendType::LegacyFabric, version));
    match srv(official_url(BackendType::LegacyFabric, version)) {
        Err(e) => {},
        Ok(l) => {
            let m6: Progress = (a, 6, l, empty, empty);
            assert(run(srv, version, false, is_server, m5) == run(srv, version, false, is_server, m6));
            match srv(ornithe_url(version)) {
                Err(e) => {},
                Ok(o) => {
                    if o.len() == 0 {
                        let m7: Progress = (a, 7, l, empty, o);
                        assert(run(srv, version, false, is_server, m6) == run(srv, version, false, is_server, m7));
                    }
                },
            }
        },
    }
}

proof fn lemma_attempt(srv: spec_fn(Seq<char>) -> Reply, version: Seq<char>, is_quilt: bool, is_server: bool, a: nat)
    requires
        a <= 5,
    ensures
        run(srv, version, is_quilt, is_server, attempt_start(a, is_quilt)) == attempt_then(srv, version, is_quilt, is_server, a),
{
    let m0 = attempt_start(a, is_quilt);
    if is_quilt {
        assert(stage_url(version, is_server, 0) == official_url(BackendType::Quilt, version));
    } else {
        assert(stage_url(version, is_server, 1) == official_url(BackendType::Fabric, version));
        match srv(official_url(BackendType::Fabric, version)) {
            Err(e) => {},
            Ok(f) => {
                if f.len() == 0 {
                    if version == "b1.7.3"@ {
                        assert(run(srv, version, false, is_server, m0) == run(srv, version, false, is_server, (a, 2, seq![], seq![], seq![])));
                        lemma_ornithe_then_babric(srv, version, is_server, a);
                    } else {
                        assert(run(srv, version, false, is_server, m0) == run(srv, version, false, is_server, (a, 5, seq![], seq![], seq![])));
                        lemma_legacy_then_ornithe(srv, version, is_server, a);
                    }
                }
            },
        }
    }
}

proof fn lemma_retries(srv: spec_fn(Seq<char>) -> Reply, version: Seq<char>, is_quilt: bool, is_server: bool, a: nat)
    requires
        1 <= a <= 5,
    ensures
        run(srv, version, is_quilt, is_server, attempt_start(a, is_quilt)) == fetch_outcome(srv, version, is_quilt, is_server),
    decreases 5 - a,
{
    lemma_attempt(srv, version, is_quilt, is_server, a);
    if a < 5 {
        lemma_retries(srv, version, is_quilt, is_server, a + 1);
    }
}

/// A look-up whose questions are all answered the way `srv` answers them
/// ends with what the backends offer: the catalogue of the first attempt
/// when it succeeds, an empty list when the version is not found (a `404`
/// answer), and otherwise the error, after the retries.
pub proof fn lemma_fetch_outcome(srv: spec_fn(Seq<char>) -> Reply, version: Seq<char>, is_quilt: bool, is_server: bool)
    ensures
        run(srv, version, is_quilt, is_server, attempt_start(0, is_quilt)) == fetch_outcome(srv, version, is_quilt, is_server),
{
    lemma_attempt(srv, version, is_quilt, is_server, 0);
    lemma_retries(srv, version, is_quilt, is_server, 1);
}


/// Picking a backend's list gives what that backend offered: for every
/// catalogue that a look-up comes to (other than "unsupported", which has
/// no lists) and every backend it lets the user choose, the list picked
/// for that backend is the list the backend answered for the version.
pub proof fn lemma_specific_is_offered(
    srv: spec_fn(Seq<char>) -> Reply,
    version: Seq<char>,
    is_quilt: bool,
    is_server: bool,
    v: VersionList,
    b: BackendType,
)
    requires
        one_attempt(srv, version, is_quilt, is_server) == Ok::<(u8, Seq<Seq<Seq<char>>>), (u8, u16, Seq<char>)>(catalogue_view(v)),
        v.choices_spec().contains(b),
        !(v is Unsupported),
    ensures
        v.specific_spec(b) is Some,
        offered(srv, b, version, is_server) is Ok,
        offered(srv, b, version, is_server)->Ok_0 == list_view(v.specific_spec(b)->0),
{
    let c = v.choices_spec();
    let i = choose|i: int| 0 <= i < c.len() && c[i] == b;
    match v {
        VersionList::Beta173 { ornithe_mc, babric, cursed_legacy } => {
            assert(i == 0 || i == 1 || i == 2);
            let cv = catalogue_view(v).1;
            assert(cv[0] == list_view(ornithe_mc) && cv[1] == list_view(babric) && cv[2] == list_view(cursed_legacy));
            assert(version == "b1.7.3"@);
            let o = offered(srv, BackendType::OrnitheMC, version, is_server);
            let bb = offered(srv, BackendType::Babric, version, is_server);
            assert(o is Ok && bb is Ok);
            let want: Seq<Seq<Seq<char>>> = seq![o->Ok_0, bb->Ok_0, seq!["b1.7.3"@]];
            assert(cv == want);
            assert(cv[0] == want[0] && cv[1] == want[1] && cv[2] == want[2]);
            if i == 0 {
                assert(b == BackendType::OrnitheMC);
                assert(o == Ok::<Seq<Seq<char>>, (u8, u16, Seq<char>)>(list_view(ornithe_mc)));
            } else if i == 1 {
                assert(b == BackendType::Babric);
                assert(bb == Ok::<Seq<Seq<char>>, (u8, u16, Seq<char>)>(list_view(babric)));
            } else {
                assert(b == BackendType::CursedLegacy);
            }
        },
        VersionList::Both { legacy_fabric, ornithe_mc } => {
            assert(i == 0 || i == 1);
            let cv = catalogue_view(v).1;
            assert(cv[0] == list_view(legacy_fabric) && cv[1] == list_view(ornithe_mc));
            let l = offered(srv, BackendType::LegacyFabric, version, is_server);
            let o = offered(srv, BackendType::OrnitheMC, version, is_server);
            assert(l is Ok && o is Ok);
            let want = classified(l->Ok_0, o->Ok_0).1;
            assert(cv == want);
            assert(cv[0] == want[0] && cv[1] == want[1]);
        },
        VersionList::LegacyFabric(lf) => {
            assert(i == 0);
            let cv = catalogue_view(v).1;
            let l = offered(srv, BackendType::LegacyFabric, version, is_server);
            let o = offered(srv, BackendType::OrnitheMC, version, is_server);
            assert(l is Ok && o is Ok);
            let want = classified(l->Ok_0, o->Ok_0).1;
            assert(cv == want);
            assert(cv[0] == want[0] && cv[0] == list_view(lf));
        },
        VersionList::OrnitheMC(om) => {
            assert(i == 0);
            let cv = catalogue_view(v).1;
            let l = offered(srv, BackendType::LegacyFabric, version, is_server);
            let o = offered(srv, BackendType::OrnitheMC, version, is_server);
            assert(l is Ok && o is Ok);
            let want = classified(l->Ok_0, o->Ok_0).1;
            assert(cv == want);
            assert(cv[0] == want[0] && cv[0] == list_view(om));
        },
        VersionList::Fabric(f) => {
            assert(i == 0);
            let cv = catalogue_view(v).1;
            let r = offered(srv, BackendType::Fabric, version, is_server);
            assert(r is Ok);
            let want: Seq<Seq<Seq<char>>> = seq![r->Ok_0];
            assert(cv == want);
            assert(cv[0] == want[0] && cv[0] == list_view(f));
        },
        VersionList::Quilt(q) => {
            assert(i == 0);
            let cv = catalogue_view(v).1;
            let r = offered(srv, BackendType::Quilt, version, is_server);
            assert(r is Ok);
            let want: Seq<Seq<Seq<char>>> = seq![r->Ok_0];
            assert(cv == want);
            assert(cv[0] == want[0] && cv[0] == list_view(q));
        },
        VersionList::Unsupported => {},
    }
}

/// The address asked at a question of the look-up.
fn stage_url_exec(version: &str, is_server: bool, stage: u8) -> (r: String)
    requires
        stage <= 7,
    ensures
        r@ == stage_url(version@, is_server, stage as nat),
{
    if stage == 0 || stage == 1 || stage == 4 || stage == 5 {
        let backend = if stage == 0 {
            BackendType::Quilt
        } else if stage == 1 {
            BackendType::Fabric
        } else if stage == 4 {
            BackendType::Babric
        } else {
            BackendType::LegacyFabric
        };
        let mut path = chars_of("/versions/loader/");
        push_str_chars(&mut path, version);
        let p = string_of(path.as_slice());
        proof {
            reveal_strlit("/versions/loader/");
            reveal_strlit("/");
            assert(p@[0] == '/');
            assert(p@.subrange(0, 1) =~= "/"@);
            assert(starts_with(p@, "/"@));
        }
        let r = backend_request_url(backend, p.as_str());
        assert(r@ =~= official_url(backend, version@));
        r
    } else {
        let mut out = chars_of("https://meta.ornithemc.net/v3/versions/fabric-loader/");
        push_str_chars(&mut out, version);
        if stage == 3 || stage == 7 {
            push_str_chars(&mut out, "-");
            if is_server {
                push_str_chars(&mut out, "server");
            } else {
                push_str_chars(&mut out, "client");
            }
        }
        let r = string_of(out.as_slice());
        assert(r@ =~= stage_url(version@, is_server, stage as nat));
        r
    }
}

/// The next thing a look-up of the loader catalogue needs: an address to
/// fetch (a JSON list of loader versions), or its result.
pub enum FetchStep {
    Get(String),
    Finished(Result<VersionList, JsonDownloadError>),
}

pub open spec fn reply_view(r: Result<List, JsonDownloadError>) -> Reply {
    match r {
        Ok(l) => Ok(list_view(l)),
        Err(e) => Err(json_error_view(e)),
    }
}

pub open spec fn outcome_view(r: Result<VersionList, JsonDownloadError>) -> Outcome {
    match r {
        Ok(v) => Ok(catalogue_view(v)),
        Err(e) => Err(json_error_view(e)),
    }
}

/// A look-up of the loaders that the Fabric-like backends offer for one
/// Minecraft version. The caller fetches each address it asks for and
/// hands back the answer; failures are retried up to five times.
pub struct VersionListFetch {
    version: String,
    is_quilt: bool,
    is_server: bool,
    attempt: u8,
    stage: u8,
    legacy: List,
    ornithe: List,
    first: List,
}

impl VersionListFetch {
    /// The Minecraft version looked up.
    pub closed spec fn version(&self) -> Seq<char> {
        self.version@
    }

    pub closed spec fn quilt(&self) -> bool {
        self.is_quilt
    }

    pub closed spec fn server(&self) -> bool {
        self.is_server
    }

    /// Where the look-up stands.
    pub closed spec fn progress(&self) -> Progress {
        (self.attempt as nat, self.stage as nat, list_view(self.legacy), list_view(self.ornithe), list_view(self.first))
    }

    pub closed spec fn wf(&self) -> bool {
        self.attempt <= 5 && self.stage <= 7
    }

    /// Starts a look-up, and gives the first address to fetch.
    pub fn start(version: String, is_quilt: bool, is_server: bool) -> (r: (VersionListFetch, String))
        ensures
            r.0.wf(),
            r.0.version() == version@,
            r.0.quilt() == is_quilt,
            r.0.server() == is_server,
            r.0.progress() == attempt_start(0, is_quilt),
            r.1@ == stage_url(version@, is_server, first_stage(is_quilt)),
    {
        let stage: u8 = if is_quilt { 0 } else { 1 };
        let url = stage_url_exec(version.as_str(), is_server, stage);
        let f = VersionListFetch {
            version,
            is_quilt,
            is_server,
            attempt: 0,
            stage,
            legacy: Vec::new(),
            ornithe: Vec::new(),
            first: Vec::new(),
        };
        assert(f.progress() =~= attempt_start(0, is_quilt));
        (f, url)
    }

    fn restart(&mut self, attempt: u8) -> (url: String)
        requires
            attempt <= 5,
        ensures
            final(self).version == old(self).version,
            final(self).is_quilt == old(self).is_quilt,
            final(self).is_server == old(self).is_server,
            final(self).wf(),
            final(self).progress() == attempt_start(attempt as nat, old(self).is_quilt),
            url@ == stage_url(old(self).version@, old(self).is_server, first_stage(old(self).is_quilt)),
    {
        self.attempt = attempt;
        self.stage = if self.is_quilt { 0 } else { 1 };
        self.legacy = Vec::new();
        self.ornithe = Vec::new();
        self.first = Vec::new();
        assert(self.progress() =~= attempt_start(attempt as nat, self.is_quilt));
        stage_url_exec(self.version.as_str(), self.is_server, self.stage)
    }

    fn go_to(&mut self, stage: u8) -> (url: String)
        requires
            stage <= 7,
        ensures
            *final(self) == (VersionListFetch { stage, ..*old(self) }),
            url@ == stage_url(old(self).version@, old(self).is_server, stage as nat),
    {
        self.stage = stage;
        stage_url_exec(self.version.as_str(), self.is_server, stage)
    }

    /// Takes the answer to the last address asked for, and says what comes
    /// next (see [`advance`]).
    pub fn on_reply(&mut self, reply: Result<List, JsonDownloadError>) -> (step: FetchStep)
        requires
            old(self).wf(),
        ensures
            final(self).wf(),
            final(self).version() == old(self).version(),
            final(self).quilt() == old(self).quilt(),
            final(self).server() == old(self).server(),
            ({
                let (done, next, out) = advance(old(self).version(), old(self).quilt(), old(self).progress(), reply_view(reply));
                match step {
                    FetchStep::Finished(r) => done && outcome_view(r) == out,
                    FetchStep::Get(u) => !done && final(self).progress() == next
                        && u@ == stage_url(old(self).version(), old(self).server(), next.1),
                }
            }),
    {
        let ghost m = self.progress();
        let ghost rv = reply_view(reply);
        match reply {
            Err(e) => {
                if self.stage == 3 {
                    let mut first: List = Vec::new();
                    std::mem::swap(&mut first, &mut self.first);
                    let ghost fv = list_view(first);
                    let copy = clone_list(&first);
                    self.ornithe = copy;
                    self.first = first;
                    let u = self.go_to(4);
                    assert(self.progress() =~= (m.0, 4nat, m.2, fv, fv));
                    FetchStep::Get(u)
                } else if self.stage == 7 {
                    let mut legacy: List = Vec::new();
                    std::mem::swap(&mut legacy, &mut self.legacy);
                    let mut first: List = Vec::new();
                    std::mem::swap(&mut first, &mut self.first);
                    FetchStep::Finished(Ok(VersionList::from_old_version_lists(legacy, first)))
                } else {
                    let not_found = e.is_not_found();
                    if self.attempt == 0 {
                        FetchStep::Get(self.restart(1))
                    } else if not_found {
                        let empty: List = Vec::new();
                        assert(list_view(empty) =~= seq![]);
                        if self.is_quilt {
                            FetchStep::Finished(Ok(VersionList::Quilt(empty)))
                        } else {
                            FetchStep::Finished(Ok(VersionList::Fabric(empty)))
                        }
                    } else if self.attempt >= 5 {
                        FetchStep::Finished(Err(e))
                    } else {
                        let next = self.attempt + 1;
                        FetchStep::Get(self.restart(next))
                    }
                }
            },
            Ok(l) => {
                let ghost lv = list_view(l);
                if self.stage == 0 {
                    FetchStep::Finished(Ok(VersionList::Quilt(l)))
                } else if self.stage == 1 {
                    if l.len() > 0 {
                        FetchStep::Finished(Ok(VersionList::Fabric(l)))
                    } else if crate::text::str_eq(self.version.as_str(), "b1.7.3") {
                        FetchStep::Get(self.go_to(2))
                    } else {
                        FetchStep::Get(self.go_to(5))
                    }
                } else if self.stage == 2 {
                    if l.len() == 0 {
                        self.first = l;
                        let u = self.go_to(3);
                        assert(self.progress() =~= (m.0, 3nat, m.2, m.3, lv));
                        FetchStep::Get(u)
                    } else {
                        self.ornithe = l;
                        let u = self.go_to(4);
                        assert(self.progress() =~= (m.0, 4nat, m.2, lv, m.4));
                        FetchStep::Get(u)
                    }
                } else if self.stage == 3 {
                    self.ornithe = l;
                    let u = self.go_to(4);
                    assert(self.progress() =~= (m.0, 4nat, m.2, lv, m.4));
                    FetchStep::Get(u)
                } else if self.stage == 4 {
                    let mut ornithe: List = Vec::new();
                    std::mem::swap(&mut ornithe, &mut self.ornithe);
                    let cursed = vec![FabricVersionListItem { loader: FabricVersion { version: "b1.7.3".to_owned() } }];
                    assert(list_view(cursed) =~= seq!["b1.7.3"@]);
                    FetchStep::Finished(Ok(VersionList::Beta173 { ornithe_mc: ornithe, babric: l, cursed_legacy: cursed }))
                } else if self.stage == 5 {
                    self.legacy = l;
                    let u = self.go_to(6);
                    assert(self.progress() =~= (m.0, 6nat, lv, m.3, m.4));
                    FetchStep::Get(u)
                } else if self.stage == 6 {
                    if l.len() == 0 {
                        self.first = l;
                        let u = self.go_to(7);
                        assert(self.progress() =~= (m.0, 7nat, m.2, m.3, lv));
                        FetchStep::Get(u)
                    } else {
                        let mut legacy: List = Vec::new();
                        std::mem::swap(&mut legacy, &mut self.legacy);
                        FetchStep::Finished(Ok(VersionList::from_old_version_lists(legacy, l)))
                    }
                } else {
                    let mut legacy: List = Vec::new();
                    std::mem::swap(&mut legacy, &mut self.legacy);
                    FetchStep::Finished(Ok(VersionList::from_old_version_lists(legacy, l)))
                }
            },
        }
    }
}

/// A copy of a list of loader versions.
fn clone_list(l: &List) -> (r: List)
    ensures
        list_view(r) == list_view(*l),
{
    let mut out: List = Vec::new();
    let mut i: usize = 0;
    while i < l.len()
        invariant
            i <= l@.len(),
            list_view(out) == list_view(*l).take(i as int),
        decreases l@.len() - i,
    {
        let ghost prev = out@;
        let item = FabricVersionListItem { loader: FabricVersion { version: l[i].loader.version.clone() } };
        let ghost it = item;
        out.push(item);
        proof {
            crate::mods::lemma_map_push(prev, it, |i: FabricVersionListItem| i.loader.version@);
        }
        assert(list_view(out) =~= list_view(*l).take(i + 1));
        i = i + 1;
    }
    assert(list_view(*l).take(l@.len() as int) =~= list_view(*l));
    out
}

} // verus!
