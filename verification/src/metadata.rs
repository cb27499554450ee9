//! Build metadata, and the comparison that decides what must be rebuilt.
//!
//! Each package keeps a record of its last build beside its descriptor:
//! the mode, the fingerprints of the source files, the runtime version and
//! the versions of the exposed dependencies. A package is rebuilt when the
//! record no longer describes it.

use crate::build_mode::{lemma_mode_names_differ, mode_name, BuildMode};
use crate::paths::{join, path_joined};
use crate::resolver::Foil;
use crate::static_assets::{
    lemma_sort_idempotent, lemma_sorted_by_path, lemma_sorted_keeps_marks, marks, sort_by_path,
    sorted_by_path, FileMark, FoilFile,
};
use crate::string_map::StringMap;
use crate::text::{same_text, string_views};
use vstd::prelude::*;

verus! {

/// The record of a package's last build.
#[derive(Debug)]
pub struct FoilMetadata {
    /// Version of the record's layout.
    pub version: u32,
    /// Name of the mode of the last build; empty where there was none.
    pub mode: String,
    /// Fingerprints of the source files of the last build.
    pub files: Vec<FoilFile>,
    /// Version of the module runtime that the last build pinned.
    pub systemjs_version: String,
    /// Versions of the exposed dependencies of the last build.
    pub public_modules: StringMap,
}

/// What has changed in a package since its last build.
#[derive(Clone, Copy, Debug, PartialEq, Eq, Structural)]
pub struct FoilMetadataStatus {
    /// Whether a source file changed.
    pub files_changed: bool,
    /// Whether the module runtime changed.
    pub runtime_changed: bool,
    /// Whether an exposed dependency changed.
    pub public_modules_changed: bool,
}

/// What the file system held when a package was examined.
#[derive(Debug)]
pub struct DiskState {
    /// The paths, among those probed, at which something exists.
    pub present: Vec<String>,
    /// The text of the builder's own manifest, where it could be read.
    pub builder_manifest: Option<String>,
}

/// The runtime version that stands where the builder's manifest names none.
pub open spec fn default_runtime_version() -> Seq<char> {
    "=6.15.1"@
}

/// The layout version that new records are written with.
pub const METADATA_VERSION: u32 = 0;

/// What `serde_json` finds in the JSON document `text` under the key
/// `outer` and there under the key `inner`: the text of that member where
/// it exists and is a string.
pub uninterp spec fn json_nested_string(text: Seq<char>, outer: Seq<char>, inner: Seq<char>)
    -> Option<Seq<char>>;

/// The paths at which something exists.
pub open spec fn present_paths(present: Seq<String>) -> Set<Seq<char>> {
    Set::new(|p: Seq<char>| exists|i: int| 0 <= i < present.len() && #[trigger] present[i]@ == p)
}

/// The path of the compiled runtime of a frontend package.
pub open spec fn runtime_artifact(output_path: Seq<char>) -> Seq<char> {
    path_joined(output_path, "system.js"@)
}

/// The path of the compiled form of an exposed dependency.
pub open spec fn module_artifact(output_path: Seq<char>, module: Seq<char>) -> Seq<char> {
    path_joined(output_path, module + ".js"@)
}

/// Whether the stored mode is another than the one asked for.
pub open spec fn mode_differs(stored: Seq<char>, mode: BuildMode) -> bool {
    stored != mode_name(mode)
}

/// Whether the source files differ from the stored ones: another number of
/// files, no file at all, a pair of path and time that differs once both
/// lists are sorted by path, or a stored file that is gone.
pub open spec fn files_differ(
    stored: Seq<FileMark>,
    current: Seq<FileMark>,
    present: Set<Seq<char>>,
) -> bool {
    ||| stored.len() != current.len()
    ||| current.len() == 0
    ||| sorted_by_path(stored) != sorted_by_path(current)
    ||| exists|i: int| 0 <= i < stored.len() && !present.contains(#[trigger] stored[i].path)
}

/// The runtime version that the builder pins: what its manifest names
/// under `dependencies.systemjs`, the default where it names none, and
/// nothing where the manifest could not be read.
pub open spec fn pinned_runtime(manifest: Option<Seq<char>>) -> Option<Seq<char>> {
    match manifest {
        None => None,
        Some(text) => Some(
            match json_nested_string(text, "dependencies"@, "systemjs"@) {
                Some(v) => v,
                None => default_runtime_version(),
            },
        ),
    }
}

/// Whether the runtime of a package differs from the stored one. Only a
/// frontend has a runtime; its runtime differs where the pinned version is
/// unknown or another than the stored one, or the compiled runtime is gone.
pub open spec fn runtime_differs(
    frontend: bool,
    stored_version: Seq<char>,
    pinned: Option<Seq<char>>,
    artifact_present: bool,
) -> bool {
    frontend && match pinned {
        None => true,
        Some(v) => stored_version != v || !artifact_present,
    }
}

/// Whether one exposed dependency is out of date: its compiled form is
/// gone, the record does not know it, or the record has another version.
pub open spec fn module_stale(
    stored: Map<Seq<char>, Seq<char>>,
    present: Set<Seq<char>>,
    output_path: Seq<char>,
    pair: (Seq<char>, Seq<char>),
) -> bool {
    ||| !present.contains(module_artifact(output_path, pair.0))
    ||| !stored.dom().contains(pair.0)
    ||| stored[pair.0] != pair.1
}

/// Whether the exposed dependencies differ from the stored ones: the
/// package declares some, and one of those it resolved is out of date.
pub open spec fn modules_differ(
    declared: nat,
    resolved: Seq<(Seq<char>, Seq<char>)>,
    stored: Map<Seq<char>, Seq<char>>,
    present: Set<Seq<char>>,
    output_path: Seq<char>,
) -> bool {
    declared > 0 && exists|i: int|
        0 <= i < resolved.len() && module_stale(stored, present, output_path, #[trigger] resolved[i])
}

/// What has changed in `foil` since the build that `stored` records, for a
/// build in `mode`, given the pinned runtime version and what exists on
/// disk. Another mode than the stored one changes everything.
pub open spec fn status_of(
    stored: &FoilMetadata,
    foil: &Foil,
    mode: BuildMode,
    pinned: Option<Seq<char>>,
    present: Set<Seq<char>>,
) -> FoilMetadataStatus {
    if mode_differs(stored.mode@, mode) {
        FoilMetadataStatus {
            files_changed: true,
            runtime_changed: true,
            public_modules_changed: true,
        }
    } else {
        FoilMetadataStatus {
            files_changed: files_differ(marks(stored.files@), marks(foil.source_files@), present),
            runtime_changed: runtime_differs(
                foil.frontend,
                stored.systemjs_version@,
                pinned,
                present.contains(runtime_artifact(foil.output_path@)),
            ),
            public_modules_changed: modules_differ(
                foil.public_modules@.len(),
                foil.public_modules_map.pairs(),
                stored.public_modules@,
                present,
                foil.output_path@,
            ),
        }
    }
}

/// The paths whose existence a comparison of `foil` with `stored` asks
/// about: the stored source files, then the compiled runtime, then the
/// compiled form of each resolved dependency.
pub open spec fn probed_paths(stored: &FoilMetadata, foil: &Foil) -> Seq<Seq<char>> {
    Seq::new(stored.files@.len(), |i: int| stored.files@[i].path@) + seq![
        runtime_artifact(foil.output_path@),
    ] + Seq::new(
        foil.public_modules_map.pairs().len(),
        |i: int| module_artifact(foil.output_path@, foil.public_modules_map.pairs()[i].0),
    )
}

/// Parses `text` as JSON with `serde_json::from_str` and looks up `outer`,
/// then `inner`, with `serde_json::Value::get`. Returns the member's text
/// where it is a JSON string, and nothing otherwise: not JSON, no such
/// member, or a member of another kind.
#[verifier::external_body]
pub(crate) fn json_nested_text(text: &str, outer: &str, inner: &str) -> (out: Option<String>)
    ensures
        out.is_some() == json_nested_string(text@, outer@, inner@).is_some(),
        out matches Some(v) ==> json_nested_string(text@, outer@, inner@) == Some(v@),
{
    match serde_json::from_str::<serde_json::Value>(text) {
        Ok(value) => match value.get(outer) {
            Some(member) => match member.get(inner) {
                Some(serde_json::Value::String(found)) => Some(found.clone()),
                _ => None,
            },
            None => None,
        },
        Err(_) => None,
    }
}

/// Whether a status reports any change.
pub open spec fn any_change(status: FoilMetadataStatus) -> bool {
    status.files_changed || status.runtime_changed || status.public_modules_changed
}

impl FoilMetadataStatus {
    /// Whether anything changed.
    pub fn changed(&self) -> (r: bool)
        ensures
            r == any_change(*self),
    {
        self.files_changed || self.runtime_changed || self.public_modules_changed
    }

    /// The status in which everything changed.
    pub fn everything() -> (s: FoilMetadataStatus)
        ensures
            s.files_changed && s.runtime_changed && s.public_modules_changed,
    {
        FoilMetadataStatus {
            files_changed: true,
            runtime_changed: true,
            public_modules_changed: true,
        }
    }
}

impl Default for FoilMetadataStatus {
    fn default() -> (s: FoilMetadataStatus)
        ensures
            !s.files_changed && !s.runtime_changed && !s.public_modules_changed,
    {
        FoilMetadataStatus {
            files_changed: false,
            runtime_changed: false,
            public_modules_changed: false,
        }
    }
}

impl DiskState {
    /// Whether something exists at `path`.
    pub fn is_present(&self, path: &str) -> (r: bool)
        ensures
            r == present_paths(self.present@).contains(path@),
    {
        let mut i: usize = 0;
        while i < self.present.len()
            invariant
                i <= self.present.len(),
                forall|j: int| 0 <= j < i ==> self.present@[j]@ != path@,
            decreases self.present.len() - i,
        {
            if same_text(self.present[i].as_str(), path) {
                return true;
            }
            i += 1;
        }
        false
    }
}

/// The runtime version that a manifest pins, given the version that it
/// names, if it names one: that version, or else the default.
pub fn named_or_default(named: Option<String>) -> (version: String)
    ensures
        version@ == match named {
            Some(v) => v@,
            None => default_runtime_version(),
        },
{
    match named {
        Some(v) => v,
        None => "=6.15.1".to_owned(),
    }
}

/// The runtime version that the builder pins, read from the text of its
/// manifest.
pub fn pinned_runtime_version(manifest: Option<&str>) -> (pinned: Option<String>)
    ensures
        pinned.is_some() == manifest.is_some(),
        match (pinned, manifest) {
            (Some(v), Some(text)) => pinned_runtime(Some(text@)) == Some(v@),
            _ => true,
        },
{
    match manifest {
        None => None,
        Some(text) => Some(named_or_default(json_nested_text(text, "dependencies", "systemjs"))),
    }
}

impl FoilMetadata {
    /// The record of a package that was never built: no mode, no files, no
    /// versions.
    pub fn empty() -> (m: FoilMetadata)
        ensures
            m.version == 0,
            m.mode@ == Seq::<char>::empty(),
            m.files@ == Seq::<FoilFile>::empty(),
            m.systemjs_version@ == Seq::<char>::empty(),
            m.public_modules.pairs() == Seq::<(Seq<char>, Seq<char>)>::empty(),
    {
        FoilMetadata {
            version: 0,
            mode: String::new(),
            files: Vec::new(),
            systemjs_version: String::new(),
            public_modules: StringMap::new(),
        }
    }

    /// The record to work with, given what was loaded from the package's
    /// metadata file: the loaded record with its fingerprints sorted by
    /// path, or the empty record where the file is absent or unreadable.
    pub fn open(loaded: Option<FoilMetadata>) -> (m: FoilMetadata)
        ensures
            match loaded {
                Some(l) => {
                    &&& m.version == l.version
                    &&& m.mode == l.mode
                    &&& m.systemjs_version == l.systemjs_version
                    &&& m.public_modules == l.public_modules
                    &&& marks(m.files@) == sorted_by_path(marks(l.files@))
                },
                None => {
                    &&& m.version == 0
                    &&& m.mode@ == Seq::<char>::empty()
                    &&& m.files@ == Seq::<FoilFile>::empty()
                    &&& m.systemjs_version@ == Seq::<char>::empty()
                    &&& m.public_modules.pairs() == Seq::<(Seq<char>, Seq<char>)>::empty()
                },
            },
    {
        match loaded {
            Some(l) => {
                let mut m = l;
                sort_by_path(&mut m.files);
                m
            },
            None => FoilMetadata::empty(),
        }
    }

    /// The paths whose existence `verify` asks about, for the caller to
    /// probe.
    pub fn paths_to_probe(&self, foil: &Foil) -> (paths: Vec<String>)
        ensures
            string_views(paths@) == probed_paths(self, foil),
    {
        let mut paths: Vec<String> = Vec::new();
        let mut i: usize = 0;
        while i < self.files.len()
            invariant
                i <= self.files.len(),
                string_views(paths@) == Seq::new(i as nat, |j: int| self.files@[j].path@),
            decreases self.files.len() - i,
        {
            let ghost before = string_views(paths@);
            paths.push(self.files[i].path.clone());
            assert(string_views(paths@) =~= before.push(self.files@[i as int].path@));
            i += 1;
        }
        let ghost stored = string_views(paths@);
        paths.push(join(foil.output_path.as_str(), "system.js"));
        assert(string_views(paths@) =~= stored + seq![runtime_artifact(foil.output_path@)]);
        let ghost head = string_views(paths@);
        let mut k: usize = 0;
        while k < foil.public_modules_map.len()
            invariant
                k <= foil.public_modules_map.pairs().len(),
                string_views(paths@) == head + Seq::new(
                    k as nat,
                    |j: int| module_artifact(foil.output_path@, foil.public_modules_map.pairs()[j].0),
                ),
            decreases foil.public_modules_map.pairs().len() - k,
        {
            let ghost before = string_views(paths@);
            let mut file = foil.public_modules_map.key_at(k).clone();
            file.append(".js");
            paths.push(join(foil.output_path.as_str(), file.as_str()));
            assert(string_views(paths@) =~= before.push(
                module_artifact(foil.output_path@, foil.public_modules_map.pairs()[k as int].0),
            ));
            k += 1;
        }
        paths
    }

    /// Whether the source files of `foil` differ from the stored ones.
    pub fn verify_source_files(&self, foil: &Foil, disk: &DiskState) -> (r: bool)
        ensures
            r == files_differ(
                marks(self.files@),
                marks(foil.source_files@),
                present_paths(disk.present@),
            ),
    {
        if self.files.len() != foil.source_files.len() || foil.source_files.len() == 0 {
            return true;
        }
        let mut k: usize = 0;
        while k < self.files.len()
            invariant
                k <= self.files.len(),
                forall|i: int|
                    0 <= i < k ==> present_paths(disk.present@).contains(
                        #[trigger] marks(self.files@)[i].path,
                    ),
            decreases self.files.len() - k,
        {
            if !disk.is_present(self.files[k].path.as_str()) {
                assert(!present_paths(disk.present@).contains(marks(self.files@)[k as int].path));
                return true;
            }
            k += 1;
        }
        let mut a: Vec<FoilFile> = Vec::new();
        let mut b: Vec<FoilFile> = Vec::new();
        let mut i: usize = 0;
        proof {
            assert(marks(a@) =~= marks(self.files@).take(0));
            assert(marks(b@) =~= marks(foil.source_files@).take(0));
        }
        while i < self.files.len()
            invariant
                i <= self.files.len(),
                self.files.len() == foil.source_files.len(),
                marks(a@) == marks(self.files@).take(i as int),
                marks(b@) == marks(foil.source_files@).take(i as int),
            decreases self.files.len() - i,
        {
            let ghost before_a = marks(a@);
            let ghost before_b = marks(b@);
            a.push(self.files[i].copy());
            b.push(foil.source_files[i].copy());
            proof {
                assert(marks(a@) =~= before_a.push(self.files@[i as int]@));
                assert(marks(b@) =~= before_b.push(foil.source_files@[i as int]@));
                assert(marks(a@) =~= marks(self.files@).take(i + 1));
                assert(marks(b@) =~= marks(foil.source_files@).take(i + 1));
            }
            i += 1;
        }
        proof {
            assert(marks(self.files@).take(self.files.len() as int) =~= marks(self.files@));
            assert(marks(foil.source_files@).take(self.files.len() as int) =~= marks(
                foil.source_files@,
            ));
        }
        sort_by_path(&mut a);
        sort_by_path(&mut b);
        proof {
            lemma_sorted_by_path(marks(self.files@));
            lemma_sorted_by_path(marks(foil.source_files@));
        }
        let mut j: usize = 0;
        while j < a.len()
            invariant
                j <= a.len(),
                a.len() == b.len(),
                marks(a@) == sorted_by_path(marks(self.files@)),
                marks(b@) == sorted_by_path(marks(foil.source_files@)),
                marks(a@).take(j as int) == marks(b@).take(j as int),
            decreases a.len() - j,
        {
            let same = same_text(a[j].path.as_str(), b[j].path.as_str()) && a[j].modified_date
                == b[j].modified_date;
            if !same {
                assert(marks(a@)[j as int] != marks(b@)[j as int]);
                return true;
            }
            proof {
                assert(marks(a@).take(j + 1) =~= marks(a@).take(j as int).push(marks(a@)[j as int]));
                assert(marks(b@).take(j + 1) =~= marks(b@).take(j as int).push(marks(b@)[j as int]));
            }
            j += 1;
        }
        proof {
            assert(marks(a@).take(a.len() as int) =~= marks(a@));
            assert(marks(b@).take(b.len() as int) =~= marks(b@));
        }
        false
    }

    /// Whether the runtime of `foil` differs from the stored one, given the
    /// runtime version that the builder pins.
    pub fn verify_runtime(&self, foil: &Foil, pinned: Option<&str>, disk: &DiskState) -> (r: bool)
        ensures
            r == runtime_differs(
                foil.frontend,
                self.systemjs_version@,
                match pinned {
                    Some(v) => Some(v@),
                    None => None,
                },
                present_paths(disk.present@).contains(runtime_artifact(foil.output_path@)),
            ),
    {
        if !foil.frontend {
            return false;
        }
        match pinned {
            None => true,
            Some(v) => {
                let artifact = join(foil.output_path.as_str(), "system.js");
                !same_text(self.systemjs_version.as_str(), v) || !disk.is_present(
                    artifact.as_str(),
                )
            },
        }
    }

    /// Whether the exposed dependencies of `foil` differ from the stored
    /// ones.
    pub fn verify_public_modules(&self, foil: &Foil, disk: &DiskState) -> (r: bool)
        ensures
            r == modules_differ(
                foil.public_modules@.len(),
                foil.public_modules_map.pairs(),
                self.public_modules@,
                present_paths(disk.present@),
                foil.output_path@,
            ),
    {
        if foil.public_modules.len() == 0 {
            return false;
        }
        let mut k: usize = 0;
        while k < foil.public_modules_map.len()
            invariant
                k <= foil.public_modules_map.pairs().len(),
                foil.public_modules@.len() > 0,
                forall|i: int|
                    0 <= i < k ==> !module_stale(
                        self.public_modules@,
                        present_paths(disk.present@),
                        foil.output_path@,
                        #[trigger] foil.public_modules_map.pairs()[i],
                    ),
            decreases foil.public_modules_map.pairs().len() - k,
        {
            let module = foil.public_modules_map.key_at(k);
            let version = foil.public_modules_map.value_at(k);
            let mut file = module.clone();
            file.append(".js");
            let artifact = join(foil.output_path.as_str(), file.as_str());
            assert(artifact@ == module_artifact(
                foil.output_path@,
                foil.public_modules_map.pairs()[k as int].0,
            ));
            let stale = match self.public_modules.get(module.as_str()) {
                Some(stored) => !same_text(stored.as_str(), version.as_str()) || !disk.is_present(
                    artifact.as_str(),
                ),
                None => true,
            };
            if stale {
                assert(module_stale(
                    self.public_modules@,
                    present_paths(disk.present@),
                    foil.output_path@,
                    foil.public_modules_map.pairs()[k as int],
                ));
                return true;
            }
            k += 1;
        }
        false
    }

    /// What has changed in `foil` since the build that this record
    /// describes, for a build in `build_mode`, given the pinned runtime
    /// version (see `pinned_runtime_version`) and what exists on disk.
    pub fn verify_with(
        &self,
        foil: &Foil,
        build_mode: BuildMode,
        pinned: Option<&str>,
        disk: &DiskState,
    ) -> (status: FoilMetadataStatus)
        ensures
            status == status_of(
                self,
                foil,
                build_mode,
                match pinned {
                    Some(v) => Some(v@),
                    None => None,
                },
                present_paths(disk.present@),
            ),
            mode_differs(self.mode@, build_mode) ==> status.files_changed && status.runtime_changed
                && status.public_modules_changed,
    {
        let wanted = build_mode.name();
        if !same_text(self.mode.as_str(), wanted.as_str()) {
            return FoilMetadataStatus::everything();
        }
        FoilMetadataStatus {
            files_changed: self.verify_source_files(foil, disk),
            runtime_changed: self.verify_runtime(foil, pinned, disk),
            public_modules_changed: self.verify_public_modules(foil, disk),
        }
    }

    /// What has changed in `foil` since the build that this record
    /// describes, for a build in `build_mode`, given what the file system
    /// held. The runtime version is read from the builder's manifest.
    pub fn verify(&self, foil: &Foil, build_mode: BuildMode, disk: &DiskState) -> (status:
        FoilMetadataStatus)
        ensures
            status == status_of(
                self,
                foil,
                build_mode,
                pinned_runtime(
                    match disk.builder_manifest {
                        Some(text) => Some(text@),
                        None => None,
                    },
                ),
                present_paths(disk.present@),
            ),
            mode_differs(self.mode@, build_mode) ==> status.files_changed && status.runtime_changed
                && status.public_modules_changed,
    {
        let pinned = match &disk.builder_manifest {
            Some(text) => pinned_runtime_version(Some(text.as_str())),
            None => pinned_runtime_version(None),
        };
        match &pinned {
            Some(v) => self.verify_with(foil, build_mode, Some(v.as_str()), disk),
            None => self.verify_with(foil, build_mode, None, disk),
        }
    }
}

/// The record to store after a build of a package: its source files, the
/// pinned runtime version, the resolved versions of its exposed
/// dependencies, and the name of the mode.
pub fn write_foil_metadata(
    source_files: Vec<FoilFile>,
    systemjs_version: String,
    public_modules: StringMap,
    build_mode: BuildMode,
) -> (record: FoilMetadata)
    ensures
        record.version == METADATA_VERSION,
        record.mode@ == mode_name(build_mode),
        record.files == source_files,
        record.systemjs_version == systemjs_version,
        record.public_modules == public_modules,
{
    FoilMetadata {
        version: METADATA_VERSION,
        mode: build_mode.name(),
        files: source_files,
        systemjs_version,
        public_modules,
    }
}

/// A build in another mode than the stored one counts as a change of
/// everything, whatever the files on disk look like.
pub proof fn lemma_mode_switch_changes_everything(
    stored: &FoilMetadata,
    foil: &Foil,
    mode: BuildMode,
    pinned: Option<Seq<char>>,
    present: Set<Seq<char>>,
)
    requires
        stored.mode@ != mode_name(mode),
    ensures
        any_change(status_of(stored, foil, mode, pinned, present)),
        status_of(stored, foil, mode, pinned, present).files_changed,
        status_of(stored, foil, mode, pinned, present).runtime_changed,
        status_of(stored, foil, mode, pinned, present).public_modules_changed,
{
}

/// A record of a build in one mode, compared for a build in the other
/// mode, reports a change, whatever the files on disk look like.
pub proof fn lemma_other_mode_changes_everything(
    stored: &FoilMetadata,
    foil: &Foil,
    built: BuildMode,
    asked: BuildMode,
    pinned: Option<Seq<char>>,
    present: Set<Seq<char>>,
)
    requires
        stored.mode@ == mode_name(built),
        built != asked,
    ensures
        any_change(status_of(stored, foil, asked, pinned, present)),
{
    lemma_mode_names_differ();
}

/// A stored source file that no longer exists counts as a change of the
/// files, also where the package still has as many files as before.
pub proof fn lemma_deleted_file_changes_files(
    stored: &FoilMetadata,
    foil: &Foil,
    mode: BuildMode,
    pinned: Option<Seq<char>>,
    present: Set<Seq<char>>,
    gone: int,
)
    requires
        0 <= gone < stored.files@.len(),
        !present.contains(stored.files@[gone].path@),
    ensures
        status_of(stored, foil, mode, pinned, present).files_changed,
        any_change(status_of(stored, foil, mode, pinned, present)),
{
    assert(marks(stored.files@)[gone].path == stored.files@[gone].path@);
}

/// A record that is written for a package and opened again holds the
/// package's fingerprints, sorted by path, and the mode's name; a package
/// whose files are all still there is then found unchanged in its files.
pub proof fn lemma_round_trip(
    written: &FoilMetadata,
    reopened: &FoilMetadata,
    foil: &Foil,
    mode: BuildMode,
    pinned: Option<Seq<char>>,
    present: Set<Seq<char>>,
)
    requires
        written.files@ == foil.source_files@,
        written.mode@ == mode_name(mode),
        marks(reopened.files@) == sorted_by_path(marks(written.files@)),
        reopened.mode == written.mode,
    ensures
        reopened.mode@ == mode_name(mode),
        sorted_by_path(marks(reopened.files@)) == sorted_by_path(marks(foil.source_files@)),
        marks(reopened.files@).to_multiset() == marks(foil.source_files@).to_multiset(),
        (foil.source_files@.len() > 0 && forall|i: int|
            0 <= i < foil.source_files@.len() ==> present.contains(
                #[trigger] foil.source_files@[i].path@,
            )) ==> !status_of(reopened, foil, mode, pinned, present).files_changed,
{
    let current = marks(foil.source_files@);
    let stored = marks(reopened.files@);
    lemma_sort_idempotent(current);
    lemma_sorted_by_path(current);
    lemma_sorted_keeps_marks(current);
    if foil.source_files@.len() > 0 && forall|i: int|
        0 <= i < foil.source_files@.len() ==> present.contains(
            #[trigger] foil.source_files@[i].path@,
        ) {
        assert forall|i: int| 0 <= i < stored.len() implies present.contains(
            #[trigger] stored[i].path,
        ) by {
            assert(stored.contains(stored[i]));
            assert(current.contains(stored[i]));
            let j = choose|j: int| 0 <= j < current.len() && current[j] == stored[i];
            assert(current[j].path == foil.source_files@[j].path@);
        }
    }
}

} // verus!
