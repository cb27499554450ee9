//! What goes to, and comes from, the external tools: the import resolver
//! and the compiler.

use crate::build_mode::BuildMode;
use crate::metadata::FoilMetadataStatus;
use crate::paths::{backslashes_to_slashes, join, path_joined, slashes_only};
use crate::resolver::Foil;
use crate::static_assets::{
    is_path_sorted, marks, sort_by_path, sorted_by_path, FileMark, FoilFile,
};
use crate::text::{chars_of, replace_all, replaced, string_of, string_views};
use crate::time::{ModifiedTime, EARLIEST_SECS};
use vstd::prelude::*;

verus! {

/// What the file system said of a file's modification time.
#[derive(Clone, Copy, Debug, PartialEq, Eq, Structural)]
pub enum FileStat {
    /// The file was modified at this time.
    Modified(ModifiedTime),
    /// The file is there, but no modification time is known of it.
    Timeless,
    /// Nothing could be read of the file.
    Unreadable,
}

/// The time that a fingerprint records for a file: its modification time,
/// the epoch where none is known, and the earliest time there is where
/// nothing could be read.
pub open spec fn recorded_time(stat: FileStat) -> ModifiedTime {
    match stat {
        FileStat::Modified(t) => t,
        FileStat::Timeless => ModifiedTime { secs: 0, nanos: 0 },
        FileStat::Unreadable => ModifiedTime { secs: EARLIEST_SECS, nanos: 0 },
    }
}

/// The list of texts that `serde_json` reads from the JSON document
/// `text`, where the document is an array of strings.
pub uninterp spec fn json_string_list(text: Seq<char>) -> Option<Seq<Seq<char>>>;

/// Parses `text` with `serde_json::from_str` as an array of strings.
/// Returns nothing where `text` is not such a document.
#[verifier::external_body]
pub(crate) fn parse_string_list(text: &str) -> (out: Option<Vec<String>>)
    ensures
        out.is_some() == json_string_list(text@).is_some(),
        out matches Some(list) ==> json_string_list(text@) == Some(string_views(list@)),
{
    match serde_json::from_str::<Vec<String>>(text) {
        Ok(list) => Some(list),
        Err(_) => None,
    }
}

/// The files to fingerprint, given what the import resolver reported: each
/// reported path spelled with `/`, then the package's descriptor.
pub open spec fn import_paths(reported: Seq<Seq<char>>, root_path: Seq<char>) -> Seq<Seq<char>> {
    Seq::new(reported.len(), |i: int| slashes_only(reported[i])) + seq![
        slashes_only(path_joined(root_path, "package.json"@)),
    ]
}

/// The paths that the import resolver's output lists, or none where the
/// output cannot be read.
pub open spec fn reported_imports(output: Seq<char>) -> Seq<Seq<char>> {
    match json_string_list(output) {
        Some(list) => list,
        None => Seq::<Seq<char>>::empty(),
    }
}

/// The files to fingerprint for a package, given the list `reported` of
/// the files that its entry file reaches.
pub fn list_imports(reported: &Vec<String>, root_path: &str) -> (paths: Vec<String>)
    ensures
        string_views(paths@) == import_paths(string_views(reported@), root_path@),
{
    let mut paths: Vec<String> = Vec::new();
    let mut i: usize = 0;
    while i < reported.len()
        invariant
            i <= reported.len(),
            string_views(paths@) == Seq::new(
                i as nat,
                |k: int| slashes_only(string_views(reported@)[k]),
            ),
        decreases reported.len() - i,
    {
        let ghost before = string_views(paths@);
        paths.push(backslashes_to_slashes(reported[i].as_str()));
        assert(string_views(paths@) =~= before.push(slashes_only(reported@[i as int]@)));
        i += 1;
    }
    let ghost before = string_views(paths@);
    let descriptor = join(root_path, "package.json");
    paths.push(backslashes_to_slashes(descriptor.as_str()));
    assert(string_views(paths@) =~= before + seq![
        slashes_only(path_joined(root_path@, "package.json"@)),
    ]);
    assert(before =~= Seq::new(
        reported@.len(),
        |k: int| slashes_only(string_views(reported@)[k]),
    ));
    paths
}

/// The files to fingerprint for a package, given the output of the import
/// resolver: the files it lists, and the package's descriptor. Output that
/// is not a list of paths counts as an empty list.
pub fn find_all_imports(resolver_output: &str, root_path: &str) -> (paths: Vec<String>)
    ensures
        string_views(paths@) == import_paths(reported_imports(resolver_output@), root_path@),
{
    match parse_string_list(resolver_output) {
        Some(list) => list_imports(&list, root_path),
        None => {
            let none: Vec<String> = Vec::new();
            assert(string_views(none@) =~= Seq::<Seq<char>>::empty());
            list_imports(&none, root_path)
        },
    }
}

/// The fingerprints of the files as observed, before sorting.
pub open spec fn observed_marks(observed: Seq<(String, FileStat)>) -> Seq<FileMark> {
    Seq::new(
        observed.len(),
        |i: int| FileMark { path: observed[i].0@, modified_date: recorded_time(observed[i].1) },
    )
}

/// The fingerprint list of a package: one fingerprint for each file with
/// what the file system said of it, sorted by path.
pub fn fingerprint_imports(observed: &Vec<(String, FileStat)>) -> (files: Vec<FoilFile>)
    ensures
        marks(files@) == sorted_by_path(observed_marks(observed@)),
        is_path_sorted(marks(files@)),
{
    let mut files: Vec<FoilFile> = Vec::new();
    let mut i: usize = 0;
    proof {
        assert(marks(files@) =~= observed_marks(observed@).take(0));
    }
    while i < observed.len()
        invariant
            i <= observed.len(),
            marks(files@) == observed_marks(observed@).take(i as int),
        decreases observed.len() - i,
    {
        let modified_date = match observed[i].1 {
            FileStat::Modified(t) => t,
            FileStat::Timeless => ModifiedTime::epoch(),
            FileStat::Unreadable => ModifiedTime::earliest(),
        };
        let ghost before = marks(files@);
        files.push(FoilFile { path: observed[i].0.clone(), modified_date });
        proof {
            assert(marks(files@) =~= before.push(observed_marks(observed@)[i as int]));
            assert(marks(files@) =~= observed_marks(observed@).take(i + 1));
        }
        i += 1;
    }
    proof {
        assert(observed_marks(observed@).take(observed.len() as int) =~= observed_marks(
            observed@,
        ));
    }
    sort_by_path(&mut files);
    files
}

/// The value of `NODE_ENV` for a build in `mode`.
pub open spec fn node_environment(mode: BuildMode) -> Seq<char> {
    match mode {
        BuildMode::Release => "production"@,
        BuildMode::Development => "development"@,
    }
}

/// The value of `NODE_ENV` for a build in `mode`.
pub fn node_env(mode: BuildMode) -> (value: String)
    ensures
        value@ == node_environment(mode),
{
    match mode {
        BuildMode::Release => "production".to_owned(),
        BuildMode::Development => "development".to_owned(),
    }
}

/// The output directory as the compiler is told it: spelled with `/`, and
/// without the root directory's spelling in it.
pub open spec fn compiler_output(root_path: Seq<char>, output_path: Seq<char>) -> Seq<char> {
    replaced(slashes_only(output_path), slashes_only(root_path), Seq::<char>::empty())
}

/// The arguments that every compile starts with.
pub open spec fn fixed_arguments() -> Seq<Seq<char>> {
    seq![
        "--experimental-specifier-resolution=node"@,
        "--experimental-modules"@,
        "--experimental-import-meta-resolve"@,
        "--no-warnings"@,
        "dist/foil-builder.js"@,
    ]
}

/// The arguments that name the package and its directories.
pub open spec fn package_arguments(foil: &Foil) -> Seq<Seq<char>> {
    seq![
        "--name"@,
        foil.name@,
        "--main-title"@,
        foil.title@,
        "--root-path"@,
        slashes_only(foil.root_path@),
        "--output"@,
        compiler_output(foil.root_path@, foil.output_path@),
    ]
}

/// The arguments that say what changed, so that the compiler does no more
/// than it must: the entry file where source files changed; for a frontend
/// the runtime where it changed, and the import map and vendor modules
/// where exposed dependencies changed.
pub open spec fn change_arguments(foil: &Foil, status: FoilMetadataStatus) -> Seq<Seq<char>> {
    (if status.files_changed {
        seq!["--input"@, foil.main@]
    } else {
        Seq::<Seq<char>>::empty()
    }) + (if foil.frontend && status.runtime_changed {
        seq!["--system"@]
    } else {
        Seq::<Seq<char>>::empty()
    }) + (if foil.frontend && status.public_modules_changed {
        seq!["--input-map"@, "--vendor"@]
    } else {
        Seq::<Seq<char>>::empty()
    })
}

/// The argument that the mode adds.
pub open spec fn mode_arguments(mode: BuildMode) -> Seq<Seq<char>> {
    match mode {
        BuildMode::Release => seq!["--production"@],
        BuildMode::Development => Seq::<Seq<char>>::empty(),
    }
}

/// The arguments of a compile of `foil`: the fixed ones, the package, what
/// changed, the mode, and the names of the exposed dependencies.
pub open spec fn compile_arguments(
    mode: BuildMode,
    foil: &Foil,
    status: FoilMetadataStatus,
    exposed: Seq<Seq<char>>,
) -> Seq<Seq<char>> {
    fixed_arguments() + package_arguments(foil) + change_arguments(foil, status) + mode_arguments(
        mode,
    ) + seq!["--public-modules"@] + exposed
}

/// Appends `arg` to `args`.
fn push_arg(args: &mut Vec<String>, arg: &str)
    ensures
        string_views(final(args)@) == string_views(old(args)@).push(arg@),
{
    args.push(arg.to_owned());
    assert(string_views(args@) =~= string_views(old(args)@).push(arg@));
}

/// The output directory as the compiler is told it.
pub fn compiler_output_path(root_path: &str, output_path: &str) -> (out: String)
    ensures
        out@ == compiler_output(root_path@, output_path@),
{
    let root = backslashes_to_slashes(root_path);
    let output = backslashes_to_slashes(output_path);
    let root_chars = chars_of(root.as_str());
    if root_chars.len() == 0 {
        return output;
    }
    let output_chars = chars_of(output.as_str());
    let nothing: Vec<char> = Vec::new();
    let out = replace_all(&output_chars, &root_chars, &nothing);
    string_of(&out)
}

/// The arguments of the compile of `resolved_foil` in `mode`, given what
/// changed and the names of the dependencies it exposes or inherits.
pub fn compile_foil_main(
    mode: BuildMode,
    resolved_foil: &Foil,
    foil_changed: FoilMetadataStatus,
    exposed: &Vec<String>,
) -> (args: Vec<String>)
    ensures
        string_views(args@) == compile_arguments(
            mode,
            resolved_foil,
            foil_changed,
            string_views(exposed@),
        ),
{
    let mut args: Vec<String> = Vec::new();
    assert(string_views(args@) =~= Seq::<Seq<char>>::empty());
    push_arg(&mut args, "--experimental-specifier-resolution=node");
    push_arg(&mut args, "--experimental-modules");
    push_arg(&mut args, "--experimental-import-meta-resolve");
    push_arg(&mut args, "--no-warnings");
    push_arg(&mut args, "dist/foil-builder.js");
    assert(string_views(args@) =~= fixed_arguments());
    push_arg(&mut args, "--name");
    push_arg(&mut args, resolved_foil.name.as_str());
    push_arg(&mut args, "--main-title");
    push_arg(&mut args, resolved_foil.title.as_str());
    push_arg(&mut args, "--root-path");
    let root = backslashes_to_slashes(resolved_foil.root_path.as_str());
    push_arg(&mut args, root.as_str());
    push_arg(&mut args, "--output");
    let output = compiler_output_path(
        resolved_foil.root_path.as_str(),
        resolved_foil.output_path.as_str(),
    );
    push_arg(&mut args, output.as_str());
    assert(string_views(args@) =~= fixed_arguments() + package_arguments(resolved_foil));
    let ghost head = string_views(args@);
    if foil_changed.files_changed {
        push_arg(&mut args, "--input");
        push_arg(&mut args, resolved_foil.main.as_str());
    }
    if resolved_foil.frontend {
        if foil_changed.runtime_changed {
            push_arg(&mut args, "--system");
        }
        if foil_changed.public_modules_changed {
            push_arg(&mut args, "--input-map");
            push_arg(&mut args, "--vendor");
        }
    }
    assert(string_views(args@) =~= head + change_arguments(resolved_foil, foil_changed));
    let ghost changed = string_views(args@);
    match mode {
        BuildMode::Release => {
            push_arg(&mut args, "--production");
        },
        BuildMode::Development => {},
    }
    assert(string_views(args@) =~= changed + mode_arguments(mode));
    push_arg(&mut args, "--public-modules");
    let ghost before = string_views(args@);
    let mut i: usize = 0;
    while i < exposed.len()
        invariant
            i <= exposed.len(),
            string_views(args@) == before + string_views(exposed@).take(i as int),
        decreases exposed.len() - i,
    {
        let ghost so_far = string_views(args@);
        args.push(exposed[i].clone());
        assert(string_views(args@) =~= so_far.push(exposed@[i as int]@));
        assert(string_views(exposed@).take(i + 1) =~= string_views(exposed@).take(i as int).push(
            exposed@[i as int]@,
        ));
        i += 1;
    }
    assert(string_views(exposed@).take(exposed.len() as int) =~= string_views(exposed@));
    args
}

} // verus!
