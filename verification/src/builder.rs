//! The plan of a build pass: what is done for each package, and in what
//! order.
//!
//! The packages of a pass are planned one after the other, frontend
//! packages first. The caller carries each plan out before it asks for the
//! next: it is the caller that writes to the content store, starts the
//! compiler and writes the build metadata.

use crate::build_mode::{mode_name, BuildMode};
use crate::error::{FoilError, Result};
use crate::metadata::{
    any_change, pinned_runtime, present_paths, status_of, write_foil_metadata, DiskState,
    FoilMetadata, FoilMetadataStatus, METADATA_VERSION,
};
use crate::nodejs::{compile_arguments, compile_foil_main};
use crate::paths::{join, path_joined};
use crate::resolver::{needs_compiling, Foil};
use crate::static_assets::{marks, FoilFile};
use crate::string_map::{pairs_map, StringMap};
use crate::text::{same_text, string_views};
use vstd::prelude::*;

verus! {

/// What a pass knows beyond the package at hand.
#[derive(Debug)]
pub struct PassContext {
    /// The runtime version that builds of this pass pin.
    pub runtime_version: String,
    /// The exposed dependencies of the root package with their versions,
    /// once the root package has been planned.
    pub root_modules: Option<StringMap>,
}

/// One thing to do for a package.
#[derive(Debug)]
pub enum Action {
    /// Write the package's row to the content store. With `wait` the write
    /// must be over before anything else is done: dependents read it back.
    StoreRow { wait: bool },
    /// Start the compiler with these arguments.
    Compile(Vec<String>),
    /// Write this record as the package's build metadata.
    WriteMetadata(FoilMetadata),
}

/// The permalink of the root package.
pub open spec fn root_permalink() -> Seq<char> {
    "/"@
}

/// Whether `foil` is the package whose exposed dependencies the others
/// inherit: the frontend package at the root permalink.
pub open spec fn is_root(foil: &Foil) -> bool {
    foil.frontend && foil.permalink@ == root_permalink()
}

/// The keys of a list of pairs, in order.
pub open spec fn keys_of(pairs: Seq<(Seq<char>, Seq<char>)>) -> Seq<Seq<char>> {
    Seq::new(pairs.len(), |i: int| pairs[i].0)
}

/// The names of the dependencies that a compile of `foil` exposes: its
/// own, and for a package that is not a frontend those of the root
/// package behind them.
pub open spec fn exposed_names(foil: &Foil, root_modules: Option<Seq<(Seq<char>, Seq<char>)>>)
    -> Seq<Seq<char>> {
    match root_modules {
        Some(root) => if foil.frontend {
            string_views(foil.public_modules@)
        } else {
            string_views(foil.public_modules@) + keys_of(root)
        },
        None => string_views(foil.public_modules@),
    }
}

/// The pairs of the root package's exposed dependencies, where they are
/// known.
pub open spec fn known_pairs(root_modules: Option<StringMap>) -> Option<
    Seq<(Seq<char>, Seq<char>)>,
> {
    match root_modules {
        Some(root) => Some(root.pairs()),
        None => None,
    }
}

/// The versions that the record of `foil` holds: its own, and for a
/// package that is not a frontend those of the root package for the
/// dependencies that it does not resolve itself.
pub open spec fn recorded_modules(
    foil: &Foil,
    root_modules: Option<Seq<(Seq<char>, Seq<char>)>>,
) -> Map<Seq<char>, Seq<char>> {
    match root_modules {
        Some(root) => if foil.frontend {
            foil.public_modules_map@
        } else {
            pairs_map(root).union_prefer_right(foil.public_modules_map@)
        },
        None => foil.public_modules_map@,
    }
}

/// What the pass knows after `foil` was planned: the root package's
/// exposed dependencies are noted when the root package comes by, once.
pub open spec fn root_known_after(before: Option<Seq<(Seq<char>, Seq<char>)>>, foil: &Foil)
    -> Option<Seq<(Seq<char>, Seq<char>)>> {
    match before {
        Some(known) => Some(known),
        None => if is_root(foil) {
            Some(foil.public_modules_map.pairs())
        } else {
            None
        },
    }
}

/// Whether `action` starts the compile of `foil`.
pub open spec fn is_compile_of(
    action: Action,
    foil: &Foil,
    status: FoilMetadataStatus,
    mode: BuildMode,
    root_modules: Option<Seq<(Seq<char>, Seq<char>)>>,
) -> bool {
    match action {
        Action::Compile(args) => string_views(args@) == compile_arguments(
            mode,
            foil,
            status,
            exposed_names(foil, root_modules),
        ),
        _ => false,
    }
}

/// Whether `action` writes the record of a build of `foil` in `mode`.
pub open spec fn is_record_of(
    action: Action,
    foil: &Foil,
    mode: BuildMode,
    runtime_version: Seq<char>,
    root_modules: Option<Seq<(Seq<char>, Seq<char>)>>,
) -> bool {
    match action {
        Action::WriteMetadata(record) => {
            &&& record.version == METADATA_VERSION
            &&& record.mode@ == mode_name(mode)
            &&& marks(record.files@) == marks(foil.source_files@)
            &&& record.systemjs_version@ == runtime_version
            &&& record.public_modules@ == recorded_modules(foil, root_modules)
        },
        _ => false,
    }
}

/// Whether a plan is the plan of `foil`: nothing for a package that did
/// not change; otherwise the store row first, then the compile where the
/// entry file needs one, then the metadata.
pub open spec fn is_plan_of(
    plan: Seq<Action>,
    foil: &Foil,
    status: FoilMetadataStatus,
    mode: BuildMode,
    runtime_version: Seq<char>,
    root_modules: Option<Seq<(Seq<char>, Seq<char>)>>,
) -> bool {
    if !any_change(status) {
        plan.len() == 0
    } else {
        let compiles = needs_compiling(foil.main@);
        let last = if compiles {
            2int
        } else {
            1int
        };
        &&& plan.len() == last + 1
        &&& plan[0] == (Action::StoreRow { wait: foil.frontend })
        &&& compiles ==> is_compile_of(plan[1], foil, status, mode, root_modules)
        &&& is_record_of(plan[last], foil, mode, runtime_version, root_modules)
    }
}

impl PassContext {
    /// The context at the start of a pass whose builds pin
    /// `runtime_version`.
    pub fn new(runtime_version: String) -> (ctx: PassContext)
        ensures
            ctx.runtime_version == runtime_version,
            ctx.root_modules is None,
    {
        PassContext { runtime_version, root_modules: None }
    }
}

/// A copy of the fingerprints.
fn copy_files(files: &Vec<FoilFile>) -> (out: Vec<FoilFile>)
    ensures
        marks(out@) == marks(files@),
{
    let mut out: Vec<FoilFile> = Vec::new();
    let mut i: usize = 0;
    assert(marks(out@) =~= marks(files@).take(0));
    while i < files.len()
        invariant
            i <= files.len(),
            marks(out@) == marks(files@).take(i as int),
        decreases files.len() - i,
    {
        let ghost before = marks(out@);
        out.push(files[i].copy());
        assert(marks(out@) =~= before.push(files@[i as int]@));
        assert(marks(out@) =~= marks(files@).take(i + 1));
        i += 1;
    }
    assert(marks(files@).take(files.len() as int) =~= marks(files@));
    out
}

/// The names of the dependencies that a compile of `foil` exposes.
pub fn exposed_modules(foil: &Foil, root_modules: &Option<StringMap>) -> (names: Vec<String>)
    ensures
        string_views(names@) == exposed_names(foil, known_pairs(*root_modules)),
{
    let mut names: Vec<String> = Vec::new();
    let mut i: usize = 0;
    assert(string_views(names@) =~= string_views(foil.public_modules@).take(0));
    while i < foil.public_modules.len()
        invariant
            i <= foil.public_modules.len(),
            string_views(names@) == string_views(foil.public_modules@).take(i as int),
        decreases foil.public_modules.len() - i,
    {
        let ghost before = string_views(names@);
        names.push(foil.public_modules[i].clone());
        assert(string_views(names@) =~= before.push(foil.public_modules@[i as int]@));
        assert(string_views(names@) =~= string_views(foil.public_modules@).take(i + 1));
        i += 1;
    }
    assert(string_views(foil.public_modules@).take(foil.public_modules.len() as int)
        =~= string_views(foil.public_modules@));
    match root_modules {
        Some(root) => {
            if !foil.frontend {
                let ghost own = string_views(names@);
                let mut k: usize = 0;
                assert(string_views(names@) =~= own + keys_of(root.pairs()).take(0));
                while k < root.len()
                    invariant
                        k <= root.pairs().len(),
                        string_views(names@) == own + keys_of(root.pairs()).take(k as int),
                    decreases root.pairs().len() - k,
                {
                    let ghost before = string_views(names@);
                    names.push(root.key_at(k).clone());
                    assert(string_views(names@) =~= before.push(root.pairs()[k as int].0));
                    assert(keys_of(root.pairs()).take(k + 1) =~= keys_of(root.pairs()).take(
                        k as int,
                    ).push(root.pairs()[k as int].0));
                    k += 1;
                }
                assert(keys_of(root.pairs()).take(root.pairs().len() as int) =~= keys_of(
                    root.pairs(),
                ));
            }
        },
        None => {},
    }
    names
}

/// The versions that the record of `foil` holds.
pub fn modules_to_record(foil: &Foil, root_modules: &Option<StringMap>) -> (map: StringMap)
    ensures
        map@ == recorded_modules(foil, known_pairs(*root_modules)),
{
    match root_modules {
        Some(root) => {
            if foil.frontend {
                foil.public_modules_map.copy()
            } else {
                let mut map = root.copy();
                let own = &foil.public_modules_map;
                own.recall_keys_distinct();
                let mut k: usize = 0;
                assert(map@ =~= root@.union_prefer_right(
                    pairs_map(own.pairs().take(0)),
                ));
                while k < own.len()
                    invariant
                        k <= own.pairs().len(),
                        map@ == root@.union_prefer_right(
                            pairs_map(own.pairs().take(k as int)),
                        ),
                    decreases own.pairs().len() - k,
                {
                    proof {
                        assert(own.pairs().take(k + 1).drop_last() =~= own.pairs().take(k as int));
                        assert(own.pairs().take(k + 1).last() == own.pairs()[k as int]);
                    }
                    map.insert(own.key_at(k).clone(), own.value_at(k).clone());
                    proof {
                        assert(map@ =~= root@.union_prefer_right(
                            pairs_map(own.pairs().take(k + 1)),
                        ));
                    }
                    k += 1;
                }
                assert(own.pairs().take(own.pairs().len() as int) =~= own.pairs());
                map
            }
        },
        None => foil.public_modules_map.copy(),
    }
}

/// Plans what is done for `foil`, whose comparison with its build metadata
/// gave `status`.
///
/// A package that did not change gets an empty plan. For any other package
/// the plan is carried out in order: the row goes to the content store
/// before the compiler starts, so that no reader finds a build without its
/// row; the row of a frontend package is waited for, because its dependents
/// read it back; the metadata is written last.
pub fn plan_package(
    ctx: &mut PassContext,
    foil: &Foil,
    status: FoilMetadataStatus,
    mode: BuildMode,
) -> (plan: Vec<Action>)
    ensures
        is_plan_of(
            plan@,
            foil,
            status,
            mode,
            old(ctx).runtime_version@,
            known_pairs(old(ctx).root_modules),
        ),
        final(ctx).runtime_version == old(ctx).runtime_version,
        known_pairs(final(ctx).root_modules) == root_known_after(
            known_pairs(old(ctx).root_modules),
            foil,
        ),
{
    let mut plan: Vec<Action> = Vec::new();
    if status.changed() {
        plan.push(Action::StoreRow { wait: foil.frontend });
        if foil.requires_build() {
            let exposed = exposed_modules(foil, &ctx.root_modules);
            plan.push(Action::Compile(compile_foil_main(mode, foil, status, &exposed)));
        }
        let record = write_foil_metadata(
            copy_files(&foil.source_files),
            ctx.runtime_version.clone(),
            modules_to_record(foil, &ctx.root_modules),
            mode,
        );
        plan.push(Action::WriteMetadata(record));
    }
    if ctx.root_modules.is_none() && foil.frontend && same_text(foil.permalink.as_str(), "/") {
        ctx.root_modules = Some(foil.public_modules_map.copy());
    }
    plan
}

/// One package of a pass: the package, its build metadata, and what the
/// file system held when it was examined.
#[derive(Debug)]
pub struct Examined {
    pub foil: Foil,
    pub metadata: FoilMetadata,
    pub disk: DiskState,
}

/// What the pass knows of the root package before it plans the package at
/// index `upto`: the exposed dependencies of the first root package among
/// those before it.
pub open spec fn root_known_before(packages: Seq<Examined>, upto: int) -> Option<
    Seq<(Seq<char>, Seq<char>)>,
>
    decreases upto,
{
    if upto <= 0 {
        None
    } else {
        root_known_after(root_known_before(packages, upto - 1), &packages[upto - 1].foil)
    }
}

/// What has changed in the package at index `i` of a pass.
pub open spec fn status_in_pass(packages: Seq<Examined>, i: int, mode: BuildMode)
    -> FoilMetadataStatus {
    status_of(
        &packages[i].metadata,
        &packages[i].foil,
        mode,
        pinned_runtime(
            match packages[i].disk.builder_manifest {
                Some(text) => Some(text@),
                None => None,
            },
        ),
        present_paths(packages[i].disk.present@),
    )
}

/// Plans a whole pass in `build_mode`: one plan for each package, in the
/// order of the packages. The packages are to be in the order of
/// processing, and each plan is to be carried out before the next.
pub fn build(build_mode: BuildMode, packages: &Vec<Examined>, runtime_version: String) -> (plans:
    Vec<Vec<Action>>)
    ensures
        plans@.len() == packages@.len(),
        forall|i: int|
            0 <= i < packages@.len() ==> is_plan_of(
                (#[trigger] plans@[i])@,
                &packages@[i].foil,
                status_in_pass(packages@, i, build_mode),
                build_mode,
                runtime_version@,
                root_known_before(packages@, i),
            ),
{
    let mut ctx = PassContext::new(runtime_version);
    let mut plans: Vec<Vec<Action>> = Vec::new();
    let mut k: usize = 0;
    while k < packages.len()
        invariant
            k <= packages.len(),
            plans@.len() == k,
            ctx.runtime_version@ == runtime_version@,
            known_pairs(ctx.root_modules) == root_known_before(packages@, k as int),
            forall|i: int|
                0 <= i < k ==> is_plan_of(
                    (#[trigger] plans@[i])@,
                    &packages@[i].foil,
                    status_in_pass(packages@, i, build_mode),
                    build_mode,
                    runtime_version@,
                    root_known_before(packages@, i),
                ),
        decreases packages.len() - k,
    {
        let package = &packages[k];
        let status = package.metadata.verify(&package.foil, build_mode, &package.disk);
        let plan = plan_package(&mut ctx, &package.foil, status, build_mode);
        plans.push(plan);
        k += 1;
    }
    plans
}

/// The first exit code among the first `upto` that is not zero.
pub open spec fn first_failure(exit_codes: Seq<i32>, upto: int) -> Option<i32>
    decreases upto,
{
    if upto <= 0 {
        None
    } else {
        match first_failure(exit_codes, upto - 1) {
            Some(code) => Some(code),
            None => if exit_codes[upto - 1] != 0 {
                Some(exit_codes[upto - 1])
            } else {
                None
            },
        }
    }
}

/// Judges a pass by the exit codes of the compiles it started: one compile
/// that failed fails the whole pass.
pub fn finish_pass(exit_codes: &Vec<i32>) -> (r: Result<()>)
    ensures
        match r {
            Ok(_) => first_failure(exit_codes@, exit_codes@.len() as int) is None,
            Err(e) => e matches FoilError::CompileFailed(code) && first_failure(
                exit_codes@,
                exit_codes@.len() as int,
            ) == Some(code),
        },
        r is Ok <==> forall|i: int| 0 <= i < exit_codes@.len() ==> exit_codes@[i] == 0,
{
    let mut i: usize = 0;
    while i < exit_codes.len()
        invariant
            i <= exit_codes.len(),
            first_failure(exit_codes@, i as int) is None,
            forall|k: int| 0 <= k < i ==> exit_codes@[k] == 0,
        decreases exit_codes.len() - i,
    {
        if exit_codes[i] != 0 {
            proof {
                lemma_first_failure_stays(exit_codes@, i + 1, exit_codes@.len() as int);
            }
            return Err(FoilError::CompileFailed(exit_codes[i]));
        }
        i += 1;
    }
    Ok(())
}

/// Once a failure is found, looking at more exit codes finds the same one.
pub proof fn lemma_first_failure_stays(exit_codes: Seq<i32>, upto: int, more: int)
    requires
        upto <= more,
        first_failure(exit_codes, upto) is Some,
    ensures
        first_failure(exit_codes, more) == first_failure(exit_codes, upto),
    decreases more - upto,
{
    if upto < more {
        lemma_first_failure_stays(exit_codes, upto, more - 1);
    }
}

/// The directory of the builder, which lies beside the program.
pub fn get_foil_builder_path(foil_folder_path: &str) -> (path: String)
    ensures
        path@ == path_joined(foil_folder_path@, "builder"@),
{
    join(foil_folder_path, "builder")
}

/// A non-frontend package that is planned after the root package records
/// every exposed dependency of the root at the root's version, unless it
/// resolves that dependency itself.
pub proof fn lemma_dependents_record_root_versions(
    foil: &Foil,
    root: Seq<(Seq<char>, Seq<char>)>,
    module: Seq<char>,
)
    requires
        !foil.frontend,
        pairs_map(root).dom().contains(module),
        !foil.public_modules_map@.dom().contains(module),
    ensures
        recorded_modules(foil, Some(root)).dom().contains(module),
        recorded_modules(foil, Some(root))[module] == pairs_map(root)[module],
{
}

} // verus!
