//! The pipeline executor: for each step of a package, whether a recorded
//! outcome is adopted or the step is run, with what inputs, and what the
//! store and the state of the pipeline look like afterwards.
//!
//! Running a step (downloading, unpacking, starting the sandbox) is the
//! caller's part. The caller asks for the plan of a step, carries it out,
//! and reports back.

use crate::error::{BuildError, ErrorView};
use crate::fingerprint::{hash_to_string, spec_fingerprint};
use crate::paths::{
    is_absolute, join_path, sanitize_name, spec_is_absolute, spec_join_path, spec_sanitize_name,
};
use crate::records::{
    spec_pkg_dir_name, spec_step_name, views, EntryView, Export, ExportView, InstallStep, StepView,
    VersionEntry,
};
use crate::store::{
    spec_lookup, spec_recorded, spec_success, BuildCache, OutcomeView, PackageBuildCache,
    StepResult,
};
use crate::text::{
    append_str, chars_view, copy_opt_string, from_chars, opt_view, replace_str, spec_replace,
    spec_split, split_chars, to_chars,
};
use crate::textmap::{as_map, TextMap};
use vstd::prelude::*;

verus! {

/// The switches of a build.
#[derive(Debug, Clone, Copy)]
pub struct BuildFlags {
    /// Trust no cache at all.
    pub force: bool,
    /// Run every step but downloads again.
    pub rebuild: bool,
}

/// The directories of the content store.
#[derive(Debug, Clone)]
pub struct BuildDirs {
    pub download_dir: String,
    pub packages_dir: String,
}

/// The mathematical content of the directories.
pub struct DirsView {
    pub download_dir: Seq<char>,
    pub packages_dir: Seq<char>,
}

impl View for BuildDirs {
    type V = DirsView;

    open spec fn view(&self) -> DirsView {
        DirsView { download_dir: self.download_dir@, packages_dir: self.packages_dir@ }
    }
}

/// Where a package stands in its pipeline.
#[derive(Debug, Clone)]
pub struct PipelineState {
    /// The output of the last step, if a step has given one.
    pub current_path: Option<String>,
    /// Whether a step of this package did work in this build.
    pub recomputed: bool,
}

/// The mathematical content of a pipeline state.
pub struct StateView {
    pub current_path: Option<Seq<char>>,
    pub recomputed: bool,
}

impl View for PipelineState {
    type V = StateView;

    open spec fn view(&self) -> StateView {
        StateView { current_path: opt_view(self.current_path), recomputed: self.recomputed }
    }
}

/// What is to be done for a step.
#[derive(Debug, Clone)]
pub enum StepAction {
    /// Adopt the recorded outcome.
    Reuse { output_path: Option<String> },
    /// Hand the download to the fetcher.
    Fetch { url: String, dest: String, digest: Option<String> },
    /// Unpack `archive` into `dest`.
    Extract { archive: String, dest: String },
    /// Run `command` with the shell in the directory `cwd`, sandboxed.
    Run { command: String, cwd: String },
}

/// The mathematical content of an action.
pub enum ActionView {
    Reuse { output_path: Option<Seq<char>> },
    Fetch { url: Seq<char>, dest: Seq<char>, digest: Option<Seq<char>> },
    Extract { archive: Seq<char>, dest: Seq<char> },
    Run { command: Seq<char>, cwd: Seq<char> },
}

impl View for StepAction {
    type V = ActionView;

    open spec fn view(&self) -> ActionView {
        match self {
            StepAction::Reuse { output_path } => ActionView::Reuse {
                output_path: opt_view(*output_path),
            },
            StepAction::Fetch { url, dest, digest } => ActionView::Fetch {
                url: url@,
                dest: dest@,
                digest: opt_view(*digest),
            },
            StepAction::Extract { archive, dest } => ActionView::Extract {
                archive: archive@,
                dest: dest@,
            },
            StepAction::Run { command, cwd } => ActionView::Run { command: command@, cwd: cwd@ },
        }
    }
}

/// The plan of a step: the step with its placeholders resolved, its
/// fingerprint, and what is to be done.
#[derive(Debug, Clone)]
pub struct StepPlan {
    pub step: InstallStep,
    pub fingerprint: String,
    pub action: StepAction,
}

/// The mathematical content of a plan.
pub struct PlanView {
    pub step: StepView,
    pub fingerprint: Seq<char>,
    pub action: ActionView,
}

impl View for StepPlan {
    type V = PlanView;

    open spec fn view(&self) -> PlanView {
        PlanView { step: self.step@, fingerprint: self.fingerprint@, action: self.action@ }
    }
}

/// The placeholder for the packages directory of the content store.
pub open spec fn spec_packages_placeholder() -> Seq<char> {
    "@PACKAGES_DIR"@
}

/// `text` with the packages placeholder resolved.
pub open spec fn spec_resolve_packages_dir(text: Seq<char>, packages_dir: Seq<char>) -> Seq<char> {
    spec_replace(text, spec_packages_placeholder(), packages_dir)
}

/// A step with its placeholders resolved: the command of a run step has
/// the packages placeholder replaced; other steps stay as they are.
pub open spec fn spec_resolve_step(s: StepView, packages_dir: Seq<char>) -> StepView {
    match s {
        StepView::Run { name, command, cwd } => StepView::Run {
            name,
            command: spec_resolve_packages_dir(command, packages_dir),
            cwd,
        },
        _ => s,
    }
}

/// Whether the store is asked about a step: never for a download, which
/// is skipped by its digest; for other steps unless the build is forced,
/// is a rebuild, or an earlier step of the package did work.
pub open spec fn spec_consults_store(flags: BuildFlags, recomputed: bool, s: StepView) -> bool {
    !(s is Fetch) && !flags.force && !flags.rebuild && !recomputed
}

/// The file name of a download: the declared one, else what follows the
/// last `/` of the address.
pub open spec fn spec_fetch_name(url: Seq<char>, filename: Option<Seq<char>>) -> Seq<char> {
    match filename {
        Some(f) => f,
        None => spec_split(url, '/').last(),
    }
}

/// The name under which a package version keeps its outputs.
pub open spec fn spec_output_name(pkgname: Seq<char>, version: Seq<char>) -> Seq<char> {
    spec_sanitize_name(pkgname + seq!['-'] + version)
}

/// The directory an archive of a package version is unpacked into.
pub open spec fn spec_extract_dest(dirs: DirsView, pkgname: Seq<char>, version: Seq<char>) -> Seq<
    char,
> {
    spec_join_path(dirs.packages_dir, spec_output_name(pkgname, version) + "-extracted"@)
}

/// The directory a command works in when no step has given an output.
pub open spec fn spec_default_base(dirs: DirsView, pkgname: Seq<char>, version: Seq<char>) -> Seq<
    char,
> {
    spec_join_path(dirs.packages_dir, spec_output_name(pkgname, version))
}

/// The working directory of a command: a relative `cwd` joined onto the
/// current output, else the current output itself.
pub open spec fn spec_run_dir(base: Seq<char>, cwd: Option<Seq<char>>) -> Seq<char> {
    match cwd {
        Some(c) => if spec_is_absolute(c) {
            base
        } else {
            spec_join_path(base, c)
        },
        None => base,
    }
}

/// What is done for a resolved step that is not adopted from the store.
pub open spec fn spec_execute(
    dirs: DirsView,
    state: StateView,
    entry: EntryView,
    index: int,
    step: StepView,
) -> Result<ActionView, ErrorView> {
    match step {
        StepView::Fetch { url, checksum, filename, .. } => Ok(
            ActionView::Fetch {
                url,
                dest: spec_join_path(dirs.download_dir, spec_fetch_name(url, filename)),
                digest: checksum,
            },
        ),
        StepView::Extract { .. } => match state.current_path {
            Some(archive) => Ok(
                ActionView::Extract {
                    archive,
                    dest: spec_extract_dest(dirs, entry.pkgname, entry.version.raw),
                },
            ),
            None => Err(ErrorView::MissingInput { step: index as usize }),
        },
        StepView::Run { command, cwd, .. } => Ok(
            ActionView::Run {
                command,
                cwd: spec_run_dir(
                    match state.current_path {
                        Some(p) => p,
                        None => spec_default_base(dirs, entry.pkgname, entry.version.raw),
                    },
                    cwd,
                ),
            },
        ),
    }
}

/// The plan of step `index` of a package version.
pub open spec fn spec_plan(
    flags: BuildFlags,
    dirs: DirsView,
    state: StateView,
    cache: Map<Seq<char>, Seq<OutcomeView>>,
    entry: EntryView,
    index: int,
) -> Result<PlanView, ErrorView> {
    let step = spec_resolve_step(entry.pipeline[index], dirs.packages_dir);
    let fingerprint = spec_fingerprint(step);
    let hit = if spec_consults_store(flags, state.recomputed, step) {
        spec_lookup(cache, entry.version.raw, index, fingerprint)
    } else {
        None
    };
    match hit {
        Some(o) => Ok(
            PlanView { step, fingerprint, action: ActionView::Reuse { output_path: o.output_path } },
        ),
        None => match spec_execute(dirs, state, entry, index, step) {
            Ok(action) => Ok(PlanView { step, fingerprint, action }),
            Err(e) => Err(e),
        },
    }
}

/// Replaces the packages placeholder in a text.
pub fn resolve_packages_dir(text: &str, packages_dir: &str) -> (r: String)
    ensures
        r@ == spec_resolve_packages_dir(text@, packages_dir@),
{
    replace_str(text, "@PACKAGES_DIR", packages_dir)
}

/// Resolves the placeholders of a step.
pub fn resolve_step(step: &InstallStep, packages_dir: &str) -> (r: InstallStep)
    ensures
        r@ == spec_resolve_step(step@, packages_dir@),
{
    match step {
        InstallStep::Run { name, command, cwd } => InstallStep::Run {
            name: copy_opt_string(name),
            command: resolve_packages_dir(command.as_str(), packages_dir),
            cwd: copy_opt_string(cwd),
        },
        _ => step.duplicate(),
    }
}

/// The file name of a download.
pub fn fetch_name(url: &str, filename: &Option<String>) -> (r: String)
    ensures
        r@ == spec_fetch_name(url@, opt_view(*filename)),
{
    match filename {
        Some(f) => f.clone(),
        None => {
            let u = to_chars(url);
            let parts = split_chars(&u, '/');
            let last = &parts[parts.len() - 1];
            assert(chars_view(parts@).last() == last@);
            from_chars(last)
        },
    }
}

/// The name under which a package version keeps its outputs.
pub fn output_name(pkgname: &str, version: &str) -> (r: String)
    ensures
        r@ == spec_output_name(pkgname@, version@),
{
    let mut raw: Vec<char> = Vec::new();
    append_str(&mut raw, pkgname);
    raw.push('-');
    append_str(&mut raw, version);
    assert(raw@ =~= pkgname@ + seq!['-'] + version@);
    let text = from_chars(&raw);
    sanitize_name(text.as_str())
}

/// The working directory of a command.
pub fn run_dir(base: &str, cwd: &Option<String>) -> (r: String)
    ensures
        r@ == spec_run_dir(base@, opt_view(*cwd)),
{
    match cwd {
        Some(c) => {
            if is_absolute(c.as_str()) {
                String::from_str(base)
            } else {
                join_path(base, c.as_str())
            }
        },
        None => String::from_str(base),
    }
}

/// The content of a planning result.
pub open spec fn plan_result_view(r: Result<StepPlan, BuildError>) -> Result<PlanView, ErrorView> {
    match r {
        Ok(p) => Ok(p@),
        Err(e) => Err(e@),
    }
}

/// Plans step `index` of a package version: resolves its placeholders,
/// fingerprints it, asks the store where that is in order, and else says
/// how the step is to be run.
pub fn plan_step(
    flags: BuildFlags,
    dirs: &BuildDirs,
    state: &PipelineState,
    store: &BuildCache,
    cache: &PackageBuildCache,
    version: &VersionEntry,
    index: usize,
) -> (r: Result<StepPlan, BuildError>)
    requires
        cache.wf(),
        index < version.pipeline.len(),
    ensures
        plan_result_view(r) == spec_plan(flags, dirs@, state@, cache@, version@, index as int),
{
    let step = resolve_step(&version.pipeline[index], dirs.packages_dir.as_str());
    assert(version@.pipeline[index as int] == version.pipeline@[index as int]@);
    let fingerprint = hash_to_string(&step);
    let is_fetch = matches!(step, InstallStep::Fetch { .. });
    if !is_fetch && !flags.force && !flags.rebuild && !state.recomputed {
        match store.get_step_result(
            cache,
            version.version.raw.as_str(),
            index,
            fingerprint.as_str(),
        ) {
            Some(hit) => {
                return Ok(
                    StepPlan {
                        step,
                        fingerprint,
                        action: StepAction::Reuse { output_path: hit.output_path },
                    },
                );
            },
            None => {},
        }
    }
    let action = match &step {
        InstallStep::Fetch { url, checksum, filename, .. } => {
            let name = fetch_name(url.as_str(), filename);
            StepAction::Fetch {
                url: url.clone(),
                dest: join_path(dirs.download_dir.as_str(), name.as_str()),
                digest: copy_opt_string(checksum),
            }
        },
        InstallStep::Extract { .. } => {
            match &state.current_path {
                Some(archive) => {
                    let mut name: Vec<char> = Vec::new();
                    let base = output_name(
                        version.pkgname.as_str(),
                        version.version.raw.as_str(),
                    );
                    append_str(&mut name, base.as_str());
                    append_str(&mut name, "-extracted");
                    let dir = from_chars(&name);
                    StepAction::Extract {
                        archive: archive.clone(),
                        dest: join_path(dirs.packages_dir.as_str(), dir.as_str()),
                    }
                },
                None => {
                    return Err(BuildError::MissingInput { step: index });
                },
            }
        },
        InstallStep::Run { command, cwd, .. } => {
            let base = match &state.current_path {
                Some(p) => p.clone(),
                None => {
                    let name = output_name(
                        version.pkgname.as_str(),
                        version.version.raw.as_str(),
                    );
                    join_path(dirs.packages_dir.as_str(), name.as_str())
                },
            };
            StepAction::Run { command: command.clone(), cwd: run_dir(base.as_str(), cwd) }
        },
    };
    Ok(StepPlan { step, fingerprint, action })
}

/// What the caller reports about a step it has carried out.
#[derive(Debug, Clone, Copy)]
pub enum StepEvent {
    /// The recorded outcome was adopted.
    Reused,
    /// The fetcher is done; `downloaded` tells whether it used the network.
    Fetched { downloaded: bool },
    /// The archive is unpacked.
    Extracted,
    /// The command has ended with this exit code.
    Ran { exit: i32 },
}

/// The event reports on an action of this kind.
pub open spec fn spec_event_fits(action: ActionView, event: StepEvent) -> bool {
    match action {
        ActionView::Reuse { .. } => event is Reused,
        ActionView::Fetch { .. } => event is Fetched,
        ActionView::Extract { .. } => event is Extracted,
        ActionView::Run { .. } => event is Ran,
    }
}

/// The outcome that is recorded for a step that was carried out.
pub open spec fn spec_outcome(plan: PlanView, timestamp: Seq<char>, output: Seq<char>) -> OutcomeView {
    OutcomeView {
        name: spec_step_name(plan.step),
        step_hash: plan.fingerprint,
        timestamp,
        output_path: Some(output),
        status: spec_success(),
    }
}

/// The state, the store record and the verdict after a step. An adopted
/// outcome changes nothing but the current output. A step that was carried
/// out is recorded, and marks the package as recomputed, except for a
/// download that was skipped. A command that failed is an error and is not
/// recorded.
pub open spec fn spec_completed(
    state: StateView,
    cache: Map<Seq<char>, Seq<OutcomeView>>,
    version: Seq<char>,
    index: int,
    plan: PlanView,
    event: StepEvent,
    timestamp: Seq<char>,
) -> (StateView, Map<Seq<char>, Seq<OutcomeView>>, Result<(), ErrorView>) {
    match plan.action {
        ActionView::Reuse { output_path } => (
            StateView { current_path: output_path, recomputed: state.recomputed },
            cache,
            Ok(()),
        ),
        ActionView::Fetch { dest, .. } => (
            StateView {
                current_path: Some(dest),
                recomputed: state.recomputed || match event {
                    StepEvent::Fetched { downloaded } => downloaded,
                    _ => false,
                },
            },
            spec_recorded(cache, version, index, spec_outcome(plan, timestamp, dest)),
            Ok(()),
        ),
        ActionView::Extract { dest, .. } => (
            StateView { current_path: Some(dest), recomputed: true },
            spec_recorded(cache, version, index, spec_outcome(plan, timestamp, dest)),
            Ok(()),
        ),
        ActionView::Run { command, cwd } => {
            let exit = match event {
                StepEvent::Ran { exit } => exit,
                _ => 0i32,
            };
            if exit == 0 {
                (
                    StateView { current_path: Some(cwd), recomputed: true },
                    spec_recorded(cache, version, index, spec_outcome(plan, timestamp, cwd)),
                    Ok(()),
                )
            } else {
                (
                    StateView { current_path: state.current_path, recomputed: true },
                    cache,
                    Err(ErrorView::SandboxFailed { command, exit }),
                )
            }
        },
    }
}

/// The content of a verdict.
pub open spec fn unit_result_view(r: Result<(), BuildError>) -> Result<(), ErrorView> {
    match r {
        Ok(()) => Ok(()),
        Err(e) => Err(e@),
    }
}

impl PipelineState {
    /// The state before the first step.
    pub fn new() -> (r: PipelineState)
        ensures
            r@ == (StateView { current_path: None, recomputed: false }),
    {
        PipelineState { current_path: None, recomputed: false }
    }

    /// Takes in what the caller reports about the step it carried out
    /// according to `plan`.
    pub fn complete_step(
        &mut self,
        store: &BuildCache,
        cache: &mut PackageBuildCache,
        version: &VersionEntry,
        index: usize,
        plan: &StepPlan,
        event: StepEvent,
        timestamp: &str,
    ) -> (r: Result<(), BuildError>)
        requires
            old(cache).wf(),
            spec_event_fits(plan@.action, event),
        ensures
            final(cache).wf(),
            (final(self)@, final(cache)@, unit_result_view(r)) == spec_completed(
                old(self)@,
                old(cache)@,
                version@.version.raw,
                index as int,
                plan@,
                event,
                timestamp@,
            ),
    {
        match &plan.action {
            StepAction::Reuse { output_path } => {
                self.current_path = copy_opt_string(output_path);
                Ok(())
            },
            StepAction::Fetch { dest, .. } => {
                let outcome = StepResult::success(
                    plan.step.step_name(),
                    plan.fingerprint.clone(),
                    String::from_str(timestamp),
                    dest.clone(),
                );
                store.update_step_result(cache, version.version.raw.as_str(), index, outcome);
                self.current_path = Some(dest.clone());
                if let StepEvent::Fetched { downloaded } = event {
                    if downloaded {
                        self.recomputed = true;
                    }
                }
                Ok(())
            },
            StepAction::Extract { dest, .. } => {
                let outcome = StepResult::success(
                    plan.step.step_name(),
                    plan.fingerprint.clone(),
                    String::from_str(timestamp),
                    dest.clone(),
                );
                store.update_step_result(cache, version.version.raw.as_str(), index, outcome);
                self.current_path = Some(dest.clone());
                self.recomputed = true;
                Ok(())
            },
            StepAction::Run { command, cwd } => {
                let exit = match event {
                    StepEvent::Ran { exit } => exit,
                    _ => 0i32,
                };
                self.recomputed = true;
                if exit == 0 {
                    let outcome = StepResult::success(
                        plan.step.step_name(),
                        plan.fingerprint.clone(),
                        String::from_str(timestamp),
                        cwd.clone(),
                    );
                    store.update_step_result(cache, version.version.raw.as_str(), index, outcome);
                    self.current_path = Some(cwd.clone());
                    Ok(())
                } else {
                    Err(BuildError::SandboxFailed { command: command.clone(), exit })
                }
            },
        }
    }

    /// The directory whose contents the package exports: the output of the
    /// last step, or the directory named after the package version when no
    /// step gave an output.
    pub fn source_root(&self, dirs: &BuildDirs, version: &VersionEntry) -> (r: String)
        ensures
            r@ == match self@.current_path {
                Some(p) => p,
                None => spec_join_path(
                    dirs@.packages_dir,
                    spec_pkg_dir_name(version@.pkgname, version@.version.raw),
                ),
            },
    {
        match &self.current_path {
            Some(p) => p.clone(),
            None => {
                let name = version.pkg_dir_name();
                join_path(dirs.packages_dir.as_str(), name.as_str())
            },
        }
    }
}

/// The environment after the `Env` exports of a package are taken in, in
/// order: a later export of a name replaces an earlier one.
pub open spec fn spec_env_after(
    env: Map<Seq<char>, Seq<char>>,
    exports: Seq<ExportView>,
) -> Map<Seq<char>, Seq<char>>
    decreases exports.len(),
{
    if exports.len() == 0 {
        env
    } else {
        let before = spec_env_after(env, exports.drop_last());
        match exports.last() {
            ExportView::Env { key, val } => before.insert(key, val),
            _ => before,
        }
    }
}

/// Takes the `Env` exports of a package into the environment.
pub fn collect_env(env: &mut TextMap, exports: &Vec<Export>)
    requires
        old(env).wf(),
    ensures
        final(env).wf(),
        as_map(final(env)@) == spec_env_after(as_map(old(env)@), views(exports@)),
{
    let ghost all = views(exports@);
    let ghost start = as_map(env@);
    let mut i: usize = 0;
    assert(all.subrange(0, 0) =~= Seq::<ExportView>::empty());
    while i < exports.len()
        invariant
            i <= exports.len(),
            env.wf(),
            all == views(exports@),
            as_map(env@) == spec_env_after(start, all.subrange(0, i as int)),
        decreases exports.len() - i,
    {
        assert(all.subrange(0, i + 1).drop_last() =~= all.subrange(0, i as int));
        assert(all.subrange(0, i + 1).last() == exports@[i as int]@);
        if let Export::Env { key, val } = &exports[i] {
            env.insert(key.clone(), val.clone());
        }
        i += 1;
    }
    assert(all.subrange(0, all.len() as int) =~= all);
}

/// Cache-miss cascade: once a step of a package has done work, no later
/// step of that package is adopted from the store in the same build.
pub proof fn lemma_miss_cascades(
    flags: BuildFlags,
    dirs: DirsView,
    state: StateView,
    cache: Map<Seq<char>, Seq<OutcomeView>>,
    entry: EntryView,
    index: int,
)
    requires
        state.recomputed,
    ensures
        match spec_plan(flags, dirs, state, cache, entry, index) {
            Ok(p) => !(p.action is Reuse),
            Err(_) => true,
        },
{
}

/// A package that is marked as recomputed stays so, whatever is reported
/// about its steps; and unpacking an archive or running a command marks it.
pub proof fn lemma_recomputed_stays(
    state: StateView,
    cache: Map<Seq<char>, Seq<OutcomeView>>,
    version: Seq<char>,
    index: int,
    plan: PlanView,
    event: StepEvent,
    timestamp: Seq<char>,
)
    ensures
        state.recomputed ==> spec_completed(
            state,
            cache,
            version,
            index,
            plan,
            event,
            timestamp,
        ).0.recomputed,
        (plan.action is Extract || plan.action is Run) ==> spec_completed(
            state,
            cache,
            version,
            index,
            plan,
            event,
            timestamp,
        ).0.recomputed,
{
}

/// Idempotence: a step that was unpacked or run to the end is adopted when
/// the same package is planned again with nothing changed, in a build that
/// is neither forced nor a rebuild. The adopted output is the one recorded.
pub proof fn lemma_rebuild_reuses(
    flags: BuildFlags,
    dirs: DirsView,
    state: StateView,
    cache: Map<Seq<char>, Seq<OutcomeView>>,
    entry: EntryView,
    index: int,
    event: StepEvent,
    timestamp: Seq<char>,
    again: StateView,
)
    requires
        0 <= index < entry.pipeline.len(),
        !flags.force,
        !flags.rebuild,
        !again.recomputed,
        !(entry.pipeline[index] is Fetch),
        spec_plan(flags, dirs, state, cache, entry, index) is Ok,
        spec_completed(
            state,
            cache,
            entry.version.raw,
            index,
            spec_plan(flags, dirs, state, cache, entry, index)->Ok_0,
            event,
            timestamp,
        ).2 is Ok,
    ensures
        ({
            let first = spec_plan(flags, dirs, state, cache, entry, index)->Ok_0;
            let done = spec_completed(
                state,
                cache,
                entry.version.raw,
                index,
                first,
                event,
                timestamp,
            );
            let second = spec_plan(flags, dirs, again, done.1, entry, index);
            second is Ok && second->Ok_0.action == (ActionView::Reuse {
                output_path: done.0.current_path,
            })
        }),
{
    let first = spec_plan(flags, dirs, state, cache, entry, index)->Ok_0;
    let done = spec_completed(state, cache, entry.version.raw, index, first, event, timestamp);
    match first.action {
        ActionView::Reuse { output_path } => {
            crate::store::lemma_hit_matches(cache, entry.version.raw, index, first.fingerprint);
        },
        ActionView::Extract { dest, .. } => {
            crate::store::lemma_lookup_after_record(
                cache,
                entry.version.raw,
                index,
                spec_outcome(first, timestamp, dest),
            );
        },
        ActionView::Run { cwd, .. } => {
            crate::store::lemma_lookup_after_record(
                cache,
                entry.version.raw,
                index,
                spec_outcome(first, timestamp, cwd),
            );
        },
        ActionView::Fetch { .. } => {},
    }
}

/// A download is never adopted from the store: it is always handed to the
/// fetcher, which decides by the digest whether the network is needed.
pub proof fn lemma_fetch_is_delegated(
    flags: BuildFlags,
    dirs: DirsView,
    state: StateView,
    cache: Map<Seq<char>, Seq<OutcomeView>>,
    entry: EntryView,
    index: int,
)
    requires
        0 <= index < entry.pipeline.len(),
        entry.pipeline[index] is Fetch,
    ensures
        spec_plan(flags, dirs, state, cache, entry, index) is Ok,
        spec_plan(flags, dirs, state, cache, entry, index)->Ok_0.action is Fetch,
{
}

} // verus!
