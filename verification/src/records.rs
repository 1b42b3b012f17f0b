//! Version records: what a recipe says about one version of a package.

use crate::paths::{sanitize_name, spec_sanitize_name};
use crate::text::{append_str, copy_opt_string, from_chars, opt_view};
use crate::version::{ReleaseType, ReleaseTypeView, StructuredVersion, VersionView};
use vstd::prelude::*;

verus! {

/// The views of the elements of a sequence.
pub open spec fn views<T: View>(s: Seq<T>) -> Seq<T::V> {
    Seq::new(s.len(), |i: int| s[i]@)
}

/// A single step in an installation pipeline.
#[derive(Debug, Clone)]
pub enum InstallStep {
    Fetch { name: Option<String>, url: String, checksum: Option<String>, filename: Option<String> },
    Extract { name: Option<String>, format: Option<String> },
    Run { name: Option<String>, command: String, cwd: Option<String> },
}

/// The mathematical content of a step.
pub enum StepView {
    Fetch {
        name: Option<Seq<char>>,
        url: Seq<char>,
        checksum: Option<Seq<char>>,
        filename: Option<Seq<char>>,
    },
    Extract { name: Option<Seq<char>>, format: Option<Seq<char>> },
    Run { name: Option<Seq<char>>, command: Seq<char>, cwd: Option<Seq<char>> },
}

impl View for InstallStep {
    type V = StepView;

    open spec fn view(&self) -> StepView {
        match self {
            InstallStep::Fetch { name, url, checksum, filename } => StepView::Fetch {
                name: opt_view(*name),
                url: url@,
                checksum: opt_view(*checksum),
                filename: opt_view(*filename),
            },
            InstallStep::Extract { name, format } => StepView::Extract {
                name: opt_view(*name),
                format: opt_view(*format),
            },
            InstallStep::Run { name, command, cwd } => StepView::Run {
                name: opt_view(*name),
                command: command@,
                cwd: opt_view(*cwd),
            },
        }
    }
}

impl InstallStep {
    /// A copy of the step.
    pub fn duplicate(&self) -> (r: InstallStep)
        ensures
            r@ == self@,
    {
        match self {
            InstallStep::Fetch { name, url, checksum, filename } => InstallStep::Fetch {
                name: copy_opt_string(name),
                url: url.clone(),
                checksum: copy_opt_string(checksum),
                filename: copy_opt_string(filename),
            },
            InstallStep::Extract { name, format } => InstallStep::Extract {
                name: copy_opt_string(name),
                format: copy_opt_string(format),
            },
            InstallStep::Run { name, command, cwd } => InstallStep::Run {
                name: copy_opt_string(name),
                command: command.clone(),
                cwd: copy_opt_string(cwd),
            },
        }
    }

    /// The name the recipe gave the step, if any.
    pub fn step_name(&self) -> (r: Option<String>)
        ensures
            opt_view(r) == spec_step_name(self@),
    {
        match self {
            InstallStep::Fetch { name, .. } => copy_opt_string(name),
            InstallStep::Extract { name, .. } => copy_opt_string(name),
            InstallStep::Run { name, .. } => copy_opt_string(name),
        }
    }
}

/// The name the recipe gave a step, if any.
pub open spec fn spec_step_name(s: StepView) -> Option<Seq<char>> {
    match s {
        StepView::Fetch { name, .. } => name,
        StepView::Extract { name, .. } => name,
        StepView::Run { name, .. } => name,
    }
}

/// What a package makes available to the workspace once built.
#[derive(Debug, Clone)]
pub enum Export {
    Link { src: String, dest: String },
    Env { key: String, val: String },
    Path(String),
}

/// The mathematical content of an export.
pub enum ExportView {
    Link { src: Seq<char>, dest: Seq<char> },
    Env { key: Seq<char>, val: Seq<char> },
    Path(Seq<char>),
}

impl View for Export {
    type V = ExportView;

    open spec fn view(&self) -> ExportView {
        match self {
            Export::Link { src, dest } => ExportView::Link { src: src@, dest: dest@ },
            Export::Env { key, val } => ExportView::Env { key: key@, val: val@ },
            Export::Path(p) => ExportView::Path(p@),
        }
    }
}

impl Export {
    /// A copy of the export.
    pub fn duplicate(&self) -> (r: Export)
        ensures
            r@ == self@,
    {
        match self {
            Export::Link { src, dest } => Export::Link { src: src.clone(), dest: dest.clone() },
            Export::Env { key, val } => Export::Env { key: key.clone(), val: val.clone() },
            Export::Path(p) => Export::Path(p.clone()),
        }
    }
}

/// An option that a recipe recognises.
#[derive(Debug, Clone)]
pub struct BuildFlag {
    pub name: String,
    pub help: String,
    pub default_value: String,
}

/// The mathematical content of a flag.
pub struct FlagView {
    pub name: Seq<char>,
    pub help: Seq<char>,
    pub default_value: Seq<char>,
}

impl View for BuildFlag {
    type V = FlagView;

    open spec fn view(&self) -> FlagView {
        FlagView { name: self.name@, help: self.help@, default_value: self.default_value@ }
    }
}

impl BuildFlag {
    /// A copy of the flag.
    pub fn duplicate(&self) -> (r: BuildFlag)
        ensures
            r@ == self@,
    {
        BuildFlag {
            name: self.name.clone(),
            help: self.help.clone(),
            default_value: self.default_value.clone(),
        }
    }
}

/// A package that must be built before this one; `name` is a selector.
#[derive(Debug, Clone)]
pub struct Dependency {
    pub name: String,
    pub optional: bool,
}

/// The mathematical content of a dependency.
pub struct DependencyView {
    pub name: Seq<char>,
    pub optional: bool,
}

impl View for Dependency {
    type V = DependencyView;

    open spec fn view(&self) -> DependencyView {
        DependencyView { name: self.name@, optional: self.optional }
    }
}

impl Dependency {
    /// A copy of the dependency.
    pub fn duplicate(&self) -> (r: Dependency)
        ensures
            r@ == self@,
    {
        Dependency { name: self.name.clone(), optional: self.optional }
    }
}

/// One version of a package as its recipe describes it.
#[derive(Debug, Clone, Default)]
pub struct VersionEntry {
    /// Full name, with the manager prefix where there is one.
    pub pkgname: String,
    pub version: StructuredVersion,
    pub release_date: String,
    pub release_type: ReleaseType,
    pub stream: String,
    pub pipeline: Vec<InstallStep>,
    pub exports: Vec<Export>,
    pub flags: Vec<BuildFlag>,
    pub build_dependencies: Vec<Dependency>,
}

/// The mathematical content of a version record.
pub struct EntryView {
    pub pkgname: Seq<char>,
    pub version: VersionView,
    pub release_date: Seq<char>,
    pub release_type: ReleaseTypeView,
    pub stream: Seq<char>,
    pub pipeline: Seq<StepView>,
    pub exports: Seq<ExportView>,
    pub flags: Seq<FlagView>,
    pub build_dependencies: Seq<DependencyView>,
}

impl View for VersionEntry {
    type V = EntryView;

    open spec fn view(&self) -> EntryView {
        EntryView {
            pkgname: self.pkgname@,
            version: self.version@,
            release_date: self.release_date@,
            release_type: self.release_type@,
            stream: self.stream@,
            pipeline: views(self.pipeline@),
            exports: views(self.exports@),
            flags: views(self.flags@),
            build_dependencies: views(self.build_dependencies@),
        }
    }
}

/// A copy of a pipeline.
pub fn copy_steps(v: &Vec<InstallStep>) -> (r: Vec<InstallStep>)
    ensures
        views(r@) == views(v@),
{
    let mut r: Vec<InstallStep> = Vec::new();
    let mut i: usize = 0;
    while i < v.len()
        invariant
            i <= v.len(),
            r.len() == i,
            forall|j: int| 0 <= j < i ==> r@[j]@ == v@[j]@,
        decreases v.len() - i,
    {
        r.push(v[i].duplicate());
        i += 1;
    }
    assert(views(r@) =~= views(v@));
    r
}

/// A copy of a list of exports.
pub fn copy_exports(v: &Vec<Export>) -> (r: Vec<Export>)
    ensures
        views(r@) == views(v@),
{
    let mut r: Vec<Export> = Vec::new();
    let mut i: usize = 0;
    while i < v.len()
        invariant
            i <= v.len(),
            r.len() == i,
            forall|j: int| 0 <= j < i ==> r@[j]@ == v@[j]@,
        decreases v.len() - i,
    {
        r.push(v[i].duplicate());
        i += 1;
    }
    assert(views(r@) =~= views(v@));
    r
}

/// A copy of a list of flags.
pub fn copy_flags(v: &Vec<BuildFlag>) -> (r: Vec<BuildFlag>)
    ensures
        views(r@) == views(v@),
{
    let mut r: Vec<BuildFlag> = Vec::new();
    let mut i: usize = 0;
    while i < v.len()
        invariant
            i <= v.len(),
            r.len() == i,
            forall|j: int| 0 <= j < i ==> r@[j]@ == v@[j]@,
        decreases v.len() - i,
    {
        r.push(v[i].duplicate());
        i += 1;
    }
    assert(views(r@) =~= views(v@));
    r
}

/// A copy of a list of dependencies.
pub fn copy_dependencies(v: &Vec<Dependency>) -> (r: Vec<Dependency>)
    ensures
        views(r@) == views(v@),
{
    let mut r: Vec<Dependency> = Vec::new();
    let mut i: usize = 0;
    while i < v.len()
        invariant
            i <= v.len(),
            r.len() == i,
            forall|j: int| 0 <= j < i ==> r@[j]@ == v@[j]@,
        decreases v.len() - i,
    {
        r.push(v[i].duplicate());
        i += 1;
    }
    assert(views(r@) =~= views(v@));
    r
}

/// The directory name of a package version: the sanitised name, a hyphen,
/// the sanitised version text.
pub open spec fn spec_pkg_dir_name(pkgname: Seq<char>, version: Seq<char>) -> Seq<char> {
    spec_sanitize_name(pkgname) + seq!['-'] + spec_sanitize_name(version)
}

/// The context prefix of a package version: `repo/name=version`.
pub open spec fn spec_pkg_ctx(repo: Seq<char>, pkgname: Seq<char>, version: Seq<char>) -> Seq<
    char,
> {
    repo + seq!['/'] + pkgname + seq!['='] + version
}

impl VersionEntry {
    /// A copy of the record.
    pub fn duplicate(&self) -> (r: VersionEntry)
        ensures
            r@ == self@,
    {
        VersionEntry {
            pkgname: self.pkgname.clone(),
            version: self.version.duplicate(),
            release_date: self.release_date.clone(),
            release_type: self.release_type.duplicate(),
            stream: self.stream.clone(),
            pipeline: copy_steps(&self.pipeline),
            exports: copy_exports(&self.exports),
            flags: copy_flags(&self.flags),
            build_dependencies: copy_dependencies(&self.build_dependencies),
        }
    }

    /// The name of the directory that holds this version's outputs.
    pub fn pkg_dir_name(&self) -> (r: String)
        ensures
            r@ == spec_pkg_dir_name(self@.pkgname, self@.version.raw),
    {
        let a = sanitize_name(self.pkgname.as_str());
        let b = sanitize_name(self.version.raw.as_str());
        let mut out: Vec<char> = Vec::new();
        append_str(&mut out, a.as_str());
        out.push('-');
        append_str(&mut out, b.as_str());
        assert(out@ =~= spec_pkg_dir_name(self@.pkgname, self@.version.raw));
        from_chars(&out)
    }
}

/// A version record together with the repository it came from.
#[derive(Debug, Clone)]
pub struct QualifiedVersion<'a> {
    pub repo_name: &'a str,
    pub entry: &'a VersionEntry,
}

impl<'a> QualifiedVersion<'a> {
    /// Pairs a record with its repository.
    pub fn new(repo_name: &'a str, entry: &'a VersionEntry) -> (r: Self)
        ensures
            r.repo_name@ == repo_name@,
            r.entry@ == entry@,
    {
        Self { repo_name, entry }
    }

    /// The prefix that error lines about this version carry.
    pub fn pkg_ctx(&self) -> (r: String)
        ensures
            r@ == spec_pkg_ctx(self.repo_name@, self.entry@.pkgname, self.entry@.version.raw),
    {
        let mut out: Vec<char> = Vec::new();
        append_str(&mut out, self.repo_name);
        out.push('/');
        append_str(&mut out, self.entry.pkgname.as_str());
        out.push('=');
        append_str(&mut out, self.entry.version.raw.as_str());
        assert(out@ =~= spec_pkg_ctx(
            self.repo_name@,
            self.entry@.pkgname,
            self.entry@.version.raw,
        ));
        from_chars(&out)
    }
}

/// The versions known of one package.
#[derive(Debug, Clone)]
pub struct VersionList {
    pub versions: Vec<VersionEntry>,
}

impl View for VersionList {
    type V = Seq<EntryView>;

    open spec fn view(&self) -> Seq<EntryView> {
        views(self.versions@)
    }
}

} // verus!
