//! The export materializer: what is linked where under the composition
//! root, and which directories of its dependencies a package may read.
//!
//! Looking at the file system and changing it is the caller's part; the
//! plans made here say what to look at and what to change.

use crate::error::{BuildError, ErrorView};
use crate::paths::{
    file_name_of, is_absolute, join_path, parent_of, path_file_name, path_parent, spec_is_absolute,
    spec_join_path,
};
use crate::pipeline::{resolve_packages_dir, spec_resolve_packages_dir};
use crate::records::{
    views, Dependency, DependencyView, EntryView, Export, ExportView, VersionEntry,
};
use crate::selector::{spec_parse, PackageSelector};
use crate::text::{contains_char, contains_string, from_chars, strings_view, to_chars};
use vstd::prelude::*;

verus! {

/// One link export of a package, with the directories it refers to.
#[derive(Debug, Clone, Copy)]
pub struct FileMapOptions<'a> {
    /// The package context, for messages.
    pub pkg_ctx: &'a str,
    /// The directory whose contents the package exports.
    pub pkg_dir: &'a str,
    /// The composition root.
    pub pilocal_dir: &'a str,
    /// What to link; a pattern when it holds a `*`.
    pub src_pattern: &'a str,
    /// Where to link it, relative to the composition root.
    pub dest_rel: &'a str,
}

/// What is to be linked.
#[derive(Debug, Clone)]
pub struct LinkPlan {
    /// The path to look at: the source itself, or for a pattern the
    /// directory whose entries are linked.
    pub search_path: String,
    /// The source is a pattern: every entry of `search_path` is linked.
    pub is_glob: bool,
    /// The destination under the composition root.
    pub dest_path: String,
    /// The destination was written with a `/` at its end: the link goes
    /// into it, under the name of the source.
    pub into_directory: bool,
}

/// The mathematical content of a link plan.
pub struct LinkPlanView {
    pub search_path: Seq<char>,
    pub is_glob: bool,
    pub dest_path: Seq<char>,
    pub into_directory: bool,
}

impl View for LinkPlan {
    type V = LinkPlanView;

    open spec fn view(&self) -> LinkPlanView {
        LinkPlanView {
            search_path: self.search_path@,
            is_glob: self.is_glob,
            dest_path: self.dest_path@,
            into_directory: self.into_directory,
        }
    }
}

/// A pattern without the star at its end.
pub open spec fn spec_strip_star(p: Seq<char>) -> Seq<char> {
    if p.len() > 0 && p.last() == '*' {
        p.drop_last()
    } else {
        p
    }
}

/// A source path as it stands, when absolute; else below the package
/// directory.
pub open spec fn spec_resolve_src_path(pkg_dir: Seq<char>, pattern: Seq<char>) -> Seq<char> {
    if spec_is_absolute(pattern) {
        pattern
    } else {
        spec_join_path(pkg_dir, pattern)
    }
}

/// The link plan of an export.
pub open spec fn spec_link_plan(
    pkg_dir: Seq<char>,
    root: Seq<char>,
    src_pattern: Seq<char>,
    dest_rel: Seq<char>,
) -> LinkPlanView {
    let is_glob = src_pattern.contains('*');
    let base = if is_glob {
        spec_strip_star(src_pattern)
    } else {
        src_pattern
    };
    LinkPlanView {
        search_path: spec_resolve_src_path(pkg_dir, base),
        is_glob,
        dest_path: spec_join_path(root, dest_rel),
        into_directory: dest_rel.len() > 0 && dest_rel.last() == '/',
    }
}

/// Resolves a source path against the package directory.
pub fn resolve_src_path(pkg_dir: &str, pattern: &str) -> (r: String)
    ensures
        r@ == spec_resolve_src_path(pkg_dir@, pattern@),
{
    if is_absolute(pattern) {
        String::from_str(pattern)
    } else {
        join_path(pkg_dir, pattern)
    }
}

/// Plans the links of one export: a source with a `*` is a pattern whose
/// base directory is scanned; any other source is linked itself.
pub fn apply_filemap_entry(opts: FileMapOptions) -> (r: LinkPlan)
    ensures
        r@ == spec_link_plan(opts.pkg_dir@, opts.pilocal_dir@, opts.src_pattern@, opts.dest_rel@),
{
    let p = to_chars(opts.src_pattern);
    let is_glob = contains_char(&p, '*');
    let base: String = if is_glob && p.len() > 0 && p[p.len() - 1] == '*' {
        crate::text::substring(&p, 0, p.len() - 1)
    } else {
        from_chars(&p)
    };
    let d = to_chars(opts.dest_rel);
    let into_directory = d.len() > 0 && d[d.len() - 1] == '/';
    LinkPlan {
        search_path: resolve_src_path(opts.pkg_dir, base.as_str()),
        is_glob,
        dest_path: join_path(opts.pilocal_dir, opts.dest_rel),
        into_directory,
    }
}

/// Where an entry found by a pattern is linked: under its own name in the
/// destination.
pub fn glob_target(plan: &LinkPlan, entry_name: &str) -> (r: String)
    ensures
        r@ == spec_join_path(plan@.dest_path, entry_name@),
{
    join_path(plan.dest_path.as_str(), entry_name)
}

/// Where a single source is linked: at the destination, or under its own
/// name inside the destination when that was written with a `/` at its
/// end or is a directory already.
pub open spec fn spec_single_target(plan: LinkPlanView, dest_is_dir: bool) -> Result<
    Seq<char>,
    ErrorView,
> {
    if plan.into_directory || dest_is_dir {
        match path_file_name(plan.search_path) {
            Some(name) => Ok(spec_join_path(plan.dest_path, name)),
            None => Err(ErrorView::InvalidExportSource { path: plan.search_path }),
        }
    } else {
        Ok(plan.dest_path)
    }
}

/// The content of a path result.
pub open spec fn path_result_view(r: Result<String, BuildError>) -> Result<Seq<char>, ErrorView> {
    match r {
        Ok(p) => Ok(p@),
        Err(e) => Err(e@),
    }
}

/// Decides where a single source is linked.
pub fn single_target(plan: &LinkPlan, dest_is_dir: bool) -> (r: Result<String, BuildError>)
    ensures
        path_result_view(r) == spec_single_target(plan@, dest_is_dir),
{
    if plan.into_directory || dest_is_dir {
        match file_name_of(plan.search_path.as_str()) {
            Some(name) => Ok(join_path(plan.dest_path.as_str(), name.as_str())),
            None => Err(BuildError::InvalidExportSource { path: plan.search_path.clone() }),
        }
    } else {
        Ok(plan.dest_path.clone())
    }
}

/// What stands at a path.
#[derive(Debug, Clone, Copy, PartialEq, Eq, Structural)]
pub enum EntryKind {
    Missing,
    Directory,
    File,
    Symlink,
}

/// A change to the file system below the composition root.
#[derive(Debug, Clone)]
pub enum FsAction {
    /// Create the directory and what is missing above it.
    CreateDirAll { path: String },
    /// Remove the directory with all it holds.
    RemoveTree { path: String },
    /// Remove the file or the symbolic link.
    RemoveFile { path: String },
    /// Create a symbolic link at `dest` that points to `src`.
    Symlink { src: String, dest: String },
}

/// The mathematical content of a change.
pub enum FsActionView {
    CreateDirAll { path: Seq<char> },
    RemoveTree { path: Seq<char> },
    RemoveFile { path: Seq<char> },
    Symlink { src: Seq<char>, dest: Seq<char> },
}

impl View for FsAction {
    type V = FsActionView;

    open spec fn view(&self) -> FsActionView {
        match self {
            FsAction::CreateDirAll { path } => FsActionView::CreateDirAll { path: path@ },
            FsAction::RemoveTree { path } => FsActionView::RemoveTree { path: path@ },
            FsAction::RemoveFile { path } => FsActionView::RemoveFile { path: path@ },
            FsAction::Symlink { src, dest } => FsActionView::Symlink { src: src@, dest: dest@ },
        }
    }
}

/// The changes that put a symbolic link at `dest`: the parent directory
/// is created, what stands at `dest` is removed (a directory with all it
/// holds, anything else as a file), then the link is made.
pub open spec fn spec_symlink_steps(src: Seq<char>, dest: Seq<char>, dest_kind: EntryKind) -> Seq<
    FsActionView,
> {
    let parent = match path_parent(dest) {
        Some(p) => seq![FsActionView::CreateDirAll { path: p }],
        None => Seq::<FsActionView>::empty(),
    };
    let clear = match dest_kind {
        EntryKind::Missing => Seq::<FsActionView>::empty(),
        EntryKind::Directory => seq![FsActionView::RemoveTree { path: dest }],
        _ => seq![FsActionView::RemoveFile { path: dest }],
    };
    parent + clear + seq![FsActionView::Symlink { src, dest }]
}

/// Lists the changes that put a symbolic link at `dest`.
pub fn symlink_steps(src: &str, dest: &str, dest_kind: EntryKind) -> (r: Vec<FsAction>)
    ensures
        views(r@) == spec_symlink_steps(src@, dest@, dest_kind),
{
    let mut out: Vec<FsAction> = Vec::new();
    if let Some(p) = parent_of(dest) {
        out.push(FsAction::CreateDirAll { path: p });
    }
    match dest_kind {
        EntryKind::Missing => {},
        EntryKind::Directory => {
            out.push(FsAction::RemoveTree { path: String::from_str(dest) });
        },
        _ => {
            out.push(FsAction::RemoveFile { path: String::from_str(dest) });
        },
    }
    out.push(FsAction::Symlink { src: String::from_str(src), dest: String::from_str(dest) });
    assert(views(out@) =~= spec_symlink_steps(src@, dest@, dest_kind));
    out
}

/// What the materializer does for one export.
#[derive(Debug, Clone)]
pub enum ExportAction {
    /// Make the links of this plan.
    Link(LinkPlan),
    /// Create this directory, empty.
    MakeDir(String),
    /// Nothing in the file system: the variable is part of the environment.
    Nothing,
}

/// The mathematical content of an export action.
pub enum ExportActionView {
    Link(LinkPlanView),
    MakeDir(Seq<char>),
    Nothing,
}

impl View for ExportAction {
    type V = ExportActionView;

    open spec fn view(&self) -> ExportActionView {
        match self {
            ExportAction::Link(p) => ExportActionView::Link(p@),
            ExportAction::MakeDir(d) => ExportActionView::MakeDir(d@),
            ExportAction::Nothing => ExportActionView::Nothing,
        }
    }
}

/// What is done for an export: a link is planned with the packages
/// placeholder of its source resolved; a path becomes a directory below
/// the composition root; a variable needs nothing.
pub open spec fn spec_export_action(
    e: ExportView,
    source_root: Seq<char>,
    root: Seq<char>,
    packages_dir: Seq<char>,
) -> ExportActionView {
    match e {
        ExportView::Link { src, dest } => ExportActionView::Link(
            spec_link_plan(source_root, root, spec_resolve_packages_dir(src, packages_dir), dest),
        ),
        ExportView::Path(rel) => ExportActionView::MakeDir(spec_join_path(root, rel)),
        ExportView::Env { .. } => ExportActionView::Nothing,
    }
}

/// Says what is done for one export.
pub fn export_action(
    pkg_ctx: &str,
    e: &Export,
    source_root: &str,
    root: &str,
    packages_dir: &str,
) -> (r: ExportAction)
    ensures
        r@ == spec_export_action(e@, source_root@, root@, packages_dir@),
{
    match e {
        Export::Link { src, dest } => {
            let resolved = resolve_packages_dir(src.as_str(), packages_dir);
            ExportAction::Link(
                apply_filemap_entry(
                    FileMapOptions {
                        pkg_ctx,
                        pkg_dir: source_root,
                        pilocal_dir: root,
                        src_pattern: resolved.as_str(),
                        dest_rel: dest.as_str(),
                    },
                ),
            )
        },
        Export::Path(rel) => ExportAction::MakeDir(join_path(root, rel.as_str())),
        Export::Env { .. } => ExportAction::Nothing,
    }
}

/// Says what is done for each export of a package, in order.
pub fn export_actions(
    pkg_ctx: &str,
    exports: &Vec<Export>,
    source_root: &str,
    root: &str,
    packages_dir: &str,
) -> (r: Vec<ExportAction>)
    ensures
        r.len() == exports.len(),
        forall|i: int|
            0 <= i < exports.len() ==> (#[trigger] r@[i])@ == spec_export_action(
                exports@[i]@,
                source_root@,
                root@,
                packages_dir@,
            ),
{
    let mut out: Vec<ExportAction> = Vec::new();
    let mut i: usize = 0;
    while i < exports.len()
        invariant
            i <= exports.len(),
            out.len() == i,
            forall|j: int|
                0 <= j < i ==> (#[trigger] out@[j])@ == spec_export_action(
                    exports@[j]@,
                    source_root@,
                    root@,
                    packages_dir@,
                ),
        decreases exports.len() - i,
    {
        out.push(export_action(pkg_ctx, &exports[i], source_root, root, packages_dir));
        i += 1;
    }
    out
}

/// The directories collected so far, and one more link source: the
/// directory of an absolute source is added unless it is there already.
pub open spec fn spec_add_source_dir(
    dirs: Seq<Seq<char>>,
    src: Seq<char>,
    packages_dir: Seq<char>,
) -> Seq<Seq<char>> {
    let resolved = spec_resolve_packages_dir(src, packages_dir);
    if spec_is_absolute(resolved) {
        match path_parent(resolved) {
            Some(p) => if dirs.contains(p) {
                dirs
            } else {
                dirs.push(p)
            },
            None => dirs,
        }
    } else {
        dirs
    }
}

/// The directories after the link exports of a list of exports.
pub open spec fn spec_dirs_of_exports(
    dirs: Seq<Seq<char>>,
    exports: Seq<ExportView>,
    packages_dir: Seq<char>,
) -> Seq<Seq<char>>
    decreases exports.len(),
{
    if exports.len() == 0 {
        dirs
    } else {
        let before = spec_dirs_of_exports(dirs, exports.drop_last(), packages_dir);
        match exports.last() {
            ExportView::Link { src, .. } => spec_add_source_dir(before, src, packages_dir),
            _ => before,
        }
    }
}

/// What looking for a build dependency gave: its concrete record, if it
/// was found.
#[derive(Debug)]
pub struct DependencyLookup {
    pub dependency: Dependency,
    pub record: Option<VersionEntry>,
}

/// The mathematical content of a lookup.
pub struct LookupView {
    pub dependency: DependencyView,
    pub record: Option<EntryView>,
}

impl View for DependencyLookup {
    type V = LookupView;

    open spec fn view(&self) -> LookupView {
        LookupView {
            dependency: self.dependency@,
            record: match self.record {
                Some(e) => Some(e@),
                None => None,
            },
        }
    }
}

/// A dependency that is needed and was not found.
pub open spec fn is_missing(l: LookupView) -> bool {
    !l.dependency.optional && l.record is None
}

/// The records that were found, in the order of the lookups.
pub open spec fn spec_present(lookups: Seq<LookupView>) -> Seq<EntryView>
    decreases lookups.len(),
{
    if lookups.len() == 0 {
        Seq::empty()
    } else {
        let before = spec_present(lookups.drop_last());
        match lookups.last().record {
            Some(e) => before.push(e),
            None => before,
        }
    }
}

/// Why a dependency that was not found stops the build: its name is no
/// selector, or no repository has it.
pub open spec fn spec_missing_error(name: Seq<char>) -> ErrorView {
    if spec_parse(name) is None {
        ErrorView::InvalidSelector { selector: name }
    } else {
        ErrorView::PackageNotFound { selector: name }
    }
}

/// Decides what missing build dependencies mean. An optional dependency
/// that was not found is passed over; the first required one that was not
/// found stops the build. Otherwise the records that were found are handed
/// out in order.
pub fn present_dependencies(lookups: &Vec<DependencyLookup>) -> (r: Result<
    Vec<VersionEntry>,
    BuildError,
>)
    ensures
        match r {
            Ok(v) => (forall|i: int| 0 <= i < lookups.len() ==> !is_missing(#[trigger] lookups@[i]@))
                && views(v@) == spec_present(views(lookups@)),
            Err(e) => exists|i: int|
                0 <= i < lookups.len() && is_missing(#[trigger] lookups@[i]@) && (forall|j: int|
                    0 <= j < i ==> !is_missing(#[trigger] lookups@[j]@)) && e@
                    == spec_missing_error(lookups@[i]@.dependency.name),
        },
{
    let ghost all = views(lookups@);
    let mut out: Vec<VersionEntry> = Vec::new();
    let mut i: usize = 0;
    assert(all.subrange(0, 0) =~= Seq::<LookupView>::empty());
    assert(views(out@) =~= Seq::<EntryView>::empty());
    while i < lookups.len()
        invariant
            i <= lookups.len(),
            all == views(lookups@),
            forall|j: int| 0 <= j < i ==> !is_missing(#[trigger] lookups@[j]@),
            views(out@) == spec_present(all.subrange(0, i as int)),
        decreases lookups.len() - i,
    {
        assert(all.subrange(0, i + 1).drop_last() =~= all.subrange(0, i as int));
        assert(all.subrange(0, i + 1).last() == lookups@[i as int]@);
        let l = &lookups[i];
        match &l.record {
            Some(e) => {
                let ghost before = views(out@);
                out.push(e.duplicate());
                assert(views(out@) =~= before.push(e@));
            },
            None => {
                if !l.dependency.optional {
                    let name = l.dependency.name.clone();
                    return Err(
                        match PackageSelector::parse(name.as_str()) {
                            None => BuildError::InvalidSelector { selector: name },
                            Some(_) => BuildError::PackageNotFound { selector: name },
                        },
                    );
                }
            },
        }
        i += 1;
    }
    assert(all.subrange(0, all.len() as int) =~= all);
    Ok(out)
}

/// The directories that a package may read of its build dependencies: for
/// each dependency in order, the directories of the absolute sources of
/// its links, each once.
pub open spec fn spec_dependency_dirs(deps: Seq<EntryView>, packages_dir: Seq<char>) -> Seq<
    Seq<char>,
>
    decreases deps.len(),
{
    if deps.len() == 0 {
        Seq::empty()
    } else {
        spec_dirs_of_exports(
            spec_dependency_dirs(deps.drop_last(), packages_dir),
            deps.last().exports,
            packages_dir,
        )
    }
}

/// Collects the directories that a package may read of its build
/// dependencies; `deps` holds the concrete records of the dependencies.
pub fn dependency_dirs(deps: &Vec<VersionEntry>, packages_dir: &str) -> (r: Vec<String>)
    ensures
        strings_view(r@) == spec_dependency_dirs(views(deps@), packages_dir@),
{
    let mut dirs: Vec<String> = Vec::new();
    let ghost all = views(deps@);
    let mut i: usize = 0;
    assert(all.subrange(0, 0) =~= Seq::<EntryView>::empty());
    assert(strings_view(dirs@) =~= Seq::<Seq<char>>::empty());
    while i < deps.len()
        invariant
            i <= deps.len(),
            all == views(deps@),
            strings_view(dirs@) == spec_dependency_dirs(all.subrange(0, i as int), packages_dir@),
        decreases deps.len() - i,
    {
        let exports = &deps[i].exports;
        let ghost ex = views(exports@);
        let ghost start = strings_view(dirs@);
        assert(all.subrange(0, i + 1).drop_last() =~= all.subrange(0, i as int));
        assert(all.subrange(0, i + 1).last() == deps@[i as int]@);
        assert(deps@[i as int]@.exports == ex);
        let mut j: usize = 0;
        assert(ex.subrange(0, 0) =~= Seq::<ExportView>::empty());
        while j < exports.len()
            invariant
                j <= exports.len(),
                ex == views(exports@),
                strings_view(dirs@) == spec_dirs_of_exports(
                    start,
                    ex.subrange(0, j as int),
                    packages_dir@,
                ),
            decreases exports.len() - j,
        {
            assert(ex.subrange(0, j + 1).drop_last() =~= ex.subrange(0, j as int));
            assert(ex.subrange(0, j + 1).last() == exports@[j as int]@);
            if let Export::Link { src, .. } = &exports[j] {
                let resolved = resolve_packages_dir(src.as_str(), packages_dir);
                if is_absolute(resolved.as_str()) {
                    if let Some(p) = parent_of(resolved.as_str()) {
                        if !contains_string(&dirs, p.as_str()) {
                            let ghost before = strings_view(dirs@);
                            dirs.push(p);
                            assert(strings_view(dirs@) =~= before.push(
                                path_parent(resolved@).unwrap(),
                            ));
                        }
                    }
                }
            }
            j += 1;
        }
        assert(ex.subrange(0, ex.len() as int) =~= ex);
        i += 1;
    }
    assert(all.subrange(0, all.len() as int) =~= all);
    dirs
}

/// What stands at each path below the composition root.
pub type Tree = Map<Seq<char>, EntryKind>;

/// Nothing but directories and symbolic links.
pub open spec fn symlink_only(t: Tree) -> bool {
    forall|p: Seq<char>|
        t.dom().contains(p) ==> (#[trigger] t[p]) == EntryKind::Directory || t[p]
            == EntryKind::Symlink
}

/// What a change may do to the tree: creating directories adds
/// directories and touches nothing that exists; removing takes entries
/// away; linking puts a symbolic link at one path.
pub open spec fn spec_effect(before: Tree, a: FsActionView, after: Tree) -> bool {
    match a {
        FsActionView::CreateDirAll { path } => forall|p: Seq<char>|
            after.dom().contains(p) ==> if before.dom().contains(p) {
                (#[trigger] after[p]) == before[p]
            } else {
                after[p] == EntryKind::Directory
            },
        FsActionView::RemoveTree { path } => forall|p: Seq<char>|
            after.dom().contains(p) ==> before.dom().contains(p) && (#[trigger] after[p])
                == before[p],
        FsActionView::RemoveFile { path } => forall|p: Seq<char>|
            after.dom().contains(p) ==> before.dom().contains(p) && (#[trigger] after[p])
                == before[p],
        FsActionView::Symlink { src, dest } => after == before.insert(dest, EntryKind::Symlink),
    }
}

/// Symlink-only composition: a composition root that holds nothing but
/// directories and symbolic links still does after any change that the
/// materializer makes.
pub proof fn lemma_symlink_only_kept(before: Tree, a: FsActionView, after: Tree)
    requires
        symlink_only(before),
        spec_effect(before, a, after),
    ensures
        symlink_only(after),
{
    assert forall|p: Seq<char>| after.dom().contains(p) implies (#[trigger] after[p])
        == EntryKind::Directory || after[p] == EntryKind::Symlink by {
        if before.dom().contains(p) {
            assert(before[p] == EntryKind::Directory || before[p] == EntryKind::Symlink);
        }
    }
}

/// Where the symbolic links below the composition root point: the path of
/// each link, and its target.
pub type Links = Map<Seq<char>, Seq<char>>;

/// `p` is `path` or lies below it.
pub open spec fn spec_at_or_below(path: Seq<char>, p: Seq<char>) -> bool {
    p == path || (path + seq!['/']).is_prefix_of(p)
}

/// The links after one change. Making directories makes no link and
/// removes none; removing a file removes the link at that path; removing
/// a directory removes the links at and below it; linking puts a link at
/// its destination.
pub open spec fn spec_links_step(links: Links, a: FsActionView) -> Links {
    match a {
        FsActionView::CreateDirAll { .. } => links,
        FsActionView::RemoveFile { path } => links.remove(path),
        FsActionView::RemoveTree { path } => links.restrict(
            Set::new(|p: Seq<char>| !spec_at_or_below(path, p)),
        ),
        FsActionView::Symlink { src, dest } => links.insert(dest, src),
    }
}

/// The links after a list of changes, made in order.
pub open spec fn spec_links_after(links: Links, actions: Seq<FsActionView>) -> Links
    decreases actions.len(),
{
    if actions.len() == 0 {
        links
    } else {
        spec_links_step(spec_links_after(links, actions.drop_last()), actions.last())
    }
}

/// The links after the changes that put a link at `dest`: what stood at
/// `dest` is cleared away, then the link is made.
proof fn lemma_links_after_steps(links: Links, src: Seq<char>, dest: Seq<char>, kind: EntryKind)
    ensures
        spec_links_after(links, spec_symlink_steps(src, dest, kind)) == spec_links_step(
            match kind {
                EntryKind::Missing => links,
                EntryKind::Directory => spec_links_step(
                    links,
                    FsActionView::RemoveTree { path: dest },
                ),
                _ => spec_links_step(links, FsActionView::RemoveFile { path: dest }),
            },
            FsActionView::Symlink { src, dest },
        ),
{
    let steps = spec_symlink_steps(src, dest, kind);
    let link = FsActionView::Symlink { src, dest };
    let parent = match path_parent(dest) {
        Some(p) => seq![FsActionView::CreateDirAll { path: p }],
        None => Seq::<FsActionView>::empty(),
    };
    let clear = match kind {
        EntryKind::Missing => Seq::<FsActionView>::empty(),
        EntryKind::Directory => seq![FsActionView::RemoveTree { path: dest }],
        _ => seq![FsActionView::RemoveFile { path: dest }],
    };
    assert(steps =~= (parent + clear).push(link));
    assert(steps.drop_last() =~= parent + clear);
    assert(steps.last() == link);
    assert(spec_links_after(links, parent) == links) by {
        if parent.len() > 0 {
            assert(parent.drop_last() =~= Seq::<FsActionView>::empty());
            assert(spec_links_after(links, parent.drop_last()) == links);
        }
    }
    let cleared = spec_links_after(links, parent + clear);
    if clear.len() == 0 {
        assert(parent + clear =~= parent);
        assert(cleared == links);
    } else {
        assert((parent + clear).drop_last() =~= parent);
        assert((parent + clear).last() == clear[0]);
        assert(cleared == spec_links_step(spec_links_after(links, parent), clear[0]));
        assert(cleared == spec_links_step(links, clear[0]));
    }
    assert(spec_links_after(links, steps) == spec_links_step(
        spec_links_after(links, steps.drop_last()),
        steps.last(),
    ));
}

/// After the changes that put a link at `dest`, the link at `dest` points
/// to `src`, whatever stood there; and every link that stands neither at
/// `dest` nor below it is as it was.
pub proof fn lemma_link_is_made(
    links: Links,
    src: Seq<char>,
    dest: Seq<char>,
    kind: EntryKind,
    other: Seq<char>,
)
    ensures
        spec_links_after(links, spec_symlink_steps(src, dest, kind)).dom().contains(dest),
        spec_links_after(links, spec_symlink_steps(src, dest, kind))[dest] == src,
        !spec_at_or_below(dest, other) ==> (spec_links_after(
            links,
            spec_symlink_steps(src, dest, kind),
        ).dom().contains(other) == links.dom().contains(other)),
        !spec_at_or_below(dest, other) && links.dom().contains(other) ==> spec_links_after(
            links,
            spec_symlink_steps(src, dest, kind),
        )[other] == links[other],
{
    lemma_links_after_steps(links, src, dest, kind);
}

/// Linking again changes nothing: where the link at `dest` points to
/// `src` already, the changes that put that link there leave every link
/// of the composition root as it was.
pub proof fn lemma_relink_changes_nothing(links: Links, src: Seq<char>, dest: Seq<char>)
    requires
        links.dom().contains(dest),
        links[dest] == src,
    ensures
        spec_links_after(links, spec_symlink_steps(src, dest, EntryKind::Symlink)) == links,
{
    lemma_links_after_steps(links, src, dest, EntryKind::Symlink);
    assert(links.remove(dest).insert(dest, src) =~= links);
}

/// One link to make: what it points to, and where it stands.
#[derive(Debug, Clone, PartialEq, Eq)]
pub struct LinkPair {
    pub src: String,
    pub dest: String,
}

impl View for LinkPair {
    type V = (Seq<char>, Seq<char>);

    open spec fn view(&self) -> (Seq<char>, Seq<char>) {
        (self.src@, self.dest@)
    }
}

/// The links that a pattern asks for, one for each entry of the directory
/// it looks at: the entry is linked under its own name in the
/// destination.
pub open spec fn spec_glob_links(plan: LinkPlanView, names: Seq<Seq<char>>) -> Seq<
    (Seq<char>, Seq<char>),
> {
    Seq::new(
        names.len(),
        |i: int|
            (spec_join_path(plan.search_path, names[i]), spec_join_path(plan.dest_path, names[i])),
    )
}

/// Lists the links that a pattern asks for; `names` holds the names of
/// the entries of the directory that the pattern looks at.
pub fn glob_links(plan: &LinkPlan, names: &Vec<String>) -> (r: Vec<LinkPair>)
    ensures
        views(r@) == spec_glob_links(plan@, strings_view(names@)),
{
    let mut out: Vec<LinkPair> = Vec::new();
    let mut i: usize = 0;
    while i < names.len()
        invariant
            i <= names.len(),
            out.len() == i,
            forall|j: int|
                0 <= j < i ==> (#[trigger] out@[j])@ == spec_glob_links(
                    plan@,
                    strings_view(names@),
                )[j],
        decreases names.len() - i,
    {
        out.push(
            LinkPair {
                src: join_path(plan.search_path.as_str(), names[i].as_str()),
                dest: glob_target(plan, names[i].as_str()),
            },
        );
        i += 1;
    }
    assert(views(out@) =~= spec_glob_links(plan@, strings_view(names@)));
    out
}

/// The links after every pair is linked in order, each at a place where
/// nothing stands yet.
pub open spec fn spec_links_linked(links: Links, pairs: Seq<(Seq<char>, Seq<char>)>) -> Links
    decreases pairs.len(),
{
    if pairs.len() == 0 {
        links
    } else {
        spec_links_after(
            spec_links_linked(links, pairs.drop_last()),
            spec_symlink_steps(pairs.last().0, pairs.last().1, EntryKind::Missing),
        )
    }
}

/// No two pairs have one destination.
pub open spec fn distinct_destinations(pairs: Seq<(Seq<char>, Seq<char>)>) -> bool {
    forall|a: int, b: int|
        0 <= a < b < pairs.len() ==> (#[trigger] pairs[a]).1 != (#[trigger] pairs[b]).1
}

/// After links are made for pairs with different destinations, the link
/// at each destination points to its source, and besides these links the
/// composition root holds the links it held and no other.
pub proof fn lemma_links_linked(links: Links, pairs: Seq<(Seq<char>, Seq<char>)>)
    requires
        distinct_destinations(pairs),
    ensures
        forall|i: int|
            0 <= i < pairs.len() ==> spec_links_linked(links, pairs).dom().contains(
                (#[trigger] pairs[i]).1,
            ) && spec_links_linked(links, pairs)[pairs[i].1] == pairs[i].0,
        forall|p: Seq<char>|
            #[trigger] spec_links_linked(links, pairs).dom().contains(p) <==> (links.dom().contains(
                p,
            ) || exists|i: int| 0 <= i < pairs.len() && (#[trigger] pairs[i]).1 == p),
        forall|p: Seq<char>|
            links.dom().contains(p) && (forall|i: int|
                0 <= i < pairs.len() ==> (#[trigger] pairs[i]).1 != p) ==> #[trigger] spec_links_linked(
                links,
                pairs,
            )[p] == links[p],
    decreases pairs.len(),
{
    if pairs.len() > 0 {
        let before = pairs.drop_last();
        let last = pairs.last();
        assert forall|a: int, b: int| 0 <= a < b < before.len() implies (#[trigger] before[a]).1 != (
        #[trigger] before[b]).1 by {
            assert(before[a] == pairs[a] && before[b] == pairs[b]);
        }
        lemma_links_linked(links, before);
        let mid = spec_links_linked(links, before);
        let end = spec_links_linked(links, pairs);
        lemma_links_after_steps(mid, last.0, last.1, EntryKind::Missing);
        assert(end == mid.insert(last.1, last.0));
        assert forall|i: int| 0 <= i < pairs.len() implies end.dom().contains(
            (#[trigger] pairs[i]).1,
        ) && end[pairs[i].1] == pairs[i].0 by {
            if i < before.len() {
                assert(before[i] == pairs[i]);
                assert(pairs[i].1 != pairs[pairs.len() - 1].1);
            }
        }
        assert forall|p: Seq<char>| #[trigger] end.dom().contains(p) <==> (links.dom().contains(p)
            || exists|i: int| 0 <= i < pairs.len() && (#[trigger] pairs[i]).1 == p) by {
            if end.dom().contains(p) {
                if p == last.1 {
                    assert(pairs[pairs.len() - 1].1 == p);
                } else {
                    assert(mid.dom().contains(p));
                    if !links.dom().contains(p) {
                        let i = choose|i: int| 0 <= i < before.len() && (#[trigger] before[i]).1 == p;
                        assert(pairs[i].1 == p);
                    }
                }
            }
            if exists|i: int| 0 <= i < pairs.len() && (#[trigger] pairs[i]).1 == p {
                let i = choose|i: int| 0 <= i < pairs.len() && (#[trigger] pairs[i]).1 == p;
                if i < before.len() {
                    assert(before[i].1 == p);
                }
            }
        }
        assert forall|p: Seq<char>|
            links.dom().contains(p) && (forall|i: int|
                0 <= i < pairs.len() ==> (#[trigger] pairs[i]).1 != p) implies #[trigger] end[p]
            == links[p] by {
            assert(pairs[pairs.len() - 1].1 != p);
            assert forall|i: int| 0 <= i < before.len() implies (#[trigger] before[i]).1 != p by {
                assert(before[i] == pairs[i]);
            }
        }
    }
}

} // verus!
