//! Resolving a selector against the index and the version cache of a
//! repository.
//!
//! The resolver only reads: it never runs a recipe. Reading the caches,
//! and syncing them where the plan says so, is the caller's part.

use crate::records::{spec_pkg_ctx, VersionEntry, VersionList};
use crate::repository::{ManagerEntry, PackageEntry, PackageList, RegistrationView, Repository};
use crate::resolve::{find_best_version, is_best_match, spec_matches_target};
use crate::selector::{PackageSelector, SelectorView};
use crate::text::{append_str, contains_char, find_char, from_chars, opt_view, substring, to_chars};
use crate::textmap::as_map;
use vstd::prelude::*;

verus! {

/// What to ask the version cache of a repository for.
#[derive(Debug, Clone)]
pub enum VersionRequest {
    /// The versions of a package that the repository registers.
    Package { entry: PackageEntry },
    /// The versions of `sub_name` under a manager that the repository
    /// registers; `full_name` is the manager, a colon, and the name.
    Manager { entry: ManagerEntry, full_name: String, sub_name: String },
}

/// The mathematical content of a version request.
pub enum RequestView {
    Package { entry: RegistrationView },
    Manager { entry: RegistrationView, full_name: Seq<char>, sub_name: Seq<char> },
}

impl View for VersionRequest {
    type V = RequestView;

    open spec fn view(&self) -> RequestView {
        match self {
            VersionRequest::Package { entry } => RequestView::Package { entry: entry@ },
            VersionRequest::Manager { entry, full_name, sub_name } => RequestView::Manager {
                entry: entry@,
                full_name: full_name@,
                sub_name: sub_name@,
            },
        }
    }
}

/// The full name of a package under a manager.
pub open spec fn spec_full_name(prefix: Seq<char>, name: Seq<char>) -> Seq<char> {
    prefix + seq![':'] + name
}

/// What a selector asks of a repository: without a prefix the package of
/// that name, with a prefix the name under the manager of that prefix;
/// nothing when the repository does not register it.
pub open spec fn spec_request(
    packages: Map<Seq<char>, RegistrationView>,
    managers: Map<Seq<char>, RegistrationView>,
    s: SelectorView,
) -> Option<RequestView> {
    match s.prefix {
        None => if packages.dom().contains(s.package) {
            Some(RequestView::Package { entry: packages[s.package] })
        } else {
            None
        },
        Some(p) => if managers.dom().contains(p) {
            Some(
                RequestView::Manager {
                    entry: managers[p],
                    full_name: spec_full_name(p, s.package),
                    sub_name: s.package,
                },
            )
        } else {
            None
        },
    }
}

/// The content of an optional request.
pub open spec fn opt_request(r: Option<VersionRequest>) -> Option<RequestView> {
    match r {
        Some(x) => Some(x@),
        None => None,
    }
}

/// The name under which the versions of a request are cached.
pub open spec fn spec_request_name(r: RequestView) -> Seq<char> {
    match r {
        RequestView::Package { entry } => entry.name,
        RequestView::Manager { full_name, .. } => full_name,
    }
}

/// Says what a selector asks of a repository.
pub fn version_request(pkg_list: &PackageList, selector: &PackageSelector) -> (r: Option<
    VersionRequest,
>)
    requires
        pkg_list.wf(),
    ensures
        opt_request(r) == spec_request(
            as_map(pkg_list.package_map@),
            as_map(pkg_list.manager_map@),
            selector@,
        ),
{
    match &selector.prefix {
        None => match pkg_list.package_map.get(selector.package.as_str()) {
            Some(pkg) => Some(VersionRequest::Package { entry: pkg.duplicate() }),
            None => None,
        },
        Some(p) => match pkg_list.manager_map.get(p.as_str()) {
            Some(mgr) => {
                let mut full: Vec<char> = Vec::new();
                append_str(&mut full, p.as_str());
                full.push(':');
                append_str(&mut full, selector.package.as_str());
                assert(full@ =~= spec_full_name(p@, selector@.package));
                Some(
                    VersionRequest::Manager {
                        entry: mgr.duplicate(),
                        full_name: from_chars(&full),
                        sub_name: selector.package.clone(),
                    },
                )
            },
            None => None,
        },
    }
}

impl VersionRequest {
    /// The name under which the versions are cached.
    pub fn package_name(&self) -> (r: String)
        ensures
            r@ == spec_request_name(self@),
    {
        match self {
            VersionRequest::Package { entry } => entry.name.clone(),
            VersionRequest::Manager { full_name, .. } => full_name.clone(),
        }
    }
}

/// The target of a selector: its version, or `stable` when it has none.
pub open spec fn spec_target(s: SelectorView) -> Seq<char> {
    match s.version {
        Some(v) => v,
        None => "stable"@,
    }
}

/// The target of a selector.
pub fn target_of(selector: &PackageSelector) -> (r: String)
    ensures
        r@ == spec_target(selector@),
{
    match &selector.version {
        Some(v) => v.clone(),
        None => String::from_str("stable"),
    }
}

/// A selector resolved in a repository.
#[derive(Debug, Clone)]
pub struct Resolution {
    /// `repo/name=version`.
    pub full_name: String,
    pub version: VersionEntry,
    pub repo_name: String,
}

/// Picks the version that a selector resolves to among the cached
/// versions of the requested name: the best match for the target of the
/// selector. The full name is the repository, the requested name and the
/// version found.
pub fn resolve_in_repo(
    repo: &Repository,
    request: &VersionRequest,
    selector: &PackageSelector,
    versions: VersionList,
) -> (r: Option<Resolution>)
    ensures
        match r {
            Some(res) => {
                &&& exists|idx: int|
                    is_best_match(versions@, spec_target(selector@), idx) && res.version@
                        == versions@[idx]
                &&& res.repo_name@ == repo@.name
                &&& res.full_name@ == spec_pkg_ctx(
                    repo@.name,
                    spec_request_name(request@),
                    res.version@.version.raw,
                )
            },
            None => forall|j: int|
                0 <= j < versions@.len() ==> !spec_matches_target(
                    #[trigger] versions@[j],
                    spec_target(selector@),
                ),
        },
{
    let target = target_of(selector);
    match find_best_version(versions, target.as_str()) {
        None => None,
        Some(v) => {
            let name = request.package_name();
            let mut full: Vec<char> = Vec::new();
            append_str(&mut full, repo.name.as_str());
            full.push('/');
            append_str(&mut full, name.as_str());
            full.push('=');
            append_str(&mut full, v.version.raw.as_str());
            assert(full@ =~= spec_pkg_ctx(
                repo@.name,
                spec_request_name(request@),
                v@.version.raw,
            ));
            Some(
                Resolution { full_name: from_chars(&full), version: v, repo_name: repo.name.clone() },
            )
        },
    }
}

/// Whether a resolution is tried once more, and how: a first try reads
/// the caches; when it finds nothing and the run is not forced anyway, a
/// second and last try syncs first.
pub open spec fn spec_next_attempt(config_force: bool, attempts_made: int) -> Option<bool> {
    if attempts_made == 0 {
        Some(false)
    } else if attempts_made == 1 && !config_force {
        Some(true)
    } else {
        None
    }
}

/// Says whether to try a resolution (again), and whether that try forces
/// a sync.
pub fn next_attempt(config_force: bool, attempts_made: usize) -> (r: Option<bool>)
    ensures
        r == spec_next_attempt(config_force, attempts_made as int),
{
    if attempts_made == 0 {
        Some(false)
    } else if attempts_made == 1 && !config_force {
        Some(true)
    } else {
        None
    }
}

/// Where a cached list may come from.
#[derive(Debug, Clone, Copy, PartialEq, Eq, Structural)]
pub enum CacheSource {
    /// The list memoized in this process.
    Memory,
    /// The file on disk.
    Disk,
    /// A sync, then the file on disk.
    Sync,
}

/// The sources of a cached list, in the order in which they are tried: a
/// forced lookup goes straight to the sync.
pub open spec fn spec_lookup_order(force: bool) -> Seq<CacheSource> {
    if force {
        seq![CacheSource::Sync]
    } else {
        seq![CacheSource::Memory, CacheSource::Disk, CacheSource::Sync]
    }
}

/// Lists the sources of a cached list in the order in which to try them.
/// A source that fails is followed by the next; when the last fails the
/// list is absent.
pub fn lookup_order(config_force: bool, force: bool) -> (r: Vec<CacheSource>)
    ensures
        r@ == spec_lookup_order(config_force || force),
{
    let mut out: Vec<CacheSource> = Vec::new();
    if !(config_force || force) {
        out.push(CacheSource::Memory);
        out.push(CacheSource::Disk);
    }
    out.push(CacheSource::Sync);
    assert(out@ =~= spec_lookup_order(config_force || force));
    out
}

/// What a listing shows: everything when all is asked for; without a
/// selector the newest stable version of each package; with a selector the
/// versions that match its target.
pub open spec fn spec_listing_mode(all: bool, selector: Option<SelectorView>) -> (Seq<char>, bool) {
    if all {
        ("all"@, false)
    } else {
        match selector {
            None => ("stable"@, true),
            Some(s) => (spec_target(s), false),
        }
    }
}

/// The content of an optional selector.
pub open spec fn opt_selector(s: Option<PackageSelector>) -> Option<SelectorView> {
    match s {
        Some(x) => Some(x@),
        None => None,
    }
}

/// Decides what a listing shows: the filter, and whether only the best
/// version of each package is shown.
pub fn determine_listing_mode(all: bool, selector: &Option<PackageSelector>) -> (r: (String, bool))
    ensures
        (r.0@, r.1) == spec_listing_mode(all, opt_selector(*selector)),
{
    if all {
        (String::from_str("all"), false)
    } else {
        match selector {
            None => (String::from_str("stable"), true),
            Some(s) => (target_of(s), false),
        }
    }
}

/// What is before the first colon of a name; the name itself when it has
/// no colon.
pub open spec fn spec_before_colon(name: Seq<char>) -> Seq<char> {
    match name.index_of_first(':') {
        Some(i) => name.subrange(0, i),
        None => name,
    }
}

/// What is between the first and the second colon of a name (to the end
/// when there is no second); nothing when the name has no colon.
pub open spec fn spec_after_colon(name: Seq<char>) -> Option<Seq<char>> {
    match name.index_of_first(':') {
        Some(i) => Some(spec_before_colon(name.subrange(i + 1, name.len() as int))),
        None => None,
    }
}

/// The part of a name before its first colon.
pub fn before_colon(name: &str) -> (r: String)
    ensures
        r@ == spec_before_colon(name@),
{
    let v = to_chars(name);
    match find_char(&v, ':') {
        Some(i) => substring(&v, 0, i),
        None => from_chars(&v),
    }
}

/// The part of a name between its first and second colon.
pub fn after_colon(name: &str) -> (r: Option<String>)
    ensures
        opt_view(r) == spec_after_colon(name@),
{
    let v = to_chars(name);
    match find_char(&v, ':') {
        Some(i) => {
            let rest = crate::text::slice_chars(&v, i + 1, v.len());
            match find_char(&rest, ':') {
                Some(j) => Some(substring(&rest, 0, j)),
                None => Some(from_chars(&rest)),
            }
        },
        None => None,
    }
}

/// Where the recipe of a version is found and how it is called: the
/// recipe file, the discovery function, and its argument.
#[derive(Debug, Clone)]
pub struct EntryDetails {
    pub filename: String,
    pub function_name: String,
    pub argument: String,
    /// The function is that of a manager.
    pub is_manager: bool,
}

/// The mathematical content of entry details.
pub struct DetailsView {
    pub filename: Seq<char>,
    pub function_name: Seq<char>,
    pub argument: Seq<char>,
    pub is_manager: bool,
}

impl View for EntryDetails {
    type V = DetailsView;

    open spec fn view(&self) -> DetailsView {
        DetailsView {
            filename: self.filename@,
            function_name: self.function_name@,
            argument: self.argument@,
            is_manager: self.is_manager,
        }
    }
}

/// The name a manager function is called with: what follows the colon of
/// the package name, or the whole name when it has no colon.
pub open spec fn spec_inner_name(pkgname: Seq<char>) -> Seq<char> {
    match spec_after_colon(pkgname) {
        Some(n) => n,
        None => pkgname,
    }
}

/// The recipe of a version: that of the package of its name, if the
/// repository registers one; else that of the manager named by the prefix
/// of the selector; else that of the manager named before the colon of the
/// package name.
pub open spec fn spec_entry_details(
    packages: Map<Seq<char>, RegistrationView>,
    managers: Map<Seq<char>, RegistrationView>,
    pkgname: Seq<char>,
    s: SelectorView,
) -> Option<DetailsView> {
    if packages.dom().contains(pkgname) {
        let p = packages[pkgname];
        Some(
            DetailsView {
                filename: p.filename,
                function_name: p.function_name,
                argument: p.name,
                is_manager: false,
            },
        )
    } else if s.prefix is Some && managers.dom().contains(s.prefix.unwrap()) {
        let m = managers[s.prefix.unwrap()];
        Some(
            DetailsView {
                filename: m.filename,
                function_name: m.function_name,
                argument: spec_inner_name(pkgname),
                is_manager: true,
            },
        )
    } else if pkgname.contains(':') && managers.dom().contains(spec_before_colon(pkgname)) {
        let m = managers[spec_before_colon(pkgname)];
        Some(
            DetailsView {
                filename: m.filename,
                function_name: m.function_name,
                argument: spec_inner_name(pkgname),
                is_manager: true,
            },
        )
    } else {
        None
    }
}

/// The content of optional entry details.
pub open spec fn opt_details(r: Option<EntryDetails>) -> Option<DetailsView> {
    match r {
        Some(x) => Some(x@),
        None => None,
    }
}

/// Finds the recipe of a version in the index of its repository.
pub fn find_entry_details(
    pkg_list: &PackageList,
    version: &VersionEntry,
    selector: &PackageSelector,
) -> (r: Option<EntryDetails>)
    requires
        pkg_list.wf(),
    ensures
        opt_details(r) == spec_entry_details(
            as_map(pkg_list.package_map@),
            as_map(pkg_list.manager_map@),
            version@.pkgname,
            selector@,
        ),
{
    if let Some(pkg) = pkg_list.package_map.get(version.pkgname.as_str()) {
        return Some(
            EntryDetails {
                filename: pkg.filename.clone(),
                function_name: pkg.function_name.clone(),
                argument: pkg.name.clone(),
                is_manager: false,
            },
        );
    }
    let inner = match after_colon(version.pkgname.as_str()) {
        Some(n) => n,
        None => version.pkgname.clone(),
    };
    if let Some(prefix) = &selector.prefix {
        if let Some(mgr) = pkg_list.manager_map.get(prefix.as_str()) {
            return Some(
                EntryDetails {
                    filename: mgr.filename.clone(),
                    function_name: mgr.function_name.clone(),
                    argument: inner,
                    is_manager: true,
                },
            );
        }
    }
    let name = to_chars(version.pkgname.as_str());
    if contains_char(&name, ':') {
        let mgr_name = before_colon(version.pkgname.as_str());
        if let Some(mgr) = pkg_list.manager_map.get(mgr_name.as_str()) {
            return Some(
                EntryDetails {
                    filename: mgr.filename.clone(),
                    function_name: mgr.function_name.clone(),
                    argument: inner,
                    is_manager: true,
                },
            );
        }
    }
    None
}

/// The record among the freshly evaluated ones that has the version of
/// the cached record: the concrete record of a build.
pub fn concrete_version(evaluated: &Vec<VersionEntry>, cached: &VersionEntry) -> (r: Option<
    VersionEntry,
>)
    ensures
        match r {
            Some(v) => exists|i: int|
                0 <= i < evaluated.len() && v@ == evaluated@[i]@ && evaluated@[i]@.version
                    == cached@.version && forall|j: int|
                    0 <= j < i ==> (#[trigger] evaluated@[j])@.version != cached@.version,
            None => forall|j: int|
                0 <= j < evaluated.len() ==> (#[trigger] evaluated@[j])@.version != cached@.version,
        },
{
    let mut i: usize = 0;
    while i < evaluated.len()
        invariant
            i <= evaluated.len(),
            forall|j: int| 0 <= j < i ==> (#[trigger] evaluated@[j])@.version != cached@.version,
        decreases evaluated.len() - i,
    {
        if evaluated[i].version.same(&cached.version) {
            return Some(evaluated[i].duplicate());
        }
        i += 1;
    }
    None
}

/// What a name means among the registrations of one recipe file.
#[derive(Debug, Clone, PartialEq, Eq)]
pub enum TrialTarget {
    /// The manager at `index` of the managers, asked for `sub_name`.
    Manager { index: usize, sub_name: String },
    /// The package at `index` of the packages.
    Package { index: usize },
    /// Nothing of that name is registered.
    NotFound,
}

/// The mathematical content of a trial target.
pub enum TrialView {
    Manager { index: usize, sub_name: Seq<char> },
    Package { index: usize },
    NotFound,
}

impl View for TrialTarget {
    type V = TrialView;

    open spec fn view(&self) -> TrialView {
        match self {
            TrialTarget::Manager { index, sub_name } => TrialView::Manager {
                index: *index,
                sub_name: sub_name@,
            },
            TrialTarget::Package { index } => TrialView::Package { index: *index },
            TrialTarget::NotFound => TrialView::NotFound,
        }
    }
}

/// `i` is the first position of a registration called `name`.
pub open spec fn is_first_named(entries: Seq<RegistrationView>, name: Seq<char>, i: int) -> bool {
    &&& 0 <= i < entries.len()
    &&& entries[i].name == name
    &&& forall|j: int| 0 <= j < i ==> (#[trigger] entries[j]).name != name
}

/// No registration is called `name`.
pub open spec fn none_named(entries: Seq<RegistrationView>, name: Seq<char>) -> bool {
    forall|j: int| 0 <= j < entries.len() ==> (#[trigger] entries[j]).name != name
}

/// `target` is what `name` means among the registrations: where the name
/// has a colon and a manager is called as what stands before it, the first
/// such manager, asked for all that follows the colon; else the first
/// package called `name`; else nothing.
pub open spec fn is_trial_target(
    packages: Seq<RegistrationView>,
    managers: Seq<RegistrationView>,
    name: Seq<char>,
    target: TrialView,
) -> bool {
    let colon = name.index_of_first(':');
    let by_manager = colon is Some && !none_named(managers, name.subrange(0, colon.unwrap()));
    match target {
        TrialView::Manager { index, sub_name } => by_manager && is_first_named(
            managers,
            name.subrange(0, colon.unwrap()),
            index as int,
        ) && sub_name == name.subrange(colon.unwrap() + 1, name.len() as int),
        TrialView::Package { index } => !by_manager && is_first_named(
            packages,
            name,
            index as int,
        ),
        TrialView::NotFound => !by_manager && none_named(packages, name),
    }
}

/// The position of the first entry of a list of names that equals `name`.
fn first_named(names: &Vec<&str>, name: &str) -> (r: Option<usize>)
    ensures
        match r {
            Some(i) => i < names.len() && names@[i as int]@ == name@ && forall|j: int|
                0 <= j < i ==> (#[trigger] names@[j])@ != name@,
            None => forall|j: int| 0 <= j < names.len() ==> (#[trigger] names@[j])@ != name@,
        },
{
    let mut i: usize = 0;
    while i < names.len()
        invariant
            i <= names.len(),
            forall|j: int| 0 <= j < i ==> (#[trigger] names@[j])@ != name@,
        decreases names.len() - i,
    {
        if crate::text::str_eq(names[i], name) {
            return Some(i);
        }
        i += 1;
    }
    None
}

/// Decides what `name` means among the packages and managers that one
/// recipe file registers.
pub fn trial_target(packages: &Vec<PackageEntry>, managers: &Vec<ManagerEntry>, name: &str) -> (r:
    TrialTarget)
    ensures
        is_trial_target(
            crate::records::views(packages@),
            crate::records::views(managers@),
            name@,
            r@,
        ),
{
    let ghost ps = crate::records::views(packages@);
    let ghost ms = crate::records::views(managers@);
    let v = to_chars(name);
    let mut manager_names: Vec<&str> = Vec::new();
    let mut i: usize = 0;
    while i < managers.len()
        invariant
            i <= managers.len(),
            manager_names.len() == i,
            forall|j: int| 0 <= j < i ==> (#[trigger] manager_names@[j])@ == managers@[j].name@,
        decreases managers.len() - i,
    {
        manager_names.push(managers[i].name.as_str());
        i += 1;
    }
    let mut package_names: Vec<&str> = Vec::new();
    let mut k: usize = 0;
    while k < packages.len()
        invariant
            k <= packages.len(),
            package_names.len() == k,
            forall|j: int| 0 <= j < k ==> (#[trigger] package_names@[j])@ == packages@[j].name@,
        decreases packages.len() - k,
    {
        package_names.push(packages[k].name.as_str());
        k += 1;
    }
    proof {
        assert forall|j: int| 0 <= j < ms.len() implies (#[trigger] ms[j]).name
            == manager_names@[j]@ by {}
        assert forall|j: int| 0 <= j < ps.len() implies (#[trigger] ps[j]).name
            == package_names@[j]@ by {}
    }
    if let Some(c) = find_char(&v, ':') {
        let prefix = substring(&v, 0, c);
        if let Some(m) = first_named(&manager_names, prefix.as_str()) {
            assert(ms[m as int].name == prefix@);
            return TrialTarget::Manager { index: m, sub_name: substring(&v, c + 1, v.len()) };
        }
    }
    match first_named(&package_names, name) {
        Some(p) => {
            assert(ps[p as int].name == name@);
            TrialTarget::Package { index: p }
        },
        None => TrialTarget::NotFound,
    }
}

/// One thing that a listing shows of a repository.
#[derive(Debug, Clone)]
pub enum ListingItem {
    /// The versions of a package as far as the version cache on disk keeps
    /// them; where it keeps none, a line of dashes if `placeholder` says
    /// so.
    Kept { entry: PackageEntry, placeholder: bool },
    /// The versions that a request gives, from the caches or from a sync.
    Versions { request: VersionRequest },
    /// A line for a manager that was asked for without a name.
    ManagerLine { prefix: String },
}

/// The mathematical content of a listing item.
pub enum ItemView {
    Kept { entry: RegistrationView, placeholder: bool },
    Versions { request: RequestView },
    ManagerLine { prefix: Seq<char> },
}

impl View for ListingItem {
    type V = ItemView;

    open spec fn view(&self) -> ItemView {
        match self {
            ListingItem::Kept { entry, placeholder } => ItemView::Kept {
                entry: entry@,
                placeholder: *placeholder,
            },
            ListingItem::Versions { request } => ItemView::Versions { request: request@ },
            ListingItem::ManagerLine { prefix } => ItemView::ManagerLine { prefix: prefix@ },
        }
    }
}

/// Whether a package is listed under the name asked for: under its own
/// name, and under `*`.
pub open spec fn spec_listed_as(entry: RegistrationView, asked: Seq<char>) -> bool {
    asked == seq!['*'] || entry.name == asked
}

/// An item for every package of the index, in the order of the index.
pub open spec fn spec_kept_items(
    packages: Seq<(Seq<char>, RegistrationView)>,
    placeholder: bool,
) -> Seq<ItemView> {
    Seq::new(packages.len(), |i: int| ItemView::Kept { entry: packages[i].1, placeholder })
}

/// An item for every package of the index that is listed under `asked`,
/// in the order of the index.
pub open spec fn spec_named_items(
    packages: Seq<(Seq<char>, RegistrationView)>,
    asked: Seq<char>,
) -> Seq<ItemView>
    decreases packages.len(),
{
    if packages.len() == 0 {
        Seq::empty()
    } else {
        let before = spec_named_items(packages.drop_last(), asked);
        if spec_listed_as(packages.last().1, asked) {
            before.push(
                ItemView::Versions { request: RequestView::Package { entry: packages.last().1 } },
            )
        } else {
            before
        }
    }
}

/// What a listing shows of a repository. Without a selector: every
/// package, as far as the disk keeps its versions, with a line of dashes
/// for one without versions unless all versions were asked for. With a
/// selector without prefix: the packages listed under its name. With a
/// prefix: the name under the manager of that prefix, if the repository
/// has that manager; a line for the manager itself where no name is given.
pub open spec fn spec_listing_plan(
    packages: Seq<(Seq<char>, RegistrationView)>,
    managers: Seq<(Seq<char>, RegistrationView)>,
    selector: Option<SelectorView>,
    all: bool,
) -> Seq<ItemView> {
    match selector {
        None => spec_kept_items(packages, !all),
        Some(s) => match s.prefix {
            None => if s.package.len() == 0 {
                Seq::empty()
            } else {
                spec_named_items(packages, s.package)
            },
            Some(p) => match crate::textmap::spec_get(managers, p) {
                None => Seq::empty(),
                Some(m) => if s.package.len() == 0 {
                    seq![ItemView::ManagerLine { prefix: p }]
                } else {
                    seq![
                        ItemView::Versions {
                            request: RequestView::Manager {
                                entry: m,
                                full_name: spec_full_name(p, s.package),
                                sub_name: s.package,
                            },
                        },
                    ]
                },
            },
        },
    }
}

/// Plans the listing of a repository.
pub fn listing_plan(pkg_list: &PackageList, selector: &Option<PackageSelector>, all: bool) -> (r:
    Vec<ListingItem>)
    requires
        pkg_list.wf(),
    ensures
        crate::records::views(r@) == spec_listing_plan(
            pkg_list.package_map@,
            pkg_list.manager_map@,
            match *selector {
                Some(s) => Some(s@),
                None => None,
            },
            all,
        ),
{
    let ghost packages = pkg_list.package_map@;
    let mut out: Vec<ListingItem> = Vec::new();
    match selector {
        None => {
            let mut i: usize = 0;
            while i < pkg_list.package_map.entries.len()
                invariant
                    i <= pkg_list.package_map.entries.len(),
                    packages == pkg_list.package_map@,
                    out.len() == i,
                    forall|j: int|
                        0 <= j < i ==> (#[trigger] out@[j])@ == (ItemView::Kept {
                            entry: packages[j].1,
                            placeholder: !all,
                        }),
                decreases pkg_list.package_map.entries.len() - i,
            {
                let entry = pkg_list.package_map.entries[i].1.duplicate();
                out.push(ListingItem::Kept { entry, placeholder: !all });
                i += 1;
            }
            assert(crate::records::views(out@) =~= spec_kept_items(packages, !all));
        },
        Some(s) => match &s.prefix {
            None => {
                if s.package.as_str().unicode_len() > 0 {
                    let any = crate::text::str_eq(s.package.as_str(), "*");
                    proof {
                        reveal_strlit("*");
                        assert("*"@ =~= seq!['*']);
                    }
                    let mut i: usize = 0;
                    assert(packages.take(0) =~= Seq::<(Seq<char>, RegistrationView)>::empty());
                    assert(crate::records::views(out@) =~= Seq::<ItemView>::empty());
                    while i < pkg_list.package_map.entries.len()
                        invariant
                            i <= pkg_list.package_map.entries.len(),
                            packages == pkg_list.package_map@,
                            any == (s@.package == seq!['*']),
                            crate::records::views(out@) == spec_named_items(
                                packages.take(i as int),
                                s@.package,
                            ),
                        decreases pkg_list.package_map.entries.len() - i,
                    {
                        assert(packages.take(i + 1).drop_last() =~= packages.take(i as int));
                        assert(packages.take(i + 1).last() == packages[i as int]);
                        let e = &pkg_list.package_map.entries[i].1;
                        if any || crate::text::str_eq(e.name.as_str(), s.package.as_str()) {
                            let ghost before = crate::records::views(out@);
                            out.push(
                                ListingItem::Versions {
                                    request: VersionRequest::Package { entry: e.duplicate() },
                                },
                            );
                            assert(crate::records::views(out@) =~= before.push(
                                ItemView::Versions {
                                    request: RequestView::Package { entry: packages[i as int].1 },
                                },
                            ));
                        }
                        i += 1;
                    }
                    assert(packages.take(packages.len() as int) =~= packages);
                } else {
                    assert(crate::records::views(out@) =~= Seq::<ItemView>::empty());
                }
            },
            Some(p) => match pkg_list.manager_map.get(p.as_str()) {
                None => {
                    assert(crate::records::views(out@) =~= Seq::<ItemView>::empty());
                },
                Some(mgr) => {
                    if s.package.as_str().unicode_len() == 0 {
                        out.push(ListingItem::ManagerLine { prefix: p.clone() });
                        assert(crate::records::views(out@) =~= seq![
                            ItemView::ManagerLine { prefix: p@ },
                        ]);
                    } else {
                        let mut full: Vec<char> = Vec::new();
                        append_str(&mut full, p.as_str());
                        full.push(':');
                        append_str(&mut full, s.package.as_str());
                        assert(full@ =~= spec_full_name(p@, s@.package));
                        let request = VersionRequest::Manager {
                            entry: mgr.duplicate(),
                            full_name: from_chars(&full),
                            sub_name: s.package.clone(),
                        };
                        let ghost rv = request@;
                        out.push(ListingItem::Versions { request });
                        assert(crate::records::views(out@) =~= seq![
                            ItemView::Versions { request: rv },
                        ]);
                    }
                },
            },
        },
    }
    out
}

} // verus!
