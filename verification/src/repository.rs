//! Repositories and their index of packages and managers.

use crate::error::{BuildError, ErrorView};
use crate::records::views;
use crate::selector::{PackageSelector, SelectorView};
use crate::text::{append_str, ends_with, from_chars, starts_with, str_eq, to_chars};
use crate::textmap::{as_map, SortedMap};
use vstd::prelude::*;

verus! {

/// A configured repository.
#[derive(Debug, Clone)]
pub struct Repository {
    pub path: String,
    pub name: String,
}

/// The mathematical content of a repository.
pub struct RepositoryView {
    pub path: Seq<char>,
    pub name: Seq<char>,
}

impl View for Repository {
    type V = RepositoryView;

    open spec fn view(&self) -> RepositoryView {
        RepositoryView { path: self.path@, name: self.name@ }
    }
}

impl Repository {
    /// A repository at `path` called `name`.
    pub fn new(path: String, name: String) -> (r: Repository)
        ensures
            r@ == (RepositoryView { path: path@, name: name@ }),
    {
        Self { path, name }
    }
}

/// The configured repositories.
#[derive(Debug, Clone)]
pub struct Repositories {
    pub repositories: Vec<Repository>,
}

impl View for Repositories {
    type V = Seq<RepositoryView>;

    open spec fn view(&self) -> Seq<RepositoryView> {
        views(self.repositories@)
    }
}

/// A repository at `path` is registered.
pub open spec fn has_path(repos: Seq<RepositoryView>, path: Seq<char>) -> bool {
    exists|i: int| 0 <= i < repos.len() && (#[trigger] repos[i]).path == path
}

/// A repository called `name` is registered.
pub open spec fn has_name(repos: Seq<RepositoryView>, name: Seq<char>) -> bool {
    exists|i: int| 0 <= i < repos.len() && (#[trigger] repos[i]).name == name
}

/// What registering a repository is answered with: a path that is
/// registered is refused, then a name that is registered.
pub open spec fn spec_validate(repos: Seq<RepositoryView>, name: Seq<char>, path: Seq<char>) -> Result<
    (),
    ErrorView,
> {
    if has_path(repos, path) {
        Err(ErrorView::DuplicateRepositoryPath { path })
    } else if has_name(repos, name) {
        Err(ErrorView::DuplicateRepositoryName { name })
    } else {
        Ok(())
    }
}

/// Checks that neither the path nor the name of a new repository is
/// registered already.
pub fn validate_new_repo(repo_config: &Repositories, name: &str, path: &str) -> (r: Result<
    (),
    BuildError,
>)
    ensures
        crate::pipeline::unit_result_view(r) == spec_validate(repo_config@, name@, path@),
{
    let ghost repos = repo_config@;
    let mut i: usize = 0;
    while i < repo_config.repositories.len()
        invariant
            i <= repo_config.repositories.len(),
            repos == repo_config@,
            forall|j: int| 0 <= j < i ==> (#[trigger] repos[j]).path != path@,
        decreases repo_config.repositories.len() - i,
    {
        assert(repos[i as int] == repo_config.repositories@[i as int]@);
        if str_eq(repo_config.repositories[i].path.as_str(), path) {
            return Err(BuildError::DuplicateRepositoryPath { path: String::from_str(path) });
        }
        i += 1;
    }
    let mut i: usize = 0;
    while i < repo_config.repositories.len()
        invariant
            i <= repo_config.repositories.len(),
            repos == repo_config@,
            !has_path(repos, path@),
            forall|j: int| 0 <= j < i ==> (#[trigger] repos[j]).name != name@,
        decreases repo_config.repositories.len() - i,
    {
        assert(repos[i as int] == repo_config.repositories@[i as int]@);
        if str_eq(repo_config.repositories[i].name.as_str(), name) {
            return Err(BuildError::DuplicateRepositoryName { name: String::from_str(name) });
        }
        i += 1;
    }
    Ok(())
}

impl Repositories {
    /// Registers a repository behind the others, unless its path or its
    /// name is registered already; then nothing changes.
    pub fn register(&mut self, path: &str, name: &str) -> (r: Result<(), BuildError>)
        ensures
            crate::pipeline::unit_result_view(r) == spec_validate(old(self)@, name@, path@),
            r is Ok ==> final(self)@ == old(self)@.push(RepositoryView { path: path@, name: name@ }),
            r is Err ==> final(self)@ == old(self)@,
    {
        match validate_new_repo(self, name, path) {
            Ok(()) => {
                let ghost before = self@;
                self.repositories.push(Repository::new(String::from_str(path), String::from_str(name)));
                assert(self@ =~= before.push(RepositoryView { path: path@, name: name@ }));
                Ok(())
            },
            Err(e) => Err(e),
        }
    }
}

/// A selector that names a repository leaves all others out.
pub open spec fn spec_skip_repo(repo: RepositoryView, selector: SelectorView) -> bool {
    match selector.recipe {
        Some(r) => repo.name != r,
        None => false,
    }
}

/// `true` when the selector is restricted to another repository.
pub fn should_skip_repo(repo: &Repository, selector: &PackageSelector) -> (r: bool)
    ensures
        r == spec_skip_repo(repo@, selector@),
{
    match &selector.recipe {
        Some(r) => !str_eq(repo.name.as_str(), r.as_str()),
        None => false,
    }
}

/// A package that a recipe registers: its name, the discovery function,
/// and the recipe file.
#[derive(Debug, Clone)]
pub struct PackageEntry {
    pub name: String,
    pub function_name: String,
    pub filename: String,
}

/// A manager that a recipe registers.
#[derive(Debug, Clone)]
pub struct ManagerEntry {
    pub name: String,
    pub function_name: String,
    pub filename: String,
}

/// The mathematical content of a registration.
pub struct RegistrationView {
    pub name: Seq<char>,
    pub function_name: Seq<char>,
    pub filename: Seq<char>,
}

impl View for PackageEntry {
    type V = RegistrationView;

    open spec fn view(&self) -> RegistrationView {
        RegistrationView {
            name: self.name@,
            function_name: self.function_name@,
            filename: self.filename@,
        }
    }
}

impl View for ManagerEntry {
    type V = RegistrationView;

    open spec fn view(&self) -> RegistrationView {
        RegistrationView {
            name: self.name@,
            function_name: self.function_name@,
            filename: self.filename@,
        }
    }
}

impl PackageEntry {
    /// A copy of the entry.
    pub fn duplicate(&self) -> (r: PackageEntry)
        ensures
            r@ == self@,
    {
        PackageEntry {
            name: self.name.clone(),
            function_name: self.function_name.clone(),
            filename: self.filename.clone(),
        }
    }
}

impl ManagerEntry {
    /// A copy of the entry.
    pub fn duplicate(&self) -> (r: ManagerEntry)
        ensures
            r@ == self@,
    {
        ManagerEntry {
            name: self.name.clone(),
            function_name: self.function_name.clone(),
            filename: self.filename.clone(),
        }
    }
}

/// The index of a repository: what its recipes register, as lists and by
/// name.
#[derive(Debug, Clone)]
pub struct PackageList {
    pub packages: Vec<PackageEntry>,
    pub managers: Vec<ManagerEntry>,
    pub package_map: SortedMap<PackageEntry>,
    pub manager_map: SortedMap<ManagerEntry>,
}

/// The map from names to registrations that a list describes: of several
/// registrations of one name the last counts.
pub open spec fn spec_by_name(list: Seq<RegistrationView>) -> Map<Seq<char>, RegistrationView>
    decreases list.len(),
{
    if list.len() == 0 {
        Map::empty()
    } else {
        spec_by_name(list.drop_last()).insert(list.last().name, list.last())
    }
}

/// A registration with the recipe file set.
pub open spec fn spec_in_file(r: RegistrationView, file: Seq<char>) -> RegistrationView {
    RegistrationView { filename: file, ..r }
}

/// A list of registrations with the recipe file set in each.
pub open spec fn spec_all_in_file(list: Seq<RegistrationView>, file: Seq<char>) -> Seq<
    RegistrationView,
> {
    Seq::new(list.len(), |i: int| spec_in_file(list[i], file))
}

impl PackageList {
    /// The maps are in order.
    pub open spec fn wf(&self) -> bool {
        self.package_map.wf() && self.manager_map.wf()
    }

    /// Tells whether the maps are in order. An index that was read from a
    /// file is checked with this before it is used.
    pub fn is_sound(&self) -> (r: bool)
        ensures
            r == self.wf(),
    {
        self.package_map.is_ordered() && self.manager_map.is_ordered()
    }

    /// An index without entries.
    pub fn new() -> (r: PackageList)
        ensures
            r.wf(),
            r.packages@.len() == 0,
            r.managers@.len() == 0,
            as_map(r.package_map@) == Map::<Seq<char>, RegistrationView>::empty(),
            as_map(r.manager_map@) == Map::<Seq<char>, RegistrationView>::empty(),
    {
        let r = PackageList {
            packages: Vec::new(),
            managers: Vec::new(),
            package_map: SortedMap::new(),
            manager_map: SortedMap::new(),
        };
        assert(as_map(r.package_map@) =~= Map::<Seq<char>, RegistrationView>::empty());
        assert(as_map(r.manager_map@) =~= Map::<Seq<char>, RegistrationView>::empty());
        r
    }

    /// Enters every package and manager of the lists into the maps by
    /// name.
    pub fn initialize_maps(&mut self)
        requires
            old(self).wf(),
        ensures
            final(self).wf(),
            final(self).packages@ == old(self).packages@,
            final(self).managers@ == old(self).managers@,
            as_map(final(self).package_map@) == as_map(
                old(self).package_map@,
            ).union_prefer_right(spec_by_name(views(old(self).packages@))),
            as_map(final(self).manager_map@) == as_map(
                old(self).manager_map@,
            ).union_prefer_right(spec_by_name(views(old(self).managers@))),
    {
        let ghost pk = views(self.packages@);
        let ghost start = as_map(self.package_map@);
        let mut i: usize = 0;
        assert(pk.subrange(0, 0) =~= Seq::<RegistrationView>::empty());
        while i < self.packages.len()
            invariant
                i <= self.packages.len(),
                self.wf(),
                self.packages@ == old(self).packages@,
                self.managers@ == old(self).managers@,
                self.manager_map@ == old(self).manager_map@,
                pk == views(self.packages@),
                as_map(self.package_map@) == start.union_prefer_right(
                    spec_by_name(pk.subrange(0, i as int)),
                ),
            decreases self.packages.len() - i,
        {
            let ghost seen = pk.subrange(0, i as int);
            let ghost next = pk.subrange(0, i + 1);
            assert(next.drop_last() =~= seen);
            assert(next.last() == self.packages@[i as int]@);
            let e = self.packages[i].duplicate();
            self.package_map.insert(e.name.clone(), e);
            assert(as_map(self.package_map@) =~= start.union_prefer_right(spec_by_name(next)));
            i += 1;
        }
        assert(pk.subrange(0, pk.len() as int) =~= pk);
        let ghost mg = views(self.managers@);
        let ghost mstart = as_map(self.manager_map@);
        let mut i: usize = 0;
        assert(mg.subrange(0, 0) =~= Seq::<RegistrationView>::empty());
        while i < self.managers.len()
            invariant
                i <= self.managers.len(),
                self.wf(),
                self.packages@ == old(self).packages@,
                self.managers@ == old(self).managers@,
                mstart == as_map(old(self).manager_map@),
                as_map(self.package_map@) == start.union_prefer_right(spec_by_name(pk)),
                mg == views(self.managers@),
                as_map(self.manager_map@) == mstart.union_prefer_right(
                    spec_by_name(mg.subrange(0, i as int)),
                ),
            decreases self.managers.len() - i,
        {
            let ghost seen = mg.subrange(0, i as int);
            let ghost next = mg.subrange(0, i + 1);
            assert(next.drop_last() =~= seen);
            assert(next.last() == self.managers@[i as int]@);
            let e = self.managers[i].duplicate();
            self.manager_map.insert(e.name.clone(), e);
            assert(as_map(self.manager_map@) =~= mstart.union_prefer_right(spec_by_name(next)));
            i += 1;
        }
        assert(mg.subrange(0, mg.len() as int) =~= mg);
    }

    /// Takes in what one recipe file registers: each entry gets the path
    /// of the file, relative to the repository, and is appended.
    pub fn add_recipe(
        &mut self,
        rel_path: &str,
        found_pkgs: &Vec<PackageEntry>,
        found_mgrs: &Vec<ManagerEntry>,
    )
        ensures
            views(final(self).packages@) == views(old(self).packages@) + spec_all_in_file(
                views(found_pkgs@),
                rel_path@,
            ),
            views(final(self).managers@) == views(old(self).managers@) + spec_all_in_file(
                views(found_mgrs@),
                rel_path@,
            ),
            final(self).package_map@ == old(self).package_map@,
            final(self).manager_map@ == old(self).manager_map@,
    {
        let ghost listed = views(self.packages@);
        let ghost pw = spec_all_in_file(views(found_pkgs@), rel_path@);
        let mut i: usize = 0;
        assert(views(self.packages@) =~= listed + pw.subrange(0, 0));
        while i < found_pkgs.len()
            invariant
                i <= found_pkgs.len(),
                pw == spec_all_in_file(views(found_pkgs@), rel_path@),
                views(self.packages@) == listed + pw.subrange(0, i as int),
                self.managers@ == old(self).managers@,
                self.package_map@ == old(self).package_map@,
                self.manager_map@ == old(self).manager_map@,
            decreases found_pkgs.len() - i,
        {
            let e = PackageEntry {
                name: found_pkgs[i].name.clone(),
                function_name: found_pkgs[i].function_name.clone(),
                filename: String::from_str(rel_path),
            };
            assert(e@ == pw[i as int]);
            let ghost before = views(self.packages@);
            self.packages.push(e);
            assert(views(self.packages@) =~= before.push(pw[i as int]));
            assert(views(self.packages@) =~= listed + pw.subrange(0, i + 1));
            i += 1;
        }
        assert(pw.subrange(0, pw.len() as int) =~= pw);
        let ghost m0 = views(self.managers@);
        let ghost mw = spec_all_in_file(views(found_mgrs@), rel_path@);
        let mut i: usize = 0;
        assert(views(self.managers@) =~= m0 + mw.subrange(0, 0));
        while i < found_mgrs.len()
            invariant
                i <= found_mgrs.len(),
                mw == spec_all_in_file(views(found_mgrs@), rel_path@),
                views(self.managers@) == m0 + mw.subrange(0, i as int),
                views(self.packages@) == listed + pw,
                self.package_map@ == old(self).package_map@,
                self.manager_map@ == old(self).manager_map@,
            decreases found_mgrs.len() - i,
        {
            let e = ManagerEntry {
                name: found_mgrs[i].name.clone(),
                function_name: found_mgrs[i].function_name.clone(),
                filename: String::from_str(rel_path),
            };
            assert(e@ == mw[i as int]);
            let ghost before = views(self.managers@);
            self.managers.push(e);
            assert(views(self.managers@) =~= before.push(mw[i as int]));
            assert(views(self.managers@) =~= m0 + mw.subrange(0, i + 1));
            i += 1;
        }
        assert(mw.subrange(0, mw.len() as int) =~= mw);
    }
}

/// The name of a recipe file ends in `.star`, and something stands before
/// that ending: a file called just `.star` has no extension.
pub open spec fn spec_is_recipe_file(name: Seq<char>) -> bool {
    ".star"@.is_suffix_of(name) && name.len() > ".star"@.len()
}

/// `true` for the name of a recipe file.
pub fn is_recipe_file(name: &str) -> (r: bool)
    ensures
        r == spec_is_recipe_file(name@),
{
    let v = to_chars(name);
    let ending = to_chars(".star");
    v.len() > ending.len() && ends_with(&v, &ending)
}

/// The beginning of the names of the version files of a repository.
pub open spec fn spec_version_prefix(repo: Seq<char>) -> Seq<char> {
    "version-"@ + repo + seq!['-']
}

/// Whether a file of the metadata cache is a version file of the
/// repository: its name begins with `version-`, the repository and a
/// hyphen, and ends in `.json`.
pub open spec fn spec_is_version_file(repo: Seq<char>, file: Seq<char>) -> bool {
    spec_version_prefix(repo).is_prefix_of(file) && ".json"@.is_suffix_of(file)
}

/// `true` when re-syncing `repo_name` has to remove the file.
pub fn is_version_file_of(repo_name: &str, file_name: &str) -> (r: bool)
    ensures
        r == spec_is_version_file(repo_name@, file_name@),
{
    let mut prefix: Vec<char> = Vec::new();
    append_str(&mut prefix, "version-");
    append_str(&mut prefix, repo_name);
    prefix.push('-');
    assert(prefix@ =~= spec_version_prefix(repo_name@));
    let f = to_chars(file_name);
    starts_with(&f, &prefix) && ends_with(&f, &to_chars(".json"))
}

/// The key of a version list in memory: repository, colon, package.
pub open spec fn spec_memory_key(repo: Seq<char>, package: Seq<char>) -> Seq<char> {
    repo + seq![':'] + package
}

/// The key under which the versions of a package are memoized.
pub fn memory_key(repo_name: &str, package_name: &str) -> (r: String)
    ensures
        r@ == spec_memory_key(repo_name@, package_name@),
{
    let mut out: Vec<char> = Vec::new();
    append_str(&mut out, repo_name);
    out.push(':');
    append_str(&mut out, package_name);
    assert(out@ =~= spec_memory_key(repo_name@, package_name@));
    from_chars(&out)
}

/// `true` when re-syncing `repo_name` has to drop the memoized version
/// list with this key: the key begins with the repository and a colon.
pub fn is_memory_key_of(repo_name: &str, key: &str) -> (r: bool)
    ensures
        r == (repo_name@ + seq![':']).is_prefix_of(key@),
{
    let mut prefix: Vec<char> = Vec::new();
    append_str(&mut prefix, repo_name);
    prefix.push(':');
    assert(prefix@ =~= repo_name@ + seq![':']);
    starts_with(&to_chars(key), &prefix)
}

} // verus!
