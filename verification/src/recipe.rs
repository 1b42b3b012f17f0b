//! What the recipe host does on behalf of a recipe: collecting
//! registrations, building version records, answering for flags and
//! regular expressions.
//!
//! The interpreter that runs a recipe calls into this module; everything a
//! recipe registers lands in the context of its own evaluation.

use crate::error::{BuildError, ErrorView};
use crate::inspect::{inspect_version, spec_inspected, spec_version_groups};
use crate::netcache::Cache;
use crate::pattern::{capture, groups_view, regex_group_count, regex_groups, regex_valid, Captured};
use crate::platform::{Arch, OS};
use crate::records::{
    copy_dependencies, copy_exports, copy_flags, copy_steps, views, BuildFlag, Dependency,
    DependencyView, EntryView, Export, ExportView, FlagView, InstallStep, StepView, VersionEntry,
};
use crate::repository::{ManagerEntry, PackageEntry, RegistrationView};
use crate::text::{
    from_chars, opt_view, rfind_char, slice_chars, starts_with, str_eq, strings_view, substring,
    to_chars,
};
use crate::textmap::{spec_get, TextMap};
use crate::version::{spec_parse_release_type, ReleaseType, ReleaseTypeView};
use vstd::prelude::*;

verus! {

/// A version record under construction.
#[derive(Debug, Clone)]
pub struct VersionBuilder {
    pub pkgname: String,
    pub version: String,
    pub release_date: String,
    pub release_type: String,
    pub stream: String,
    pub pipeline: Vec<InstallStep>,
    pub exports: Vec<Export>,
    pub flags: Vec<BuildFlag>,
    pub build_dependencies: Vec<Dependency>,
}

/// The mathematical content of a builder.
pub struct BuilderView {
    pub pkgname: Seq<char>,
    pub version: Seq<char>,
    pub release_date: Seq<char>,
    pub release_type: Seq<char>,
    pub stream: Seq<char>,
    pub pipeline: Seq<StepView>,
    pub exports: Seq<ExportView>,
    pub flags: Seq<FlagView>,
    pub build_dependencies: Seq<DependencyView>,
}

impl View for VersionBuilder {
    type V = BuilderView;

    open spec fn view(&self) -> BuilderView {
        BuilderView {
            pkgname: self.pkgname@,
            version: self.version@,
            release_date: self.release_date@,
            release_type: self.release_type@,
            stream: self.stream@,
            pipeline: views(self.pipeline@),
            exports: views(self.exports@),
            flags: views(self.flags@),
            build_dependencies: views(self.build_dependencies@),
        }
    }
}

/// The default of a flag as a recipe writes it.
#[derive(Debug, Clone)]
pub enum FlagDefault {
    Flag(bool),
    Text(String),
}

/// The text of a flag default.
pub open spec fn spec_default_text(d: FlagDefault) -> Seq<char> {
    match d {
        FlagDefault::Flag(b) => if b {
            "true"@
        } else {
            "false"@
        },
        FlagDefault::Text(s) => s@,
    }
}

/// The release type a builder starts with: the one given, or `stable`.
pub open spec fn spec_given_type(release_type: Option<Seq<char>>) -> Seq<char> {
    match release_type {
        Some(t) => t,
        None => "stable"@,
    }
}

/// The builder that `create_version` makes.
pub open spec fn spec_created(
    pkgname: Seq<char>,
    version: Seq<char>,
    release_date: Option<Seq<char>>,
    release_type: Option<Seq<char>>,
) -> Result<BuilderView, ErrorView> {
    let t = spec_given_type(release_type);
    if spec_parse_release_type(t) is Some {
        Ok(
            BuilderView {
                pkgname,
                version,
                release_date: match release_date {
                    Some(d) => d,
                    None => Seq::empty(),
                },
                release_type: t,
                stream: Seq::empty(),
                pipeline: Seq::empty(),
                exports: Seq::empty(),
                flags: Seq::empty(),
                build_dependencies: Seq::empty(),
            },
        )
    } else {
        Err(ErrorView::InvalidReleaseType { literal: t })
    }
}

/// The content of a builder result.
pub open spec fn builder_result_view(r: Result<VersionBuilder, BuildError>) -> Result<
    BuilderView,
    ErrorView,
> {
    match r {
        Ok(b) => Ok(b@),
        Err(e) => Err(e@),
    }
}

/// The default of the first flag called `name`.
pub open spec fn spec_flag_default(flags: Seq<FlagView>, name: Seq<char>) -> Option<Seq<char>>
    decreases flags.len(),
{
    if flags.len() == 0 {
        None
    } else if flags[0].name == name {
        Some(flags[0].default_value)
    } else {
        spec_flag_default(flags.drop_first(), name)
    }
}

/// The value in force of a flag: what the workspace options say, else the
/// default that the recipe declared, else nothing.
pub open spec fn spec_flag_value(
    options: Seq<(Seq<char>, Seq<char>)>,
    flags: Seq<FlagView>,
    name: Seq<char>,
) -> Option<Seq<char>> {
    match spec_get(options, name) {
        Some(v) => Some(v),
        None => spec_flag_default(flags, name),
    }
}

/// The record that a builder registers: the version text read for its
/// components, the release type as validated.
pub open spec fn spec_registered(b: BuilderView) -> EntryView {
    EntryView {
        pkgname: b.pkgname,
        version: spec_inspected(b.version, spec_version_groups(b.version)).0,
        release_date: b.release_date,
        release_type: match spec_parse_release_type(b.release_type) {
            Some(t) => t,
            None => ReleaseTypeView::Stable,
        },
        stream: b.stream,
        pipeline: b.pipeline,
        exports: b.exports,
        flags: b.flags,
        build_dependencies: b.build_dependencies,
    }
}

impl VersionBuilder {
    /// Starts a version record. The release type must be one of the four
    /// channels or have the shape of a version; anything else fails.
    pub fn create_version(
        pkgname: String,
        version: String,
        release_date: Option<String>,
        release_type: Option<String>,
    ) -> (r: Result<VersionBuilder, BuildError>)
        ensures
            builder_result_view(r) == spec_created(
                pkgname@,
                version@,
                opt_view(release_date),
                opt_view(release_type),
            ),
    {
        let t = match release_type {
            Some(t) => t,
            None => String::from_str("stable"),
        };
        if ReleaseType::parse(t.as_str()).is_none() {
            return Err(BuildError::InvalidReleaseType { literal: t });
        }
        let r = VersionBuilder {
            pkgname,
            version,
            release_date: match release_date {
                Some(d) => d,
                None => String::new(),
            },
            release_type: t,
            stream: String::new(),
            pipeline: Vec::new(),
            exports: Vec::new(),
            flags: Vec::new(),
            build_dependencies: Vec::new(),
        };
        assert(r@.pipeline =~= Seq::<StepView>::empty());
        assert(r@.exports =~= Seq::<ExportView>::empty());
        assert(r@.flags =~= Seq::<FlagView>::empty());
        assert(r@.build_dependencies =~= Seq::<DependencyView>::empty());
        Ok(r)
    }

    /// Names the stream of the version.
    pub fn set_stream(&mut self, name: String)
        ensures
            final(self)@ == (BuilderView { stream: name@, ..old(self)@ }),
    {
        self.stream = name;
    }

    /// Declares an option that the recipe recognises.
    pub fn add_flag(&mut self, name: String, help: String, default: FlagDefault)
        ensures
            final(self)@ == (BuilderView {
                flags: old(self)@.flags.push(
                    FlagView {
                        name: name@,
                        help: help@,
                        default_value: spec_default_text(default),
                    },
                ),
                ..old(self)@
            }),
    {
        let default_value = match default {
            FlagDefault::Flag(b) => if b {
                String::from_str("true")
            } else {
                String::from_str("false")
            },
            FlagDefault::Text(s) => s,
        };
        let ghost before = views(self.flags@);
        let f = BuildFlag { name, help, default_value };
        let ghost fv = f@;
        self.flags.push(f);
        assert(views(self.flags@) =~= before.push(fv));
    }

    /// The value in force of an option.
    pub fn flag_value(&self, options: &TextMap, name: &str) -> (r: Option<String>)
        requires
            options.wf(),
        ensures
            opt_view(r) == spec_flag_value(options@, self@.flags, name@),
    {
        if let Some(v) = options.get_text(name) {
            return Some(v);
        }
        let ghost all = views(self.flags@);
        let mut i: usize = 0;
        assert(all.subrange(0, all.len() as int) =~= all);
        while i < self.flags.len()
            invariant
                i <= self.flags.len(),
                all == views(self.flags@),
                spec_get(options@, name@) is None,
                spec_flag_default(all, name@) == spec_flag_default(
                    all.subrange(i as int, all.len() as int),
                    name@,
                ),
            decreases self.flags.len() - i,
        {
            let ghost tail = all.subrange(i as int, all.len() as int);
            assert(tail[0] == self.flags@[i as int]@);
            if str_eq(self.flags[i].name.as_str(), name) {
                return Some(self.flags[i].default_value.clone());
            }
            assert(tail.drop_first() =~= all.subrange(i + 1, all.len() as int));
            i += 1;
        }
        None
    }

    /// Appends a download to the pipeline.
    pub fn fetch(
        &mut self,
        url: String,
        checksum: Option<String>,
        filename: Option<String>,
        name: Option<String>,
    )
        ensures
            final(self)@ == (BuilderView {
                pipeline: old(self)@.pipeline.push(
                    StepView::Fetch {
                        name: opt_view(name),
                        url: url@,
                        checksum: opt_view(checksum),
                        filename: opt_view(filename),
                    },
                ),
                ..old(self)@
            }),
    {
        let ghost before = views(self.pipeline@);
        let s = InstallStep::Fetch { name, url, checksum, filename };
        let ghost sv = s@;
        self.pipeline.push(s);
        assert(views(self.pipeline@) =~= before.push(sv));
    }

    /// Appends an extraction to the pipeline.
    pub fn extract(&mut self, format: Option<String>, name: Option<String>)
        ensures
            final(self)@ == (BuilderView {
                pipeline: old(self)@.pipeline.push(
                    StepView::Extract { name: opt_view(name), format: opt_view(format) },
                ),
                ..old(self)@
            }),
    {
        let ghost before = views(self.pipeline@);
        let s = InstallStep::Extract { name, format };
        let ghost sv = s@;
        self.pipeline.push(s);
        assert(views(self.pipeline@) =~= before.push(sv));
    }

    /// Appends a command to the pipeline.
    pub fn run(&mut self, command: String, cwd: Option<String>, name: Option<String>)
        ensures
            final(self)@ == (BuilderView {
                pipeline: old(self)@.pipeline.push(
                    StepView::Run { name: opt_view(name), command: command@, cwd: opt_view(cwd) },
                ),
                ..old(self)@
            }),
    {
        let ghost before = views(self.pipeline@);
        let s = InstallStep::Run { name, command, cwd };
        let ghost sv = s@;
        self.pipeline.push(s);
        assert(views(self.pipeline@) =~= before.push(sv));
    }

    /// Exports a link.
    pub fn export_link(&mut self, src: String, dest: String)
        ensures
            final(self)@ == (BuilderView {
                exports: old(self)@.exports.push(ExportView::Link { src: src@, dest: dest@ }),
                ..old(self)@
            }),
    {
        let ghost before = views(self.exports@);
        let e = Export::Link { src, dest };
        let ghost ev = e@;
        self.exports.push(e);
        assert(views(self.exports@) =~= before.push(ev));
    }

    /// Exports an environment variable.
    pub fn export_env(&mut self, key: String, val: String)
        ensures
            final(self)@ == (BuilderView {
                exports: old(self)@.exports.push(ExportView::Env { key: key@, val: val@ }),
                ..old(self)@
            }),
    {
        let ghost before = views(self.exports@);
        let e = Export::Env { key, val };
        let ghost ev = e@;
        self.exports.push(e);
        assert(views(self.exports@) =~= before.push(ev));
    }

    /// Exports a directory.
    pub fn export_path(&mut self, path: String)
        ensures
            final(self)@ == (BuilderView {
                exports: old(self)@.exports.push(ExportView::Path(path@)),
                ..old(self)@
            }),
    {
        let ghost before = views(self.exports@);
        let e = Export::Path(path);
        let ghost ev = e@;
        self.exports.push(e);
        assert(views(self.exports@) =~= before.push(ev));
    }

    /// Declares a build dependency.
    pub fn add_build_dependency(&mut self, selector: String, optional: bool)
        ensures
            final(self)@ == (BuilderView {
                build_dependencies: old(self)@.build_dependencies.push(
                    DependencyView { name: selector@, optional },
                ),
                ..old(self)@
            }),
    {
        let ghost before = views(self.build_dependencies@);
        let d = Dependency { name: selector, optional };
        let ghost dv = d@;
        self.build_dependencies.push(d);
        assert(views(self.build_dependencies@) =~= before.push(dv));
    }

    /// The record that the builder describes.
    pub fn build(&self) -> (r: VersionEntry)
        ensures
            r@ == spec_registered(self@),
    {
        let inspected = inspect_version(self.version.as_str());
        let release_type = match ReleaseType::parse(self.release_type.as_str()) {
            Some(t) => t,
            None => ReleaseType::Stable,
        };
        VersionEntry {
            pkgname: self.pkgname.clone(),
            version: inspected.version,
            release_date: self.release_date.clone(),
            release_type,
            stream: self.stream.clone(),
            pipeline: copy_steps(&self.pipeline),
            exports: copy_exports(&self.exports),
            flags: copy_flags(&self.flags),
            build_dependencies: copy_dependencies(&self.build_dependencies),
        }
    }
}

/// What one evaluation of a recipe knows and collects.
#[derive(Debug, Clone)]
pub struct Context {
    pub os: OS,
    pub arch: Arch,
    pub filename: String,
    pub meta_dir: String,
    pub download_dir: String,
    pub packages_dir: String,
    pub force: bool,
    pub packages: Vec<PackageEntry>,
    pub managers: Vec<ManagerEntry>,
    pub versions: Vec<VersionEntry>,
    pub options: TextMap,
}

/// The name of a context in messages.
pub open spec fn spec_display_name(filename: Seq<char>) -> Seq<char> {
    let p = crate::resolver::spec_before_colon(filename);
    match crate::paths::path_file_stem(p) {
        Some(stem) => stem,
        None => p,
    }
}

/// The name of a function as the interpreter shows it, reduced to what is
/// called: `<function ` in front and `>` behind are dropped, and of a
/// dotted name only what follows the last dot stays.
pub open spec fn spec_function_name(repr: Seq<char>) -> Seq<char> {
    let inner = if "<function "@.is_prefix_of(repr) {
        let s = repr.subrange("<function "@.len() as int, repr.len() as int);
        if s.len() > 0 && s.last() == '>' {
            s.drop_last()
        } else {
            s
        }
    } else {
        repr
    };
    match inner.index_of_last('.') {
        Some(i) => inner.subrange(i + 1, inner.len() as int),
        None => inner,
    }
}

/// Extracts the name of a function from the way the interpreter shows it.
pub fn extract_function_name(repr: &str) -> (r: String)
    ensures
        r@ == spec_function_name(repr@),
{
    let v = to_chars(repr);
    let prefix = to_chars("<function ");
    let inner: Vec<char> = if starts_with(&v, &prefix) {
        let s = slice_chars(&v, prefix.len(), v.len());
        if s.len() > 0 && s[s.len() - 1] == '>' {
            slice_chars(&s, 0, s.len() - 1)
        } else {
            s
        }
    } else {
        v
    };
    match rfind_char(&inner, '.') {
        Some(i) => substring(&inner, i + 1, inner.len()),
        None => from_chars(&inner),
    }
}

/// The mathematical content of a context.
pub struct ContextView {
    pub os: OS,
    pub arch: Arch,
    pub filename: Seq<char>,
    pub meta_dir: Seq<char>,
    pub download_dir: Seq<char>,
    pub packages_dir: Seq<char>,
    pub force: bool,
    pub packages: Seq<RegistrationView>,
    pub managers: Seq<RegistrationView>,
    pub versions: Seq<EntryView>,
    pub options: Seq<(Seq<char>, Seq<char>)>,
}

impl View for Context {
    type V = ContextView;

    open spec fn view(&self) -> ContextView {
        ContextView {
            os: self.os,
            arch: self.arch,
            filename: self.filename@,
            meta_dir: self.meta_dir@,
            download_dir: self.download_dir@,
            packages_dir: self.packages_dir@,
            force: self.force,
            packages: views(self.packages@),
            managers: views(self.managers@),
            versions: views(self.versions@),
            options: self.options@,
        }
    }
}

impl Context {
    /// A context for the evaluation of `filename` that has collected
    /// nothing yet.
    pub fn new(
        os: OS,
        arch: Arch,
        filename: String,
        meta_dir: String,
        download_dir: String,
        packages_dir: String,
        force: bool,
    ) -> (r: Context)
        ensures
            r.options.wf(),
            r@ == (ContextView {
                os,
                arch,
                filename: filename@,
                meta_dir: meta_dir@,
                download_dir: download_dir@,
                packages_dir: packages_dir@,
                force,
                packages: Seq::empty(),
                managers: Seq::empty(),
                versions: Seq::empty(),
                options: Seq::empty(),
            }),
    {
        let r = Context {
            os,
            arch,
            filename,
            meta_dir,
            download_dir,
            packages_dir,
            force,
            packages: Vec::new(),
            managers: Vec::new(),
            versions: Vec::new(),
            options: crate::textmap::SortedMap::new(),
        };
        assert(r@.packages =~= Seq::<RegistrationView>::empty());
        assert(r@.managers =~= Seq::<RegistrationView>::empty());
        assert(r@.versions =~= Seq::<EntryView>::empty());
        assert(r@.options =~= Seq::<(Seq<char>, Seq<char>)>::empty());
        r
    }

    /// The same context with the workspace options set.
    pub fn with_options(self, options: TextMap) -> (r: Context)
        ensures
            r@ == (ContextView { options: options@, ..self@ }),
    {
        let mut c = self;
        c.options = options;
        c
    }

    /// The name under which the context appears in messages: of the part
    /// of the file name before the first colon, the last component without
    /// its extension; that part itself where it has no such component.
    pub fn display_name(&self) -> (r: String)
        ensures
            r@ == spec_display_name(self@.filename),
    {
        let p = crate::resolver::before_colon(self.filename.as_str());
        match crate::paths::file_stem_of(p.as_str()) {
            Some(stem) => stem,
            None => p,
        }
    }

    /// The cache of the text that recipes download: it lies in the
    /// downloads directory, and what it keeps is fresh for an hour.
    pub fn download_cache(&self) -> (r: Cache)
        ensures
            r.dir@ == self@.download_dir,
            r.ttl_secs == 3600,
    {
        Cache::new(self.download_dir.clone(), 3600)
    }

    /// Registers a package: `function` is the discovery function as the
    /// interpreter shows it.
    pub fn add_package(&mut self, name: String, function: &str)
        ensures
            final(self)@ == (ContextView {
                packages: old(self)@.packages.push(
                    RegistrationView {
                        name: name@,
                        function_name: spec_function_name(function@),
                        filename: old(self)@.filename,
                    },
                ),
                ..old(self)@
            }),
    {
        let ghost before = views(self.packages@);
        let e = PackageEntry {
            name,
            function_name: extract_function_name(function),
            filename: self.filename.clone(),
        };
        let ghost ev = e@;
        self.packages.push(e);
        assert(views(self.packages@) =~= before.push(ev));
    }

    /// Registers a manager.
    pub fn add_manager(&mut self, name: String, function: &str)
        ensures
            final(self)@ == (ContextView {
                managers: old(self)@.managers.push(
                    RegistrationView {
                        name: name@,
                        function_name: spec_function_name(function@),
                        filename: old(self)@.filename,
                    },
                ),
                ..old(self)@
            }),
    {
        let ghost before = views(self.managers@);
        let e = ManagerEntry {
            name,
            function_name: extract_function_name(function),
            filename: self.filename.clone(),
        };
        let ghost ev = e@;
        self.managers.push(e);
        assert(views(self.managers@) =~= before.push(ev));
    }

    /// Registers the record that a builder describes. Until this is
    /// called, nothing of the builder is part of the context.
    pub fn register(&mut self, builder: &VersionBuilder)
        ensures
            final(self)@ == (ContextView {
                versions: old(self)@.versions.push(spec_registered(builder@)),
                ..old(self)@
            }),
    {
        let ghost before = views(self.versions@);
        let e = builder.build();
        let ghost ev = e@;
        self.versions.push(e);
        assert(views(self.versions@) =~= before.push(ev));
    }
}

/// What a recipe gets back from a search with a regular expression: the
/// verdict, then one text for each group after the whole match; a group
/// that took no part, and every group when nothing matched, is empty.
pub open spec fn spec_extracted(
    pattern: Seq<char>,
    found: Option<Seq<Option<Seq<char>>>>,
    group_count: nat,
) -> (bool, Seq<Seq<char>>) {
    match found {
        Some(g) => (
            true,
            Seq::new(
                if g.len() > 0 {
                    (g.len() - 1) as nat
                } else {
                    0nat
                },
                |i: int|
                    match g[i + 1] {
                        Some(t) => t,
                        None => Seq::<char>::empty(),
                    },
            ),
        ),
        None => (
            false,
            Seq::new(
                if group_count > 0 {
                    (group_count - 1) as nat
                } else {
                    0nat
                },
                |i: int| Seq::<char>::empty(),
            ),
        ),
    }
}

/// Turns the outcome of a search into what the recipe gets back. An
/// expression that does not compile fails the call.
pub fn extract_groups(pattern: &str, found: &Captured) -> (r: Result<(bool, Vec<String>), BuildError>)
    ensures
        match *found {
            Captured::Invalid => r is Err && r.unwrap_err()@ == (ErrorView::InvalidPattern {
                pattern: pattern@,
            }),
            Captured::NoMatch(n) => r is Ok && (r.unwrap().0, strings_view(r.unwrap().1@))
                == spec_extracted(pattern@, None, n as nat),
            Captured::Match(g) => r is Ok && (r.unwrap().0, strings_view(r.unwrap().1@))
                == spec_extracted(pattern@, Some(groups_view(g@)), 0),
        },
{
    match found {
        Captured::Invalid => Err(BuildError::InvalidPattern { pattern: String::from_str(pattern) }),
        Captured::NoMatch(n) => {
            let count: usize = *n;
            let mut out: Vec<String> = Vec::new();
            let mut i: usize = 1;
            while i < count
                invariant
                    1 <= i,
                    count > 0 ==> i <= count,
                    count == 0 ==> i == 1,
                    out.len() == i - 1,
                    forall|j: int| 0 <= j < out.len() ==> (#[trigger] out@[j])@ == Seq::<
                        char,
                    >::empty(),
                decreases count - i,
            {
                out.push(String::new());
                i += 1;
            }
            proof {
                let want = spec_extracted(pattern@, None, count as nat).1;
                let k: nat = if count > 0 {
                    (count - 1) as nat
                } else {
                    0nat
                };
                assert(out.len() == k);
                assert(want == Seq::new(k, |i: int| Seq::<char>::empty()));
                assert(want.len() == out.len());
                assert forall|j: int| 0 <= j < out.len() implies strings_view(out@)[j]
                    == want[j] by {
                    assert(out@[j]@ == Seq::<char>::empty());
                }
                assert(strings_view(out@) =~= want);
            }
            Ok((false, out))
        },
        Captured::Match(g) => {
            let mut out: Vec<String> = Vec::new();
            let mut i: usize = 1;
            let ghost gv = groups_view(g@);
            while i < g.len()
                invariant
                    1 <= i,
                    g.len() > 0 ==> i <= g.len(),
                    g.len() == 0 ==> i == 1,
                    out.len() == i - 1,
                    gv == groups_view(g@),
                    forall|j: int|
                        0 <= j < out.len() ==> (#[trigger] out@[j])@ == match gv[j + 1] {
                            Some(t) => t,
                            None => Seq::<char>::empty(),
                        },
                decreases g.len() - i,
            {
                assert(gv[i as int] == opt_view(g@[i as int]));
                match &g[i] {
                    Some(t) => out.push(t.clone()),
                    None => out.push(String::new()),
                }
                i += 1;
            }
            proof {
                let want = spec_extracted(pattern@, Some(gv), 0).1;
                assert(gv.len() == g.len());
                assert(want.len() == out.len());
                assert forall|j: int| 0 <= j < out.len() implies strings_view(out@)[j]
                    == want[j] by {
                    assert(out@[j]@ == match gv[j + 1] {
                        Some(t) => t,
                        None => Seq::<char>::empty(),
                    });
                }
                assert(strings_view(out@) =~= want);
            }
            Ok((true, out))
        },
    }
}

/// Searches `text` with a regular expression on behalf of a recipe.
pub fn extract(pattern: &str, text: &str) -> (r: Result<(bool, Vec<String>), BuildError>)
    ensures
        !regex_valid(pattern@) ==> r is Err && r.unwrap_err()@ == (ErrorView::InvalidPattern {
            pattern: pattern@,
        }),
        regex_valid(pattern@) ==> r is Ok && (r.unwrap().0, strings_view(r.unwrap().1@))
            == spec_extracted(
            pattern@,
            regex_groups(pattern@, text@),
            regex_group_count(pattern@),
        ),
{
    let found = capture(pattern, text);
    extract_groups(pattern, &found)
}

} // verus!
