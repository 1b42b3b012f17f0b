//! Assembling the sandbox of a workspace: which paths are mounted and how,
//! what the environment of the command is, and what the host is called.
//!
//! What the host looks like (which directories exist, who the invoker is)
//! is observed by the caller and handed in as plain values.

use crate::paths::{join_path, spec_join_path};
use crate::records::views;
use crate::sandbox::{
    lemma_lead_parts, pairs_view, spec_binds_after, spec_env_after_ops, spec_lead, spec_list_parts,
    spec_pairs_map, spec_writes_host, BindPair, BindType, BindView, Bubblewrap, EnvOp, EnvOpView,
};
use crate::settings::spec_union;
use crate::text::{
    append_str, find_char, from_chars, opt_view, replace_str, spec_join, spec_replace,
    strings_view, to_chars,
};
use crate::textmap::{as_map, has_key, TextMap};
use vstd::prelude::*;

verus! {

/// A directory exported by a build dependency, as found on the host.
#[derive(Debug, Clone)]
pub struct DependencyDir {
    pub path: String,
    /// The directory exists.
    pub exists: bool,
    /// The directory has a `bin` subdirectory.
    pub has_bin: bool,
}

/// The mathematical content of a dependency directory.
pub struct DependencyDirView {
    pub path: Seq<char>,
    pub exists: bool,
    pub has_bin: bool,
}

impl View for DependencyDir {
    type V = DependencyDirView;

    open spec fn view(&self) -> DependencyDirView {
        DependencyDirView { path: self.path@, exists: self.exists, has_bin: self.has_bin }
    }
}

/// What a sandbox is assembled from.
#[derive(Debug, Clone)]
pub struct SandboxOptions {
    /// The variables of the invoker's environment.
    pub inherited_env: Vec<(String, String)>,
    /// The home directory of the invoker on the host.
    pub host_home: String,
    /// The name of the invoker.
    pub user: String,
    /// The name of the host.
    pub hostname: String,
    /// The name of the workspace.
    pub cave_name: String,
    /// The root of the workspace.
    pub workspace: String,
    /// The directory that stands for the home directory inside.
    pub cave_home: String,
    /// The composition root on the host.
    pub composition_root: String,
    pub cache_dir: String,
    pub cache_present: bool,
    pub config_dir: String,
    pub config_present: bool,
    /// The packages directory of the content store.
    pub packages_dir: String,
    /// The host has `/lib64`.
    pub lib64_present: bool,
    /// The runtime directory of the invoker, if there is one.
    pub runtime_dir: Option<String>,
    /// The variant, with or without its colon.
    pub variant: Option<String>,
    /// The variables that the packages export.
    pub package_envs: TextMap,
    /// The variables that the workspace sets.
    pub cave_envs: TextMap,
    /// Whether the command may write to the composition root.
    pub writable_pilocal: bool,
    pub dependency_dirs: Vec<DependencyDir>,
}

/// The mathematical content of the options.
pub struct OptionsView {
    pub inherited_env: Seq<(Seq<char>, Seq<char>)>,
    pub host_home: Seq<char>,
    pub user: Seq<char>,
    pub hostname: Seq<char>,
    pub cave_name: Seq<char>,
    pub workspace: Seq<char>,
    pub cave_home: Seq<char>,
    pub composition_root: Seq<char>,
    pub cache_dir: Seq<char>,
    pub cache_present: bool,
    pub config_dir: Seq<char>,
    pub config_present: bool,
    pub packages_dir: Seq<char>,
    pub lib64_present: bool,
    pub runtime_dir: Option<Seq<char>>,
    pub variant: Option<Seq<char>>,
    pub package_envs: Seq<(Seq<char>, Seq<char>)>,
    pub cave_envs: Seq<(Seq<char>, Seq<char>)>,
    pub writable_pilocal: bool,
    pub dependency_dirs: Seq<DependencyDirView>,
}

impl View for SandboxOptions {
    type V = OptionsView;

    open spec fn view(&self) -> OptionsView {
        OptionsView {
            inherited_env: pairs_view(self.inherited_env@),
            host_home: self.host_home@,
            user: self.user@,
            hostname: self.hostname@,
            cave_name: self.cave_name@,
            workspace: self.workspace@,
            cave_home: self.cave_home@,
            composition_root: self.composition_root@,
            cache_dir: self.cache_dir@,
            cache_present: self.cache_present,
            config_dir: self.config_dir@,
            config_present: self.config_present,
            packages_dir: self.packages_dir@,
            lib64_present: self.lib64_present,
            runtime_dir: opt_view(self.runtime_dir),
            variant: opt_view(self.variant),
            package_envs: self.package_envs@,
            cave_envs: self.cave_envs@,
            writable_pilocal: self.writable_pilocal,
            dependency_dirs: views(self.dependency_dirs@),
        }
    }
}

/// A mount of a host path at the same place inside.
pub open spec fn spec_same(t: BindType, path: Seq<char>) -> BindView {
    BindView { cave_target: path, host_source: Some(path), bind_type: t }
}

/// A mount of a host path at another place inside.
pub open spec fn spec_mapped(t: BindType, host: Seq<char>, inside: Seq<char>) -> BindView {
    BindView { cave_target: inside, host_source: Some(host), bind_type: t }
}

/// A virtual file system.
pub open spec fn spec_virtual(t: BindType, path: Seq<char>) -> BindView {
    BindView { cave_target: path, host_source: None, bind_type: t }
}

/// Where the composition root appears inside: `.pilocal` in the home
/// directory.
pub open spec fn spec_inner_root(host_home: Seq<char>) -> Seq<char> {
    spec_join_path(host_home, ".pilocal"@)
}

/// The system directories, read-only; `/lib64` only where the host has it.
pub open spec fn spec_system_binds(lib64_present: bool) -> Seq<BindView> {
    seq![spec_same(BindType::RoBind, "/usr"@), spec_same(BindType::RoBind, "/lib"@)] + (
    if lib64_present {
        seq![spec_same(BindType::RoBind, "/lib64"@)]
    } else {
        Seq::<BindView>::empty()
    }) + seq![
        spec_same(BindType::RoBind, "/bin"@),
        spec_same(BindType::RoBind, "/sbin"@),
        spec_same(BindType::RoBind, "/etc"@),
        spec_same(BindType::RoBind, "/sys"@),
    ]
}

/// The virtual file systems.
pub open spec fn spec_virtual_binds() -> Seq<BindView> {
    seq![
        spec_virtual(BindType::Proc, "/proc"@),
        spec_virtual(BindType::Dev, "/dev"@),
        spec_virtual(BindType::Tmpfs, "/tmp"@),
        spec_virtual(BindType::Tmpfs, "/run"@),
    ]
}

/// The workspace, writable at its own place; the workspace's home in place
/// of the invoker's home; the composition root at `.pilocal` in the home,
/// writable or not as asked.
pub open spec fn spec_workspace_binds(o: OptionsView) -> Seq<BindView> {
    seq![
        spec_same(BindType::Bind, o.workspace),
        spec_mapped(BindType::Bind, o.cave_home, o.host_home),
        spec_mapped(
            if o.writable_pilocal {
                BindType::Bind
            } else {
                BindType::RoBind
            },
            o.composition_root,
            spec_inner_root(o.host_home),
        ),
    ]
}

/// The cache and configuration directories, read-only, where they exist;
/// the runtime directory of the invoker, where there is one.
pub open spec fn spec_host_binds(o: OptionsView) -> Seq<BindView> {
    (if o.cache_present {
        seq![spec_same(BindType::RoBind, o.cache_dir)]
    } else {
        Seq::<BindView>::empty()
    }) + (if o.config_present {
        seq![spec_same(BindType::RoBind, o.config_dir)]
    } else {
        Seq::<BindView>::empty()
    }) + (match o.runtime_dir {
        Some(d) => seq![spec_same(BindType::Bind, d)],
        None => Seq::<BindView>::empty(),
    })
}

/// The dependency directories that exist, read-only.
pub open spec fn spec_dependency_binds(deps: Seq<DependencyDirView>) -> Seq<BindView>
    decreases deps.len(),
{
    if deps.len() == 0 {
        Seq::empty()
    } else if deps.last().exists {
        spec_dependency_binds(deps.drop_last()).push(
            spec_same(BindType::RoBind, deps.last().path),
        )
    } else {
        spec_dependency_binds(deps.drop_last())
    }
}

/// All mounts of the sandbox, in the order in which they are added.
pub open spec fn spec_bind_rules(o: OptionsView) -> Seq<BindView> {
    spec_system_binds(o.lib64_present) + spec_virtual_binds() + spec_workspace_binds(o)
        + spec_host_binds(o) + spec_dependency_binds(o.dependency_dirs)
}

/// The `bin` directories of the dependency directories that have one, each
/// put in front of the search path.
pub open spec fn spec_dependency_paths(deps: Seq<DependencyDirView>) -> Seq<EnvOpView>
    decreases deps.len(),
{
    if deps.len() == 0 {
        Seq::empty()
    } else if deps.last().exists && deps.last().has_bin {
        spec_dependency_paths(deps.drop_last()).push(
            EnvOpView::AddFirst {
                name: "PATH"@,
                entry: spec_join_path(deps.last().path, "bin"@),
            },
        )
    } else {
        spec_dependency_paths(deps.drop_last())
    }
}

/// A value with its placeholders resolved, in this order: `$/` is the
/// composition root and a slash, `$` the composition root, `@HOME` the
/// home directory, `@PACKAGES_DIR` the packages directory.
pub open spec fn spec_resolve_value(
    v: Seq<char>,
    inner_root: Seq<char>,
    host_home: Seq<char>,
    packages_dir: Seq<char>,
) -> Seq<char> {
    let a = spec_replace(v, "$/"@, inner_root + "/"@);
    let b = spec_replace(a, "$"@, inner_root);
    let c = spec_replace(b, "@HOME"@, host_home);
    spec_replace(c, "@PACKAGES_DIR"@, packages_dir)
}

/// The variables of a map, each set to its resolved value, in the order of
/// the map.
pub open spec fn spec_custom_envs(
    envs: Seq<(Seq<char>, Seq<char>)>,
    inner_root: Seq<char>,
    host_home: Seq<char>,
    packages_dir: Seq<char>,
) -> Seq<EnvOpView> {
    Seq::new(
        envs.len(),
        |i: int|
            EnvOpView::Assign {
                name: envs[i].0,
                value: spec_resolve_value(envs[i].1, inner_root, host_home, packages_dir),
            },
    )
}

/// The directories that lead the search path, first to last: what the
/// composition root holds, then the tool directories in the home, then the
/// system.
pub open spec fn spec_search_front(host_home: Seq<char>) -> Seq<Seq<char>> {
    seq![
        spec_join_path(spec_inner_root(host_home), "bin"@),
        spec_join_path(host_home, ".cargo/bin"@),
        spec_join_path(host_home, ".mix/escripts"@),
        spec_join_path(host_home, ".local/bin"@),
        "/usr/bin"@,
        "/bin"@,
    ]
}

/// The identity of the invoker and of the workspace, and the search path,
/// which the directories of `spec_search_front` lead whatever the invoker's
/// own search path holds.
pub open spec fn spec_identity_envs(o: OptionsView) -> Seq<EnvOpView> {
    seq![
        EnvOpView::Assign { name: "HOME"@, value: o.host_home },
        EnvOpView::Assign { name: "USER"@, value: o.user },
        EnvOpView::Assign { name: "PI_WORKSPACE"@, value: o.workspace },
        EnvOpView::Assign { name: "PI_CAVE"@, value: o.cave_name },
        EnvOpView::Lead { name: "PATH"@, entries: spec_search_front(o.host_home) },
    ]
}

/// All changes to the inherited environment, in order. Later changes win:
/// what the workspace sets overrides what packages export.
pub open spec fn spec_env_ops(o: OptionsView) -> Seq<EnvOpView> {
    (match o.runtime_dir {
        Some(d) => seq![EnvOpView::Assign { name: "XDG_RUNTIME_DIR"@, value: d }],
        None => Seq::<EnvOpView>::empty(),
    }) + spec_dependency_paths(o.dependency_dirs) + spec_identity_envs(o) + spec_custom_envs(
        o.package_envs,
        spec_inner_root(o.host_home),
        o.host_home,
        o.packages_dir,
    ) + spec_custom_envs(
        o.cave_envs,
        spec_inner_root(o.host_home),
        o.host_home,
        o.packages_dir,
    )
}

/// The variant name without its colon.
pub open spec fn spec_plain_variant(v: Seq<char>) -> Seq<char> {
    crate::cave::spec_variant_name(v)
}

/// The host name inside: the name of the host up to its first dot, the
/// workspace, the variant if one is in force, and the domain of the host.
pub open spec fn spec_hostname(host: Seq<char>, cave: Seq<char>, variant: Option<Seq<char>>) -> Seq<
    char,
> {
    let (short, domain) = match host.index_of_first('.') {
        Some(i) => (host.subrange(0, i), host.subrange(i, host.len() as int)),
        None => (host, Seq::<char>::empty()),
    };
    let tag = match variant {
        Some(v) => seq!['-'] + spec_plain_variant(v),
        None => Seq::<char>::empty(),
    };
    short + seq!['-'] + cave + tag + domain
}

/// The flags that give the command its own process and host name spaces
/// and end it with its parent.
pub open spec fn spec_namespace_flags() -> Seq<Seq<char>> {
    seq!["--unshare-pid"@, "--unshare-uts"@, "--die-with-parent"@]
}

fn same(t: BindType, path: &str) -> (r: BindPair)
    ensures
        r@ == spec_same(t, path@),
{
    BindPair {
        cave_target: String::from_str(path),
        host_source: Some(String::from_str(path)),
        bind_type: t,
    }
}

fn mapped(t: BindType, host: &str, inside: &str) -> (r: BindPair)
    ensures
        r@ == spec_mapped(t, host@, inside@),
{
    BindPair {
        cave_target: String::from_str(inside),
        host_source: Some(String::from_str(host)),
        bind_type: t,
    }
}

fn virtual_fs(t: BindType, path: &str) -> (r: BindPair)
    ensures
        r@ == spec_virtual(t, path@),
{
    BindPair { cave_target: String::from_str(path), host_source: None, bind_type: t }
}

fn push_pair(out: &mut Vec<BindPair>, p: BindPair)
    ensures
        views(final(out)@) == views(old(out)@).push(p@),
{
    let ghost before = views(out@);
    out.push(p);
    assert(views(out@) =~= before.push(p@));
}

fn push_op(out: &mut Vec<EnvOp>, p: EnvOp)
    ensures
        views(final(out)@) == views(old(out)@).push(p@),
{
    let ghost before = views(out@);
    out.push(p);
    assert(views(out@) =~= before.push(p@));
}

fn assign(name: &str, value: &str) -> (r: EnvOp)
    ensures
        r@ == (EnvOpView::Assign { name: name@, value: value@ }),
{
    EnvOp::Assign { name: String::from_str(name), value: String::from_str(value) }
}

fn add_first_op(name: &str, entry: &str) -> (r: EnvOp)
    ensures
        r@ == (EnvOpView::AddFirst { name: name@, entry: entry@ }),
{
    EnvOp::AddFirst { name: String::from_str(name), entry: String::from_str(entry) }
}

/// Lists the directories that lead the search path.
pub fn search_front(host_home: &str) -> (r: Vec<String>)
    ensures
        strings_view(r@) == spec_search_front(host_home@),
{
    let inside = join_path(host_home, ".pilocal");
    let mut out: Vec<String> = Vec::new();
    out.push(join_path(inside.as_str(), "bin"));
    out.push(join_path(host_home, ".cargo/bin"));
    out.push(join_path(host_home, ".mix/escripts"));
    out.push(join_path(host_home, ".local/bin"));
    out.push(String::from_str("/usr/bin"));
    out.push(String::from_str("/bin"));
    assert(strings_view(out@) =~= spec_search_front(host_home@));
    out
}

/// Where the composition root appears inside.
pub fn inner_root(host_home: &str) -> (r: String)
    ensures
        r@ == spec_inner_root(host_home@),
{
    join_path(host_home, ".pilocal")
}

/// Lists the mounts of the sandbox in the order in which they are added.
pub fn bind_rules(o: &SandboxOptions) -> (r: Vec<BindPair>)
    ensures
        views(r@) == spec_bind_rules(o@),
{
    let mut out: Vec<BindPair> = Vec::new();
    assert(views(out@) =~= Seq::<BindView>::empty());
    push_pair(&mut out, same(BindType::RoBind, "/usr"));
    push_pair(&mut out, same(BindType::RoBind, "/lib"));
    if o.lib64_present {
        push_pair(&mut out, same(BindType::RoBind, "/lib64"));
    }
    push_pair(&mut out, same(BindType::RoBind, "/bin"));
    push_pair(&mut out, same(BindType::RoBind, "/sbin"));
    push_pair(&mut out, same(BindType::RoBind, "/etc"));
    push_pair(&mut out, same(BindType::RoBind, "/sys"));
    assert(views(out@) =~= spec_system_binds(o@.lib64_present));
    push_pair(&mut out, virtual_fs(BindType::Proc, "/proc"));
    push_pair(&mut out, virtual_fs(BindType::Dev, "/dev"));
    push_pair(&mut out, virtual_fs(BindType::Tmpfs, "/tmp"));
    push_pair(&mut out, virtual_fs(BindType::Tmpfs, "/run"));
    assert(views(out@) =~= spec_system_binds(o@.lib64_present) + spec_virtual_binds());
    let inside = inner_root(o.host_home.as_str());
    push_pair(&mut out, same(BindType::Bind, o.workspace.as_str()));
    push_pair(&mut out, mapped(BindType::Bind, o.cave_home.as_str(), o.host_home.as_str()));
    let mode = if o.writable_pilocal {
        BindType::Bind
    } else {
        BindType::RoBind
    };
    push_pair(&mut out, mapped(mode, o.composition_root.as_str(), inside.as_str()));
    assert(views(out@) =~= spec_system_binds(o@.lib64_present) + spec_virtual_binds()
        + spec_workspace_binds(o@));
    let ghost head = views(out@);
    if o.cache_present {
        push_pair(&mut out, same(BindType::RoBind, o.cache_dir.as_str()));
    }
    if o.config_present {
        push_pair(&mut out, same(BindType::RoBind, o.config_dir.as_str()));
    }
    if let Some(d) = &o.runtime_dir {
        push_pair(&mut out, same(BindType::Bind, d.as_str()));
    }
    assert(views(out@) =~= head + spec_host_binds(o@));
    let ghost head = views(out@);
    let ghost deps = views(o.dependency_dirs@);
    let mut i: usize = 0;
    assert(deps.subrange(0, 0) =~= Seq::<DependencyDirView>::empty());
    assert(views(out@) =~= head + spec_dependency_binds(deps.subrange(0, 0)));
    while i < o.dependency_dirs.len()
        invariant
            i <= o.dependency_dirs.len(),
            deps == views(o.dependency_dirs@),
            views(out@) == head + spec_dependency_binds(deps.subrange(0, i as int)),
        decreases o.dependency_dirs.len() - i,
    {
        let d = &o.dependency_dirs[i];
        assert(deps.subrange(0, i + 1).drop_last() =~= deps.subrange(0, i as int));
        assert(deps.subrange(0, i + 1).last() == d@);
        if d.exists {
            push_pair(&mut out, same(BindType::RoBind, d.path.as_str()));
        }
        assert(views(out@) =~= head + spec_dependency_binds(deps.subrange(0, i + 1)));
        i += 1;
    }
    assert(deps.subrange(0, deps.len() as int) =~= deps);
    out
}

/// Resolves the placeholders of a value.
pub fn resolve_value(v: &str, inner_root: &str, host_home: &str, packages_dir: &str) -> (r: String)
    ensures
        r@ == spec_resolve_value(v@, inner_root@, host_home@, packages_dir@),
{
    let mut with_slash: Vec<char> = Vec::new();
    append_str(&mut with_slash, inner_root);
    append_str(&mut with_slash, "/");
    let root_slash = from_chars(&with_slash);
    let a = replace_str(v, "$/", root_slash.as_str());
    let b = replace_str(a.as_str(), "$", inner_root);
    let c = replace_str(b.as_str(), "@HOME", host_home);
    replace_str(c.as_str(), "@PACKAGES_DIR", packages_dir)
}

fn custom_envs(
    out: &mut Vec<EnvOp>,
    envs: &TextMap,
    inner_root: &str,
    host_home: &str,
    packages_dir: &str,
)
    ensures
        views(final(out)@) == views(old(out)@) + spec_custom_envs(
            envs@,
            inner_root@,
            host_home@,
            packages_dir@,
        ),
{
    let ghost head = views(out@);
    let ghost wanted = spec_custom_envs(envs@, inner_root@, host_home@, packages_dir@);
    let mut i: usize = 0;
    assert(views(out@) =~= head + wanted.subrange(0, 0));
    while i < envs.entries.len()
        invariant
            i <= envs.entries.len(),
            wanted == spec_custom_envs(envs@, inner_root@, host_home@, packages_dir@),
            views(out@) == head + wanted.subrange(0, i as int),
        decreases envs.entries.len() - i,
    {
        let value = resolve_value(envs.entries[i].1.as_str(), inner_root, host_home, packages_dir);
        push_op(out, assign(envs.entries[i].0.as_str(), value.as_str()));
        assert(envs@[i as int] == (envs.entries@[i as int].0@, envs.entries@[i as int].1@));
        assert(views(out@) =~= head + wanted.subrange(0, i + 1));
        i += 1;
    }
    assert(wanted.subrange(0, wanted.len() as int) =~= wanted);
}

/// Lists the changes to the inherited environment, in order.
pub fn env_ops(o: &SandboxOptions) -> (r: Vec<EnvOp>)
    ensures
        views(r@) == spec_env_ops(o@),
{
    let mut out: Vec<EnvOp> = Vec::new();
    assert(views(out@) =~= Seq::<EnvOpView>::empty());
    if let Some(d) = &o.runtime_dir {
        push_op(&mut out, assign("XDG_RUNTIME_DIR", d.as_str()));
    }
    let ghost head = views(out@);
    assert(head =~= match o@.runtime_dir {
        Some(d) => seq![EnvOpView::Assign { name: "XDG_RUNTIME_DIR"@, value: d }],
        None => Seq::<EnvOpView>::empty(),
    });
    let ghost deps = views(o.dependency_dirs@);
    let mut i: usize = 0;
    assert(deps.subrange(0, 0) =~= Seq::<DependencyDirView>::empty());
    assert(views(out@) =~= head + spec_dependency_paths(deps.subrange(0, 0)));
    while i < o.dependency_dirs.len()
        invariant
            i <= o.dependency_dirs.len(),
            deps == views(o.dependency_dirs@),
            views(out@) == head + spec_dependency_paths(deps.subrange(0, i as int)),
        decreases o.dependency_dirs.len() - i,
    {
        let d = &o.dependency_dirs[i];
        assert(deps.subrange(0, i + 1).drop_last() =~= deps.subrange(0, i as int));
        assert(deps.subrange(0, i + 1).last() == d@);
        if d.exists && d.has_bin {
            let bin = join_path(d.path.as_str(), "bin");
            push_op(&mut out, add_first_op("PATH", bin.as_str()));
        }
        assert(views(out@) =~= head + spec_dependency_paths(deps.subrange(0, i + 1)));
        i += 1;
    }
    assert(deps.subrange(0, deps.len() as int) =~= deps);
    let ghost head = views(out@);
    let home = o.host_home.as_str();
    let inside = inner_root(home);
    push_op(&mut out, assign("HOME", home));
    push_op(&mut out, assign("USER", o.user.as_str()));
    push_op(&mut out, assign("PI_WORKSPACE", o.workspace.as_str()));
    push_op(&mut out, assign("PI_CAVE", o.cave_name.as_str()));
    push_op(&mut out, EnvOp::Lead { name: String::from_str("PATH"), entries: search_front(home) });
    assert(views(out@) =~= head + spec_identity_envs(o@));
    custom_envs(&mut out, &o.package_envs, inside.as_str(), home, o.packages_dir.as_str());
    custom_envs(&mut out, &o.cave_envs, inside.as_str(), home, o.packages_dir.as_str());
    out
}

/// The host name inside the sandbox.
pub fn sandbox_hostname(host: &str, cave: &str, variant: &Option<String>) -> (r: String)
    ensures
        r@ == spec_hostname(host@, cave@, opt_view(*variant)),
{
    let h = to_chars(host);
    let mut out: Vec<char> = Vec::new();
    let dot = find_char(&h, '.');
    let cut = match dot {
        Some(i) => i,
        None => h.len(),
    };
    let short = crate::text::slice_chars(&h, 0, cut);
    let domain = crate::text::slice_chars(&h, cut, h.len());
    assert(h@.subrange(0, h@.len() as int) =~= h@);
    assert(h@.subrange(h@.len() as int, h@.len() as int) =~= Seq::<char>::empty());
    crate::text::append_chars(&mut out, &short);
    out.push('-');
    append_str(&mut out, cave);
    if let Some(v) = variant {
        out.push('-');
        let plain = crate::cave::variant_name(v.as_str());
        append_str(&mut out, plain.as_str());
    }
    crate::text::append_chars(&mut out, &domain);
    assert(out@ =~= spec_hostname(host@, cave@, opt_view(*variant)));
    from_chars(&out)
}

/// Assembles the sandbox of a workspace.
///
/// The mounts are those of `spec_bind_rules`, added in order, so that of
/// two mounts with one target the later stands; the environment is the
/// inherited one after the changes of `spec_env_ops`.
pub fn prepare_sandbox(opts: &SandboxOptions) -> (r: Bubblewrap)
    ensures
        r.wf(),
        as_map(r@.binds) == spec_binds_after(Map::empty(), spec_bind_rules(opts@)),
        as_map(r@.envs) == spec_env_after_ops(
            spec_pairs_map(opts@.inherited_env),
            spec_env_ops(opts@),
        ),
        r@.flags == spec_namespace_flags(),
        r@.hostname == Some(spec_hostname(opts@.hostname, opts@.cave_name, opts@.variant)),
        r@.unsets.len() == 0,
        r@.cwd is None,
        r@.executable is None,
        r@.args.len() == 0,
{
    let mut b = Bubblewrap::new(&opts.inherited_env);
    b.add_flag("--unshare-pid");
    b.add_flag("--unshare-uts");
    b.add_flag("--die-with-parent");
    assert(b@.flags =~= spec_namespace_flags());
    let rules = bind_rules(opts);
    b.add_pairs(&rules);
    let ops = env_ops(opts);
    b.apply_env_ops(&ops);
    let name = sandbox_hostname(opts.hostname.as_str(), opts.cave_name.as_str(), &opts.variant);
    b.set_hostname(name.as_str());
    b
}

/// A mount that lets the command write to the host is one of these: the
/// workspace, the workspace's home, or the composition root when it is
/// asked to be writable.
pub open spec fn spec_allowed_writable(o: OptionsView, b: BindView) -> bool {
    spec_writes_host(b.bind_type) ==> (b.host_source == Some(o.workspace) || b.host_source == Some(
        o.cave_home,
    ) || (o.writable_pilocal && b.host_source == Some(o.composition_root)))
}

proof fn lemma_dependency_binds_read_only(deps: Seq<DependencyDirView>)
    ensures
        forall|i: int|
            0 <= i < spec_dependency_binds(deps).len() ==> !spec_writes_host(
                (#[trigger] spec_dependency_binds(deps)[i]).bind_type,
            ),
    decreases deps.len(),
{
    if deps.len() > 0 {
        lemma_dependency_binds_read_only(deps.drop_last());
    }
}

proof fn lemma_rules_allowed(o: OptionsView)
    requires
        o.runtime_dir is None,
    ensures
        forall|i: int|
            0 <= i < spec_bind_rules(o).len() ==> spec_allowed_writable(
                o,
                #[trigger] spec_bind_rules(o)[i],
            ),
{
    lemma_dependency_binds_read_only(o.dependency_dirs);
    let a = spec_system_binds(o.lib64_present);
    let b = spec_virtual_binds();
    let c = spec_workspace_binds(o);
    let d = spec_host_binds(o);
    let e = spec_dependency_binds(o.dependency_dirs);
    let all = spec_bind_rules(o);
    assert forall|i: int| 0 <= i < all.len() implies spec_allowed_writable(o, #[trigger] all[i]) by {
        if i < a.len() {
            assert(all[i] == a[i]);
        } else if i < a.len() + b.len() {
            assert(all[i] == b[i - a.len()]);
        } else if i < a.len() + b.len() + c.len() {
            assert(all[i] == c[i - a.len() - b.len()]);
        } else if i < a.len() + b.len() + c.len() + d.len() {
            assert(all[i] == d[i - a.len() - b.len() - c.len()]);
        } else {
            assert(all[i] == e[i - a.len() - b.len() - c.len() - d.len()]);
        }
    }
}

proof fn lemma_binds_come_from_rules(rules: Seq<BindView>, k: Seq<char>)
    requires
        spec_binds_after(Map::empty(), rules).dom().contains(k),
    ensures
        exists|i: int|
            0 <= i < rules.len() && #[trigger] rules[i] == spec_binds_after(Map::empty(), rules)[k],
    decreases rules.len(),
{
    if rules.len() > 0 {
        if rules.last().cave_target == k {
            assert(rules[rules.len() - 1] == spec_binds_after(Map::empty(), rules)[k]);
        } else {
            lemma_binds_come_from_rules(rules.drop_last(), k);
            let i = choose|i: int|
                0 <= i < rules.drop_last().len() && #[trigger] rules.drop_last()[i]
                    == spec_binds_after(Map::empty(), rules.drop_last())[k];
            assert(rules[i] == spec_binds_after(Map::empty(), rules)[k]);
        }
    }
}

/// Sandbox containment: when the invoker has no runtime directory, every
/// mount of the assembled sandbox through which the command can write to
/// the host leads to the workspace, to the workspace's home, or to the
/// composition root where that was asked to be writable. Everything else
/// on the host is mounted read-only or not at all.
pub proof fn lemma_sandbox_contains_writes(o: OptionsView, target: Seq<char>)
    requires
        o.runtime_dir is None,
        spec_binds_after(Map::empty(), spec_bind_rules(o)).dom().contains(target),
    ensures
        spec_allowed_writable(o, spec_binds_after(Map::empty(), spec_bind_rules(o))[target]),
{
    lemma_rules_allowed(o);
    lemma_binds_come_from_rules(spec_bind_rules(o), target);
}

/// A path with `rel` adjoined ends in `rel`.
proof fn lemma_join_ends(base: Seq<char>, rel: Seq<char>)
    ensures
        rel.is_suffix_of(spec_join_path(base, rel)),
        spec_join_path(base, rel).len() >= rel.len(),
{
    let j = spec_join_path(base, rel);
    if crate::paths::spec_is_absolute(rel) || base.len() == 0 {
        assert(j.subrange(j.len() - rel.len(), j.len() as int) =~= rel);
    } else if base.last() == '/' {
        assert(j.subrange(j.len() - rel.len(), j.len() as int) =~= rel);
    } else {
        assert(j.subrange(j.len() - rel.len(), j.len() as int) =~= rel);
    }
}

/// The character that stands `k` places from the end of `s`.
spec fn from_end(s: Seq<char>, k: int) -> char {
    s[s.len() - k]
}

/// A text that ends in `tail` has the characters of `tail` at its end.
proof fn lemma_tail_chars(s: Seq<char>, tail: Seq<char>, k: int)
    requires
        tail.is_suffix_of(s),
        1 <= k <= tail.len(),
    ensures
        from_end(s, k) == from_end(tail, k),
        s.len() >= tail.len(),
{
    assert(s.subrange(s.len() - tail.len(), s.len() as int) == tail);
    assert(s.subrange(s.len() - tail.len(), s.len() as int)[tail.len() - k] == s[s.len() - k]);
}

/// The directories that lead the search path differ from each other,
/// whatever the home directory is.
pub proof fn lemma_search_front_distinct(host_home: Seq<char>)
    ensures
        spec_search_front(host_home).no_duplicates(),
{
    let f = spec_search_front(host_home);
    let inside = spec_inner_root(host_home);
    reveal_strlit(".pilocal");
    reveal_strlit("bin");
    reveal_strlit(".cargo/bin");
    reveal_strlit(".mix/escripts");
    reveal_strlit(".local/bin");
    reveal_strlit("/usr/bin");
    reveal_strlit("/bin");
    lemma_join_ends(host_home, ".pilocal"@);
    lemma_join_ends(host_home, ".cargo/bin"@);
    lemma_join_ends(host_home, ".mix/escripts"@);
    lemma_join_ends(host_home, ".local/bin"@);
    // The first directory ends in `.pilocal/bin`.
    let tail0 = ".pilocal"@ + seq!['/'] + "bin"@;
    assert(tail0.is_suffix_of(f[0])) by {
        lemma_tail_chars(inside, ".pilocal"@, 1);
        assert(inside.len() > 0 && inside.last() == 'l');
        assert(f[0] == inside.push('/') + "bin"@);
        assert(inside.subrange(inside.len() - 8, inside.len() as int) == ".pilocal"@);
        assert(f[0].subrange(f[0].len() - 12, f[0].len() as int) =~= tail0);
    }
    assert(tail0.len() == 12);
    lemma_tail_chars(f[0], tail0, 1);
    lemma_tail_chars(f[0], tail0, 5);
    lemma_tail_chars(f[0], tail0, 10);
    lemma_tail_chars(f[1], ".cargo/bin"@, 1);
    lemma_tail_chars(f[1], ".cargo/bin"@, 5);
    lemma_tail_chars(f[2], ".mix/escripts"@, 1);
    lemma_tail_chars(f[3], ".local/bin"@, 1);
    lemma_tail_chars(f[3], ".local/bin"@, 5);
    lemma_tail_chars(f[3], ".local/bin"@, 10);
    assert(from_end(f[0], 1) == 'n' && from_end(f[0], 5) == 'l' && from_end(f[0], 10) == 'i');
    assert(from_end(f[1], 1) == 'n' && from_end(f[1], 5) == 'o');
    assert(from_end(f[2], 1) == 's');
    assert(from_end(f[3], 1) == 'n' && from_end(f[3], 5) == 'l' && from_end(f[3], 10) == '.');
    assert(from_end(f[4], 1) == 'n' && from_end(f[4], 5) == 'r' && f[4].len() == 8);
    assert(from_end(f[5], 1) == 'n' && f[5].len() == 4);
    assert(f[0].len() >= 12 && f[1].len() >= 10 && f[2].len() >= 13 && f[3].len() >= 10);
    assert forall|a: int, b: int| 0 <= a < f.len() && 0 <= b < f.len() && a != b implies f[a]
        != f[b] by {
        if f[a] == f[b] {
            assert(from_end(f[a], 1) == from_end(f[b], 1));
            assert(from_end(f[a], 5) == from_end(f[b], 5));
            assert(from_end(f[a], 10) == from_end(f[b], 10));
            assert(f[a].len() == f[b].len());
        }
    }
}

/// The changes to the environment that come before the search path is
/// set: the runtime directory and the directories of the dependencies.
pub open spec fn spec_early_ops(o: OptionsView) -> Seq<EnvOpView> {
    (match o.runtime_dir {
        Some(d) => seq![EnvOpView::Assign { name: "XDG_RUNTIME_DIR"@, value: d }],
        None => Seq::<EnvOpView>::empty(),
    }) + spec_dependency_paths(o.dependency_dirs)
}

/// The search path that the directories of `spec_search_front` are put in
/// front of: the invoker's own, with the `bin` directories of the
/// dependencies added.
pub open spec fn spec_path_before(o: OptionsView, env: Map<Seq<char>, Seq<char>>) -> Seq<char> {
    let m = spec_env_after_ops(env, spec_early_ops(o));
    if m.dom().contains("PATH"@) {
        m["PATH"@]
    } else {
        Seq::<char>::empty()
    }
}

/// Changes applied one list after another are the changes of the joined
/// list.
pub proof fn lemma_env_ops_append(
    m: Map<Seq<char>, Seq<char>>,
    a: Seq<EnvOpView>,
    b: Seq<EnvOpView>,
)
    ensures
        spec_env_after_ops(m, a + b) == spec_env_after_ops(spec_env_after_ops(m, a), b),
    decreases b.len(),
{
    if b.len() == 0 {
        assert(a + b =~= a);
    } else {
        lemma_env_ops_append(m, a, b.drop_last());
        assert((a + b).drop_last() =~= a + b.drop_last());
        assert((a + b).last() == b.last());
    }
}

/// Setting other variables leaves a variable as it is.
pub proof fn lemma_assigns_keep(m: Map<Seq<char>, Seq<char>>, ops: Seq<EnvOpView>, name: Seq<char>)
    requires
        forall|i: int|
            0 <= i < ops.len() ==> (#[trigger] ops[i] matches EnvOpView::Assign { name: n, .. }
                && n != name),
    ensures
        spec_env_after_ops(m, ops).dom().contains(name) == m.dom().contains(name),
        m.dom().contains(name) ==> spec_env_after_ops(m, ops)[name] == m[name],
    decreases ops.len(),
{
    if ops.len() > 0 {
        assert forall|i: int| 0 <= i < ops.drop_last().len() implies (
        #[trigger] ops.drop_last()[i] matches EnvOpView::Assign { name: n, .. } && n != name) by {
            assert(ops.drop_last()[i] == ops[i]);
        }
        lemma_assigns_keep(m, ops.drop_last(), name);
        assert(ops[ops.len() - 1] == ops.last());
    }
}

/// The changes of `spec_identity_envs` end by putting the directories of
/// `spec_search_front` in front of the search path.
proof fn lemma_identity_sets_path(o: OptionsView, m: Map<Seq<char>, Seq<char>>)
    ensures
        spec_env_after_ops(m, spec_identity_envs(o)).dom().contains("PATH"@),
        spec_env_after_ops(m, spec_identity_envs(o))["PATH"@] == spec_lead(
            if m.dom().contains("PATH"@) {
                m["PATH"@]
            } else {
                Seq::<char>::empty()
            },
            spec_search_front(o.host_home),
        ),
{
    let identity = spec_identity_envs(o);
    let assigns = identity.drop_last();
    reveal_strlit("PATH");
    reveal_strlit("HOME");
    reveal_strlit("USER");
    reveal_strlit("PI_WORKSPACE");
    reveal_strlit("PI_CAVE");
    assert("HOME"@ != "PATH"@) by {
        assert("HOME"@[0] != "PATH"@[0]);
    }
    assert("USER"@ != "PATH"@) by {
        assert("USER"@[0] != "PATH"@[0]);
    }
    assert("PI_WORKSPACE"@ != "PATH"@) by {
        assert("PI_WORKSPACE"@.len() != "PATH"@.len());
    }
    assert("PI_CAVE"@ != "PATH"@) by {
        assert("PI_CAVE"@.len() != "PATH"@.len());
    }
    assert(assigns.len() == 4);
    assert forall|i: int| 0 <= i < assigns.len() implies (
    #[trigger] assigns[i] matches EnvOpView::Assign { name: n, .. } && n != "PATH"@) by {
        assert(assigns[i] == identity[i]);
    }
    lemma_assigns_keep(m, assigns, "PATH"@);
    assert(identity.last() == (EnvOpView::Lead {
        name: "PATH"@,
        entries: spec_search_front(o.host_home),
    }));
}

/// The search path inside the sandbox begins with the directories of
/// `spec_search_front`, in their order, whatever the invoker's search path
/// held: first what the composition root holds, then the tool directories
/// of the home, then the system. What the invoker's path held, and the
/// `bin` directories of the dependencies, follow; no directory stands in
/// the search path twice. This holds unless a package or the workspace
/// sets the search path itself.
pub proof fn lemma_search_path_leads(o: OptionsView, env: Map<Seq<char>, Seq<char>>)
    requires
        !has_key(o.package_envs, "PATH"@),
        !has_key(o.cave_envs, "PATH"@),
    ensures
        spec_env_after_ops(env, spec_env_ops(o)).dom().contains("PATH"@),
        spec_env_after_ops(env, spec_env_ops(o))["PATH"@] == spec_join(
            spec_union(spec_search_front(o.host_home), spec_list_parts(spec_path_before(o, env))),
            seq![':'],
        ),
        spec_search_front(o.host_home).is_prefix_of(
            spec_union(spec_search_front(o.host_home), spec_list_parts(spec_path_before(o, env))),
        ),
        forall|x: Seq<char>|
            spec_list_parts(spec_path_before(o, env)).contains(x) ==> #[trigger] spec_union(
                spec_search_front(o.host_home),
                spec_list_parts(spec_path_before(o, env)),
            ).contains(x),
        spec_union(
            spec_search_front(o.host_home),
            spec_list_parts(spec_path_before(o, env)),
        ).no_duplicates(),
{
    lemma_search_front_distinct(o.host_home);
    let early = spec_early_ops(o);
    let identity = spec_identity_envs(o);
    let inside = spec_inner_root(o.host_home);
    let packages = spec_custom_envs(o.package_envs, inside, o.host_home, o.packages_dir);
    let cave = spec_custom_envs(o.cave_envs, inside, o.host_home, o.packages_dir);
    assert(spec_env_ops(o) =~= ((early + identity) + packages) + cave);
    lemma_env_ops_append(env, (early + identity) + packages, cave);
    lemma_env_ops_append(env, early + identity, packages);
    lemma_env_ops_append(env, early, identity);
    let m0 = spec_env_after_ops(env, early);
    let m1 = spec_env_after_ops(m0, identity);
    lemma_identity_sets_path(o, m0);
    assert forall|i: int| 0 <= i < packages.len() implies (
    #[trigger] packages[i] matches EnvOpView::Assign { name: n, .. } && n != "PATH"@) by {
        assert(has_key(o.package_envs, o.package_envs[i].0));
    }
    lemma_assigns_keep(m1, packages, "PATH"@);
    let m2 = spec_env_after_ops(m1, packages);
    assert forall|i: int| 0 <= i < cave.len() implies (
    #[trigger] cave[i] matches EnvOpView::Assign { name: n, .. } && n != "PATH"@) by {
        assert(has_key(o.cave_envs, o.cave_envs[i].0));
    }
    lemma_assigns_keep(m2, cave, "PATH"@);
    lemma_lead_parts(spec_path_before(o, env), spec_search_front(o.host_home));
}

} // verus!
