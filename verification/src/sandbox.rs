//! The description of a sandboxed command: mounts, environment, flags and
//! the command itself, and the argument list that the sandbox tool is
//! started with.

use crate::text::{
    chars_eq, chars_view, copy_strings, from_chars, join_chars, opt_view, spec_join, spec_split,
    split_chars, strings_view, to_chars,
};
use crate::settings::{lemma_union, spec_union, union_into};
use crate::textmap::{as_map, spec_get, SortedMap, TextMap};
use vstd::prelude::*;

verus! {

/// How a path appears inside the sandbox.
#[derive(Debug, Clone, Copy, PartialEq, Eq, Structural)]
pub enum BindType {
    Bind,
    BindTry,
    DevBind,
    DevBindTry,
    RoBind,
    RoBindTry,
    Proc,
    Dev,
    Tmpfs,
    Dir,
}

/// The option of the sandbox tool that makes a mount of this type.
pub open spec fn spec_bind_flag(t: BindType) -> Seq<char> {
    match t {
        BindType::Bind => "--bind"@,
        BindType::BindTry => "--bind-try"@,
        BindType::DevBind => "--dev-bind"@,
        BindType::DevBindTry => "--dev-bind-try"@,
        BindType::RoBind => "--ro-bind"@,
        BindType::RoBindTry => "--ro-bind-try"@,
        BindType::Proc => "--proc"@,
        BindType::Dev => "--dev"@,
        BindType::Tmpfs => "--tmpfs"@,
        BindType::Dir => "--dir"@,
    }
}

/// A mount of this type lets the command write to the host path behind it.
pub open spec fn spec_writes_host(t: BindType) -> bool {
    t == BindType::Bind || t == BindType::BindTry || t == BindType::DevBind || t
        == BindType::DevBindTry
}

impl BindType {
    /// The option of the sandbox tool that makes a mount of this type.
    pub fn as_str(&self) -> (r: &'static str)
        ensures
            r@ == spec_bind_flag(*self),
    {
        match self {
            BindType::Bind => "--bind",
            BindType::BindTry => "--bind-try",
            BindType::DevBind => "--dev-bind",
            BindType::DevBindTry => "--dev-bind-try",
            BindType::RoBind => "--ro-bind",
            BindType::RoBindTry => "--ro-bind-try",
            BindType::Proc => "--proc",
            BindType::Dev => "--dev",
            BindType::Tmpfs => "--tmpfs",
            BindType::Dir => "--dir",
        }
    }

    /// `true` when a mount of this type lets the command write to the host.
    pub fn writes_host(&self) -> (r: bool)
        ensures
            r == spec_writes_host(*self),
    {
        match self {
            BindType::Bind | BindType::BindTry | BindType::DevBind | BindType::DevBindTry => true,
            _ => false,
        }
    }
}

/// One mount: where it appears in the sandbox, what host path stands
/// behind it (none for a virtual file system), and its type.
#[derive(Debug, Clone)]
pub struct BindPair {
    pub cave_target: String,
    pub host_source: Option<String>,
    pub bind_type: BindType,
}

/// The mathematical content of a mount.
pub struct BindView {
    pub cave_target: Seq<char>,
    pub host_source: Option<Seq<char>>,
    pub bind_type: BindType,
}

impl View for BindPair {
    type V = BindView;

    open spec fn view(&self) -> BindView {
        BindView {
            cave_target: self.cave_target@,
            host_source: opt_view(self.host_source),
            bind_type: self.bind_type,
        }
    }
}

/// The sandbox under construction.
#[derive(Debug, Clone)]
pub struct Bubblewrap {
    /// Mounts by target, in ascending order of the target.
    pub binds: SortedMap<BindPair>,
    /// Environment variables, in ascending order of the name.
    pub envs: TextMap,
    pub unsets: Vec<String>,
    pub flags: Vec<String>,
    pub hostname: Option<String>,
    pub cwd: Option<String>,
    pub executable: Option<String>,
    pub args: Vec<String>,
}

/// The mathematical content of a sandbox description.
pub struct SandboxView {
    pub binds: Seq<(Seq<char>, BindView)>,
    pub envs: Seq<(Seq<char>, Seq<char>)>,
    pub unsets: Seq<Seq<char>>,
    pub flags: Seq<Seq<char>>,
    pub hostname: Option<Seq<char>>,
    pub cwd: Option<Seq<char>>,
    pub executable: Option<Seq<char>>,
    pub args: Seq<Seq<char>>,
}

impl View for Bubblewrap {
    type V = SandboxView;

    open spec fn view(&self) -> SandboxView {
        SandboxView {
            binds: self.binds@,
            envs: self.envs@,
            unsets: strings_view(self.unsets@),
            flags: strings_view(self.flags@),
            hostname: opt_view(self.hostname),
            cwd: opt_view(self.cwd),
            executable: opt_view(self.executable),
            args: strings_view(self.args@),
        }
    }
}

/// The map that a list of pairs describes: of several pairs for one key
/// the last counts.
pub open spec fn spec_pairs_map(pairs: Seq<(Seq<char>, Seq<char>)>) -> Map<Seq<char>, Seq<char>>
    decreases pairs.len(),
{
    if pairs.len() == 0 {
        Map::empty()
    } else {
        spec_pairs_map(pairs.drop_last()).insert(pairs.last().0, pairs.last().1)
    }
}

/// A change to the environment of the command.
#[derive(Debug, Clone)]
pub enum EnvOp {
    /// Give the variable this value.
    Assign { name: String, value: String },
    /// Put the entry in front of the colon-separated list the variable
    /// holds.
    AddFirst { name: String, entry: String },
    /// Put the entries in front of the colon-separated list the variable
    /// holds, in their order, whatever the list holds.
    Lead { name: String, entries: Vec<String> },
}

/// The mathematical content of a change to the environment.
pub enum EnvOpView {
    Assign { name: Seq<char>, value: Seq<char> },
    AddFirst { name: Seq<char>, entry: Seq<char> },
    Lead { name: Seq<char>, entries: Seq<Seq<char>> },
}

impl View for EnvOp {
    type V = EnvOpView;

    open spec fn view(&self) -> EnvOpView {
        match self {
            EnvOp::Assign { name, value } => EnvOpView::Assign { name: name@, value: value@ },
            EnvOp::AddFirst { name, entry } => EnvOpView::AddFirst { name: name@, entry: entry@ },
            EnvOp::Lead { name, entries } => EnvOpView::Lead {
                name: name@,
                entries: strings_view(entries@),
            },
        }
    }
}

/// The environment after one change.
pub open spec fn spec_env_step(m: Map<Seq<char>, Seq<char>>, op: EnvOpView) -> Map<
    Seq<char>,
    Seq<char>,
> {
    match op {
        EnvOpView::Assign { name, value } => m.insert(name, value),
        EnvOpView::AddFirst { name, entry } => m.insert(
            name,
            spec_add_first(
                if m.dom().contains(name) {
                    m[name]
                } else {
                    Seq::<char>::empty()
                },
                entry,
            ),
        ),
        EnvOpView::Lead { name, entries } => m.insert(
            name,
            spec_lead(
                if m.dom().contains(name) {
                    m[name]
                } else {
                    Seq::<char>::empty()
                },
                entries,
            ),
        ),
    }
}

/// The environment after a list of changes, applied in order.
pub open spec fn spec_env_after_ops(m: Map<Seq<char>, Seq<char>>, ops: Seq<EnvOpView>) -> Map<
    Seq<char>,
    Seq<char>,
>
    decreases ops.len(),
{
    if ops.len() == 0 {
        m
    } else {
        spec_env_step(spec_env_after_ops(m, ops.drop_last()), ops.last())
    }
}

/// The mounts after a list of mounts is added in order: of several mounts
/// with one target the last counts.
pub open spec fn spec_binds_after(m: Map<Seq<char>, BindView>, rules: Seq<BindView>) -> Map<
    Seq<char>,
    BindView,
>
    decreases rules.len(),
{
    if rules.len() == 0 {
        m
    } else {
        spec_binds_after(m, rules.drop_last()).insert(rules.last().cave_target, rules.last())
    }
}

/// The views of a list of pairs of strings.
pub open spec fn pairs_view(v: Seq<(String, String)>) -> Seq<(Seq<char>, Seq<char>)> {
    Seq::new(v.len(), |i: int| (v[i].0@, v[i].1@))
}

/// The parts that are not empty, in order.
pub open spec fn spec_drop_empty(parts: Seq<Seq<char>>) -> Seq<Seq<char>>
    decreases parts.len(),
{
    if parts.len() == 0 {
        parts
    } else if parts.last().len() > 0 {
        spec_drop_empty(parts.drop_last()).push(parts.last())
    } else {
        spec_drop_empty(parts.drop_last())
    }
}

/// A colon-separated list with `entry` put in front, unless the list holds
/// it already; empty parts are dropped.
pub open spec fn spec_add_first(val: Seq<char>, entry: Seq<char>) -> Seq<char> {
    let parts = spec_drop_empty(spec_split(val, ':'));
    if parts.contains(entry) {
        spec_join(parts, seq![':'])
    } else {
        spec_join(seq![entry] + parts, seq![':'])
    }
}

/// Puts `entry` in front of a colon-separated list.
pub fn add_first(val: &str, entry: &str) -> (r: String)
    ensures
        r@ == spec_add_first(val@, entry@),
{
    let v = to_chars(val);
    let e = to_chars(entry);
    let pieces = split_chars(&v, ':');
    let ghost all = spec_split(val@, ':');
    let mut kept: Vec<Vec<char>> = Vec::new();
    let mut found = false;
    let mut i: usize = 0;
    assert(all.subrange(0, 0) =~= Seq::<Seq<char>>::empty());
    while i < pieces.len()
        invariant
            i <= pieces.len(),
            all == chars_view(pieces@),
            chars_view(kept@) == spec_drop_empty(all.subrange(0, i as int)),
            found == chars_view(kept@).contains(e@),
        decreases pieces.len() - i,
    {
        let ghost before = chars_view(kept@);
        assert(all.subrange(0, i + 1).drop_last() =~= all.subrange(0, i as int));
        assert(all.subrange(0, i + 1).last() == pieces@[i as int]@);
        if pieces[i].len() > 0 {
            let same = chars_eq(&pieces[i], &e);
            kept.push(crate::text::slice_chars(&pieces[i], 0, pieces[i].len()));
            proof {
                assert(pieces@[i as int]@.subrange(0, pieces@[i as int]@.len() as int)
                    =~= pieces@[i as int]@);
                let after = chars_view(kept@);
                assert(after =~= before.push(pieces@[i as int]@));
                if same {
                    assert(after[after.len() - 1] == e@);
                } else if after.contains(e@) {
                    let j = choose|j: int| 0 <= j < after.len() && after[j] == e@;
                    assert(before[j] == e@);
                } else if before.contains(e@) {
                    let j = choose|j: int| 0 <= j < before.len() && before[j] == e@;
                    assert(after[j] == e@);
                }
            }
            found = found || same;
        }
        i += 1;
    }
    assert(all.subrange(0, all.len() as int) =~= all);
    let mut sep: Vec<char> = Vec::new();
    sep.push(':');
    assert(sep@ =~= seq![':']);
    if found {
        from_chars(&join_chars(&kept, &sep))
    } else {
        let ghost parts = chars_view(kept@);
        kept.insert(0, e);
        assert(chars_view(kept@) =~= seq![entry@] + parts);
        from_chars(&join_chars(&kept, &sep))
    }
}

/// The parts of a colon-separated list, without the empty ones.
pub open spec fn spec_list_parts(val: Seq<char>) -> Seq<Seq<char>> {
    spec_drop_empty(spec_split(val, ':'))
}

/// A colon-separated list led by `entries`: they stand in front, in their
/// order, whatever the list held. What the list held follows in its own
/// order, without its empty parts, and without any part that stands
/// earlier in the result already.
pub open spec fn spec_lead(val: Seq<char>, entries: Seq<Seq<char>>) -> Seq<char> {
    spec_join(spec_union(entries, spec_list_parts(val)), seq![':'])
}

/// Puts `entries` in front of a colon-separated list.
pub fn lead(val: &str, entries: &Vec<String>) -> (r: String)
    ensures
        r@ == spec_lead(val@, strings_view(entries@)),
{
    let v = to_chars(val);
    let pieces = split_chars(&v, ':');
    let ghost all = spec_split(val@, ':');
    let mut parts: Vec<String> = Vec::new();
    let mut i: usize = 0;
    assert(all.subrange(0, 0) =~= Seq::<Seq<char>>::empty());
    assert(strings_view(parts@) =~= Seq::<Seq<char>>::empty());
    while i < pieces.len()
        invariant
            i <= pieces.len(),
            all == chars_view(pieces@),
            strings_view(parts@) == spec_drop_empty(all.subrange(0, i as int)),
        decreases pieces.len() - i,
    {
        assert(all.subrange(0, i + 1).drop_last() =~= all.subrange(0, i as int));
        assert(all.subrange(0, i + 1).last() == pieces@[i as int]@);
        if pieces[i].len() > 0 {
            let ghost before = strings_view(parts@);
            parts.push(from_chars(&pieces[i]));
            assert(strings_view(parts@) =~= before.push(pieces@[i as int]@));
        }
        i += 1;
    }
    assert(all.subrange(0, all.len() as int) =~= all);
    let mut list = copy_strings(entries);
    union_into(&mut list, &parts);
    let mut texts: Vec<Vec<char>> = Vec::new();
    let mut k: usize = 0;
    while k < list.len()
        invariant
            k <= list.len(),
            texts.len() == k,
            forall|j: int| 0 <= j < k ==> (#[trigger] texts@[j])@ == list@[j]@,
        decreases list.len() - k,
    {
        texts.push(to_chars(list[k].as_str()));
        k += 1;
    }
    assert(chars_view(texts@) =~= strings_view(list@));
    let mut sep: Vec<char> = Vec::new();
    sep.push(':');
    assert(sep@ =~= seq![':']);
    from_chars(&join_chars(&texts, &sep))
}

/// The entries that lead a list stand at its front, in their order, and
/// every part that the list held is still in it. If the entries differ
/// from each other, nothing stands in the result twice.
pub proof fn lemma_lead_parts(val: Seq<char>, entries: Seq<Seq<char>>)
    ensures
        entries.is_prefix_of(spec_union(entries, spec_list_parts(val))),
        forall|x: Seq<char>|
            #[trigger] spec_union(entries, spec_list_parts(val)).contains(x) <==> (
            entries.contains(x) || spec_list_parts(val).contains(x)),
        entries.no_duplicates() ==> spec_union(entries, spec_list_parts(val)).no_duplicates(),
{
    lemma_union(entries, spec_list_parts(val));
}

/// The arguments that make one mount.
pub open spec fn spec_one_bind(b: BindView) -> Seq<Seq<char>> {
    match b.host_source {
        Some(src) => seq![spec_bind_flag(b.bind_type), src, b.cave_target],
        None => seq![spec_bind_flag(b.bind_type), b.cave_target],
    }
}

/// The arguments that make the mounts, in order.
pub open spec fn spec_bind_args(binds: Seq<(Seq<char>, BindView)>) -> Seq<Seq<char>>
    decreases binds.len(),
{
    if binds.len() == 0 {
        Seq::empty()
    } else {
        spec_bind_args(binds.drop_last()) + spec_one_bind(binds.last().1)
    }
}

/// The arguments that set the environment variables, in order.
pub open spec fn spec_env_args(envs: Seq<(Seq<char>, Seq<char>)>) -> Seq<Seq<char>>
    decreases envs.len(),
{
    if envs.len() == 0 {
        Seq::empty()
    } else {
        spec_env_args(envs.drop_last()) + seq!["--setenv"@, envs.last().0, envs.last().1]
    }
}

/// The arguments that remove environment variables, in order.
pub open spec fn spec_unset_args(unsets: Seq<Seq<char>>) -> Seq<Seq<char>>
    decreases unsets.len(),
{
    if unsets.len() == 0 {
        Seq::empty()
    } else {
        spec_unset_args(unsets.drop_last()) + seq!["--unsetenv"@, unsets.last()]
    }
}

/// An option with its value, when the value is set.
pub open spec fn spec_option_args(flag: Seq<char>, value: Option<Seq<char>>) -> Seq<Seq<char>> {
    match value {
        Some(v) => seq![flag, v],
        None => Seq::empty(),
    }
}

/// The separator, the executable and its arguments, when a command is set.
pub open spec fn spec_command_args(exe: Option<Seq<char>>, args: Seq<Seq<char>>) -> Seq<
    Seq<char>,
> {
    match exe {
        Some(e) => seq!["--"@, e] + args,
        None => Seq::empty(),
    }
}

/// The arguments the sandbox tool is started with: flags, mounts in
/// ascending order of their targets, variables in ascending order of
/// their names, removed variables, host name, working directory, and last
/// the command.
pub open spec fn spec_build_args(v: SandboxView) -> Seq<Seq<char>> {
    v.flags + spec_bind_args(v.binds) + spec_env_args(v.envs) + spec_unset_args(v.unsets)
        + spec_option_args("--hostname"@, v.hostname) + spec_option_args("--chdir"@, v.cwd)
        + spec_command_args(v.executable, v.args)
}

/// Appends copies of `tail` to `out`.
fn extend_strings(out: &mut Vec<String>, tail: &Vec<String>)
    ensures
        strings_view(final(out)@) == strings_view(old(out)@) + strings_view(tail@),
{
    let mut i: usize = 0;
    let ghost start = strings_view(out@);
    assert(strings_view(tail@).subrange(0, 0) =~= Seq::<Seq<char>>::empty());
    while i < tail.len()
        invariant
            i <= tail.len(),
            strings_view(out@) == start + strings_view(tail@).subrange(0, i as int),
        decreases tail.len() - i,
    {
        let ghost before = strings_view(out@);
        out.push(tail[i].clone());
        assert(strings_view(out@) =~= before.push(tail@[i as int]@));
        i += 1;
        assert(strings_view(out@) =~= start + strings_view(tail@).subrange(0, i as int));
    }
    assert(strings_view(tail@).subrange(0, tail@.len() as int) =~= strings_view(tail@));
}

/// Appends one string to `out`.
fn push_text(out: &mut Vec<String>, s: &str)
    ensures
        strings_view(final(out)@) == strings_view(old(out)@).push(s@),
{
    let ghost before = strings_view(out@);
    out.push(String::from_str(s));
    assert(strings_view(out@) =~= before.push(s@));
}

impl Bubblewrap {
    /// Both maps are in order.
    pub open spec fn wf(&self) -> bool {
        self.binds.wf() && self.envs.wf()
    }

    /// A sandbox with no mounts, flags or command, whose environment is
    /// the inherited one; of several pairs for one name the last counts.
    pub fn new(inherited: &Vec<(String, String)>) -> (r: Bubblewrap)
        ensures
            r.wf(),
            r@.binds.len() == 0,
            as_map(r@.binds) == Map::<Seq<char>, BindView>::empty(),
            r@.unsets.len() == 0,
            r@.flags.len() == 0,
            r@.args.len() == 0,
            r@.hostname is None,
            r@.cwd is None,
            r@.executable is None,
            as_map(r@.envs) == spec_pairs_map(pairs_view(inherited@)),
    {
        let mut envs: TextMap = SortedMap::new();
        let mut i: usize = 0;
        let ghost pairs = pairs_view(inherited@);
        assert(pairs.subrange(0, 0) =~= Seq::<(Seq<char>, Seq<char>)>::empty());
        assert(as_map(envs@) =~= Map::<Seq<char>, Seq<char>>::empty());
        while i < inherited.len()
            invariant
                i <= inherited.len(),
                envs.wf(),
                pairs == pairs_view(inherited@),
                as_map(envs@) == spec_pairs_map(pairs.subrange(0, i as int)),
            decreases inherited.len() - i,
        {
            envs.insert(inherited[i].0.clone(), inherited[i].1.clone());
            proof {
                let cur = pairs.subrange(0, i + 1);
                assert(cur.drop_last() =~= pairs.subrange(0, i as int));
                assert(cur.last() == pairs[i as int]);
            }
            i += 1;
        }
        assert(pairs.subrange(0, pairs.len() as int) =~= pairs);
        let binds: SortedMap<BindPair> = SortedMap::new();
        assert(as_map(binds@) =~= Map::<Seq<char>, BindView>::empty());
        Bubblewrap {
            binds,
            envs,
            unsets: Vec::new(),
            flags: Vec::new(),
            hostname: None,
            cwd: None,
            executable: None,
            args: Vec::new(),
        }
    }

    /// Mounts the host path `path` at the same place in the sandbox.
    pub fn add_bind(&mut self, typ: BindType, path: &str)
        requires
            old(self).wf(),
        ensures
            final(self).wf(),
            as_map(final(self)@.binds) == as_map(old(self)@.binds).insert(
                path@,
                BindView { cave_target: path@, host_source: Some(path@), bind_type: typ },
            ),
            final(self)@ == (SandboxView { binds: final(self)@.binds, ..old(self)@ }),
    {
        self.binds.insert(
            String::from_str(path),
            BindPair {
                cave_target: String::from_str(path),
                host_source: Some(String::from_str(path)),
                bind_type: typ,
            },
        );
    }

    /// What a list of mounts of one type looks like after `paths`, each
    /// mounted at its own place.
    pub open spec fn spec_add_binds(
        m: Map<Seq<char>, BindView>,
        typ: BindType,
        paths: Seq<Seq<char>>,
    ) -> Map<Seq<char>, BindView>
        decreases paths.len(),
    {
        if paths.len() == 0 {
            m
        } else {
            Self::spec_add_binds(m, typ, paths.drop_last()).insert(
                paths.last(),
                BindView {
                    cave_target: paths.last(),
                    host_source: Some(paths.last()),
                    bind_type: typ,
                },
            )
        }
    }

    /// Mounts each of the host paths at the same place in the sandbox.
    pub fn add_binds(&mut self, typ: BindType, paths: &Vec<String>)
        requires
            old(self).wf(),
        ensures
            final(self).wf(),
            as_map(final(self)@.binds) == Self::spec_add_binds(
                as_map(old(self)@.binds),
                typ,
                strings_view(paths@),
            ),
            final(self)@ == (SandboxView { binds: final(self)@.binds, ..old(self)@ }),
    {
        let mut i: usize = 0;
        let ghost all = strings_view(paths@);
        let ghost start = as_map(self@.binds);
        assert(all.subrange(0, 0) =~= Seq::<Seq<char>>::empty());
        while i < paths.len()
            invariant
                i <= paths.len(),
                self.wf(),
                all == strings_view(paths@),
                as_map(self@.binds) == Self::spec_add_binds(start, typ, all.subrange(0, i as int)),
                self@ == (SandboxView { binds: self@.binds, ..old(self)@ }),
            decreases paths.len() - i,
        {
            assert(all.subrange(0, i + 1).drop_last() =~= all.subrange(0, i as int));
            assert(all.subrange(0, i + 1).last() == paths@[i as int]@);
            self.add_bind(typ, paths[i].as_str());
            i += 1;
        }
        assert(all.subrange(0, all.len() as int) =~= all);
    }

    /// Mounts the host path `host_path` at `cave_path` in the sandbox.
    pub fn add_map_bind(&mut self, typ: BindType, host_path: &str, cave_path: &str)
        requires
            old(self).wf(),
        ensures
            final(self).wf(),
            as_map(final(self)@.binds) == as_map(old(self)@.binds).insert(
                cave_path@,
                BindView { cave_target: cave_path@, host_source: Some(host_path@), bind_type: typ },
            ),
            final(self)@ == (SandboxView { binds: final(self)@.binds, ..old(self)@ }),
    {
        self.binds.insert(
            String::from_str(cave_path),
            BindPair {
                cave_target: String::from_str(cave_path),
                host_source: Some(String::from_str(host_path)),
                bind_type: typ,
            },
        );
    }

    /// Mounts a virtual file system at `path` in the sandbox.
    pub fn add_virtual(&mut self, typ: BindType, path: &str)
        requires
            old(self).wf(),
        ensures
            final(self).wf(),
            as_map(final(self)@.binds) == as_map(old(self)@.binds).insert(
                path@,
                BindView { cave_target: path@, host_source: None, bind_type: typ },
            ),
            final(self)@ == (SandboxView { binds: final(self)@.binds, ..old(self)@ }),
    {
        self.binds.insert(
            String::from_str(path),
            BindPair { cave_target: String::from_str(path), host_source: None, bind_type: typ },
        );
    }

    /// Adds an option of the sandbox tool.
    pub fn add_flag(&mut self, flag: &str)
        ensures
            final(self)@ == (SandboxView { flags: old(self)@.flags.push(flag@), ..old(self)@ }),
            old(self).wf() ==> final(self).wf(),
    {
        push_text(&mut self.flags, flag);
    }

    /// Removes a variable from the environment of the command.
    pub fn unset_env(&mut self, name: &str)
        requires
            old(self).wf(),
        ensures
            final(self).wf(),
            as_map(final(self)@.envs) == as_map(old(self)@.envs).remove(name@),
            final(self)@ == (SandboxView {
                envs: final(self)@.envs,
                unsets: old(self)@.unsets.push(name@),
                ..old(self)@
            }),
    {
        push_text(&mut self.unsets, name);
        self.envs.remove(name);
    }

    /// Sets a variable in the environment of the command.
    pub fn set_env(&mut self, name: &str, value: &str)
        requires
            old(self).wf(),
        ensures
            final(self).wf(),
            as_map(final(self)@.envs) == as_map(old(self)@.envs).insert(name@, value@),
            final(self)@ == (SandboxView { envs: final(self)@.envs, ..old(self)@ }),
    {
        self.envs.insert(String::from_str(name), String::from_str(value));
    }

    /// Puts `entry` in front of the colon-separated list held by the
    /// variable `name`, unless the list holds it already.
    pub fn add_env_first(&mut self, name: &str, entry: &str)
        requires
            old(self).wf(),
        ensures
            final(self).wf(),
            as_map(final(self)@.envs) == as_map(old(self)@.envs).insert(
                name@,
                spec_add_first(
                    match spec_get(old(self)@.envs, name@) {
                        Some(v) => v,
                        None => Seq::<char>::empty(),
                    },
                    entry@,
                ),
            ),
            final(self)@ == (SandboxView { envs: final(self)@.envs, ..old(self)@ }),
    {
        let current = match self.envs.get_text(name) {
            Some(v) => v,
            None => String::new(),
        };
        let next = add_first(current.as_str(), entry);
        self.envs.insert(String::from_str(name), next);
    }

    /// Puts `entries` in front of the colon-separated list that the
    /// variable `name` holds, in their order; a variable that is not set
    /// counts as the empty list.
    pub fn lead_env(&mut self, name: &str, entries: &Vec<String>)
        requires
            old(self).wf(),
        ensures
            final(self).wf(),
            as_map(final(self)@.envs) == as_map(old(self)@.envs).insert(
                name@,
                spec_lead(
                    match spec_get(old(self)@.envs, name@) {
                        Some(v) => v,
                        None => Seq::<char>::empty(),
                    },
                    strings_view(entries@),
                ),
            ),
            final(self)@ == (SandboxView { envs: final(self)@.envs, ..old(self)@ }),
    {
        let current = match self.envs.get_text(name) {
            Some(v) => v,
            None => String::new(),
        };
        let next = lead(current.as_str(), entries);
        self.envs.insert(String::from_str(name), next);
    }

    /// Adds a mount as described by `pair`.
    pub fn add_pair(&mut self, pair: &BindPair)
        requires
            old(self).wf(),
        ensures
            final(self).wf(),
            as_map(final(self)@.binds) == as_map(old(self)@.binds).insert(
                pair@.cave_target,
                pair@,
            ),
            final(self)@ == (SandboxView { binds: final(self)@.binds, ..old(self)@ }),
    {
        self.binds.insert(
            pair.cave_target.clone(),
            BindPair {
                cave_target: pair.cave_target.clone(),
                host_source: crate::text::copy_opt_string(&pair.host_source),
                bind_type: pair.bind_type,
            },
        );
    }

    /// Adds the mounts of a list, in order.
    pub fn add_pairs(&mut self, pairs: &Vec<BindPair>)
        requires
            old(self).wf(),
        ensures
            final(self).wf(),
            as_map(final(self)@.binds) == spec_binds_after(
                as_map(old(self)@.binds),
                crate::records::views(pairs@),
            ),
            final(self)@ == (SandboxView { binds: final(self)@.binds, ..old(self)@ }),
    {
        let ghost all = crate::records::views(pairs@);
        let ghost start = as_map(self@.binds);
        let mut i: usize = 0;
        assert(all.subrange(0, 0) =~= Seq::<BindView>::empty());
        while i < pairs.len()
            invariant
                i <= pairs.len(),
                self.wf(),
                all == crate::records::views(pairs@),
                as_map(self@.binds) == spec_binds_after(start, all.subrange(0, i as int)),
                self@ == (SandboxView { binds: self@.binds, ..old(self)@ }),
            decreases pairs.len() - i,
        {
            assert(all.subrange(0, i + 1).drop_last() =~= all.subrange(0, i as int));
            assert(all.subrange(0, i + 1).last() == pairs@[i as int]@);
            self.add_pair(&pairs[i]);
            i += 1;
        }
        assert(all.subrange(0, all.len() as int) =~= all);
    }

    /// Applies a list of changes to the environment, in order.
    pub fn apply_env_ops(&mut self, ops: &Vec<EnvOp>)
        requires
            old(self).wf(),
        ensures
            final(self).wf(),
            as_map(final(self)@.envs) == spec_env_after_ops(
                as_map(old(self)@.envs),
                crate::records::views(ops@),
            ),
            final(self)@ == (SandboxView { envs: final(self)@.envs, ..old(self)@ }),
    {
        let ghost all = crate::records::views(ops@);
        let ghost start = as_map(self@.envs);
        let mut i: usize = 0;
        assert(all.subrange(0, 0) =~= Seq::<EnvOpView>::empty());
        while i < ops.len()
            invariant
                i <= ops.len(),
                self.wf(),
                all == crate::records::views(ops@),
                as_map(self@.envs) == spec_env_after_ops(start, all.subrange(0, i as int)),
                self@ == (SandboxView { envs: self@.envs, ..old(self)@ }),
            decreases ops.len() - i,
        {
            assert(all.subrange(0, i + 1).drop_last() =~= all.subrange(0, i as int));
            assert(all.subrange(0, i + 1).last() == ops@[i as int]@);
            match &ops[i] {
                EnvOp::Assign { name, value } => {
                    self.set_env(name.as_str(), value.as_str());
                },
                EnvOp::AddFirst { name, entry } => {
                    self.add_env_first(name.as_str(), entry.as_str());
                },
                EnvOp::Lead { name, entries } => {
                    self.lead_env(name.as_str(), entries);
                },
            }
            i += 1;
        }
        assert(all.subrange(0, all.len() as int) =~= all);
    }

    /// Sets the host name seen inside the sandbox.
    pub fn set_hostname(&mut self, hostname: &str)
        ensures
            final(self)@ == (SandboxView { hostname: Some(hostname@), ..old(self)@ }),
            old(self).wf() ==> final(self).wf(),
    {
        self.hostname = Some(String::from_str(hostname));
    }

    /// Sets the working directory of the command.
    pub fn set_cwd(&mut self, dir: &str)
        ensures
            final(self)@ == (SandboxView { cwd: Some(dir@), ..old(self)@ }),
            old(self).wf() ==> final(self).wf(),
    {
        self.cwd = Some(String::from_str(dir));
    }

    /// Sets the command to run.
    pub fn set_command(&mut self, executable: &str, args: &Vec<String>)
        ensures
            final(self)@ == (SandboxView {
                executable: Some(executable@),
                args: strings_view(args@),
                ..old(self)@
            }),
            old(self).wf() ==> final(self).wf(),
    {
        self.executable = Some(String::from_str(executable));
        self.args = copy_strings(args);
    }

    /// The sandbox tool.
    pub fn program() -> (r: &'static str)
        ensures
            r@ == "/usr/bin/bwrap"@,
    {
        "/usr/bin/bwrap"
    }

    /// What the end of the sandbox tool means: an exit code of zero is
    /// success; any other code, or none, is a failure of the command.
    pub fn check_exit(&self, exit_code: Option<i32>) -> (r: Result<(), crate::error::BuildError>)
        ensures
            exit_code == Some(0i32) ==> r is Ok,
            exit_code != Some(0i32) ==> r is Err && r.unwrap_err()@
                == (crate::error::ErrorView::SandboxFailed {
                command: match self@.executable {
                    Some(e) => e,
                    None => Seq::<char>::empty(),
                },
                exit: match exit_code {
                    Some(c) => c,
                    None => -1i32,
                },
            }),
    {
        match exit_code {
            Some(0) => Ok(()),
            _ => Err(
                crate::error::BuildError::SandboxFailed {
                    command: match &self.executable {
                        Some(e) => e.clone(),
                        None => String::new(),
                    },
                    exit: match exit_code {
                        Some(c) => c,
                        None => -1,
                    },
                },
            ),
        }
    }

    /// The arguments to start the sandbox tool with.
    pub fn build_args(&self) -> (r: Vec<String>)
        ensures
            strings_view(r@) == spec_build_args(self@),
    {
        let mut out: Vec<String> = Vec::new();
        assert(strings_view(out@) =~= Seq::<Seq<char>>::empty());
        extend_strings(&mut out, &self.flags);
        let ghost v = self@;
        assert(strings_view(out@) =~= v.flags);
        let mut i: usize = 0;
        assert(v.binds.subrange(0, 0) =~= Seq::<(Seq<char>, BindView)>::empty());
        while i < self.binds.entries.len()
            invariant
                i <= self.binds.entries.len(),
                v == self@,
                strings_view(out@) == v.flags + spec_bind_args(v.binds.subrange(0, i as int)),
            decreases self.binds.entries.len() - i,
        {
            let b = &self.binds.entries[i].1;
            let ghost before = strings_view(out@);
            assert(v.binds.subrange(0, i + 1).drop_last() =~= v.binds.subrange(0, i as int));
            assert(v.binds.subrange(0, i + 1).last().1 == b@);
            push_text(&mut out, b.bind_type.as_str());
            if let Some(src) = &b.host_source {
                push_text(&mut out, src.as_str());
            }
            push_text(&mut out, b.cave_target.as_str());
            assert(strings_view(out@) =~= before + spec_one_bind(b@));
            i += 1;
        }
        assert(v.binds.subrange(0, v.binds.len() as int) =~= v.binds);
        let ghost head = strings_view(out@);
        let mut i: usize = 0;
        assert(v.envs.subrange(0, 0) =~= Seq::<(Seq<char>, Seq<char>)>::empty());
        while i < self.envs.entries.len()
            invariant
                i <= self.envs.entries.len(),
                v == self@,
                strings_view(out@) == head + spec_env_args(v.envs.subrange(0, i as int)),
            decreases self.envs.entries.len() - i,
        {
            let ghost before = strings_view(out@);
            assert(v.envs.subrange(0, i + 1).drop_last() =~= v.envs.subrange(0, i as int));
            assert(v.envs.subrange(0, i + 1).last() == (
                self.envs.entries@[i as int].0@,
                self.envs.entries@[i as int].1@,
            ));
            push_text(&mut out, "--setenv");
            push_text(&mut out, self.envs.entries[i].0.as_str());
            push_text(&mut out, self.envs.entries[i].1.as_str());
            assert(strings_view(out@) =~= before + seq![
                "--setenv"@,
                self.envs.entries@[i as int].0@,
                self.envs.entries@[i as int].1@,
            ]);
            i += 1;
        }
        assert(v.envs.subrange(0, v.envs.len() as int) =~= v.envs);
        let ghost head = strings_view(out@);
        let mut i: usize = 0;
        assert(v.unsets.subrange(0, 0) =~= Seq::<Seq<char>>::empty());
        while i < self.unsets.len()
            invariant
                i <= self.unsets.len(),
                v == self@,
                strings_view(out@) == head + spec_unset_args(v.unsets.subrange(0, i as int)),
            decreases self.unsets.len() - i,
        {
            let ghost before = strings_view(out@);
            assert(v.unsets.subrange(0, i + 1).drop_last() =~= v.unsets.subrange(0, i as int));
            assert(v.unsets.subrange(0, i + 1).last() == self.unsets@[i as int]@);
            push_text(&mut out, "--unsetenv");
            push_text(&mut out, self.unsets[i].as_str());
            assert(strings_view(out@) =~= before + seq!["--unsetenv"@, self.unsets@[i as int]@]);
            i += 1;
        }
        assert(v.unsets.subrange(0, v.unsets.len() as int) =~= v.unsets);
        let ghost head = strings_view(out@);
        if let Some(h) = &self.hostname {
            push_text(&mut out, "--hostname");
            push_text(&mut out, h.as_str());
        }
        assert(strings_view(out@) =~= head + spec_option_args("--hostname"@, v.hostname));
        let ghost head = strings_view(out@);
        if let Some(d) = &self.cwd {
            push_text(&mut out, "--chdir");
            push_text(&mut out, d.as_str());
        }
        assert(strings_view(out@) =~= head + spec_option_args("--chdir"@, v.cwd));
        let ghost head = strings_view(out@);
        if let Some(exe) = &self.executable {
            push_text(&mut out, "--");
            push_text(&mut out, exe.as_str());
            extend_strings(&mut out, &self.args);
        }
        assert(strings_view(out@) =~= head + spec_command_args(v.executable, v.args));
        out
    }
}

} // verus!
