//! The workspace descriptor: name, roots, default settings and variants.

use crate::error::{BuildError, ErrorView};
use crate::paths::{file_name_of, join_path, parent_of, path_file_name, path_parent, spec_join_path};
use crate::settings::{
    options_wf, spec_merged_option, spec_merged_set, spec_merged_list, spec_option, CaveSettings,
    SettingsView,
};
use crate::text::{
    contains_string, copy_strings, from_chars, opt_view, str_eq, strings_view, to_chars,
};
use crate::textmap::{has_key, lemma_get_at, spec_get, SortedMap};
use vstd::prelude::*;

verus! {

/// A workspace.
#[derive(Debug, Clone)]
pub struct Cave {
    pub name: String,
    /// The root of the workspace.
    pub workspace: String,
    /// The directory that stands for the home directory inside.
    pub homedir: String,
    /// The default settings.
    pub settings: CaveSettings,
    /// The variants, by name.
    pub variants: SortedMap<CaveSettings>,
}

/// The mathematical content of a workspace.
pub struct CaveView {
    pub name: Seq<char>,
    pub workspace: Seq<char>,
    pub homedir: Seq<char>,
    pub settings: SettingsView,
    pub variants: Seq<(Seq<char>, SettingsView)>,
}

impl View for Cave {
    type V = CaveView;

    open spec fn view(&self) -> CaveView {
        CaveView {
            name: self.name@,
            workspace: self.workspace@,
            homedir: self.homedir@,
            settings: self.settings@,
            variants: self.variants@,
        }
    }
}

/// The name of the manifest file at the root of a workspace.
pub open spec fn spec_manifest_name() -> Seq<char> {
    "pi.cave.json"@
}

/// The name of a variant as written on the command line, without the
/// colon in front.
pub open spec fn spec_variant_name(text: Seq<char>) -> Seq<char> {
    if text.len() > 0 && text[0] == ':' {
        text.subrange(1, text.len() as int)
    } else {
        text
    }
}

/// `true` when the text starts with a colon.
pub open spec fn spec_is_variant_arg(text: Seq<char>) -> bool {
    text.len() > 0 && text[0] == ':'
}

/// The name of a workspace rooted at `path`: the last component of the
/// path, or `default` when it has none.
pub open spec fn spec_cave_name(path: Seq<char>) -> Seq<char> {
    match path_file_name(path) {
        Some(n) => n,
        None => "default"@,
    }
}

/// Strips the colon in front of a variant name.
pub fn variant_name(text: &str) -> (r: String)
    ensures
        r@ == spec_variant_name(text@),
{
    let v = to_chars(text);
    if v.len() > 0 && v[0] == ':' {
        crate::text::substring(&v, 1, v.len())
    } else {
        from_chars(&v)
    }
}

/// `true` when an argument names a variant.
pub fn is_variant_arg(text: &str) -> (r: bool)
    ensures
        r == spec_is_variant_arg(text@),
{
    text.unicode_len() > 0 && text.get_char(0) == ':'
}

impl Cave {
    /// Every map of the workspace is in order.
    pub open spec fn wf(&self) -> bool {
        &&& self.settings.wf()
        &&& self.variants.wf()
        &&& forall|i: int|
            0 <= i < self.variants.entries@.len() ==> (#[trigger] self.variants.entries@[i]).1.wf()
    }

    /// Tells whether every map of the workspace is in order. A workspace
    /// that was read from a file is checked with this before it is used.
    pub fn is_sound(&self) -> (r: bool)
        ensures
            r == self.wf(),
    {
        if !self.settings.is_sound() || !self.variants.is_ordered() {
            return false;
        }
        let mut i: usize = 0;
        while i < self.variants.entries.len()
            invariant
                i <= self.variants.entries.len(),
                forall|j: int| 0 <= j < i ==> (#[trigger] self.variants.entries@[j]).1.wf(),
            decreases self.variants.entries.len() - i,
        {
            if !self.variants.entries[i].1.is_sound() {
                return false;
            }
            i += 1;
        }
        true
    }

    /// The name of the manifest file.
    pub fn filename() -> (r: &'static str)
        ensures
            r@ == spec_manifest_name(),
    {
        "pi.cave.json"
    }

    /// A workspace rooted at `path` with empty settings and no variants.
    pub fn new(path: String, homedir: String) -> (r: Cave)
        ensures
            r.wf(),
            r@.name == spec_cave_name(path@),
            r@.workspace == path@,
            r@.homedir == homedir@,
            r@.settings.packages.len() == 0,
            r@.settings.set.len() == 0,
            r@.settings.unset.len() == 0,
            r@.settings.options.len() == 0,
            r@.variants.len() == 0,
    {
        let name = match file_name_of(path.as_str()) {
            Some(n) => n,
            None => String::from_str("default"),
        };
        Cave {
            name,
            workspace: path,
            homedir,
            settings: CaveSettings::new(),
            variants: SortedMap::new(),
        }
    }

    /// The settings in force: the defaults when no variant is named, else
    /// the defaults with the named variant laid over them. A variant that
    /// the workspace does not define is an error.
    pub fn get_effective_settings(&self, variant_name: Option<&str>) -> (r: Result<
        CaveSettings,
        BuildError,
    >)
        requires
            self.wf(),
        ensures
            match variant_name {
                None => r is Ok && r.unwrap()@ == self@.settings,
                Some(text) => match spec_get(self@.variants, spec_variant_name(text@)) {
                    None => r is Err && r.unwrap_err()@ == (ErrorView::VariantNotFound {
                        name: spec_variant_name(text@),
                    }),
                    Some(over) => {
                        &&& r is Ok
                        &&& r.unwrap().wf()
                        &&& r.unwrap()@.packages == spec_merged_list(
                            self@.settings.packages,
                            over.packages,
                        )
                        &&& r.unwrap()@.unset == spec_merged_list(
                            self@.settings.unset,
                            over.unset,
                        )
                        &&& forall|k: Seq<char>|
                            spec_get(r.unwrap()@.set, k) == spec_merged_set(
                                self@.settings,
                                over,
                                k,
                            )
                        &&& forall|pkg: Seq<char>, key: Seq<char>|
                            spec_option(r.unwrap()@.options, pkg, key) == spec_merged_option(
                                self@.settings,
                                over,
                                pkg,
                                key,
                            )
                    },
                },
            },
    {
        let mut settings = self.settings.duplicate();
        match variant_name {
            None => Ok(settings),
            Some(text) => {
                let name = crate::cave::variant_name(text);
                match self.variants.get(name.as_str()) {
                    None => Err(BuildError::VariantNotFound { name }),
                    Some(over) => {
                        proof {
                            let j = choose|j: int|
                                0 <= j < self.variants@.len() && (#[trigger] self.variants@[j]).0
                                    == name@;
                            lemma_get_at(self.variants@, j);
                            assert(self.variants.entries@[j].1@ == over@);
                            assert(self.variants.entries@[j].1.wf());
                        }
                        settings.merge(over);
                        Ok(settings)
                    },
                }
            },
        }
    }

    /// Adds a selector to the default settings, or to a variant that is
    /// created when it does not exist; a selector already listed is not
    /// added again. Returns whether the list changed.
    pub fn add_package(&mut self, variant: Option<&str>, query: &str) -> (changed: bool)
        requires
            old(self).wf(),
        ensures
            final(self).wf(),
            match variant {
                None => {
                    &&& final(self)@.settings.packages == spec_added(
                        old(self)@.settings.packages,
                        query@,
                    )
                    &&& final(self)@ == (CaveView {
                        settings: SettingsView {
                            packages: final(self)@.settings.packages,
                            ..old(self)@.settings
                        },
                        ..old(self)@
                    })
                    &&& changed == !old(self)@.settings.packages.contains(query@)
                },
                Some(text) => {
                    let name = spec_variant_name(text@);
                    let before = match spec_get(old(self)@.variants, name) {
                        Some(s) => s,
                        None => spec_no_settings(),
                    };
                    &&& spec_get(final(self)@.variants, name) == Some(
                        SettingsView { packages: spec_added(before.packages, query@), ..before },
                    )
                    &&& forall|k: Seq<char>|
                        k != name ==> spec_get(final(self)@.variants, k) == spec_get(
                            old(self)@.variants,
                            k,
                        )
                    &&& final(self)@ == (CaveView {
                        variants: final(self)@.variants,
                        ..old(self)@
                    })
                    &&& changed == !before.packages.contains(query@)
                },
            },
    {
        match variant {
            None => {
                let present = contains_string(&self.settings.packages, query);
                if !present {
                    let ghost before = strings_view(self.settings.packages@);
                    self.settings.packages.push(String::from_str(query));
                    assert(strings_view(self.settings.packages@) =~= before.push(query@));
                }
                !present
            },
            Some(text) => {
                let name = crate::cave::variant_name(text);
                let ghost old_variants = self.variants@;
                let mut target = match self.variants.get(name.as_str()) {
                    Some(s) => {
                        proof {
                            let j = choose|j: int|
                                0 <= j < self.variants@.len() && (#[trigger] self.variants@[j]).0
                                    == name@;
                            lemma_get_at(self.variants@, j);
                            assert(self.variants.entries@[j].1@ == s@);
                            assert(self.variants.entries@[j].1.wf());
                        }
                        s.duplicate()
                    },
                    None => {
                        let fresh = CaveSettings::new();
                        assert(fresh@.packages =~= spec_no_settings().packages);
                        assert(fresh@.set =~= spec_no_settings().set);
                        assert(fresh@.unset =~= spec_no_settings().unset);
                        assert(fresh@.options =~= spec_no_settings().options);
                        fresh
                    },
                };
                let ghost start = target@;
                let present = contains_string(&target.packages, query);
                if !present {
                    let ghost before = strings_view(target.packages@);
                    target.packages.push(String::from_str(query));
                    assert(strings_view(target.packages@) =~= before.push(query@));
                }
                let ghost tv = target@;
                assert(tv == (SettingsView {
                    packages: spec_added(start.packages, query@),
                    ..start
                }));
                let ghost entries_before = self.variants.entries@;
                self.variants.insert(name, target);
                proof {
                    assert forall|i: int|
                        0 <= i < self.variants.entries@.len() implies (
                    #[trigger] self.variants.entries@[i]).1.wf() by {
                        let e = self.variants@[i];
                        assert(e.1 == self.variants.entries@[i].1@);
                        lemma_get_at(self.variants@, i);
                        if e.0 == name@ {
                            assert(e.1 == tv);
                        } else {
                            assert(has_key(old_variants, e.0));
                            let y = choose|y: int|
                                0 <= y < old_variants.len() && (#[trigger] old_variants[y]).0
                                    == e.0;
                            lemma_get_at(old_variants, y);
                            assert(entries_before[y].1@ == e.1);
                            assert(entries_before[y].1.wf());
                        }
                    }
                }
                !present
            },
        }
    }

    /// Removes a selector from the default settings, or from a variant.
    /// Returns whether the list held it. A variant that does not exist is
    /// an error, and nothing changes.
    pub fn rem_package(&mut self, variant: Option<&str>, query: &str) -> (r: Result<
        bool,
        BuildError,
    >)
        requires
            old(self).wf(),
        ensures
            final(self).wf(),
            match variant {
                None => {
                    &&& r is Ok
                    &&& r->Ok_0 == old(self)@.settings.packages.contains(query@)
                    &&& final(self)@ == (CaveView {
                        settings: SettingsView {
                            packages: spec_without(old(self)@.settings.packages, query@),
                            ..old(self)@.settings
                        },
                        ..old(self)@
                    })
                },
                Some(text) => {
                    let name = spec_variant_name(text@);
                    match spec_get(old(self)@.variants, name) {
                        None => {
                            &&& r is Err
                            &&& r->Err_0@ == (ErrorView::VariantNotFound { name })
                            &&& final(self)@ == old(self)@
                        },
                        Some(s) => {
                            &&& r is Ok
                            &&& r->Ok_0 == s.packages.contains(query@)
                            &&& spec_get(final(self)@.variants, name) == Some(
                                SettingsView { packages: spec_without(s.packages, query@), ..s },
                            )
                            &&& forall|k: Seq<char>|
                                k != name ==> spec_get(final(self)@.variants, k) == spec_get(
                                    old(self)@.variants,
                                    k,
                                )
                            &&& final(self)@.settings == old(self)@.settings
                        },
                    }
                },
            },
    {
        match variant {
            None => Ok(remove_package(&mut self.settings.packages, query)),
            Some(text) => {
                let name = crate::cave::variant_name(text);
                let ghost old_variants = self.variants@;
                let mut target = match self.variants.get(name.as_str()) {
                    Some(s) => {
                        proof {
                            let j = choose|j: int|
                                0 <= j < self.variants@.len() && (#[trigger] self.variants@[j]).0
                                    == name@;
                            lemma_get_at(self.variants@, j);
                            assert(self.variants.entries@[j].1@ == s@);
                            assert(self.variants.entries@[j].1.wf());
                        }
                        s.duplicate()
                    },
                    None => {
                        return Err(BuildError::VariantNotFound { name });
                    },
                };
                let removed = remove_package(&mut target.packages, query);
                let ghost tv = target@;
                let ghost entries_before = self.variants.entries@;
                self.variants.insert(name, target);
                proof {
                    assert forall|i: int|
                        0 <= i < self.variants.entries@.len() implies (
                    #[trigger] self.variants.entries@[i]).1.wf() by {
                        let e = self.variants@[i];
                        assert(e.1 == self.variants.entries@[i].1@);
                        lemma_get_at(self.variants@, i);
                        if e.0 == name@ {
                            assert(e.1 == tv);
                        } else {
                            assert(has_key(old_variants, e.0));
                            let y = choose|y: int|
                                0 <= y < old_variants.len() && (#[trigger] old_variants[y]).0
                                    == e.0;
                            lemma_get_at(old_variants, y);
                            assert(entries_before[y].1@ == e.1);
                            assert(entries_before[y].1.wf());
                        }
                    }
                }
                Ok(removed)
            },
        }
    }
}

/// Settings that say nothing: what a variant holds before anything is
/// added to it.
pub open spec fn spec_no_settings() -> SettingsView {
    SettingsView {
        packages: Seq::empty(),
        set: Seq::empty(),
        unset: Seq::empty(),
        options: Seq::empty(),
    }
}

/// `list` with `item` appended, unless the list holds it already.
pub open spec fn spec_added(list: Seq<Seq<char>>, item: Seq<char>) -> Seq<Seq<char>> {
    if list.contains(item) {
        list
    } else {
        list.push(item)
    }
}

/// `list` without the entries equal to `item`.
pub open spec fn spec_without(list: Seq<Seq<char>>, item: Seq<char>) -> Seq<Seq<char>>
    decreases list.len(),
{
    if list.len() == 0 {
        list
    } else if list.last() == item {
        spec_without(list.drop_last(), item)
    } else {
        spec_without(list.drop_last(), item).push(list.last())
    }
}

/// Removes every entry equal to `item` from a list of selectors; returns
/// whether anything was removed.
pub fn remove_package(list: &mut Vec<String>, item: &str) -> (removed: bool)
    ensures
        strings_view(final(list)@) == spec_without(strings_view(old(list)@), item@),
        removed == strings_view(old(list)@).contains(item@),
{
    let ghost all = strings_view(list@);
    let mut kept: Vec<String> = Vec::new();
    let mut removed = false;
    let mut i: usize = 0;
    assert(all.subrange(0, 0) =~= Seq::<Seq<char>>::empty());
    while i < list.len()
        invariant
            i <= list.len(),
            all == strings_view(list@),
            strings_view(kept@) == spec_without(all.subrange(0, i as int), item@),
            removed == all.subrange(0, i as int).contains(item@),
        decreases list.len() - i,
    {
        let ghost seen = all.subrange(0, i as int);
        let ghost next = all.subrange(0, i + 1);
        assert(next.drop_last() =~= seen);
        assert(next.last() == list@[i as int]@);
        let same = str_eq(list[i].as_str(), item);
        if same {
            removed = true;
        } else {
            let ghost before = strings_view(kept@);
            kept.push(list[i].clone());
            assert(strings_view(kept@) =~= before.push(list@[i as int]@));
        }
        proof {
            if seen.contains(item@) {
                let j = choose|j: int| 0 <= j < seen.len() && seen[j] == item@;
                assert(next[j] == item@);
            }
            if next.contains(item@) && !same {
                let j = choose|j: int| 0 <= j < next.len() && next[j] == item@;
                assert(seen[j] == item@);
            }
            if same {
                assert(next[i as int] == item@);
            }
        }
        i += 1;
    }
    assert(all.subrange(0, all.len() as int) =~= all);
    *list = kept;
    removed
}

/// The arguments of a command that may begin with a variant: the variant,
/// if the first argument names one, and the remaining arguments.
pub open spec fn spec_split_variant(args: Seq<Seq<char>>) -> (Option<Seq<char>>, Seq<Seq<char>>) {
    if args.len() > 0 && spec_is_variant_arg(args[0]) {
        (Some(args[0]), args.subrange(1, args.len() as int))
    } else {
        (None, args)
    }
}

/// Splits a leading variant off a list of arguments.
pub fn split_variant_args(args: &Vec<String>) -> (r: (Option<String>, Vec<String>))
    ensures
        opt_view(r.0) == spec_split_variant(strings_view(args@)).0,
        strings_view(r.1@) == spec_split_variant(strings_view(args@)).1,
{
    let ghost all = strings_view(args@);
    if args.len() > 0 && is_variant_arg(args[0].as_str()) {
        let mut rest: Vec<String> = Vec::new();
        let mut i: usize = 1;
        while i < args.len()
            invariant
                1 <= i <= args.len(),
                all == strings_view(args@),
                strings_view(rest@) == all.subrange(1, i as int),
            decreases args.len() - i,
        {
            let ghost before = strings_view(rest@);
            rest.push(args[i].clone());
            assert(strings_view(rest@) =~= before.push(args@[i as int]@));
            i += 1;
            assert(strings_view(rest@) =~= all.subrange(1, i as int));
        }
        (Some(args[0].clone()), rest)
    } else {
        (None, copy_strings(args))
    }
}

/// What the first word after `run` means: a word that starts with a colon
/// names the variant; any other word is the first word of the command.
pub open spec fn spec_run_args(first: Option<Seq<char>>, command: Seq<Seq<char>>) -> (
    Option<Seq<char>>,
    Seq<Seq<char>>,
) {
    match first {
        Some(v) => if spec_is_variant_arg(v) {
            (Some(v), command)
        } else {
            (None, seq![v] + command)
        },
        None => (None, command),
    }
}

/// Tells the variant and the command of a `run` invocation apart.
pub fn split_run_args(first: Option<String>, command: Vec<String>) -> (r: (
    Option<String>,
    Vec<String>,
))
    ensures
        opt_view(r.0) == spec_run_args(opt_view(first), strings_view(command@)).0,
        strings_view(r.1@) == spec_run_args(opt_view(first), strings_view(command@)).1,
{
    match first {
        Some(v) => {
            if is_variant_arg(v.as_str()) {
                (Some(v), command)
            } else {
                let ghost tail = strings_view(command@);
                let ghost head = v@;
                let mut full = command;
                full.insert(0, v);
                assert(strings_view(full@) =~= seq![head] + tail);
                (None, full)
            }
        },
        None => (None, command),
    }
}

/// The manifest paths to try, from `start` upwards: for `start` and each
/// directory above it, as far as `fuel` steps reach, the manifest name
/// joined to the directory.
pub open spec fn spec_candidates(start: Seq<char>, fuel: nat) -> Seq<Seq<char>>
    decreases fuel,
{
    let here = seq![spec_join_path(start, spec_manifest_name())];
    if fuel == 0 {
        here
    } else {
        match path_parent(start) {
            Some(up) => here + spec_candidates(up, (fuel - 1) as nat),
            None => here,
        }
    }
}

/// Lists where the manifest of the workspace around `start` may be: in
/// `start` itself, then in each directory above it, nearest first. At most
/// as many levels are climbed as `start` has characters.
pub fn ancestry_candidates(start: &str) -> (r: Vec<String>)
    ensures
        strings_view(r@) == spec_candidates(start@, start@.len()),
{
    let mut fuel: usize = start.unicode_len();
    let mut out: Vec<String> = Vec::new();
    let mut current = String::from_str(start);
    loop
        invariant
            strings_view(out@) + spec_candidates(current@, fuel as nat) == spec_candidates(
                start@,
                start@.len(),
            ),
        decreases fuel,
    {
        let ghost before = strings_view(out@);
        out.push(join_path(current.as_str(), "pi.cave.json"));
        assert(strings_view(out@) =~= before.push(
            spec_join_path(current@, spec_manifest_name()),
        ));
        if fuel == 0 {
            assert(strings_view(out@) =~= before + spec_candidates(current@, 0));
            return out;
        }
        match parent_of(current.as_str()) {
            Some(up) => {
                assert(strings_view(out@) + spec_candidates(up@, (fuel - 1) as nat) =~= before
                    + spec_candidates(current@, fuel as nat));
                current = up;
                fuel -= 1;
            },
            None => {
                assert(strings_view(out@) =~= before + spec_candidates(current@, fuel as nat));
                return out;
            },
        }
    }
}

/// The first candidate that exists, if any: `exists[i]` tells whether the
/// manifest at position `i` of the candidates is there.
pub fn first_existing(exists: &Vec<bool>) -> (r: Option<usize>)
    ensures
        match r {
            Some(i) => i < exists.len() && exists@[i as int] && forall|j: int|
                0 <= j < i ==> !exists@[j],
            None => forall|j: int| 0 <= j < exists.len() ==> !exists@[j],
        },
{
    let mut i: usize = 0;
    while i < exists.len()
        invariant
            i <= exists.len(),
            forall|j: int| 0 <= j < i ==> !exists@[j],
        decreases exists.len() - i,
    {
        if exists[i] {
            return Some(i);
        }
        i += 1;
    }
    None
}

} // verus!
