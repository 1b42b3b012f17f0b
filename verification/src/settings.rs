//! Workspace settings and how a variant is laid over the defaults.

use crate::text::{contains_string, copy_strings, strings_view};
use crate::textmap::{has_key, lemma_get_at, spec_get, SortedMap, TextMap};
use vstd::prelude::*;

verus! {

/// The value of an option override as the manifest gives it.
#[derive(Debug, Clone)]
pub enum OptionValue {
    /// A text.
    Text(String),
    /// A truth value.
    Flag(bool),
    /// Any other value, in the notation of the manifest.
    Other(String),
}

/// The mathematical content of an option value.
pub enum OptionValueView {
    Text(Seq<char>),
    Flag(bool),
    Other(Seq<char>),
}

impl View for OptionValue {
    type V = OptionValueView;

    open spec fn view(&self) -> OptionValueView {
        match self {
            OptionValue::Text(s) => OptionValueView::Text(s@),
            OptionValue::Flag(b) => OptionValueView::Flag(*b),
            OptionValue::Other(s) => OptionValueView::Other(s@),
        }
    }
}

/// How a recipe sees an option value: a text as it is, a truth value as
/// `true` or `false`, anything else in the notation of the manifest.
pub open spec fn spec_option_text(v: OptionValueView) -> Seq<char> {
    match v {
        OptionValueView::Text(s) => s,
        OptionValueView::Flag(b) => if b {
            "true"@
        } else {
            "false"@
        },
        OptionValueView::Other(s) => s,
    }
}

impl OptionValue {
    /// A copy of the value.
    pub fn duplicate(&self) -> (r: OptionValue)
        ensures
            r@ == self@,
    {
        match self {
            OptionValue::Text(s) => OptionValue::Text(s.clone()),
            OptionValue::Flag(b) => OptionValue::Flag(*b),
            OptionValue::Other(s) => OptionValue::Other(s.clone()),
        }
    }

    /// The value as a recipe sees it.
    pub fn as_text(&self) -> (r: String)
        ensures
            r@ == spec_option_text(self@),
    {
        match self {
            OptionValue::Text(s) => s.clone(),
            OptionValue::Flag(b) => if *b {
                String::from_str("true")
            } else {
                String::from_str("false")
            },
            OptionValue::Other(s) => s.clone(),
        }
    }
}

/// The options of one package: option name to value.
pub type PackageOptions = SortedMap<OptionValue>;

/// The options of one package, mathematically.
pub type OptionsView = Seq<(Seq<char>, OptionValueView)>;

/// A copy of the options of one package.
pub fn copy_options(o: &PackageOptions) -> (r: PackageOptions)
    ensures
        r@ == o@,
{
    let mut entries: Vec<(String, OptionValue)> = Vec::new();
    let mut i: usize = 0;
    while i < o.entries.len()
        invariant
            i <= o.entries.len(),
            entries.len() == i,
            forall|j: int|
                0 <= j < i ==> (#[trigger] entries@[j]).0@ == o.entries@[j].0@ && entries@[j].1@
                    == o.entries@[j].1@,
        decreases o.entries.len() - i,
    {
        entries.push((o.entries[i].0.clone(), o.entries[i].1.duplicate()));
        i += 1;
    }
    let r = SortedMap { entries };
    assert(r@ =~= o@);
    r
}

/// The text form of the options of one package, as a recipe sees them.
pub fn extract_options(all: &SortedMap<PackageOptions>, pkgname: &str) -> (r: TextMap)
    requires
        options_wf(all@),
    ensures
        r.wf(),
        forall|k: Seq<char>|
            spec_get(r@, k) == match spec_option(all@, pkgname@, k) {
                Some(v) => Some(spec_option_text(v)),
                None => None::<Seq<char>>,
            },
{
    let mut out: TextMap = SortedMap::new();
    match all.get(pkgname) {
        None => {},
        Some(opts) => {
            let mut i: usize = 0;
            let ghost inner = opts@;
            proof {
                let j = choose|j: int|
                    0 <= j < all@.len() && (#[trigger] all@[j]).0 == pkgname@;
                lemma_get_at(all@, j);
                assert(inner.subrange(0, 0) =~= Seq::<(Seq<char>, OptionValueView)>::empty());
            }
            while i < opts.entries.len()
                invariant
                    i <= opts.entries.len(),
                    out.wf(),
                    inner == opts@,
                    crate::textmap::ascending(inner),
                    forall|k: Seq<char>|
                        spec_get(out@, k) == match spec_get(inner.subrange(0, i as int), k) {
                            Some(v) => Some(spec_option_text(v)),
                            None => None::<Seq<char>>,
                        },
                decreases opts.entries.len() - i,
            {
                let ghost before = out@;
                let ghost seen = inner.subrange(0, i as int);
                let ghost next = inner.subrange(0, i + 1);
                out.insert(opts.entries[i].0.clone(), opts.entries[i].1.as_text());
                proof {
                    let key = inner[i as int].0;
                    assert(next[i as int] == inner[i as int]);
                    assert(has_key(next, key));
                    assert forall|k: Seq<char>| spec_get(out@, k) == match spec_get(next, k) {
                        Some(v) => Some(spec_option_text(v)),
                        None => None::<Seq<char>>,
                    } by {
                        lemma_prefix_get(inner, i as int, k);
                    }
                }
                i += 1;
            }
            assert(inner.subrange(0, inner.len() as int) =~= inner);
        },
    }
    out
}

/// Looking a key up in a longer prefix of an ascending list: the new last
/// entry answers for its own key, the shorter prefix for every other key.
pub proof fn lemma_prefix_get<W>(e: Seq<(Seq<char>, W)>, i: int, k: Seq<char>)
    requires
        crate::textmap::ascending(e),
        0 <= i < e.len(),
    ensures
        spec_get(e.subrange(0, i + 1), k) == if k == e[i].0 {
            Some(e[i].1)
        } else {
            spec_get(e.subrange(0, i), k)
        },
{
    let short = e.subrange(0, i);
    let long = e.subrange(0, i + 1);
    assert(crate::textmap::ascending(long)) by {
        assert forall|a: int, b: int| 0 <= a < b < long.len() implies crate::order::spec_text_order(
            (#[trigger] long[a]).0,
            (#[trigger] long[b]).0,
        ) == crate::order::Order::Less by {
            assert(long[a] == e[a] && long[b] == e[b]);
        }
    }
    assert(crate::textmap::ascending(short)) by {
        assert forall|a: int, b: int|
            0 <= a < b < short.len() implies crate::order::spec_text_order(
            (#[trigger] short[a]).0,
            (#[trigger] short[b]).0,
        ) == crate::order::Order::Less by {
            assert(short[a] == e[a] && short[b] == e[b]);
        }
    }
    assert(long[i] == e[i]);
    if k == e[i].0 {
        lemma_get_at(long, i);
    } else {
        if has_key(long, k) {
            let j = choose|j: int| 0 <= j < long.len() && (#[trigger] long[j]).0 == k;
            assert(j < i);
            assert(short[j] == long[j]);
            lemma_get_at(long, j);
            lemma_get_at(short, j);
        }
        if has_key(short, k) {
            let j = choose|j: int| 0 <= j < short.len() && (#[trigger] short[j]).0 == k;
            assert(long[j] == short[j]);
            lemma_get_at(long, j);
            lemma_get_at(short, j);
        }
    }
}

/// The option overrides are in order, package by package and within each
/// package.
pub open spec fn options_wf(all: Seq<(Seq<char>, OptionsView)>) -> bool {
    &&& crate::textmap::ascending(all)
    &&& forall|i: int| 0 <= i < all.len() ==> crate::textmap::ascending((#[trigger] all[i]).1)
}

/// The value of option `key` of package `pkg`.
pub open spec fn spec_option(
    all: Seq<(Seq<char>, OptionsView)>,
    pkg: Seq<char>,
    key: Seq<char>,
) -> Option<OptionValueView> {
    match spec_get(all, pkg) {
        Some(inner) => spec_get(inner, key),
        None => None,
    }
}

/// The settings of a workspace or of one of its variants.
#[derive(Debug, Clone)]
pub struct CaveSettings {
    /// Package selectors.
    pub packages: Vec<String>,
    /// Environment variables to set.
    pub set: TextMap,
    /// Environment variables to remove.
    pub unset: Vec<String>,
    /// Option overrides: package name to option name to value.
    pub options: SortedMap<PackageOptions>,
}

/// The mathematical content of settings.
pub struct SettingsView {
    pub packages: Seq<Seq<char>>,
    pub set: Seq<(Seq<char>, Seq<char>)>,
    pub unset: Seq<Seq<char>>,
    pub options: Seq<(Seq<char>, OptionsView)>,
}

impl View for CaveSettings {
    type V = SettingsView;

    open spec fn view(&self) -> SettingsView {
        SettingsView {
            packages: strings_view(self.packages@),
            set: self.set@,
            unset: strings_view(self.unset@),
            options: self.options@,
        }
    }
}

/// `list` followed by those of `more` it does not hold yet, each once.
pub open spec fn spec_union(list: Seq<Seq<char>>, more: Seq<Seq<char>>) -> Seq<Seq<char>>
    decreases more.len(),
{
    if more.len() == 0 {
        list
    } else {
        let u = spec_union(list, more.drop_last());
        if u.contains(more.last()) {
            u
        } else {
            u.push(more.last())
        }
    }
}

/// `s` without repetitions: of equal entries the first stays.
pub open spec fn spec_dedup(s: Seq<Seq<char>>) -> Seq<Seq<char>> {
    spec_union(Seq::empty(), s)
}

/// Two lists united without repetition: the entries of the first, each
/// once, then those of the second that the first does not hold, each once.
pub open spec fn spec_merged_list(base: Seq<Seq<char>>, over: Seq<Seq<char>>) -> Seq<Seq<char>> {
    spec_union(spec_dedup(base), over)
}

/// The value of variable `k` after a variant is laid over the defaults:
/// removed when the variant unsets it, else what the variant sets, else
/// what the defaults set.
pub open spec fn spec_merged_set(base: SettingsView, over: SettingsView, k: Seq<char>) -> Option<
    Seq<char>,
> {
    if over.unset.contains(k) {
        None
    } else {
        match spec_get(over.set, k) {
            Some(v) => Some(v),
            None => spec_get(base.set, k),
        }
    }
}

/// The value of an option after a variant is laid over the defaults: what
/// the variant says, else what the defaults say.
pub open spec fn spec_merged_option(
    base: SettingsView,
    over: SettingsView,
    pkg: Seq<char>,
    key: Seq<char>,
) -> Option<OptionValueView> {
    match spec_option(over.options, pkg, key) {
        Some(v) => Some(v),
        None => spec_option(base.options, pkg, key),
    }
}

/// A union holds exactly what the two lists hold; it begins with the first
/// list, and when that has no repetitions the union has none.
pub proof fn lemma_union(list: Seq<Seq<char>>, more: Seq<Seq<char>>)
    ensures
        forall|x: Seq<char>|
            #[trigger] spec_union(list, more).contains(x) <==> (list.contains(x) || more.contains(
                x,
            )),
        list.is_prefix_of(spec_union(list, more)),
        list.no_duplicates() ==> spec_union(list, more).no_duplicates(),
    decreases more.len(),
{
    let u = spec_union(list, more);
    if more.len() == 0 {
        assert(list =~= u.subrange(0, list.len() as int));
    } else {
        let rest = more.drop_last();
        let last = more.last();
        let v = spec_union(list, rest);
        lemma_union(list, rest);
        assert(list =~= v.subrange(0, list.len() as int));
        assert(list =~= u.subrange(0, list.len() as int));
        assert forall|x: Seq<char>| #[trigger] u.contains(x) <==> (list.contains(x)
            || more.contains(x)) by {
            if u.contains(x) {
                let j = choose|j: int| 0 <= j < u.len() && u[j] == x;
                if j < v.len() {
                    assert(v[j] == x);
                    assert(v.contains(x));
                    if rest.contains(x) {
                        let k = choose|k: int| 0 <= k < rest.len() && rest[k] == x;
                        assert(more[k] == x);
                    }
                } else {
                    assert(more[more.len() - 1] == x);
                }
            }
            if list.contains(x) {
                assert(v.contains(x));
                let j = choose|j: int| 0 <= j < v.len() && v[j] == x;
                assert(u[j] == x);
            }
            if more.contains(x) {
                let k = choose|k: int| 0 <= k < more.len() && more[k] == x;
                if k < rest.len() {
                    assert(rest[k] == x);
                    assert(v.contains(x));
                    let j = choose|j: int| 0 <= j < v.len() && v[j] == x;
                    assert(u[j] == x);
                } else if v.contains(x) {
                    let j = choose|j: int| 0 <= j < v.len() && v[j] == x;
                    assert(u[j] == x);
                } else {
                    assert(u[u.len() - 1] == x);
                }
            }
        }
        if list.no_duplicates() {
            assert forall|a: int, b: int| 0 <= a < u.len() && 0 <= b < u.len() && a != b implies u[a]
                != u[b] by {
                if a < v.len() && b < v.len() {
                    assert(v[a] != v[b]);
                } else if a < v.len() {
                    assert(v[a] == u[a]);
                    assert(!v.contains(last));
                } else {
                    assert(v[b] == u[b]);
                    assert(!v.contains(last));
                }
            }
        }
    }
}

/// Two lists united without repetition hold exactly what the two lists
/// hold, and nothing twice.
pub proof fn lemma_merged_list(base: Seq<Seq<char>>, over: Seq<Seq<char>>)
    ensures
        spec_merged_list(base, over).no_duplicates(),
        forall|x: Seq<char>|
            #[trigger] spec_merged_list(base, over).contains(x) <==> (base.contains(x)
                || over.contains(x)),
{
    let empty = Seq::<Seq<char>>::empty();
    lemma_union(empty, base);
    lemma_union(spec_dedup(base), over);
    assert forall|x: Seq<char>| #[trigger] spec_merged_list(base, over).contains(x) <==> (
    base.contains(x) || over.contains(x)) by {
        assert(!empty.contains(x));
        assert(spec_dedup(base).contains(x) <==> base.contains(x));
    }
}

/// Appends to `list` those of `more` that it does not hold yet.
pub fn union_into(list: &mut Vec<String>, more: &Vec<String>)
    ensures
        strings_view(final(list)@) == spec_union(strings_view(old(list)@), strings_view(more@)),
{
    let ghost start = strings_view(list@);
    let ghost all = strings_view(more@);
    let mut i: usize = 0;
    assert(all.subrange(0, 0) =~= Seq::<Seq<char>>::empty());
    while i < more.len()
        invariant
            i <= more.len(),
            all == strings_view(more@),
            strings_view(list@) == spec_union(start, all.subrange(0, i as int)),
        decreases more.len() - i,
    {
        assert(all.subrange(0, i + 1).drop_last() =~= all.subrange(0, i as int));
        assert(all.subrange(0, i + 1).last() == more@[i as int]@);
        if !contains_string(list, more[i].as_str()) {
            let ghost before = strings_view(list@);
            list.push(more[i].clone());
            assert(strings_view(list@) =~= before.push(more@[i as int]@));
        }
        i += 1;
    }
    assert(all.subrange(0, all.len() as int) =~= all);
}

/// A copy of the option overrides.
pub fn copy_all_options(o: &SortedMap<PackageOptions>) -> (r: SortedMap<PackageOptions>)
    ensures
        r@ == o@,
{
    let mut entries: Vec<(String, PackageOptions)> = Vec::new();
    let mut i: usize = 0;
    while i < o.entries.len()
        invariant
            i <= o.entries.len(),
            entries.len() == i,
            forall|j: int|
                0 <= j < i ==> (#[trigger] entries@[j]).0@ == o.entries@[j].0@ && entries@[j].1@
                    == o.entries@[j].1@,
        decreases o.entries.len() - i,
    {
        entries.push((o.entries[i].0.clone(), copy_options(&o.entries[i].1)));
        i += 1;
    }
    let r = SortedMap { entries };
    assert(r@ =~= o@);
    r
}

impl CaveSettings {
    /// The maps are in order, the inner option maps too.
    pub open spec fn wf(&self) -> bool {
        &&& self.set.wf()
        &&& options_wf(self.options@)
    }

    /// Tells whether the maps of the settings are in order. Settings that
    /// were read from a file are checked with this before they are used.
    pub fn is_sound(&self) -> (r: bool)
        ensures
            r == self.wf(),
    {
        if !self.set.is_ordered() || !self.options.is_ordered() {
            return false;
        }
        let ghost all = self.options@;
        let mut i: usize = 0;
        while i < self.options.entries.len()
            invariant
                i <= self.options.entries.len(),
                all == self.options@,
                forall|j: int| 0 <= j < i ==> crate::textmap::ascending((#[trigger] all[j]).1),
            decreases self.options.entries.len() - i,
        {
            assert(all[i as int].1 == self.options.entries@[i as int].1@);
            if !self.options.entries[i].1.is_ordered() {
                return false;
            }
            i += 1;
        }
        true
    }

    /// Settings that say nothing.
    pub fn new() -> (r: CaveSettings)
        ensures
            r.wf(),
            r@.packages.len() == 0,
            r@.set.len() == 0,
            r@.unset.len() == 0,
            r@.options.len() == 0,
    {
        CaveSettings {
            packages: Vec::new(),
            set: SortedMap::new(),
            unset: Vec::new(),
            options: SortedMap::new(),
        }
    }

    /// A copy of the settings.
    pub fn duplicate(&self) -> (r: CaveSettings)
        ensures
            r@ == self@,
    {
        CaveSettings {
            packages: copy_strings(&self.packages),
            set: self.set.duplicate(),
            unset: copy_strings(&self.unset),
            options: copy_all_options(&self.options),
        }
    }

    /// Lays `other` over these settings: the package lists are united
    /// without repetition, variables set by `other` win, variables unset by
    /// `other` disappear, and options are merged option by option.
    pub fn merge(&mut self, other: &CaveSettings)
        requires
            old(self).wf(),
            other.wf(),
        ensures
            final(self).wf(),
            final(self)@.packages == spec_merged_list(old(self)@.packages, other@.packages),
            final(self)@.unset == spec_merged_list(old(self)@.unset, other@.unset),
            forall|k: Seq<char>|
                spec_get(final(self)@.set, k) == spec_merged_set(old(self)@, other@, k),
            forall|pkg: Seq<char>, key: Seq<char>|
                spec_option(final(self)@.options, pkg, key) == spec_merged_option(
                    old(self)@,
                    other@,
                    pkg,
                    key,
                ),
    {
        let ghost base = self@;
        let ghost over = other@;
        let mut packages: Vec<String> = Vec::new();
        assert(strings_view(packages@) =~= Seq::<Seq<char>>::empty());
        union_into(&mut packages, &self.packages);
        union_into(&mut packages, &other.packages);
        self.packages = packages;
        let mut unset: Vec<String> = Vec::new();
        assert(strings_view(unset@) =~= Seq::<Seq<char>>::empty());
        union_into(&mut unset, &self.unset);
        union_into(&mut unset, &other.unset);
        self.unset = unset;
        // variables set by the variant
        let mut i: usize = 0;
        while i < other.set.entries.len()
            invariant
                i <= other.set.entries.len(),
                self.set.wf(),
                other.wf(),
                over == other@,
                self.options@ == base.options,
                self.options.wf(),
                strings_view(self.packages@) == spec_merged_list(base.packages, over.packages),
                strings_view(self.unset@) == spec_merged_list(base.unset, over.unset),
                forall|k: Seq<char>|
                    spec_get(self.set@, k) == match spec_get(over.set.subrange(0, i as int), k) {
                        Some(v) => Some(v),
                        None => spec_get(base.set, k),
                    },
            decreases other.set.entries.len() - i,
        {
            self.set.insert(other.set.entries[i].0.clone(), other.set.entries[i].1.clone());
            proof {
                assert forall|k: Seq<char>|
                    spec_get(self.set@, k) == match spec_get(over.set.subrange(0, i + 1), k) {
                        Some(v) => Some(v),
                        None => spec_get(base.set, k),
                    } by {
                    lemma_prefix_get(over.set, i as int, k);
                }
            }
            i += 1;
        }
        assert(over.set.subrange(0, over.set.len() as int) =~= over.set);
        // variables removed by the variant
        let mut i: usize = 0;
        while i < other.unset.len()
            invariant
                i <= other.unset.len(),
                self.set.wf(),
                other.wf(),
                over == other@,
                self.options@ == base.options,
                self.options.wf(),
                strings_view(self.packages@) == spec_merged_list(base.packages, over.packages),
                strings_view(self.unset@) == spec_merged_list(base.unset, over.unset),
                forall|k: Seq<char>|
                    spec_get(self.set@, k) == if over.unset.subrange(0, i as int).contains(k) {
                        None::<Seq<char>>
                    } else {
                        match spec_get(over.set, k) {
                            Some(v) => Some(v),
                            None => spec_get(base.set, k),
                        }
                    },
            decreases other.unset.len() - i,
        {
            let ghost seen = over.unset.subrange(0, i as int);
            let ghost next = over.unset.subrange(0, i + 1);
            let ghost before = self.set@;
            self.set.remove(other.unset[i].as_str());
            proof {
                let name = over.unset[i as int];
                assert(next[i as int] == name);
                assert forall|k: Seq<char>| spec_get(self.set@, k) == if next.contains(k) {
                    None::<Seq<char>>
                } else {
                    match spec_get(over.set, k) {
                        Some(v) => Some(v),
                        None => spec_get(base.set, k),
                    }
                } by {
                    if k == name {
                        assert(!has_key(self.set@, k));
                    } else {
                        assert(spec_get(self.set@, k) == spec_get(before, k));
                        if seen.contains(k) {
                            let j = choose|j: int| 0 <= j < seen.len() && seen[j] == k;
                            assert(next[j] == k);
                        }
                        if next.contains(k) {
                            let j = choose|j: int| 0 <= j < next.len() && next[j] == k;
                            assert(j < i);
                            assert(seen[j] == k);
                        }
                    }
                }
            }
            i += 1;
        }
        assert(over.unset.subrange(0, over.unset.len() as int) =~= over.unset);
        // options, package by package
        let mut i: usize = 0;
        while i < other.options.entries.len()
            invariant
                i <= other.options.entries.len(),
                self.set.wf(),
                self.options.wf(),
                other.wf(),
                over == other@,
                base.options == old(self)@.options,
                old(self).wf(),
                forall|j: int|
                    0 <= j < self.options@.len() ==> crate::textmap::ascending(
                        (#[trigger] self.options@[j]).1,
                    ),
                strings_view(self.packages@) == spec_merged_list(base.packages, over.packages),
                strings_view(self.unset@) == spec_merged_list(base.unset, over.unset),
                forall|k: Seq<char>| spec_get(self.set@, k) == spec_merged_set(base, over, k),
                forall|pkg: Seq<char>, key: Seq<char>|
                    spec_option(self.options@, pkg, key) == match spec_option(
                        over.options.subrange(0, i as int),
                        pkg,
                        key,
                    ) {
                        Some(v) => Some(v),
                        None => spec_option(base.options, pkg, key),
                    },
            decreases other.options.entries.len() - i,
        {
            let pkg_name = &other.options.entries[i].0;
            let theirs = &other.options.entries[i].1;
            let ghost tv = theirs@;
            assert(over.options[i as int] == (pkg_name@, tv));
            assert(crate::textmap::ascending(tv));
            let mut mine: PackageOptions = match self.options.get(pkg_name.as_str()) {
                Some(m) => copy_options(m),
                None => SortedMap::new(),
            };
            let ghost mine0 = mine@;
            proof {
                if has_key(self.options@, pkg_name@) {
                    let j = choose|j: int|
                        0 <= j < self.options@.len() && (#[trigger] self.options@[j]).0
                            == pkg_name@;
                    lemma_get_at(self.options@, j);
                }
            }
            let mut j: usize = 0;
            while j < theirs.entries.len()
                invariant
                    j <= theirs.entries.len(),
                    mine.wf(),
                    tv == theirs@,
                    crate::textmap::ascending(tv),
                    forall|k: Seq<char>|
                        spec_get(mine@, k) == match spec_get(tv.subrange(0, j as int), k) {
                            Some(v) => Some(v),
                            None => spec_get(mine0, k),
                        },
                decreases theirs.entries.len() - j,
            {
                mine.insert(theirs.entries[j].0.clone(), theirs.entries[j].1.duplicate());
                proof {
                    assert forall|k: Seq<char>|
                        spec_get(mine@, k) == match spec_get(tv.subrange(0, j + 1), k) {
                            Some(v) => Some(v),
                            None => spec_get(mine0, k),
                        } by {
                        lemma_prefix_get(tv, j as int, k);
                    }
                }
                j += 1;
            }
            assert(tv.subrange(0, tv.len() as int) =~= tv);
            let ghost before = self.options@;
            let ghost merged = mine@;
            self.options.insert(pkg_name.clone(), mine);
            proof {
                let after = self.options@;
                assert forall|x: int| 0 <= x < after.len() implies crate::textmap::ascending(
                    (#[trigger] after[x]).1,
                ) by {
                    lemma_get_at(after, x);
                    if after[x].0 != pkg_name@ {
                        assert(has_key(before, after[x].0));
                        let y = choose|y: int|
                            0 <= y < before.len() && (#[trigger] before[y]).0 == after[x].0;
                        lemma_get_at(before, y);
                    }
                }
                assert forall|pkg: Seq<char>, key: Seq<char>|
                    spec_option(after, pkg, key) == match spec_option(
                        over.options.subrange(0, i + 1),
                        pkg,
                        key,
                    ) {
                        Some(v) => Some(v),
                        None => spec_option(base.options, pkg, key),
                    } by {
                    lemma_prefix_get(over.options, i as int, pkg);
                    if pkg == pkg_name@ {
                        assert(spec_get(after, pkg) == Some(merged));
                        let seen = over.options.subrange(0, i as int);
                        if has_key(seen, pkg) {
                            let y = choose|y: int|
                                0 <= y < seen.len() && (#[trigger] seen[y]).0 == pkg;
                            assert(seen[y] == over.options[y]);
                            crate::textmap::lemma_text_order_equal(
                                over.options[y].0,
                                over.options[i as int].0,
                            );
                        }
                        assert(spec_option(seen, pkg, key) is None);
                        assert(spec_get(mine0, key) == spec_option(before, pkg, key));
                    } else {
                        assert(spec_get(after, pkg) == spec_get(before, pkg));
                    }
                }
            }
            i += 1;
        }
        assert(over.options.subrange(0, over.options.len() as int) =~= over.options);
    }
}

} // verus!
