//! Package selectors: `[repo/][prefix:]name[=version]`.

use crate::text::{append_chars, find_char, from_chars, opt_view, substring, to_chars};
use vstd::prelude::*;

verus! {

/// A parsed selector.
#[derive(Debug, Clone)]
pub struct PackageSelector {
    /// Repository the selector is restricted to.
    pub recipe: Option<String>,
    /// Manager namespace.
    pub prefix: Option<String>,
    /// Package name; never empty in a parsed selector.
    pub package: String,
    /// Requested version, release channel or wildcard.
    pub version: Option<String>,
}

/// The mathematical content of a selector.
pub struct SelectorView {
    pub recipe: Option<Seq<char>>,
    pub prefix: Option<Seq<char>>,
    pub package: Seq<char>,
    pub version: Option<Seq<char>>,
}

impl View for PackageSelector {
    type V = SelectorView;

    open spec fn view(&self) -> SelectorView {
        SelectorView {
            recipe: opt_view(self.recipe),
            prefix: opt_view(self.prefix),
            package: self.package@,
            version: opt_view(self.version),
        }
    }
}

/// Splits off the version: everything after the first `=`.
pub open spec fn split_version(s: Seq<char>) -> (Seq<char>, Option<Seq<char>>) {
    match s.index_of_first('=') {
        Some(i) => (s.subrange(0, i), Some(s.subrange(i + 1, s.len() as int))),
        None => (s, None),
    }
}

/// Splits off the repository: everything before the first `/`, unless a `:`
/// comes before that `/` (the `/` then belongs to the package name).
pub open spec fn split_recipe(s: Seq<char>) -> (Seq<char>, Option<Seq<char>>) {
    match s.index_of_first('/') {
        Some(i) => match s.index_of_first(':') {
            Some(c) => if c < i {
                (s, None)
            } else {
                (s.subrange(i + 1, s.len() as int), Some(s.subrange(0, i)))
            },
            None => (s.subrange(i + 1, s.len() as int), Some(s.subrange(0, i))),
        },
        None => (s, None),
    }
}

/// Splits off the manager prefix: everything before the first `:`.
pub open spec fn split_prefix(s: Seq<char>) -> (Option<Seq<char>>, Seq<char>) {
    match s.index_of_first(':') {
        Some(i) => (Some(s.subrange(0, i)), s.subrange(i + 1, s.len() as int)),
        None => (None, s),
    }
}

/// What a selector text denotes; `None` when the package name is empty.
pub open spec fn spec_parse(s: Seq<char>) -> Option<SelectorView> {
    let (rest, version) = split_version(s);
    let (rest, recipe) = split_recipe(rest);
    let (prefix, package) = split_prefix(rest);
    if package.len() == 0 {
        None
    } else {
        Some(SelectorView { recipe, prefix, package, version })
    }
}

/// The text of a selector.
pub open spec fn spec_format(v: SelectorView) -> Seq<char> {
    let recipe = match v.recipe {
        Some(r) => r.push('/'),
        None => Seq::<char>::empty(),
    };
    let prefix = match v.prefix {
        Some(p) => p.push(':'),
        None => Seq::<char>::empty(),
    };
    let version = match v.version {
        Some(x) => seq!['='] + x,
        None => Seq::<char>::empty(),
    };
    recipe + prefix + v.package + version
}

impl PackageSelector {
    /// Parses a selector text.
    ///
    /// The version is what follows the first `=`. In what precedes it, the
    /// repository is what comes before the first `/` unless a `:` comes
    /// earlier; in the remainder the prefix is what comes before the first
    /// `:`. A selector with an empty package name is rejected.
    pub fn parse(s: &str) -> (r: Option<Self>)
        ensures
            r.is_some() == spec_parse(s@).is_some(),
            r.is_some() ==> r.unwrap()@ == spec_parse(s@).unwrap(),
    {
        let all = to_chars(s);
        let (rest, version): (Vec<char>, Option<String>) = match find_char(&all, '=') {
            Some(i) => (
                crate::text::slice_chars(&all, 0, i),
                Some(substring(&all, i + 1, all.len())),
            ),
            None => (crate::text::slice_chars(&all, 0, all.len()), None),
        };
        assert(all@.subrange(0, all@.len() as int) =~= all@);
        assert(rest@ == split_version(s@).0);
        assert(opt_view(version) == split_version(s@).1);
        let n = rest.len();
        let slash = find_char(&rest, '/');
        let colon = find_char(&rest, ':');
        let cut: Option<usize> = match slash {
            Some(i) => match colon {
                Some(c) => if c < i {
                    None
                } else {
                    Some(i)
                },
                None => Some(i),
            },
            None => None,
        };
        let (rest2, recipe): (Vec<char>, Option<String>) = match cut {
            Some(i) => (crate::text::slice_chars(&rest, i + 1, n), Some(substring(&rest, 0, i))),
            None => (crate::text::slice_chars(&rest, 0, n), None),
        };
        assert(rest@.subrange(0, rest@.len() as int) =~= rest@);
        assert(rest2@ == split_recipe(rest@).0);
        assert(opt_view(recipe) == split_recipe(rest@).1);
        let m = rest2.len();
        let (prefix, package): (Option<String>, String) = match find_char(&rest2, ':') {
            Some(i) => (Some(substring(&rest2, 0, i)), substring(&rest2, i + 1, m)),
            None => (None, from_chars(&rest2)),
        };
        assert(opt_view(prefix) == split_prefix(rest2@).0);
        assert(package@ == split_prefix(rest2@).1);
        if package.as_str().unicode_len() == 0 {
            return None;
        }
        Some(PackageSelector { recipe, prefix, package, version })
    }

    /// Writes the selector back as text.
    pub fn format(&self) -> (s: String)
        ensures
            s@ == spec_format(self@),
    {
        let mut out: Vec<char> = Vec::new();
        if let Some(r) = &self.recipe {
            let rc = to_chars(r.as_str());
            append_chars(&mut out, &rc);
            out.push('/');
        }
        if let Some(p) = &self.prefix {
            let pc = to_chars(p.as_str());
            append_chars(&mut out, &pc);
            out.push(':');
        }
        let pk = to_chars(self.package.as_str());
        append_chars(&mut out, &pk);
        if let Some(v) = &self.version {
            out.push('=');
            let vc = to_chars(v.as_str());
            append_chars(&mut out, &vc);
        }
        assert(out@ =~= spec_format(self@));
        from_chars(&out)
    }
}

/// Formatting a parsed selector gives back the text it was parsed from.
pub proof fn lemma_format_of_parse(s: Seq<char>)
    requires
        spec_parse(s).is_some(),
    ensures
        spec_format(spec_parse(s).unwrap()) == s,
{
    let (rest, version) = split_version(s);
    let (rest2, recipe) = split_recipe(rest);
    let (prefix, package) = split_prefix(rest2);
    s.index_of_first_ensures('=');
    rest.index_of_first_ensures('/');
    rest.index_of_first_ensures(':');
    rest2.index_of_first_ensures(':');
    let version_text = match version {
        Some(x) => seq!['='] + x,
        None => Seq::<char>::empty(),
    };
    let recipe_text = match recipe {
        Some(r) => r.push('/'),
        None => Seq::<char>::empty(),
    };
    let prefix_text = match prefix {
        Some(p) => p.push(':'),
        None => Seq::<char>::empty(),
    };
    assert(prefix_text + package =~= rest2);
    assert(recipe_text + rest2 =~= rest);
    assert(rest + version_text =~= s);
    assert(recipe_text + prefix_text + package + version_text =~= (recipe_text + (prefix_text
        + package)) + version_text);
}

/// Parsing is stable under formatting: for every text `s` that parses,
/// parsing the formatted result gives the same selector again.
pub proof fn lemma_parse_format_roundtrip(s: Seq<char>)
    requires
        spec_parse(s).is_some(),
    ensures
        spec_parse(spec_format(spec_parse(s).unwrap())) == spec_parse(s),
{
    lemma_format_of_parse(s);
}

} // verus!
