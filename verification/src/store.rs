//! The content store: step outcomes per package version, keyed by step
//! position and fingerprint.
//!
//! The store itself lives on disk, one record per package. Reading and
//! writing the record is the caller's part; what a record answers and how
//! it changes is decided here.

use crate::paths::{join_path, sanitize_name, spec_join_path, spec_sanitize_name};
use crate::text::{append_str, copy_opt_string, from_chars, opt_view, str_eq};
use crate::textmap::{as_map, SortedMap};
use vstd::prelude::*;

verus! {

/// The recorded outcome of one step.
#[derive(Debug, Clone)]
pub struct StepResult {
    pub name: Option<String>,
    pub step_hash: String,
    pub timestamp: String,
    pub output_path: Option<String>,
    pub status: String,
}

/// The mathematical content of an outcome.
pub struct OutcomeView {
    pub name: Option<Seq<char>>,
    pub step_hash: Seq<char>,
    pub timestamp: Seq<char>,
    pub output_path: Option<Seq<char>>,
    pub status: Seq<char>,
}

impl View for StepResult {
    type V = OutcomeView;

    open spec fn view(&self) -> OutcomeView {
        OutcomeView {
            name: opt_view(self.name),
            step_hash: self.step_hash@,
            timestamp: self.timestamp@,
            output_path: opt_view(self.output_path),
            status: self.status@,
        }
    }
}

/// The status of a step that ran to the end.
pub open spec fn spec_success() -> Seq<char> {
    "Success"@
}

/// The outcome that fills a position no step has reported for.
pub open spec fn spec_skipped() -> OutcomeView {
    OutcomeView {
        name: None,
        step_hash: "unknown"@,
        timestamp: ""@,
        output_path: None,
        status: "Skipped"@,
    }
}

impl StepResult {
    /// A copy of the outcome.
    pub fn duplicate(&self) -> (r: StepResult)
        ensures
            r@ == self@,
    {
        StepResult {
            name: copy_opt_string(&self.name),
            step_hash: self.step_hash.clone(),
            timestamp: self.timestamp.clone(),
            output_path: copy_opt_string(&self.output_path),
            status: self.status.clone(),
        }
    }

    /// The outcome of a step that ran to the end.
    pub fn success(
        name: Option<String>,
        step_hash: String,
        timestamp: String,
        output_path: String,
    ) -> (r: StepResult)
        ensures
            r@ == (OutcomeView {
                name: opt_view(name),
                step_hash: step_hash@,
                timestamp: timestamp@,
                output_path: Some(output_path@),
                status: spec_success(),
            }),
    {
        StepResult {
            name,
            step_hash,
            timestamp,
            output_path: Some(output_path),
            status: String::from_str("Success"),
        }
    }

    /// The outcome that fills a position no step has reported for.
    pub fn skipped() -> (r: StepResult)
        ensures
            r@ == spec_skipped(),
    {
        StepResult {
            name: None,
            step_hash: String::from_str("unknown"),
            timestamp: String::from_str(""),
            output_path: None,
            status: String::from_str("Skipped"),
        }
    }
}

/// The outcomes of the steps of one version, by step position.
#[derive(Debug, Clone)]
pub struct StepList {
    pub steps: Vec<StepResult>,
}

impl View for StepList {
    type V = Seq<OutcomeView>;

    open spec fn view(&self) -> Seq<OutcomeView> {
        crate::records::views(self.steps@)
    }
}

impl StepList {
    /// A copy of the list.
    pub fn duplicate(&self) -> (r: StepList)
        ensures
            r@ == self@,
    {
        let mut steps: Vec<StepResult> = Vec::new();
        let mut i: usize = 0;
        while i < self.steps.len()
            invariant
                i <= self.steps.len(),
                steps.len() == i,
                forall|j: int| 0 <= j < i ==> (#[trigger] steps@[j])@ == self.steps@[j]@,
            decreases self.steps.len() - i,
        {
            steps.push(self.steps[i].duplicate());
            i += 1;
        }
        let r = StepList { steps };
        assert(r@ =~= self@);
        r
    }
}

/// The store's record of one package: the outcomes of each version.
#[derive(Debug, Clone)]
pub struct PackageBuildCache {
    pub versions: SortedMap<StepList>,
}

impl View for PackageBuildCache {
    type V = Map<Seq<char>, Seq<OutcomeView>>;

    open spec fn view(&self) -> Map<Seq<char>, Seq<OutcomeView>> {
        as_map(self.versions@)
    }
}

/// What a list of outcomes answers for position `idx` and fingerprint
/// `hash`: the outcome stored there, provided it carries that fingerprint
/// and reports success.
pub open spec fn spec_hit(steps: Seq<OutcomeView>, idx: int, hash: Seq<char>) -> Option<
    OutcomeView,
> {
    if 0 <= idx < steps.len() && steps[idx].step_hash == hash && steps[idx].status
        == spec_success() {
        Some(steps[idx])
    } else {
        None
    }
}

/// What a record answers for a version, a position and a fingerprint.
pub open spec fn spec_lookup(
    cache: Map<Seq<char>, Seq<OutcomeView>>,
    version: Seq<char>,
    idx: int,
    hash: Seq<char>,
) -> Option<OutcomeView> {
    if cache.dom().contains(version) {
        spec_hit(cache[version], idx, hash)
    } else {
        None
    }
}

/// `n` filler outcomes.
pub open spec fn spec_fill(n: nat) -> Seq<OutcomeView> {
    Seq::new(n, |i: int| spec_skipped())
}

/// A list of outcomes after `result` is written at position `idx`: an
/// existing position is overwritten; a position past the end is reached by
/// filling the gap.
pub open spec fn spec_written(steps: Seq<OutcomeView>, idx: int, result: OutcomeView) -> Seq<
    OutcomeView,
> {
    if 0 <= idx < steps.len() {
        steps.update(idx, result)
    } else {
        steps + spec_fill((idx - steps.len()) as nat) + seq![result]
    }
}

/// The outcomes of a version; none when the record does not know it.
pub open spec fn spec_steps_of(
    cache: Map<Seq<char>, Seq<OutcomeView>>,
    version: Seq<char>,
) -> Seq<OutcomeView> {
    if cache.dom().contains(version) {
        cache[version]
    } else {
        Seq::empty()
    }
}

/// A record after `result` is written for `version` at position `idx`.
pub open spec fn spec_recorded(
    cache: Map<Seq<char>, Seq<OutcomeView>>,
    version: Seq<char>,
    idx: int,
    result: OutcomeView,
) -> Map<Seq<char>, Seq<OutcomeView>> {
    cache.insert(version, spec_written(spec_steps_of(cache, version), idx, result))
}

impl PackageBuildCache {
    /// The versions are held in order.
    pub open spec fn wf(&self) -> bool {
        self.versions.wf()
    }

    /// Tells whether the versions are held in order. A record that was
    /// read from a file is checked with this before it is used.
    pub fn is_sound(&self) -> (r: bool)
        ensures
            r == self.wf(),
    {
        self.versions.is_ordered()
    }

    /// A record that knows no version.
    pub fn new() -> (r: PackageBuildCache)
        ensures
            r.wf(),
            r@ == Map::<Seq<char>, Seq<OutcomeView>>::empty(),
    {
        let r = PackageBuildCache { versions: SortedMap::new() };
        assert(r@ =~= Map::<Seq<char>, Seq<OutcomeView>>::empty());
        r
    }
}

/// The content store of a host.
#[derive(Debug, Clone)]
pub struct BuildCache {
    pub cache_dir: String,
}

/// The file name of a package's record: the sanitised name and `.json`.
pub open spec fn spec_record_file(pkgname: Seq<char>) -> Seq<char> {
    spec_sanitize_name(pkgname) + ".json"@
}

impl BuildCache {
    /// The store below the cache directory `cache_dir`.
    pub fn new(cache_dir: &str) -> (r: BuildCache)
        ensures
            r.cache_dir@ == spec_join_path(cache_dir@, "builds"@),
    {
        BuildCache { cache_dir: join_path(cache_dir, "builds") }
    }

    /// The path of the record of `pkgname`.
    pub fn get_file_path(&self, pkgname: &str) -> (r: String)
        ensures
            r@ == spec_join_path(self.cache_dir@, spec_record_file(pkgname@)),
    {
        let safe = sanitize_name(pkgname);
        let mut name: Vec<char> = Vec::new();
        append_str(&mut name, safe.as_str());
        append_str(&mut name, ".json");
        let file = from_chars(&name);
        join_path(self.cache_dir.as_str(), file.as_str())
    }

    /// Looks a step up in the record of its package: a hit is an outcome
    /// stored at that position with that fingerprint and status `Success`.
    pub fn get_step_result(
        &self,
        cache: &PackageBuildCache,
        version: &str,
        step_index: usize,
        step_hash: &str,
    ) -> (r: Option<StepResult>)
        requires
            cache.wf(),
        ensures
            opt_outcome(r) == spec_lookup(cache@, version@, step_index as int, step_hash@),
    {
        match cache.versions.get(version) {
            Some(list) => {
                if step_index < list.steps.len() {
                    let found = &list.steps[step_index];
                    assert(list@[step_index as int] == found@);
                    if str_eq(found.step_hash.as_str(), step_hash) && str_eq(
                        found.status.as_str(),
                        "Success",
                    ) {
                        Some(found.duplicate())
                    } else {
                        None
                    }
                } else {
                    None
                }
            },
            None => None,
        }
    }

    /// Writes an outcome into the record of its package at position
    /// `step_index` of `version`.
    pub fn update_step_result(
        &self,
        cache: &mut PackageBuildCache,
        version: &str,
        step_index: usize,
        result: StepResult,
    )
        requires
            old(cache).wf(),
        ensures
            final(cache).wf(),
            final(cache)@ == spec_recorded(old(cache)@, version@, step_index as int, result@),
    {
        let ghost before = cache@;
        let ghost wanted = spec_written(
            spec_steps_of(before, version@),
            step_index as int,
            result@,
        );
        let mut list = match cache.versions.get(version) {
            Some(l) => l.duplicate(),
            None => StepList { steps: Vec::new() },
        };
        let ghost start = list@;
        assert(start =~= spec_steps_of(before, version@));
        if step_index < list.steps.len() {
            list.steps.set(step_index, result);
            assert(list@ =~= wanted);
        } else {
            assert(spec_fill(0) =~= Seq::<OutcomeView>::empty());
            while list.steps.len() < step_index
                invariant
                    start.len() <= list.steps.len() <= step_index,
                    list@ == start + spec_fill((list.steps.len() - start.len()) as nat),
                decreases step_index - list.steps.len(),
            {
                let ghost prev = list@;
                list.steps.push(StepResult::skipped());
                assert(list@ =~= prev.push(spec_skipped()));
                assert(list@ =~= start + spec_fill((list.steps.len() - start.len()) as nat));
            }
            let ghost prev = list@;
            list.steps.push(result);
            assert(list@ =~= prev.push(result@));
            assert(list@ =~= wanted);
        }
        cache.versions.insert(String::from_str(version), list);
    }
}

/// The content of an optional outcome.
pub open spec fn opt_outcome(r: Option<StepResult>) -> Option<OutcomeView> {
    match r {
        Some(x) => Some(x@),
        None => None,
    }
}

/// A successful outcome written at a position is found again under its
/// fingerprint; an outcome with another status is never a hit.
pub proof fn lemma_lookup_after_record(
    cache: Map<Seq<char>, Seq<OutcomeView>>,
    version: Seq<char>,
    idx: int,
    result: OutcomeView,
)
    requires
        0 <= idx,
    ensures
        spec_lookup(spec_recorded(cache, version, idx, result), version, idx, result.step_hash)
            == if result.status == spec_success() {
            Some(result)
        } else {
            None::<OutcomeView>
        },
{
    let steps = spec_steps_of(cache, version);
    let w = spec_written(steps, idx, result);
    assert(w[idx] == result);
}

/// A hit carries the fingerprint that was asked for and reports success.
pub proof fn lemma_hit_matches(
    cache: Map<Seq<char>, Seq<OutcomeView>>,
    version: Seq<char>,
    idx: int,
    hash: Seq<char>,
)
    ensures
        match spec_lookup(cache, version, idx, hash) {
            Some(o) => o.step_hash == hash && o.status == spec_success() && cache.dom().contains(
                version,
            ) && 0 <= idx < cache[version].len() && cache[version][idx] == o,
            None => true,
        },
{
}

/// Writing is idempotent: writing the same outcome at the same position a
/// second time changes nothing.
pub proof fn lemma_record_idempotent(
    cache: Map<Seq<char>, Seq<OutcomeView>>,
    version: Seq<char>,
    idx: int,
    result: OutcomeView,
)
    requires
        0 <= idx,
    ensures
        spec_recorded(spec_recorded(cache, version, idx, result), version, idx, result)
            == spec_recorded(cache, version, idx, result),
{
    let once = spec_recorded(cache, version, idx, result);
    let w = spec_written(spec_steps_of(cache, version), idx, result);
    assert(spec_steps_of(once, version) == w);
    assert(spec_written(w, idx, result) =~= w);
    assert(spec_recorded(once, version, idx, result) =~= once);
}

/// Writing position `idx` keeps every earlier position addressable: what
/// was stored there stays, and a gap is filled with filler outcomes.
pub proof fn lemma_record_keeps_earlier(steps: Seq<OutcomeView>, idx: int, result: OutcomeView)
    requires
        0 <= idx,
    ensures
        spec_written(steps, idx, result).len() > idx,
        spec_written(steps, idx, result)[idx] == result,
        forall|j: int|
            0 <= j < steps.len() && j != idx ==> #[trigger] spec_written(steps, idx, result)[j]
                == steps[j],
        forall|j: int|
            steps.len() <= j < idx ==> #[trigger] spec_written(steps, idx, result)[j]
                == spec_skipped(),
{
}

/// Writing for one version leaves the other versions as they were.
pub proof fn lemma_record_other_version(
    cache: Map<Seq<char>, Seq<OutcomeView>>,
    version: Seq<char>,
    idx: int,
    result: OutcomeView,
    other: Seq<char>,
    j: int,
    hash: Seq<char>,
)
    requires
        other != version,
    ensures
        spec_lookup(spec_recorded(cache, version, idx, result), other, j, hash) == spec_lookup(
            cache,
            other,
            j,
            hash,
        ),
{
}

} // verus!
