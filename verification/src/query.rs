//! Path queries over structured data.
//!
//! Which values a JSONPath query selects is decided by the
//! `serde_json_path` crate, on the notation of the node that is asked. It
//! answers with the places of the matches, each a path of keys and
//! positions that leads from the node to a match. The matches themselves
//! are then looked up here, in the tree of the node.

use crate::documents::{spec_member, DataError, DataNode, DataValue};
use serde_json_path::PathElement;
use vstd::prelude::*;

verus! {

/// One step from a node to a node below it.
#[derive(Debug)]
pub enum PathStep {
    /// Into the member of an object.
    Key(String),
    /// Into the element of an array.
    Position(usize),
}

/// The content of a step.
pub enum PathStepView {
    Key(Seq<char>),
    Position(usize),
}

impl View for PathStep {
    type V = PathStepView;

    open spec fn view(&self) -> PathStepView {
        match self {
            PathStep::Key(k) => PathStepView::Key(k@),
            PathStep::Position(i) => PathStepView::Position(*i),
        }
    }
}

/// The content of a path.
pub open spec fn path_view(path: Seq<PathStep>) -> Seq<PathStepView> {
    Seq::new(path.len(), |i: int| path[i]@)
}

/// The content of a list of paths.
pub open spec fn paths_view(paths: Seq<Vec<PathStep>>) -> Seq<Seq<PathStepView>> {
    Seq::new(paths.len(), |i: int| path_view(paths[i]@))
}

/// Whether `query` parses as a JSONPath query
/// (`serde_json_path::JsonPath::parse`).
pub uninterp spec fn json_path_valid(query: Seq<char>) -> bool;

/// Whether `text` reads as a JSON document (`serde_json::from_str`).
pub uninterp spec fn json_text_valid(text: Seq<char>) -> bool;

/// The places of the values that `query` selects in the document that
/// `text` reads as, in the order in which the query gives them
/// (`serde_json_path::JsonPath::query_located`).
pub uninterp spec fn json_path_locations(text: Seq<char>, query: Seq<char>) -> Seq<Seq<PathStepView>>;

/// What asking a document with a query gives.
#[derive(Debug)]
pub enum Located {
    /// The query does not parse.
    BadQuery,
    /// The query parses; the document cannot be read.
    BadDocument,
    /// The places of the matches.
    Found(Vec<Vec<PathStep>>),
}

/// Asks the document written in `text` with `query`.
///
/// Trusted: stands for `serde_json_path::JsonPath::parse`,
/// `serde_json::from_str` and `serde_json_path::JsonPath::query_located`.
/// The query is parsed first, then the document; the places of the matches
/// are handed out as the crate lists them, each element of a place turned
/// into a step of the same kind. Which places those are is only named.
#[verifier::external_body]
pub(crate) fn locate(text: &str, query: &str) -> (r: Located)
    ensures
        match r {
            Located::BadQuery => !json_path_valid(query@),
            Located::BadDocument => json_path_valid(query@) && !json_text_valid(text@),
            Located::Found(p) => json_path_valid(query@) && json_text_valid(text@) && paths_view(
                p@,
            ) == json_path_locations(text@, query@),
        },
{
    let Ok(path) = serde_json_path::JsonPath::parse(query) else {
        return Located::BadQuery;
    };
    let Ok(value) = serde_json::from_str::<serde_json::Value>(text) else {
        return Located::BadDocument;
    };
    let step = |e: &PathElement| match e {
        PathElement::Name(n) => PathStep::Key(n.to_string()),
        PathElement::Index(i) => PathStep::Position(*i),
    };
    Located::Found(path.query_located(&value).locations().map(|l| l.iter().map(step).collect()).collect())
}

/// The node one step below `n`: the first member of that key, or the
/// element at that position.
pub open spec fn spec_step(n: DataNode, s: PathStepView) -> Option<DataNode> {
    match (n.value, s) {
        (DataValue::Object(m), PathStepView::Key(k)) => match spec_member(m@, k) {
            Some(i) => Some(m@[i].1),
            None => None,
        },
        (DataValue::Array(a), PathStepView::Position(i)) => if i < a@.len() {
            Some(a@[i as int])
        } else {
            None
        },
        _ => None,
    }
}

/// The node that `path` leads to from `n`, if every step of it can be
/// taken.
pub open spec fn spec_descend(n: DataNode, path: Seq<PathStepView>) -> Option<DataNode>
    decreases path.len(),
{
    if path.len() == 0 {
        Some(n)
    } else {
        match spec_descend(n, path.drop_last()) {
            Some(c) => spec_step(c, path.last()),
            None => None,
        }
    }
}

/// The nodes that the paths lead to from `n`, in the order of the paths; a
/// path that cannot be walked gives none.
pub open spec fn spec_resolve(n: DataNode, paths: Seq<Seq<PathStepView>>) -> Seq<DataNode>
    decreases paths.len(),
{
    if paths.len() == 0 {
        Seq::empty()
    } else {
        let before = spec_resolve(n, paths.drop_last());
        match spec_descend(n, paths.last()) {
            Some(c) => before.push(c),
            None => before,
        }
    }
}

/// The nodes behind a list of references.
pub open spec fn spec_nodes(refs: Seq<&DataNode>) -> Seq<DataNode> {
    Seq::new(refs.len(), |i: int| *refs[i])
}

/// What a selection gives for each answer to the query.
pub open spec fn spec_resolve_located(n: DataNode, located: Located) -> Result<
    Seq<DataNode>,
    DataError,
> {
    match located {
        Located::BadQuery => Err(DataError::InvalidQuery),
        Located::BadDocument => Err(DataError::Unreadable),
        Located::Found(p) => Ok(spec_resolve(n, paths_view(p@))),
    }
}

/// What `query` selects below `n`: the nodes at the places that the query
/// gives on the notation of `n`.
pub open spec fn spec_select(n: DataNode, query: Seq<char>) -> Result<Seq<DataNode>, DataError> {
    if !json_path_valid(query) {
        Err(DataError::InvalidQuery)
    } else if !json_text_valid(n.rendered@) {
        Err(DataError::Unreadable)
    } else {
        Ok(spec_resolve(n, json_path_locations(n.rendered@, query)))
    }
}

/// The content of a selection.
pub open spec fn selection_view(r: Result<Vec<&DataNode>, DataError>) -> Result<
    Seq<DataNode>,
    DataError,
> {
    match r {
        Ok(v) => Ok(spec_nodes(v@)),
        Err(e) => Err(e),
    }
}

/// The first node of a selection, if it has one.
pub open spec fn spec_first(r: Result<Seq<DataNode>, DataError>) -> Result<
    Option<DataNode>,
    DataError,
> {
    match r {
        Ok(v) => if v.len() > 0 {
            Ok(Some(v[0]))
        } else {
            Ok(None)
        },
        Err(e) => Err(e),
    }
}

/// The content of a single selection.
pub open spec fn first_view(r: Result<Option<&DataNode>, DataError>) -> Result<
    Option<DataNode>,
    DataError,
> {
    match r {
        Ok(Some(n)) => Ok(Some(*n)),
        Ok(None) => Ok(None),
        Err(e) => Err(e),
    }
}

/// A path that cannot be walked to some point cannot be walked to its end.
proof fn lemma_descend_stuck(n: DataNode, path: Seq<PathStepView>, j: int)
    requires
        0 <= j <= path.len(),
        spec_descend(n, path.take(j)) is None,
    ensures
        spec_descend(n, path) is None,
    decreases path.len() - j,
{
    if j == path.len() {
        assert(path.take(j) =~= path);
    } else {
        assert(path.take(j + 1).drop_last() =~= path.take(j));
        lemma_descend_stuck(n, path, j + 1);
    }
}

impl DataNode {
    /// The node one step below this one.
    pub fn step(&self, s: &PathStep) -> (r: Option<&DataNode>)
        ensures
            match r {
                Some(c) => spec_step(*self, s@) == Some(*c),
                None => spec_step(*self, s@) is None,
            },
    {
        match s {
            PathStep::Key(k) => match &self.value {
                DataValue::Object(_) => self.get(k.as_str()),
                _ => None,
            },
            PathStep::Position(i) => match &self.value {
                DataValue::Array(a) => if *i < a.len() {
                    Some(&a[*i])
                } else {
                    None
                },
                _ => None,
            },
        }
    }

    /// Walks `path` down from this node.
    pub fn descend(&self, path: &Vec<PathStep>) -> (r: Option<&DataNode>)
        ensures
            match r {
                Some(c) => spec_descend(*self, path_view(path@)) == Some(*c),
                None => spec_descend(*self, path_view(path@)) is None,
            },
    {
        let ghost steps = path_view(path@);
        let mut current: &DataNode = self;
        let mut i: usize = 0;
        assert(steps.take(0) =~= Seq::<PathStepView>::empty());
        while i < path.len()
            invariant
                i <= path.len(),
                steps == path_view(path@),
                spec_descend(*self, steps.take(i as int)) == Some(*current),
            decreases path.len() - i,
        {
            assert(steps.take(i + 1).drop_last() =~= steps.take(i as int));
            assert(steps.take(i + 1).last() == path@[i as int]@);
            match current.step(&path[i]) {
                Some(c) => {
                    current = c;
                },
                None => {
                    proof {
                        lemma_descend_stuck(*self, steps, i + 1);
                    }
                    return None;
                },
            }
            i += 1;
        }
        assert(steps.take(path.len() as int) =~= steps);
        Some(current)
    }

    /// Looks up what a query answered: each place is walked from this
    /// node, and the nodes reached are handed out in the order of the
    /// places.
    pub fn resolve(&self, located: &Located) -> (r: Result<Vec<&DataNode>, DataError>)
        ensures
            selection_view(r) == spec_resolve_located(*self, *located),
    {
        match located {
            Located::BadQuery => Err(DataError::InvalidQuery),
            Located::BadDocument => Err(DataError::Unreadable),
            Located::Found(paths) => {
                let ghost all = paths_view(paths@);
                let mut out: Vec<&DataNode> = Vec::new();
                let mut i: usize = 0;
                assert(all.take(0) =~= Seq::<Seq<PathStepView>>::empty());
                assert(spec_nodes(out@) =~= Seq::<DataNode>::empty());
                while i < paths.len()
                    invariant
                        i <= paths.len(),
                        all == paths_view(paths@),
                        spec_nodes(out@) == spec_resolve(*self, all.take(i as int)),
                    decreases paths.len() - i,
                {
                    assert(all.take(i + 1).drop_last() =~= all.take(i as int));
                    assert(all.take(i + 1).last() == path_view(paths@[i as int]@));
                    match self.descend(&paths[i]) {
                        Some(c) => {
                            let ghost before = spec_nodes(out@);
                            out.push(c);
                            assert(spec_nodes(out@) =~= before.push(*c));
                        },
                        None => {},
                    }
                    i += 1;
                }
                assert(all.take(paths.len() as int) =~= all);
                Ok(out)
            },
        }
    }

    /// The nodes below this one that `query` selects.
    pub fn select(&self, query: &str) -> (r: Result<Vec<&DataNode>, DataError>)
        ensures
            selection_view(r) == spec_select(*self, query@),
    {
        let located = locate(self.rendered.as_str(), query);
        self.resolve(&located)
    }

    /// The first node below this one that `query` selects.
    pub fn select_one(&self, query: &str) -> (r: Result<Option<&DataNode>, DataError>)
        ensures
            first_view(r) == spec_first(spec_select(*self, query@)),
    {
        match self.select(query) {
            Ok(found) => {
                if found.len() > 0 {
                    assert(spec_nodes(found@)[0] == *found@[0]);
                    Ok(Some(found[0]))
                } else {
                    assert(spec_nodes(found@).len() == 0);
                    Ok(None)
                }
            },
            Err(e) => Err(e),
        }
    }
}

} // verus!
