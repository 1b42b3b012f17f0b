//! The cache of downloaded text: where an address is kept, and whether
//! what is kept is still fresh.

use crate::paths::{join_path, spec_join_path};
use crate::text::{from_chars, replace_chars, spec_replace, to_chars};
use vstd::prelude::*;

verus! {

/// A cache of downloaded text below a directory; an entry is fresh for
/// `ttl_secs` seconds.
#[derive(Debug, Clone)]
pub struct Cache {
    pub dir: String,
    pub ttl_secs: u64,
}

/// `true` for the characters of an address that become `_` in a file
/// name.
pub open spec fn is_address_mark(c: char) -> bool {
    c == '/' || c == ':' || c == '?' || c == '&' || c == '='
}

/// The file name of an address: `://` becomes `_`, then each of `/`, `:`,
/// `?`, `&` and `=` becomes `_`.
pub open spec fn spec_sanitize_url(url: Seq<char>) -> Seq<char> {
    let s = spec_replace(url, "://"@, "_"@);
    Seq::new(
        s.len(),
        |i: int|
            if is_address_mark(s[i]) {
                '_'
            } else {
                s[i]
            },
    )
}

/// How a kept entry stands.
#[derive(Debug, Clone, Copy, PartialEq, Eq, Structural)]
pub enum Freshness {
    /// Not older than the time to live.
    Fresh,
    /// Older than the time to live.
    Expired,
    /// Written in the future: the clocks disagree.
    ClockError,
}

/// How an entry written at `modified` stands at `now`.
pub open spec fn spec_freshness(ttl: int, now: int, modified: int) -> Freshness {
    if modified > now {
        Freshness::ClockError
    } else if now - modified > ttl {
        Freshness::Expired
    } else {
        Freshness::Fresh
    }
}

impl Cache {
    /// A cache below `dir` whose entries live `ttl_secs` seconds.
    pub fn new(dir: String, ttl_secs: u64) -> (r: Cache)
        ensures
            r.dir@ == dir@,
            r.ttl_secs == ttl_secs,
    {
        Self { dir, ttl_secs }
    }

    /// The file in which the text of an address is kept.
    pub fn get_path(&self, url: &str) -> (r: String)
        ensures
            r@ == spec_join_path(self.dir@, spec_sanitize_url(url@)),
    {
        let u = to_chars(url);
        let s = replace_chars(&u, &to_chars("://"), &to_chars("_"));
        let mut out: Vec<char> = Vec::new();
        let mut i: usize = 0;
        while i < s.len()
            invariant
                i <= s.len(),
                out.len() == i,
                forall|j: int|
                    0 <= j < i ==> out@[j] == if is_address_mark(s@[j]) {
                        '_'
                    } else {
                        s@[j]
                    },
            decreases s.len() - i,
        {
            let c = s[i];
            if c == '/' || c == ':' || c == '?' || c == '&' || c == '=' {
                out.push('_');
            } else {
                out.push(c);
            }
            i += 1;
        }
        assert(out@ =~= spec_sanitize_url(url@));
        let name = from_chars(&out);
        join_path(self.dir.as_str(), name.as_str())
    }

    /// Tells how an entry stands that was written at `modified_secs`, at
    /// the time `now_secs`.
    pub fn freshness(&self, now_secs: u64, modified_secs: u64) -> (r: Freshness)
        ensures
            r == spec_freshness(self.ttl_secs as int, now_secs as int, modified_secs as int),
    {
        if modified_secs > now_secs {
            Freshness::ClockError
        } else if now_secs - modified_secs > self.ttl_secs {
            Freshness::Expired
        } else {
            Freshness::Fresh
        }
    }
}

/// Where a download stands.
#[derive(Debug, Clone, Copy, PartialEq, Eq, Structural)]
pub enum DownloadStage {
    /// Nothing has been done yet.
    Start,
    /// The lock of the address is held.
    Locked,
}

/// What a download does next.
#[derive(Debug, Clone)]
pub enum DownloadAction {
    /// Hand out this text; the download is over.
    Return(String),
    /// Take the lock of the address, then look into the cache again.
    Lock,
    /// Fetch the address, keep the text in the cache and hand it out.
    Fetch,
}

/// The mathematical content of what a download does next.
pub enum DownloadActionView {
    Return(Seq<char>),
    Lock,
    Fetch,
}

impl View for DownloadAction {
    type V = DownloadActionView;

    open spec fn view(&self) -> DownloadActionView {
        match self {
            DownloadAction::Return(s) => DownloadActionView::Return(s@),
            DownloadAction::Lock => DownloadActionView::Lock,
            DownloadAction::Fetch => DownloadActionView::Fetch,
        }
    }
}

/// What a download does after looking into the cache: fresh text that is
/// kept is handed out unless the run is forced; else the lock is taken
/// first, and only a second miss under the lock leads to the network.
pub open spec fn spec_download_next(
    force: bool,
    stage: DownloadStage,
    cached: Option<Seq<char>>,
) -> DownloadActionView {
    if !force && cached is Some {
        DownloadActionView::Return(cached.unwrap())
    } else if stage == DownloadStage::Start {
        DownloadActionView::Lock
    } else {
        DownloadActionView::Fetch
    }
}

/// Decides what a download does after looking into the cache; `cached`
/// holds the fresh text that is kept for the address, if any.
pub fn download_next(force: bool, stage: DownloadStage, cached: Option<String>) -> (r:
    DownloadAction)
    ensures
        r@ == spec_download_next(force, stage, crate::text::opt_view(cached)),
{
    match cached {
        Some(text) => {
            if !force {
                return DownloadAction::Return(text);
            }
        },
        None => {},
    }
    match stage {
        DownloadStage::Start => DownloadAction::Lock,
        DownloadStage::Locked => DownloadAction::Fetch,
    }
}

/// What a fetch leaves: the text to hand out, and whether it goes into the
/// cache.
#[derive(Debug, Clone)]
pub struct Fetched {
    pub text: String,
    pub keep: bool,
}

/// Decides what a fetch leaves; `received` holds the text when the fetch
/// went well. A fetch that failed hands out the empty text, and nothing of
/// it is kept.
pub fn after_fetch(received: Option<String>) -> (r: Fetched)
    ensures
        match received {
            Some(t) => r.keep && r.text@ == t@,
            None => !r.keep && r.text@.len() == 0,
        },
{
    match received {
        Some(text) => Fetched { text, keep: true },
        None => {
            proof {
                reveal_strlit("");
            }
            Fetched { text: String::from_str(""), keep: false }
        },
    }
}

/// The network is reached only under the lock.
pub proof fn lemma_fetch_only_when_locked(
    force: bool,
    stage: DownloadStage,
    cached: Option<Seq<char>>,
)
    ensures
        spec_download_next(force, stage, cached) is Fetch ==> stage == DownloadStage::Locked && (
        force || cached is None),
{
}

/// Where one caller of a download stands, when several ask for one
/// address at the same time.
pub enum Phase {
    /// It has done nothing yet.
    Start,
    /// It found nothing in the cache and waits for the lock.
    Waiting,
    /// It holds the lock.
    Locked,
    /// It holds the lock and has sent its request.
    Fetching,
    /// It has handed out this text.
    Done { text: Seq<char> },
}

/// Several callers asking for one address, without force: what the cache
/// keeps, who holds the lock of the address, where each caller stands, and
/// how many requests went to the network.
pub struct Downloads {
    pub cached: Option<Seq<char>>,
    pub holder: Option<int>,
    pub phases: Seq<Phase>,
    pub requests: nat,
}

/// The callers before any of them has moved, with nothing in the cache.
pub open spec fn spec_downloads_start(callers: nat) -> Downloads {
    Downloads {
        cached: None,
        holder: None,
        phases: Seq::new(callers, |i: int| Phase::Start),
        requests: 0,
    }
}

/// One move of caller `i`, decided as `spec_download_next` says; the
/// network serves `payload`. A caller that waits moves only when the lock
/// is free; the lock is given back when its holder is done; what was
/// fetched is kept in the cache.
pub open spec fn spec_downloads_move(d: Downloads, i: int, payload: Seq<char>) -> Downloads {
    if !(0 <= i < d.phases.len()) {
        d
    } else {
        match d.phases[i] {
            Phase::Start => match spec_download_next(false, DownloadStage::Start, d.cached) {
                DownloadActionView::Return(t) => Downloads {
                    phases: d.phases.update(i, Phase::Done { text: t }),
                    ..d
                },
                _ => Downloads { phases: d.phases.update(i, Phase::Waiting), ..d },
            },
            Phase::Waiting => if d.holder is None {
                Downloads { holder: Some(i), phases: d.phases.update(i, Phase::Locked), ..d }
            } else {
                d
            },
            Phase::Locked => match spec_download_next(false, DownloadStage::Locked, d.cached) {
                DownloadActionView::Return(t) => Downloads {
                    holder: None,
                    phases: d.phases.update(i, Phase::Done { text: t }),
                    ..d
                },
                _ => Downloads {
                    phases: d.phases.update(i, Phase::Fetching),
                    requests: d.requests + 1,
                    ..d
                },
            },
            Phase::Fetching => Downloads {
                cached: Some(payload),
                holder: None,
                phases: d.phases.update(i, Phase::Done { text: payload }),
                requests: d.requests,
            },
            Phase::Done { .. } => d,
        }
    }
}

/// What holds of the callers at every moment: only the holder of the lock
/// is past waiting; a request is under way only while the cache is empty;
/// and the requests made are those that filled the cache or are under way.
pub open spec fn spec_downloads_sound(d: Downloads, payload: Seq<char>) -> bool {
    &&& d.holder matches Some(h) ==> 0 <= h < d.phases.len() && (d.phases[h] is Locked
        || d.phases[h] is Fetching)
    &&& forall|i: int|
        0 <= i < d.phases.len() && ((#[trigger] d.phases[i]) is Locked || d.phases[i] is Fetching)
            ==> d.holder == Some(i)
    &&& forall|i: int|
        0 <= i < d.phases.len() && (#[trigger] d.phases[i]) is Fetching ==> d.cached is None
            && d.requests == 1
    &&& d.cached is Some ==> d.cached == Some(payload) && d.requests == 1
    &&& (d.cached is None && (forall|i: int|
        0 <= i < d.phases.len() ==> !((#[trigger] d.phases[i]) is Fetching))) ==> d.requests == 0
    &&& forall|i: int|
        0 <= i < d.phases.len() ==> ((#[trigger] d.phases[i]) matches Phase::Done { text } ==> text
            == payload)
}

/// Callers that have not moved are in order.
pub proof fn lemma_downloads_start(callers: nat, payload: Seq<char>)
    ensures
        spec_downloads_sound(spec_downloads_start(callers), payload),
{
}

/// Whichever caller moves next, the callers stay in order. So however the
/// moves of the callers interleave,
/// at most one request goes to the network, and every caller that is done
/// has handed out what the network served.
pub proof fn lemma_downloads_move(d: Downloads, i: int, payload: Seq<char>)
    requires
        spec_downloads_sound(d, payload),
    ensures
        spec_downloads_sound(spec_downloads_move(d, i, payload), payload),
        spec_downloads_move(d, i, payload).requests <= 1,
        d.requests <= 1,
{
    let e = spec_downloads_move(d, i, payload);
    if 0 <= i < d.phases.len() {
        assert(e.phases.len() == d.phases.len());
        assert forall|j: int| 0 <= j < e.phases.len() && j != i implies #[trigger] e.phases[j]
            == d.phases[j] by {}
        match d.phases[i] {
            Phase::Fetching => {
                assert(d.holder == Some(i));
            },
            Phase::Locked => {
                assert(d.holder == Some(i));
                if d.cached is None {
                    assert(e.phases[i] is Fetching);
                }
            },
            _ => {},
        }
    }
}

/// Once the cache holds the text, a caller that starts hands it out at
/// its first move and sends no request.
pub proof fn lemma_downloads_later(d: Downloads, i: int, payload: Seq<char>)
    requires
        spec_downloads_sound(d, payload),
        d.cached is Some,
        0 <= i < d.phases.len(),
        d.phases[i] is Start,
    ensures
        spec_downloads_move(d, i, payload).phases[i] == (Phase::Done { text: payload }),
        spec_downloads_move(d, i, payload).requests == d.requests,
{
}

} // verus!
