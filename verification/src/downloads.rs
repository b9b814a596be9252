//! The downloads of index files.

use std::collections::HashMap;
use vstd::hash_set::StringHashSet;
use vstd::prelude::*;

use crate::header::{header_line, Headers, HeadersModel};
use crate::path::{path_key, IndexPath, PathModel};
use crate::path_map::PathMap;
use crate::response::{
    judge, outcome_view, verdict, CompletedDownload, CompletedDownloadModel, DownloadError,
    DownloadErrorModel, Outcome, OutcomeModel, StatusCode, Transfer, TransferModel,
};
use crate::text::{append_decimal, decimal};

verus! {

broadcast use vstd::std_specs::hash::group_hash_axioms;

/// How deep the graph of dependencies is taken to be.
///
/// Since dependencies are discovered on the way, the progress is based on how often the caller
/// asked for blocking. If the graph is deeper, the progress gets stuck; if it is less deep, it
/// ends early. It never goes backwards.
pub const APPROXIMATE_TREE_DEPTH: usize = 10;

/// A download that is under way.
pub struct Download {
    /// The path of the file.
    path: IndexPath,
    /// The data that arrived so far.
    data: Vec<u8>,
    /// The headers that arrived so far.
    header_map: Headers,
}

/// What a [`Download`] holds.
#[verifier::ext_equal]
pub ghost struct DownloadModel {
    pub path: PathModel,
    pub data: Seq<u8>,
    pub header_map: HeadersModel,
}

impl View for Download {
    type V = DownloadModel;

    closed spec fn view(&self) -> DownloadModel {
        DownloadModel { path: self.path@, data: self.data@, header_map: self.header_map@ }
    }
}

/// Helper for downloading index files.
pub struct Downloads {
    /// The downloads under way, by their tokens.
    pending: HashMap<usize, Download>,
    /// The keys of the paths that are being downloaded, in sync with `pending`.
    pending_paths: StringHashSet,
    /// The final result of each download that ended, until it is taken.
    results: PathMap<Outcome>,
    /// The token of the next download.
    next: usize,
    /// How many downloads have successfully finished.
    downloads_finished: usize,
    /// How often the caller asked for blocking.
    blocking_calls: usize,
}

/// What [`Downloads`] hold. Paths stand as their keys, but for those of the pending downloads.
#[verifier::ext_equal]
pub ghost struct DownloadsModel {
    pub pending: Map<usize, DownloadModel>,
    pub pending_paths: Set<Seq<char>>,
    pub results: Map<Seq<char>, OutcomeModel>,
    pub next: nat,
    pub downloads_finished: nat,
    pub blocking_calls: nat,
}

impl DownloadsModel {
    /// No downloads.
    pub open spec fn empty() -> DownloadsModel {
        DownloadsModel {
            pending: Map::empty(),
            pending_paths: Set::empty(),
            results: Map::empty(),
            next: 0,
            downloads_finished: 0,
            blocking_calls: 0,
        }
    }

    /// The key of the path that the download `token` is for.
    pub open spec fn key(self, token: usize) -> Seq<char> {
        path_key(self.pending[token].path)
    }

    /// The paths being downloaded are those of the pending downloads, each path has one pending
    /// download or one result or neither, and no token is used twice.
    pub open spec fn wf(self) -> bool {
        &&& self.pending.dom().finite()
        &&& forall|token: usize| #[trigger]
            self.pending.contains_key(token) ==> token < self.next && self.pending_paths.contains(
                self.key(token),
            )
        &&& forall|key: Seq<char>| #[trigger]
            self.pending_paths.contains(key) ==> exists|token: usize| #[trigger]
                self.pending.contains_key(token) && self.key(token) == key
        &&& forall|a: usize, b: usize| #[trigger]
            self.pending.contains_key(a) && #[trigger] self.pending.contains_key(b) && self.key(a)
                == self.key(b) ==> a == b
        &&& forall|key: Seq<char>| #[trigger]
            self.pending_paths.contains(key) ==> !self.results.contains_key(key)
    }

    /// Whether a download of the path with the key `key` can start.
    pub open spec fn idle(self, key: Seq<char>) -> bool {
        !self.pending_paths.contains(key) && !self.results.contains_key(key)
    }

    /// With one more token used.
    pub open spec fn with_token(self) -> DownloadsModel {
        DownloadsModel { next: self.next + 1, ..self }
    }

    /// With the download `token` of `path` under way.
    pub open spec fn with_pending(self, token: usize, path: PathModel) -> DownloadsModel {
        DownloadsModel {
            pending: self.pending.insert(
                token,
                DownloadModel { path, data: Seq::empty(), header_map: HeadersModel::empty() },
            ),
            pending_paths: self.pending_paths.insert(path_key(path)),
            ..self
        }
    }

    /// With `download` in the place of the download `token`.
    pub open spec fn with_download(self, token: usize, download: DownloadModel) -> DownloadsModel {
        DownloadsModel { pending: self.pending.insert(token, download), ..self }
    }

    /// With `data` received for the download `token`.
    pub open spec fn with_data(self, token: usize, data: Seq<u8>) -> DownloadsModel {
        self.with_download(
            token,
            DownloadModel { data: self.pending[token].data + data, ..self.pending[token] },
        )
    }

    /// With the header line `line` received for the download `token`.
    pub open spec fn with_header(self, token: usize, line: Seq<u8>) -> DownloadsModel {
        self.with_download(
            token,
            DownloadModel {
                header_map: self.pending[token].header_map.with_line(line),
                ..self.pending[token]
            },
        )
    }

    /// With the download `token` about to be tried again.
    pub open spec fn with_retry(self, token: usize) -> DownloadsModel {
        self.with_download(
            token,
            DownloadModel { data: Seq::empty(), ..self.pending[token] },
        )
    }

    /// With the download `token` ended as `outcome`.
    pub open spec fn with_outcome(self, token: usize, outcome: OutcomeModel) -> DownloadsModel {
        DownloadsModel {
            pending: self.pending.remove(token),
            pending_paths: self.pending_paths.remove(self.key(token)),
            results: self.results.insert(self.key(token), outcome),
            downloads_finished: if outcome is Ok {
                self.downloads_finished + 1
            } else {
                self.downloads_finished
            },
            ..self
        }
    }

    /// What the download `token` comes to when its transfer from `url` ends as `transfer`.
    pub open spec fn outcome(
        self,
        token: usize,
        url: Seq<char>,
        transfer: TransferModel,
    ) -> OutcomeModel {
        let download = self.pending[token];
        match verdict(transfer, url, download.data) {
            Ok(response_code) => Ok(
                CompletedDownloadModel {
                    response_code,
                    data: download.data,
                    header_map: download.header_map,
                },
            ),
            Err(error) => Err(error),
        }
    }

    /// With the transfer of the download `token` from `url` ended as `transfer`, where an error is
    /// worth another try if `retry` says so.
    pub open spec fn after_transfer(
        self,
        token: usize,
        url: Seq<char>,
        transfer: TransferModel,
        retry: bool,
    ) -> DownloadsModel {
        let outcome = self.outcome(token, url, transfer);
        if retry && outcome is Err {
            self.with_retry(token)
        } else {
            self.with_outcome(token, outcome)
        }
    }

    /// Without the result for the key `key`.
    pub open spec fn without_result(self, key: Seq<char>) -> DownloadsModel {
        DownloadsModel { results: self.results.remove(key), ..self }
    }
}

impl View for Downloads {
    type V = DownloadsModel;

    closed spec fn view(&self) -> DownloadsModel {
        DownloadsModel {
            pending: self.pending@.map_values(|download: Download| download@),
            pending_paths: self.pending_paths@,
            results: self.results@.map_values(|outcome: Outcome| outcome_view(outcome)),
            next: self.next as nat,
            downloads_finished: self.downloads_finished as nat,
            blocking_calls: self.blocking_calls as nat,
        }
    }
}

/// How far the downloads are.
#[derive(Debug)]
pub struct Progress {
    pub cur: usize,
    pub max: usize,
    pub message: String,
}

/// How far the downloads are when the caller asked for blocking `blocking_calls` times.
pub open spec fn progress_position(blocking_calls: nat) -> nat {
    if blocking_calls < APPROXIMATE_TREE_DEPTH {
        blocking_calls
    } else {
        APPROXIMATE_TREE_DEPTH as nat
    }
}

/// The words that say how many downloads have successfully finished and how many are pending.
pub open spec fn progress_message(finished: nat, pending: nat) -> Seq<char> {
    " "@ + decimal(finished) + " complete; "@ + decimal(pending) + " pending"@
}

impl Downloads {
    /// What holds of all downloads.
    pub closed spec fn wf(&self) -> bool {
        &&& self.results.wf()
        &&& self@.wf()
    }

    /// The state of the downloads is consistent.
    pub proof fn lemma_wf(&self)
        requires
            self.wf(),
        ensures
            self@.wf(),
            self@.next <= usize::MAX,
            self@.downloads_finished <= usize::MAX,
            self@.blocking_calls <= usize::MAX,
    {
    }

    /// No downloads.
    pub fn new() -> (downloads: Downloads)
        ensures
            downloads.wf(),
            downloads@ == DownloadsModel::empty(),
    {
        let downloads = Downloads {
            pending: HashMap::new(),
            pending_paths: StringHashSet::new(),
            results: PathMap::new(),
            next: 0,
            downloads_finished: 0,
            blocking_calls: 0,
        };
        assert(downloads@ =~= DownloadsModel::empty());
        downloads
    }

    /// Whether `path` is being downloaded.
    pub fn is_path_pending(&self, path: &IndexPath) -> (r: bool)
        ensures
            r == self@.pending_paths.contains(path_key(path@)),
    {
        self.pending_paths.contains(path.key())
    }

    /// Whether there is a result for `path`.
    pub fn has_result(&self, path: &IndexPath) -> (r: bool)
        ensures
            r == self@.results.contains_key(path_key(path@)),
    {
        self.results.contains_key(path.key())
    }

    /// Whether the download `token` is under way.
    pub fn is_pending(&self, token: usize) -> (r: bool)
        ensures
            r == self@.pending.contains_key(token),
    {
        self.pending.contains_key(&token)
    }

    /// How many downloads are under way.
    pub fn pending_len(&self) -> (len: usize)
        ensures
            len == self@.pending.len(),
    {
        assert(self@.pending.dom() =~= self.pending@.dom());
        self.pending.len()
    }

    /// The token of the next download.
    pub fn next_token(&self) -> (token: usize)
        ensures
            token == self@.next,
    {
        self.next
    }

    /// How many downloads have successfully finished.
    pub fn finished(&self) -> (n: usize)
        ensures
            n == self@.downloads_finished,
    {
        self.downloads_finished
    }

    /// How often the caller asked for blocking.
    pub fn blocking(&self) -> (n: usize)
        ensures
            n == self@.blocking_calls,
    {
        self.blocking_calls
    }

    /// Uses up a token.
    pub fn take_token(&mut self) -> (token: usize)
        requires
            old(self).wf(),
            old(self)@.next < usize::MAX,
        ensures
            final(self).wf(),
            final(self)@ == old(self)@.with_token(),
            token == old(self)@.next,
    {
        let token: usize = self.next;
        self.next = token + 1;
        assert(self@ =~= old(self)@.with_token());
        token
    }

    /// Takes note that the download `token` of `path` is under way.
    pub fn add_pending(&mut self, token: usize, path: &IndexPath)
        requires
            old(self).wf(),
            token < old(self)@.next,
            !old(self)@.pending.contains_key(token),
            old(self)@.idle(path_key(path@)),
        ensures
            final(self).wf(),
            final(self)@ == old(self)@.with_pending(token, path@),
    {
        let download = Download {
            path: path.copy(),
            data: Vec::new(),
            header_map: Headers::new(),
        };
        self.pending_paths.insert(path.key().to_owned());
        self.pending.insert(token, download);
        proof {
            let before = old(self)@;
            let after = before.with_pending(token, path@);
            assert(self@.pending =~= after.pending);
            assert(self@ =~= after);
            assert(forall|t: usize| before.pending.contains_key(t) ==> after.key(t) == before.key(t));
            assert(after.key(token) == path_key(path@));
            assert forall|key: Seq<char>| #[trigger] after.pending_paths.contains(key) implies exists|
                t: usize,
            | #[trigger]
                after.pending.contains_key(t) && after.key(t) == key by {
                if key == path_key(path@) {
                    assert(after.pending.contains_key(token));
                } else {
                    assert(before.pending_paths.contains(key));
                    let t = choose|t: usize| #[trigger]
                        before.pending.contains_key(t) && before.key(t) == key;
                    assert(after.pending.contains_key(t));
                }
            }
        }
    }

    /// Takes the download `token` out of `pending`, without its path.
    fn detach(&mut self, token: usize) -> (download: Download)
        requires
            old(self).wf(),
            old(self)@.pending.contains_key(token),
        ensures
            final(self).results == old(self).results,
            final(self)@ == (DownloadsModel {
                pending: old(self)@.pending.remove(token),
                ..old(self)@
            }),
            download@ == old(self)@.pending[token],
    {
        let taken = self.pending.remove(&token);
        proof {
            assert(self@.pending =~= old(self)@.pending.remove(token));
            assert(self@ =~= DownloadsModel {
                pending: old(self)@.pending.remove(token),
                ..old(self)@
            });
        }
        match taken {
            Some(download) => download,
            None => {
                assert(false);
                vstd::pervasive::unreached()
            },
        }
    }

    /// Puts back the download `token`.
    fn attach(&mut self, token: usize, download: Download)
        ensures
            final(self).results == old(self).results,
            final(self)@ == old(self)@.with_download(token, download@),
    {
        self.pending.insert(token, download);
        proof {
            assert(self@.pending =~= old(self)@.pending.insert(token, download@));
            assert(self@ =~= old(self)@.with_download(token, download@));
        }
    }

    /// Takes note of data that arrived for the download `token`.
    pub fn receive_data(&mut self, token: usize, data: &[u8])
        requires
            old(self).wf(),
            old(self)@.pending.contains_key(token),
        ensures
            final(self).wf(),
            final(self)@ == old(self)@.with_data(token, data@),
    {
        let mut download = self.detach(token);
        let ghost before = download.data@;
        download.data.extend_from_slice(data);
        assert(download.data@ =~= before + data@);
        self.attach(token, download);
        proof {
            let after = old(self)@.with_data(token, data@);
            assert(self@.pending =~= after.pending);
            assert(self@ =~= after);
            lemma_same_path_wf(old(self)@, token, after.pending[token]);
        }
    }

    /// Takes note of a header line that arrived for the download `token`.
    pub fn receive_header(&mut self, token: usize, line: &[u8])
        requires
            old(self).wf(),
            old(self)@.pending.contains_key(token),
        ensures
            final(self).wf(),
            final(self)@ == old(self)@.with_header(token, line@),
    {
        let mut download = self.detach(token);
        download.header_map.record_line(line);
        self.attach(token, download);
        proof {
            let after = old(self)@.with_header(token, line@);
            assert(self@.pending =~= after.pending);
            assert(self@ =~= after);
            lemma_same_path_wf(old(self)@, token, after.pending[token]);
        }
    }

    /// The path that the download `token` is for.
    pub fn pending_path(&self, token: usize) -> (path: &IndexPath)
        requires
            self.wf(),
            self@.pending.contains_key(token),
        ensures
            path@ == self@.pending[token].path,
    {
        match self.pending.get(&token) {
            Some(download) => &download.path,
            None => {
                assert(false);
                vstd::pervasive::unreached()
            },
        }
    }

    /// What the download `token` comes to if its transfer from `url` ends as `transfer`.
    pub fn judge(&self, token: usize, url: &str, transfer: &Transfer) -> (r: Result<
        StatusCode,
        DownloadError,
    >)
        requires
            self.wf(),
            self@.pending.contains_key(token),
        ensures
            match r {
                Ok(status) => verdict(transfer@, url@, self@.pending[token].data) == Ok::<
                    _,
                    DownloadErrorModel,
                >(status),
                Err(error) => verdict(transfer@, url@, self@.pending[token].data) == Err::<
                    StatusCode,
                    _,
                >(error@),
            },
    {
        match self.pending.get(&token) {
            Some(download) => judge(transfer, url, &download.data),
            None => {
                assert(false);
                vstd::pervasive::unreached()
            },
        }
    }

    /// Takes note that the transfer of the download `token` from `url` ended as `transfer`, and says
    /// whether it is to be made again.
    ///
    /// If it ended in an error, and `retry` says that it is worth another try, the download stays
    /// pending: its data is dropped, its headers are kept. Else this is its result.
    pub fn finish_transfer(
        &mut self,
        token: usize,
        url: &str,
        transfer: &Transfer,
        retry: bool,
    ) -> (again: bool)
        requires
            old(self).wf(),
            old(self)@.pending.contains_key(token),
            old(self)@.downloads_finished < usize::MAX,
        ensures
            final(self).wf(),
            final(self)@ == old(self)@.after_transfer(token, url@, transfer@, retry),
            again == (retry && verdict(transfer@, url@, old(self)@.pending[token].data) is Err),
    {
        let ghost before = old(self)@;
        let verdict = self.judge(token, url, transfer);
        let mut download = self.detach(token);
        let outcome: Outcome = match verdict {
            Ok(response_code) => Ok(
                CompletedDownload {
                    response_code,
                    data: download.data,
                    header_map: download.header_map,
                },
            ),
            Err(error) => {
                if retry {
                    download.data = Vec::new();
                    self.attach(token, download);
                    proof {
                        let after = before.with_retry(token);
                        assert(after.pending[token].data =~= Seq::empty());
                        assert(self@.pending =~= after.pending);
                        assert(self@ =~= after);
                        lemma_same_path_wf(before, token, after.pending[token]);
                    }
                    return true;
                }
                Err(error)
            },
        };
        let key = download.path.key();
        proof {
            assert(before.pending_paths.contains(before.key(token)));
            assert(!self.results@.contains_key(key@)) by {
                assert(!before.results.contains_key(key@));
                assert(before.results.dom() =~= self.results@.dom());
            }
        }
        self.pending_paths.remove(key);
        if outcome.is_ok() {
            self.downloads_finished = self.downloads_finished + 1;
        }
        self.results.insert(key.to_owned(), outcome);
        proof {
            let after = before.with_outcome(token, outcome_view(outcome));
            assert(self@.results =~= after.results);
            assert(self@.pending_paths =~= after.pending_paths);
            assert(self@ =~= after);
            lemma_outcome_wf(before, token, outcome_view(outcome));
        }
        false
    }

    /// Takes the result for `path`, if there is one.
    pub fn take_result(&mut self, path: &IndexPath) -> (outcome: Option<Outcome>)
        requires
            old(self).wf(),
        ensures
            final(self).wf(),
            final(self)@ == old(self)@.without_result(path_key(path@)),
            match outcome {
                Some(outcome) => old(self)@.results.contains_key(path_key(path@)) && outcome_view(
                    outcome,
                ) == old(self)@.results[path_key(path@)],
                None => !old(self)@.results.contains_key(path_key(path@)),
            },
    {
        let outcome = self.results.remove(path.key());
        proof {
            let before = old(self)@;
            let after = before.without_result(path_key(path@));
            assert(self@.results =~= after.results);
            assert(self@ =~= after);
            assert(forall|t: usize| after.key(t) == before.key(t));
            assert forall|key: Seq<char>| #[trigger] after.pending_paths.contains(key) implies exists|
                t: usize,
            | #[trigger]
                after.pending.contains_key(t) && after.key(t) == key by {
                assert(before.pending_paths.contains(key));
            }
        }
        outcome
    }

    /// Takes note that the caller asked for blocking.
    pub fn count_blocking(&mut self)
        requires
            old(self).wf(),
            old(self)@.blocking_calls < usize::MAX,
        ensures
            final(self).wf(),
            final(self)@ == (DownloadsModel {
                blocking_calls: old(self)@.blocking_calls + 1,
                ..old(self)@
            }),
    {
        self.blocking_calls = self.blocking_calls + 1;
        assert(self@ =~= DownloadsModel {
            blocking_calls: old(self)@.blocking_calls + 1,
            ..old(self)@
        });
    }

    /// How far the downloads are.
    pub fn tick(&self) -> (progress: Progress)
        ensures
            progress.cur == progress_position(self@.blocking_calls),
            progress.max == APPROXIMATE_TREE_DEPTH + 1,
            progress.message@ == progress_message(
                self@.downloads_finished,
                self@.pending.len(),
            ),
    {
        let cur: usize = if self.blocking_calls < APPROXIMATE_TREE_DEPTH {
            self.blocking_calls
        } else {
            APPROXIMATE_TREE_DEPTH
        };
        let mut message = " ".to_owned();
        append_decimal(&mut message, self.downloads_finished);
        message.append(" complete; ");
        append_decimal(&mut message, self.pending_len());
        message.append(" pending");
        Progress { cur, max: APPROXIMATE_TREE_DEPTH + 1, message }
    }
}

/// A change of a download that keeps its path keeps the downloads consistent.
pub proof fn lemma_same_path_wf(before: DownloadsModel, token: usize, download: DownloadModel)
    requires
        before.wf(),
        before.pending.contains_key(token),
        download.path == before.pending[token].path,
    ensures
        before.with_download(token, download).wf(),
{
    let after = before.with_download(token, download);
    assert(after.pending.dom() =~= before.pending.dom());
    assert(forall|t: usize| before.pending.contains_key(t) ==> after.key(t) == before.key(t));
    assert forall|key: Seq<char>| #[trigger] after.pending_paths.contains(key) implies exists|
        t: usize,
    | #[trigger]
        after.pending.contains_key(t) && after.key(t) == key by {
        assert(before.pending_paths.contains(key));
        let t = choose|t: usize| #[trigger]
            before.pending.contains_key(t) && before.key(t) == key;
        assert(after.pending.contains_key(t));
    }
}

/// The end of a download keeps the downloads consistent.
pub proof fn lemma_outcome_wf(before: DownloadsModel, token: usize, outcome: OutcomeModel)
    requires
        before.wf(),
        before.pending.contains_key(token),
    ensures
        before.with_outcome(token, outcome).wf(),
{
    let after = before.with_outcome(token, outcome);
    assert(forall|t: usize| after.pending.contains_key(t) ==> after.key(t) == before.key(t));
    assert forall|t: usize| #[trigger] after.pending.contains_key(t) implies t < after.next
        && after.pending_paths.contains(after.key(t)) by {
        assert(before.pending.contains_key(t));
        assert(before.key(t) != before.key(token));
    }
    assert forall|key: Seq<char>| #[trigger] after.pending_paths.contains(key) implies exists|
        t: usize,
    | #[trigger]
        after.pending.contains_key(t) && after.key(t) == key by {
        assert(before.pending_paths.contains(key));
        let t = choose|t: usize| #[trigger]
            before.pending.contains_key(t) && before.key(t) == key;
        assert(after.pending.contains_key(t));
    }
    assert forall|a: usize, b: usize| #[trigger]
        after.pending.contains_key(a) && #[trigger] after.pending.contains_key(b) && after.key(a)
            == after.key(b) implies a == b by {
        assert(before.pending.contains_key(a));
        assert(before.pending.contains_key(b));
    }
}

/// There is nothing to begin with.
pub proof fn no_downloads_to_begin_with(token: usize, key: Seq<char>)
    ensures
        !DownloadsModel::empty().pending.contains_key(token),
        !DownloadsModel::empty().pending_paths.contains(key),
        !DownloadsModel::empty().results.contains_key(key),
        DownloadsModel::empty().next == 0,
        DownloadsModel::empty().downloads_finished == 0,
        DownloadsModel::empty().blocking_calls == 0,
{
}

/// A download starts without data and without headers, and its path is being downloaded from then
/// on. Nothing else changes.
pub proof fn download_starts_empty(
    downloads: DownloadsModel,
    token: usize,
    path: PathModel,
    other: usize,
    key: Seq<char>,
)
    ensures
        ({
            let after = downloads.with_pending(token, path);
            &&& after.pending.contains_key(token)
            &&& after.pending[token].path == path
            &&& after.pending[token].data.len() == 0
            &&& after.pending[token].header_map == HeadersModel::empty()
            &&& other != token ==> after.pending.contains_key(other)
                == downloads.pending.contains_key(other) && after.pending[other]
                == downloads.pending[other]
            &&& after.pending_paths.contains(key) <==> downloads.pending_paths.contains(key) || key
                == path_key(path)
            &&& after.results == downloads.results
            &&& after.next == downloads.next
            &&& after.downloads_finished == downloads.downloads_finished
            &&& after.blocking_calls == downloads.blocking_calls
        }),
{
}

/// Whether nothing changed from `before` to `after` but the download `token`, and that not in its
/// path.
pub open spec fn only_download_changed(
    before: DownloadsModel,
    after: DownloadsModel,
    token: usize,
) -> bool {
    &&& after.pending.dom() == before.pending.dom()
    &&& forall|other: usize|
        other != token ==> #[trigger] after.pending[other] == before.pending[other]
    &&& after.pending[token].path == before.pending[token].path
    &&& after.pending_paths == before.pending_paths
    &&& after.results == before.results
    &&& after.next == before.next
    &&& after.downloads_finished == before.downloads_finished
    &&& after.blocking_calls == before.blocking_calls
}

/// What arrives goes to the download that it arrives for, at the end of what arrived before.
pub proof fn arrival_goes_to_its_download(
    downloads: DownloadsModel,
    token: usize,
    data: Seq<u8>,
    line: Seq<u8>,
)
    requires
        downloads.pending.contains_key(token),
    ensures
        only_download_changed(downloads, downloads.with_data(token, data), token),
        downloads.with_data(token, data).pending[token].data == downloads.pending[token].data
            + data,
        downloads.with_data(token, data).pending[token].header_map
            == downloads.pending[token].header_map,
        only_download_changed(downloads, downloads.with_header(token, line), token),
        downloads.with_header(token, line).pending[token].data == downloads.pending[token].data,
        header_line(line) is None ==> downloads.with_header(token, line).pending[token].header_map
            == downloads.pending[token].header_map,
        header_line(line) matches Some((tag, value)) ==> downloads.with_header(
            token,
            line,
        ).pending[token].header_map == downloads.pending[token].header_map.with(tag, value),
{
    assert(downloads.with_data(token, data).pending.dom() =~= downloads.pending.dom());
    assert(downloads.with_header(token, line).pending.dom() =~= downloads.pending.dom());
}

/// A transfer that failed and is worth another try starts over: the data is dropped, the headers are
/// kept, and nothing else changes.
pub proof fn retry_starts_over(
    downloads: DownloadsModel,
    token: usize,
    url: Seq<char>,
    transfer: TransferModel,
)
    requires
        downloads.pending.contains_key(token),
        verdict(transfer, url, downloads.pending[token].data) is Err,
    ensures
        ({
            let after = downloads.after_transfer(token, url, transfer, true);
            &&& only_download_changed(downloads, after, token)
            &&& after.pending[token].data.len() == 0
            &&& after.pending[token].header_map == downloads.pending[token].header_map
        }),
{
    let after = downloads.after_transfer(token, url, transfer, true);
    assert(after.pending.dom() =~= downloads.pending.dom());
}

/// A transfer that ended for good leaves a result for its path, which holds what the download held,
/// or the error, and the download is gone. No other download and no other result changes.
pub proof fn end_leaves_a_result(
    downloads: DownloadsModel,
    token: usize,
    url: Seq<char>,
    transfer: TransferModel,
    retry: bool,
    other: usize,
    key: Seq<char>,
)
    requires
        downloads.pending.contains_key(token),
        retry ==> verdict(transfer, url, downloads.pending[token].data) is Ok,
    ensures
        ({
            let download = downloads.pending[token];
            let after = downloads.after_transfer(token, url, transfer, retry);
            let result = after.results[path_key(download.path)];
            &&& after.results.contains_key(path_key(download.path))
            &&& verdict(transfer, url, download.data) matches Ok(status) ==> {
                &&& result matches Ok(completed) && completed.response_code == status
                    && completed.data == download.data && completed.header_map
                    == download.header_map
                &&& after.downloads_finished == downloads.downloads_finished + 1
            }
            &&& verdict(transfer, url, download.data) matches Err(error) ==> {
                &&& result == Err::<CompletedDownloadModel, _>(error)
                &&& after.downloads_finished == downloads.downloads_finished
            }
            &&& key != path_key(download.path) ==> after.results.contains_key(key)
                == downloads.results.contains_key(key) && after.results[key]
                == downloads.results[key]
            &&& !after.pending.contains_key(token)
            &&& other != token ==> after.pending.contains_key(other)
                == downloads.pending.contains_key(other) && after.pending[other]
                == downloads.pending[other]
            &&& after.pending_paths.contains(key) <==> downloads.pending_paths.contains(key) && key
                != path_key(download.path)
            &&& after.next == downloads.next
            &&& after.blocking_calls == downloads.blocking_calls
        }),
{
}

/// A result that is taken is gone, and nothing else changes; a token that is taken is the next one.
pub proof fn taking_changes_nothing_else(downloads: DownloadsModel, key: Seq<char>, other: Seq<char>)
    ensures
        ({
            let after = downloads.without_result(key);
            &&& after.results.contains_key(other) <==> downloads.results.contains_key(other)
                && other != key
            &&& other != key ==> after.results[other] == downloads.results[other]
            &&& after == (DownloadsModel { results: after.results, ..downloads })
        }),
        downloads.with_token().next == downloads.next + 1,
        downloads.with_token() == (DownloadsModel {
            next: downloads.with_token().next,
            ..downloads
        }),
{
}

/// The progress is how often the caller asked for blocking, up to ten times, out of eleven; the
/// message says how many downloads have finished and how many are pending.
pub proof fn progress_counts_up_to_ten(blocking_calls: nat, finished: nat, pending: nat)
    ensures
        blocking_calls <= 10 ==> progress_position(blocking_calls) == blocking_calls,
        blocking_calls >= 10 ==> progress_position(blocking_calls) == 10,
        APPROXIMATE_TREE_DEPTH + 1 == 11,
        progress_message(finished, pending) == " "@ + decimal(finished) + " complete; "@ + decimal(
            pending,
        ) + " pending"@,
{
}

} // verus!
