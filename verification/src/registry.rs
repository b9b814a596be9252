//! A registry that is served over HTTP.

use vstd::hash_set::StringHashSet;
use vstd::prelude::*;

use crate::downloads::{
    lemma_outcome_wf, lemma_same_path_wf, progress_message, progress_position, Downloads, DownloadsModel, Progress,
    APPROXIMATE_TREE_DEPTH,
};
use crate::login::{parse_url, url_text};
use crate::path::{path_key, IndexPath, PathModel};
use crate::response::{
    outcome_view, verdict, DownloadError, DownloadErrorModel, LoadError, Outcome, OutcomeModel,
    StatusCode, Transfer, TransferModel,
};
use crate::text::{chars_of, ends_in_slash, same_text};
use crate::wait::WaitAction;

verus! {

/// What the URL of a source starts with if it is served over HTTP.
pub const SPARSE_PREFIX: &'static str = "sparse+";

/// What the configuration of the client says.
#[derive(Clone, Copy, Debug)]
pub struct Config {
    /// Whether registries that are served over HTTP are enabled.
    pub sparse_registry: bool,
    /// Whether registries that ask for authorization are enabled.
    pub registry_auth: bool,
    /// Whether index files are never updated.
    pub no_index_update: bool,
    /// Whether the network is not to be used.
    pub offline: bool,
}

/// A source of packages.
#[derive(Debug)]
pub struct SourceId {
    pub url: String,
    /// Whether the source is a registry that is served over HTTP.
    pub sparse: bool,
}

/// What the `config.json` of a registry says.
#[derive(Debug)]
pub struct RegistryConfig {
    /// Where to download packages.
    pub dl: String,
    /// Where the API is, if there is one.
    pub api: Option<String>,
    /// Whether all requests need authorization.
    pub auth_required: bool,
}

/// What [`RegistryConfig`] holds.
#[verifier::ext_equal]
pub ghost struct RegistryConfigModel {
    pub dl: Seq<char>,
    pub api: Option<Seq<char>>,
    pub auth_required: bool,
}

impl View for RegistryConfig {
    type V = RegistryConfigModel;

    open spec fn view(&self) -> RegistryConfigModel {
        RegistryConfigModel {
            dl: self.dl@,
            api: self.api.deep_view(),
            auth_required: self.auth_required,
        }
    }
}

impl DeepView for RegistryConfig {
    type V = RegistryConfigModel;

    open spec fn deep_view(&self) -> RegistryConfigModel {
        self@
    }
}

impl RegistryConfig {
    /// The same configuration again.
    pub fn copy(&self) -> (copy: RegistryConfig)
        ensures
            copy@ == self@,
            copy.dl@ == self.dl@,
            copy.api.deep_view() == self.api.deep_view(),
            copy.auth_required == self.auth_required,
    {
        let api = match &self.api {
            Some(api) => Some(api.clone()),
            None => None,
        };
        RegistryConfig { dl: self.dl.clone(), api, auth_required: self.auth_required }
    }
}

/// Why there is no registry for a source.
#[derive(Debug)]
pub enum NewError {
    /// Registries that are served over HTTP have to be enabled first.
    SparseRegistryUnstable,
    /// The URL of the source does not end in a slash.
    UrlWithoutSlash { url: String },
}

impl NewError {
    /// What the user is told.
    pub fn message(&self) -> (text: String)
        ensures
            text@ == (match self {
                NewError::SparseRegistryUnstable =>
                    "usage of sparse registries requires `-Z sparse-registry`"@,
                NewError::UrlWithoutSlash { url } =>
                    "sparse registry url must end in a slash `/`: "@ + url@,
            }),
    {
        match self {
            NewError::SparseRegistryUnstable => {
                "usage of sparse registries requires `-Z sparse-registry`".to_owned()
            },
            NewError::UrlWithoutSlash { url } => {
                let mut text = "sparse registry url must end in a slash `/`: ".to_owned();
                text.append(url.as_str());
                text
            },
        }
    }
}

/// A transfer that ended.
#[derive(Debug)]
pub struct Ended {
    /// The download that it was made for.
    pub token: usize,
    pub transfer: Transfer,
    /// Whether an error is worth another try.
    pub retry: bool,
}

/// What [`Ended`] holds.
#[verifier::ext_equal]
pub ghost struct EndedModel {
    pub token: usize,
    pub transfer: TransferModel,
    pub retry: bool,
}

impl View for Ended {
    type V = EndedModel;

    open spec fn view(&self) -> EndedModel {
        EndedModel { token: self.token, transfer: self.transfer@, retry: self.retry }
    }
}

impl DeepView for Ended {
    type V = EndedModel;

    open spec fn deep_view(&self) -> EndedModel {
        self@
    }
}

/// A registry that is served over HTTP.
///
/// Each index file, such as `config.json` or `re/ge/regex`, is loaded from a server, which can be
/// one for static files. To find out whether a file changed would take a request each time. What
/// this costs is mitigated by conditional requests.
pub struct HttpRegistry {
    config: Config,
    /// The URL of the source.
    sid: String,
    /// The URL of the server, without the prefix. It always ends in a slash.
    url: String,
    /// Whether the client asked for an update. Only then the copies at hand are checked.
    requested_update: bool,
    /// The downloads of index files.
    downloads: Downloads,
    /// Whether requests can share a connection.
    multiplexing: bool,
    /// The keys of the paths that were fetched since the last update of the index.
    fresh: StringHashSet,
    /// Whether anything was fetched.
    fetch_started: bool,
    /// The configuration of the registry, once it is known.
    registry_config: Option<RegistryConfig>,
    /// Whether requests carry an authorization.
    auth_required: bool,
    /// Where to get a token.
    login_url: Option<String>,
}

/// What an [`HttpRegistry`] holds.
#[verifier::ext_equal]
pub ghost struct RegistryModel {
    pub config: Config,
    pub sid: Seq<char>,
    pub url: Seq<char>,
    pub requested_update: bool,
    pub downloads: DownloadsModel,
    pub multiplexing: bool,
    pub fresh: Set<Seq<char>>,
    pub fetch_started: bool,
    pub registry_config: Option<RegistryConfigModel>,
    pub auth_required: bool,
    pub login_url: Option<Seq<char>>,
}

impl RegistryModel {
    /// The registry at `url` for the source `sid`, before anything was loaded.
    pub open spec fn initial(config: Config, sid: Seq<char>, url: Seq<char>) -> RegistryModel {
        RegistryModel {
            config,
            sid,
            url,
            requested_update: false,
            downloads: DownloadsModel::empty(),
            multiplexing: false,
            fresh: Set::empty(),
            fetch_started: false,
            registry_config: None,
            auth_required: false,
            login_url: None,
        }
    }

    /// The URL of the server ends in a slash, the downloads are consistent, and a path that was
    /// fetched is neither pending nor has a result that was not taken.
    pub open spec fn wf(self) -> bool {
        &&& ends_in_slash(self.url)
        &&& self.downloads.wf()
        &&& forall|key: Seq<char>| #[trigger] self.fresh.contains(key) ==> self.downloads.idle(key)
    }

    /// Whether the path with the key `key` can be requested: it was not fetched, is not being
    /// fetched, and has no result.
    pub open spec fn idle(self, key: Seq<char>) -> bool {
        &&& self.downloads.idle(key)
        &&& !self.fresh.contains(key)
    }

    /// Whether the copy at hand of the path with the key `key` need not be checked.
    pub open spec fn is_fresh(self, key: Seq<char>) -> bool {
        ||| !self.requested_update
        ||| self.config.no_index_update
        ||| self.config.offline
        ||| self.fresh.contains(key)
    }

    /// The URL of `path`.
    pub open spec fn full_url(self, path: PathModel) -> Seq<char> {
        self.url + path.text
    }

    /// With the transfer of the download `token` ended as `transfer`, where an error is worth
    /// another try if `retry` says so.
    pub open spec fn after_transfer(
        self,
        token: usize,
        transfer: TransferModel,
        retry: bool,
    ) -> RegistryModel {
        RegistryModel {
            downloads: self.downloads.after_transfer(
                token,
                self.full_url(self.downloads.pending[token].path),
                transfer,
                retry,
            ),
            ..self
        }
    }

    /// With the transfers `ended` ended, one after the other.
    pub open spec fn after_transfers(self, ended: Seq<EndedModel>) -> RegistryModel
        decreases ended.len(),
    {
        if ended.len() == 0 {
            self
        } else {
            let last = ended.last();
            self.after_transfers(ended.drop_last()).after_transfer(
                last.token,
                last.transfer,
                last.retry,
            )
        }
    }

    /// Whether the transfer `ended` is to be made again.
    pub open spec fn is_tried_again(self, ended: EndedModel) -> bool {
        let download = self.downloads.pending[ended.token];
        &&& ended.retry
        &&& verdict(ended.transfer, self.full_url(download.path), download.data) is Err
    }

    /// Whether the transfer `ended` is in vain: it ended in an error and is not to be made again.
    pub open spec fn is_in_vain(self, ended: EndedModel) -> bool {
        let download = self.downloads.pending[ended.token];
        &&& !ended.retry
        &&& verdict(ended.transfer, self.full_url(download.path), download.data) is Err
    }

    /// How many of `ended` are in vain.
    pub open spec fn in_vain(self, ended: Seq<EndedModel>) -> nat
        decreases ended.len(),
    {
        if ended.len() == 0 {
            0
        } else {
            self.in_vain(ended.drop_last()) + if self.is_in_vain(ended.last()) {
                1nat
            } else {
                0
            }
        }
    }

    /// Whether the download `token` ends with one of `ended`.
    pub open spec fn finishes(self, ended: Seq<EndedModel>, token: usize) -> bool {
        exists|i: int|
            0 <= i < ended.len() && (#[trigger] ended[i]).token == token && !self.is_tried_again(
                ended[i],
            )
    }

    /// What the download of the transfer `ended` comes to.
    pub open spec fn outcome_of(self, ended: EndedModel) -> OutcomeModel {
        self.downloads.outcome(
            ended.token,
            self.full_url(self.downloads.pending[ended.token].path),
            ended.transfer,
        )
    }

    /// The tokens of those of `ended` that are to be made again, in order.
    pub open spec fn tried_again(self, ended: Seq<EndedModel>) -> Seq<usize>
        decreases ended.len(),
    {
        if ended.len() == 0 {
            Seq::empty()
        } else {
            let earlier = self.tried_again(ended.drop_last());
            if self.is_tried_again(ended.last()) {
                earlier.push(ended.last().token)
            } else {
                earlier
            }
        }
    }

    /// Whether `ended` are the transfers of pending downloads, of each one at most.
    pub open spec fn can_end(self, ended: Seq<EndedModel>) -> bool {
        &&& forall|i: int|
            0 <= i < ended.len() ==> self.downloads.pending.contains_key(
                (#[trigger] ended[i]).token,
            )
        &&& forall|i: int, j: int|
            0 <= i < j < ended.len() ==> (#[trigger] ended[i]).token != (#[trigger] ended[j]).token
    }

    /// With every copy at hand to be checked.
    pub open spec fn invalidated(self) -> RegistryModel {
        RegistryModel { fresh: Set::empty(), requested_update: true, ..self }
    }
}

impl View for HttpRegistry {
    type V = RegistryModel;

    closed spec fn view(&self) -> RegistryModel {
        RegistryModel {
            config: self.config,
            sid: self.sid@,
            url: self.url@,
            requested_update: self.requested_update,
            downloads: self.downloads@,
            multiplexing: self.multiplexing,
            fresh: self.fresh@,
            fetch_started: self.fetch_started,
            registry_config: self.registry_config.deep_view(),
            auth_required: self.auth_required,
            login_url: self.login_url.deep_view(),
        }
    }
}

fn has_slash_at_end(s: &str) -> (r: bool)
    ensures
        r == ends_in_slash(s@),
{
    let chars = chars_of(s);
    chars.len() > 0 && chars[chars.len() - 1] == '/'
}

/// What follows `prefix` in `s`, if `s` starts with it.
pub open spec fn after_prefix(s: Seq<char>, prefix: Seq<char>) -> Option<Seq<char>> {
    if prefix.is_prefix_of(s) {
        Some(s.skip(prefix.len() as int))
    } else {
        None
    }
}

fn strip_prefix<'a>(s: &'a str, prefix: &str) -> (rest: Option<&'a str>)
    ensures
        rest.deep_view() == after_prefix(s@, prefix@),
{
    let len: usize = s.unicode_len();
    let skipped: usize = prefix.unicode_len();
    if skipped > len {
        return None;
    }
    let start = s.substring_char(0, skipped);
    assert(start@ =~= s@.take(skipped as int));
    if same_text(start, prefix) {
        let rest = s.substring_char(skipped, len);
        assert(rest@ =~= s@.skip(skipped as int));
        Some(rest)
    } else {
        None
    }
}

/// Whether `source` is served over HTTP, at a URL that follows the prefix in its own.
pub open spec fn served_over_http(source: SourceId) -> bool {
    &&& source.sparse
    &&& after_prefix(source.url@, SPARSE_PREFIX@) matches Some(url) && url_text(url) is Ok
}

/// The registry for `source`, or why there is none.
pub open spec fn opened(source: SourceId, config: Config) -> Result<RegistryModel, NewError> {
    if !config.sparse_registry {
        Err(NewError::SparseRegistryUnstable)
    } else if !ends_in_slash(source.url@) {
        Err(NewError::UrlWithoutSlash { url: source.url })
    } else {
        Ok(
            RegistryModel::initial(
                config,
                source.url@,
                url_text(after_prefix(source.url@, SPARSE_PREFIX@)->0)->Ok_0,
            ),
        )
    }
}

impl HttpRegistry {
    /// What holds of every registry.
    pub closed spec fn wf(&self) -> bool {
        &&& self.downloads.wf()
        &&& self@.wf()
    }

    /// The state of a registry is consistent.
    pub proof fn lemma_wf(&self)
        requires
            self.wf(),
        ensures
            self@.wf(),
    {
    }

    /// The registry for `source`, which is served at `url`.
    pub fn at(url: String, source: &SourceId, config: &Config) -> (registry: HttpRegistry)
        requires
            ends_in_slash(url@),
        ensures
            registry.wf(),
            registry@ == RegistryModel::initial(*config, source.url@, url@),
    {
        let registry = HttpRegistry {
            config: *config,
            sid: source.url.clone(),
            url,
            requested_update: false,
            downloads: Downloads::new(),
            multiplexing: false,
            fresh: StringHashSet::new(),
            fetch_started: false,
            registry_config: None,
            auth_required: false,
            login_url: None,
        };
        assert(registry@ =~= RegistryModel::initial(*config, source.url@, url@));
        registry
    }

    /// The registry for `source`.
    pub fn new(source: &SourceId, config: &Config) -> (r: Result<HttpRegistry, NewError>)
        requires
            config.sparse_registry && ends_in_slash(source.url@) ==> served_over_http(*source),
        ensures
            match r {
                Ok(registry) => registry.wf() && ends_in_slash(registry@.url) && opened(
                    *source,
                    *config,
                ) == Ok::<_, NewError>(registry@),
                Err(error) => opened(*source, *config) == Err::<RegistryModel, _>(error),
            },
    {
        if !config.sparse_registry {
            return Err(NewError::SparseRegistryUnstable);
        }
        // The URL has to end in a slash so that paths can follow it.
        if !has_slash_at_end(source.url.as_str()) {
            return Err(NewError::UrlWithoutSlash { url: source.url.clone() });
        }
        let stripped = strip_prefix(source.url.as_str(), SPARSE_PREFIX).unwrap();
        proof {
            reveal_strlit("sparse+");
            assert(source.url@.take(7) =~= SPARSE_PREFIX@);
            assert(source.url@[6] == SPARSE_PREFIX@[6]);
            assert(stripped@.last() == source.url@.last());
        }
        let url = match parse_url(stripped) {
            Ok(url) => url,
            Err(_) => {
                assert(false);
                vstd::pervasive::unreached()
            },
        };
        Ok(HttpRegistry::at(url, source, config))
    }

    /// The registry for `source`, unless it is enabled and `source` is not served over HTTP.
    pub fn open(source: &SourceId, config: &Config) -> (r: Option<Result<HttpRegistry, NewError>>)
        ensures
            r is None <==> config.sparse_registry && ends_in_slash(source.url@)
                && !served_over_http(*source),
            match r {
                Some(Ok(registry)) => registry.wf() && ends_in_slash(registry@.url) && opened(
                    *source,
                    *config,
                ) == Ok::<_, NewError>(registry@),
                Some(Err(error)) => opened(*source, *config) == Err::<RegistryModel, _>(error),
                None => true,
            },
    {
        if config.sparse_registry && has_slash_at_end(source.url.as_str()) {
            if !source.sparse {
                return None;
            }
            match strip_prefix(source.url.as_str(), SPARSE_PREFIX) {
                Some(stripped) => {
                    if parse_url(stripped).is_err() {
                        return None;
                    }
                },
                None => {
                    return None;
                },
            }
        }
        Some(HttpRegistry::new(source, config))
    }

    /// Whether the copy at hand of `path` need not be checked.
    pub fn is_fresh(&self, path: &IndexPath) -> (r: bool)
        ensures
            r == self@.is_fresh(path_key(path@)),
    {
        !self.requested_update || self.config.no_index_update || self.config.offline
            || self.fresh.contains(path.key())
    }

    /// Whether `path` was fetched since the last update of the index.
    pub fn was_fetched(&self, path: &IndexPath) -> (r: bool)
        ensures
            r == self@.fresh.contains(path_key(path@)),
    {
        self.fresh.contains(path.key())
    }

    /// The URL of `path`.
    pub fn full_url(&self, path: &IndexPath) -> (url: String)
        ensures
            url@ == self@.full_url(path@),
    {
        let mut url = self.url.clone();
        url.append(path.as_str());
        url
    }

    /// Whether the client asked for an update.
    pub fn is_updated(&self) -> (r: bool)
        ensures
            r == self@.requested_update,
    {
        self.requested_update
    }

    /// Has every copy at hand checked with the server before it is used again.
    pub fn invalidate_cache(&mut self)
        requires
            old(self).wf(),
        ensures
            final(self).wf(),
            final(self)@ == old(self)@.invalidated(),
    {
        self.fresh.clear();
        self.requested_update = true;
        assert(self@ =~= old(self)@.invalidated());
    }

    /// Fails if requests need authorization and that is not enabled.
    pub fn check_registry_auth_unstable(&self) -> (r: Result<(), LoadError>)
        ensures
            match r {
                Ok(_) => !self@.auth_required || self@.config.registry_auth,
                Err(error) => self@.auth_required && !self@.config.registry_auth && error
                    == LoadError::RegistryAuthUnstable,
            },
    {
        if self.auth_required && !self.config.registry_auth {
            Err(LoadError::RegistryAuthUnstable)
        } else {
            Ok(())
        }
    }

    /// The configuration of the registry, if it is known.
    pub fn known_config(&self) -> (config: Option<&RegistryConfig>)
        ensures
            config.deep_view() == self@.registry_config,
    {
        self.registry_config.as_ref()
    }

    /// Whether requests carry an authorization.
    pub fn needs_authorization(&self) -> (r: bool)
        ensures
            r == self@.auth_required,
    {
        self.auth_required
    }

    /// Where to get a token, if it is known.
    pub fn login_url(&self) -> (url: Option<String>)
        ensures
            url.deep_view() == self@.login_url,
    {
        match &self.login_url {
            Some(url) => Some(url.clone()),
            None => None,
        }
    }

    /// The downloads of index files.
    pub fn downloads(&self) -> (downloads: &Downloads)
        requires
            self.wf(),
        ensures
            downloads.wf(),
            downloads@ == self@.downloads,
    {
        &self.downloads
    }

    /// Takes note of data that arrived for the download `token`.
    pub fn receive_data(&mut self, token: usize, data: &[u8])
        requires
            old(self).wf(),
            old(self)@.downloads.pending.contains_key(token),
        ensures
            final(self).wf(),
            final(self)@ == (RegistryModel {
                downloads: old(self)@.downloads.with_data(token, data@),
                ..old(self)@
            }),
    {
        self.downloads.receive_data(token, data);
        proof {
            self.downloads.lemma_wf();
            lemma_same_paths_wf(old(self)@, self@);
        }
    }

    /// Takes note of a header line that arrived for the download `token`.
    pub fn receive_header(&mut self, token: usize, line: &[u8])
        requires
            old(self).wf(),
            old(self)@.downloads.pending.contains_key(token),
        ensures
            final(self).wf(),
            final(self)@ == (RegistryModel {
                downloads: old(self)@.downloads.with_header(token, line@),
                ..old(self)@
            }),
    {
        self.downloads.receive_header(token, line);
        proof {
            self.downloads.lemma_wf();
            lemma_same_paths_wf(old(self)@, self@);
        }
    }

    /// What the download `token` comes to if its transfer ends as `transfer`.
    pub fn judge_transfer(&self, token: usize, transfer: &Transfer) -> (r: Result<
        StatusCode,
        DownloadError,
    >)
        requires
            self.wf(),
            self@.downloads.pending.contains_key(token),
        ensures
            ({
                let download = self@.downloads.pending[token];
                let expected = verdict(transfer@, self@.full_url(download.path), download.data);
                match r {
                    Ok(status) => expected == Ok::<_, DownloadErrorModel>(status),
                    Err(error) => expected == Err::<StatusCode, _>(error@),
                }
            }),
    {
        let url = self.full_url(self.downloads.pending_path(token));
        self.downloads.judge(token, url.as_str(), transfer)
    }

    /// Takes note that the transfer of the download `token` ended as `transfer`, and says whether it
    /// is to be made again.
    ///
    /// If it ended in an error, and `retry` says that it is worth another try, the download stays
    /// pending. Else its result is kept until it is loaded.
    pub fn handle_completed_download(
        &mut self,
        token: usize,
        transfer: &Transfer,
        retry: bool,
    ) -> (again: bool)
        requires
            old(self).wf(),
            old(self)@.downloads.pending.contains_key(token),
            old(self)@.downloads.downloads_finished < usize::MAX,
        ensures
            final(self).wf(),
            final(self)@ == old(self)@.after_transfer(token, transfer@, retry),
            ({
                let download = old(self)@.downloads.pending[token];
                again == (retry && verdict(
                    transfer@,
                    old(self)@.full_url(download.path),
                    download.data,
                ) is Err)
            }),
    {
        let url = self.full_url(self.downloads.pending_path(token));
        let again = self.downloads.finish_transfer(token, url.as_str(), transfer, retry);
        proof {
            self.downloads.lemma_wf();
            old(self).downloads.lemma_wf();
            assert(self@ =~= old(self)@.after_transfer(token, transfer@, retry));
            lemma_after_transfer_wf(old(self)@, token, transfer@, retry);
        }
        again
    }

    /// Takes note that the transfers `ended` ended, and says which are to be made again and how far
    /// the downloads are then.
    pub fn handle_completed_downloads(&mut self, ended: &Vec<Ended>) -> (r: (Vec<usize>, Progress))
        requires
            old(self).wf(),
            old(self)@.can_end(ended.deep_view()),
            old(self)@.downloads.downloads_finished + ended.len() <= usize::MAX,
        ensures
            final(self).wf(),
            final(self)@ == old(self)@.after_transfers(ended.deep_view()),
            r.0@ == old(self)@.tried_again(ended.deep_view()),
            r.1.cur == progress_position(final(self)@.downloads.blocking_calls),
            r.1.max == APPROXIMATE_TREE_DEPTH + 1,
            r.1.message@ == progress_message(
                final(self)@.downloads.downloads_finished,
                final(self)@.downloads.pending.len(),
            ),
    {
        let ghost before = old(self)@;
        let ghost all = ended.deep_view();
        let mut again: Vec<usize> = Vec::new();
        let mut i: usize = 0;
        assert(again@ =~= before.tried_again(all.take(0)));
        while i < ended.len()
            invariant
                before == old(self)@,
                all == ended.deep_view(),
                i <= ended.len(),
                before.can_end(all),
                before.downloads.downloads_finished + ended.len() <= usize::MAX,
                self.wf(),
                self@ == before.after_transfers(all.take(i as int)),
                again@ == before.tried_again(all.take(i as int)),
            decreases ended.len() - i,
        {
            proof {
                assert(all[i as int] == ended[i as int]@);
                assert(all.take(i + 1).drop_last() =~= all.take(i as int));
                assert forall|j: int| 0 <= j < i implies (#[trigger] all.take(i as int)[j]).token
                    != all[i as int].token by {
                    assert(all[j].token != all[i as int].token);
                }
                lemma_other_transfers(before, all.take(i as int), all[i as int].token);
            }
            let Ended { token, transfer, retry } = &ended[i];
            if self.handle_completed_download(*token, transfer, *retry) {
                again.push(*token);
            }
            i = i + 1;
        }
        assert(all.take(i as int) =~= all);
        let progress = self.downloads.tick();
        (again, progress)
    }

    /// Takes note that the caller waits until files are ready.
    ///
    /// What is to be done first is given back; [`crate::wait::wait_step`] says what follows.
    pub fn block_until_ready(&mut self) -> (action: WaitAction)
        requires
            old(self).wf(),
            old(self)@.downloads.blocking_calls < usize::MAX,
        ensures
            action == WaitAction::Collect,
            final(self).wf(),
            final(self)@ == (RegistryModel {
                downloads: DownloadsModel {
                    blocking_calls: old(self)@.downloads.blocking_calls + 1,
                    ..old(self)@.downloads
                },
                ..old(self)@
            }),
    {
        self.downloads.count_blocking();
        proof {
            self.downloads.lemma_wf();
            lemma_same_paths_wf(old(self)@, self@);
        }
        WaitAction::Collect
    }

    /// The URL of the source.
    pub(crate) fn sid(&self) -> (sid: String)
        ensures
            sid@ == self@.sid,
    {
        self.sid.clone()
    }

    /// Whether anything was fetched.
    pub(crate) fn has_started(&self) -> (r: bool)
        ensures
            r == self@.fetch_started,
    {
        self.fetch_started
    }

    /// Whether requests can share a connection.
    pub(crate) fn multiplexes(&self) -> (r: bool)
        ensures
            r == self@.multiplexing,
    {
        self.multiplexing
    }

    /// Takes note that fetching starts.
    pub(crate) fn set_started(&mut self)
        requires
            old(self).wf(),
        ensures
            final(self).wf(),
            final(self)@ == (RegistryModel { fetch_started: true, ..old(self)@ }),
    {
        self.fetch_started = true;
    }

    /// Sets whether requests can share a connection.
    pub(crate) fn set_multiplexing(&mut self, multiplexing: bool)
        requires
            old(self).wf(),
        ensures
            final(self).wf(),
            final(self)@ == (RegistryModel { multiplexing, ..old(self)@ }),
    {
        self.multiplexing = multiplexing;
    }

    /// Sets whether requests carry an authorization.
    pub(crate) fn set_authorization(&mut self, auth_required: bool)
        requires
            old(self).wf(),
        ensures
            final(self).wf(),
            final(self)@ == (RegistryModel { auth_required, ..old(self)@ }),
    {
        self.auth_required = auth_required;
    }

    /// Sets where to get a token.
    pub(crate) fn set_login_url(&mut self, login_url: Option<String>)
        requires
            old(self).wf(),
        ensures
            final(self).wf(),
            final(self)@ == (RegistryModel { login_url: login_url.deep_view(), ..old(self)@ }),
    {
        self.login_url = login_url;
    }

    /// Sets the configuration of the registry.
    pub(crate) fn set_registry_config(&mut self, config: RegistryConfig)
        requires
            old(self).wf(),
        ensures
            final(self).wf(),
            final(self)@ == (RegistryModel { registry_config: Some(config@), ..old(self)@ }),
    {
        self.registry_config = Some(config);
    }

    /// Takes the result for `path`, if there is one.
    pub(crate) fn take_result(&mut self, path: &IndexPath) -> (outcome: Option<Outcome>)
        requires
            old(self).wf(),
        ensures
            final(self).wf(),
            final(self)@ == (RegistryModel {
                downloads: old(self)@.downloads.without_result(path_key(path@)),
                ..old(self)@
            }),
            match outcome {
                Some(outcome) => old(self)@.downloads.results.contains_key(path_key(path@))
                    && outcome_view(outcome) == old(self)@.downloads.results[path_key(path@)],
                None => !old(self)@.downloads.results.contains_key(path_key(path@)),
            },
    {
        let outcome = self.downloads.take_result(path);
        proof {
            self.downloads.lemma_wf();
        }
        outcome
    }

    /// Takes note that `path` was fetched.
    pub(crate) fn mark_fetched(&mut self, path: &IndexPath)
        requires
            old(self).wf(),
            old(self)@.downloads.idle(path_key(path@)),
        ensures
            final(self).wf(),
            final(self)@ == (RegistryModel {
                fresh: old(self)@.fresh.insert(path_key(path@)),
                ..old(self)@
            }),
    {
        self.fresh.insert(path.key().to_owned());
    }

    /// Uses up a token.
    pub(crate) fn take_token(&mut self) -> (token: usize)
        requires
            old(self).wf(),
            old(self)@.downloads.next < usize::MAX,
        ensures
            final(self).wf(),
            final(self)@ == (RegistryModel {
                downloads: old(self)@.downloads.with_token(),
                ..old(self)@
            }),
            token == old(self)@.downloads.next,
    {
        let token = self.downloads.take_token();
        proof {
            self.downloads.lemma_wf();
            lemma_same_paths_wf(old(self)@, self@);
        }
        token
    }

    /// Takes note that the download `token` of `path` is under way.
    pub(crate) fn add_pending(&mut self, token: usize, path: &IndexPath)
        requires
            old(self).wf(),
            token < old(self)@.downloads.next,
            !old(self)@.downloads.pending.contains_key(token),
            old(self)@.idle(path_key(path@)),
        ensures
            final(self).wf(),
            final(self)@ == (RegistryModel {
                downloads: old(self)@.downloads.with_pending(token, path@),
                ..old(self)@
            }),
    {
        self.downloads.add_pending(token, path);
        proof {
            self.downloads.lemma_wf();
        }
    }
}

/// The end of other transfers does not change the download `token`.
pub proof fn lemma_other_transfers(registry: RegistryModel, ended: Seq<EndedModel>, token: usize)
    requires
        forall|i: int| 0 <= i < ended.len() ==> (#[trigger] ended[i]).token != token,
    ensures
        ({
            let after = registry.after_transfers(ended);
            &&& after.downloads.pending.contains_key(token)
                == registry.downloads.pending.contains_key(token)
            &&& after.downloads.pending[token] == registry.downloads.pending[token]
            &&& after.url == registry.url
            &&& after.downloads.downloads_finished <= registry.downloads.downloads_finished
                + ended.len()
        }),
    decreases ended.len(),
{
    if ended.len() > 0 {
        let earlier = ended.drop_last();
        assert forall|i: int| 0 <= i < earlier.len() implies (#[trigger] earlier[i]).token
            != token by {
            assert(ended[i].token != token);
        }
        lemma_other_transfers(registry, earlier, token);
        assert(ended.last() == ended[ended.len() - 1]);
    }
}

/// The end of a transfer keeps the registry consistent.
pub proof fn lemma_after_transfer_wf(
    registry: RegistryModel,
    token: usize,
    transfer: TransferModel,
    retry: bool,
)
    requires
        registry.wf(),
        registry.downloads.pending.contains_key(token),
    ensures
        registry.after_transfer(token, transfer, retry).wf(),
{
    let before = registry.downloads;
    let after = registry.after_transfer(token, transfer, retry);
    let outcome = before.outcome(token, registry.full_url(before.pending[token].path), transfer);
    if retry && outcome is Err {
        lemma_same_path_wf(before, token, before.with_retry(token).pending[token]);
        lemma_same_paths_wf(registry, after);
    } else {
        lemma_outcome_wf(before, token, outcome);
        assert(before.pending_paths.contains(before.key(token)));
    }
}

/// What changes the downloads but no path keeps the registry consistent.
proof fn lemma_same_paths_wf(before: RegistryModel, after: RegistryModel)
    requires
        before.wf(),
        after.downloads.wf(),
        after.url == before.url,
        after.fresh == before.fresh,
        after.downloads.pending_paths == before.downloads.pending_paths,
        after.downloads.results == before.downloads.results,
    ensures
        after.wf(),
{
    assert forall|key: Seq<char>| #[trigger] after.fresh.contains(key) implies after.downloads.idle(
        key,
    ) by {
        assert(before.fresh.contains(key));
    }
}

} // verus!
