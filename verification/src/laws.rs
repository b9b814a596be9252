//! What holds of the registry as a whole.

use vstd::prelude::*;
use vstd::utf8::decode_utf8;

use crate::downloads::{
    progress_position, DownloadModel, DownloadsModel, APPROXIMATE_TREE_DEPTH,
};
use crate::header::{header_line, HeadersModel};
use crate::load::{
    config_failed, ConfigForModel, PurposeModel, ReaderModel, RequestModel, StepModel,
};
use crate::login::{last_login, logins_of, LoginModel};
use crate::path::{config_key, config_path, path_key, PathModel};
use crate::registry::{
    lemma_after_transfer_wf, lemma_other_transfers, EndedModel, RegistryConfigModel, RegistryModel,
};
use crate::response::{
    status_of, AuthorizationErrorModel, CompletedDownloadModel, DownloadErrorModel,
    HttpNotSuccessfulModel, LoadErrorModel, LoadResponseModel, StatusCode, TransferModel,
};
use crate::text::{
    ends_in_slash, lemma_split_is_whole, lemma_trimmed_contains, lemma_trimmed_twice, split_at_first, trimmed,
    trimmed_end,
};
use crate::version::{
    line, request_headers, version_is_asked_about, version_of, IF_MODIFIED_SINCE, IF_NONE_MATCH,
};
use crate::wait::{wait_next, WaitAction, WaitEvent};

verus! {

/// The URL of a path is that of the server, which ends in a slash, and then the path.
pub proof fn path_follows_a_slash(registry: RegistryModel, path: PathModel)
    requires
        registry.wf(),
    ensures
        ends_in_slash(registry.url),
        registry.full_url(path) == registry.url + path.text,
{
}

/// There are as many pending downloads as paths that are being downloaded.
pub proof fn pending_is_in_sync(downloads: DownloadsModel)
    requires
        downloads.wf(),
    ensures
        downloads.pending_paths.finite(),
        downloads.pending.len() == downloads.pending_paths.len(),
    decreases downloads.pending.len(),
{
    let pending = downloads.pending;
    if pending.len() == 0 {
        assert(pending.dom() =~= Set::empty());
        assert forall|key: Seq<char>| !downloads.pending_paths.contains(key) by {
            if downloads.pending_paths.contains(key) {
                let token = choose|token: usize| #[trigger]
                    pending.contains_key(token) && downloads.key(token) == key;
                assert(pending.dom().contains(token));
            }
        }
        assert(downloads.pending_paths =~= Set::empty());
    } else {
        let token = pending.dom().choose();
        assert(pending.contains_key(token));
        let key = downloads.key(token);
        let rest = DownloadsModel {
            pending: pending.remove(token),
            pending_paths: downloads.pending_paths.remove(key),
            ..downloads
        };
        assert(rest.wf()) by {
            assert forall|t: usize| #[trigger] rest.pending.contains_key(t) implies t < rest.next
                && rest.pending_paths.contains(rest.key(t)) by {
                assert(pending.contains_key(t));
                assert(downloads.key(t) != key);
            }
            assert forall|k: Seq<char>| #[trigger] rest.pending_paths.contains(k) implies exists|
                t: usize,
            | #[trigger]
                rest.pending.contains_key(t) && rest.key(t) == k by {
                assert(downloads.pending_paths.contains(k));
                let t = choose|t: usize| #[trigger]
                    pending.contains_key(t) && downloads.key(t) == k;
                assert(rest.pending.contains_key(t));
            }
            assert forall|a: usize, b: usize| #[trigger]
                rest.pending.contains_key(a) && #[trigger] rest.pending.contains_key(b) && rest.key(
                    a,
                ) == rest.key(b) implies a == b by {
                assert(pending.contains_key(a) && pending.contains_key(b));
            }
        }
        pending_is_in_sync(rest);
        assert(downloads.pending_paths =~= rest.pending_paths.insert(key));
    }
}

/// A path is being downloaded, or has a result that was not taken, or was fetched, but no two of
/// these at once.
pub proof fn path_is_in_one_place(registry: RegistryModel, key: Seq<char>)
    requires
        registry.wf(),
    ensures
        !(registry.downloads.pending_paths.contains(key) && registry.downloads.results.contains_key(
            key,
        )),
        !(registry.downloads.pending_paths.contains(key) && registry.fresh.contains(key)),
        !(registry.downloads.results.contains_key(key) && registry.fresh.contains(key)),
{
}

/// To load a path that is being downloaded changes nothing.
pub proof fn pending_path_is_not_requested(
    registry: RegistryModel,
    path: PathModel,
    version: Option<Seq<char>>,
)
    requires
        registry.downloads.pending_paths.contains(path_key(path)),
    ensures
        registry.loading(path, version) == (registry, StepModel::Pending),
{
}

/// A path that was fetched is not requested again: a copy at hand is valid, and where there is none
/// there is no such file.
pub proof fn fetched_path_is_not_requested(
    registry: RegistryModel,
    path: PathModel,
    version: Option<Seq<char>>,
)
    requires
        registry.wf(),
        registry.fresh.contains(path_key(path)),
    ensures
        registry.loading(path, version) == (
            registry,
            StepModel::Loaded(
                Ok(
                    if version is Some {
                        LoadResponseModel::CacheValid
                    } else {
                        LoadResponseModel::NotFound
                    },
                ),
            ),
        ),
{
}

/// A copy at hand is valid, without a request, unless the client asked for an update and updates are
/// possible.
pub proof fn copy_is_used_without_update(
    registry: RegistryModel,
    path: PathModel,
    version: Seq<char>,
)
    requires
        !registry.requested_update || registry.config.no_index_update || registry.config.offline,
        !registry.downloads.pending_paths.contains(path_key(path)),
    ensures
        registry.loading(path, Some(version)) == (
            registry,
            StepModel::Loaded(Ok(LoadResponseModel::CacheValid)),
        ),
{
}

/// Once the caches are invalidated, no copy at hand is used unchecked, if updates are possible.
pub proof fn invalidated_copy_is_checked(
    registry: RegistryModel,
    path: PathModel,
    version: Option<Seq<char>>,
)
    requires
        registry.wf(),
        registry.downloads.idle(path_key(path)),
        !registry.config.no_index_update,
        !registry.config.offline,
    ensures
        registry.invalidated().wf(),
        !registry.invalidated().is_fresh(path_key(path)),
        !(registry.invalidated().loading(path, version).1 matches StepModel::Loaded(Ok(_))),
{
}

/// Something that arrives for a download.
pub ghost enum Arrival {
    Header(Seq<u8>),
    Data(Seq<u8>),
}

/// The downloads when `arrivals` arrived for the download `token`, in order.
pub open spec fn after_arrivals(
    downloads: DownloadsModel,
    token: usize,
    arrivals: Seq<Arrival>,
) -> DownloadsModel
    decreases arrivals.len(),
{
    if arrivals.len() == 0 {
        downloads
    } else {
        let before = after_arrivals(downloads, token, arrivals.drop_last());
        match arrivals.last() {
            Arrival::Header(line) => before.with_header(token, line),
            Arrival::Data(data) => before.with_data(token, data),
        }
    }
}

/// The data in `arrivals`, one piece after the other.
pub open spec fn body_of(arrivals: Seq<Arrival>) -> Seq<u8>
    decreases arrivals.len(),
{
    if arrivals.len() == 0 {
        Seq::empty()
    } else {
        let before = body_of(arrivals.drop_last());
        match arrivals.last() {
            Arrival::Header(_) => before,
            Arrival::Data(data) => before + data,
        }
    }
}

/// The headers in `arrivals`.
pub open spec fn headers_of(arrivals: Seq<Arrival>) -> HeadersModel
    decreases arrivals.len(),
{
    if arrivals.len() == 0 {
        HeadersModel::empty()
    } else {
        let before = headers_of(arrivals.drop_last());
        match arrivals.last() {
            Arrival::Header(line) => before.with_line(line),
            Arrival::Data(_) => before,
        }
    }
}

/// A download that just started holds what arrived for it, and no other download changed.
proof fn lemma_after_arrivals(
    downloads: DownloadsModel,
    token: usize,
    path: PathModel,
    arrivals: Seq<Arrival>,
)
    ensures
        after_arrivals(downloads.with_pending(token, path), token, arrivals)
            == downloads.with_pending(token, path).with_download(
            token,
            DownloadModel { path, data: body_of(arrivals), header_map: headers_of(arrivals) },
        ),
    decreases arrivals.len(),
{
    let started = downloads.with_pending(token, path);
    if arrivals.len() > 0 {
        lemma_after_arrivals(downloads, token, path, arrivals.drop_last());
    }
    let after = after_arrivals(started, token, arrivals);
    let expected = started.with_download(
        token,
        DownloadModel { path, data: body_of(arrivals), header_map: headers_of(arrivals) },
    );
    assert(after.pending =~= expected.pending);
    assert(after =~= expected);
}

/// A file is loaded as it arrived: when a path was requested, `arrivals` arrived for it, and its
/// transfer ended in success, then to load it gives its data, one piece after the other, with the
/// version that its headers say, and the path counts as fetched.
pub proof fn file_is_loaded_as_it_arrived(
    registry: RegistryModel,
    path: PathModel,
    token: usize,
    arrivals: Seq<Arrival>,
    effective_url: Result<Option<Seq<char>>, Seq<char>>,
    retry: bool,
    version: Option<Seq<char>>,
)
    requires
        registry.wf(),
        registry.idle(path_key(path)),
        version is None || !registry.is_fresh(path_key(path)),
    ensures
        ({
            let sent = RegistryModel {
                downloads: registry.downloads.with_pending(token, path),
                ..registry
            };
            let received = RegistryModel {
                downloads: after_arrivals(sent.downloads, token, arrivals),
                ..sent
            };
            let ended = received.after_transfer(
                token,
                TransferModel::Responded { code: 200, effective_url },
                retry,
            );
            let (loaded, step) = ended.loading(path, version);
            &&& step == StepModel::Loaded(
                Ok(
                    LoadResponseModel::Data {
                        raw_data: body_of(arrivals),
                        index_version: Some(version_of(headers_of(arrivals))),
                    },
                ),
            )
            &&& loaded.fresh == registry.fresh.insert(path_key(path))
        }),
{
    lemma_after_arrivals(registry.downloads, token, path, arrivals);
}

/// The result of a successful download is what the download held when it ended, with the version
/// that its headers say; once it is loaded, the path counts as fetched.
pub proof fn success_is_loaded(
    registry: RegistryModel,
    token: usize,
    effective_url: Result<Option<Seq<char>>, Seq<char>>,
    retry: bool,
    path: PathModel,
    version: Option<Seq<char>>,
)
    requires
        registry.wf(),
        registry.downloads.pending.contains_key(token),
        path_key(path) == registry.downloads.key(token),
        version is None || !registry.is_fresh(path_key(path)),
    ensures
        ({
            let download = registry.downloads.pending[token];
            let ended = registry.after_transfer(
                token,
                TransferModel::Responded { code: 200, effective_url },
                retry,
            );
            let (loaded, step) = ended.loading(path, version);
            &&& step == StepModel::Loaded(
                Ok(
                    LoadResponseModel::Data {
                        raw_data: download.data,
                        index_version: Some(version_of(download.header_map)),
                    },
                ),
            )
            &&& loaded.fresh.contains(path_key(path))
        }),
{
    assert(registry.downloads.pending_paths.contains(path_key(path)));
}

/// A path that the server does not have is not found, whichever of the codes for that it sends, and
/// is not requested again.
pub proof fn missing_file_is_not_found(
    registry: RegistryModel,
    token: usize,
    code: u32,
    effective_url: Result<Option<Seq<char>>, Seq<char>>,
    retry: bool,
    path: PathModel,
    version: Option<Seq<char>>,
)
    requires
        registry.wf(),
        registry.downloads.pending.contains_key(token),
        path_key(path) == registry.downloads.key(token),
        version is None || !registry.is_fresh(path_key(path)),
        code == 404 || code == 410 || code == 451,
    ensures
        ({
            let ended = registry.after_transfer(
                token,
                TransferModel::Responded { code, effective_url },
                retry,
            );
            let (loaded, step) = ended.loading(path, version);
            &&& step == StepModel::Loaded(Ok(LoadResponseModel::NotFound))
            &&& loaded.fresh.contains(path_key(path))
        }),
{
    assert(registry.downloads.pending_paths.contains(path_key(path)));
}

/// A copy at hand that the server says has not changed is valid.
pub proof fn unchanged_copy_is_valid(
    registry: RegistryModel,
    token: usize,
    effective_url: Result<Option<Seq<char>>, Seq<char>>,
    retry: bool,
    path: PathModel,
    version: Seq<char>,
)
    requires
        registry.wf(),
        registry.downloads.pending.contains_key(token),
        path_key(path) == registry.downloads.key(token),
    ensures
        registry.after_transfer(
            token,
            TransferModel::Responded { code: 304, effective_url },
            retry,
        ).loading(path, Some(version)).1 == StepModel::Loaded(Ok(LoadResponseModel::CacheValid)),
{
    assert(registry.downloads.pending_paths.contains(path_key(path)));
}

/// A download that is worth another try stays pending: its path keeps being downloaded, its data is
/// dropped and its headers are kept.
pub proof fn retried_download_stays_pending(
    registry: RegistryModel,
    token: usize,
    transfer: TransferModel,
)
    requires
        registry.wf(),
        registry.downloads.pending.contains_key(token),
        transfer matches TransferModel::Responded { code, .. } ==> status_of(code) is None,
    ensures
        ({
            let download = registry.downloads.pending[token];
            let after = registry.after_transfer(token, transfer, true);
            &&& after.downloads.pending == registry.downloads.pending.insert(
                token,
                DownloadModel { data: Seq::empty(), ..download },
            )
            &&& after.downloads.pending_paths == registry.downloads.pending_paths
            &&& after.downloads.results == registry.downloads.results
            &&& after.downloads.downloads_finished == registry.downloads.downloads_finished
        }),
{
}

/// What can end together can end but for the last.
proof fn lemma_can_end(registry: RegistryModel, ended: Seq<EndedModel>)
    requires
        registry.can_end(ended),
        ended.len() > 0,
    ensures
        registry.can_end(ended.drop_last()),
        forall|i: int|
            0 <= i < ended.len() - 1 ==> (#[trigger] ended.drop_last()[i]).token
                != ended.last().token,
        registry.downloads.pending.contains_key(ended.last().token),
{
    let earlier = ended.drop_last();
    assert forall|i: int| 0 <= i < earlier.len() implies registry.downloads.pending.contains_key(
        (#[trigger] earlier[i]).token,
    ) && earlier[i].token != ended.last().token by {
        assert(earlier[i] == ended[i]);
    }
    assert forall|i: int, j: int| 0 <= i < j < earlier.len() implies (#[trigger]
    earlier[i]).token != (#[trigger] earlier[j]).token by {
        assert(earlier[i] == ended[i] && earlier[j] == ended[j]);
    }
}

/// Each transfer that ends succeeds, is in vain or is made again, and those that succeed are
/// counted.
pub proof fn successful_transfers_are_counted(registry: RegistryModel, ended: Seq<EndedModel>)
    requires
        registry.can_end(ended),
    ensures
        registry.after_transfers(ended).downloads.downloads_finished + registry.in_vain(ended)
            + registry.tried_again(ended).len() == registry.downloads.downloads_finished
            + ended.len(),
    decreases ended.len(),
{
    if ended.len() > 0 {
        lemma_can_end(registry, ended);
        successful_transfers_are_counted(registry, ended.drop_last());
        lemma_other_transfers(registry, ended.drop_last(), ended.last().token);
    }
}

/// A path stops being downloaded when its final result appears: when transfers ended, the results
/// are those from before, unchanged, and one for each path that is no longer being downloaded, which
/// says what its transfer came to. No path starts being downloaded, and the downloads that are still
/// pending are those that did not end for good.
pub proof fn path_is_exchanged_for_its_result(registry: RegistryModel, ended: Seq<EndedModel>)
    requires
        registry.wf(),
        registry.can_end(ended),
    ensures
        ({
            let before = registry.downloads;
            let after = registry.after_transfers(ended).downloads;
            &&& registry.after_transfers(ended).wf()
            &&& after.pending_paths.subset_of(before.pending_paths)
            &&& after.pending_paths.disjoint(after.results.dom())
            &&& after.results.dom() == before.results.dom().union(
                before.pending_paths.difference(after.pending_paths),
            )
            &&& forall|key: Seq<char>| #[trigger]
                before.results.contains_key(key) ==> after.results[key] == before.results[key]
            &&& forall|i: int|
                0 <= i < ended.len() && !registry.is_tried_again(#[trigger] ended[i])
                    ==> after.results.contains_key(before.key(ended[i].token))
                    && after.results[before.key(ended[i].token)] == registry.outcome_of(ended[i])
            &&& forall|token: usize| #[trigger]
                after.pending.contains_key(token) <==> before.pending.contains_key(token)
                    && !registry.finishes(ended, token)
        }),
    decreases ended.len(),
{
    let before = registry.downloads;
    let after = registry.after_transfers(ended).downloads;
    if ended.len() == 0 {
        assert(after.results.dom() =~= before.results.dom().union(
            before.pending_paths.difference(after.pending_paths),
        ));
    } else {
        let earlier = ended.drop_last();
        let last = ended.last();
        let mid = registry.after_transfers(earlier);
        lemma_can_end(registry, ended);
        path_is_exchanged_for_its_result(registry, earlier);
        lemma_other_transfers(registry, earlier, last.token);
        lemma_after_transfer_wf(mid, last.token, last.transfer, last.retry);
        let key = before.key(last.token);
        assert(before.pending_paths.contains(key));
        assert(mid.downloads.pending_paths.contains(mid.downloads.key(last.token)));
        assert(ended[ended.len() - 1] == last);
        assert(after.results.dom() =~= before.results.dom().union(
            before.pending_paths.difference(after.pending_paths),
        ));
        assert forall|i: int| 0 <= i < ended.len() && !registry.is_tried_again(
            #[trigger] ended[i],
        ) implies after.results.contains_key(before.key(ended[i].token))
            && after.results[before.key(ended[i].token)] == registry.outcome_of(ended[i]) by {
            if i < earlier.len() {
                assert(earlier[i] == ended[i]);
                assert(before.pending.contains_key(ended[i].token));
                assert(before.key(ended[i].token) != key);
            }
        }
        assert forall|token: usize| #[trigger] after.pending.contains_key(token)
            <==> before.pending.contains_key(token) && !registry.finishes(ended, token) by {
            if registry.finishes(earlier, token) {
                let i = choose|i: int|
                    0 <= i < earlier.len() && (#[trigger] earlier[i]).token == token
                        && !registry.is_tried_again(earlier[i]);
                assert(ended[i] == earlier[i]);
                assert(registry.finishes(ended, token));
            } else if registry.finishes(ended, token) {
                let i = choose|i: int|
                    0 <= i < ended.len() && (#[trigger] ended[i]).token == token
                        && !registry.is_tried_again(ended[i]);
                if i < earlier.len() {
                    assert(earlier[i] == ended[i]);
                    assert(registry.finishes(earlier, token));
                }
            }
        }
    }
}

/// Nothing that ended stays uncollected: where the transfers of all pending downloads ended and none
/// is made again, nothing is pending any more and each path that was being downloaded has a result.
pub proof fn nothing_stays_uncollected(registry: RegistryModel, ended: Seq<EndedModel>)
    requires
        registry.wf(),
        registry.can_end(ended),
        forall|token: usize| #[trigger]
            registry.downloads.pending.contains_key(token) ==> exists|i: int|
                0 <= i < ended.len() && (#[trigger] ended[i]).token == token,
        registry.tried_again(ended).len() == 0,
    ensures
        ({
            let after = registry.after_transfers(ended).downloads;
            &&& after.pending == Map::<usize, DownloadModel>::empty()
            &&& after.pending_paths == Set::<Seq<char>>::empty()
            &&& forall|key: Seq<char>| #[trigger]
                registry.downloads.pending_paths.contains(key) ==> after.results.contains_key(key)
        }),
{
    let after = registry.after_transfers(ended).downloads;
    path_is_exchanged_for_its_result(registry, ended);
    lemma_none_tried_again(registry, ended);
    assert forall|token: usize| !(#[trigger] after.pending.contains_key(token)) by {
        if registry.downloads.pending.contains_key(token) {
            let i = choose|i: int| 0 <= i < ended.len() && (#[trigger] ended[i]).token == token;
            assert(!registry.is_tried_again(ended[i]));
            assert(registry.finishes(ended, token));
        }
    }
    assert(after.pending =~= Map::empty());
    assert forall|key: Seq<char>| !(#[trigger] after.pending_paths.contains(key)) by {
        if after.pending_paths.contains(key) {
            let token = choose|token: usize| #[trigger]
                after.pending.contains_key(token) && after.key(token) == key;
            assert(after.pending.contains_key(token));
        }
    }
    assert(after.pending_paths =~= Set::empty());
    assert forall|key: Seq<char>| #[trigger]
        registry.downloads.pending_paths.contains(key) implies after.results.contains_key(key) by {
        assert(after.results.dom().contains(key));
    }
}

proof fn lemma_none_tried_again(registry: RegistryModel, ended: Seq<EndedModel>)
    requires
        registry.tried_again(ended).len() == 0,
    ensures
        forall|i: int| 0 <= i < ended.len() ==> !registry.is_tried_again(#[trigger] ended[i]),
    decreases ended.len(),
{
    if ended.len() > 0 {
        lemma_none_tried_again(registry, ended.drop_last());
        assert forall|i: int| 0 <= i < ended.len() implies !registry.is_tried_again(
            #[trigger] ended[i],
        ) by {
            if i < ended.len() - 1 {
                assert(ended.drop_last()[i] == ended[i]);
            }
        }
    }
}

/// A download that failed is reported once; then its path can be requested again.
pub proof fn failed_download_is_reported_once(
    registry: RegistryModel,
    path: PathModel,
    version: Option<Seq<char>>,
)
    requires
        registry.wf(),
        registry.downloads.results.contains_key(path_key(path)),
        registry.downloads.results[path_key(path)] is Err,
        version is None || !registry.is_fresh(path_key(path)),
    ensures
        ({
            let (loaded, step) = registry.loading(path, version);
            &&& step == StepModel::Loaded(
                Err(
                    LoadErrorModel::DownloadFailed {
                        path: path.text,
                        error: registry.downloads.results[path_key(path)]->Err_0,
                    },
                ),
            )
            &&& loaded.idle(path_key(path))
        }),
{
}

/// A request for `config.json` that is refused for want of authorization is made again with
/// authorization, unless the refusal says that a token is to be had where there is no URL.
pub proof fn refused_config_is_requested_with_authorization(
    registry: RegistryModel,
    request: RequestModel,
    completed: CompletedDownloadModel,
)
    requires
        registry.wf(),
        !registry.auth_required,
        path_key(request.path) == config_key(),
        registry.downloads.results.contains_key(config_key()),
        registry.downloads.results[config_key()] == Ok::<_, DownloadErrorModel>(completed),
        completed.response_code == StatusCode::Unauthorized,
        request.version is None || !registry.is_fresh(config_key()),
        last_login(registry.login_url, logins_of(completed.header_map.www_authenticate)).1 is None,
    ensures
        ({
            let (loaded, step) = registry.loading_config(request);
            &&& loaded.auth_required
            &&& loaded.login_url == last_login(
                registry.login_url,
                logins_of(completed.header_map.www_authenticate),
            ).0
            &&& loaded.idle(config_key())
            &&& step == StepModel::ReadMultiplexing(request) || step == loaded.opening(request).1
        }),
{
}

/// A request that carried an authorization and was refused is answered with the refusal, which says
/// where to get a token if that is known.
pub proof fn refused_token_is_rejected(
    registry: RegistryModel,
    path: PathModel,
    version: Option<Seq<char>>,
    completed: CompletedDownloadModel,
)
    requires
        registry.wf(),
        registry.auth_required,
        registry.downloads.results.contains_key(path_key(path)),
        registry.downloads.results[path_key(path)] == Ok::<_, DownloadErrorModel>(completed),
        completed.response_code == StatusCode::Unauthorized,
        version is None || !registry.is_fresh(path_key(path)),
    ensures
        registry.loading(path, version).1 == StepModel::Loaded(
            Err(
                LoadErrorModel::Unauthorized {
                    response: HttpNotSuccessfulModel {
                        code: 401,
                        url: registry.full_url(path),
                        body: completed.data,
                    },
                    rejected: Some(
                        AuthorizationErrorModel {
                            sid: registry.sid,
                            login_url: registry.login_url,
                        },
                    ),
                },
            ),
        ),
{
}

/// Where there is no copy at hand, none is said to be valid. So that `config.json` is never kept in
/// the index cache is never reported.
pub proof fn no_copy_is_never_valid(
    registry: RegistryModel,
    path: PathModel,
    wanted: ConfigForModel,
)
    ensures
        registry.loading(path, None).1 != StepModel::Loaded(Ok(LoadResponseModel::CacheValid)),
        registry.config_missing(wanted).1 != config_failed(
            wanted,
            LoadErrorModel::ConfigNeverCached,
        ),
        registry.configuring(wanted).1 != config_failed(
            wanted,
            LoadErrorModel::ConfigNeverCached,
        ),
{
}

/// The configuration of the registry is not requested again while it is known and need not be
/// checked.
pub proof fn known_config_is_not_requested(registry: RegistryModel, config: RegistryConfigModel)
    requires
        registry.registry_config == Some(config),
        registry.is_fresh(config_key()),
    ensures
        registry.configuring(ConfigForModel::Caller) == (
            registry,
            StepModel::Configured(Ok(config)),
        ),
{
}

/// A file is requested with authorization if and only if the configuration says so.
pub proof fn file_is_requested_as_config_says(
    registry: RegistryModel,
    path: PathModel,
    version: Option<Seq<char>>,
    config: RegistryConfigModel,
)
    ensures
        ({
            let (after, step) = registry.config_known(ConfigForModel::Load { path, version }, config);
            let request = RequestModel { path, version, purpose: PurposeModel::Caller };
            &&& after.auth_required == config.auth_required
            &&& step == StepModel::ReadMultiplexing(request) || step == after.opening(request).1
            &&& config.auth_required <==> !(after.after_handle(request).1 is SetHeaders)
        }),
{
}

/// A request that needs authorization is not sent without.
pub proof fn authorization_is_not_left_out(registry: RegistryModel, request: RequestModel)
    requires
        registry.auth_required,
    ensures
        !(registry.after_handle(request).1 is SetHeaders),
        !(registry.after_handle(request).1 is Send),
        registry.config.registry_auth ==> registry.after_handle(request) == (
            registry,
            StepModel::GetToken { login_url: registry.login_url, request },
        ),
{
}

/// The token of a request is not in use, and is not used again.
pub proof fn token_is_new(registry: RegistryModel, request: RequestModel)
    requires
        registry.wf(),
        registry.downloads.next < usize::MAX,
    ensures
        ({
            let (sent, step) = registry.sending(request);
            &&& step matches StepModel::Send { token, .. } && token == registry.downloads.next
                && !registry.downloads.pending.contains_key(token) && token < sent.downloads.next
        }),
{
}

/// What is known of the configuration is not replaced by a copy at hand.
pub proof fn known_config_wins_over_copy(
    registry: RegistryModel,
    config: RegistryConfigModel,
    reader: ReaderModel,
    cached: Option<RegistryConfigModel>,
)
    requires
        registry.registry_config == Some(config),
    ensures
        registry.after_cache(reader, cached).0.registry_config == Some(config),
        registry.after_cache(reader, cached) == registry.after_cache(reader, None),
        registry.after_cache(ReaderModel::Config(ConfigForModel::Caller), cached) == (
            registry,
            StepModel::Configured(Ok(config)),
        ),
{
}

/// The transport is set up once: when a file was fetched, to fetch another one changes nothing and
/// goes on with a handle.
pub proof fn transport_is_set_up_once(
    registry: RegistryModel,
    first: RequestModel,
    second: RequestModel,
)
    ensures
        ({
            let (started, _) = registry.fetching(first);
            &&& started.fetch_started
            &&& started.fetching(second) == started.opening(second)
            &&& started.fetching(second).0 == started
        }),
{
}

/// A call that can change a registry, or that gives the next step.
pub ghost enum Call {
    Load { path: PathModel, version: Option<Seq<char>> },
    Config,
    ConfigCached { reader: ReaderModel, cached: Option<RegistryConfigModel> },
    ConfigDecoded { raw_data: Seq<u8>, wanted: ConfigForModel, config: RegistryConfigModel },
    ConfigStored { wanted: ConfigForModel },
    StartFetch { request: RequestModel },
    MultiplexingConfigured { request: RequestModel, configured: Option<bool> },
    TransportStarted { request: RequestModel },
    HandleOpened { request: RequestModel },
    TokenReceived { request: RequestModel, authorization: Seq<char> },
    HeadersSet { request: RequestModel },
    RequestSent { token: usize, path: PathModel },
    Refuse { request: RequestModel, logins: Seq<LoginModel> },
    ReceiveData { token: usize, data: Seq<u8> },
    ReceiveHeader { token: usize, line: Seq<u8> },
    HandleCompletedDownload(EndedModel),
    HandleCompletedDownloads(Seq<EndedModel>),
    BlockUntilReady,
    InvalidateCache,
}

/// A registry and the next step, of which there is one.
pub open spec fn stepped(next: (RegistryModel, StepModel)) -> (RegistryModel, Option<StepModel>) {
    (next.0, Some(next.1))
}

/// The registry after `call`, and the next step if the call gives one.
pub open spec fn after_call(registry: RegistryModel, call: Call) -> (
    RegistryModel,
    Option<StepModel>,
) {
    match call {
        Call::Load { path, version } => stepped(registry.loading(path, version)),
        Call::Config => stepped(registry.configuring(ConfigForModel::Caller)),
        Call::ConfigCached { reader, cached } => stepped(registry.after_cache(reader, cached)),
        Call::ConfigDecoded { raw_data, wanted, config } => stepped(
            registry.after_decoding(raw_data, wanted, config),
        ),
        Call::ConfigStored { wanted } => stepped(
            registry.config_known(wanted, registry.registry_config->0),
        ),
        Call::StartFetch { request } => stepped(registry.fetching(request)),
        Call::MultiplexingConfigured { request, configured } => stepped(
            registry.after_multiplexing(request, configured),
        ),
        Call::TransportStarted { request } => stepped(registry.opening(request)),
        Call::HandleOpened { request } => stepped(registry.after_handle(request)),
        Call::TokenReceived { request, authorization } => stepped(
            registry.requesting(request, Some(authorization)),
        ),
        Call::HeadersSet { request } => stepped(registry.sending(request)),
        Call::RequestSent { token, path } => stepped(registry.after_sending(token, path)),
        Call::Refuse { request, logins } => registry.refused(request, logins),
        Call::ReceiveData { token, data } => (
            RegistryModel { downloads: registry.downloads.with_data(token, data), ..registry },
            None,
        ),
        Call::ReceiveHeader { token, line } => (
            RegistryModel { downloads: registry.downloads.with_header(token, line), ..registry },
            None,
        ),
        Call::HandleCompletedDownload(ended) => (
            registry.after_transfer(ended.token, ended.transfer, ended.retry),
            None,
        ),
        Call::HandleCompletedDownloads(ended) => (registry.after_transfers(ended), None),
        Call::BlockUntilReady => (
            RegistryModel {
                downloads: DownloadsModel {
                    blocking_calls: registry.downloads.blocking_calls + 1,
                    ..registry.downloads
                },
                ..registry
            },
            None,
        ),
        Call::InvalidateCache => (registry.invalidated(), None),
    }
}

/// The registry after `calls`, one after the other.
pub open spec fn after_calls(registry: RegistryModel, calls: Seq<Call>) -> RegistryModel
    decreases calls.len(),
{
    if calls.len() == 0 {
        registry
    } else {
        after_call(after_calls(registry, calls.drop_last()), calls.last()).0
    }
}

/// The end of transfers changes the downloads and nothing else.
proof fn lemma_transfers_change_downloads(registry: RegistryModel, ended: Seq<EndedModel>)
    ensures
        registry.after_transfers(ended) == (RegistryModel {
            downloads: registry.after_transfers(ended).downloads,
            ..registry
        }),
    decreases ended.len(),
{
    if ended.len() > 0 {
        lemma_transfers_change_downloads(registry, ended.drop_last());
    }
}

/// Whether from `before` to `next` the fetched paths and whether an update was requested are kept, the
/// transport is not set up again, and handles are opened where the files are.
spec fn keeps(before: RegistryModel, next: (RegistryModel, Option<StepModel>)) -> bool {
    let (after, step) = next;
    &&& before.fresh.subset_of(after.fresh)
    &&& after.requested_update == before.requested_update
    &&& before.fetch_started ==> after.fetch_started
    &&& before.fetch_started ==> !(step matches Some(StepModel::ReadMultiplexing(_)))
    &&& !(step matches Some(StepModel::StartTransport { .. }))
    &&& after.url == before.url
    &&& after.sid == before.sid
    &&& after.config == before.config
    &&& after.multiplexing == before.multiplexing
    &&& step matches Some(StepModel::OpenHandle { url, http2, request }) ==> url == before.url
        + request.path.text && http2 == before.multiplexing
}

proof fn lemma_looked_up_keeps(registry: RegistryModel, request: RequestModel)
    ensures
        keeps(registry, registry.looked_up(request)),
{
}

proof fn lemma_loading_config_keeps(registry: RegistryModel, request: RequestModel)
    ensures
        keeps(registry, stepped(registry.loading_config(request))),
{
    lemma_looked_up_keeps(registry, request);
    let (after, _) = registry.looked_up(request);
    assert(keeps(after, stepped(after.requesting_config(request))));
}

proof fn lemma_config_missing_keeps(registry: RegistryModel, wanted: ConfigForModel)
    ensures
        keeps(registry, stepped(registry.config_missing(wanted))),
{
    lemma_loading_config_keeps(
        registry,
        RequestModel {
            path: config_path(),
            version: None,
            purpose: PurposeModel::Config(wanted),
        },
    );
}

proof fn lemma_configuring_keeps(registry: RegistryModel, wanted: ConfigForModel)
    ensures
        keeps(registry, stepped(registry.configuring(wanted))),
{
    lemma_config_missing_keeps(registry, wanted);
}

proof fn lemma_loading_keeps(
    registry: RegistryModel,
    path: PathModel,
    version: Option<Seq<char>>,
)
    ensures
        keeps(registry, stepped(registry.loading(path, version))),
{
    let request = RequestModel { path, version, purpose: PurposeModel::Caller };
    lemma_loading_config_keeps(registry, request);
    lemma_looked_up_keeps(registry, request);
    let (after, _) = registry.looked_up(request);
    lemma_configuring_keeps(after, ConfigForModel::Load { path, version });
}

proof fn lemma_after_cache_keeps(
    registry: RegistryModel,
    reader: ReaderModel,
    cached: Option<RegistryConfigModel>,
)
    ensures
        keeps(registry, stepped(registry.after_cache(reader, cached))),
{
    if let ReaderModel::Config(wanted) = reader {
        let known = if registry.registry_config is Some {
            registry.registry_config
        } else {
            cached
        };
        lemma_config_missing_keeps(
            RegistryModel { registry_config: known, ..registry },
            wanted,
        );
    }
}

proof fn lemma_after_call(registry: RegistryModel, call: Call)
    requires
        !(call is InvalidateCache),
        !(call is MultiplexingConfigured),
    ensures
        keeps(registry, after_call(registry, call)),
{
    match call {
        Call::Load { path, version } => lemma_loading_keeps(registry, path, version),
        Call::Config => lemma_configuring_keeps(registry, ConfigForModel::Caller),
        Call::ConfigCached { reader, cached } => lemma_after_cache_keeps(registry, reader, cached),
        Call::HandleCompletedDownloads(ended) => lemma_transfers_change_downloads(registry, ended),
        _ => {},
    }
}

/// A path that was fetched stays fetched, and is not requested again, until the index is updated: that
/// is, whatever is called but to invalidate the caches.
pub proof fn fetched_path_stays_fetched(
    registry: RegistryModel,
    calls: Seq<Call>,
    path: PathModel,
    version: Option<Seq<char>>,
)
    requires
        after_calls(registry, calls).wf(),
        registry.fresh.contains(path_key(path)),
        forall|i: int| 0 <= i < calls.len() ==> !((#[trigger] calls[i]) is InvalidateCache),
    ensures
        ({
            let after = after_calls(registry, calls);
            &&& after.fresh.contains(path_key(path))
            &&& after.is_fresh(path_key(path))
            &&& after.loading(path, version) == (
                after,
                StepModel::Loaded(
                    Ok(
                        if version is Some {
                            LoadResponseModel::CacheValid
                        } else {
                            LoadResponseModel::NotFound
                        },
                    ),
                ),
            )
        }),
{
    lemma_fetched_paths_stay(registry, calls);
    fetched_path_is_not_requested(after_calls(registry, calls), path, version);
}

proof fn lemma_fetched_paths_stay(registry: RegistryModel, calls: Seq<Call>)
    requires
        forall|i: int| 0 <= i < calls.len() ==> !((#[trigger] calls[i]) is InvalidateCache),
    ensures
        registry.fresh.subset_of(after_calls(registry, calls).fresh),
    decreases calls.len(),
{
    if calls.len() > 0 {
        let earlier = calls.drop_last();
        assert forall|i: int| 0 <= i < earlier.len() implies !((#[trigger]
        earlier[i]) is InvalidateCache) by {
            assert(earlier[i] == calls[i]);
        }
        lemma_fetched_paths_stay(registry, earlier);
        assert(calls[calls.len() - 1] == calls.last());
        if !(calls.last() is MultiplexingConfigured) {
            lemma_after_call(after_calls(registry, earlier), calls.last());
        }
    }
}

/// An update is requested if and only if it was before or the caches were invalidated since.
pub proof fn update_is_requested_by_invalidation(registry: RegistryModel, calls: Seq<Call>)
    ensures
        after_calls(registry, calls).requested_update <==> registry.requested_update || exists|i: int|
            0 <= i < calls.len() && (#[trigger] calls[i]) is InvalidateCache,
    decreases calls.len(),
{
    if calls.len() > 0 {
        let earlier = calls.drop_last();
        update_is_requested_by_invalidation(registry, earlier);
        if calls.last() is InvalidateCache {
            assert(calls[calls.len() - 1] is InvalidateCache);
        } else if !(calls.last() is MultiplexingConfigured) {
            lemma_after_call(after_calls(registry, earlier), calls.last());
        }
        if exists|i: int| 0 <= i < earlier.len() && (#[trigger] earlier[i]) is InvalidateCache {
            let i = choose|i: int|
                0 <= i < earlier.len() && (#[trigger] earlier[i]) is InvalidateCache;
            assert(calls[i] is InvalidateCache);
        }
        if exists|i: int| 0 <= i < calls.len() && (#[trigger] calls[i]) is InvalidateCache {
            let i = choose|i: int|
                0 <= i < calls.len() && (#[trigger] calls[i]) is InvalidateCache;
            if i < earlier.len() {
                assert(earlier[i] is InvalidateCache);
            }
        }
    }
}

/// Once a file was fetched, no call asks for the transport to be set up again: whatever was called
/// since, the setting for multiplexing is not looked up again, and the transport is set up only for
/// what that look-up came to.
pub proof fn transport_is_not_set_up_again(
    registry: RegistryModel,
    calls: Seq<Call>,
    next: Call,
)
    requires
        registry.fetch_started,
    ensures
        ({
            let (after, step) = after_call(after_calls(registry, calls), next);
            &&& after.fetch_started
            &&& !(step matches Some(StepModel::ReadMultiplexing(_)))
            &&& step matches Some(StepModel::StartTransport { .. })
                ==> next is MultiplexingConfigured
        }),
    decreases calls.len(),
{
    if calls.len() > 0 {
        transport_is_not_set_up_again(registry, calls.drop_last(), calls.last());
    }
    if !(next is InvalidateCache) && !(next is MultiplexingConfigured) {
        lemma_after_call(after_calls(registry, calls), next);
    }
}

/// Waiting ends at the first report that no transfer is left, without another wait, and only there.
pub proof fn waiting_ends_when_nothing_is_left(event: WaitEvent)
    ensures
        wait_next(event) == WaitAction::Done <==> event == (WaitEvent::Performed { remaining: 0 }),
{
}

/// While transfers are left, waiting goes round: there is a wait, for as long as is due or else for a
/// second, then what ended is handled, and only then the transfers are continued.
pub proof fn waiting_goes_round(remaining: u32, millis: Option<u64>)
    requires
        remaining > 0,
    ensures
        wait_next(WaitEvent::Performed { remaining }) == WaitAction::ReadTimeout,
        wait_next(WaitEvent::TimeoutRead { millis }) == (WaitAction::Wait {
            millis: if millis is Some {
                millis->0
            } else {
                1000
            },
        }),
        wait_next(WaitEvent::Waited) == WaitAction::Collect,
        wait_next(WaitEvent::Collected) == WaitAction::Perform,
{
}

/// The progress never goes backwards and never reaches its end.
pub proof fn progress_never_goes_backwards(earlier: nat, later: nat)
    requires
        earlier <= later,
    ensures
        progress_position(earlier) <= progress_position(later) < APPROXIMATE_TREE_DEPTH + 1,
{
}

/// The server cannot sneak in further lines: neither the name nor the value of a header holds a line
/// break. The name holds no colon, and the value no white space at either end.
pub proof fn header_is_one_line(line: Seq<u8>)
    ensures
        header_line(line) matches Some((tag, value)) ==> {
            &&& !tag.contains('\n')
            &&& !value.contains('\n')
            &&& !tag.contains(':')
            &&& trimmed(value) == value
        },
{
    if let Some((tag, value)) = header_line(line) {
        let text = trimmed_end(decode_utf8(line));
        lemma_split_is_whole(text, ':');
        let (_, after) = split_at_first(text, ':')->0;
        assert(text == tag + seq![':'] + after);
        assert forall|i: int| 0 <= i < tag.len() implies tag[i] != '\n' by {
            assert(text[i] == tag[i]);
            assert(text.contains(text[i]));
        }
        assert forall|i: int| 0 <= i < after.len() implies after[i] != '\n' by {
            assert(text[tag.len() + 1 + i] == after[i]);
            assert(text.contains(text[tag.len() + 1 + i]));
        }
        lemma_trimmed_contains(after, '\n');
        lemma_trimmed_contains(trimmed_end(after), '\n');
        lemma_trimmed_twice(after);
    }
}

proof fn lemma_headers_are_trimmed(arrivals: Seq<Arrival>)
    ensures
        headers_of(arrivals).etag matches Some(etag) ==> trimmed(etag) == etag,
        headers_of(arrivals).last_modified matches Some(date) ==> trimmed(date) == date,
    decreases arrivals.len(),
{
    if arrivals.len() > 0 {
        lemma_headers_are_trimmed(arrivals.drop_last());
        if let Arrival::Header(line) = arrivals.last() {
            header_is_one_line(line);
        }
    }
}

/// The next request for a file that arrived asks for it only if it changed: by the entity tag that
/// arrived if there is one, else by the date that arrived, and else the request is unconditional.
pub proof fn next_request_is_conditional(
    arrivals: Seq<Arrival>,
    authorization: Option<Seq<char>>,
)
    ensures
        ({
            let headers = headers_of(arrivals);
            let sent = request_headers(Some(version_of(headers)), authorization);
            match (headers.etag, headers.last_modified) {
                (Some(etag), _) => sent[2] == line(IF_NONE_MATCH@, etag),
                (None, Some(date)) => sent[2] == line(IF_MODIFIED_SINCE@, date),
                (None, None) => sent == request_headers(None, authorization),
            }
        }),
{
    version_is_asked_about(headers_of(arrivals));
    lemma_headers_are_trimmed(arrivals);
}

/// How many pieces of outside work are left, at most, when `step` is to be done.
pub open spec fn work_left(step: StepModel) -> nat {
    match step {
        StepModel::Pending | StepModel::Loaded(_) | StepModel::Configured(_) => 0,
        StepModel::Send { .. } => 1,
        StepModel::SetHeaders { .. } => 2,
        StepModel::GetToken { .. } => 3,
        StepModel::OpenHandle { .. } => 4,
        StepModel::StartTransport { .. } => 5,
        StepModel::ReadMultiplexing(_) => 6,
        StepModel::StoreConfig { .. } => 7,
        StepModel::ReadCachedConfig(ReaderModel::Request(_)) => 7,
        StepModel::DecodeConfig { .. } => 8,
        StepModel::ReadCachedConfig(ReaderModel::Config(_)) => 9,
    }
}

/// Loading ends: each piece of outside work leaves less to do.
pub proof fn loading_ends(
    registry: RegistryModel,
    reader: ReaderModel,
    cached: Option<RegistryConfigModel>,
    raw_data: Seq<u8>,
    wanted: ConfigForModel,
    config: RegistryConfigModel,
    request: RequestModel,
    configured: Option<bool>,
    multiplexing: bool,
    max_host_connections: usize,
    url: Seq<char>,
    http2: bool,
    login_url: Option<Seq<char>>,
    authorization: Option<Seq<char>>,
    headers: Seq<Seq<char>>,
    token: usize,
)
    ensures
        work_left(registry.after_cache(reader, cached).1) < work_left(
            StepModel::ReadCachedConfig(reader),
        ),
        work_left(registry.after_decoding(raw_data, wanted, config).1) < work_left(
            StepModel::DecodeConfig { raw_data, wanted },
        ),
        work_left(registry.config_known(wanted, config).1) < work_left(
            StepModel::StoreConfig { raw_data, wanted },
        ),
        work_left(registry.after_multiplexing(request, configured).1) < work_left(
            StepModel::ReadMultiplexing(request),
        ),
        work_left(registry.opening(request).1) < work_left(
            StepModel::StartTransport { multiplexing, max_host_connections, request },
        ),
        work_left(registry.after_handle(request).1) < work_left(
            StepModel::OpenHandle { url, http2, request },
        ),
        work_left(registry.requesting(request, authorization).1) < work_left(
            StepModel::GetToken { login_url, request },
        ),
        work_left(registry.sending(request).1) < work_left(
            StepModel::SetHeaders { headers, request },
        ),
        work_left(registry.after_sending(token, request.path).1) < work_left(
            StepModel::Send { token, request },
        ),
{
}

/// Whatever is called, where a handle is to be opened for a request it is at the URL of the server and
/// then the path that is requested, as it was written, and with HTTP/2 if requests can share a
/// connection.
pub proof fn handle_is_opened_where_the_file_is(registry: RegistryModel, call: Call)
    ensures
        after_call(registry, call).1 matches Some(StepModel::OpenHandle { url, http2, request })
            ==> url == registry.url + request.path.text && http2 == registry.multiplexing,
{
    if !(call is InvalidateCache) && !(call is MultiplexingConfigured) {
        lemma_after_call(registry, call);
    }
}

/// Whatever is called, the source, the server and the configuration of the client stay the same.
pub proof fn server_stays_the_same(registry: RegistryModel, calls: Seq<Call>)
    ensures
        after_calls(registry, calls).url == registry.url,
        after_calls(registry, calls).sid == registry.sid,
        after_calls(registry, calls).config == registry.config,
    decreases calls.len(),
{
    if calls.len() > 0 {
        server_stays_the_same(registry, calls.drop_last());
        let call = calls.last();
        if !(call is InvalidateCache) && !(call is MultiplexingConfigured) {
            lemma_after_call(after_calls(registry, calls.drop_last()), call);
        }
    }
}

} // verus!
