//! What each call comes to, case by case.

use vstd::prelude::*;

use crate::downloads::DownloadsModel;
use crate::header::{Headers, HeadersModel};
use crate::load::{
    answered, config_failed, config_loaded, ConfigFor, ConfigForModel, DownloadAction,
    DownloadActionModel, Purpose, PurposeModel, Reader, ReaderModel, Request, RequestModel, Step,
    StepModel,
};
use crate::login::{last_login, logins_of, url_text, Challenge, Login, LoginModel};
use crate::path::{config_key, config_path, path_key, Part, PartModel, PathModel};
use crate::registry::{
    after_prefix, opened, served_over_http, Config, Ended, EndedModel, NewError, RegistryConfig,
    RegistryConfigModel, RegistryModel, SourceId,
};
use crate::response::{
    loaded_view, outcome_view, verdict, AuthorizationError, AuthorizationErrorModel,
    CompletedDownload, CompletedDownloadModel, DownloadError, DownloadErrorModel,
    HttpNotSuccessful, HttpNotSuccessfulModel, LoadError, LoadErrorModel, LoadResponse,
    LoadResponseModel, Loaded, Outcome, StatusCode, Transfer, TransferModel,
};
use crate::version::{request_headers, token_is_the_last_header, version_of};

verus! {

/// Whether copies at hand are checked with the server: an update was requested, and is possible.
pub open spec fn checks_copies(registry: RegistryModel) -> bool {
    registry.requested_update && !registry.config.no_index_update && !registry.config.offline
}

/// Whether the file of `request` is requested next, and nothing else changed from `registry`: the
/// transport is set up if that was not done, and else a handle is opened at the file's URL.
pub open spec fn is_requested(
    registry: RegistryModel,
    request: RequestModel,
    next: (RegistryModel, StepModel),
) -> bool {
    &&& next.0 == (RegistryModel { fetch_started: true, ..registry })
    &&& registry.fetch_started ==> next.1 == (StepModel::OpenHandle {
        url: registry.url + request.path.text,
        http2: registry.multiplexing,
        request,
    })
    &&& !registry.fetch_started ==> next.1 == StepModel::ReadMultiplexing(request)
}

/// `registry` without the result for the key `key`.
pub open spec fn without(registry: RegistryModel, key: Seq<char>) -> RegistryModel {
    RegistryModel {
        downloads: DownloadsModel {
            results: registry.downloads.results.remove(key),
            ..registry.downloads
        },
        ..registry
    }
}

/// `registry` without the result for the key `key`, and with the path fetched.
pub open spec fn fetched(registry: RegistryModel, key: Seq<char>) -> RegistryModel {
    RegistryModel { fresh: registry.fresh.insert(key), ..without(registry, key) }
}

/// Whether a result for `path` is handed over when the path is loaded with the version `version` at
/// hand.
pub open spec fn hands_over(
    registry: RegistryModel,
    path: PathModel,
    version: Option<Seq<char>>,
) -> bool {
    &&& registry.wf()
    &&& registry.downloads.results.contains_key(path_key(path))
    &&& version is Some ==> checks_copies(registry)
}

/// Whether `path` has to be requested when it is loaded with the version `version` at hand.
pub open spec fn has_to_be_requested(
    registry: RegistryModel,
    path: PathModel,
    version: Option<Seq<char>>,
) -> bool {
    &&& !registry.downloads.pending_paths.contains(path_key(path))
    &&& !registry.downloads.results.contains_key(path_key(path))
    &&& !registry.fresh.contains(path_key(path))
    &&& version is Some ==> checks_copies(registry)
}

/// A copy at hand need not be checked if no update was requested, or updates are switched off, or the
/// file was fetched since; else it has to be, whatever other files were fetched.
pub proof fn copy_is_checked_unless_fetched(
    registry: RegistryModel,
    path: PathModel,
    version: Seq<char>,
)
    ensures
        !checks_copies(registry) ==> registry.is_fresh(path_key(path)),
        registry.fresh.contains(path_key(path)) ==> registry.is_fresh(path_key(path)),
        checks_copies(registry) && !registry.fresh.contains(path_key(path)) ==> !registry.is_fresh(
            path_key(path),
        ),
        has_to_be_requested(registry, path, Some(version)) ==> registry.loading(
            path,
            Some(version),
        ).1 != StepModel::Loaded(Ok(LoadResponseModel::CacheValid)),
{
}

/// A handle is opened at the URL of the server and then the path as it was written, whatever version
/// is at hand.
pub proof fn handle_is_for_the_path(registry: RegistryModel, request: RequestModel)
    ensures
        registry.opening(request) == (
            registry,
            StepModel::OpenHandle {
                url: registry.url + request.path.text,
                http2: registry.multiplexing,
                request,
            },
        ),
        is_requested(registry, request, registry.fetching(request)),
{
}

/// A file that arrived is handed over as it arrived, with its version, and counts as fetched. Nothing
/// else changes.
pub proof fn file_is_handed_over(
    registry: RegistryModel,
    path: PathModel,
    version: Option<Seq<char>>,
    completed: CompletedDownloadModel,
)
    requires
        hands_over(registry, path, version),
        registry.downloads.results[path_key(path)] == Ok::<_, DownloadErrorModel>(completed),
        completed.response_code == StatusCode::Success,
    ensures
        registry.loading(path, version) == (
            fetched(registry, path_key(path)),
            StepModel::Loaded(
                Ok(
                    LoadResponseModel::Data {
                        raw_data: completed.data,
                        index_version: Some(version_of(completed.header_map)),
                    },
                ),
            ),
        ),
{
}

/// That a file did not change means that the copy at hand is valid, or is an error if there is none.
/// The path counts as fetched, and nothing else changes.
pub proof fn unchanged_file_needs_a_copy(
    registry: RegistryModel,
    path: PathModel,
    version: Option<Seq<char>>,
    completed: CompletedDownloadModel,
)
    requires
        hands_over(registry, path, version),
        registry.downloads.results[path_key(path)] == Ok::<_, DownloadErrorModel>(completed),
        completed.response_code == StatusCode::NotModified,
    ensures
        registry.loading(path, version).0 == fetched(registry, path_key(path)),
        version is Some ==> registry.loading(path, version).1 == StepModel::Loaded(
            Ok(LoadResponseModel::CacheValid),
        ),
        version is None ==> registry.loading(path, version).1 == StepModel::Loaded(
            Err(LoadErrorModel::NotModifiedWithoutCache),
        ),
{
}

/// A file that the server does not have is not found, whatever version is at hand. The path counts as
/// fetched, and nothing else changes.
pub proof fn absent_file_is_not_found(
    registry: RegistryModel,
    path: PathModel,
    version: Option<Seq<char>>,
    completed: CompletedDownloadModel,
)
    requires
        hands_over(registry, path, version),
        registry.downloads.results[path_key(path)] == Ok::<_, DownloadErrorModel>(completed),
        completed.response_code == StatusCode::NotFound,
    ensures
        registry.loading(path, version) == (
            fetched(registry, path_key(path)),
            StepModel::Loaded(Ok(LoadResponseModel::NotFound)),
        ),
{
}

/// A file that is refused is an error that says where it was to come from and what was received. Only
/// if a token was sent it was rejected, and then the error says for which source, and where to get
/// another. The path counts as fetched, and nothing else changes.
pub proof fn refused_file_is_an_error(
    registry: RegistryModel,
    path: PathModel,
    version: Option<Seq<char>>,
    completed: CompletedDownloadModel,
)
    requires
        hands_over(registry, path, version),
        registry.downloads.results[path_key(path)] == Ok::<_, DownloadErrorModel>(completed),
        completed.response_code == StatusCode::Unauthorized,
        registry.auth_required || path_key(path) != config_key(),
    ensures
        registry.loading(path, version) == (
            fetched(registry, path_key(path)),
            StepModel::Loaded(
                Err(
                    LoadErrorModel::Unauthorized {
                        response: HttpNotSuccessfulModel {
                            code: 401,
                            url: registry.url + path.text,
                            body: completed.data,
                        },
                        rejected: if registry.auth_required {
                            Some(
                                AuthorizationErrorModel {
                                    sid: registry.sid,
                                    login_url: registry.login_url,
                                },
                            )
                        } else {
                            None
                        },
                    },
                ),
            ),
        ),
{
}

/// A download that failed is reported with its error and its path as it was written. The path does not
/// count as fetched, and nothing else changes.
pub proof fn failure_is_reported(
    registry: RegistryModel,
    path: PathModel,
    version: Option<Seq<char>>,
    error: DownloadErrorModel,
)
    requires
        hands_over(registry, path, version),
        registry.downloads.results[path_key(path)] == Err::<CompletedDownloadModel, _>(error),
    ensures
        registry.loading(path, version) == (
            without(registry, path_key(path)),
            StepModel::Loaded(Err(LoadErrorModel::DownloadFailed { path: path.text, error })),
        ),
{
}

/// A configuration that is refused for want of a token is requested again, with a token from then on,
/// which is to be had where the refusal says. If it says so of what is no URL, that is an error. Nothing
/// else changes, and the path does not count as fetched.
pub proof fn refused_config_needs_a_token(
    registry: RegistryModel,
    request: RequestModel,
    completed: CompletedDownloadModel,
)
    requires
        hands_over(registry, request.path, request.version),
        path_key(request.path) == config_key(),
        registry.downloads.results[config_key()] == Ok::<_, DownloadErrorModel>(completed),
        completed.response_code == StatusCode::Unauthorized,
        !registry.auth_required,
    ensures
        ({
            let (login_url, invalid) = last_login(
                registry.login_url,
                logins_of(completed.header_map.www_authenticate),
            );
            let after = RegistryModel {
                auth_required: true,
                login_url,
                ..without(registry, config_key())
            };
            &&& invalid is None ==> is_requested(after, request, registry.loading_config(request))
            &&& invalid matches Some((text, reason)) ==> registry.loading_config(request) == (
                after,
                answered(request.purpose, Err(LoadErrorModel::InvalidLoginUrl { text, reason })),
            )
        }),
{
}

/// That a request is refused for want of a token is noted: requests need one from then on, which is to
/// be had where the logins say. If one of them is no URL, that is an error. Nothing else changes.
pub proof fn refusal_is_noted(
    registry: RegistryModel,
    request: RequestModel,
    logins: Seq<LoginModel>,
)
    ensures
        ({
            let (login_url, invalid) = last_login(registry.login_url, logins);
            &&& registry.refused(request, logins).0 == (RegistryModel {
                auth_required: true,
                login_url,
                ..registry
            })
            &&& invalid is None <==> registry.refused(request, logins).1 is None
            &&& invalid matches Some((text, reason)) ==> registry.refused(request, logins).1
                == Some(
                answered(request.purpose, Err(LoadErrorModel::InvalidLoginUrl { text, reason })),
            )
        }),
{
}

/// What a file is wanted for decides who gets the answer: the caller gets it as it is, and where it is
/// the configuration, its data is decoded, and what is no data is an error for whom it is wanted for.
pub proof fn answer_goes_to_who_asked(
    loaded: Result<LoadResponseModel, LoadErrorModel>,
    raw_data: Seq<u8>,
    index_version: Option<Seq<char>>,
    error: LoadErrorModel,
    wanted: ConfigForModel,
    path: PathModel,
    version: Option<Seq<char>>,
)
    ensures
        answered(PurposeModel::Caller, loaded) == StepModel::Loaded(loaded),
        answered(PurposeModel::Config(wanted), loaded) == config_loaded(wanted, loaded),
        config_loaded(wanted, Ok(LoadResponseModel::Data { raw_data, index_version }))
            == (StepModel::DecodeConfig { raw_data, wanted }),
        config_loaded(wanted, Ok(LoadResponseModel::NotFound)) == config_failed(
            wanted,
            LoadErrorModel::ConfigNotFound,
        ),
        config_loaded(wanted, Ok(LoadResponseModel::CacheValid)) == config_failed(
            wanted,
            LoadErrorModel::ConfigNeverCached,
        ),
        config_loaded(wanted, Err(error)) == config_failed(wanted, error),
        config_failed(ConfigForModel::Caller, error) == StepModel::Configured(Err(error)),
        config_failed(ConfigForModel::Load { path, version }, error) == StepModel::Loaded(
            Err(error),
        ),
{
}

/// The configuration is requested with a token if one is needed, as far as is known. If nothing is
/// known, the copy at hand is read first.
pub proof fn config_is_requested_as_known(registry: RegistryModel, request: RequestModel)
    requires
        path_key(request.path) == config_key(),
        has_to_be_requested(registry, request.path, request.version),
    ensures
        registry.auth_required ==> is_requested(
            registry,
            request,
            registry.loading_config(request),
        ),
        !registry.auth_required ==> (registry.registry_config matches Some(config) ==> is_requested(
            RegistryModel { auth_required: config.auth_required, ..registry },
            request,
            registry.loading_config(request),
        )),
        !registry.auth_required && registry.registry_config is None ==> registry.loading_config(
            request,
        ) == (registry, StepModel::ReadCachedConfig(ReaderModel::Request(request))),
{
}

/// To load the configuration is to load `config.json` for the caller. Any other file that has to be
/// requested needs the configuration first.
pub proof fn config_comes_before_files(
    registry: RegistryModel,
    path: PathModel,
    version: Option<Seq<char>>,
)
    ensures
        path_key(path) == config_key() ==> registry.loading(path, version)
            == registry.loading_config(
            RequestModel { path, version, purpose: PurposeModel::Caller },
        ),
        path_key(path) != config_key() && has_to_be_requested(registry, path, version)
            ==> registry.loading(path, version) == registry.configuring(
            ConfigForModel::Load { path, version },
        ),
{
}

/// The configuration is what is known, if that need not be checked; else the copy at hand is read, if
/// that need not be checked; else `config.json` is loaded, and no copy of it counts.
pub proof fn config_is_known_or_loaded(registry: RegistryModel, wanted: ConfigForModel)
    ensures
        ({
            let fresh = !checks_copies(registry) || registry.fresh.contains(config_key());
            &&& fresh ==> (registry.registry_config matches Some(config) ==> registry.configuring(
                wanted,
            ) == registry.config_known(wanted, config))
            &&& fresh && registry.registry_config is None ==> registry.configuring(wanted) == (
                registry,
                StepModel::ReadCachedConfig(ReaderModel::Config(wanted)),
            )
            &&& !fresh ==> registry.configuring(wanted) == registry.config_missing(wanted)
        }),
        registry.config_missing(wanted) == registry.loading_config(
            RequestModel {
                path: config_path(),
                version: None,
                purpose: PurposeModel::Config(wanted),
            },
        ),
{
}

/// Once the configuration is known, the caller gets it as it is, and a file is requested, with a token
/// if and only if the configuration says so. Nothing else changes.
pub proof fn config_is_used(
    registry: RegistryModel,
    path: PathModel,
    version: Option<Seq<char>>,
    config: RegistryConfigModel,
)
    ensures
        registry.config_known(ConfigForModel::Caller, config) == (
            registry,
            StepModel::Configured(Ok(config)),
        ),
        is_requested(
            RegistryModel { auth_required: config.auth_required, ..registry },
            RequestModel { path, version, purpose: PurposeModel::Caller },
            registry.config_known(ConfigForModel::Load { path, version }, config),
        ),
{
}

/// The configuration that is loaded is handed on for decoding as it arrived, or its failure is an error
/// for whom it is wanted for.
pub proof fn loaded_config_is_decoded(
    registry: RegistryModel,
    wanted: ConfigForModel,
    completed: CompletedDownloadModel,
    error: DownloadErrorModel,
)
    requires
        hands_over(registry, config_path(), None),
    ensures
        registry.downloads.results[config_key()] == Ok::<_, DownloadErrorModel>(completed)
            && completed.response_code == StatusCode::Success ==> registry.config_missing(wanted)
            == (
            fetched(registry, config_key()),
            StepModel::DecodeConfig { raw_data: completed.data, wanted },
        ),
        registry.downloads.results[config_key()] == Ok::<_, DownloadErrorModel>(completed)
            && completed.response_code == StatusCode::NotFound ==> registry.config_missing(wanted)
            == (
            fetched(registry, config_key()),
            config_failed(wanted, LoadErrorModel::ConfigNotFound),
        ),
        registry.downloads.results[config_key()] == Ok::<_, DownloadErrorModel>(completed)
            && completed.response_code == StatusCode::NotModified ==> registry.config_missing(
            wanted,
        ) == (
            fetched(registry, config_key()),
            config_failed(wanted, LoadErrorModel::NotModifiedWithoutCache),
        ),
        registry.downloads.results[config_key()] == Ok::<_, DownloadErrorModel>(completed)
            && completed.response_code == StatusCode::Unauthorized && registry.auth_required
            ==> registry.config_missing(wanted) == (
            fetched(registry, config_key()),
            config_failed(
                wanted,
                LoadErrorModel::Unauthorized {
                    response: HttpNotSuccessfulModel {
                        code: 401,
                        url: registry.url + "config.json"@,
                        body: completed.data,
                    },
                    rejected: Some(
                        AuthorizationErrorModel {
                            sid: registry.sid,
                            login_url: registry.login_url,
                        },
                    ),
                },
            ),
        ),
        registry.downloads.results[config_key()] == Err::<CompletedDownloadModel, _>(error)
            ==> registry.config_missing(wanted) == (
            without(registry, config_key()),
            config_failed(
                wanted,
                LoadErrorModel::DownloadFailed { path: "config.json"@, error },
            ),
        ),
{
}

/// A configuration that is being downloaded is waited for, and one that was fetched and is lost is not
/// found.
pub proof fn config_is_waited_for(registry: RegistryModel, wanted: ConfigForModel)
    ensures
        registry.downloads.pending_paths.contains(config_key()) ==> registry.config_missing(wanted)
            == (registry, StepModel::Pending),
        registry.fresh.contains(config_key()) && !registry.downloads.pending_paths.contains(
            config_key(),
        ) ==> registry.config_missing(wanted) == (
            registry,
            config_failed(wanted, LoadErrorModel::ConfigNotFound),
        ),
{
}

/// A copy at hand of the configuration is taken over as it is where nothing is known, and then the
/// configuration is known. Where there is none, `config.json` is loaded, or requested without it.
pub proof fn copy_of_config_is_taken_over(
    registry: RegistryModel,
    wanted: ConfigForModel,
    request: RequestModel,
    config: RegistryConfigModel,
)
    requires
        registry.registry_config is None,
    ensures
        ({
            let after = RegistryModel { registry_config: Some(config), ..registry };
            &&& registry.after_cache(ReaderModel::Config(wanted), Some(config))
                == after.config_known(wanted, config)
            &&& is_requested(
                RegistryModel { auth_required: config.auth_required, ..after },
                request,
                registry.after_cache(ReaderModel::Request(request), Some(config)),
            )
            &&& registry.after_cache(ReaderModel::Config(wanted), None)
                == registry.config_missing(wanted)
            &&& is_requested(
                registry,
                request,
                registry.after_cache(ReaderModel::Request(request), None),
            )
        }),
{
}

/// What is known of the configuration stays as it is when a copy at hand was read.
pub proof fn known_config_is_used_as_it_is(
    registry: RegistryModel,
    wanted: ConfigForModel,
    request: RequestModel,
    config: RegistryConfigModel,
    cached: Option<RegistryConfigModel>,
)
    requires
        registry.registry_config == Some(config),
    ensures
        registry.after_cache(ReaderModel::Config(wanted), cached) == registry.config_known(
            wanted,
            config,
        ),
        is_requested(
            RegistryModel { auth_required: config.auth_required, ..registry },
            request,
            registry.after_cache(ReaderModel::Request(request), cached),
        ),
{
}

/// What the configuration decodes to is what is known from then on, word for word, and what the caller
/// gets once it is stored. The data is stored as it arrived. Nothing else changes.
pub proof fn decoded_config_is_known_and_given(
    registry: RegistryModel,
    raw_data: Seq<u8>,
    wanted: ConfigForModel,
    config: RegistryConfigModel,
)
    ensures
        ({
            let (after, step) = registry.after_decoding(raw_data, wanted, config);
            &&& after.registry_config matches Some(known) && known.dl == config.dl && known.api
                == config.api && known.auth_required == config.auth_required
            &&& after == (RegistryModel { registry_config: after.registry_config, ..registry })
            &&& step == (StepModel::StoreConfig { raw_data, wanted })
            &&& after.config_known(ConfigForModel::Caller, after.registry_config->0) == (
                after,
                StepModel::Configured(Ok(config)),
            )
        }),
{
}

/// The transport is set up for multiplexing unless the client says otherwise, with two connections to
/// a host at most. Nothing else changes.
pub proof fn transport_multiplexes_unless_told(
    registry: RegistryModel,
    request: RequestModel,
    configured: Option<bool>,
)
    ensures
        ({
            let (after, step) = registry.after_multiplexing(request, configured);
            &&& after == (RegistryModel { multiplexing: after.multiplexing, ..registry })
            &&& configured is None ==> after.multiplexing
            &&& configured matches Some(told) ==> after.multiplexing == told
            &&& step == (StepModel::StartTransport {
                multiplexing: after.multiplexing,
                max_host_connections: 2,
                request,
            })
        }),
{
}

/// A request that needs no token is sent without one. One that needs a token gets it from where it is
/// to be had, if that is enabled, and else is an error. The headers are those for the version at hand,
/// and then the token. Nothing changes.
pub proof fn token_is_sent_where_needed(
    registry: RegistryModel,
    request: RequestModel,
    token: Seq<char>,
)
    ensures
        registry.after_handle(request).0 == registry,
        !registry.auth_required ==> registry.after_handle(request).1 == (StepModel::SetHeaders {
            headers: request_headers(request.version, None),
            request,
        }),
        registry.auth_required && registry.config.registry_auth ==> registry.after_handle(request).1
            == (StepModel::GetToken { login_url: registry.login_url, request }),
        registry.auth_required && !registry.config.registry_auth ==> registry.after_handle(
            request,
        ).1 == answered(request.purpose, Err(LoadErrorModel::RegistryAuthUnstable)),
        registry.requesting(request, Some(token)) == (
            registry,
            StepModel::SetHeaders {
                headers: request_headers(request.version, None).push("Authorization: "@ + token),
                request,
            },
        ),
{
    token_is_the_last_header(request.version, token);
}

/// A request is sent under the next token, which is used up; then its path is being downloaded. Nothing
/// else changes.
pub proof fn request_is_sent_under_next_token(
    registry: RegistryModel,
    request: RequestModel,
    token: usize,
)
    requires
        registry.downloads.next <= usize::MAX,
    ensures
        registry.sending(request).0 == (RegistryModel {
            downloads: DownloadsModel {
                next: registry.downloads.next + 1,
                ..registry.downloads
            },
            ..registry
        }),
        registry.sending(request).1 matches StepModel::Send { token: used, request: sent } && used
            == registry.downloads.next && sent == request,
        registry.after_sending(token, request.path) == (
            RegistryModel {
                downloads: registry.downloads.with_pending(token, request.path),
                ..registry
            },
            StepModel::Pending,
        ),
{
}

/// The end of a transfer is judged by the URL of the path that it was for, and changes the downloads
/// only.
pub proof fn transfer_is_judged_by_its_url(
    registry: RegistryModel,
    token: usize,
    transfer: TransferModel,
    retry: bool,
)
    ensures
        registry.after_transfer(token, transfer, retry) == (RegistryModel {
            downloads: registry.downloads.after_transfer(
                token,
                registry.url + registry.downloads.pending[token].path.text,
                transfer,
                retry,
            ),
            ..registry
        }),
{
}

/// To invalidate the caches forgets what was fetched and requests an update. Nothing else changes.
pub proof fn invalidation_forgets_what_was_fetched(registry: RegistryModel, key: Seq<char>)
    ensures
        !registry.invalidated().fresh.contains(key),
        registry.invalidated().requested_update,
        registry.invalidated() == (RegistryModel {
            fresh: registry.invalidated().fresh,
            requested_update: true,
            ..registry
        }),
{
}

/// A registry has to be enabled, and its URL has to end in a slash. Then it is served where its URL says
/// after the prefix, and starts with nothing known, fetched, pending or requested.
pub proof fn registry_starts_with_nothing(
    source: SourceId,
    config: Config,
    rest: Seq<char>,
    url: Seq<char>,
)
    ensures
        !config.sparse_registry ==> opened(source, config) == Err::<RegistryModel, _>(
            NewError::SparseRegistryUnstable,
        ),
        config.sparse_registry && !(source.url@.len() > 0 && source.url@.last() == '/') ==> opened(
            source,
            config,
        ) == Err::<RegistryModel, _>(NewError::UrlWithoutSlash { url: source.url }),
        config.sparse_registry && source.url@ == "sparse+"@ + rest && rest.len() > 0 && rest.last()
            == '/' && url_text(rest) == Ok::<Seq<char>, Seq<char>>(url) ==> {
            &&& opened(source, config) matches Ok(registry) && registry.config == config
                && registry.sid == source.url@ && registry.url == url
                && !registry.requested_update && registry.downloads == DownloadsModel::empty()
                && !registry.multiplexing && registry.fresh == Set::<Seq<char>>::empty()
                && !registry.fetch_started && registry.registry_config is None
                && !registry.auth_required && registry.login_url is None
        },
{
    if source.url@ == "sparse+"@ + rest {
        reveal_strlit("sparse+");
        assert(source.url@.subrange(0, 7) =~= "sparse+"@);
        assert(source.url@.skip(7) =~= rest);
        assert(after_prefix(source.url@, "sparse+"@) == Some(rest));
    }
}

/// A source is served over HTTP if it is such a registry, its URL has the prefix, and what follows is a
/// URL.
pub proof fn prefix_says_served_over_http(source: SourceId, rest: Seq<char>)
    ensures
        served_over_http(source) ==> source.sparse && "sparse+"@.is_prefix_of(source.url@),
        source.url@ == "sparse+"@ + rest ==> (served_over_http(source) <==> source.sparse
            && url_text(rest) is Ok),
{
    if source.url@ == "sparse+"@ + rest {
        reveal_strlit("sparse+");
        assert(source.url@.subrange(0, 7) =~= "sparse+"@);
        assert(source.url@.skip(7) =~= rest);
        assert(after_prefix(source.url@, "sparse+"@) == Some(rest));
    }
}

/// What is held of a value is what stands in its fields.
pub proof fn models_show_the_fields(
    config: RegistryConfig,
    headers: Headers,
    response: HttpNotSuccessful,
    completed: CompletedDownload,
    rejected: AuthorizationError,
    ended: Ended,
    login: Login,
)
    ensures
        config@.dl == config.dl@,
        config.api is None <==> config@.api is None,
        config.api matches Some(api) ==> config@.api == Some(api@),
        config@.auth_required == config.auth_required,
        headers.etag is None <==> headers@.etag is None,
        headers.etag matches Some(etag) ==> headers@.etag == Some(etag@),
        headers.last_modified is None <==> headers@.last_modified is None,
        headers.last_modified matches Some(date) ==> headers@.last_modified == Some(date@),
        headers@.www_authenticate == headers.www_authenticate.deep_view(),
        response@.code == response.code,
        response@.url == response.url@,
        response@.body == response.body@,
        completed@.response_code == completed.response_code,
        completed@.data == completed.data@,
        completed@.header_map == completed.header_map@,
        rejected@.sid == rejected.sid@,
        rejected@.login_url == rejected.login_url.deep_view(),
        ended@.token == ended.token,
        ended@.retry == ended.retry,
        ended@.transfer == ended.transfer@,
        login@.0 == login.text@,
        login.url matches Ok(url) ==> login@.1 == Ok::<Seq<char>, Seq<char>>(url@),
        login.url matches Err(error) ==> login@.1 == Err::<Seq<char>, Seq<char>>(error@),
{
}

/// Transfers end one after the other. One is made again if and only if it is worth another try and its
/// end is an error, and the tokens of those come in order.
pub proof fn transfers_end_one_after_the_other(
    registry: RegistryModel,
    ended: Seq<EndedModel>,
    last: EndedModel,
)
    ensures
        registry.after_transfers(Seq::empty()) == registry,
        registry.after_transfers(ended.push(last)) == registry.after_transfers(
            ended,
        ).after_transfer(last.token, last.transfer, last.retry),
        ({
            let download = registry.downloads.pending[last.token];
            registry.is_tried_again(last) <==> last.retry && verdict(
                last.transfer,
                registry.url + download.path.text,
                download.data,
            ) is Err
        }),
        registry.tried_again(Seq::empty()) == Seq::<usize>::empty(),
        registry.is_tried_again(last) ==> registry.tried_again(ended.push(last))
            == registry.tried_again(ended).push(last.token),
        !registry.is_tried_again(last) ==> registry.tried_again(ended.push(last))
            == registry.tried_again(ended),
{
    assert(ended.push(last).drop_last() =~= ended);
}

/// What is held of a step is what stands in it.
pub proof fn models_show_the_step(step: Step)
    ensures
        match step {
            Step::Pending => step@ == StepModel::Pending,
            Step::Loaded(loaded) => step@ == StepModel::Loaded(loaded_view(loaded)),
            Step::Configured(Ok(config)) => step@ == StepModel::Configured(Ok(config@)),
            Step::Configured(Err(error)) => step@ == StepModel::Configured(Err(error@)),
            Step::ReadCachedConfig(reader) => step@ == StepModel::ReadCachedConfig(reader@),
            Step::DecodeConfig { raw_data, wanted } => step@ == (StepModel::DecodeConfig {
                raw_data: raw_data@,
                wanted: wanted@,
            }),
            Step::StoreConfig { raw_data, wanted } => step@ == (StepModel::StoreConfig {
                raw_data: raw_data@,
                wanted: wanted@,
            }),
            Step::ReadMultiplexing(request) => step@ == StepModel::ReadMultiplexing(request@),
            Step::StartTransport { multiplexing, max_host_connections, request } => step@
                == (StepModel::StartTransport {
                multiplexing,
                max_host_connections,
                request: request@,
            }),
            Step::OpenHandle { url, http2, request } => step@ == (StepModel::OpenHandle {
                url: url@,
                http2,
                request: request@,
            }),
            Step::GetToken { login_url, request } => step@ == (StepModel::GetToken {
                login_url: login_url.deep_view(),
                request: request@,
            }),
            Step::SetHeaders { headers, request } => step@ == (StepModel::SetHeaders {
                headers: headers.deep_view(),
                request: request@,
            }),
            Step::Send { token, request } => step@ == (StepModel::Send {
                token,
                request: request@,
            }),
        },
{
}

/// What is held of a request is what stands in it.
pub proof fn models_show_the_request(
    request: Request,
    wanted: ConfigFor,
    purpose: Purpose,
    reader: Reader,
    action: DownloadAction,
)
    ensures
        request@.path == request.path@,
        request@.version == request.version.deep_view(),
        request@.purpose == request.purpose@,
        wanted is Caller <==> wanted@ is Caller,
        wanted matches ConfigFor::Load { path, version } ==> wanted@ == (ConfigForModel::Load {
            path: path@,
            version: version.deep_view(),
        }),
        purpose is Caller <==> purpose@ is Caller,
        purpose matches Purpose::Config(wanted) ==> purpose@ == PurposeModel::Config(wanted@),
        reader matches Reader::Config(wanted) ==> reader@ == ReaderModel::Config(wanted@),
        reader matches Reader::Request(request) ==> reader@ == ReaderModel::Request(request@),
        action is Wait <==> action@ is Wait,
        action matches DownloadAction::Fetch(config) ==> action@ == DownloadActionModel::Fetch(
            config@,
        ),
        action matches DownloadAction::Fail(error) ==> action@ == DownloadActionModel::Fail(error@),
{
}

/// What is held of an answer is what stands in it.
pub proof fn models_show_the_answer(
    loaded: Loaded,
    response: LoadResponse,
    error: LoadError,
    outcome: Outcome,
)
    ensures
        loaded matches Ok(response) ==> loaded_view(loaded) == Ok::<_, LoadErrorModel>(response@),
        loaded matches Err(error) ==> loaded_view(loaded) == Err::<LoadResponseModel, _>(error@),
        outcome matches Ok(completed) ==> outcome_view(outcome) == Ok::<_, DownloadErrorModel>(
            completed@,
        ),
        outcome matches Err(error) ==> outcome_view(outcome) == Err::<CompletedDownloadModel, _>(
            error@,
        ),
        match response {
            LoadResponse::CacheValid => response@ == LoadResponseModel::CacheValid,
            LoadResponse::NotFound => response@ == LoadResponseModel::NotFound,
            LoadResponse::Data { raw_data, index_version } => response@
                == (LoadResponseModel::Data {
                raw_data: raw_data@,
                index_version: index_version.deep_view(),
            }),
        },
        match error {
            LoadError::DownloadFailed { path, error: cause } => error@
                == (LoadErrorModel::DownloadFailed { path: path@, error: cause@ }),
            LoadError::NotModifiedWithoutCache => error@ == LoadErrorModel::NotModifiedWithoutCache,
            LoadError::Unauthorized { response, rejected } => error@
                matches LoadErrorModel::Unauthorized { response: held, rejected: shown } && held
                == response@ && (rejected is None <==> shown is None) && (rejected matches Some(
                rejected,
            ) ==> shown == Some(rejected@)),
            LoadError::InvalidLoginUrl { text, reason } => error@
                == (LoadErrorModel::InvalidLoginUrl { text: text@, reason: reason@ }),
            LoadError::RegistryAuthUnstable => error@ == LoadErrorModel::RegistryAuthUnstable,
            LoadError::ConfigNotFound => error@ == LoadErrorModel::ConfigNotFound,
            LoadError::ConfigNeverCached => error@ == LoadErrorModel::ConfigNeverCached,
        },
{
}

/// What is held of a transfer is what stands in it.
pub proof fn models_show_the_transfer(
    transfer: Transfer,
    error: DownloadError,
    part: Part,
    challenge: Challenge,
)
    ensures
        match transfer {
            Transfer::Failed { cause } => transfer@ == (TransferModel::Failed { cause: cause@ }),
            Transfer::Unreadable { cause } => transfer@ == (TransferModel::Unreadable {
                cause: cause@,
            }),
            Transfer::Responded { code, effective_url: Ok(url) } => transfer@
                == (TransferModel::Responded { code, effective_url: Ok(url.deep_view()) }),
            Transfer::Responded { code, effective_url: Err(cause) } => transfer@
                == (TransferModel::Responded { code, effective_url: Err(cause@) }),
        },
        match error {
            DownloadError::Transfer { url, cause } => error@ == (DownloadErrorModel::Transfer {
                url: url@,
                cause: cause@,
            }),
            DownloadError::Unreadable { cause } => error@ == (DownloadErrorModel::Unreadable {
                cause: cause@,
            }),
            DownloadError::NotSuccessful(response) => error@ == DownloadErrorModel::NotSuccessful(
                response@,
            ),
        },
        match part {
            Part::Prefix(text) => part@ == PartModel::Prefix(text@),
            Part::Root => part@ == PartModel::Root,
            Part::Current => part@ == PartModel::Current,
            Part::Parent => part@ == PartModel::Parent,
            Part::Normal(text) => part@ == PartModel::Normal(text@),
        },
        challenge@ == (challenge.scheme@, challenge.params.deep_view()),
{
}

} // verus!
