//! How an index file is loaded.
//!
//! To load a file, or the configuration of the registry, takes outside work: files to read,
//! connections to make, tokens to get. Each [`Step`] says what is to be done next, and for each
//! piece of outside work there is a method of [`HttpRegistry`] that takes what came of it and
//! gives the next step. Where outside work fails, loading ends there.

use vstd::prelude::*;

use crate::login::{last_login, logins_of, pick_login, read_logins, Login, LoginModel};
use crate::path::{
    config_key, config_path, lemma_config_path, path_key, IndexPath, PathModel, CONFIG_JSON,
};
use crate::registry::{HttpRegistry, RegistryConfig, RegistryConfigModel, RegistryModel};
use crate::response::{
    loaded_view, outcome_view, AuthorizationError, AuthorizationErrorModel,
    CompletedDownloadModel, HttpNotSuccessful, HttpNotSuccessfulModel, LoadError, LoadErrorModel,
    LoadResponse, LoadResponseModel, Loaded, LoadedModel, Outcome, OutcomeModel, StatusCode,
};
use crate::version::{index_version, make_request_headers, request_headers, version_of};

verus! {

/// How many connections to one host there are at most, so that the server is not flooded.
pub const MAX_HOST_CONNECTIONS: usize = 2;

/// What the configuration of the registry is wanted for.
pub enum ConfigFor {
    /// The caller asked for it.
    Caller,
    /// The file at `path`, of which the version `version` is at hand, is to be requested.
    Load { path: IndexPath, version: Option<String> },
}

/// What [`ConfigFor`] holds.
#[verifier::ext_equal]
pub ghost enum ConfigForModel {
    Caller,
    Load { path: PathModel, version: Option<Seq<char>> },
}

impl View for ConfigFor {
    type V = ConfigForModel;

    open spec fn view(&self) -> ConfigForModel {
        match self {
            ConfigFor::Caller => ConfigForModel::Caller,
            ConfigFor::Load { path, version } => ConfigForModel::Load {
                path: path@,
                version: version.deep_view(),
            },
        }
    }
}

/// What a file is wanted for.
pub enum Purpose {
    /// The caller asked for it.
    Caller,
    /// It is the configuration of the registry.
    Config(ConfigFor),
}

/// What [`Purpose`] holds.
#[verifier::ext_equal]
pub ghost enum PurposeModel {
    Caller,
    Config(ConfigForModel),
}

impl View for Purpose {
    type V = PurposeModel;

    open spec fn view(&self) -> PurposeModel {
        match self {
            Purpose::Caller => PurposeModel::Caller,
            Purpose::Config(wanted) => PurposeModel::Config(wanted@),
        }
    }
}

/// A file that is wanted.
pub struct Request {
    pub path: IndexPath,
    /// The version that is at hand.
    pub version: Option<String>,
    pub purpose: Purpose,
}

/// What [`Request`] holds.
#[verifier::ext_equal]
pub ghost struct RequestModel {
    pub path: PathModel,
    pub version: Option<Seq<char>>,
    pub purpose: PurposeModel,
}

impl View for Request {
    type V = RequestModel;

    open spec fn view(&self) -> RequestModel {
        RequestModel {
            path: self.path@,
            version: self.version.deep_view(),
            purpose: self.purpose@,
        }
    }
}

/// What the copy at hand of the configuration is read for.
pub enum Reader {
    Config(ConfigFor),
    Request(Request),
}

/// What [`Reader`] holds.
#[verifier::ext_equal]
pub ghost enum ReaderModel {
    Config(ConfigForModel),
    Request(RequestModel),
}

impl View for Reader {
    type V = ReaderModel;

    open spec fn view(&self) -> ReaderModel {
        match self {
            Reader::Config(wanted) => ReaderModel::Config(wanted@),
            Reader::Request(request) => ReaderModel::Request(request@),
        }
    }
}

/// What is to be done next.
pub enum Step {
    /// A download is under way: nothing, until it ended.
    Pending,
    /// Nothing: this is the answer to a request for a file.
    Loaded(Loaded),
    /// Nothing: this is the configuration of the registry.
    Configured(Result<RegistryConfig, LoadError>),
    /// Read the copy at hand of `config.json`; then [`HttpRegistry::config_cached`].
    ReadCachedConfig(Reader),
    /// Decode `raw_data` as a configuration; then [`HttpRegistry::config_decoded`].
    DecodeConfig { raw_data: Vec<u8>, wanted: ConfigFor },
    /// Keep `raw_data` as the copy of `config.json`, if possible; then
    /// [`HttpRegistry::config_stored`].
    StoreConfig { raw_data: Vec<u8>, wanted: ConfigFor },
    /// Look up whether the client is set up for multiplexing; then
    /// [`HttpRegistry::multiplexing_configured`].
    ReadMultiplexing(Request),
    /// Set up the transport, with that many connections to one host at most, and tell the user;
    /// then [`HttpRegistry::transport_started`].
    StartTransport { multiplexing: bool, max_host_connections: usize, request: Request },
    /// Make a handle for a transfer from `url`, with HTTP/2 or else with HTTP/1.1; then
    /// [`HttpRegistry::handle_opened`].
    OpenHandle { url: String, http2: bool, request: Request },
    /// Get a token, for which `login_url` is the place if it is known; then
    /// [`HttpRegistry::token_received`].
    GetToken { login_url: Option<String>, request: Request },
    /// Set the headers `headers` on the handle; then [`HttpRegistry::headers_set`].
    SetHeaders { headers: Vec<String>, request: Request },
    /// Add the transfer `token` to the transport; then [`HttpRegistry::request_sent`].
    Send { token: usize, request: Request },
}

/// What [`Step`] holds.
#[verifier::ext_equal]
pub ghost enum StepModel {
    Pending,
    Loaded(LoadedModel),
    Configured(Result<RegistryConfigModel, LoadErrorModel>),
    ReadCachedConfig(ReaderModel),
    DecodeConfig { raw_data: Seq<u8>, wanted: ConfigForModel },
    StoreConfig { raw_data: Seq<u8>, wanted: ConfigForModel },
    ReadMultiplexing(RequestModel),
    StartTransport { multiplexing: bool, max_host_connections: usize, request: RequestModel },
    OpenHandle { url: Seq<char>, http2: bool, request: RequestModel },
    GetToken { login_url: Option<Seq<char>>, request: RequestModel },
    SetHeaders { headers: Seq<Seq<char>>, request: RequestModel },
    Send { token: usize, request: RequestModel },
}

impl View for Step {
    type V = StepModel;

    open spec fn view(&self) -> StepModel {
        match self {
            Step::Pending => StepModel::Pending,
            Step::Loaded(loaded) => StepModel::Loaded(loaded_view(*loaded)),
            Step::Configured(configured) => StepModel::Configured(
                match configured {
                    Ok(config) => Ok(config@),
                    Err(error) => Err(error@),
                },
            ),
            Step::ReadCachedConfig(reader) => StepModel::ReadCachedConfig(reader@),
            Step::DecodeConfig { raw_data, wanted } => StepModel::DecodeConfig {
                raw_data: raw_data@,
                wanted: wanted@,
            },
            Step::StoreConfig { raw_data, wanted } => StepModel::StoreConfig {
                raw_data: raw_data@,
                wanted: wanted@,
            },
            Step::ReadMultiplexing(request) => StepModel::ReadMultiplexing(request@),
            Step::StartTransport { multiplexing, max_host_connections, request } =>
                StepModel::StartTransport {
                multiplexing: *multiplexing,
                max_host_connections: *max_host_connections,
                request: request@,
            },
            Step::OpenHandle { url, http2, request } => StepModel::OpenHandle {
                url: url@,
                http2: *http2,
                request: request@,
            },
            Step::GetToken { login_url, request } => StepModel::GetToken {
                login_url: login_url.deep_view(),
                request: request@,
            },
            Step::SetHeaders { headers, request } => StepModel::SetHeaders {
                headers: headers.deep_view(),
                request: request@,
            },
            Step::Send { token, request } => StepModel::Send { token: *token, request: request@ },
        }
    }
}

/// What is to be done when the configuration that is wanted for `wanted` cannot be had.
pub open spec fn config_failed(wanted: ConfigForModel, error: LoadErrorModel) -> StepModel {
    match wanted {
        ConfigForModel::Caller => StepModel::Configured(Err(error)),
        ConfigForModel::Load { .. } => StepModel::Loaded(Err(error)),
    }
}

/// What is to be done when `loaded` is the answer to a request for `config.json`, which is wanted
/// for `wanted`.
pub open spec fn config_loaded(wanted: ConfigForModel, loaded: LoadedModel) -> StepModel {
    match loaded {
        Ok(LoadResponseModel::Data { raw_data, .. }) => StepModel::DecodeConfig {
            raw_data,
            wanted,
        },
        Ok(LoadResponseModel::NotFound) => config_failed(wanted, LoadErrorModel::ConfigNotFound),
        Ok(LoadResponseModel::CacheValid) => config_failed(
            wanted,
            LoadErrorModel::ConfigNeverCached,
        ),
        Err(error) => config_failed(wanted, error),
    }
}

/// What is to be done when `loaded` is the answer to a request for a file that is wanted for
/// `purpose`.
pub open spec fn answered(purpose: PurposeModel, loaded: LoadedModel) -> StepModel {
    match purpose {
        PurposeModel::Caller => StepModel::Loaded(loaded),
        PurposeModel::Config(wanted) => config_loaded(wanted, loaded),
    }
}

/// What is to be done next for the download of a package.
pub enum DownloadAction {
    /// Wait until files are ready, then ask for the configuration of the registry again.
    Wait,
    /// Fetch the package from where the configuration says.
    Fetch(RegistryConfig),
    /// Give up.
    Fail(LoadError),
}

/// What [`DownloadAction`] holds.
#[verifier::ext_equal]
pub ghost enum DownloadActionModel {
    Wait,
    Fetch(RegistryConfigModel),
    Fail(LoadErrorModel),
}

impl View for DownloadAction {
    type V = DownloadActionModel;

    open spec fn view(&self) -> DownloadActionModel {
        match self {
            DownloadAction::Wait => DownloadActionModel::Wait,
            DownloadAction::Fetch(config) => DownloadActionModel::Fetch(config@),
            DownloadAction::Fail(error) => DownloadActionModel::Fail(error@),
        }
    }
}

/// What is to be done next for the download of a package, when to ask for the configuration of the
/// registry came to `step`.
pub fn download_next(step: Step) -> (action: DownloadAction)
    requires
        step@ is Pending || step@ is Configured,
    ensures
        action@ == (match step@ {
            StepModel::Configured(Ok(config)) => DownloadActionModel::Fetch(config),
            StepModel::Configured(Err(error)) => DownloadActionModel::Fail(error),
            _ => DownloadActionModel::Wait,
        }),
{
    match step {
        Step::Configured(Ok(config)) => DownloadAction::Fetch(config),
        Step::Configured(Err(error)) => DownloadAction::Fail(error),
        _ => DownloadAction::Wait,
    }
}

impl RegistryModel {
    /// The answer to `request` when its download ended as `completed`; nothing if the download is
    /// to be tried again with an authorization.
    pub open spec fn answer(
        self,
        request: RequestModel,
        completed: CompletedDownloadModel,
    ) -> Option<LoadedModel> {
        match completed.response_code {
            StatusCode::Success => Some(
                Ok(
                    LoadResponseModel::Data {
                        raw_data: completed.data,
                        index_version: Some(version_of(completed.header_map)),
                    },
                ),
            ),
            StatusCode::NotModified => Some(
                if request.version is None {
                    Err(LoadErrorModel::NotModifiedWithoutCache)
                } else {
                    Ok(LoadResponseModel::CacheValid)
                },
            ),
            StatusCode::NotFound => Some(Ok(LoadResponseModel::NotFound)),
            StatusCode::Unauthorized => if !self.auth_required && path_key(request.path)
                == config_key() {
                None
            } else {
                Some(
                    Err(
                        LoadErrorModel::Unauthorized {
                            response: HttpNotSuccessfulModel {
                                code: 401,
                                url: self.full_url(request.path),
                                body: completed.data,
                            },
                            rejected: if self.auth_required {
                                Some(
                                    AuthorizationErrorModel {
                                        sid: self.sid,
                                        login_url: self.login_url,
                                    },
                                )
                            } else {
                                None
                            },
                        },
                    ),
                )
            },
        }
    }

    /// The registry and what is to be done when `request`, which carried no authorization, is refused
    /// for want of one, and `logins` say where to get a token; nothing if the file is to be requested
    /// again.
    pub open spec fn refused(self, request: RequestModel, logins: Seq<LoginModel>) -> (
        RegistryModel,
        Option<StepModel>,
    ) {
        let (login_url, invalid) = last_login(self.login_url, logins);
        (
            RegistryModel { auth_required: true, login_url, ..self },
            match invalid {
                Some((text, reason)) => Some(
                    answered(
                        request.purpose,
                        Err(LoadErrorModel::InvalidLoginUrl { text, reason }),
                    ),
                ),
                None => None,
            },
        )
    }

    /// The registry and what is to be done when `outcome` is the result for `request`, which was
    /// taken; nothing if the file is to be requested again.
    pub open spec fn settled(
        self,
        request: RequestModel,
        outcome: OutcomeModel,
    ) -> (RegistryModel, Option<StepModel>) {
        match outcome {
            Err(error) => (
                self,
                Some(
                    answered(
                        request.purpose,
                        Err(LoadErrorModel::DownloadFailed { path: request.path.text, error }),
                    ),
                ),
            ),
            Ok(completed) => match self.answer(request, completed) {
                Some(loaded) => (
                    RegistryModel { fresh: self.fresh.insert(path_key(request.path)), ..self },
                    Some(answered(request.purpose, loaded)),
                ),
                None => self.refused(request, logins_of(completed.header_map.www_authenticate)),
            },
        }
    }

    /// The registry and what is to be done when `request` is made, as far as that takes no outside
    /// work; nothing if the file is to be requested.
    pub open spec fn looked_up(self, request: RequestModel) -> (RegistryModel, Option<StepModel>) {
        let key = path_key(request.path);
        if self.downloads.pending_paths.contains(key) {
            (self, Some(StepModel::Pending))
        } else if request.version is Some && self.is_fresh(key) {
            (self, Some(answered(request.purpose, Ok(LoadResponseModel::CacheValid))))
        } else if request.version is None && self.fresh.contains(key) {
            // There is no copy at hand of a file that was fetched.
            (self, Some(answered(request.purpose, Ok(LoadResponseModel::NotFound))))
        } else if self.downloads.results.contains_key(key) {
            RegistryModel { downloads: self.downloads.without_result(key), ..self }.settled(
                request,
                self.downloads.results[key],
            )
        } else {
            (self, None)
        }
    }

    /// The registry and what is to be done when a handle for `request` is wanted.
    pub open spec fn opening(self, request: RequestModel) -> (RegistryModel, StepModel) {
        (
            self,
            StepModel::OpenHandle {
                url: self.full_url(request.path),
                http2: self.multiplexing,
                request,
            },
        )
    }

    /// The registry and what is to be done when the file of `request` is to be fetched.
    pub open spec fn fetching(self, request: RequestModel) -> (RegistryModel, StepModel) {
        if self.fetch_started {
            self.opening(request)
        } else {
            (
                RegistryModel { fetch_started: true, ..self },
                StepModel::ReadMultiplexing(request),
            )
        }
    }

    /// The registry and what is to be done when `config.json` is to be requested.
    pub open spec fn requesting_config(self, request: RequestModel) -> (RegistryModel, StepModel) {
        if self.auth_required {
            self.fetching(request)
        } else {
            match self.registry_config {
                Some(config) => RegistryModel {
                    auth_required: config.auth_required,
                    ..self
                }.fetching(request),
                None => (self, StepModel::ReadCachedConfig(ReaderModel::Request(request))),
            }
        }
    }

    /// The registry and what is to be done when `request`, which is for `config.json`, is made.
    pub open spec fn loading_config(self, request: RequestModel) -> (RegistryModel, StepModel) {
        let (registry, step) = self.looked_up(request);
        match step {
            Some(step) => (registry, step),
            None => registry.requesting_config(request),
        }
    }

    /// The registry and what is to be done when its configuration, which is wanted for `wanted`, is
    /// not at hand.
    pub open spec fn config_missing(self, wanted: ConfigForModel) -> (RegistryModel, StepModel) {
        self.loading_config(
            RequestModel {
                path: config_path(),
                version: None,
                purpose: PurposeModel::Config(wanted),
            },
        )
    }

    /// The registry and what is to be done when its configuration, which is wanted for `wanted`, is
    /// `config`.
    pub open spec fn config_known(
        self,
        wanted: ConfigForModel,
        config: RegistryConfigModel,
    ) -> (RegistryModel, StepModel) {
        match wanted {
            ConfigForModel::Caller => (self, StepModel::Configured(Ok(config))),
            ConfigForModel::Load { path, version } => RegistryModel {
                auth_required: config.auth_required,
                ..self
            }.fetching(RequestModel { path, version, purpose: PurposeModel::Caller }),
        }
    }

    /// The registry and what is to be done when its configuration is wanted for `wanted`.
    pub open spec fn configuring(self, wanted: ConfigForModel) -> (RegistryModel, StepModel) {
        if !self.is_fresh(config_key()) {
            self.config_missing(wanted)
        } else {
            match self.registry_config {
                Some(config) => self.config_known(wanted, config),
                None => (self, StepModel::ReadCachedConfig(ReaderModel::Config(wanted))),
            }
        }
    }

    /// The registry and what is to be done when the file at `path`, of which the version `version`
    /// is at hand, is to be loaded.
    pub open spec fn loading(self, path: PathModel, version: Option<Seq<char>>) -> (
        RegistryModel,
        StepModel,
    ) {
        let request = RequestModel { path, version, purpose: PurposeModel::Caller };
        if path_key(path) == config_key() {
            self.loading_config(request)
        } else {
            let (registry, step) = self.looked_up(request);
            match step {
                Some(step) => (registry, step),
                None => registry.configuring(ConfigForModel::Load { path, version }),
            }
        }
    }

    /// The registry and what is to be done when `reader` has what it was to read. What the registry
    /// knows takes precedence over what was read.
    pub open spec fn after_cache(
        self,
        reader: ReaderModel,
        cached: Option<RegistryConfigModel>,
    ) -> (RegistryModel, StepModel) {
        let known = if self.registry_config is Some {
            self.registry_config
        } else {
            cached
        };
        let registry = RegistryModel { registry_config: known, ..self };
        match (reader, known) {
            (ReaderModel::Config(wanted), Some(config)) => registry.config_known(wanted, config),
            (ReaderModel::Config(wanted), None) => registry.config_missing(wanted),
            (ReaderModel::Request(request), Some(config)) => RegistryModel {
                auth_required: config.auth_required,
                ..registry
            }.fetching(request),
            (ReaderModel::Request(request), None) => registry.fetching(request),
        }
    }

    /// The registry and what is to be done when `raw_data`, which was loaded for `wanted`, says
    /// `config`.
    pub open spec fn after_decoding(
        self,
        raw_data: Seq<u8>,
        wanted: ConfigForModel,
        config: RegistryConfigModel,
    ) -> (RegistryModel, StepModel) {
        (
            RegistryModel { registry_config: Some(config), ..self },
            StepModel::StoreConfig { raw_data, wanted },
        )
    }

    /// The registry and what is to be done when `configured` says whether the client is set up for
    /// multiplexing, which it is unless it says otherwise.
    pub open spec fn after_multiplexing(self, request: RequestModel, configured: Option<bool>) -> (
        RegistryModel,
        StepModel,
    ) {
        let multiplexing = configured != Some(false);
        (
            RegistryModel { multiplexing, ..self },
            StepModel::StartTransport {
                multiplexing,
                max_host_connections: MAX_HOST_CONNECTIONS,
                request,
            },
        )
    }

    /// The registry and what is to be done to make `request` with the authorization
    /// `authorization`.
    pub open spec fn requesting(
        self,
        request: RequestModel,
        authorization: Option<Seq<char>>,
    ) -> (RegistryModel, StepModel) {
        (
            self,
            StepModel::SetHeaders {
                headers: request_headers(request.version, authorization),
                request,
            },
        )
    }

    /// The registry and what is to be done when the handle for `request` has its headers.
    pub open spec fn sending(self, request: RequestModel) -> (RegistryModel, StepModel) {
        (
            RegistryModel { downloads: self.downloads.with_token(), ..self },
            StepModel::Send { token: self.downloads.next as usize, request },
        )
    }

    /// The registry and what is to be done when the transfer `token` for `path` was added to the
    /// transport.
    pub open spec fn after_sending(self, token: usize, path: PathModel) -> (
        RegistryModel,
        StepModel,
    ) {
        (
            RegistryModel { downloads: self.downloads.with_pending(token, path), ..self },
            StepModel::Pending,
        )
    }

    /// The registry and what is to be done when there is a handle for `request`.
    pub open spec fn after_handle(self, request: RequestModel) -> (RegistryModel, StepModel) {
        if !self.auth_required {
            self.requesting(request, None)
        } else if !self.config.registry_auth {
            (
                self,
                answered(request.purpose, Err(LoadErrorModel::RegistryAuthUnstable)),
            )
        } else {
            (self, StepModel::GetToken { login_url: self.login_url, request })
        }
    }

    /// Whether what the configuration is wanted for can still be requested.
    pub open spec fn config_for_ok(self, wanted: ConfigForModel) -> bool {
        match wanted {
            ConfigForModel::Caller => true,
            ConfigForModel::Load { path, .. } => self.idle(path_key(path)) && path_key(path)
                != config_key(),
        }
    }

    /// Whether what the file of `request` is wanted for fits the request.
    pub open spec fn purpose_ok(self, request: RequestModel) -> bool {
        match request.purpose {
            PurposeModel::Caller => true,
            PurposeModel::Config(wanted) => path_key(request.path) == config_key()
                && request.version is None && self.config_for_ok(wanted),
        }
    }

    /// Whether `request` can be sent.
    pub open spec fn request_ok(self, request: RequestModel) -> bool {
        &&& self.idle(path_key(request.path))
        &&& self.purpose_ok(request)
    }

    /// Whether what `reader` reads the copy at hand for can still be done.
    pub open spec fn reader_ok(self, reader: ReaderModel) -> bool {
        match reader {
            ReaderModel::Config(wanted) => self.config_for_ok(wanted),
            ReaderModel::Request(request) => self.request_ok(request) && path_key(request.path)
                == config_key(),
        }
    }

    /// Whether what is to be done next can be done. The copy at hand of the configuration is read
    /// only while none is known.
    pub open spec fn step_ok(self, step: StepModel) -> bool {
        match step {
            StepModel::Pending | StepModel::Loaded(_) | StepModel::Configured(_) => true,
            StepModel::ReadCachedConfig(reader) => self.reader_ok(reader)
                && self.registry_config is None,
            StepModel::DecodeConfig { wanted, .. } => self.config_for_ok(wanted),
            StepModel::StoreConfig { wanted, .. } => self.config_for_ok(wanted)
                && self.registry_config is Some,
            StepModel::ReadMultiplexing(request) => self.request_ok(request),
            StepModel::StartTransport { request, .. } => self.request_ok(request),
            StepModel::OpenHandle { request, .. } => self.request_ok(request),
            StepModel::GetToken { request, .. } => self.request_ok(request),
            StepModel::SetHeaders { request, .. } => self.request_ok(request),
            StepModel::Send { token, request } => self.request_ok(request) && token
                < self.downloads.next && !self.downloads.pending.contains_key(token),
        }
    }
}

fn fail_config(wanted: ConfigFor, error: LoadError) -> (step: Step)
    ensures
        step@ == config_failed(wanted@, error@),
{
    match wanted {
        ConfigFor::Caller => Step::Configured(Err(error)),
        ConfigFor::Load { .. } => Step::Loaded(Err(error)),
    }
}

/// What is to be done when `loaded` is the answer to a request for `config.json`, which is wanted
/// for `wanted`.
pub fn step_after_config(wanted: ConfigFor, loaded: Loaded) -> (step: Step)
    ensures
        step@ == config_loaded(wanted@, loaded_view(loaded)),
{
    match loaded {
        Ok(LoadResponse::Data { raw_data, .. }) => Step::DecodeConfig { raw_data, wanted },
        Ok(LoadResponse::NotFound) => fail_config(wanted, LoadError::ConfigNotFound),
        Ok(LoadResponse::CacheValid) => fail_config(wanted, LoadError::ConfigNeverCached),
        Err(error) => fail_config(wanted, error),
    }
}

fn step_after_answer(purpose: Purpose, loaded: Loaded) -> (step: Step)
    ensures
        step@ == answered(purpose@, loaded_view(loaded)),
{
    match purpose {
        Purpose::Caller => Step::Loaded(loaded),
        Purpose::Config(wanted) => step_after_config(wanted, loaded),
    }
}

impl HttpRegistry {
    /// Takes note that `request`, which carried no authorization, is refused for want of one, and
    /// that `logins` say where to get a token: either what is to be done next, or that the file is
    /// to be requested again.
    pub fn refuse(&mut self, request: Request, logins: Vec<Login>) -> (r: Result<Step, Request>)
        requires
            old(self).wf(),
            old(self)@.request_ok(request@),
        ensures
            final(self).wf(),
            match r {
                Ok(step) => old(self)@.refused(request@, logins.deep_view()) == (
                    final(self)@,
                    Some(step@),
                ) && final(self)@.step_ok(step@),
                Err(same) => old(self)@.refused(request@, logins.deep_view()) == (
                    final(self)@,
                    None::<StepModel>,
                ) && same@ == request@ && final(self)@.request_ok(request@),
            },
    {
        self.set_authorization(true);
        let (login_url, invalid) = pick_login(self.login_url(), logins);
        self.set_login_url(login_url);
        match invalid {
            Some((text, reason)) => Ok(
                step_after_answer(
                    request.purpose,
                    Err(LoadError::InvalidLoginUrl { text, reason }),
                ),
            ),
            None => Err(request),
        }
    }

    /// Takes note of what `outcome`, the result for `request`, means: either what is to be done
    /// next, or that the file is to be requested again.
    fn settle(&mut self, request: Request, outcome: Outcome) -> (r: Result<Step, Request>)
        requires
            old(self).wf(),
            old(self)@.request_ok(request@),
        ensures
            final(self).wf(),
            match r {
                Ok(step) => old(self)@.settled(request@, outcome_view(outcome)) == (
                    final(self)@,
                    Some(step@),
                ) && final(self)@.step_ok(step@),
                Err(same) => old(self)@.settled(request@, outcome_view(outcome)) == (
                    final(self)@,
                    None::<StepModel>,
                ) && same@ == request@ && final(self)@.request_ok(request@),
            },
    {
        let completed = match outcome {
            Ok(completed) => completed,
            Err(error) => {
                let path = request.path.as_str().to_owned();
                return Ok(
                    step_after_answer(
                        request.purpose,
                        Err(LoadError::DownloadFailed { path, error }),
                    ),
                );
            },
        };
        let is_config = request.path.is_config();
        if completed.response_code == StatusCode::Unauthorized && !self.needs_authorization()
            && is_config {
            let logins = read_logins(&completed.header_map.www_authenticate);
            return self.refuse(request, logins);
        }
        self.mark_fetched(&request.path);
        let loaded: Loaded = match completed.response_code {
            StatusCode::Success => {
                let version = index_version(&completed.header_map);
                Ok(
                    LoadResponse::Data {
                        raw_data: completed.data,
                        index_version: Some(version),
                    },
                )
            },
            StatusCode::NotModified => {
                if request.version.is_none() {
                    Err(LoadError::NotModifiedWithoutCache)
                } else {
                    Ok(LoadResponse::CacheValid)
                }
            },
            StatusCode::NotFound => Ok(LoadResponse::NotFound),
            StatusCode::Unauthorized => {
                let response = HttpNotSuccessful {
                    code: 401,
                    url: self.full_url(&request.path),
                    body: completed.data,
                };
                let rejected = if self.needs_authorization() {
                    Some(AuthorizationError { sid: self.sid(), login_url: self.login_url() })
                } else {
                    None
                };
                Err(LoadError::Unauthorized { response, rejected })
            },
        };
        Ok(step_after_answer(request.purpose, loaded))
    }

    /// Answers `request` as far as that takes no outside work, or gives it back.
    fn look_up(&mut self, request: Request) -> (r: Result<Step, Request>)
        requires
            old(self).wf(),
            old(self)@.purpose_ok(request@),
        ensures
            final(self).wf(),
            match r {
                Ok(step) => old(self)@.looked_up(request@) == (final(self)@, Some(step@))
                    && final(self)@.step_ok(step@),
                Err(same) => old(self)@.looked_up(request@) == (final(self)@, None::<StepModel>)
                    && same@ == request@ && final(self)@.request_ok(request@),
            },
    {
        proof {
            self.lemma_wf();
        }
        if self.downloads().is_path_pending(&request.path) {
            return Ok(Step::Pending);
        }
        if request.version.is_some() {
            if self.is_fresh(&request.path) {
                return Ok(step_after_answer(request.purpose, Ok(LoadResponse::CacheValid)));
            }
        } else if self.was_fetched(&request.path) {
            // There is no copy at hand of a file that was fetched.
            return Ok(step_after_answer(request.purpose, Ok(LoadResponse::NotFound)));
        }
        match self.take_result(&request.path) {
            Some(outcome) => self.settle(request, outcome),
            None => {
                assert(self@ =~= old(self)@);
                Err(request)
            },
        }
    }

    fn open_handle(&mut self, request: Request) -> (step: Step)
        requires
            old(self).wf(),
            old(self)@.request_ok(request@),
        ensures
            final(self).wf(),
            (final(self)@, step@) == old(self)@.opening(request@),
            final(self)@.step_ok(step@),
    {
        let url = self.full_url(&request.path);
        Step::OpenHandle { url, http2: self.multiplexes(), request }
    }

    /// Starts to fetch the file of `request`.
    pub fn start_fetch(&mut self, request: Request) -> (step: Step)
        requires
            old(self).wf(),
            old(self)@.request_ok(request@),
        ensures
            final(self).wf(),
            (final(self)@, step@) == old(self)@.fetching(request@),
            final(self)@.step_ok(step@),
    {
        if self.has_started() {
            // The transport is set up only once.
            return self.open_handle(request);
        }
        self.set_started();
        Step::ReadMultiplexing(request)
    }

    fn load_config(&mut self, request: Request) -> (step: Step)
        requires
            old(self).wf(),
            old(self)@.purpose_ok(request@),
            path_key(request@.path) == config_key(),
        ensures
            final(self).wf(),
            (final(self)@, step@) == old(self)@.loading_config(request@),
            final(self)@.step_ok(step@),
    {
        let request = match self.look_up(request) {
            Ok(step) => {
                return step;
            },
            Err(request) => request,
        };
        if !self.needs_authorization() {
            // A copy at hand that asks for authorization saves the request without one.
            let auth_required = match self.known_config() {
                Some(config) => config.auth_required,
                None => {
                    return Step::ReadCachedConfig(Reader::Request(request));
                },
            };
            self.set_authorization(auth_required);
        }
        self.start_fetch(request)
    }

    fn load_missing_config(&mut self, wanted: ConfigFor) -> (step: Step)
        requires
            old(self).wf(),
            old(self)@.config_for_ok(wanted@),
        ensures
            final(self).wf(),
            (final(self)@, step@) == old(self)@.config_missing(wanted@),
            final(self)@.step_ok(step@),
    {
        proof {
            lemma_config_path();
        }
        let request = Request {
            path: IndexPath::new(CONFIG_JSON),
            version: None,
            purpose: Purpose::Config(wanted),
        };
        self.load_config(request)
    }

    fn use_config(&mut self, wanted: ConfigFor, config: RegistryConfig) -> (step: Step)
        requires
            old(self).wf(),
            old(self)@.config_for_ok(wanted@),
        ensures
            final(self).wf(),
            (final(self)@, step@) == old(self)@.config_known(wanted@, config@),
            final(self)@.step_ok(step@),
    {
        match wanted {
            ConfigFor::Caller => Step::Configured(Ok(config)),
            ConfigFor::Load { path, version } => {
                self.set_authorization(config.auth_required);
                self.start_fetch(Request { path, version, purpose: Purpose::Caller })
            },
        }
    }

    fn get_config(&mut self, wanted: ConfigFor) -> (step: Step)
        requires
            old(self).wf(),
            old(self)@.config_for_ok(wanted@),
        ensures
            final(self).wf(),
            (final(self)@, step@) == old(self)@.configuring(wanted@),
            final(self)@.step_ok(step@),
    {
        proof {
            lemma_config_path();
        }
        if !self.is_fresh(&IndexPath::new(CONFIG_JSON)) {
            return self.load_missing_config(wanted);
        }
        let config = match self.known_config() {
            Some(config) => config.copy(),
            None => {
                return Step::ReadCachedConfig(Reader::Config(wanted));
            },
        };
        self.use_config(wanted, config)
    }

    /// Gets the configuration of the registry.
    pub fn config(&mut self) -> (step: Step)
        requires
            old(self).wf(),
        ensures
            final(self).wf(),
            (final(self)@, step@) == old(self)@.configuring(ConfigForModel::Caller),
            final(self)@.step_ok(step@),
    {
        self.get_config(ConfigFor::Caller)
    }

    /// Loads the file at `path`, of which the version `index_version` is at hand.
    pub fn load(&mut self, path: &IndexPath, index_version: Option<&str>) -> (step: Step)
        requires
            old(self).wf(),
        ensures
            final(self).wf(),
            (final(self)@, step@) == old(self)@.loading(path@, index_version.deep_view()),
            final(self)@.step_ok(step@),
    {
        let version = match index_version {
            Some(version) => Some(version.to_owned()),
            None => None,
        };
        let request = Request { path: path.copy(), version, purpose: Purpose::Caller };
        if path.is_config() {
            return self.load_config(request);
        }
        match self.look_up(request) {
            Ok(step) => step,
            Err(request) => self.get_config(
                ConfigFor::Load { path: request.path, version: request.version },
            ),
        }
    }

    /// Goes on with the copy at hand of `config.json`, if there is one that can be read. If the
    /// configuration is known by now, the copy is not used.
    pub fn config_cached(&mut self, reader: Reader, cached: Option<RegistryConfig>) -> (step: Step)
        requires
            old(self).wf(),
            old(self)@.reader_ok(reader@),
        ensures
            final(self).wf(),
            (final(self)@, step@) == old(self)@.after_cache(reader@, cached.deep_view()),
            final(self)@.step_ok(step@),
    {
        let known = match self.known_config() {
            Some(config) => Some(config.copy()),
            None => cached,
        };
        match known {
            Some(config) => {
                self.set_registry_config(config.copy());
                match reader {
                    Reader::Config(wanted) => self.use_config(wanted, config),
                    Reader::Request(request) => {
                        self.set_authorization(config.auth_required);
                        self.start_fetch(request)
                    },
                }
            },
            None => match reader {
                Reader::Config(wanted) => self.load_missing_config(wanted),
                Reader::Request(request) => self.start_fetch(request),
            },
        }
    }

    /// Goes on with `config`, which is what `raw_data` says.
    pub fn config_decoded(
        &mut self,
        raw_data: Vec<u8>,
        wanted: ConfigFor,
        config: RegistryConfig,
    ) -> (step: Step)
        requires
            old(self).wf(),
            old(self)@.config_for_ok(wanted@),
        ensures
            final(self).wf(),
            (final(self)@, step@) == old(self)@.after_decoding(raw_data@, wanted@, config@),
            final(self)@.step_ok(step@),
    {
        self.set_registry_config(config);
        Step::StoreConfig { raw_data, wanted }
    }

    /// Goes on when the copy of `config.json` was kept, or could not be kept.
    pub fn config_stored(&mut self, wanted: ConfigFor) -> (step: Step)
        requires
            old(self).wf(),
            old(self)@.config_for_ok(wanted@),
            old(self)@.registry_config is Some,
        ensures
            final(self).wf(),
            (final(self)@, step@) == old(self)@.config_known(
                wanted@,
                old(self)@.registry_config->0,
            ),
            final(self)@.step_ok(step@),
    {
        let config = self.known_config().unwrap().copy();
        self.use_config(wanted, config)
    }

    /// Goes on with `configured`, which says whether the client is set up for multiplexing.
    pub fn multiplexing_configured(&mut self, request: Request, configured: Option<bool>) -> (step:
        Step)
        requires
            old(self).wf(),
            old(self)@.request_ok(request@),
        ensures
            final(self).wf(),
            (final(self)@, step@) == old(self)@.after_multiplexing(request@, configured),
            final(self)@.step_ok(step@),
    {
        let multiplexing = configured.unwrap_or(true);
        self.set_multiplexing(multiplexing);
        Step::StartTransport {
            multiplexing,
            max_host_connections: MAX_HOST_CONNECTIONS,
            request,
        }
    }

    /// Goes on when the transport is set up.
    pub fn transport_started(&mut self, request: Request) -> (step: Step)
        requires
            old(self).wf(),
            old(self)@.request_ok(request@),
        ensures
            final(self).wf(),
            (final(self)@, step@) == old(self)@.opening(request@),
            final(self)@.step_ok(step@),
    {
        self.open_handle(request)
    }

    fn set_headers(&self, request: Request, authorization: Option<&str>) -> (step: Step)
        requires
            self@.request_ok(request@),
        ensures
            (self@, step@) == self@.requesting(request@, authorization.deep_view()),
            self@.step_ok(step@),
    {
        let version = match &request.version {
            Some(version) => Some(version.as_str()),
            None => None,
        };
        let headers = make_request_headers(version, authorization);
        Step::SetHeaders { headers, request }
    }

    /// Goes on when there is a handle for `request`.
    pub fn handle_opened(&self, request: Request) -> (step: Step)
        requires
            self@.request_ok(request@),
        ensures
            (self@, step@) == self@.after_handle(request@),
            self@.step_ok(step@),
    {
        if !self.needs_authorization() {
            return self.set_headers(request, None);
        }
        match self.check_registry_auth_unstable() {
            Ok(_) => Step::GetToken { login_url: self.login_url(), request },
            Err(error) => step_after_answer(request.purpose, Err(error)),
        }
    }

    /// Goes on with the authorization `authorization`.
    pub fn token_received(&self, request: Request, authorization: &str) -> (step: Step)
        requires
            self@.request_ok(request@),
        ensures
            (self@, step@) == self@.requesting(request@, Some(authorization@)),
            self@.step_ok(step@),
    {
        self.set_headers(request, Some(authorization))
    }

    /// Goes on when the handle for `request` has its headers.
    pub fn headers_set(&mut self, request: Request) -> (step: Step)
        requires
            old(self).wf(),
            old(self)@.request_ok(request@),
            old(self)@.downloads.next < usize::MAX,
        ensures
            final(self).wf(),
            (final(self)@, step@) == old(self)@.sending(request@),
            final(self)@.step_ok(step@),
    {
        proof {
            self.lemma_wf();
        }
        let token = self.take_token();
        Step::Send { token, request }
    }

    /// Goes on when the transfer `token` was added to the transport.
    pub fn request_sent(&mut self, token: usize, request: &Request) -> (step: Step)
        requires
            old(self).wf(),
            old(self)@.idle(path_key(request@.path)),
            token < old(self)@.downloads.next,
            !old(self)@.downloads.pending.contains_key(token),
        ensures
            final(self).wf(),
            (final(self)@, step@) == old(self)@.after_sending(token, request@.path),
    {
        self.add_pending(token, &request.path);
        Step::Pending
    }

    /// The configuration of the registry, unless requests need authorization and that is not
    /// enabled.
    pub fn checked_config(&self, configured: Result<RegistryConfig, LoadError>) -> (r: Result<
        RegistryConfig,
        LoadError,
    >)
        ensures
            r == (if configured is Ok && self@.auth_required && !self@.config.registry_auth {
                Err(LoadError::RegistryAuthUnstable)
            } else {
                configured
            }),
    {
        match configured {
            Ok(config) => match self.check_registry_auth_unstable() {
                Ok(_) => Ok(config),
                Err(error) => Err(error),
            },
            Err(error) => Err(error),
        }
    }
}

} // verus!
