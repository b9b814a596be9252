//! What comes of a transfer, and what is made of it.

use vstd::prelude::*;

use crate::header::{Headers, HeadersModel};

verus! {

/// The response codes that the registry expects.
#[derive(Clone, Copy, PartialEq, Eq, Structural, Debug)]
pub enum StatusCode {
    Success,
    NotModified,
    NotFound,
    Unauthorized,
}

/// The status that the response code `code` stands for, if it is expected.
pub open spec fn status_of(code: u32) -> Option<StatusCode> {
    if code == 200 {
        Some(StatusCode::Success)
    } else if code == 304 {
        Some(StatusCode::NotModified)
    } else if code == 401 {
        Some(StatusCode::Unauthorized)
    } else if code == 404 || code == 410 || code == 451 {
        Some(StatusCode::NotFound)
    } else {
        None
    }
}

/// The status that the response code `code` stands for, if it is expected.
pub fn status(code: u32) -> (status: Option<StatusCode>)
    ensures
        status == status_of(code),
{
    match code {
        200 => Some(StatusCode::Success),
        304 => Some(StatusCode::NotModified),
        401 => Some(StatusCode::Unauthorized),
        404 | 410 | 451 => Some(StatusCode::NotFound),
        _ => None,
    }
}

/// A response whose code is not a success.
#[derive(Debug)]
pub struct HttpNotSuccessful {
    pub code: u32,
    pub url: String,
    pub body: Vec<u8>,
}

/// What [`HttpNotSuccessful`] holds.
#[verifier::ext_equal]
pub ghost struct HttpNotSuccessfulModel {
    pub code: u32,
    pub url: Seq<char>,
    pub body: Seq<u8>,
}

impl View for HttpNotSuccessful {
    type V = HttpNotSuccessfulModel;

    open spec fn view(&self) -> HttpNotSuccessfulModel {
        HttpNotSuccessfulModel { code: self.code, url: self.url@, body: self.body@ }
    }
}

/// Why a transfer gave no file.
#[derive(Debug)]
pub enum DownloadError {
    /// The transfer from `url` failed.
    Transfer { url: String, cause: String },
    /// The response could not be read.
    Unreadable { cause: String },
    /// The response has an unexpected code.
    NotSuccessful(HttpNotSuccessful),
}

/// What [`DownloadError`] holds.
#[verifier::ext_equal]
pub ghost enum DownloadErrorModel {
    Transfer { url: Seq<char>, cause: Seq<char> },
    Unreadable { cause: Seq<char> },
    NotSuccessful(HttpNotSuccessfulModel),
}

impl DownloadErrorModel {
    /// What the user is told, unless the cause or the response says it all.
    pub open spec fn message(self) -> Option<Seq<char>> {
        match self {
            DownloadErrorModel::Transfer { url, .. } => Some(
                "failed to download from `"@ + url + "`"@,
            ),
            DownloadErrorModel::Unreadable { .. } => None,
            DownloadErrorModel::NotSuccessful(_) => None,
        }
    }
}

impl View for DownloadError {
    type V = DownloadErrorModel;

    open spec fn view(&self) -> DownloadErrorModel {
        match self {
            DownloadError::Transfer { url, cause } => DownloadErrorModel::Transfer {
                url: url@,
                cause: cause@,
            },
            DownloadError::Unreadable { cause } => DownloadErrorModel::Unreadable { cause: cause@ },
            DownloadError::NotSuccessful(response) => DownloadErrorModel::NotSuccessful(response@),
        }
    }
}

/// How a transfer ended.
#[derive(Debug)]
pub enum Transfer {
    /// It failed on the way.
    Failed { cause: String },
    /// It ended, but the code of the response could not be read.
    Unreadable { cause: String },
    /// It ended with a response. The effective URL is the one that the response came from, if the
    /// transfer knows.
    Responded { code: u32, effective_url: Result<Option<String>, String> },
}

/// What [`Transfer`] holds.
#[verifier::ext_equal]
pub ghost enum TransferModel {
    Failed { cause: Seq<char> },
    Unreadable { cause: Seq<char> },
    Responded { code: u32, effective_url: Result<Option<Seq<char>>, Seq<char>> },
}

impl View for Transfer {
    type V = TransferModel;

    open spec fn view(&self) -> TransferModel {
        match self {
            Transfer::Failed { cause } => TransferModel::Failed { cause: cause@ },
            Transfer::Unreadable { cause } => TransferModel::Unreadable { cause: cause@ },
            Transfer::Responded { code, effective_url } => TransferModel::Responded {
                code: *code,
                effective_url: match effective_url {
                    Ok(url) => Ok(url.deep_view()),
                    Err(cause) => Err(cause@),
                },
            },
        }
    }
}

/// What the transfer from `url` that received `body` comes to.
pub open spec fn verdict(
    transfer: TransferModel,
    url: Seq<char>,
    body: Seq<u8>,
) -> Result<StatusCode, DownloadErrorModel> {
    match transfer {
        TransferModel::Failed { cause } => Err(DownloadErrorModel::Transfer { url, cause }),
        TransferModel::Unreadable { cause } => Err(DownloadErrorModel::Unreadable { cause }),
        TransferModel::Responded { code, effective_url } => match status_of(code) {
            Some(status) => Ok(status),
            None => match effective_url {
                Ok(effective) => Err(
                    DownloadErrorModel::NotSuccessful(
                        HttpNotSuccessfulModel {
                            code,
                            url: match effective {
                                Some(effective) => effective,
                                None => url,
                            },
                            body,
                        },
                    ),
                ),
                Err(cause) => Err(DownloadErrorModel::Unreadable { cause }),
            },
        },
    }
}

/// The bytes of `bytes` again.
fn copied(bytes: &Vec<u8>) -> (copy: Vec<u8>)
    ensures
        copy@ == bytes@,
{
    let copy = bytes.clone();
    assert(copy@ =~= bytes@);
    copy
}

/// What the transfer from `url` that received `body` comes to.
pub fn judge(transfer: &Transfer, url: &str, body: &Vec<u8>) -> (r: Result<
    StatusCode,
    DownloadError,
>)
    ensures
        match r {
            Ok(status) => verdict(transfer@, url@, body@) == Ok::<_, DownloadErrorModel>(status),
            Err(error) => verdict(transfer@, url@, body@) == Err::<StatusCode, _>(error@),
        },
{
    match transfer {
        Transfer::Failed { cause } => Err(
            DownloadError::Transfer { url: url.to_owned(), cause: cause.clone() },
        ),
        Transfer::Unreadable { cause } => Err(DownloadError::Unreadable { cause: cause.clone() }),
        Transfer::Responded { code, effective_url } => match status(*code) {
            Some(status) => Ok(status),
            None => match effective_url {
                Ok(effective) => {
                    let url = match effective {
                        Some(effective) => effective.clone(),
                        None => url.to_owned(),
                    };
                    Err(
                        DownloadError::NotSuccessful(
                            HttpNotSuccessful { code: *code, url, body: copied(body) },
                        ),
                    )
                },
                Err(cause) => Err(DownloadError::Unreadable { cause: cause.clone() }),
            },
        },
    }
}

/// A response that the registry expects.
#[derive(Debug)]
pub struct CompletedDownload {
    pub response_code: StatusCode,
    pub data: Vec<u8>,
    pub header_map: Headers,
}

/// What [`CompletedDownload`] holds.
#[verifier::ext_equal]
pub ghost struct CompletedDownloadModel {
    pub response_code: StatusCode,
    pub data: Seq<u8>,
    pub header_map: HeadersModel,
}

impl View for CompletedDownload {
    type V = CompletedDownloadModel;

    open spec fn view(&self) -> CompletedDownloadModel {
        CompletedDownloadModel {
            response_code: self.response_code,
            data: self.data@,
            header_map: self.header_map@,
        }
    }
}

/// The final result of a download.
pub type Outcome = Result<CompletedDownload, DownloadError>;

/// What an [`Outcome`] holds.
pub type OutcomeModel = Result<CompletedDownloadModel, DownloadErrorModel>;

/// What `outcome` holds.
pub open spec fn outcome_view(outcome: Outcome) -> OutcomeModel {
    match outcome {
        Ok(completed) => Ok(completed@),
        Err(error) => Err(error@),
    }
}

/// The answer to a request for an index file.
#[derive(Debug)]
pub enum LoadResponse {
    /// The copy at hand is valid.
    CacheValid,
    /// The file, and its version.
    Data { raw_data: Vec<u8>, index_version: Option<String> },
    /// There is no such file.
    NotFound,
}

/// What [`LoadResponse`] holds.
#[verifier::ext_equal]
pub ghost enum LoadResponseModel {
    CacheValid,
    Data { raw_data: Seq<u8>, index_version: Option<Seq<char>> },
    NotFound,
}

impl View for LoadResponse {
    type V = LoadResponseModel;

    open spec fn view(&self) -> LoadResponseModel {
        match self {
            LoadResponse::CacheValid => LoadResponseModel::CacheValid,
            LoadResponse::Data { raw_data, index_version } => LoadResponseModel::Data {
                raw_data: raw_data@,
                index_version: index_version.deep_view(),
            },
            LoadResponse::NotFound => LoadResponseModel::NotFound,
        }
    }
}

/// The registry rejected the token that it was sent.
#[derive(Debug)]
pub struct AuthorizationError {
    /// The URL of the source.
    pub sid: String,
    /// Where to get a token.
    pub login_url: Option<String>,
}

/// What [`AuthorizationError`] holds.
#[verifier::ext_equal]
pub ghost struct AuthorizationErrorModel {
    pub sid: Seq<char>,
    pub login_url: Option<Seq<char>>,
}

impl View for AuthorizationError {
    type V = AuthorizationErrorModel;

    open spec fn view(&self) -> AuthorizationErrorModel {
        AuthorizationErrorModel { sid: self.sid@, login_url: self.login_url.deep_view() }
    }
}

/// Why an index file could not be loaded.
#[derive(Debug)]
pub enum LoadError {
    /// The download of `path` failed.
    DownloadFailed { path: String, error: DownloadError },
    /// The server said that nothing changed, but there is no copy at hand.
    NotModifiedWithoutCache,
    /// The registry asks for authorization. If it was sent a token, it rejected the token.
    Unauthorized { response: HttpNotSuccessful, rejected: Option<AuthorizationError> },
    /// The registry says where to get a token, but that is no URL.
    InvalidLoginUrl { text: String, reason: String },
    /// The registry asks for authorization, which has to be enabled first.
    RegistryAuthUnstable,
    /// The registry has no `config.json`.
    ConfigNotFound,
    /// The copy at hand of `config.json` is valid, but there can be none.
    ConfigNeverCached,
}

/// What [`LoadError`] holds.
#[verifier::ext_equal]
pub ghost enum LoadErrorModel {
    DownloadFailed { path: Seq<char>, error: DownloadErrorModel },
    NotModifiedWithoutCache,
    Unauthorized {
        response: HttpNotSuccessfulModel,
        rejected: Option<AuthorizationErrorModel>,
    },
    InvalidLoginUrl { text: Seq<char>, reason: Seq<char> },
    RegistryAuthUnstable,
    ConfigNotFound,
    ConfigNeverCached,
}

impl View for LoadError {
    type V = LoadErrorModel;

    open spec fn view(&self) -> LoadErrorModel {
        match self {
            LoadError::DownloadFailed { path, error } => LoadErrorModel::DownloadFailed {
                path: path@,
                error: error@,
            },
            LoadError::NotModifiedWithoutCache => LoadErrorModel::NotModifiedWithoutCache,
            LoadError::Unauthorized { response, rejected } => LoadErrorModel::Unauthorized {
                response: response@,
                rejected: match rejected {
                    Some(error) => Some(error@),
                    None => None,
                },
            },
            LoadError::InvalidLoginUrl { text, reason } => LoadErrorModel::InvalidLoginUrl {
                text: text@,
                reason: reason@,
            },
            LoadError::RegistryAuthUnstable => LoadErrorModel::RegistryAuthUnstable,
            LoadError::ConfigNotFound => LoadErrorModel::ConfigNotFound,
            LoadError::ConfigNeverCached => LoadErrorModel::ConfigNeverCached,
        }
    }
}

/// The answer to a request for an index file, or why there is none.
pub type Loaded = Result<LoadResponse, LoadError>;

/// What [`Loaded`] holds.
pub type LoadedModel = Result<LoadResponseModel, LoadErrorModel>;

/// What `loaded` holds.
pub open spec fn loaded_view(loaded: Loaded) -> LoadedModel {
    match loaded {
        Ok(response) => Ok(response@),
        Err(error) => Err(error@),
    }
}

fn in_words(before: &str, middle: &str, after: &str) -> (text: String)
    ensures
        text@ == before@ + middle@ + after@,
{
    let mut text = before.to_owned();
    text.append(middle);
    text.append(after);
    text
}

impl DownloadError {
    /// What the user is told, unless the cause or the response says it all.
    pub fn message(&self) -> (text: Option<String>)
        ensures
            text.deep_view() == self@.message(),
    {
        match self {
            DownloadError::Transfer { url, .. } => Some(
                in_words("failed to download from `", url.as_str(), "`"),
            ),
            DownloadError::Unreadable { .. } => None,
            DownloadError::NotSuccessful(_) => None,
        }
    }
}

impl LoadErrorModel {
    /// What the user is told, unless the response says it all.
    pub open spec fn message(self) -> Option<Seq<char>> {
        match self {
            LoadErrorModel::DownloadFailed { path, .. } => Some(
                "download of "@ + path + " failed"@,
            ),
            LoadErrorModel::NotModifiedWithoutCache => Some(
                "server said not modified (HTTP 304) when no local cache exists"@,
            ),
            LoadErrorModel::Unauthorized { .. } => None,
            LoadErrorModel::InvalidLoginUrl { text, reason } => Some(
                "invalid url `"@ + text + "`: "@ + reason,
            ),
            LoadErrorModel::RegistryAuthUnstable => Some(
                "authenticated registries require `-Z registry-auth`"@,
            ),
            LoadErrorModel::ConfigNotFound => Some("config.json not found in registry"@),
            LoadErrorModel::ConfigNeverCached => Some(
                "config.json is never stored in the index cache"@,
            ),
        }
    }
}

impl LoadError {
    /// What the user is told, unless the response says it all.
    pub fn message(&self) -> (text: Option<String>)
        ensures
            text.deep_view() == self@.message(),
    {
        match self {
            LoadError::DownloadFailed { path, .. } => Some(
                in_words("download of ", path.as_str(), " failed"),
            ),
            LoadError::NotModifiedWithoutCache => Some(
                "server said not modified (HTTP 304) when no local cache exists".to_owned(),
            ),
            LoadError::Unauthorized { .. } => None,
            LoadError::InvalidLoginUrl { text, reason } => {
                let mut message = in_words("invalid url `", text.as_str(), "`: ");
                message.append(reason.as_str());
                Some(message)
            },
            LoadError::RegistryAuthUnstable => Some(
                "authenticated registries require `-Z registry-auth`".to_owned(),
            ),
            LoadError::ConfigNotFound => Some("config.json not found in registry".to_owned()),
            LoadError::ConfigNeverCached => Some(
                "config.json is never stored in the index cache".to_owned(),
            ),
        }
    }
}

/// Six response codes are expected, and each other code is an error.
pub proof fn six_codes_are_expected(code: u32)
    ensures
        status_of(200) == Some(StatusCode::Success),
        status_of(304) == Some(StatusCode::NotModified),
        status_of(401) == Some(StatusCode::Unauthorized),
        status_of(404) == Some(StatusCode::NotFound),
        status_of(410) == Some(StatusCode::NotFound),
        status_of(451) == Some(StatusCode::NotFound),
        !seq![200u32, 304, 401, 404, 410, 451].contains(code) ==> status_of(code) is None,
{
    let codes = seq![200u32, 304, 401, 404, 410, 451];
    assert(codes[0] == 200 && codes[1] == 304 && codes[2] == 401);
    assert(codes[3] == 404 && codes[4] == 410 && codes[5] == 451);
}

/// A transfer that ended with an expected code is a success, wherever it came from and whatever it
/// received. Any other is an error that says what went wrong: where the transfer was to come from and
/// why it failed, or the code that was not expected, where it came from, and what was received.
pub proof fn transfer_is_judged_by_its_code(
    url: Seq<char>,
    body: Seq<u8>,
    cause: Seq<char>,
    code: u32,
    effective: Seq<char>,
    effective_url: Result<Option<Seq<char>>, Seq<char>>,
)
    ensures
        status_of(code) matches Some(status) ==> verdict(
            TransferModel::Responded { code, effective_url },
            url,
            body,
        ) == Ok::<StatusCode, DownloadErrorModel>(status),
        verdict(TransferModel::Failed { cause }, url, body) == Err::<StatusCode, _>(
            DownloadErrorModel::Transfer { url, cause },
        ),
        verdict(TransferModel::Unreadable { cause }, url, body) == Err::<StatusCode, _>(
            DownloadErrorModel::Unreadable { cause },
        ),
        status_of(code) is None ==> {
            &&& verdict(
                TransferModel::Responded { code, effective_url: Ok(Some(effective)) },
                url,
                body,
            ) == Err::<StatusCode, _>(
                DownloadErrorModel::NotSuccessful(
                    HttpNotSuccessfulModel { code, url: effective, body },
                ),
            )
            &&& verdict(TransferModel::Responded { code, effective_url: Ok(None) }, url, body)
                == Err::<StatusCode, _>(
                DownloadErrorModel::NotSuccessful(HttpNotSuccessfulModel { code, url, body }),
            )
            &&& verdict(TransferModel::Responded { code, effective_url: Err(cause) }, url, body)
                == Err::<StatusCode, _>(DownloadErrorModel::Unreadable { cause })
        },
{
}

/// Each error says to the user what went wrong, unless the response says it all.
pub proof fn errors_say_what_went_wrong(
    path: Seq<char>,
    url: Seq<char>,
    text: Seq<char>,
    reason: Seq<char>,
    error: DownloadErrorModel,
    response: HttpNotSuccessfulModel,
    rejected: Option<AuthorizationErrorModel>,
)
    ensures
        (DownloadErrorModel::Transfer { url, cause: reason }).message() == Some(
            "failed to download from `"@ + url + "`"@,
        ),
        (DownloadErrorModel::Unreadable { cause: reason }).message() is None,
        DownloadErrorModel::NotSuccessful(response).message() is None,
        (LoadErrorModel::DownloadFailed { path, error }).message() == Some(
            "download of "@ + path + " failed"@,
        ),
        LoadErrorModel::NotModifiedWithoutCache.message() == Some(
            "server said not modified (HTTP 304) when no local cache exists"@,
        ),
        (LoadErrorModel::Unauthorized { response, rejected }).message() is None,
        (LoadErrorModel::InvalidLoginUrl { text, reason }).message() == Some(
            "invalid url `"@ + text + "`: "@ + reason,
        ),
        LoadErrorModel::RegistryAuthUnstable.message() == Some(
            "authenticated registries require `-Z registry-auth`"@,
        ),
        LoadErrorModel::ConfigNotFound.message() == Some("config.json not found in registry"@),
        LoadErrorModel::ConfigNeverCached.message() == Some(
            "config.json is never stored in the index cache"@,
        ),
{
}

} // verus!
