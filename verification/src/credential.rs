//! Choosing the credential for a backend call.
//!
//! Three sources are tried in a fixed order and the first that yields a
//! token wins: the token written in the configuration, the token persisted
//! in the authentication record of the home directory, and the token of the
//! authentication manager. Reading the record and asking the manager are
//! the caller's work; [`Resolution`] says which of them is due next and
//! takes the answer, so that no source is consulted after one has
//! succeeded. Record and manager are looked for in the home directory:
//! where that directory does not exist, neither is consulted.

use vstd::prelude::*;

use crate::account::{extract_chatgpt_account_id, token_account_id};
use crate::config::{CloudTasksConfig, NativeCodexOptions};

verus! {

/// Where a credential came from.
#[derive(Debug, Clone, Copy, PartialEq, Eq, Structural)]
pub enum CredentialSource {
    ExplicitConfig,
    AuthFile,
    ManagerFallback,
}

/// A bearer token with the account it belongs to, if that is known.
#[derive(Debug, Clone, PartialEq, Eq)]
pub struct Credential {
    pub bearer_token: String,
    pub account_id: Option<String>,
    pub source: CredentialSource,
}

/// Mathematical model of a [`Credential`].
pub struct CredentialModel {
    pub bearer_token: Seq<char>,
    pub account_id: Option<Seq<char>>,
    pub source: CredentialSource,
}

impl DeepView for Credential {
    type V = CredentialModel;

    open spec fn deep_view(&self) -> CredentialModel {
        CredentialModel {
            bearer_token: self.bearer_token@,
            account_id: self.account_id.deep_view(),
            source: self.source,
        }
    }
}

/// What the persisted authentication record holds.
#[derive(Debug, Clone, PartialEq, Eq)]
pub struct AuthRecord {
    pub access_token: String,
    pub account_id: Option<String>,
}

/// Mathematical model of an [`AuthRecord`].
pub struct AuthRecordModel {
    pub access_token: Seq<char>,
    pub account_id: Option<Seq<char>>,
}

impl DeepView for AuthRecord {
    type V = AuthRecordModel;

    open spec fn deep_view(&self) -> AuthRecordModel {
        AuthRecordModel {
            access_token: self.access_token@,
            account_id: self.account_id.deep_view(),
        }
    }
}

/// What the authentication manager answered: its token, unless it failed to
/// give one, and the account id it knows.
#[derive(Debug, Clone, PartialEq, Eq)]
pub struct ManagerAuth {
    pub token: Option<String>,
    pub account_id: Option<String>,
}

/// Mathematical model of a [`ManagerAuth`].
pub struct ManagerAuthModel {
    pub token: Option<Seq<char>>,
    pub account_id: Option<Seq<char>>,
}

impl DeepView for ManagerAuth {
    type V = ManagerAuthModel;

    open spec fn deep_view(&self) -> ManagerAuthModel {
        ManagerAuthModel { token: self.token.deep_view(), account_id: self.account_id.deep_view() }
    }
}

/// The home directory was needed and could not be found.
#[derive(Debug, Clone, PartialEq, Eq)]
pub struct ConfigError {
    pub reason: String,
}

impl ConfigError {
    /// The text of the error.
    pub fn message(&self) -> (text: String)
        ensures
            text@ == self.reason@,
    {
        self.reason.clone()
    }
}

/// The credential that the configuration itself gives.
pub open spec fn explicit_credential(
    token: Option<Seq<char>>,
    account_id: Option<Seq<char>>,
) -> Option<CredentialModel> {
    match token {
        Some(bearer_token) => Some(
            CredentialModel { bearer_token, account_id, source: CredentialSource::ExplicitConfig },
        ),
        None => None,
    }
}

/// The account id of a discovered token: the one stored beside it, else the
/// one written inside it.
pub open spec fn stored_or_decoded(account_id: Option<Seq<char>>, token: Seq<char>) -> Option<
    Seq<char>,
> {
    match account_id {
        Some(id) => Some(id),
        None => token_account_id(token),
    }
}

/// The credential that the persisted record gives.
pub open spec fn file_credential(record: Option<AuthRecordModel>) -> Option<CredentialModel> {
    match record {
        Some(r) => if r.access_token.len() > 0 {
            Some(
                CredentialModel {
                    bearer_token: r.access_token,
                    account_id: stored_or_decoded(r.account_id, r.access_token),
                    source: CredentialSource::AuthFile,
                },
            )
        } else {
            None
        },
        None => None,
    }
}

/// The credential that the authentication manager gives.
pub open spec fn manager_credential(auth: Option<ManagerAuthModel>) -> Option<CredentialModel> {
    match auth {
        Some(a) => match a.token {
            Some(token) => if token.len() > 0 {
                Some(
                    CredentialModel {
                        bearer_token: token,
                        account_id: stored_or_decoded(a.account_id, token),
                        source: CredentialSource::ManagerFallback,
                    },
                )
            } else {
                None
            },
            None => None,
        },
        None => None,
    }
}

/// The first of `first` and `second` that holds a credential.
pub open spec fn or_else(first: Option<CredentialModel>, second: Option<CredentialModel>) -> Option<
    CredentialModel,
> {
    match first {
        Some(c) => Some(c),
        None => second,
    }
}

/// The credential that the three sources give together.
pub open spec fn resolved_credential(
    token: Option<Seq<char>>,
    account_id: Option<Seq<char>>,
    record: Option<AuthRecordModel>,
    auth: Option<ManagerAuthModel>,
) -> Option<CredentialModel> {
    or_else(
        explicit_credential(token, account_id),
        or_else(file_credential(record), manager_credential(auth)),
    )
}

/// A copy of an optional string.
fn copy_text(value: &Option<String>) -> (copy: Option<String>)
    ensures
        copy == *value,
{
    match value {
        Some(s) => Some(s.clone()),
        None => None,
    }
}

/// The account id of a discovered token.
fn account_for(account_id: Option<String>, token: &String) -> (id: Option<String>)
    ensures
        id.deep_view() == stored_or_decoded(account_id.deep_view(), token@),
{
    match account_id {
        Some(id) => Some(id),
        None => extract_chatgpt_account_id(token.as_str()),
    }
}

/// First source: the token written in the configuration, with the
/// account id written beside it.
pub fn credential_from_config(config: &CloudTasksConfig) -> (found: Option<Credential>)
    ensures
        found.deep_view() == explicit_credential(
            config.bearer_token.deep_view(),
            config.chatgpt_account_id.deep_view(),
        ),
{
    match &config.bearer_token {
        Some(token) => Some(
            Credential {
                bearer_token: token.clone(),
                account_id: copy_text(&config.chatgpt_account_id),
                source: CredentialSource::ExplicitConfig,
            },
        ),
        None => None,
    }
}

/// Second source: the persisted record, where it was read and holds a
/// token that is not empty.
pub fn credential_from_auth_file(record: Option<AuthRecord>) -> (found: Option<Credential>)
    ensures
        found.deep_view() == file_credential(record.deep_view()),
{
    match record {
        Some(r) => {
            if r.access_token.as_str().is_empty() {
                None
            } else {
                let account_id = account_for(r.account_id, &r.access_token);
                Some(
                    Credential {
                        bearer_token: r.access_token,
                        account_id,
                        source: CredentialSource::AuthFile,
                    },
                )
            }
        },
        None => None,
    }
}

/// Third source: the authentication manager, where it answered with a
/// token that is not empty.
pub fn credential_from_manager(auth: Option<ManagerAuth>) -> (found: Option<Credential>)
    ensures
        found.deep_view() == manager_credential(auth.deep_view()),
{
    match auth {
        Some(a) => match a.token {
            Some(token) => {
                if token.as_str().is_empty() {
                    None
                } else {
                    let account_id = account_for(a.account_id, &token);
                    Some(
                        Credential {
                            bearer_token: token,
                            account_id,
                            source: CredentialSource::ManagerFallback,
                        },
                    )
                }
            },
            None => None,
        },
        None => None,
    }
}

/// The credential for `config`, given what the persisted record and the
/// authentication manager hold: the first source in order that yields one.
pub fn resolve(
    config: &CloudTasksConfig,
    record: Option<AuthRecord>,
    auth: Option<ManagerAuth>,
) -> (found: Option<Credential>)
    ensures
        found.deep_view() == resolved_credential(
            config.bearer_token.deep_view(),
            config.chatgpt_account_id.deep_view(),
            record.deep_view(),
            auth.deep_view(),
        ),
{
    match credential_from_config(config) {
        Some(c) => Some(c),
        None => match credential_from_auth_file(record) {
            Some(c) => Some(c),
            None => credential_from_manager(auth),
        },
    }
}

/// A token in the configuration wins over every persisted one: the
/// credential is that token with the account id written beside it, whatever
/// the record and the manager hold.
pub proof fn lemma_explicit_token_wins(
    token: Seq<char>,
    account_id: Option<Seq<char>>,
    record: Option<AuthRecordModel>,
    auth: Option<ManagerAuthModel>,
)
    ensures
        resolved_credential(Some(token), account_id, record, auth) == Some(
            CredentialModel {
                bearer_token: token,
                account_id,
                source: CredentialSource::ExplicitConfig,
            },
        ),
{
}

/// Without a token in the configuration, a usable persisted record wins
/// over the manager, and the manager is what is left.
pub proof fn lemma_sources_in_order(
    account_id: Option<Seq<char>>,
    record: Option<AuthRecordModel>,
    auth: Option<ManagerAuthModel>,
)
    ensures
        file_credential(record) is Some ==> resolved_credential(None, account_id, record, auth)
            == file_credential(record),
        file_credential(record) is None ==> resolved_credential(None, account_id, record, auth)
            == manager_credential(auth),
        resolved_credential(None, account_id, record, auth) is None <==> file_credential(record)
            is None && manager_credential(auth) is None,
{
}

/// A resolved credential names the source its token came from, and its
/// token is the one that source holds.
pub proof fn lemma_credential_source(
    token: Option<Seq<char>>,
    account_id: Option<Seq<char>>,
    record: Option<AuthRecordModel>,
    auth: Option<ManagerAuthModel>,
)
    ensures
        match resolved_credential(token, account_id, record, auth) {
            Some(c) => match c.source {
                CredentialSource::ExplicitConfig => token == Some(c.bearer_token),
                CredentialSource::AuthFile => token is None && record is Some
                    && record->0.access_token == c.bearer_token && c.bearer_token.len() > 0,
                CredentialSource::ManagerFallback => token is None && file_credential(record)
                    is None && auth is Some && auth->0.token == Some(c.bearer_token)
                    && c.bearer_token.len() > 0,
            },
            None => token is None,
        },
{
}

/// How far the resolution of a credential has come, and with it what the
/// caller has to do next.
#[derive(Debug, Clone, PartialEq, Eq)]
pub enum Resolution {
    /// The default home directory has to be looked up.
    NeedHome,
    /// It has to be seen whether the directory `home` exists.
    NeedHomeCheck { home: String },
    /// The authentication record under `home` has to be read.
    NeedAuthFile { home: String },
    /// The authentication manager for `home` has to be asked.
    NeedManager { home: String },
    /// Resolution is over, with a credential or without one.
    Resolved(Option<Credential>),
    /// Resolution is over: no home directory could be found.
    Failed(ConfigError),
}

/// Mathematical model of a [`Resolution`].
pub enum ResolutionModel {
    NeedHome,
    NeedHomeCheck { home: Seq<char> },
    NeedAuthFile { home: Seq<char> },
    NeedManager { home: Seq<char> },
    Resolved(Option<CredentialModel>),
    Failed(Seq<char>),
}

impl DeepView for Resolution {
    type V = ResolutionModel;

    open spec fn deep_view(&self) -> ResolutionModel {
        match self {
            Resolution::NeedHome => ResolutionModel::NeedHome,
            Resolution::NeedHomeCheck { home } => ResolutionModel::NeedHomeCheck { home: home@ },
            Resolution::NeedAuthFile { home } => ResolutionModel::NeedAuthFile { home: home@ },
            Resolution::NeedManager { home } => ResolutionModel::NeedManager { home: home@ },
            Resolution::Resolved(found) => ResolutionModel::Resolved(found.deep_view()),
            Resolution::Failed(error) => ResolutionModel::Failed(error.reason@),
        }
    }
}

/// The view of what a home directory lookup returned.
pub open spec fn lookup_view(lookup: Result<String, String>) -> Result<Seq<char>, Seq<char>> {
    match lookup {
        Ok(home) => Ok(home@),
        Err(reason) => Err(reason@),
    }
}

/// Where resolution starts for a configuration.
pub open spec fn begun(
    token: Option<Seq<char>>,
    account_id: Option<Seq<char>>,
    home: Option<Seq<char>>,
) -> ResolutionModel {
    match explicit_credential(token, account_id) {
        Some(c) => ResolutionModel::Resolved(Some(c)),
        None => match home {
            Some(home) => ResolutionModel::NeedHomeCheck { home },
            None => ResolutionModel::NeedHome,
        },
    }
}

/// The state after a home directory lookup returned.
pub open spec fn after_home(
    state: ResolutionModel,
    lookup: Result<Seq<char>, Seq<char>>,
) -> ResolutionModel {
    match state {
        ResolutionModel::NeedHome => match lookup {
            Ok(home) => ResolutionModel::NeedHomeCheck { home },
            Err(reason) => ResolutionModel::Failed(reason),
        },
        _ => state,
    }
}

/// The state after it was seen whether the home directory exists: without
/// the directory there is neither a record nor a manager to ask.
pub open spec fn after_home_check(state: ResolutionModel, exists: bool) -> ResolutionModel {
    match state {
        ResolutionModel::NeedHomeCheck { home } => if exists {
            ResolutionModel::NeedAuthFile { home }
        } else {
            ResolutionModel::Resolved(None)
        },
        _ => state,
    }
}

/// The state after the authentication record was read, or could not be.
pub open spec fn after_auth_file(
    state: ResolutionModel,
    record: Option<AuthRecordModel>,
) -> ResolutionModel {
    match state {
        ResolutionModel::NeedAuthFile { home } => match file_credential(record) {
            Some(c) => ResolutionModel::Resolved(Some(c)),
            None => ResolutionModel::NeedManager { home },
        },
        _ => state,
    }
}

/// The state after the authentication manager answered.
pub open spec fn after_manager(
    state: ResolutionModel,
    auth: Option<ManagerAuthModel>,
) -> ResolutionModel {
    match state {
        ResolutionModel::NeedManager { home } => ResolutionModel::Resolved(
            manager_credential(auth),
        ),
        _ => state,
    }
}

impl Resolution {
    /// Starts resolution. A token in the configuration ends it at once;
    /// otherwise the home directory has to be seen, or first looked up
    /// where the configuration names none.
    pub fn begin(config: &CloudTasksConfig) -> (state: Resolution)
        ensures
            state.deep_view() == begun(
                config.bearer_token.deep_view(),
                config.chatgpt_account_id.deep_view(),
                config.codex_home.deep_view(),
            ),
    {
        match credential_from_config(config) {
            Some(c) => Resolution::Resolved(Some(c)),
            None => match &config.codex_home {
                Some(home) => Resolution::NeedHomeCheck { home: home.clone() },
                None => Resolution::NeedHome,
            },
        }
    }

    /// Takes the outcome of the home directory lookup: the directory, or
    /// the reason why there is none. In every state but `NeedHome` the
    /// state stays as it is.
    pub fn home_found(self, lookup: Result<String, String>) -> (state: Resolution)
        ensures
            state.deep_view() == after_home(self.deep_view(), lookup_view(lookup)),
    {
        match self {
            Resolution::NeedHome => match lookup {
                Ok(home) => Resolution::NeedHomeCheck { home },
                Err(reason) => Resolution::Failed(ConfigError { reason }),
            },
            other => other,
        }
    }

    /// Takes whether the home directory exists. Where it does not,
    /// resolution is over without a credential. In every state but
    /// `NeedHomeCheck` the state stays as it is.
    pub fn home_checked(self, exists: bool) -> (state: Resolution)
        ensures
            state.deep_view() == after_home_check(self.deep_view(), exists),
    {
        match self {
            Resolution::NeedHomeCheck { home } => {
                if exists {
                    Resolution::NeedAuthFile { home }
                } else {
                    Resolution::Resolved(None)
                }
            },
            other => other,
        }
    }

    /// Takes the authentication record, `None` where it could not be read.
    /// In every state but `NeedAuthFile` the state stays as it is.
    pub fn auth_file_read(self, record: Option<AuthRecord>) -> (state: Resolution)
        ensures
            state.deep_view() == after_auth_file(self.deep_view(), record.deep_view()),
    {
        match self {
            Resolution::NeedAuthFile { home } => match credential_from_auth_file(record) {
                Some(c) => Resolution::Resolved(Some(c)),
                None => Resolution::NeedManager { home },
            },
            other => other,
        }
    }

    /// Takes the answer of the authentication manager, `None` where it has
    /// no authentication. In every state but `NeedManager` the state stays
    /// as it is.
    pub fn manager_answered(self, auth: Option<ManagerAuth>) -> (state: Resolution)
        ensures
            state.deep_view() == after_manager(self.deep_view(), auth.deep_view()),
    {
        match self {
            Resolution::NeedManager { home } => Resolution::Resolved(credential_from_manager(auth)),
            other => other,
        }
    }

    /// Resolution is over.
    pub fn is_finished(&self) -> (done: bool)
        ensures
            done == (self.deep_view() is Resolved || self.deep_view() is Failed),
    {
        match self {
            Resolution::Resolved(_) => true,
            Resolution::Failed(_) => true,
            _ => false,
        }
    }

    /// What resolution ended with: the credential, `None` where no source
    /// had one, or the error. While resolution is under way there is no
    /// credential yet.
    pub fn outcome(self) -> (found: Result<Option<Credential>, ConfigError>)
        ensures
            match self.deep_view() {
                ResolutionModel::Resolved(c) => found is Ok && found->Ok_0.deep_view() == c,
                ResolutionModel::Failed(reason) => found is Err && found->Err_0.reason@ == reason,
                _ => found is Ok && found->Ok_0 is None,
            },
    {
        match self {
            Resolution::Resolved(found) => Ok(found),
            Resolution::Failed(error) => Err(error),
            _ => Ok(None),
        }
    }
}

/// The state that resolution ends in when each answer is given as it
/// becomes due.
pub open spec fn resolution_run(
    token: Option<Seq<char>>,
    account_id: Option<Seq<char>>,
    home: Option<Seq<char>>,
    lookup: Result<Seq<char>, Seq<char>>,
    exists: bool,
    record: Option<AuthRecordModel>,
    auth: Option<ManagerAuthModel>,
) -> ResolutionModel {
    after_manager(
        after_auth_file(
            after_home_check(after_home(begun(token, account_id, home), lookup), exists),
            record,
        ),
        auth,
    )
}

/// Resolution by steps ends with the credential that the three sources
/// give together, where a home directory that does not exist counts as
/// one with neither record nor manager. It fails in one case only: the
/// configuration holds neither a token nor a home directory, and the
/// lookup found none.
pub proof fn lemma_resolution_run(
    token: Option<Seq<char>>,
    account_id: Option<Seq<char>>,
    home: Option<Seq<char>>,
    lookup: Result<Seq<char>, Seq<char>>,
    exists: bool,
    record: Option<AuthRecordModel>,
    auth: Option<ManagerAuthModel>,
)
    ensures
        resolution_run(token, account_id, home, lookup, exists, record, auth) == (if token
            is None && home is None && lookup is Err {
            ResolutionModel::Failed(lookup->Err_0)
        } else if exists {
            ResolutionModel::Resolved(resolved_credential(token, account_id, record, auth))
        } else {
            ResolutionModel::Resolved(resolved_credential(token, account_id, None, None))
        }),
{
}

/// The home directory that the options name, if they name one.
pub fn configured_home(options: Option<NativeCodexOptions>) -> (home: Option<String>)
    ensures
        home == match options {
            Some(o) => o.codex_home,
            None => None,
        },
{
    match options {
        Some(o) => o.codex_home,
        None => None,
    }
}

/// The home directory that a lookup gave, or the error to report.
pub fn home_from_lookup(lookup: Result<String, String>) -> (home: Result<String, ConfigError>)
    ensures
        match lookup {
            Ok(found) => home == Ok::<String, ConfigError>(found),
            Err(reason) => home == Err::<String, ConfigError>(ConfigError { reason }),
        },
{
    match lookup {
        Ok(found) => Ok(found),
        Err(reason) => Err(ConfigError { reason }),
    }
}

} // verus!
