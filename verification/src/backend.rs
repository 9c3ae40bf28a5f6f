//! What a backend client is to be made of.
//!
//! A configuration that asks for the mock backend gets it, and nothing
//! else of the configuration counts. Any other gets a client for its base
//! address that carries the resolved credential and the configured user
//! agent. Making the client is the caller's work.

use vstd::prelude::*;

use crate::config::CloudTasksConfig;
use crate::credential::{Credential, CredentialModel};

verus! {

/// The settings of a client that talks to the backend over HTTP.
#[derive(Debug, Clone, PartialEq, Eq)]
pub struct HttpBackend {
    pub base_url: String,
    pub bearer_token: Option<String>,
    pub chatgpt_account_id: Option<String>,
    pub user_agent: Option<String>,
}

/// Mathematical model of an [`HttpBackend`].
pub struct HttpBackendModel {
    pub base_url: Seq<char>,
    pub bearer_token: Option<Seq<char>>,
    pub chatgpt_account_id: Option<Seq<char>>,
    pub user_agent: Option<Seq<char>>,
}

impl DeepView for HttpBackend {
    type V = HttpBackendModel;

    open spec fn deep_view(&self) -> HttpBackendModel {
        HttpBackendModel {
            base_url: self.base_url@,
            bearer_token: self.bearer_token.deep_view(),
            chatgpt_account_id: self.chatgpt_account_id.deep_view(),
            user_agent: self.user_agent.deep_view(),
        }
    }
}

/// The backend to make.
#[derive(Debug, Clone, PartialEq, Eq)]
pub enum BackendPlan {
    /// The mock backend.
    Mock,
    /// A client with these settings.
    Http(HttpBackend),
}

/// Mathematical model of a [`BackendPlan`].
pub enum BackendPlanModel {
    Mock,
    Http(HttpBackendModel),
}

impl DeepView for BackendPlan {
    type V = BackendPlanModel;

    open spec fn deep_view(&self) -> BackendPlanModel {
        match self {
            BackendPlan::Mock => BackendPlanModel::Mock,
            BackendPlan::Http(settings) => BackendPlanModel::Http(settings.deep_view()),
        }
    }
}

/// The token of a credential, if there is a credential.
pub open spec fn token_of(credential: Option<CredentialModel>) -> Option<Seq<char>> {
    match credential {
        Some(c) => Some(c.bearer_token),
        None => None,
    }
}

/// The account id of a credential, if there is a credential that has one.
pub open spec fn account_of(credential: Option<CredentialModel>) -> Option<Seq<char>> {
    match credential {
        Some(c) => c.account_id,
        None => None,
    }
}

/// The backend to make for a configuration and its credential.
pub open spec fn planned_backend(
    mock: Option<bool>,
    base_url: Seq<char>,
    user_agent: Option<Seq<char>>,
    credential: Option<CredentialModel>,
) -> BackendPlanModel {
    if mock == Some(true) {
        BackendPlanModel::Mock
    } else {
        BackendPlanModel::Http(
            HttpBackendModel {
                base_url,
                bearer_token: token_of(credential),
                chatgpt_account_id: account_of(credential),
                user_agent,
            },
        )
    }
}

/// Tests whether the configuration asks for the mock backend. Where it
/// does, no credential has to be resolved.
pub fn wants_mock(config: &CloudTasksConfig) -> (mock: bool)
    ensures
        mock == (config.mock == Some(true)),
{
    match config.mock {
        Some(flag) => flag,
        None => false,
    }
}

/// The backend to make for a configuration and the credential that was
/// resolved for it.
pub fn create_backend(config: CloudTasksConfig, credential: Option<Credential>) -> (plan:
    BackendPlan)
    ensures
        plan.deep_view() == planned_backend(
            config.mock,
            config.base_url@,
            config.user_agent.deep_view(),
            credential.deep_view(),
        ),
{
    if wants_mock(&config) {
        return BackendPlan::Mock;
    }
    let (bearer_token, chatgpt_account_id) = match credential {
        Some(c) => (Some(c.bearer_token), c.account_id),
        None => (None, None),
    };
    BackendPlan::Http(
        HttpBackend {
            base_url: config.base_url,
            bearer_token,
            chatgpt_account_id,
            user_agent: config.user_agent,
        },
    )
}

} // verus!
