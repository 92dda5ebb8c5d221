//! Diagnostic sessions: the session errors, the custom session (which is not
//! offered yet), and the messages and pages of the JSON session.
use vstd::prelude::*;
use vstd::string::StringExecFns;
use crate::comm::ISO15765Config;
use crate::manual::DiagMessageTrait;

verus! {

/// Why a diagnostic session could not start.
#[derive(Debug)]
pub enum SessionError {
    /// The diagnostic server failed; its description.
    ServerError(String),
    /// Any other reason.
    Other(String),
}

impl SessionError {
    pub open spec fn spec_description(&self) -> Seq<char> {
        match self {
            SessionError::ServerError(s) => s@,
            SessionError::Other(s) => s@,
        }
    }

    /// The text of the error.
    pub fn get_description(&self) -> (r: String)
        ensures
            r@ == self.spec_description(),
    {
        match self {
            SessionError::ServerError(s) => s.clone(),
            SessionError::Other(s) => s.clone(),
        }
    }
}

/// The messages of the custom session.
#[derive(Clone, Copy, Debug, PartialEq, Eq, Structural)]
pub enum CustomDiagSessionMsg {
    Back,
}

impl DiagMessageTrait for CustomDiagSessionMsg {
    open spec fn spec_is_back(&self) -> bool {
        *self == CustomDiagSessionMsg::Back
    }

    fn is_back(&self) -> (r: bool) {
        match self {
            CustomDiagSessionMsg::Back => true,
        }
    }
}

/// A session on hand-entered ISO-TP settings.
#[derive(Clone, Copy, Debug)]
pub struct CustomDiagSession;

impl CustomDiagSession {
    /// The custom session is not offered yet: starting one always fails.
    pub fn new<S>(_comm_server: S, _ecu: ISO15765Config) -> (r: Result<Self, SessionError>)
        ensures
            r matches Err(SessionError::Other(s)) && s@ == "Custom Session is not yet implemented"@,
    {
        Err(SessionError::Other(String::from_str("Custom Session is not yet implemented")))
    }
}

/// The pages of the JSON session.
#[derive(Clone, Copy, Debug, PartialEq, Eq, Structural)]
pub enum TargetPage {
    Home,
    Main,
    ECUInfo,
    Error,
}

/// Navigating to the home page leaves the session.
pub open spec fn navigation_leaves(target: TargetPage) -> bool {
    target == TargetPage::Home
}

} // verus!
