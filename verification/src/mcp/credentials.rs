//! The credential broker command of the CLI: which stored OAuth credentials
//! to load, store or remove, and the exit status it reports.
use vstd::prelude::*;

verus! {

/// What the broker is asked to do with an account's credentials.
#[derive(Clone, Copy, Debug, PartialEq, Eq, Structural)]
pub enum McpCredentialAction {
    Load,
    Store,
    Remove,
}

/// The arguments of the broker command.
#[derive(Debug)]
pub struct McpCredentialArgs {
    action: McpCredentialAction,
    account: String,
}

impl McpCredentialArgs {
    /// The arguments for an action on an account.
    pub fn new(action: McpCredentialAction, account: String) -> (r: Self)
        ensures
            r.action() == action,
            r.account()@ == account@,
    {
        McpCredentialArgs { action, account }
    }

    /// The action asked for.
    pub closed spec fn action(&self) -> McpCredentialAction {
        self.action
    }

    /// The account the credentials are stored under.
    pub closed spec fn account(&self) -> String {
        self.account
    }

    /// The action asked for.
    pub fn action_of(&self) -> (r: McpCredentialAction)
        ensures
            r == self.action(),
    {
        self.action
    }

    /// The account the credentials are stored under.
    pub fn account_of(&self) -> (r: &str)
        ensures
            r@ == self.account()@,
    {
        self.account.as_str()
    }
}

/// How a broker request ended.
#[derive(Clone, Debug, PartialEq)]
pub enum BrokerOutcome {
    /// The broker refused the parent process.
    Unauthorized(String),
    /// The action failed.
    Failed(String),
    /// Nothing is stored for the account.
    Missing,
    /// The action succeeded; these bytes go to standard output.
    Done(Vec<u8>),
}

/// The exit status of the broker command: 0 on success, 2 when nothing is
/// stored, 1 when refused or failed.
pub open spec fn broker_exit_code(outcome: BrokerOutcome) -> i32 {
    match outcome {
        BrokerOutcome::Unauthorized(_) => 1,
        BrokerOutcome::Failed(_) => 1,
        BrokerOutcome::Missing => 2,
        BrokerOutcome::Done(_) => 0,
    }
}

/// The exit status the broker command reports for an outcome.
pub fn exit_code(outcome: &BrokerOutcome) -> (r: i32)
    ensures
        r == broker_exit_code(*outcome),
{
    match outcome {
        BrokerOutcome::Unauthorized(_) => 1,
        BrokerOutcome::Failed(_) => 1,
        BrokerOutcome::Missing => 2,
        BrokerOutcome::Done(_) => 0,
    }
}

} // verus!
