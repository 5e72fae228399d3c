//! Signing in from the browser: a cached token is tried first, and a new one
//! is asked for where there is none or the server refuses it.
//!
//! The reading, the requests and the storing are done by the caller. After
//! each of them the caller hands its outcome to [`login_step`], which says
//! what is to be done next.

use vstd::prelude::*;

verus! {

/// The key under which the browser keeps the token.
pub const JWT_STORAGE_KEY: &'static str = "game_jwt_token";

/// The address under which the browser reaches the server's API.
pub const API_BASE_URL: &'static str = "http://localhost:5380/api";

/// The address of the server for a debug build.
pub const DEBUG_BASE_URL: &'static str = "http://127.0.0.1:5380";

/// The address of the server for a release build.
pub const RELEASE_BASE_URL: &'static str = "http://www.ckiddo.com:5380";

/// The address of the server: the local one for a debug build.
pub fn base_url(debug: bool) -> (url: &'static str)
    ensures
        url@ == if debug {
            DEBUG_BASE_URL@
        } else {
            RELEASE_BASE_URL@
        },
{
    if debug {
        DEBUG_BASE_URL
    } else {
        RELEASE_BASE_URL
    }
}

/// What a press of the start button does.
#[derive(Clone, Copy, PartialEq, Eq, Structural, Debug)]
pub enum StartAction {
    /// Nothing: the game runs already.
    Nothing,
    /// The player is told that there is no token yet.
    ReportMissingToken,
    /// The game is started.
    Start,
}

/// What a press of the start button does: nothing while the game runs; else
/// the game starts, where the player is signed in.
pub fn start_action(game_started: bool, has_token: bool) -> (action: StartAction)
    ensures
        action == if game_started {
            StartAction::Nothing
        } else if !has_token {
            StartAction::ReportMissingToken
        } else {
            StartAction::Start
        },
{
    if game_started {
        StartAction::Nothing
    } else if !has_token {
        StartAction::ReportMissingToken
    } else {
        StartAction::Start
    }
}

/// How far signing in has come: what the caller is doing, or how it ended.
#[derive(Clone, Copy, PartialEq, Eq, Structural, Debug)]
pub enum LoginPhase {
    /// The cached token is being read.
    ReadingCache,
    /// The cached token is with the server.
    VerifyingCached,
    /// A new token is being asked for.
    RequestingNew,
    /// The new token is being stored.
    StoringNew,
    /// Signed in with the cached token.
    SignedInWithCached,
    /// Signed in with a new token.
    SignedInWithNew,
    /// The server gave no new token.
    RequestFailed,
    /// The new token could not be stored.
    StoreFailed,
}

/// How what the caller was doing ended.
#[derive(Clone, Copy, PartialEq, Eq, Structural, Debug)]
pub enum LoginOutcome {
    /// It was done; for the reading of the cache: a token was found.
    Done,
    /// It failed; for the reading of the cache: no token was found.
    Failed,
}

impl LoginPhase {
    /// Whether signing in has ended.
    pub open spec fn is_final(self) -> bool {
        self is SignedInWithCached || self is SignedInWithNew || self is RequestFailed
            || self is StoreFailed
    }

    /// Whether signing in has ended with a token.
    pub open spec fn is_signed_in(self) -> bool {
        self is SignedInWithCached || self is SignedInWithNew
    }

    /// The number of steps after which signing in has ended at the latest.
    pub open spec fn steps_left(self) -> nat {
        match self {
            LoginPhase::ReadingCache => 4,
            LoginPhase::VerifyingCached => 3,
            LoginPhase::RequestingNew => 2,
            LoginPhase::StoringNew => 1,
            _ => 0,
        }
    }

    /// Whether signing in has ended.
    pub fn finished(self) -> (over: bool)
        ensures
            over == self.is_final(),
    {
        match self {
            LoginPhase::SignedInWithCached => true,
            LoginPhase::SignedInWithNew => true,
            LoginPhase::RequestFailed => true,
            LoginPhase::StoreFailed => true,
            _ => false,
        }
    }
}

/// The phase that follows `phase` once what the caller was doing has ended
/// with `outcome`. A cached token that the server accepts signs in; without
/// one a new token is asked for and then stored. A phase in which signing in
/// has ended stays.
pub open spec fn next_phase(phase: LoginPhase, outcome: LoginOutcome) -> LoginPhase {
    match (phase, outcome) {
        (LoginPhase::ReadingCache, LoginOutcome::Done) => LoginPhase::VerifyingCached,
        (LoginPhase::ReadingCache, LoginOutcome::Failed) => LoginPhase::RequestingNew,
        (LoginPhase::VerifyingCached, LoginOutcome::Done) => LoginPhase::SignedInWithCached,
        (LoginPhase::VerifyingCached, LoginOutcome::Failed) => LoginPhase::RequestingNew,
        (LoginPhase::RequestingNew, LoginOutcome::Done) => LoginPhase::StoringNew,
        (LoginPhase::RequestingNew, LoginOutcome::Failed) => LoginPhase::RequestFailed,
        (LoginPhase::StoringNew, LoginOutcome::Done) => LoginPhase::SignedInWithNew,
        (LoginPhase::StoringNew, LoginOutcome::Failed) => LoginPhase::StoreFailed,
        (ended, _) => ended,
    }
}

/// What is to be done next, once what the caller was doing in `phase` has
/// ended with `outcome`.
pub fn login_step(phase: LoginPhase, outcome: LoginOutcome) -> (next: LoginPhase)
    ensures
        next == next_phase(phase, outcome),
{
    match phase {
        LoginPhase::ReadingCache => match outcome {
            LoginOutcome::Done => LoginPhase::VerifyingCached,
            LoginOutcome::Failed => LoginPhase::RequestingNew,
        },
        LoginPhase::VerifyingCached => match outcome {
            LoginOutcome::Done => LoginPhase::SignedInWithCached,
            LoginOutcome::Failed => LoginPhase::RequestingNew,
        },
        LoginPhase::RequestingNew => match outcome {
            LoginOutcome::Done => LoginPhase::StoringNew,
            LoginOutcome::Failed => LoginPhase::RequestFailed,
        },
        LoginPhase::StoringNew => match outcome {
            LoginOutcome::Done => LoginPhase::SignedInWithNew,
            LoginOutcome::Failed => LoginPhase::StoreFailed,
        },
        ended => ended,
    }
}

/// Signing in ends: every step brings the end nearer, so that it is reached
/// after four steps at the latest.
pub proof fn lemma_login_ends(phase: LoginPhase, outcome: LoginOutcome)
    requires
        !phase.is_final(),
    ensures
        next_phase(phase, outcome).steps_left() < phase.steps_left(),
        phase.steps_left() <= 4,
        next_phase(phase, outcome).steps_left() == 0 <==> next_phase(phase, outcome).is_final(),
{
}

/// Signing in succeeds only by a cached token that the server accepted or by
/// a new token that was stored.
pub proof fn lemma_signed_in_only_with_a_token(phase: LoginPhase, outcome: LoginOutcome)
    requires
        !phase.is_final(),
        next_phase(phase, outcome).is_signed_in(),
    ensures
        outcome is Done,
        phase is VerifyingCached || phase is StoringNew,
{
}

} // verus!
