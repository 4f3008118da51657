//! The connection provider: one pool of database connections, opened when
//! it is first asked for and kept for the calls that follow.
//!
//! Opening and probing a pool is the caller's work. What is decided in
//! between is decided here: [`DbConnectionManager::get_pool`] takes what the
//! last attempt brought and says what to do next. A pool that is kept is
//! handed out only after a probe of it went through, and a new pool is kept
//! only after a connection could be had from it.

use crate::errors::ServiceError;
use vstd::prelude::*;

verus! {

/// The limits that a pool is opened with. Times are in seconds.
#[derive(Clone, Copy, Debug, PartialEq, Eq, Structural)]
pub struct PoolSettings {
    pub max_connections: u32,
    pub min_connections: u32,
    pub acquire_timeout_secs: u64,
    pub idle_timeout_secs: u64,
    pub max_lifetime_secs: u64,
    pub connect_timeout_secs: u64,
}

/// What the caller is to do next.
#[derive(Debug)]
pub enum PoolAction {
    /// Try to get a connection from the pool that is kept.
    ProbeKept,
    /// Open a new pool for this connection string, with these limits.
    Connect { connection_string: String, settings: PoolSettings },
    /// Try to get a connection from the new pool.
    TestNew,
    /// Hand out the pool that is kept.
    UseKept,
    /// Keep the new pool in place of any other, and hand it out.
    KeepNew,
    /// Drop what was opened and report this error.
    Fail(ServiceError),
}

/// What the last attempt brought.
#[derive(Clone, Copy, Debug, PartialEq, Eq, Structural)]
pub enum PoolEvent {
    /// A caller asks for the pool.
    Requested,
    /// The attempt went through.
    Succeeded,
    /// The attempt failed.
    Failed,
}

/// Where a request for the pool stands.
#[derive(Clone, Copy, Debug, PartialEq, Eq, Structural)]
pub enum PoolPhase {
    /// No request is under way.
    Idle,
    /// The pool that is kept is being probed.
    Probing,
    /// A new pool is being opened.
    Connecting,
    /// The new pool is being tested.
    Testing,
}

/// The connection provider.
#[derive(Debug)]
pub struct DbConnectionManager {
    pub connection_string: String,
    /// Whether a pool is kept.
    pub has_pool: bool,
    pub phase: PoolPhase,
}

/// The limits of every pool: at most 10 connections and at least 1, half a
/// minute to get a connection and to connect, ten minutes of idling and
/// half an hour of life for a connection.
pub open spec fn spec_pool_settings() -> PoolSettings {
    PoolSettings {
        max_connections: 10,
        min_connections: 1,
        acquire_timeout_secs: 30,
        idle_timeout_secs: 600,
        max_lifetime_secs: 1800,
        connect_timeout_secs: 30,
    }
}

/// The limits of every pool.
pub fn pool_settings() -> (r: PoolSettings)
    ensures
        r == spec_pool_settings(),
        r.min_connections <= r.max_connections,
{
    PoolSettings {
        max_connections: 10,
        min_connections: 1,
        acquire_timeout_secs: 30,
        idle_timeout_secs: 600,
        max_lifetime_secs: 1800,
        connect_timeout_secs: 30,
    }
}

impl DbConnectionManager {
    /// What a step on `event` leads to.
    ///
    /// A request probes the pool that is kept, or opens one where none is
    /// kept. A pool that fails its probe is not handed out: a new one is
    /// opened in its place. A new pool is kept and handed out once it
    /// passed its test; where it cannot be opened or fails the test, the
    /// request fails as a connection error and what was kept before stays.
    pub open spec fn step_leads_to(
        before: DbConnectionManager,
        event: PoolEvent,
        after: DbConnectionManager,
        action: PoolAction,
    ) -> bool {
        let connect = PoolAction::Connect {
            connection_string: before.connection_string,
            settings: spec_pool_settings(),
        };
        &&& after.connection_string == before.connection_string
        &&& match before.phase {
            PoolPhase::Idle => if event is Requested {
                if before.has_pool {
                    after.phase is Probing && after.has_pool && action is ProbeKept
                } else {
                    after.phase is Connecting && !after.has_pool && action == connect
                }
            } else {
                after.phase is Idle && after.has_pool == before.has_pool && action
                    == PoolAction::Fail(ServiceError::InternalServerError)
            },
            PoolPhase::Probing => if event is Succeeded {
                after.phase is Idle && after.has_pool == before.has_pool && action is UseKept
            } else {
                after.phase is Connecting && after.has_pool == before.has_pool && action
                    == connect
            },
            PoolPhase::Connecting => if event is Succeeded {
                after.phase is Testing && after.has_pool == before.has_pool && action is TestNew
            } else {
                after.phase is Idle && after.has_pool == before.has_pool && action
                    == PoolAction::Fail(ServiceError::DatabaseConnectionError)
            },
            PoolPhase::Testing => if event is Succeeded {
                after.phase is Idle && after.has_pool && action is KeepNew
            } else {
                after.phase is Idle && after.has_pool == before.has_pool && action
                    == PoolAction::Fail(ServiceError::DatabaseConnectionError)
            },
        }
    }

    /// A provider for this connection string, with no pool yet.
    pub fn new(connection_string: String) -> (r: DbConnectionManager)
        ensures
            r.connection_string == connection_string,
            !r.has_pool,
            r.phase is Idle,
    {
        DbConnectionManager { connection_string, has_pool: false, phase: PoolPhase::Idle }
    }

    /// Takes what the last attempt brought and says what to do next.
    pub fn get_pool(&mut self, event: PoolEvent) -> (action: PoolAction)
        ensures
            DbConnectionManager::step_leads_to(*old(self), event, *final(self), action),
    {
        match self.phase {
            PoolPhase::Idle => match event {
                PoolEvent::Requested => {
                    if self.has_pool {
                        self.phase = PoolPhase::Probing;
                        PoolAction::ProbeKept
                    } else {
                        self.phase = PoolPhase::Connecting;
                        PoolAction::Connect {
                            connection_string: self.connection_string.clone(),
                            settings: pool_settings(),
                        }
                    }
                },
                _ => PoolAction::Fail(ServiceError::InternalServerError),
            },
            PoolPhase::Probing => match event {
                PoolEvent::Succeeded => {
                    self.phase = PoolPhase::Idle;
                    PoolAction::UseKept
                },
                _ => {
                    self.phase = PoolPhase::Connecting;
                    PoolAction::Connect {
                        connection_string: self.connection_string.clone(),
                        settings: pool_settings(),
                    }
                },
            },
            PoolPhase::Connecting => match event {
                PoolEvent::Succeeded => {
                    self.phase = PoolPhase::Testing;
                    PoolAction::TestNew
                },
                _ => {
                    self.phase = PoolPhase::Idle;
                    PoolAction::Fail(ServiceError::DatabaseConnectionError)
                },
            },
            PoolPhase::Testing => match event {
                PoolEvent::Succeeded => {
                    self.phase = PoolPhase::Idle;
                    self.has_pool = true;
                    PoolAction::KeepNew
                },
                _ => {
                    self.phase = PoolPhase::Idle;
                    PoolAction::Fail(ServiceError::DatabaseConnectionError)
                },
            },
        }
    }

    /// A pool that is kept is handed out only on the step on which its probe
    /// went through.
    pub proof fn lemma_kept_pool_is_probed(
        before: DbConnectionManager,
        event: PoolEvent,
        after: DbConnectionManager,
        action: PoolAction,
    )
        requires
            DbConnectionManager::step_leads_to(before, event, after, action),
            action is UseKept,
        ensures
            before.phase is Probing,
            event is Succeeded,
    {
    }

    /// Whatever fails while a pool is opened or tested fails as a connection
    /// error, and leaves what was kept as it was.
    pub proof fn lemma_connect_failure(
        before: DbConnectionManager,
        after: DbConnectionManager,
        action: PoolAction,
    )
        requires
            before.phase is Connecting || before.phase is Testing,
            DbConnectionManager::step_leads_to(before, PoolEvent::Failed, after, action),
        ensures
            action == PoolAction::Fail(ServiceError::DatabaseConnectionError),
            after.has_pool == before.has_pool,
            after.phase is Idle,
    {
    }
}

} // verus!
