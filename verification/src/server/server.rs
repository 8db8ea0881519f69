//! Registration of the host at startup: its record is rewritten where the store has
//! one and inserted where it has none, and any failure ends the program.

use vstd::prelude::*;

verus! {

/// How far the registration has come.
#[derive(Clone, Copy, Debug, PartialEq, Eq, Structural)]
pub enum Registration {
    /// The store is being asked whether it has a record of this server.
    Checking,
    /// The record is being rewritten.
    Updating,
    /// The record is being inserted.
    Inserting,
    /// The record is in the store.
    Registered,
    /// The registration failed.
    Failed,
}

/// What the store answered.
#[derive(Clone, Copy, Debug, PartialEq, Eq, Structural)]
pub enum StoreReply {
    /// Whether the store has a record of this server.
    Exists(bool),
    /// The write was made.
    Written,
    /// The request failed.
    Failure,
}

/// What is to be done next.
#[derive(Clone, Copy, Debug, PartialEq, Eq, Structural)]
pub enum RegistrationStep {
    /// Rewrite the record of this server.
    Update,
    /// Insert the record of this server.
    Insert,
    /// Go on with the startup.
    Proceed,
    /// End the program with a failure status.
    Exit,
}

/// The status with which the program ends after a failure.
pub const FAILURE_STATUS: u8 = 1;

/// The state after a reply, and the step to take. A reply that the state does not wait
/// for is a failure.
pub open spec fn registration_after(state: Registration, reply: StoreReply) -> (
    Registration,
    RegistrationStep,
) {
    match (state, reply) {
        (Registration::Checking, StoreReply::Exists(true)) => (
            Registration::Updating,
            RegistrationStep::Update,
        ),
        (Registration::Checking, StoreReply::Exists(false)) => (
            Registration::Inserting,
            RegistrationStep::Insert,
        ),
        (Registration::Updating, StoreReply::Written) => (
            Registration::Registered,
            RegistrationStep::Proceed,
        ),
        (Registration::Inserting, StoreReply::Written) => (
            Registration::Registered,
            RegistrationStep::Proceed,
        ),
        (Registration::Registered, _) => (Registration::Registered, RegistrationStep::Proceed),
        _ => (Registration::Failed, RegistrationStep::Exit),
    }
}

/// One step of the registration: the state after the store's reply, and what to do
/// next.
///
/// While checking, the answer that the record exists leads to its rewrite, the answer
/// that it does not to its insertion. A write that was made completes the
/// registration. Every failure, of the question or of the write, ends the program.
pub fn add_server_to_database(state: Registration, reply: StoreReply) -> (r: (
    Registration,
    RegistrationStep,
))
    ensures
        r == registration_after(state, reply),
{
    match (state, reply) {
        (Registration::Checking, StoreReply::Exists(exists)) => {
            if exists {
                (Registration::Updating, RegistrationStep::Update)
            } else {
                (Registration::Inserting, RegistrationStep::Insert)
            }
        },
        (Registration::Updating, StoreReply::Written) => (
            Registration::Registered,
            RegistrationStep::Proceed,
        ),
        (Registration::Inserting, StoreReply::Written) => (
            Registration::Registered,
            RegistrationStep::Proceed,
        ),
        (Registration::Registered, _) => (Registration::Registered, RegistrationStep::Proceed),
        _ => (Registration::Failed, RegistrationStep::Exit),
    }
}

/// The program is told to exit exactly when the registration has failed, and to go on
/// exactly when the record is in the store; the record gets there only by a write that
/// followed the store's answer.
pub proof fn lemma_registration_outcomes(state: Registration, reply: StoreReply)
    ensures
        registration_after(state, reply).1 == RegistrationStep::Exit <==> registration_after(
            state,
            reply,
        ).0 == Registration::Failed,
        registration_after(state, reply).1 == RegistrationStep::Proceed <==> registration_after(
            state,
            reply,
        ).0 == Registration::Registered,
        registration_after(state, reply).0 == Registration::Registered && state
            != Registration::Registered ==> reply == StoreReply::Written && (state
            == Registration::Updating || state == Registration::Inserting),
        registration_after(state, StoreReply::Failure).0 == Registration::Failed || state
            == Registration::Registered,
{
}

} // verus!
