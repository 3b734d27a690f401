use vstd::prelude::*;
use crate::config::ServerConfig;
use crate::errors::ServerError;
use crate::wire::{auth_success, received, received_text, success_line};

verus! {

/// Whether the text a client answered with is the configured passcode,
/// character for character.
pub fn passcode_matches(config: &ServerConfig, text: &str) -> (r: bool)
    ensures
        r == (text@ == config.spec_passcode()),
{
    let expected: String = config.passcode().to_owned();
    let given: String = text.to_owned();
    expected == given
}

/// Judges a client's answer to the challenge: `Ok` when the text it carries is
/// the passcode, `InvalidPasscode` otherwise.
pub fn check_reply(config: &ServerConfig, reply: &[u8]) -> (r: Result<(), ServerError>)
    ensures
        r is Ok <==> received(reply@) == config.spec_passcode(),
        r is Err ==> r matches Err(ServerError::InvalidPasscode),
{
    let text = received_text(reply);
    if passcode_matches(config, text.as_str()) {
        Ok(())
    } else {
        Err(ServerError::InvalidPasscode)
    }
}

/// What the server answers to a client's reply: the success line when the
/// reply carries the passcode, and `InvalidPasscode`, with nothing to send,
/// otherwise.
pub fn answer_reply(config: &ServerConfig, reply: &[u8]) -> (r: Result<&'static str, ServerError>)
    ensures
        r is Ok <==> received(reply@) == config.spec_passcode(),
        r matches Ok(line) ==> line@ == auth_success(),
        r is Err ==> r matches Err(ServerError::InvalidPasscode),
{
    match check_reply(config, reply) {
        Ok(()) => Ok(success_line()),
        Err(e) => Err(e),
    }
}

} // verus!
