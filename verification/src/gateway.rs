use vstd::prelude::*;

verus! {

/// Why a request to the backend did not give a value.
#[derive(Debug)]
pub enum BackendGatewayError {
    /// The backend answered with an error; this is its message.
    Message(String),
    /// The channel to the backend thread is closed.
    ChannelClosed,
}

/// The message of a gateway error.
pub open spec fn gateway_error_message(e: BackendGatewayError) -> Seq<char> {
    match e {
        BackendGatewayError::Message(text) => text@,
        BackendGatewayError::ChannelClosed => "backend request channel is closed"@,
    }
}

impl BackendGatewayError {
    /// The text this error displays as.
    pub fn message(&self) -> (text: String)
        ensures
            text@ == gateway_error_message(*self),
    {
        match self {
            BackendGatewayError::Message(text) => text.clone(),
            BackendGatewayError::ChannelClosed => "backend request channel is closed".to_owned(),
        }
    }
}

/// The outcome of a request given what came back over the reply channel:
/// `None` when the channel closed before a reply, otherwise the backend's
/// value or the message of its error.
pub fn settle_reply<T>(reply: Option<Result<T, String>>) -> (res: Result<T, BackendGatewayError>)
    ensures
        reply is None ==> res matches Err(BackendGatewayError::ChannelClosed),
        reply matches Some(Ok(value)) ==> res == Ok::<T, BackendGatewayError>(value),
        reply matches Some(Err(text)) ==> (res matches Err(BackendGatewayError::Message(m))
            && m == text),
{
    match reply {
        Some(Ok(value)) => Ok(value),
        Some(Err(text)) => Err(BackendGatewayError::Message(text)),
        None => Err(BackendGatewayError::ChannelClosed),
    }
}

} // verus!
