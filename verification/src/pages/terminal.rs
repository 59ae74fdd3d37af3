//! The terminal page: what is sent to the device's terminal, and what is
//! answered when that fails.

use crate::error::ExchangeError;
use crate::http::request::backend_request_failed;
use crate::http::response::{ResponseView, ServerResponse, Status};
use crate::message::Action;
use crate::terminal::Geometry;
use vstd::prelude::*;

verus! {

/// The head of the answer that streams terminal output: the body that
/// follows is a stream of bytes.
pub fn stream() -> (r: ServerResponse)
    ensures
        r@ == (ResponseView {
            status: Status::Success,
            headers: seq![("content-type"@, "application/octet-stream"@)],
            body: Seq::empty(),
        }),
{
    let r = ServerResponse::new().header("content-type", "application/octet-stream");
    assert(r@.headers =~= seq![("content-type"@, "application/octet-stream"@)]);
    r
}

/// What is answered to a call for the stream of terminal output, given
/// whether the device gave a subscription to it: the head of the stream, or,
/// where the connection to the device is gone, that the device is
/// unreachable.
pub fn stream_answer(subscribed: bool) -> (r: Result<ServerResponse, ServerResponse>)
    ensures
        r is Ok == subscribed,
        r matches Ok(head) ==> head@ == (ResponseView {
            status: Status::Success,
            headers: seq![("content-type"@, "application/octet-stream"@)],
            body: Seq::empty(),
        }),
        r matches Err(e) ==> e@ == ResponseView::plain(
            Status::BadGateway,
            "backend request failed: "@ + "device unreachable"@,
        ),
{
    if subscribed {
        Ok(stream())
    } else {
        Err(backend_request_failed(ExchangeError::Unreachable))
    }
}

/// What is to be done with the next piece of a body of keystrokes.
pub enum WriteStep {
    /// Send this action to the device, then look at the next piece.
    Send(Action),
    /// The body has ended: answer with this.
    Finish(ServerResponse),
}

/// What is to be done with the next piece of a body of keystrokes, or with
/// its end. The body counts as ended where a piece cannot be read.
pub fn write(chunk: Option<Vec<u8>>) -> (step: WriteStep)
    ensures
        match chunk {
            Some(data) => step == WriteStep::Send(Action::Terminal(data)),
            None => step is Finish && step->Finish_0@ == ResponseView::fresh(),
        },
{
    match chunk {
        Some(data) => WriteStep::Send(Action::Terminal(data)),
        None => WriteStep::Finish(ServerResponse::new()),
    }
}

/// What is answered when keystrokes could not be handed to the device: the
/// device is unreachable, which is a failure of the gateway.
pub fn write_failed() -> (r: ServerResponse)
    ensures
        r@ == ResponseView::plain(
            Status::BadGateway,
            "failed to write to backend processor to write to terminal"@,
        ),
{
    ServerResponse::plain(
        Status::BadGateway,
        "failed to write to backend processor to write to terminal",
    )
}

/// What follows the sending of a piece of keystrokes, given whether it could
/// be handed to the device: the next piece is looked at, or, where it could
/// not, the call is answered at once and nothing more is sent.
pub fn write_answer(sent: bool) -> (r: Option<ServerResponse>)
    ensures
        r is None == sent,
        r matches Some(e) ==> e@ == ResponseView::plain(
            Status::BadGateway,
            "failed to write to backend processor to write to terminal"@,
        ),
{
    if sent {
        None
    } else {
        Some(write_failed())
    }
}

/// The action that gives the device's terminal a new size.
pub fn resize(size: Geometry) -> (action: Action)
    ensures
        action == Action::ResizeTerminal(size),
{
    Action::ResizeTerminal(size)
}

/// What is answered to a call that asked for a new size, given whether the
/// action could be handed to the device. Where it could not, the device is
/// unreachable, which is a failure of the gateway.
pub fn resize_answer(sent: bool) -> (r: Result<ServerResponse, ServerResponse>)
    ensures
        r is Ok == sent,
        r matches Ok(response) ==> response@ == ResponseView::fresh(),
        r matches Err(response) ==> response@ == ResponseView::plain(
            Status::BadGateway,
            "failed to write to backend processor to resize terminal"@,
        ),
{
    if sent {
        Ok(ServerResponse::new())
    } else {
        Err(
            ServerResponse::plain(
                Status::BadGateway,
                "failed to write to backend processor to resize terminal",
            ),
        )
    }
}

} // verus!
