//! The decisions of a client handle's calls: what is sent to the engine and
//! what its answers mean. Making the calls is left to the caller.
use vstd::prelude::*;

use crate::error::{error_of, MpvError};
use crate::event::{event_decoded, event_wf, Event};
use crate::node::{encode_text, decode_spec, format_of, well_written, written_payload, opt_view, writable, written_view, Node};
use crate::raw::{mpv_event, mpv_node};
use crate::text::utf8_text;

verus! {

/// The answer to a command: its error for a failed status; else the result
/// node read back when one was asked for, and nothing otherwise.
pub open spec fn command_result_spec(
    status: i32,
    result: Option<mpv_node>,
    r: Result<Option<Node>, MpvError>,
) -> bool {
    match error_of(status as int) {
        Some(e) => r == Err::<Option<Node>, MpvError>(e),
        None => match result {
            None => r == Ok::<Option<Node>, MpvError>(None),
            Some(n) => r matches Ok(x) && opt_view(x) == decode_spec(n),
        },
    }
}

/// Fold a command's status and the result node that the engine filled in
/// (`None` when no result was asked for).
pub fn command_result(status: i32, result: Option<mpv_node>) -> (r: Result<Option<Node>, MpvError>)
    ensures
        command_result_spec(status, result, r),
{
    match MpvError::from_mpv_error(status) {
        Some(e) => Err(e),
        None => match result {
            None => Ok(None),
            Some(n) => Ok(Node::from_mpv_node(n)),
        },
    }
}

/// Write a node that is to be handed to the engine; `failure` when it cannot
/// be written.
pub fn node_argument(arg: Node, failure: MpvError) -> (r: Result<mpv_node, MpvError>)
    requires
        writable(arg),
    ensures
        r is Err <==> written_view(arg) is None,
        r is Err ==> r == Err::<mpv_node, MpvError>(failure),
        r is Ok ==> decode_spec(r->Ok_0) == written_view(arg) && r->Ok_0.format == format_of(arg)
            && well_written(r->Ok_0) && written_payload(arg, r->Ok_0),
{
    match arg.to_mpv_node() {
        Some(n) => Ok(n),
        None => Err(failure),
    }
}

/// Write the arguments of a command as C strings; `None` when one of them
/// holds a NUL.
pub fn command_args(args: &Vec<String>) -> (r: Option<Vec<Vec<u8>>>)
    ensures
        r is Some <==> forall|i: int| 0 <= i < args.len() ==> !(#[trigger] args@[i])@.contains('\0'),
        r matches Some(out) ==> out.len() == args.len() && forall|i: int|
            0 <= i < args.len() ==> utf8_text(#[trigger] out@[i]@) == Some(args@[i]@)
                && !out@[i]@.contains(0u8),
{
    let mut out: Vec<Vec<u8>> = Vec::new();
    let mut i: usize = 0;
    while i < args.len()
        invariant
            i <= args.len(),
            out.len() == i,
            forall|j: int| 0 <= j < i ==> !(#[trigger] args@[j])@.contains('\0'),
            forall|j: int|
                0 <= j < i ==> utf8_text(#[trigger] out@[j]@) == Some(args@[j]@) && !out@[j]@.contains(
                    0u8,
                ),
        decreases args.len() - i,
    {
        match encode_text(&args[i]) {
            Some(b) => out.push(b),
            None => {
                return None;
            },
        }
        i += 1;
    }
    Some(out)
}

/// What polling gives: nothing when the engine handed back no record, else
/// the decoded record.
pub fn next_event(record: Option<mpv_event>) -> (r: Option<Event>)
    requires
        record matches Some(e) ==> event_wf(e),
    ensures
        match record {
            None => r is None,
            Some(e) => event_decoded(e, r),
        },
{
    match record {
        None => None,
        Some(e) => Event::from_mpv_event(e),
    }
}

} // verus!
