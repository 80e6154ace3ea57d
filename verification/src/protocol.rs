//! Messages between nodes and the coordinator, and how they are framed.
use vstd::prelude::*;
use vstd::bytes::{spec_u32_from_le_bytes, spec_u32_to_le_bytes, u32_from_le_bytes, u32_to_le_bytes};

use crate::job::JobDispatch;
use crate::machine::MachineStatus;

verus! {

/// Message sent from the client, excluding the startup machine description.
#[derive(Debug)]
pub enum ClientMsg {
    JobDone { id: u64, success: bool, code: Option<u8> },
    Status(MachineStatus),
    Shutdown,
}

impl ClientMsg {
    /// The report that job `id` finished with `outcome`; a job that could not
    /// be run at all counts as failed, with no exit code.
    pub fn job_done(id: u64, outcome: Option<(bool, Option<u8>)>) -> (m: ClientMsg)
        ensures
            m == (match outcome {
                Some((success, code)) => ClientMsg::JobDone { id, success, code },
                None => ClientMsg::JobDone { id, success: false, code: None },
            }),
    {
        match outcome {
            Some((success, code)) => ClientMsg::JobDone { id, success, code },
            None => ClientMsg::JobDone { id, success: false, code: None },
        }
    }
}

/// Message sent from the server.
pub enum ServerMsg {
    /// just a bash script for now
    Spawn { id: u64, script: String },
}

/// Message sent from the coordinator to a node, carrying a whole job.
pub enum DispatchMsg {
    Job { id: u64, dispatch: JobDispatch },
}

/// The payload does not fit the 32-bit length of a frame.
#[derive(Debug, Clone, Copy, PartialEq, Eq, Structural)]
pub struct FrameTooLarge;

/// The bytes of a frame: the payload's length as a little-endian `u32`,
/// then the payload.
pub open spec fn frame_spec(payload: Seq<u8>) -> Seq<u8> {
    spec_u32_to_le_bytes(payload.len() as u32) + payload
}

/// Frames a payload for sending.
pub fn encode_frame(payload: &[u8]) -> (r: Result<Vec<u8>, FrameTooLarge>)
    ensures
        match r {
            Ok(f) => payload@.len() <= u32::MAX && f@ == frame_spec(payload@),
            Err(_) => payload@.len() > u32::MAX,
        },
{
    if payload.len() > u32::MAX as usize {
        return Err(FrameTooLarge);
    }
    let mut f = u32_to_le_bytes(payload.len() as u32);
    let mut i: usize = 0;
    while i < payload.len()
        invariant
            i <= payload@.len(),
            payload@.len() <= u32::MAX,
            f@ == spec_u32_to_le_bytes(payload@.len() as u32) + payload@.subrange(0, i as int),
        decreases payload.len() - i,
    {
        f.push(payload[i]);
        i = i + 1;
        assert(f@ =~= spec_u32_to_le_bytes(payload@.len() as u32) + payload@.subrange(0, i as int));
    }
    assert(payload@.subrange(0, i as int) =~= payload@);
    Ok(f)
}

/// The payload length that a frame header announces.
pub fn frame_length(header: &[u8]) -> (n: u32)
    requires
        header@.len() == 4,
    ensures
        n == spec_u32_from_le_bytes(header@),
{
    u32_from_le_bytes(header)
}

/// A frame's header announces the length of its payload, which follows it.
pub proof fn lemma_frame_roundtrip(payload: Seq<u8>)
    requires
        payload.len() <= u32::MAX,
    ensures
        frame_spec(payload).len() == 4 + payload.len(),
        spec_u32_from_le_bytes(frame_spec(payload).subrange(0, 4)) == payload.len(),
        frame_spec(payload).subrange(4, frame_spec(payload).len() as int) == payload,
{
    vstd::bytes::lemma_auto_spec_u32_to_from_le_bytes();
    let h = spec_u32_to_le_bytes(payload.len() as u32);
    assert(frame_spec(payload).subrange(0, 4) =~= h);
    assert(frame_spec(payload).subrange(4, frame_spec(payload).len() as int) =~= payload);
}

} // verus!
