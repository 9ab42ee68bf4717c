//! The stream bridge: the logic of the pumps that move data between an
//! external stream (console PTY output/input, configuration-job log tail)
//! and the client WebSocket.
//!
//! The transport loops live outside this crate; they feed events and lines
//! in and send the frames computed here, so every decision about what is
//! framed, in what order, and when a pump stops is verified.

use vstd::prelude::*;
use vstd::string::*;
use vstd::utf8::*;

verus! {

// ---------------------------------------------------------------------------
// Log-tail mode
// ---------------------------------------------------------------------------

/// The text frame emitted for one log line: a non-empty line is forwarded
/// verbatim; an empty line becomes a single-space frame, a workaround kept
/// for a terminal client that stops rendering on empty frames.
pub open spec fn spec_frame_for_line(line: Seq<char>) -> Seq<char> {
    if line.len() == 0 {
        seq![' ']
    } else {
        line
    }
}

/// Computes the frame sent for one log line.
pub fn frame_for_line(line: &String) -> (frame: String)
    ensures
        frame@ == spec_frame_for_line(line@),
{
    if line.as_str().is_empty() {
        let frame = String::from_str(" ");
        proof {
            reveal_strlit(" ");
            assert(frame@ =~= seq![' ']);
        }
        frame
    } else {
        line.clone()
    }
}

/// Computes the frames sent for a whole sequence of log lines, one frame
/// per line, in order.
pub fn log_tail_frames(lines: &Vec<String>) -> (frames: Vec<String>)
    ensures
        frames@.len() == lines@.len(),
        forall|i: int| 0 <= i < lines@.len() ==> frames@[i]@ == spec_frame_for_line(lines@[i]@),
{
    let mut frames: Vec<String> = Vec::new();
    let n = lines.len();
    let mut i: usize = 0;
    while i < n
        invariant
            i <= n,
            n == lines@.len(),
            frames@.len() == i,
            forall|j: int| 0 <= j < i ==> frames@[j]@ == spec_frame_for_line(lines@[j]@),
        decreases n - i,
    {
        let frame = frame_for_line(&lines[i]);
        frames.push(frame);
        i = i + 1;
    }
    frames
}

/// Law: the log-tail pump is an idempotent passthrough. Every non-empty
/// line appears as exactly one frame with identical content, at the same
/// position, and every empty line is replaced by the single-space frame;
/// no frame is reordered, dropped or invented.
pub proof fn lemma_log_tail_passthrough(lines: Seq<Seq<char>>, frames: Seq<Seq<char>>)
    requires
        frames.len() == lines.len(),
        forall|i: int| 0 <= i < lines.len() ==> frames[i] == spec_frame_for_line(lines[i]),
    ensures
        forall|i: int| 0 <= i < lines.len() && lines[i].len() > 0 ==> frames[i] == lines[i],
        forall|i: int| 0 <= i < lines.len() && lines[i].len() == 0 ==> frames[i] == seq![' '],
{
}

// ---------------------------------------------------------------------------
// Console mode, outbound pump
// ---------------------------------------------------------------------------

/// The connect banner naming the console target.
pub open spec fn spec_console_banner(target: Seq<char>) -> Seq<char> {
    "Connected to "@ + target + "\n\r"@
}

/// The fixed usage hint sent right after the banner.
pub open spec fn spec_console_hint() -> Seq<char> {
    "User &. key combination to exit the console\n\r"@
}

/// Builds the connect banner for a console target.
pub fn console_banner(target: &String) -> (banner: String)
    ensures
        banner@ == spec_console_banner(target@),
{
    let mut banner = String::from_str("Connected to ");
    banner.append(target.as_str());
    banner.append("\n\r");
    banner
}

/// Builds the usage hint frame.
pub fn console_hint() -> (hint: String)
    ensures
        hint@ == spec_console_hint(),
{
    String::from_str("User &. key combination to exit the console\n\r")
}

/// The two preamble frames of a console session: the connect banner, then
/// the usage hint. The outbound pump sends these before it forwards any
/// output from the node.
pub fn console_preamble(target: &String) -> (frames: Vec<String>)
    ensures
        frames@.len() == 2,
        frames@[0]@ == spec_console_banner(target@),
        frames@[1]@ == spec_console_hint(),
{
    let mut frames: Vec<String> = Vec::new();
    frames.push(console_banner(target));
    frames.push(console_hint());
    frames
}

/// All frames the outbound pump emits for a console session whose external
/// stream produced `chunks`: the preamble, then every chunk verbatim, in
/// stream order.
pub fn console_outbound_frames(target: &String, chunks: &Vec<String>) -> (frames: Vec<String>)
    ensures
        frames@.len() == 2 + chunks@.len(),
        frames@[0]@ == spec_console_banner(target@),
        frames@[1]@ == spec_console_hint(),
        forall|i: int| 0 <= i < chunks@.len() ==> frames@[2 + i]@ == chunks@[i]@,
{
    let mut frames = console_preamble(target);
    let n = chunks.len();
    let mut i: usize = 0;
    while i < n
        invariant
            i <= n,
            n == chunks@.len(),
            frames@.len() == 2 + i,
            frames@[0]@ == spec_console_banner(target@),
            frames@[1]@ == spec_console_hint(),
            forall|j: int| 0 <= j < i ==> frames@[2 + j]@ == chunks@[j]@,
        decreases n - i,
    {
        frames.push(chunks[i].clone());
        i = i + 1;
    }
    frames
}

/// Law: the outbound pump emits the connect banner before any forwarded
/// output. In the emitted frame order the banner stands at index 0, and
/// every forwarded chunk stands at an index of at least 2, so the banner
/// precedes all of them; forwarded chunks keep their stream order.
pub proof fn lemma_banner_precedes_output(
    target: Seq<char>,
    chunks: Seq<Seq<char>>,
    frames: Seq<Seq<char>>,
)
    requires
        frames.len() == 2 + chunks.len(),
        frames[0] == spec_console_banner(target),
        frames[1] == spec_console_hint(),
        forall|i: int| 0 <= i < chunks.len() ==> frames[2 + i] == chunks[i],
    ensures
        frames[0] == spec_console_banner(target),
        forall|i: int| 0 <= i < chunks.len() ==> 0 < 2 + i && frames[2 + i] == chunks[i],
{
}

// ---------------------------------------------------------------------------
// Console mode, inbound pump
// ---------------------------------------------------------------------------

/// One event the inbound pump can see on the WebSocket: a text frame from
/// the client, a close frame, or a transport error. Ping/pong control
/// frames are answered by the transport layer and never reach the pump.
pub enum InboundEvent {
    Text(String),
    Close,
    TransportError,
}

/// What the inbound pump does with one event: write the payload to the
/// external input sink, or terminate the pump.
pub enum InboundAction {
    WriteSink(String),
    Terminate,
}

/// Whether an event ends the inbound pump.
pub open spec fn spec_is_stop(ev: InboundEvent) -> bool {
    match ev {
        InboundEvent::Text(_) => false,
        InboundEvent::Close => true,
        InboundEvent::TransportError => true,
    }
}

/// The action taken for one event.
pub open spec fn spec_inbound_action(ev: InboundEvent) -> InboundAction {
    match ev {
        InboundEvent::Text(t) => InboundAction::WriteSink(t),
        InboundEvent::Close => InboundAction::Terminate,
        InboundEvent::TransportError => InboundAction::Terminate,
    }
}

/// Decides what the inbound pump does with one event.
pub fn inbound_step(ev: &InboundEvent) -> (act: InboundAction)
    ensures
        act == spec_inbound_action(*ev),
        spec_is_stop(*ev) <==> act is Terminate,
{
    match ev {
        InboundEvent::Text(t) => InboundAction::WriteSink(t.clone()),
        InboundEvent::Close => InboundAction::Terminate,
        InboundEvent::TransportError => InboundAction::Terminate,
    }
}

/// Runs the inbound pump over a sequence of events: each text frame before
/// the first close or error is written to the sink, in order; the first
/// close or transport error terminates the pump at once and nothing after
/// it is looked at.
pub fn run_inbound(events: &Vec<InboundEvent>) -> (acts: Vec<InboundAction>)
    ensures
        acts@.len() <= events@.len(),
        forall|j: int| 0 <= j < acts@.len() ==> acts@[j] == spec_inbound_action(events@[j]),
        forall|j: int| 0 <= j < acts@.len() - 1 ==> !spec_is_stop(events@[j]),
        acts@.len() < events@.len() ==> acts@.len() >= 1 && spec_is_stop(events@[acts@.len() - 1]),
{
    let mut acts: Vec<InboundAction> = Vec::new();
    let n = events.len();
    let mut i: usize = 0;
    let mut stopped = false;
    while i < n && !stopped
        invariant
            i <= n,
            n == events@.len(),
            acts@.len() == i,
            forall|j: int| 0 <= j < i ==> acts@[j] == spec_inbound_action(events@[j]),
            forall|j: int| 0 <= j < i - 1 ==> !spec_is_stop(events@[j]),
            stopped <==> (i >= 1 && spec_is_stop(events@[i - 1])),
        decreases n - i,
    {
        let ev = &events[i];
        let act = inbound_step(ev);
        let is_stop = match act {
            InboundAction::WriteSink(_) => false,
            InboundAction::Terminate => true,
        };
        acts.push(act);
        if is_stop {
            stopped = true;
        }
        i = i + 1;
    }
    acts
}

/// Law: once the client closes the WebSocket, the inbound pump terminates
/// within that read cycle and never writes stale data to the external input
/// sink afterwards. If the event at position `k` is a close frame (and no
/// stop came earlier), the pump's last action is the terminate at `k`: no
/// sink write exists at any position at or after `k`.
pub proof fn lemma_no_write_after_close(
    events: Seq<InboundEvent>,
    acts: Seq<InboundAction>,
    k: int,
)
    requires
        acts.len() <= events.len(),
        forall|j: int| 0 <= j < acts.len() ==> acts[j] == spec_inbound_action(events[j]),
        forall|j: int| 0 <= j < acts.len() - 1 ==> !spec_is_stop(events[j]),
        acts.len() < events.len() ==> acts.len() >= 1 && spec_is_stop(events[acts.len() - 1]),
        0 <= k < events.len(),
        events[k] is Close,
        forall|j: int| 0 <= j < k ==> !spec_is_stop(events[j]),
    ensures
        acts.len() == k + 1,
        acts[k] == InboundAction::Terminate,
        forall|j: int| k <= j < acts.len() ==> !(acts[j] is WriteSink),
{
    assert(spec_is_stop(events[k]));
    if acts.len() <= k {
        if acts.len() < events.len() {
            assert(spec_is_stop(events[acts.len() - 1]));
            assert(!spec_is_stop(events[acts.len() - 1]));
        } else {
            assert(acts.len() == events.len());
            assert(k < acts.len());
        }
    }
    if acts.len() > k + 1 {
        assert(!spec_is_stop(events[k]));
    }
    assert(acts[k] == spec_inbound_action(events[k]));
}

// ---------------------------------------------------------------------------
// Lossless byte-to-text conversion for console output
// ---------------------------------------------------------------------------

/// Converts one chunk of raw console output into the text frame that is
/// forwarded to the client: the bytes decoded as UTF-8, losslessly. A chunk
/// that is not valid UTF-8 yields `None` and the outbound pump ends.
pub fn console_chunk_frame(bytes: &Vec<u8>) -> (r: Option<String>)
    ensures
        match r {
            Some(s) => valid_utf8(bytes@) && s@ == decode_utf8(bytes@),
            None => !valid_utf8(bytes@),
        },
{
    crate::encoding::utf8_to_string(bytes)
}

} // verus!
