use vstd::prelude::*;
use vstd::utf8::encode_utf8;
use crate::hub::HubRecv;
use crate::json::{push_byte_array, push_escaped, spec_byte_array, spec_escape};

verus! {

/// The bytes of `{"type":"TerminalOutput","session_id":"`.
pub open spec fn spec_frame_head() -> Seq<u8> {
    seq![
        123u8, 34u8, 116u8, 121u8, 112u8, 101u8, 34u8, 58u8, 34u8, 84u8, 101u8, 114u8, 109u8,
        105u8, 110u8, 97u8, 108u8, 79u8, 117u8, 116u8, 112u8, 117u8, 116u8, 34u8, 44u8, 34u8,
        115u8, 101u8, 115u8, 115u8, 105u8, 111u8, 110u8, 95u8, 105u8, 100u8, 34u8, 58u8, 34u8,
    ]
}

/// The bytes of `","data":`.
pub open spec fn spec_frame_mid() -> Seq<u8> {
    seq![34u8, 44u8, 34u8, 100u8, 97u8, 116u8, 97u8, 34u8, 58u8]
}

/// The bytes of `{"type":"Ping"}`.
pub open spec fn spec_ping_frame() -> Seq<u8> {
    seq![
        123u8, 34u8, 116u8, 121u8, 112u8, 101u8, 34u8, 58u8, 34u8, 80u8, 105u8, 110u8, 103u8,
        34u8, 125u8,
    ]
}

/// The wire frame that carries one chunk of session output to a relay
/// client: a JSON object tagged `TerminalOutput`, with the session id as
/// an escaped JSON string and the raw bytes as an array of numbers.
pub open spec fn spec_terminal_output_frame(id: Seq<char>, data: Seq<u8>) -> Seq<u8> {
    spec_frame_head() + spec_escape(encode_utf8(id)) + spec_frame_mid() + spec_byte_array(data)
        + seq![125u8]
}

/// One server-to-client message of the relay protocol.
pub enum WsMessage {
    TerminalOutput { session_id: String, data: Vec<u8> },
    Ping,
}

/// The JSON encoding of one relay message.
pub open spec fn spec_ws_frame(m: WsMessage) -> Seq<u8> {
    match m {
        WsMessage::TerminalOutput { session_id, data } => spec_terminal_output_frame(
            session_id@,
            data@,
        ),
        WsMessage::Ping => spec_ping_frame(),
    }
}

fn push_frame_head(out: &mut Vec<u8>)
    ensures
        final(out)@ == old(out)@ + spec_frame_head(),
{
    out.push(123);
    out.push(34);
    out.push(116);
    out.push(121);
    out.push(112);
    out.push(101);
    out.push(34);
    out.push(58);
    out.push(34);
    out.push(84);
    out.push(101);
    out.push(114);
    out.push(109);
    out.push(105);
    out.push(110);
    out.push(97);
    out.push(108);
    out.push(79);
    out.push(117);
    out.push(116);
    out.push(112);
    out.push(117);
    out.push(116);
    out.push(34);
    out.push(44);
    out.push(34);
    out.push(115);
    out.push(101);
    out.push(115);
    out.push(115);
    out.push(105);
    out.push(111);
    out.push(110);
    out.push(95);
    out.push(105);
    out.push(100);
    out.push(34);
    out.push(58);
    out.push(34);
    proof {
        assert(out@ =~= old(out)@ + spec_frame_head());
    }
}

fn push_frame_mid(out: &mut Vec<u8>)
    ensures
        final(out)@ == old(out)@ + spec_frame_mid(),
{
    out.push(34);
    out.push(44);
    out.push(34);
    out.push(100);
    out.push(97);
    out.push(116);
    out.push(97);
    out.push(34);
    out.push(58);
    proof {
        assert(out@ =~= old(out)@ + spec_frame_mid());
    }
}

/// Encodes one `TerminalOutput` frame.
pub fn encode_terminal_output(session_id: &str, data: &[u8]) -> (r: Vec<u8>)
    ensures
        r@ == spec_terminal_output_frame(session_id@, data@),
{
    let mut out: Vec<u8> = Vec::new();
    push_frame_head(&mut out);
    push_escaped(&mut out, session_id.as_bytes());
    push_frame_mid(&mut out);
    push_byte_array(&mut out, data);
    out.push(125);
    proof {
        assert(out@ =~= spec_terminal_output_frame(session_id@, data@));
    }
    out
}

/// Encodes one relay protocol message as its JSON frame.
pub fn encode_ws_message(m: &WsMessage) -> (r: Vec<u8>)
    ensures
        r@ == spec_ws_frame(*m),
{
    match m {
        WsMessage::TerminalOutput { session_id, data } => encode_terminal_output(
            session_id.as_str(),
            data.as_slice(),
        ),
        WsMessage::Ping => {
            let mut out: Vec<u8> = Vec::new();
            out.push(123);
            out.push(34);
            out.push(116);
            out.push(121);
            out.push(112);
            out.push(101);
            out.push(34);
            out.push(58);
            out.push(34);
            out.push(80);
            out.push(105);
            out.push(110);
            out.push(103);
            out.push(34);
            out.push(125);
            proof {
                assert(out@ =~= spec_ping_frame());
            }
            out
        },
    }
}

/// What a relay client's loop does next after one receive attempt.
pub enum RelayAction {
    /// Send these frame bytes to the client.
    Forward(Vec<u8>),
    /// A lag was detected and skipped; try again at once.
    Skip,
    /// Nothing new; wait for the next message.
    Wait,
}

/// The per-client relay decision: a received chunk is forwarded as a
/// `TerminalOutput` frame, a detected lag is skipped (the client stays
/// connected and resumes from the oldest retained message), an empty
/// stream means wait. Send failures and client close frames end only
/// that client's loop and are handled where the socket lives.
pub fn relay_step(ev: HubRecv) -> (a: RelayAction)
    ensures
        match ev {
            HubRecv::Message(m) => match a {
                RelayAction::Forward(bytes) => bytes@ == spec_terminal_output_frame(
                    m.session_id@,
                    m.data@,
                ),
                _ => false,
            },
            HubRecv::Lagged => a is Skip,
            HubRecv::Empty => a is Wait,
        },
{
    match ev {
        HubRecv::Message(m) => RelayAction::Forward(
            encode_terminal_output(m.session_id.as_str(), m.data.as_slice()),
        ),
        HubRecv::Lagged => RelayAction::Skip,
        HubRecv::Empty => RelayAction::Wait,
    }
}

} // verus!
