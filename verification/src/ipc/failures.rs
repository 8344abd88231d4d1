//! What is printed when message passing is not accepted.

use crate::bytes::append_bytes;
use crate::text::{append_decimal, append_text, decimal, utf8};
use vstd::prelude::*;

verus! {

/// A failure that is printed.
#[derive(Clone, Copy, Debug, PartialEq, Eq, Structural)]
pub enum Complaint {
    /// A side got no memory.
    Allocation,
    /// A side's channel could not be bound.
    Bind,
    /// A side did not stop by yielding.
    Launch {
        /// Whether it is the server.
        server: bool,
    },
    /// The server could not be launched.
    ServerLaunch,
    /// The sides could not be made a pair.
    Pair,
    /// The pair did not make the measured calls.
    Run,
    /// A behaviour did not meet its fate.
    Fate {
        /// Behaviour.
        opcode: u16,
        /// Milliseconds that it took.
        elapsed: u64,
    },
}

/// The line for a failure. `cause` is the machine's word for the error, the
/// outcome or the stop, and `counters` for the counters of the pair; each is
/// left out where it says nothing.
pub open spec fn complaint_text(complaint: Complaint, cause: Seq<u8>, counters: Seq<u8>) -> Seq<u8> {
    match complaint {
        Complaint::Allocation => utf8("ipc-probe failure=allocation\n"),
        Complaint::Bind => utf8("ipc-probe failure=bind error=") + cause + utf8("\n"),
        Complaint::Launch { server } => utf8("ipc-probe failure=launch server=") + utf8(
            if server {
                "true"
            } else {
                "false"
            },
        ) + utf8(" outcome=") + cause + utf8("\n"),
        Complaint::ServerLaunch => utf8("ipc-probe failure=server-launch\n"),
        Complaint::Pair => utf8("ipc-probe failure=pair error=") + cause + utf8("\n"),
        Complaint::Run => utf8("ipc-probe failure=run stop=") + cause + utf8(" stats=") + counters
            + utf8("\n"),
        Complaint::Fate { opcode, elapsed } => utf8("ipc-probe failure=fate opcode=") + decimal(
            opcode as nat,
        ) + utf8(" stop=") + cause + utf8(" elapsed=") + decimal(elapsed as nat) + utf8(" stats=")
            + counters + utf8("\n"),
    }
}

/// Write the line for a failure.
pub fn complaint_line(complaint: Complaint, cause: &[u8], counters: &[u8]) -> (line: Vec<u8>)
    ensures
        line@ == complaint_text(complaint, cause@, counters@),
{
    let mut line: Vec<u8> = Vec::new();
    match complaint {
        Complaint::Allocation => {
            append_text(&mut line, "ipc-probe failure=allocation\n");
        },
        Complaint::Bind => {
            append_text(&mut line, "ipc-probe failure=bind error=");
            append_bytes(&mut line, cause);
            append_text(&mut line, "\n");
        },
        Complaint::Launch { server } => {
            append_text(&mut line, "ipc-probe failure=launch server=");
            let side = if server {
                "true"
            } else {
                "false"
            };
            append_text(&mut line, side);
            append_text(&mut line, " outcome=");
            append_bytes(&mut line, cause);
            append_text(&mut line, "\n");
        },
        Complaint::ServerLaunch => {
            append_text(&mut line, "ipc-probe failure=server-launch\n");
        },
        Complaint::Pair => {
            append_text(&mut line, "ipc-probe failure=pair error=");
            append_bytes(&mut line, cause);
            append_text(&mut line, "\n");
        },
        Complaint::Run => {
            append_text(&mut line, "ipc-probe failure=run stop=");
            append_bytes(&mut line, cause);
            append_text(&mut line, " stats=");
            append_bytes(&mut line, counters);
            append_text(&mut line, "\n");
        },
        Complaint::Fate { opcode, elapsed } => {
            append_text(&mut line, "ipc-probe failure=fate opcode=");
            append_decimal(&mut line, opcode as u64);
            append_text(&mut line, " stop=");
            append_bytes(&mut line, cause);
            append_text(&mut line, " elapsed=");
            append_decimal(&mut line, elapsed);
            append_text(&mut line, " stats=");
            append_bytes(&mut line, counters);
            append_text(&mut line, "\n");
        },
    }
    assert(line@ =~= complaint_text(complaint, cause@, counters@));
    line
}

/// Each complaint names what failed, and shows the cause where there is one.
pub proof fn complaints_name_what_failed(
    cause: Seq<u8>,
    counters: Seq<u8>,
    opcode: u16,
    elapsed: u64,
)
    ensures
        complaint_text(Complaint::Allocation, cause, counters) == utf8(
            "ipc-probe failure=allocation\n",
        ),
        complaint_text(Complaint::Bind, cause, counters) == utf8("ipc-probe failure=bind error=")
            + cause + utf8("\n"),
        complaint_text(Complaint::Launch { server: true }, cause, counters) == utf8(
            "ipc-probe failure=launch server=",
        ) + utf8("true") + utf8(" outcome=") + cause + utf8("\n"),
        complaint_text(Complaint::Launch { server: false }, cause, counters) == utf8(
            "ipc-probe failure=launch server=",
        ) + utf8("false") + utf8(" outcome=") + cause + utf8("\n"),
        complaint_text(Complaint::ServerLaunch, cause, counters) == utf8(
            "ipc-probe failure=server-launch\n",
        ),
        complaint_text(Complaint::Pair, cause, counters) == utf8("ipc-probe failure=pair error=")
            + cause + utf8("\n"),
        complaint_text(Complaint::Run, cause, counters) == utf8("ipc-probe failure=run stop=")
            + cause + utf8(" stats=") + counters + utf8("\n"),
        complaint_text(Complaint::Fate { opcode, elapsed }, cause, counters) == utf8(
            "ipc-probe failure=fate opcode=",
        ) + decimal(opcode as nat) + utf8(" stop=") + cause + utf8(" elapsed=") + decimal(
            elapsed as nat,
        ) + utf8(" stats=") + counters + utf8("\n"),
{
}

} // verus!
