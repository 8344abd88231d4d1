//! Control of configured services.

use crate::bytes::append_bytes;
use crate::command::jobs::{line_bytes, JobReply};
use crate::command::outcome::CommandStatus;
use crate::text::{append_decimal, append_text, decimal, utf8};
use vstd::prelude::*;

verus! {

/// What is seen of a configured service.
#[derive(Debug)]
pub struct ServiceView {
    /// Name.
    pub name: Vec<u8>,
    /// State in a word.
    pub state: Vec<u8>,
    /// Restarts so far.
    pub restarts: u64,
    /// Bytes in the log.
    pub log_bytes: u64,
    /// Bytes lost from the log.
    pub dropped_log_bytes: u64,
}

impl ServiceView {
    /// The service in a list.
    pub open spec fn short_text(self) -> Seq<u8> {
        self.name@ + utf8(" ") + self.state@ + utf8("\n")
    }

    /// The service in detail.
    pub open spec fn long_text(self) -> Seq<u8> {
        self.name@ + utf8(" ") + self.state@ + utf8(" restarts=") + decimal(self.restarts as nat)
            + utf8(" log-bytes=") + decimal(self.log_bytes as nat) + utf8(" dropped=") + decimal(
            self.dropped_log_bytes as nat,
        ) + utf8("\n")
    }

    /// Format the service for a list.
    pub fn short_line(&self) -> (line: Vec<u8>)
        ensures
            line@ == self.short_text(),
    {
        let mut line: Vec<u8> = Vec::new();
        append_bytes(&mut line, self.name.as_slice());
        append_text(&mut line, " ");
        append_bytes(&mut line, self.state.as_slice());
        append_text(&mut line, "\n");
        assert(line@ =~= self.short_text());
        line
    }

    /// Format the service in detail.
    pub fn long_line(&self) -> (line: Vec<u8>)
        ensures
            line@ == self.long_text(),
    {
        let mut line: Vec<u8> = Vec::new();
        append_bytes(&mut line, self.name.as_slice());
        append_text(&mut line, " ");
        append_bytes(&mut line, self.state.as_slice());
        append_text(&mut line, " restarts=");
        append_decimal(&mut line, self.restarts);
        append_text(&mut line, " log-bytes=");
        append_decimal(&mut line, self.log_bytes);
        append_text(&mut line, " dropped=");
        append_decimal(&mut line, self.dropped_log_bytes);
        append_text(&mut line, "\n");
        assert(line@ =~= self.long_text());
        line
    }
}

/// What is said of an accepted request.
pub open spec fn requested_text(name: Seq<u8>) -> Seq<u8> {
    name + utf8(": requested\n")
}

/// What is asked of a service.
#[derive(Clone, Copy, Debug, PartialEq, Eq, Structural)]
pub enum ServiceRequest {
    /// Its state.
    Status,
    /// To start.
    Start,
    /// To stop.
    Stop,
    /// To start again.
    Restart,
    /// Its log.
    Log,
}

/// What the supervisor said.
#[derive(Debug)]
pub enum SupervisorAnswer {
    /// There is no supervisor.
    Unavailable,
    /// There is no such service.
    Unknown,
    /// The state could not be had.
    NoState,
    /// The state.
    State(ServiceView),
    /// The request is accepted.
    Accepted,
    /// The request is refused.
    Refused,
}

/// What is done about an answer.
#[derive(Debug)]
pub enum ServiceReply {
    /// Print these bytes.
    Print(Vec<u8>),
    /// Print the service's log.
    PrintLog,
    /// A message of the command on standard error, and failure.
    Report(&'static str),
}

/// What is done about an answer to a request about the service `name`.
pub open spec fn service_reply(
    request: ServiceRequest,
    name: Seq<u8>,
    answer: SupervisorAnswer,
    reply: ServiceReply,
) -> bool {
    match answer {
        SupervisorAnswer::Unavailable => reply == ServiceReply::Report(
            "service supervisor unavailable",
        ),
        SupervisorAnswer::Unknown => reply == ServiceReply::Report("unknown service"),
        SupervisorAnswer::NoState => reply == ServiceReply::Report("service state unavailable"),
        SupervisorAnswer::Refused => reply == ServiceReply::Report("request rejected"),
        SupervisorAnswer::State(view) => reply matches ServiceReply::Print(bytes) && bytes@
            == view.long_text(),
        SupervisorAnswer::Accepted => if request == ServiceRequest::Log {
            reply is PrintLog
        } else {
            reply matches ServiceReply::Print(bytes) && bytes@ == requested_text(name)
        },
    }
}

/// Decide what is done about an answer to a request about the service `name`.
pub fn answer_service(request: ServiceRequest, name: &[u8], answer: &SupervisorAnswer) -> (reply:
    ServiceReply)
    ensures
        service_reply(request, name@, *answer, reply),
{
    match answer {
        SupervisorAnswer::Unavailable => ServiceReply::Report("service supervisor unavailable"),
        SupervisorAnswer::Unknown => ServiceReply::Report("unknown service"),
        SupervisorAnswer::NoState => ServiceReply::Report("service state unavailable"),
        SupervisorAnswer::Refused => ServiceReply::Report("request rejected"),
        SupervisorAnswer::State(view) => ServiceReply::Print(view.long_line()),
        SupervisorAnswer::Accepted => match request {
            ServiceRequest::Log => ServiceReply::PrintLog,
            _ => {
                let mut line: Vec<u8> = Vec::new();
                append_bytes(&mut line, name);
                append_text(&mut line, ": requested\n");
                assert(line@ =~= requested_text(name@));
                ServiceReply::Print(line)
            },
        },
    }
}

/// The lines of the services before the first one without a state.
pub open spec fn known_lines(services: Seq<Option<ServiceView>>, n: int) -> Seq<Seq<u8>>
    decreases n,
{
    if n <= 0 {
        Seq::empty()
    } else {
        known_lines(services, n - 1).push(services[n - 1]->0.short_text())
    }
}

/// Whether each of the first `n` services has a state.
pub open spec fn known_up_to(services: Seq<Option<ServiceView>>, n: int) -> bool {
    forall|i: int| 0 <= i < n ==> (#[trigger] services[i]) is Some
}

/// List the configured services, one line each. A service without a state ends
/// the list and is reported.
pub fn list_services(services: &Vec<Option<ServiceView>>) -> (listed: (Vec<Vec<u8>>, JobReply))
    ensures
        exists|n: int|
            {
                &&& 0 <= n <= services@.len()
                &&& #[trigger] known_up_to(services@, n)
                &&& line_bytes(listed.0@) == known_lines(services@, n)
                &&& if n == services@.len() {
                    listed.1 == JobReply::Status(CommandStatus::Success)
                } else {
                    services@[n] is None && listed.1 == JobReply::Report(
                        "svc",
                        "service state unavailable",
                    )
                }
            },
{
    let mut lines: Vec<Vec<u8>> = Vec::new();
    let mut i: usize = 0;
    assert(line_bytes(lines@) =~= known_lines(services@, 0));
    while i < services.len()
        invariant
            i <= services@.len(),
            known_up_to(services@, i as int),
            line_bytes(lines@) == known_lines(services@, i as int),
        decreases services@.len() - i,
    {
        let ghost before = lines@;
        match &services[i] {
            Some(view) => {
                let line = view.short_line();
                lines.push(line);
                assert(line_bytes(lines@) =~= line_bytes(before).push(line@));
            },
            None => {
                return (lines, JobReply::Report("svc", "service state unavailable"));
            },
        }
        i = i + 1;
    }
    (lines, JobReply::Status(CommandStatus::Success))
}

/// Every request to the supervisor is answered in the words of what came of it.
/// Where a service has a state, its name, its state and its three counters are
/// shown under their names, in this order; an accepted request is named, and
/// only an accepted request for the log prints one.
pub proof fn service_requests_are_answered_in_words(
    request: ServiceRequest,
    name: Seq<u8>,
    answer: SupervisorAnswer,
    reply: ServiceReply,
)
    requires
        service_reply(request, name, answer, reply),
    ensures
        answer is Unavailable ==> reply == ServiceReply::Report("service supervisor unavailable"),
        answer is Unknown ==> reply == ServiceReply::Report("unknown service"),
        answer is NoState ==> reply == ServiceReply::Report("service state unavailable"),
        answer is Refused ==> reply == ServiceReply::Report("request rejected"),
        reply is PrintLog <==> answer is Accepted && request == ServiceRequest::Log,
        answer is Accepted && request != ServiceRequest::Log ==> (reply matches
            ServiceReply::Print(bytes) && bytes@ == name + utf8(": requested\n")),
        (answer matches SupervisorAnswer::State(view) ==> (reply matches ServiceReply::Print(bytes)
            && bytes@ == view.name@ + utf8(" ") + view.state@ + utf8(" restarts=") + decimal(
            view.restarts as nat,
        ) + utf8(" log-bytes=") + decimal(view.log_bytes as nat) + utf8(" dropped=") + decimal(
            view.dropped_log_bytes as nat,
        ) + utf8("\n"))),
{
}

/// A list of services has a line for each, in order, with its name and state.
pub proof fn listed_services_have_a_line_each(services: Seq<Option<ServiceView>>, n: int, i: int)
    requires
        0 <= i < n <= services.len(),
        known_up_to(services, n),
    ensures
        known_lines(services, n).len() == n,
        services[i] matches Some(view) && known_lines(services, n)[i] == view.name@ + utf8(" ")
            + view.state@ + utf8("\n"),
    decreases n,
{
    assert(services[i] is Some);
    lemma_known_lines(services, n);
    if i < n - 1 {
        assert forall|k: int| 0 <= k < n - 1 implies (#[trigger] services[k]) is Some by {}
        listed_services_have_a_line_each(services, n - 1, i);
    }
}

proof fn lemma_known_lines(services: Seq<Option<ServiceView>>, n: int)
    requires
        0 <= n,
    ensures
        known_lines(services, n).len() == n,
    decreases n,
{
    if n > 0 {
        lemma_known_lines(services, n - 1);
    }
}

} // verus!
