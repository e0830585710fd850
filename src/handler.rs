use vstd::prelude::*;
use vstd::string::StringExecFns;

verus! {

/// Where the connection handler of one subscriber stands.
pub enum Phase<T> {
    /// Waiting for the next message of the subscription.
    Receiving,
    /// Holding a message that is to be encoded.
    Serializing(T),
    /// Writing an encoded line to the socket.
    Sending,
}

/// What the outside work of the current phase reported.
pub enum Report<T> {
    /// The subscription delivered a message.
    Received(T),
    /// The subscription ended: the bus is gone.
    Closed,
    /// Nothing is ready yet.
    Pending,
    /// The message was encoded as JSON.
    Encoded(String),
    /// The line was written in full.
    Written,
    /// Receiving, encoding or writing failed.
    Failed,
}

/// What the handler does next.
pub enum Step<T> {
    /// Go on at once in the given phase.
    Next(Phase<T>),
    /// Start writing this line, then go on in `Phase::Sending`.
    Write(String),
    /// Stay in the current phase until woken.
    Suspend,
    /// Stop cleanly.
    Finish,
    /// Stop with an error: this connection ends, nothing else.
    Abort,
}

/// The step that follows `report` in `phase`: a message moves the handler
/// to encoding, an encoded message becomes one line to write, a finished
/// write goes back to receiving; the end of the subscription finishes it,
/// a failure or a report that does not belong to the phase aborts it, and
/// pending work suspends it.
pub fn next_step<T>(phase: Phase<T>, report: Report<T>) -> (r: Step<T>)
    ensures
        match (phase, report) {
            (Phase::Receiving, Report::Received(m)) => r matches Step::Next(Phase::Serializing(n)) && n == m,
            (Phase::Receiving, Report::Closed) => r is Finish,
            (Phase::Receiving, Report::Pending) => r is Suspend,
            (Phase::Serializing(_), Report::Encoded(json)) => r matches Step::Write(line) && line@ == json@
                + seq!['\n'],
            (Phase::Sending, Report::Written) => r matches Step::Next(Phase::Receiving),
            (Phase::Sending, Report::Pending) => r is Suspend,
            _ => r is Abort,
        },
{
    match (phase, report) {
        (Phase::Receiving, Report::Received(m)) => Step::Next(Phase::Serializing(m)),
        (Phase::Receiving, Report::Closed) => Step::Finish,
        (Phase::Receiving, Report::Pending) => Step::Suspend,
        (Phase::Serializing(_), Report::Encoded(json)) => {
            let line = json.concat("\n");
            proof {
                reveal_strlit("\n");
            }
            Step::Write(line)
        },
        (Phase::Sending, Report::Written) => Step::Next(Phase::Receiving),
        (Phase::Sending, Report::Pending) => Step::Suspend,
        _ => Step::Abort,
    }
}

} // verus!
