//! Console command dispatch: the read-only introspection commands the
//! coordinator process answers on its terminal.

use vstd::prelude::*;

verus! {

/// The console commands: `1` prints the current holder and the pending
/// queue entries, `2` the per-process request counts, `3` terminates the
/// process. Anything else is unknown.
#[derive(Debug, Clone, Copy, PartialEq, Eq, Structural)]
pub enum ConsoleCommand {
    ShowQueue,
    ShowMetrics,
    Terminate,
    Unknown,
}

/// The command a trimmed input line stands for (the bytes 49, 50, 51 are
/// the digits 1, 2, 3).
pub open spec fn command_of(line: Seq<u8>) -> ConsoleCommand {
    if line == seq![49u8] {
        ConsoleCommand::ShowQueue
    } else if line == seq![50u8] {
        ConsoleCommand::ShowMetrics
    } else if line == seq![51u8] {
        ConsoleCommand::Terminate
    } else {
        ConsoleCommand::Unknown
    }
}

/// Parse one trimmed console line into its command.
pub fn parse_command(line: &Vec<u8>) -> (c: ConsoleCommand)
    ensures
        c == command_of(line@),
{
    if line.len() == 1 {
        let b = line[0];
        proof {
            assert(line@ =~= seq![line@[0]]);
        }
        if b == 49u8 {
            ConsoleCommand::ShowQueue
        } else if b == 50u8 {
            ConsoleCommand::ShowMetrics
        } else if b == 51u8 {
            ConsoleCommand::Terminate
        } else {
            ConsoleCommand::Unknown
        }
    } else {
        proof {
            assert(line@.len() != 1);
            assert(line@ != seq![49u8] && line@ != seq![50u8] && line@ != seq![51u8]);
        }
        ConsoleCommand::Unknown
    }
}

} // verus!
