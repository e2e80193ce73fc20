//! The command vector handed to the final process-replacement step.

use vstd::prelude::*;

verus! {

/// The interactive shell used when the caller supplies no command,
/// as a byte path: "/bin/bash".
pub open spec fn default_shell() -> Seq<u8> {
    seq![47u8, 98u8, 105u8, 110u8, 47u8, 98u8, 97u8, 115u8, 104u8]
}

/// Returns the command vector to execute: the caller's own command when one
/// was given, and the interactive shell otherwise.
pub fn effective_command(cmd: Vec<Vec<u8>>) -> (r: Vec<Vec<u8>>)
    ensures
        cmd@.len() > 0 ==> r == cmd,
        cmd@.len() == 0 ==> r.deep_view() == seq![default_shell()],
{
    if cmd.len() > 0 {
        cmd
    } else {
        let mut shell: Vec<u8> = Vec::new();
        shell.push(47);
        shell.push(98);
        shell.push(105);
        shell.push(110);
        shell.push(47);
        shell.push(98);
        shell.push(97);
        shell.push(115);
        shell.push(104);
        let mut r: Vec<Vec<u8>> = Vec::new();
        r.push(shell);
        proof {
            assert(shell@ =~= default_shell());
            assert(r.deep_view() =~~= seq![default_shell()]);
        }
        r
    }
}

} // verus!
