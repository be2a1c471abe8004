//! Commands that run a script on a host.

use vstd::prelude::*;

use crate::quoting::{any_nul, has_nul, join, reads_back, shell_command, QuotingError};
use crate::text::{owned, texts};
use crate::tmux::{batch_ssh, is_command, is_local, is_local_host};

verus! {

/// The arguments of the connection that runs a script, with no terminal where so asked.
pub open spec fn script_ssh(
    host: Seq<char>,
    flag: Seq<char>,
    script: Seq<char>,
    no_terminal: bool,
) -> Seq<Seq<char>> {
    let connect = batch_ssh(host, shell_command(seq!["bash"@, flag, script]));
    if no_terminal {
        seq!["-T"@] + connect
    } else {
        connect
    }
}

/// The command that runs a script on a host: in a shell here, or through a connection that
/// asks nothing.
pub fn script_command(
    host: &str,
    flag: &str,
    script: &str,
    no_terminal: bool,
    local_hostname: &str,
) -> (r: Result<(&'static str, Vec<String>), QuotingError>)
    ensures
        r is Err <==> !is_local_host(host@, local_hostname@) && (has_nul(flag@) || has_nul(script@)),
        r matches Ok(command) ==> if is_local_host(host@, local_hostname@) {
            is_command(command, "bash"@, seq![flag@, script@])
        } else {
            is_command(command, "ssh"@, script_ssh(host@, flag@, script@, no_terminal))
                && reads_back(seq!["bash"@, flag@, script@])
        },
{
    if is_local(host, local_hostname) {
        let arguments: Vec<String> = owned([flag, script]);
        assert(texts(arguments@) =~= seq![flag@, script@]);
        return Ok(("bash", arguments));
    }
    let words: Vec<String> = owned(["bash", flag, script]);
    proof {
        let expected = seq!["bash"@, flag@, script@];
        assert(texts(words@) =~= expected);
        reveal_strlit("bash");
        assert(!has_nul("bash"@));
        assert(expected[1] == flag@);
        assert(expected[2] == script@);
        assert(any_nul(expected) == (has_nul(flag@) || has_nul(script@)));
    }
    match join(&words) {
        Err(error) => Err(error),
        Ok(remote) => {
            if no_terminal {
                let arguments: Vec<String> = owned(
                    [
                        "-T",
                        "-o",
                        "BatchMode=yes",
                        "-o",
                        "ConnectTimeout=5",
                        "-o",
                        "ConnectionAttempts=1",
                        "--",
                        host,
                        remote.as_str(),
                    ],
                );
                assert(texts(arguments@) =~= seq!["-T"@] + batch_ssh(host@, remote@));
                Ok(("ssh", arguments))
            } else {
                let arguments: Vec<String> = owned(
                    [
                        "-o",
                        "BatchMode=yes",
                        "-o",
                        "ConnectTimeout=5",
                        "-o",
                        "ConnectionAttempts=1",
                        "--",
                        host,
                        remote.as_str(),
                    ],
                );
                assert(texts(arguments@) =~= batch_ssh(host@, remote@));
                Ok(("ssh", arguments))
            }
        },
    }
}

} // verus!
