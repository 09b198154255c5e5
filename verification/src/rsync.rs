//! The command line of the `rsync` run that copies a synced path to its
//! remote destination.

use vstd::prelude::*;
use crate::addr::{RemoteAddr, addr_text};
use crate::path::FsPath;
use crate::text::{decimal, number_to_text};

verus! {

/// The program that copies the files.
pub const RSYNC_PROGRAM: &'static str = "rsync";

/// The port on which the remote shell is reached when no other is named.
pub const DEFAULT_SSH_PORT: u16 = 22;

/// The arguments of the `rsync` run that copies `source` to `destination`
/// on the machine at `addr`, logged in as `user`: archive mode, verbose and
/// compressed, deleting what the source lacks; the remote shell's port is
/// named when it is not the default one. Partial files and progress output
/// are not asked for.
pub open spec fn rsync_args(
    source: Seq<char>,
    destination: Seq<char>,
    user: Seq<char>,
    addr: RemoteAddr,
) -> Seq<Seq<char>> {
    seq!["-avz"@, "--delete"@] + (if addr.port_of() != DEFAULT_SSH_PORT {
        seq!["-e \"ssh -p "@ + decimal(addr.port_of() as nat) + "\""@]
    } else {
        Seq::empty()
    }) + seq![source, user + "@"@ + addr_text(addr) + ":"@ + destination]
}

pub open spec fn string_seq_view(v: Seq<String>) -> Seq<Seq<char>> {
    v.map_values(|s: String| s@)
}

/// The arguments of the `rsync` run that copies `source` to `destination`
/// on the machine at `destination_address`, logged in as `destination_user`.
pub fn rsync_arguments(
    source: &FsPath,
    destination: &FsPath,
    destination_user: &str,
    destination_address: &RemoteAddr,
) -> (r: Vec<String>)
    ensures
        string_seq_view(r@) == rsync_args(
            source@,
            destination@,
            destination_user@,
            *destination_address,
        ),
{
    let mut args: Vec<String> = Vec::new();
    args.push(String::from_str("-avz"));
    args.push(String::from_str("--delete"));
    let port = destination_address.port();
    if port != DEFAULT_SSH_PORT {
        args.push(
            String::from_str("-e \"ssh -p ").concat(number_to_text(port as u128, 10).as_str()).concat(
                "\"",
            ),
        );
    }
    args.push(String::from_str(source.as_str()));
    args.push(
        String::from_str(destination_user).concat("@").concat(
            destination_address.to_text().as_str(),
        ).concat(":").concat(destination.as_str()),
    );
    assert(string_seq_view(args@) =~= rsync_args(
        source@,
        destination@,
        destination_user@,
        *destination_address,
    ));
    args
}

/// The layout of the arguments, for every address, IPv4 or IPv6: archive
/// and delete options first; then, exactly when the port is not the
/// default one, the remote shell with that port; then the source; last the
/// destination, `user@address:path`.
pub proof fn law_rsync_argument_layout(
    source: Seq<char>,
    destination: Seq<char>,
    user: Seq<char>,
    addr: RemoteAddr,
)
    ensures
        ({
            let a = rsync_args(source, destination, user, addr);
            &&& a[0] == "-avz"@
            &&& a[1] == "--delete"@
            &&& addr.port_of() != DEFAULT_SSH_PORT ==> a.len() == 5 && a[2] == "-e \"ssh -p "@
                + decimal(addr.port_of() as nat) + "\""@
            &&& addr.port_of() == DEFAULT_SSH_PORT ==> a.len() == 4
            &&& a[a.len() - 2] == source
            &&& a[a.len() - 1] == user + "@"@ + addr_text(addr) + ":"@ + destination
        }),
{
}

} // verus!
