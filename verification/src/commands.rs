//! Decisions of the command-line front end: which daemons a command
//! addresses, which interfaces it describes, and the exit status it ends
//! with.
use vstd::prelude::*;

use crate::daemon::{first_designated, lookup_key, registry, DaemonEndpoint};
use crate::render::texts;
use crate::text::str_equal;
use crate::varlink::ServiceInfo;

verus! {

/// The daemons that `status` reports on: all of them, or the one `target`
/// names; an unknown name is refused with a message that lists the valid
/// ones.
pub fn status_targets(target: Option<&str>) -> (r: Result<Vec<DaemonEndpoint>, String>)
    ensures
        match target {
            None => r matches Ok(v) && v@ == registry(),
            Some(n) => match first_designated(registry(), lookup_key(n@)) {
                Some(d) => r matches Ok(v) && v@ == seq![d],
                None => r matches Err(m) && m@ == "Unknown daemon '"@ + n@
                    + "'. Valid daemons: sentry, inferenced, modeld, contextd, toold, runtimed"@,
            },
        },
{
    match target {
        None => Ok(DaemonEndpoint::all()),
        Some(name) => match DaemonEndpoint::from_name(name) {
            Some(ep) => {
                let mut v: Vec<DaemonEndpoint> = Vec::new();
                v.push(ep);
                Ok(v)
            },
            None => {
                let mut m = String::from_str("Unknown daemon '");
                m.append(name);
                m.append("'. Valid daemons: sentry, inferenced, modeld, contextd, toold, runtimed");
                Err(m)
            },
        },
    }
}

/// The daemon that `info` describes; an unknown name is refused with a
/// message that lists the valid ones.
pub fn info_target(name: &str) -> (r: Result<DaemonEndpoint, String>)
    ensures
        match first_designated(registry(), lookup_key(name@)) {
            Some(d) => r == Ok::<DaemonEndpoint, String>(d),
            None => r matches Err(m) && m@ == "Unknown daemon '"@ + name@
                + "'. Valid: sentry, inferenced, modeld, contextd, toold, runtimed"@,
        },
{
    match DaemonEndpoint::from_name(name) {
        Some(ep) => Ok(ep),
        None => {
            let mut m = String::from_str("Unknown daemon '");
            m.append(name);
            m.append("'. Valid: sentry, inferenced, modeld, contextd, toold, runtimed");
            Err(m)
        },
    }
}

/// The message for a daemon `info` cannot reach because its socket file is
/// missing.
pub fn missing_socket_message(name: &str, socket: &str) -> (r: String)
    ensures
        r@ == "Daemon '"@ + name@ + "' socket not found at "@ + socket@,
{
    let mut m = String::from_str("Daemon '");
    m.append(name);
    m.append("' socket not found at ");
    m.append(socket);
    m
}

/// The interfaces of `interfaces` other than the introspection interface
/// itself, in order.
pub open spec fn own_interfaces(interfaces: Seq<Seq<char>>) -> Seq<Seq<char>>
    decreases interfaces.len(),
{
    if interfaces.len() == 0 {
        Seq::empty()
    } else {
        let prev = own_interfaces(interfaces.drop_last());
        if interfaces.last() == "org.varlink.service"@ {
            prev
        } else {
            prev.push(interfaces.last())
        }
    }
}

/// The interfaces of a daemon that `info` asks a description of: all but
/// `org.varlink.service`.
pub fn described_interfaces(info: &ServiceInfo) -> (r: Vec<String>)
    ensures
        texts(r@) == own_interfaces(texts(info.interfaces@)),
{
    let mut out: Vec<String> = Vec::new();
    let mut i: usize = 0;
    while i < info.interfaces.len()
        invariant
            i <= info.interfaces.len(),
            texts(out@) == own_interfaces(texts(info.interfaces@.subrange(0, i as int))),
        decreases info.interfaces.len() - i,
    {
        assert(texts(info.interfaces@.subrange(0, i + 1)).drop_last() =~= texts(
            info.interfaces@.subrange(0, i as int),
        ));
        let ghost before = out@;
        if !str_equal(info.interfaces[i].as_str(), "org.varlink.service") {
            let t = info.interfaces[i].clone();
            out.push(t);
            assert(texts(out@) =~= texts(before).push(t@));
        }
        i = i + 1;
    }
    assert(info.interfaces@.subrange(0, info.interfaces.len() as int) == info.interfaces@);
    out
}

/// The exit status that `run` ends with: zero exactly when the tool
/// succeeded. A failing tool's exit code is passed on in its low eight bits;
/// a failing code whose low eight bits are all zero (such as 256) gives 1, so
/// that a failure never reads as success.
pub fn run_exit_status(exit_code: i32) -> (r: u8)
    ensures
        r != 0 <==> exit_code != 0,
        exit_code != 0 && exit_code as u8 != 0 ==> r == exit_code as u8,
        exit_code != 0 && exit_code as u8 == 0 ==> r == 1,
{
    if exit_code == 0 {
        0
    } else {
        let low = exit_code as u8;
        if low == 0 {
            1
        } else {
            low
        }
    }
}

} // verus!
