//! Socket activation: whether the service manager handed the daemon its
//! listening sockets, and which role each handed-over socket takes.
use vstd::prelude::*;
use crate::num::{parse_unsigned, parse_i32_spec, parse_u32, parse_i32};
use crate::text::str_eq;

verus! {

/// First descriptor the service manager passes.
pub const SD_LISTEN_FDS_START: i32 = 3;

/// Whether `LISTEN_PID` names this process and `LISTEN_FDS` is a positive
/// count. Both variables are given as read (`None` where unset).
pub open spec fn socket_activated_spec(
    listen_pid: Option<Seq<char>>,
    listen_fds: Option<Seq<char>>,
    own_pid: u32,
) -> bool {
    &&& listen_pid matches Some(p) && parse_unsigned(p, u32::MAX as nat) == Some(own_pid as nat)
    &&& listen_fds matches Some(f) && (parse_i32_spec(f) matches Some(n) && n > 0)
}

/// Decides socket activation from `LISTEN_PID`, `LISTEN_FDS` and the id of
/// this process.
pub fn is_socket_activated(listen_pid: Option<&str>, listen_fds: Option<&str>, own_pid: u32) -> (b:
    bool)
    ensures
        b == socket_activated_spec(
            match listen_pid {
                Some(p) => Some(p@),
                None => None,
            },
            match listen_fds {
                Some(f) => Some(f@),
                None => None,
            },
            own_pid,
        ),
{
    let pid_matches = match listen_pid {
        Some(p) => match parse_u32(p) {
            Some(pid) => pid == own_pid,
            None => false,
        },
        None => false,
    };
    let has_fds = match listen_fds {
        Some(f) => match parse_i32(f) {
            Some(n) => n > 0,
            None => false,
        },
        None => false,
    };
    pid_matches && has_fds
}

/// Number of descriptors passed: `LISTEN_FDS` read as an `i32`, 0 where it
/// is unset or not a number.
pub fn listen_fd_count(listen_fds: Option<&str>) -> (n: i32)
    ensures
        match listen_fds {
            Some(f) => match parse_i32_spec(f@) {
                Some(x) => n == x,
                None => n == 0,
            },
            None => n == 0,
        },
{
    match listen_fds {
        Some(f) => match parse_i32(f) {
            Some(x) => x,
            None => 0,
        },
        None => 0,
    }
}

/// The descriptor number of the `i`-th passed socket.
pub fn listen_fd(i: i32) -> (fd: i32)
    requires
        0 <= i <= i32::MAX - SD_LISTEN_FDS_START,
    ensures
        fd == SD_LISTEN_FDS_START + i,
{
    SD_LISTEN_FDS_START + i
}

/// Role a socket takes in the daemon.
#[derive(Clone, Copy, PartialEq, Eq, Structural, Debug)]
pub enum SocketRole {
    Varlink,
    GatewayUnix,
}

/// The role a Unix socket's file name announces: `io.syntrop.Router1` is the
/// Varlink service, `router.sock` the HTTP gateway; other names, and sockets
/// without a (UTF-8) file name, announce none.
pub fn classify_unix_socket(file_name: Option<&str>) -> (r: Option<SocketRole>)
    ensures
        match file_name {
            Some(n) => {
                &&& (n@ == "io.syntrop.Router1"@) ==> r == Some(SocketRole::Varlink)
                &&& (n@ == "router.sock"@) ==> r == Some(SocketRole::GatewayUnix)
                &&& (n@ != "io.syntrop.Router1"@ && n@ != "router.sock"@) ==> r is None
            },
            None => r is None,
        },
{
    proof {
        reveal_strlit("io.syntrop.Router1");
        reveal_strlit("router.sock");
        assert("io.syntrop.Router1"@.len() != "router.sock"@.len());
    }
    match file_name {
        Some(n) => {
            if str_eq(n, "io.syntrop.Router1") {
                Some(SocketRole::Varlink)
            } else if str_eq(n, "router.sock") {
                Some(SocketRole::GatewayUnix)
            } else {
                None
            }
        },
        None => None,
    }
}

/// What a passed descriptor turned out to be.
pub enum SocketFamily {
    /// A Unix socket, with the file name of the path it is bound to (`None`
    /// where it has none or it is not UTF-8).
    Unix(Option<String>),
    /// An IPv4 or IPv6 socket.
    Inet,
    /// Any other family.
    Other,
}

/// Where a descriptor went.
#[derive(Clone, Copy, PartialEq, Eq, Structural, Debug)]
pub enum Placement {
    Varlink,
    GatewayUnix,
    /// An unnamed Unix socket taken as the gateway because that slot was free.
    GatewayUnixByPosition,
    /// An unnamed Unix socket taken as Varlink because only that slot was free.
    VarlinkByPosition,
    /// An unnamed Unix socket with both slots taken: left unused.
    Unassigned,
    TcpGateway,
    /// A socket of a family the daemon does not serve.
    Unrecognized,
}

/// The sockets taken over so far, by descriptor number.
pub struct ActivatedSockets {
    pub tcp_gateways: Vec<i32>,
    pub unix_gateway: Option<i32>,
    pub varlink: Option<i32>,
}

impl ActivatedSockets {
    /// Nothing taken over yet.
    pub fn new() -> (s: ActivatedSockets)
        ensures
            s.tcp_gateways@.len() == 0,
            s.unix_gateway is None,
            s.varlink is None,
    {
        ActivatedSockets { tcp_gateways: Vec::new(), unix_gateway: None, varlink: None }
    }

    /// Takes over descriptor `fd` of family `family`. A Unix socket named for
    /// a role takes that role (replacing an earlier one); an unnamed one
    /// takes the gateway slot if free, else the Varlink slot if free, else
    /// none. IPv4 and IPv6 sockets join the TCP gateways in order.
    pub fn adopt(&mut self, fd: i32, family: &SocketFamily) -> (p: Placement)
        ensures
            match *family {
                SocketFamily::Unix(name) => {
                    let role = match name {
                        Some(n) => if n@ == "io.syntrop.Router1"@ {
                            Some(SocketRole::Varlink)
                        } else if n@ == "router.sock"@ {
                            Some(SocketRole::GatewayUnix)
                        } else {
                            None
                        },
                        None => None,
                    };
                    &&& final(self).tcp_gateways@ == old(self).tcp_gateways@
                    &&& role == Some(SocketRole::Varlink) ==> (p == Placement::Varlink
                        && final(self).varlink == Some(fd) && final(self).unix_gateway
                        == old(self).unix_gateway)
                    &&& role == Some(SocketRole::GatewayUnix) ==> (p == Placement::GatewayUnix
                        && final(self).unix_gateway == Some(fd) && final(self).varlink
                        == old(self).varlink)
                    &&& (role is None && old(self).unix_gateway is None) ==> (p
                        == Placement::GatewayUnixByPosition && final(self).unix_gateway
                        == Some(fd) && final(self).varlink == old(self).varlink)
                    &&& (role is None && old(self).unix_gateway is Some && old(self).varlink
                        is None) ==> (p == Placement::VarlinkByPosition && final(self).varlink
                        == Some(fd) && final(self).unix_gateway == old(self).unix_gateway)
                    &&& (role is None && old(self).unix_gateway is Some && old(self).varlink
                        is Some) ==> (p == Placement::Unassigned && final(self).varlink
                        == old(self).varlink && final(self).unix_gateway
                        == old(self).unix_gateway)
                },
                SocketFamily::Inet => {
                    &&& p == Placement::TcpGateway
                    &&& final(self).tcp_gateways@ == old(self).tcp_gateways@.push(fd)
                    &&& final(self).varlink == old(self).varlink
                    &&& final(self).unix_gateway == old(self).unix_gateway
                },
                SocketFamily::Other => {
                    &&& p == Placement::Unrecognized
                    &&& final(self).tcp_gateways@ == old(self).tcp_gateways@
                    &&& final(self).varlink == old(self).varlink
                    &&& final(self).unix_gateway == old(self).unix_gateway
                },
            },
    {
        match family {
            SocketFamily::Unix(name) => {
                let role = match name {
                    Some(n) => classify_unix_socket(Some(n.as_str())),
                    None => classify_unix_socket(None),
                };
                match role {
                    Some(SocketRole::Varlink) => {
                        self.varlink = Some(fd);
                        Placement::Varlink
                    },
                    Some(SocketRole::GatewayUnix) => {
                        self.unix_gateway = Some(fd);
                        Placement::GatewayUnix
                    },
                    None => {
                        if self.unix_gateway.is_none() {
                            self.unix_gateway = Some(fd);
                            Placement::GatewayUnixByPosition
                        } else if self.varlink.is_none() {
                            self.varlink = Some(fd);
                            Placement::VarlinkByPosition
                        } else {
                            Placement::Unassigned
                        }
                    },
                }
            },
            SocketFamily::Inet => {
                self.tcp_gateways.push(fd);
                Placement::TcpGateway
            },
            SocketFamily::Other => Placement::Unrecognized,
        }
    }
}

} // verus!
