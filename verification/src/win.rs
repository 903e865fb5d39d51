use vstd::prelude::*;

verus! {

/// An IP address as the Windows adapter API reports it for a DNS server.
#[derive(Debug, Clone, Copy, PartialEq, Eq)]
pub enum IpAddr {
    V4([u8; 4]),
}

/// Address family number of IPv4 sockets (`AF_INET`).
pub const AF_INET: u16 = 2;

/// Builds the IP address held in the `sa_data` bytes of a `SOCKADDR` of the given family.
///
/// Only IPv4 (`AF_INET`) addresses are handled: the adapter API lays them out as
/// two port bytes followed by the four address bytes, e.g.
/// `[0, 0, 8, 8, 8, 8, 0, 0, 0, 0, 0, 0, 0, 0]` for `8.8.8.8`.
pub fn from_sockaddr(addr: [u8; 14], family: u16) -> (ip: IpAddr)
    requires
        family == AF_INET,
    ensures
        ip == IpAddr::V4([addr[2], addr[3], addr[4], addr[5]]),
{
    IpAddr::V4([addr[2], addr[3], addr[4], addr[5]])
}

/// Win32 `ERROR_SUCCESS`: the call succeeded.
pub const ERROR_SUCCESS: u32 = 0;

/// Win32 `ERROR_BUFFER_OVERFLOW`: the buffer was too small; the call reported the size it needs.
pub const ERROR_BUFFER_OVERFLOW: u32 = 111;

/// A socket address as the adapter API reports it: the 14 `sa_data` bytes and the family.
#[derive(Debug, Clone, Copy)]
pub struct SockAddr {
    pub data: [u8; 14],
    pub family: u16,
}

/// Which call of `GetAdaptersAddresses` has just returned.
#[derive(Debug, Clone, Copy, PartialEq, Eq, Structural)]
pub enum AdaptersCall {
    /// The first call, made without a buffer to learn the size needed.
    SizeQuery,
    /// The second call, made with a buffer of that size.
    AdaptersQuery,
}

/// What to do after a call of `GetAdaptersAddresses`.
#[derive(Debug, Clone, Copy, PartialEq, Eq, Structural)]
pub enum AdaptersAction {
    /// Call again with a buffer of `buflen` bytes.
    QueryWithBuffer { buflen: u32 },
    /// The buffer holds the adapters: walk them and collect their DNS server addresses.
    CollectServers,
    /// Stop with the return code `rc` and no addresses.
    Stop { rc: u32 },
}

/// Decides the next step of listing the DNS servers from the return code `rc` of
/// the call that just returned and the buffer size `buflen` it reported.
///
/// The size query must report `ERROR_BUFFER_OVERFLOW` for the adapters to be
/// fetched with a buffer of the reported size; the adapters query must succeed for
/// the adapters to be walked. Any other code stops the listing with that code.
pub fn adapters_next(call: AdaptersCall, rc: u32, buflen: u32) -> (a: AdaptersAction)
    ensures
        call == AdaptersCall::SizeQuery ==> a == (if rc == ERROR_BUFFER_OVERFLOW {
            AdaptersAction::QueryWithBuffer { buflen }
        } else {
            AdaptersAction::Stop { rc }
        }),
        call == AdaptersCall::AdaptersQuery ==> a == (if rc == ERROR_SUCCESS {
            AdaptersAction::CollectServers
        } else {
            AdaptersAction::Stop { rc }
        }),
{
    match call {
        AdaptersCall::SizeQuery => if rc == ERROR_BUFFER_OVERFLOW {
            AdaptersAction::QueryWithBuffer { buflen }
        } else {
            AdaptersAction::Stop { rc }
        },
        AdaptersCall::AdaptersQuery => if rc == ERROR_SUCCESS {
            AdaptersAction::CollectServers
        } else {
            AdaptersAction::Stop { rc }
        },
    }
}

/// The IP addresses of the DNS server socket addresses, in the order the adapters
/// list them; every address must be an IPv4 one.
pub fn dns_servers(addrs: &Vec<SockAddr>) -> (ips: Vec<IpAddr>)
    requires
        forall|i: int| 0 <= i < addrs@.len() ==> #[trigger] addrs@[i].family == AF_INET,
    ensures
        ips@.len() == addrs@.len(),
        forall|i: int|
            0 <= i < addrs@.len() ==> #[trigger] ips@[i] == IpAddr::V4(
                [addrs@[i].data[2], addrs@[i].data[3], addrs@[i].data[4], addrs@[i].data[5]],
            ),
{
    let mut ips: Vec<IpAddr> = Vec::new();
    let mut i: usize = 0;
    while i < addrs.len()
        invariant
            i <= addrs@.len(),
            forall|k: int| 0 <= k < addrs@.len() ==> #[trigger] addrs@[k].family == AF_INET,
            ips@.len() == i,
            forall|k: int|
                0 <= k < i ==> #[trigger] ips@[k] == IpAddr::V4(
                    [addrs@[k].data[2], addrs@[k].data[3], addrs@[k].data[4], addrs@[k].data[5]],
                ),
        decreases addrs@.len() - i,
    {
        let a = addrs[i];
        ips.push(from_sockaddr(a.data, a.family));
        i = i + 1;
    }
    ips
}

} // verus!
