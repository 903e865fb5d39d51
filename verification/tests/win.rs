use dnslib::win::{
    adapters_next, dns_servers, from_sockaddr, AdaptersAction, AdaptersCall, IpAddr, SockAddr,
    ERROR_BUFFER_OVERFLOW, ERROR_SUCCESS,
};

#[test]
fn ipv4_sockaddr() {
    let ip = from_sockaddr([0, 0, 8, 8, 8, 8, 0, 0, 0, 0, 0, 0, 0, 0], 2);
    assert_eq!(ip, IpAddr::V4([8, 8, 8, 8]));
    let ip = from_sockaddr([0, 53, 192, 168, 1, 254, 9, 9, 9, 9, 9, 9, 9, 9], 2);
    assert_eq!(ip, IpAddr::V4([192, 168, 1, 254]));
}

#[test]
fn adapters_steps() {
    assert_eq!(
        adapters_next(AdaptersCall::SizeQuery, ERROR_BUFFER_OVERFLOW, 15000),
        AdaptersAction::QueryWithBuffer { buflen: 15000 }
    );
    assert_eq!(adapters_next(AdaptersCall::SizeQuery, ERROR_SUCCESS, 0), AdaptersAction::Stop { rc: 0 });
    assert_eq!(adapters_next(AdaptersCall::SizeQuery, 87, 0), AdaptersAction::Stop { rc: 87 });
    assert_eq!(adapters_next(AdaptersCall::AdaptersQuery, ERROR_SUCCESS, 15000), AdaptersAction::CollectServers);
    assert_eq!(adapters_next(AdaptersCall::AdaptersQuery, ERROR_BUFFER_OVERFLOW, 15000), AdaptersAction::Stop { rc: 111 });
}

#[test]
fn dns_servers_in_order() {
    let addrs = vec![
        SockAddr { data: [0, 0, 8, 8, 4, 4, 0, 0, 0, 0, 0, 0, 0, 0], family: 2 },
        SockAddr { data: [0, 0, 8, 8, 8, 8, 0, 0, 0, 0, 0, 0, 0, 0], family: 2 },
    ];
    assert_eq!(dns_servers(&addrs), vec![IpAddr::V4([8, 8, 4, 4]), IpAddr::V4([8, 8, 8, 8])]);
    assert!(dns_servers(&vec![]).is_empty());
}
