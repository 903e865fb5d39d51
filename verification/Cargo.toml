[package]
name = "dnslib"
version = "0.1.0"
edition = "2021"
publish = false

[dependencies]
byteorder = "=1.5.0"
proc-macro2 = "=1.0.107"
quote = "=1.0.47"
syn = "=2.0.119"
windows = { version = "=0.52.0", features = ["Win32_Foundation", "Win32_NetworkManagement_IpHelper", "Win32_NetworkManagement_Ndis", "Win32_Networking_WinSock"] }
