pub mod qclass;
