pub mod addr;
pub mod codec;
pub mod crypto;
pub mod errors;
pub mod handshake;
pub mod routing;
pub mod session;
pub mod shadowsocks;
pub mod vmess;
