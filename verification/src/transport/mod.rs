pub mod p7_driver;
pub mod tls;

pub use p7_driver::P7DriverConfig;
pub use tls::TransportTlsSummary;
