pub mod connect;
pub mod demux;
pub mod driver;
pub mod part;
pub mod scanner;
