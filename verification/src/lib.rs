pub mod port;
pub mod tlv;
pub mod stm;
pub mod slip;
pub mod esp;
pub mod ctl;
pub mod buffered;
pub mod reset;
pub mod flasher;
pub mod flash;
pub mod pins;
pub mod mocks;
pub mod route;
pub mod mgmt;
pub mod ui;
pub mod net;
pub mod host;
pub mod net_ctl;
