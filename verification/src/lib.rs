pub mod caller;
pub mod cli;
pub mod environ;
pub mod exec;
pub mod firewall;
pub mod kill;
pub mod killswitch;
pub mod link;
pub mod netns;
pub mod network;
pub mod nft;
pub mod number;
pub mod path;
pub mod plan;
pub mod process;
pub mod running;
pub mod subnet;
pub mod sysctl;
pub mod text;
pub mod traffic;
pub mod uplink;
pub mod veth;

mod abi;
