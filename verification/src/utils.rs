pub mod sid_file;
pub mod text;
pub mod network;
pub mod mossid;
pub mod fpgasid;
pub mod keyboard;
pub mod armsid;
pub mod file;
pub mod sidblaster;
