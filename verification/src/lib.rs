//! Directory-backed store of mole photographs: canonical file names, the
//! in-memory photo set, the merge of sidecar metadata and the plan of a save.

pub mod codec;
pub mod errors;
pub mod imaging;
pub mod loading;
pub mod photo_set;
pub mod time;
