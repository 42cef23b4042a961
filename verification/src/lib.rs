//! USB chapter 9 descriptors and the decision logic of a native USB helper.

pub mod ch9_core;
pub mod interface_association_descriptor;

pub mod descriptor;
pub mod host;

pub use descriptor::USBDescriptor;
pub mod descriptor_set;
pub mod protocol;
pub mod device;
pub mod numtext;
pub mod b64;
pub mod request;
pub mod completion;
pub mod blocklists;
pub mod udev;
pub mod sysfs;
pub mod seqs;
pub mod winenum;
pub mod macos;
pub mod framing;
pub mod engine;
pub mod assoc;
pub mod winhotplug;
pub mod guidtext;
pub mod sessions;
pub mod wire;
pub mod provenance;
pub mod utf16;

pub use descriptor_set::{parse_descriptor_set, DescriptorRef, ParseDescriptorSet};
