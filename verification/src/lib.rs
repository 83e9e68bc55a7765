//! Verified core of a small top-down driving game: the binary object format
//! that holds map and car meshes, the byte layout handed to the GPU, and the
//! driving controls.

pub mod object;
pub mod buffers;
pub mod controls;
