//! Scene description and GPU encoding for a CSG ray-marching renderer: n-ary
//! CSG trees, their binary normal form, the fixed-size node records that the
//! shader walks, the reuse policy of the device buffers that hold them, and a
//! cache that stages assets and commits them once per frame.
pub mod asset_map;
pub mod assets;
pub mod binarize;
pub mod buffer;
pub mod csg;
pub mod encode;
pub mod screen_resolution;
pub mod transform;
