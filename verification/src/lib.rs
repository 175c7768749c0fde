pub mod deferred;
pub mod edge_cache;
pub mod frame;
pub mod gl;
pub mod hazard;
pub mod icosphere;
pub mod name_table;
pub mod pipeline;
pub mod sampler;
pub mod surface;
pub mod wavefunc;
