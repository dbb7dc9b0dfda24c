pub mod batch;
pub mod functions;
pub mod member;
pub mod particles;
pub mod slime;
pub mod swarm;
pub mod vector;
