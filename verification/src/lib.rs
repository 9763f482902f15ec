//! Creatures whose outline, colour and tentacle react to the distance of a
//! tracked agent, computed in fixed-point arithmetic.

pub mod amorphous_mesh_creator;
pub mod collectible;
pub mod collectible_cluster_points;
pub mod collectible_placement;
pub mod collectibles;
pub mod collidable;
pub mod collision;
pub mod distance_normalizer;
pub mod eye;
pub mod fixed;
pub mod flash_effect;
pub mod geometry;
pub mod noise_field;
pub mod player;
pub mod proximity_and_collision_handler;
pub mod random;
pub mod smoke_effect;
pub mod tentacle;
pub mod utils;
