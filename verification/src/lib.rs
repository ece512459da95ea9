//! A Monte Carlo path tracer over fixed-point arithmetic.
//!
//! The library holds the number type and its circular functions, vectors,
//! rays and boxes, the surfaces that rays are tested against and the tree
//! that speeds the test up, textures, materials and sampling densities, and
//! the camera with the estimator of the radiance along a ray. Every function
//! carries a contract; what draws on random numbers states the outcomes it
//! can have.
pub mod fixed;
pub mod trig;
pub mod rtweekend;
pub mod vec3;
pub mod onb;
pub mod interval;
pub mod ray;
pub mod aabb;
pub mod color;
pub mod rtw_image;
pub mod perlin;
pub mod texture;
pub mod material;
pub mod pdf;
pub mod hittable;
pub mod sphere;
pub mod quad;
pub mod hittable_list;
pub mod sort;
pub mod bvh_node;
pub mod nearest;
pub mod constant_medium;
pub mod camera;
