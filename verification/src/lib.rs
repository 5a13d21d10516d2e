//! Engine for generating and rasterizing trajectories of two-dimensional
//! quadratic iterated maps ("chaotic attractors").
//!
//! The library owns the discrete part of the pipeline and proves it correct:
//! the point-cloud container, the density rasterizer (adaptive bounds, exact
//! rational binning, histogram accumulation and the normalization data), the
//! classification outcomes of the Lyapunov estimator together with the
//! acceptance rule of the chaotic-parameter search, and the pixel-buffer
//! interface handed to the display layer.  The floating-point dynamics that
//! feed it (the quadratic map itself and the Lyapunov exponent estimate) run
//! in the host program, which quantizes trajectory points to the fixed-point
//! coordinates used here.

pub mod image;
pub mod image_widget;
pub mod lyapunov;
pub mod point;
pub mod raster;
pub mod swarm;

pub use point::Point;
pub use swarm::Swarm;
