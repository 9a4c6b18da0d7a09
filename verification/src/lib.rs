//! Exact integer optics for pinhole cameras.
//!
//! The library computes the optical properties of a pinhole camera: the
//! diffraction-limited optimal pinhole diameter, the angular field of view
//! of the pinhole channel, natural (cosine-fourth) vignetting at the edge
//! of the projected image circle, photographic stop equivalences, and the
//! projection geometry of film formats.
//!
//! Every quantity is held exactly: lengths are scaled integers (the unit of
//! each parameter is documented at the function), an angle is represented by
//! the exact rise and run of its tangent ([`angle::Angle`]), a light fraction
//! by an exact ratio of integers ([`frac::Frac`]), and a quantity of light in
//! third-stops. On this representation the trigonometry of the formulas
//! becomes exact rational arithmetic, and each function carries a contract
//! that pins its result down completely.

pub mod angle;
pub mod arith;
pub mod frac;
pub mod laws;
pub mod optics;

pub use angle::Angle;
pub use frac::Frac;
pub use optics::calc_optimalsize;
pub use optics::calc_viewangle;
pub use optics::calc_vignetting;
pub use optics::coverage_radius;
pub use optics::delta_thirds;
pub use optics::magnification;
pub use optics::needed_focallength;
pub use optics::projection_diameter;
pub use optics::stop_equivalent;
