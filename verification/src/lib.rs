//! A CPU-side 3D rendering core in fixed-point arithmetic: a scanline
//! rasterizer and a recursive ray tracer over one scene model, each a
//! function from a scene and a canvas size to a buffer of RGBA pixels.
//!
//! Numbers are [`fixed::Fixed`]: every operation is total and saturating,
//! so no function of the library can overflow, divide by zero or fail.
//!
//! * [`fixed`], [`math`], [`matrix`], [`color`]: numbers, vectors,
//!   homogeneous transforms and colours.
//! * [`scene`]: lights, camera, planes, triangles, models, instances and
//!   textures.
//! * [`canvas`]: pixel addressing, pixel writes and the depth test.
//! * [`interpolate`]: linear interpolation along whole steps.
//! * [`illumination`]: ambient, diffuse and specular light.
//! * [`clip`]: camera-space transformation and frustum clipping.
//! * [`rasterization`], [`lines`], [`filled`], [`shaded`]: the rasterizer.
//! * [`occlusion`], [`visibility`]: what drawing does to each pixel, and
//!   why the nearest triangle is the one that is seen.
//! * [`raytracing`]: the ray tracer.
//! * [`section`]: the frame of a canvas on the host page.
pub mod canvas;
pub mod clip;
pub mod color;
pub mod filled;
pub mod fixed;
pub mod illumination;
pub mod interpolate;
pub mod lines;
pub mod math;
pub mod matrix;
pub mod occlusion;
pub mod rasterization;
pub mod raytracing;
pub mod scene;
pub mod section;
pub mod shaded;
pub mod visibility;
