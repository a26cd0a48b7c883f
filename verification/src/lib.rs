//! The logic of visage, face authentication with an infrared camera.
//!
//! The daemon's side: [`camera`] and [`capture`] decide how a camera is opened and
//! how frames are captured, [`devices`] lists cameras, [`frame`] makes the small
//! previews that may leave the daemon, and [`engine`], [`enrollment`] and
//! [`recognition`] decide what the engine does with a request.
//!
//! The front-ends' side: [`user`] decides who is enrolled, [`session`] runs an
//! enrollment session, [`preview`] judges and scales the frames that arrive, and
//! [`screen`] and [`window`] say what the two front-ends show.
//!
//! Nothing here does I/O. Where calls to a driver, a model or the bus alternate
//! with decisions, a run says which call comes next and is told how it went.
//! Model scores are carried as the bit patterns of [`scalar`], and [`single`]
//! computes in single precision with integers.
pub mod camera;
pub mod capture;
pub mod devices;
pub mod engine;
pub mod enrollment;
pub mod frame;
pub mod preview;
pub mod recognition;
pub mod scalar;
pub mod screen;
pub mod session;
pub mod single;
pub mod text;
pub mod user;
pub mod window;
