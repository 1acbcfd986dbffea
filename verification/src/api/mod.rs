//! The rules of the service around the solvers: what a request must look
//! like, what its answer says, and how an image arrives.

pub mod captcha;
pub mod health;
pub mod logs;
pub mod models;
pub mod stats;
pub mod training;
