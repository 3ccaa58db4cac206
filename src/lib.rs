//! A drop-in stand-in for the input-device API library that forwards to the
//! genuine library and overrides the frame-delay argument of one function of
//! the host process with a configured value.
//!
//! This crate holds the decisions of the shim as verified code: reading the
//! configured delay, building the path of the genuine library, routing the
//! factory export, the life-cycle of the interceptor and the substitution it
//! performs on each call.
#![allow(non_snake_case)]

pub mod config;
pub mod interceptor;
pub mod lifecycle;
pub mod proxy;
pub mod resolver;
pub mod text;
