//! A minimal HTTP/1.x server library: header framing, request parsing,
//! response serialization, connection orchestration, and a worker-pool model.
pub mod cmdline;
pub mod defaults;
pub mod framer;
pub mod httprequest;
pub mod httpresponse;
pub mod httpserver;
pub mod text;
pub mod threadpool;
