use vstd::prelude::*;

pub mod capture;
pub mod dib;
pub mod formats;
pub mod digest;
pub mod history;
pub mod imaging;
pub mod lan;
pub mod models;
pub mod monitor;
pub mod names;
pub mod native;
pub mod net;
pub mod page;
pub mod payload;
pub mod routes;
pub mod search;
pub mod session;
pub mod settings;
pub mod text;
pub mod transfer;
pub mod update;
pub mod url;
pub mod versions;
pub mod wide;

verus! {
}
