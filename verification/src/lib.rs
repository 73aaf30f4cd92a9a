//! The core of a gateway between a gridded-data server and a
//! weather-visualisation client.
//!
//! The client knows a fixed schema of records; the data server describes its
//! datasets in metadata of its own. The library reads the metadata, finds the
//! variables and the grid, and assembles the records that the client wants.
//! It decides what is asked of the data server and what an answer means; it
//! sends and receives nothing itself.
//!
//! Numbers of a document are carried as they were read. The library compares
//! and selects them and never computes with binary64 values: a spacing of the
//! grid is handed on as the quotient it stands for.

pub mod analysis;
pub mod assets;
pub mod earth;
pub mod error;
pub mod grid;
pub mod json;
pub mod logging;
pub mod middleware;
pub mod proxy;
pub mod text;
pub mod timecode;
pub mod variables;

pub use error::AppError;
