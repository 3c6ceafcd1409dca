//! The historical service: aggregation of the kline download progress, the
//! channel it is broadcast on, and the replies of the progress websocket.

pub mod progress;
pub mod service;
pub mod splitter;
