//! Control logic of a browser-based remote head for the URC-200 transceiver.
//!
//! The library is free of I/O: serial line, sockets, database, sound card and
//! clock are handed in as plain values and events, and what is to be done comes
//! back as plain values and actions.
pub mod audio;
pub mod channels;
pub mod command;
pub mod commands;
pub mod control;
pub mod csv_import;
pub mod dsp;
pub mod freq;
pub mod http;
pub mod inquiry;
pub mod latency;
pub mod lifecycle;
pub mod poller;
pub mod probe;
pub mod ptt;
pub mod radio;
pub mod response;
pub mod scan;
pub mod serial;
pub mod single;
pub mod spectrum;
pub mod telemetry;
pub mod text;
pub mod transport;

pub use command::{LampLevel, ModMode, OpCommand, PowerLevel, PresetId, TextMode, ToneSquelch};
pub use freq::{Band, Freq, FreqError, Step};
pub use inquiry::{GeneralStatus, Inquiry, Mode, PresetSnapshot, Rssi, SquelchStatus, SynthLock};
pub use poller::{BackoffMode, PollErrorKind, TelemetryUpdate};
pub use radio::DEFAULT_TIMEOUT;
pub use response::{DispatchOutcome, NakCounter, Response, ResponseParser};
pub use serial::SerialConfig;
pub use transport::{MockTransport, RadioError, TransportError};
