//! Serial-port settings.
use vstd::prelude::*;

verus! {

#[derive(Debug, Clone, Copy, PartialEq, Eq, Structural)]
pub enum Parity {
    Off,
    Odd,
    Even,
}

#[derive(Debug, Clone, Copy, PartialEq, Eq, Structural)]
pub enum FlowControl {
    Off,
    Software,
    Hardware,
}

/// Serial-port settings.
#[derive(Debug, Clone)]
pub struct SerialConfig {
    pub path: String,
    pub baud: u32,
    pub data_bits: u8,
    pub stop_bits: u8,
    pub parity: Parity,
    pub flow_control: FlowControl,
    /// In nanoseconds.
    pub open_timeout: u64,
}

impl SerialConfig {
    /// What the radio speaks: 1200 bps, 8-N-1, no flow control.
    pub fn urc200(path: String) -> (r: SerialConfig)
        ensures
            r == (SerialConfig {
                path,
                baud: 1200,
                data_bits: 8,
                stop_bits: 1,
                parity: Parity::Off,
                flow_control: FlowControl::Off,
                open_timeout: 100_000_000,
            }),
    {
        SerialConfig {
            path,
            baud: 1200,
            data_bits: 8,
            stop_bits: 1,
            parity: Parity::Off,
            flow_control: FlowControl::Off,
            open_timeout: 100_000_000,
        }
    }
}

/// The device paths where a USB-serial adapter may come up, likeliest first.
pub open spec fn usual_ports() -> Seq<Seq<char>> {
    seq![
        "/dev/ttyUSB0"@,
        "/dev/ttyUSB1"@,
        "/dev/ttyUSB2"@,
        "/dev/ttyUSB3"@,
        "/dev/ttyACM0"@,
        "/dev/ttyACM1"@,
    ]
}

/// The path at a place in the list of usual ones.
pub fn usual_port(i: usize) -> (r: Option<String>)
    ensures
        match r {
            Some(p) => i < usual_ports().len() && p@ == usual_ports()[i as int],
            None => i >= usual_ports().len(),
        },
{
    match i {
        0 => Some("/dev/ttyUSB0".to_string()),
        1 => Some("/dev/ttyUSB1".to_string()),
        2 => Some("/dev/ttyUSB2".to_string()),
        3 => Some("/dev/ttyUSB3".to_string()),
        4 => Some("/dev/ttyACM0".to_string()),
        5 => Some("/dev/ttyACM1".to_string()),
        _ => None,
    }
}

/// The port that is opened.
pub open spec fn port_chosen(configured: Option<Seq<char>>, present: Option<usize>) -> Seq<char> {
    match (configured, present) {
        (Some(p), _) => p,
        (None, Some(i)) if i < usual_ports().len() => usual_ports()[i as int],
        _ => usual_ports()[0],
    }
}

/// What is configured is opened, whatever is there. Otherwise the usual path
/// that was found is: the four `ttyUSB` ones first, then the two `ttyACM` ones;
/// and the first of all where none was.
pub proof fn law_port_choice(configured: Seq<char>, present: Option<usize>)
    ensures
        port_chosen(Some(configured), present) == configured,
        port_chosen(None, None) == "/dev/ttyUSB0"@,
        port_chosen(None, Some(0)) == "/dev/ttyUSB0"@,
        port_chosen(None, Some(1)) == "/dev/ttyUSB1"@,
        port_chosen(None, Some(2)) == "/dev/ttyUSB2"@,
        port_chosen(None, Some(3)) == "/dev/ttyUSB3"@,
        port_chosen(None, Some(4)) == "/dev/ttyACM0"@,
        port_chosen(None, Some(5)) == "/dev/ttyACM1"@,
        present matches Some(i) && i > 5 ==> port_chosen(None, present) == "/dev/ttyUSB0"@,
{
}

/// The port to open: the configured one, else the first usual one that is
/// there, else the likeliest.
pub fn choose_port(configured: Option<String>, present: Option<usize>) -> (r: String)
    ensures
        r@ == port_chosen(
            match configured {
                Some(p) => Some(p@),
                None => None,
            },
            present,
        ),
{
    match configured {
        Some(p) => p,
        None => match present {
            Some(i) => match usual_port(i) {
                Some(p) => p,
                None => "/dev/ttyUSB0".to_string(),
            },
            None => "/dev/ttyUSB0".to_string(),
        },
    }
}

} // verus!
