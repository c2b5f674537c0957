//! Serial line settings and the decisions a connection makes about them.

use vstd::prelude::*;
use super::error::SerialError;
use crate::text::{chars_equal, concat2, decimal, fold_case, folded, owned};

verus! {

/// Number of data bits per character.
#[derive(Debug, Clone, Copy, PartialEq, Eq, Structural)]
pub enum DataBits {
    Five,
    Six,
    Seven,
    Eight,
}

/// Number of stop bits.
#[derive(Debug, Clone, Copy, PartialEq, Eq, Structural)]
pub enum StopBits {
    One,
    Two,
}

/// Parity checking mode.
#[derive(Debug, Clone, Copy, PartialEq, Eq, Structural)]
pub enum Parity {
    /// No parity bit.
    NoParity,
    Odd,
    Even,
}

/// Flow control mode.
#[derive(Debug, Clone, Copy, PartialEq, Eq, Structural)]
pub enum FlowControl {
    /// No flow control.
    NoFlowControl,
    Software,
    Hardware,
}

/// Settings of a serial connection.
#[derive(Debug, Clone)]
pub struct ConnectionConfig {
    pub port: String,
    pub baud_rate: u32,
    pub data_bits: DataBits,
    pub stop_bits: StopBits,
    pub parity: Parity,
    pub flow_control: FlowControl,
}

/// Data bits used when none are given: eight.
pub fn default_data_bits() -> (r: DataBits)
    ensures
        r == DataBits::Eight,
{
    DataBits::Eight
}

/// Stop bits used when none are given: one.
pub fn default_stop_bits() -> (r: StopBits)
    ensures
        r == StopBits::One,
{
    StopBits::One
}

/// Parity used when none is given: none.
pub fn default_parity() -> (r: Parity)
    ensures
        r == Parity::NoParity,
{
    Parity::NoParity
}

/// Flow control used when none is given: none.
pub fn default_flow_control() -> (r: FlowControl)
    ensures
        r == FlowControl::NoFlowControl,
{
    FlowControl::NoFlowControl
}

/// The number of data bits per character that `d` stands for.
pub open spec fn data_bit_count(d: DataBits) -> nat {
    match d {
        DataBits::Five => 5,
        DataBits::Six => 6,
        DataBits::Seven => 7,
        DataBits::Eight => 8,
    }
}

/// The data bits a count selects: 5 to 8.
pub open spec fn data_bits_for(n: u8) -> Option<DataBits> {
    if n == 5 {
        Some(DataBits::Five)
    } else if n == 6 {
        Some(DataBits::Six)
    } else if n == 7 {
        Some(DataBits::Seven)
    } else if n == 8 {
        Some(DataBits::Eight)
    } else {
        None
    }
}

/// The stop bits a name selects, compared without case: "one"/"1", "two"/"2".
pub open spec fn stop_bits_named(s: Seq<char>) -> Option<StopBits> {
    let f = folded(s);
    if f == "one"@ || f == "1"@ {
        Some(StopBits::One)
    } else if f == "two"@ || f == "2"@ {
        Some(StopBits::Two)
    } else {
        None
    }
}

/// The parity a name selects, compared without case.
pub open spec fn parity_named(s: Seq<char>) -> Option<Parity> {
    let f = folded(s);
    if f == "none"@ {
        Some(Parity::NoParity)
    } else if f == "even"@ {
        Some(Parity::Even)
    } else if f == "odd"@ {
        Some(Parity::Odd)
    } else {
        None
    }
}

/// The flow control a name selects, compared without case.
pub open spec fn flow_control_named(s: Seq<char>) -> Option<FlowControl> {
    let f = folded(s);
    if f == "none"@ {
        Some(FlowControl::NoFlowControl)
    } else if f == "software"@ {
        Some(FlowControl::Software)
    } else if f == "hardware"@ {
        Some(FlowControl::Hardware)
    } else {
        None
    }
}

/// The highest baud rate a connection accepts.
pub const MAX_BAUD_RATE: u32 = 4_000_000;

impl ConnectionConfig {
    /// Settings from individual parameters, as a session asks for them;
    /// the first parameter that names no setting is reported.
    pub fn from_params(
        port_name: &str,
        baud_rate: u32,
        data_bits: u8,
        stop_bits: &str,
        parity: &str,
        flow_control: &str,
    ) -> (r: Result<ConnectionConfig, crate::error::SerialError>)
        ensures
            data_bits_for(data_bits) is None ==> (r matches Err(
                crate::error::SerialError::InvalidDataBits(d),
            ) && d == data_bits),
            data_bits_for(data_bits) is Some && stop_bits_named(stop_bits@) is None ==> (r matches Err(
                crate::error::SerialError::InvalidStopBits(m),
            ) && m@ == stop_bits@),
            data_bits_for(data_bits) is Some && stop_bits_named(stop_bits@) is Some && parity_named(
                parity@,
            ) is None ==> (r matches Err(crate::error::SerialError::InvalidParity(m)) && m@
                == parity@),
            data_bits_for(data_bits) is Some && stop_bits_named(stop_bits@) is Some && parity_named(
                parity@,
            ) is Some && flow_control_named(flow_control@) is None ==> (r matches Err(
                crate::error::SerialError::InvalidFlowControl(m),
            ) && m@ == flow_control@),
            r matches Ok(c) ==> {
                &&& c.port@ == port_name@
                &&& c.baud_rate == baud_rate
                &&& data_bits_for(data_bits) == Some(c.data_bits)
                &&& stop_bits_named(stop_bits@) == Some(c.stop_bits)
                &&& parity_named(parity@) == Some(c.parity)
                &&& flow_control_named(flow_control@) == Some(c.flow_control)
            },
            (data_bits_for(data_bits) is Some && stop_bits_named(stop_bits@) is Some && parity_named(
                parity@,
            ) is Some && flow_control_named(flow_control@) is Some) ==> r is Ok,
    {
        let data_bits = if data_bits == 5 {
            DataBits::Five
        } else if data_bits == 6 {
            DataBits::Six
        } else if data_bits == 7 {
            DataBits::Seven
        } else if data_bits == 8 {
            DataBits::Eight
        } else {
            return Err(crate::error::SerialError::InvalidDataBits(data_bits));
        };
        let s = fold_case(stop_bits);
        let stop_bits = if chars_equal(&s, "one") || chars_equal(&s, "1") {
            StopBits::One
        } else if chars_equal(&s, "two") || chars_equal(&s, "2") {
            StopBits::Two
        } else {
            return Err(crate::error::SerialError::InvalidStopBits(owned(stop_bits)));
        };
        let p = fold_case(parity);
        let parity = if chars_equal(&p, "none") {
            Parity::NoParity
        } else if chars_equal(&p, "even") {
            Parity::Even
        } else if chars_equal(&p, "odd") {
            Parity::Odd
        } else {
            return Err(crate::error::SerialError::InvalidParity(owned(parity)));
        };
        let f = fold_case(flow_control);
        let flow_control = if chars_equal(&f, "none") {
            FlowControl::NoFlowControl
        } else if chars_equal(&f, "software") {
            FlowControl::Software
        } else if chars_equal(&f, "hardware") {
            FlowControl::Hardware
        } else {
            return Err(crate::error::SerialError::InvalidFlowControl(owned(flow_control)));
        };
        Ok(ConnectionConfig {
            port: owned(port_name),
            baud_rate,
            data_bits,
            stop_bits,
            parity,
            flow_control,
        })
    }
}

/// A connection refuses a zero baud rate and rates above 4,000,000.
pub fn check_baud_rate(baud_rate: u32) -> (r: Result<(), SerialError>)
    ensures
        (baud_rate == 0 || baud_rate > MAX_BAUD_RATE) ==> (r matches Err(SerialError::InvalidBaudRate(b)) && b == baud_rate),
        !(baud_rate == 0 || baud_rate > MAX_BAUD_RATE) ==> r is Ok,
{
    if baud_rate == 0 || baud_rate > MAX_BAUD_RATE {
        Err(SerialError::InvalidBaudRate(baud_rate))
    } else {
        Ok(())
    }
}

/// The message given when a baud-rate change is asked of an open connection.
pub open spec fn reconfigure_refusal_text() -> Seq<char> {
    "Runtime reconfiguration not supported. Please close and reopen the connection."@
}

/// What asking an open connection for a new baud rate comes to: nothing to
/// do without a rate; an invalid rate is refused as such; any valid rate is
/// refused because the port would have to be reopened.
pub fn reconfigure_outcome(new_baud_rate: Option<u32>) -> (r: Result<(), SerialError>)
    ensures
        new_baud_rate is None ==> r is Ok,
        new_baud_rate matches Some(b) ==> ((b == 0 || b > MAX_BAUD_RATE) ==> (r matches Err(SerialError::InvalidBaudRate(x)) && x == b)),
        new_baud_rate matches Some(b) ==> (!(b == 0 || b > MAX_BAUD_RATE) ==> (r matches Err(SerialError::InvalidConfig(m)) && m@ == reconfigure_refusal_text())),
{
    match new_baud_rate {
        Some(b) => {
            check_baud_rate(b)?;
            Err(SerialError::InvalidConfig(owned("Runtime reconfiguration not supported. Please close and reopen the connection.")))
        },
        None => Ok(()),
    }
}

/// The error a session sees when its connection could not be made: the
/// connection's own error, as a failed connection carrying its message.
pub fn connection_failed(e: &SerialError) -> (r: crate::error::SerialError)
    ensures
        r matches crate::error::SerialError::ConnectionFailed(m) && (match e.known_text() {
            Some(t) => m@ == t,
            None => m@.len() >= e.label().len() && m@.take(e.label().len() as int) == e.label(),
        }),
{
    let m = e.message();
    proof {
        if e.known_text() is None {
            assert(m@.take(e.label().len() as int) =~= m@.subrange(0, e.label().len() as int));
        }
    }
    crate::error::SerialError::ConnectionFailed(m)
}

/// All four line settings are named.
pub open spec fn settings_named(data_bits: u8, stop_bits: Seq<char>, parity: Seq<char>, flow_control: Seq<char>) -> bool {
    &&& data_bits_for(data_bits) is Some
    &&& stop_bits_named(stop_bits) is Some
    &&& parity_named(parity) is Some
    &&& flow_control_named(flow_control) is Some
}

/// The settings of a connection to make from individual parameters, up to
/// opening the port: the parameters are read as [`ConnectionConfig::from_params`]
/// reads them, and a baud rate the connection refuses is reported as a
/// failed connection.
pub fn connect_config(
    port_name: &str,
    baud_rate: u32,
    data_bits: u8,
    stop_bits: &str,
    parity: &str,
    flow_control: &str,
) -> (r: Result<ConnectionConfig, crate::error::SerialError>)
    ensures
        data_bits_for(data_bits) is None ==> (r matches Err(crate::error::SerialError::InvalidDataBits(d))
            && d == data_bits),
        data_bits_for(data_bits) is Some && stop_bits_named(stop_bits@) is None ==> (r matches Err(
            crate::error::SerialError::InvalidStopBits(m),
        ) && m@ == stop_bits@),
        data_bits_for(data_bits) is Some && stop_bits_named(stop_bits@) is Some && parity_named(parity@) is None
            ==> (r matches Err(crate::error::SerialError::InvalidParity(m)) && m@ == parity@),
        data_bits_for(data_bits) is Some && stop_bits_named(stop_bits@) is Some && parity_named(parity@) is Some
            && flow_control_named(flow_control@) is None ==> (r matches Err(
            crate::error::SerialError::InvalidFlowControl(m),
        ) && m@ == flow_control@),
        settings_named(data_bits, stop_bits@, parity@, flow_control@) && (baud_rate == 0 || baud_rate
            > MAX_BAUD_RATE) ==> (r matches Err(crate::error::SerialError::ConnectionFailed(m)) && m@
            == "Invalid baud rate: "@ + decimal(baud_rate as nat)),
        settings_named(data_bits, stop_bits@, parity@, flow_control@) && !(baud_rate == 0 || baud_rate
            > MAX_BAUD_RATE) ==> (r matches Ok(c) && {
            &&& c.port@ == port_name@
            &&& c.baud_rate == baud_rate
            &&& data_bits_for(data_bits) == Some(c.data_bits)
            &&& stop_bits_named(stop_bits@) == Some(c.stop_bits)
            &&& parity_named(parity@) == Some(c.parity)
            &&& flow_control_named(flow_control@) == Some(c.flow_control)
        }),
{
    let c = ConnectionConfig::from_params(port_name, baud_rate, data_bits, stop_bits, parity, flow_control)?;
    match check_baud_rate(c.baud_rate) {
        Ok(()) => Ok(c),
        Err(e) => Err(connection_failed(&e)),
    }
}

/// The error of a port that could not be opened: a failed connection
/// naming the port and the reason.
pub fn open_failed(port: &str, reason: &str) -> (r: SerialError)
    ensures
        r matches SerialError::ConnectionFailed(m) && m@ == port@ + ": "@ + reason@,
{
    let mut m = concat2(port, ": ");
    crate::text::push_str(&mut m, reason);
    SerialError::ConnectionFailed(m)
}

} // verus!
