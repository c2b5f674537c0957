//! Descriptions of the serial ports found on the system.

use vstd::prelude::*;
use crate::text::{concat2, hex4_upper, owned, push_hex4_upper, push_str};

verus! {

/// What the system reports about the kind of a port.
#[derive(Debug, Clone)]
pub enum PortKind {
    /// A USB device, with its vendor and product identifiers and names.
    Usb { vid: u16, pid: u16, manufacturer: Option<String>, product: Option<String> },
    /// A PCI device.
    Pci,
    /// A Bluetooth device.
    Bluetooth,
    /// Anything else.
    Unknown,
}

/// A serial port found on the system.
#[derive(Debug, Clone)]
pub struct PortInfo {
    pub name: String,
    pub description: String,
    pub hardware_id: Option<String>,
    pub available: bool,
}

/// The description shown for a port of this kind.
pub open spec fn description_of(kind: PortKind) -> Seq<char> {
    match kind {
        PortKind::Usb { manufacturer, product, .. } => (match manufacturer {
            Some(m) => m@,
            None => "Unknown"@,
        }) + " "@ + (match product {
            Some(p) => p@,
            None => "USB Serial Device"@,
        }),
        PortKind::Pci => "PCI Serial Port"@,
        PortKind::Bluetooth => "Bluetooth Serial Port"@,
        PortKind::Unknown => "Serial Port"@,
    }
}

/// The hardware identifier shown for a port of this kind.
pub open spec fn hardware_id_of(kind: PortKind) -> Option<Seq<char>> {
    match kind {
        PortKind::Usb { vid, pid, .. } => Some("USB VID:"@ + hex4_upper(vid) + " PID:"@ + hex4_upper(pid)),
        PortKind::Pci => Some("PCI"@),
        PortKind::Bluetooth => Some("Bluetooth"@),
        PortKind::Unknown => None,
    }
}

/// The description of a port of this kind.
pub fn port_description(kind: &PortKind) -> (r: String)
    ensures
        r@ == description_of(*kind),
{
    match kind {
        PortKind::Usb { manufacturer, product, .. } => {
            let mut s = match manufacturer {
                Some(m) => m.clone(),
                None => owned("Unknown"),
            };
            push_str(&mut s, " ");
            match product {
                Some(p) => push_str(&mut s, p.as_str()),
                None => push_str(&mut s, "USB Serial Device"),
            }
            s
        },
        PortKind::Pci => owned("PCI Serial Port"),
        PortKind::Bluetooth => owned("Bluetooth Serial Port"),
        PortKind::Unknown => owned("Serial Port"),
    }
}

impl PortInfo {
    /// The description of a port that the system reports with this name and kind.
    pub fn describe(name: &str, kind: &PortKind) -> (r: PortInfo)
        ensures
            r.name@ == name@,
            r.description@ == description_of(*kind),
            match hardware_id_of(*kind) {
                Some(h) => r.hardware_id matches Some(x) && x@ == h,
                None => r.hardware_id is None,
            },
            r.available,
    {
        let hardware_id = match kind {
            PortKind::Usb { vid, pid, .. } => {
                let mut s = owned("USB VID:");
                push_hex4_upper(&mut s, *vid);
                push_str(&mut s, " PID:");
                push_hex4_upper(&mut s, *pid);
                Some(s)
            },
            PortKind::Pci => Some(owned("PCI")),
            PortKind::Bluetooth => Some(owned("Bluetooth")),
            PortKind::Unknown => None,
        };
        PortInfo {
            name: owned(name),
            description: port_description(kind),
            hardware_id,
            available: true,
        }
    }
}

/// A port as the system reports it: its name and its kind.
#[derive(Debug, Clone)]
pub struct FoundPort {
    pub name: String,
    pub kind: PortKind,
}

/// `p` is the description of the port `f`.
pub open spec fn describes(p: PortInfo, f: FoundPort) -> bool {
    &&& p.name@ == f.name@
    &&& p.description@ == description_of(f.kind)
    &&& match hardware_id_of(f.kind) {
        Some(h) => p.hardware_id matches Some(x) && x@ == h,
        None => p.hardware_id is None,
    }
    &&& p.available
}

impl PortInfo {
    /// The descriptions of the ports the system reports, in its order.
    pub fn describe_all(found: &Vec<FoundPort>) -> (r: Vec<PortInfo>)
        ensures
            r@.len() == found@.len(),
            forall|i: int| 0 <= i < found@.len() ==> describes(#[trigger] r@[i], found@[i]),
    {
        let mut out: Vec<PortInfo> = Vec::new();
        let mut i: usize = 0;
        while i < found.len()
            invariant
                i <= found@.len(),
                out@.len() == i,
                forall|j: int| 0 <= j < i ==> describes(#[trigger] out@[j], found@[j]),
            decreases found@.len() - i,
        {
            let p = PortInfo::describe(found[i].name.as_str(), &found[i].kind);
            out.push(p);
            i = i + 1;
        }
        out
    }
}

} // verus!
