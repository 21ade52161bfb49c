//! Which of the system's serial ports are offered, and how they are described.
use vstd::prelude::*;

use crate::hex::{hex_digits, hex_digits_of, zero_pad};
use crate::text::{chars_of, push_char, push_str, seq_starts_with, starts_with};

verus! {

/// Information about an available serial port.
#[derive(Clone, Debug)]
pub struct PortInfo {
    pub name: String,
    pub description: String,
}

/// The kind of a port as the operating system reports it.
pub enum PortKind {
    /// A USB adapter, with what its descriptor names.
    Usb { manufacturer: Option<String>, product: Option<String>, vid: u16, pid: u16 },
    Pci,
    Bluetooth,
    Unknown,
}

/// A port as the operating system lists it.
pub struct RawPort {
    pub name: String,
    pub kind: PortKind,
}

/// A legacy 16550-style port: `/dev/ttyS` followed only by decimal digits.
pub open spec fn legacy_serial(name: Seq<char>) -> bool {
    let p = "/dev/ttyS"@;
    seq_starts_with(name, p) && forall|i: int|
        p.len() <= i < name.len() ==> '0' <= #[trigger] name[i] && name[i] <= '9'
}

/// A known embedded-relevant non-USB port: the Raspberry Pi UART `/dev/ttyAMA*` or the
/// `/dev/serial*` links.
pub open spec fn embedded_port(name: Seq<char>) -> bool {
    seq_starts_with(name, "/dev/ttyAMA"@) || seq_starts_with(name, "/dev/serial"@)
}

/// Ports that are offered: USB ports and unknown-type ports (which may be USB adapters without
/// type information) that are not legacy serial ports; PCI and Bluetooth ports never.
pub open spec fn port_kept(p: RawPort) -> bool {
    match p.kind {
        PortKind::Usb { .. } => true,
        PortKind::Pci => false,
        PortKind::Unknown => !legacy_serial(p.name@),
        PortKind::Bluetooth => false,
    }
}

/// Four lower-case hex digits of a USB id.
pub open spec fn usb_id_hex(v: u16) -> Seq<char> {
    zero_pad(hex_digits(v as nat), 4)
}

/// Manufacturer and product joined by ` - `, whichever of them are present.
pub open spec fn usb_names(manufacturer: Option<String>, product: Option<String>) -> Seq<char> {
    let m = match manufacturer {
        Some(s) => s@,
        None => Seq::empty(),
    };
    match product {
        Some(p) => if m.len() > 0 {
            m + " - "@ + p@
        } else {
            p@
        },
        None => m,
    }
}

/// Description shown for a port.
pub open spec fn port_description(k: PortKind) -> Seq<char> {
    match k {
        PortKind::Usb { manufacturer, product, vid, pid } => {
            let names = usb_names(manufacturer, product);
            if names.len() > 0 {
                names
            } else {
                "USB ("@ + usb_id_hex(vid) + seq![':'] + usb_id_hex(pid) + seq![')']
            }
        },
        PortKind::Pci => "PCI"@,
        PortKind::Bluetooth => "Bluetooth"@,
        PortKind::Unknown => "Unknown"@,
    }
}

/// The ports kept from `raw`, in order, with their names and descriptions.
pub open spec fn selected_ports(raw: Seq<RawPort>) -> Seq<(Seq<char>, Seq<char>)>
    decreases raw.len(),
{
    if raw.len() == 0 {
        Seq::empty()
    } else {
        let rest = selected_ports(raw.drop_last());
        if port_kept(raw.last()) {
            rest.push((raw.last().name@, port_description(raw.last().kind)))
        } else {
            rest
        }
    }
}

/// Check if a port name looks like a legacy 16550-style serial port (`/dev/ttySNN` on Linux,
/// almost never real hardware).
pub fn is_legacy_serial(port_name: &str) -> (b: bool)
    ensures
        b == legacy_serial(port_name@),
{
    let name = chars_of(port_name);
    let prefix = chars_of("/dev/ttyS");
    proof {
        reveal_strlit("/dev/ttyS");
    }
    if !starts_with(&name, &prefix) {
        return false;
    }
    let mut i = prefix.len();
    while i < name.len()
        invariant
            prefix@ == "/dev/ttyS"@,
            name@ == port_name@,
            prefix@.len() <= i <= name@.len(),
            forall|j: int| prefix@.len() <= j < i ==> '0' <= #[trigger] name@[j] && name@[j] <= '9',
        decreases name.len() - i,
    {
        let c = name[i];
        if !('0' <= c && c <= '9') {
            return false;
        }
        i = i + 1;
    }
    true
}

/// Check if a port name is a known embedded-relevant non-USB serial port (Raspberry Pi GPIO
/// UART `/dev/ttyAMA0`, RPi links such as `/dev/serial0`).
pub fn is_embedded_port(port_name: &str) -> (b: bool)
    ensures
        b == embedded_port(port_name@),
{
    let name = chars_of(port_name);
    let ama = chars_of("/dev/ttyAMA");
    let serial = chars_of("/dev/serial");
    starts_with(&name, &ama) || starts_with(&name, &serial)
}

/// Appends the four lower-case hex digits of a USB id.
fn push_usb_id(s: &mut String, v: u16)
    ensures
        final(s)@ == old(s)@ + usb_id_hex(v),
{
    let digits = hex_digits_of(v as usize);
    proof {
        hex_digits_len_bound(v as nat);
    }
    let mut pad = digits.len();
    let ghost start = s@;
    while pad < 4
        invariant
            digits@ == hex_digits(v as nat),
            digits@.len() <= pad <= 4,
            s@ == start + Seq::new((pad - digits@.len()) as nat, |_i: int| '0'),
        decreases 4 - pad,
    {
        push_char(s, '0');
        assert(Seq::new((pad - digits@.len()) as nat, |_i: int| '0').push('0') =~= Seq::new(
            (pad + 1 - digits@.len()) as nat,
            |_i: int| '0',
        ));
        pad = pad + 1;
    }
    let mut i: usize = 0;
    while i < digits.len()
        invariant
            i <= digits@.len(),
            digits@.len() <= pad,
            s@ == start + Seq::new((pad - digits@.len()) as nat, |_i: int| '0') + digits@.take(i as int),
        decreases digits.len() - i,
    {
        push_char(s, digits[i]);
        assert(digits@.take(i + 1) =~= digits@.take(i as int).push(digits@[i as int]));
        i = i + 1;
    }
    proof {
        assert(digits@.take(digits@.len() as int) =~= digits@);
        if digits@.len() < 4 {
            assert(s@ =~= start + usb_id_hex(v));
        } else {
            assert(Seq::new(0, |_i: int| '0') =~= Seq::<char>::empty());
            assert(s@ =~= start + usb_id_hex(v));
        }
    }
}

proof fn hex_digits_len_bound(n: nat)
    requires
        n < 0x10000,
    ensures
        hex_digits(n).len() <= 4,
{
    reveal_with_fuel(hex_digits, 4);
}

/// Description shown for a port of the given kind.
pub fn describe_port(kind: &PortKind) -> (d: String)
    ensures
        d@ == port_description(*kind),
{
    match kind {
        PortKind::Usb { manufacturer, product, vid, pid } => {
            let mut desc = String::new();
            if let Some(m) = manufacturer {
                push_str(&mut desc, m.as_str());
            }
            if let Some(p) = product {
                if desc.as_str().unicode_len() > 0 {
                    push_str(&mut desc, " - ");
                }
                push_str(&mut desc, p.as_str());
            }
            assert(desc@ =~= usb_names(*manufacturer, *product));
            if desc.as_str().unicode_len() == 0 {
                let mut d = String::from_str("USB (");
                push_usb_id(&mut d, *vid);
                push_char(&mut d, ':');
                push_usb_id(&mut d, *pid);
                push_char(&mut d, ')');
                d
            } else {
                desc
            }
        },
        PortKind::Pci => String::from_str("PCI"),
        PortKind::Bluetooth => String::from_str("Bluetooth"),
        PortKind::Unknown => String::from_str("Unknown"),
    }
}

/// Whether a listed port is offered in the selector.
pub fn keep_port(p: &RawPort) -> (b: bool)
    ensures
        b == port_kept(*p),
{
    match &p.kind {
        PortKind::Usb { .. } => true,
        PortKind::Pci => false,
        PortKind::Unknown => !is_legacy_serial(p.name.as_str()),
        PortKind::Bluetooth => false,
    }
}

/// The ports to offer, in the order listed: USB ports and non-legacy unknown ports, each with
/// its description; PCI, Bluetooth and legacy `/dev/ttySNN` ports are left out.
pub fn select_ports(raw: &Vec<RawPort>) -> (ports: Vec<PortInfo>)
    ensures
        ports@.map_values(|p: PortInfo| (p.name@, p.description@)) == selected_ports(raw@),
{
    let mut ports: Vec<PortInfo> = Vec::new();
    let mut i: usize = 0;
    proof {
        assert(raw@.take(0) =~= Seq::<RawPort>::empty());
    }
    while i < raw.len()
        invariant
            i <= raw@.len(),
            ports@.map_values(|p: PortInfo| (p.name@, p.description@)) == selected_ports(
                raw@.take(i as int),
            ),
        decreases raw.len() - i,
    {
        let p = &raw[i];
        proof {
            assert(raw@.take(i + 1).drop_last() =~= raw@.take(i as int));
            assert(raw@.take(i + 1).last() == *p);
        }
        if keep_port(p) {
            let info = PortInfo { name: p.name.clone(), description: describe_port(&p.kind) };
            let ghost before = ports@;
            ports.push(info);
            proof {
                assert(ports@.map_values(|q: PortInfo| (q.name@, q.description@)) =~= before.map_values(
                    |q: PortInfo| (q.name@, q.description@),
                ).push((p.name@, port_description(p.kind))));
            }
        }
        i = i + 1;
    }
    proof {
        assert(raw@.take(raw@.len() as int) =~= raw@);
    }
    ports
}

} // verus!
