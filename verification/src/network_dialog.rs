//! The network of a machine: its backend, its adapter, and the ports that are forwarded.
use crate::numbers::{decimal, decimal_text, parse_u16, parsed};
use crate::tagged::Tagged;
use crate::text::same_text;
use vstd::prelude::*;
use vstd::string::StringExecFns;

verus! {

/// What connects a machine to the network.
#[derive(Debug)]
pub enum NetworkBackend {
    User,
    Passt,
    Bridge(String),
    Disabled,
}

/// The network of a machine.
#[derive(Debug)]
pub struct Network {
    pub backend: NetworkBackend,
    pub model: String,
    pub mac_address: Option<String>,
}

#[derive(Clone, Copy, Debug, PartialEq, Eq, Structural)]
pub enum PortProtocol {
    Tcp,
    Udp,
}

/// A port of the host that leads to a port of the guest.
#[derive(Clone, Copy, Debug, PartialEq, Eq, Structural)]
pub struct PortForward {
    pub protocol: PortProtocol,
    pub host_port: u16,
    pub guest_port: u16,
}

/// The fields of the dialog: the position of the backend in its list, the bridge, the MAC
/// address, and the position of the adapter model in its list.
#[derive(Debug)]
pub struct NetworkForm {
    pub backend: u32,
    pub bridge: String,
    pub mac: String,
    pub model: u32,
}

/// What is written to the launch script.
#[derive(Debug)]
pub struct NetworkRequest {
    pub model: String,
    pub backend: String,
    pub bridge: Option<String>,
    pub mac: Option<String>,
}

/// The position of a backend in the list.
pub open spec fn backend_index(backend: NetworkBackend) -> u32 {
    match backend {
        NetworkBackend::User => 0,
        NetworkBackend::Passt => 1,
        NetworkBackend::Bridge(_) => 2,
        NetworkBackend::Disabled => 3,
    }
}

/// The name of the backend at a position.
pub open spec fn backend_name(index: u32) -> Seq<char> {
    if index == 1 {
        "passt"@
    } else if index == 2 {
        "bridge"@
    } else if index == 3 {
        "none"@
    } else {
        "user"@
    }
}

/// The position of an adapter model in the list; that of the first for a model that is
/// not in it.
pub open spec fn model_index(model: Seq<char>) -> u32 {
    if model == "e1000"@ {
        1
    } else if model == "rtl8139"@ {
        2
    } else {
        0
    }
}

/// The name of the adapter model at a position.
pub open spec fn model_name(index: u32) -> Seq<char> {
    if index == 1 {
        "e1000"@
    } else if index == 2 {
        "rtl8139"@
    } else {
        "virtio-net-pci"@
    }
}

/// The fields for a network: backend, bridge, MAC address and model.
pub open spec fn form_view(net: Option<Network>) -> (u32, Seq<char>, Seq<char>, u32) {
    match net {
        Some(n) => (
            backend_index(n.backend),
            match n.backend {
                NetworkBackend::Bridge(b) => b@,
                _ => "br0"@,
            },
            match n.mac_address {
                Some(m) => m@,
                None => ""@,
            },
            model_index(n.model@),
        ),
        None => (0, "br0"@, ""@, 0),
    }
}

/// The fields as the dialog shows them at first.
pub fn form_of(net: Option<&Network>) -> (res: NetworkForm)
    ensures
        (res.backend, res.bridge@, res.mac@, res.model) == form_view(
            match net {
                Some(n) => Some(*n),
                None => None,
            },
        ),
{
    match net {
        Some(n) => {
            let bridge: String = match &n.backend {
                NetworkBackend::Bridge(b) => b.as_str().to_string(),
                _ => "br0".to_string(),
            };
            let backend: u32 = match &n.backend {
                NetworkBackend::User => 0,
                NetworkBackend::Passt => 1,
                NetworkBackend::Bridge(_) => 2,
                NetworkBackend::Disabled => 3,
            };
            let mac: String = match &n.mac_address {
                Some(m) => m.as_str().to_string(),
                None => "".to_string(),
            };
            let model: u32 = if same_text(n.model.as_str(), "e1000") {
                1
            } else if same_text(n.model.as_str(), "rtl8139") {
                2
            } else {
                0
            };
            NetworkForm { backend, bridge, mac, model }
        },
        None => NetworkForm {
            backend: 0,
            bridge: "br0".to_string(),
            mac: "".to_string(),
            model: 0,
        },
    }
}

/// Whether the field for the bridge is shown: for the backend that has one.
pub fn bridge_visible(backend: u32) -> (res: bool)
    ensures
        res == (backend == 2),
{
    backend == 2
}

/// What fields ask for: the model, the backend, the bridge if it is asked for and named,
/// and the MAC address if one is given.
pub open spec fn request_view(backend: u32, bridge: Seq<char>, mac: Seq<char>, model: u32) -> (
    Seq<char>,
    Seq<char>,
    Option<Seq<char>>,
    Option<Seq<char>>,
) {
    (
        model_name(model),
        backend_name(backend),
        if backend == 2 && bridge.len() > 0 {
            Some(bridge)
        } else {
            None
        },
        if mac.len() > 0 {
            Some(mac)
        } else {
            None
        },
    )
}

/// The text in an option.
pub open spec fn text_in(s: Option<String>) -> Option<Seq<char>> {
    match s {
        Some(t) => Some(t@),
        None => None,
    }
}

/// What the fields ask for.
pub fn request_of(form: &NetworkForm) -> (res: NetworkRequest)
    ensures
        (res.model@, res.backend@, text_in(res.bridge), text_in(res.mac)) == request_view(
            form.backend,
            form.bridge@,
            form.mac@,
            form.model,
        ),
{
    let model: &str = match form.model {
        1 => "e1000",
        2 => "rtl8139",
        _ => "virtio-net-pci",
    };
    let backend: &str = match form.backend {
        1 => "passt",
        2 => "bridge",
        3 => "none",
        _ => "user",
    };
    proof {
        reveal_strlit("");
    }
    let bridge: Option<String> = if form.backend == 2 && !same_text(form.bridge.as_str(), "") {
        proof {
            if form.bridge@.len() == 0 {
                assert(form.bridge@ =~= ""@);
            }
        }
        Some(form.bridge.as_str().to_string())
    } else {
        None
    };
    let mac: Option<String> = if same_text(form.mac.as_str(), "") {
        None
    } else {
        proof {
            if form.mac@.len() == 0 {
                assert(form.mac@ =~= ""@);
            }
        }
        Some(form.mac.as_str().to_string())
    };
    NetworkRequest { model: model.to_string(), backend: backend.to_string(), bridge, mac }
}

/// A text names a port: a number from 1 to 65535.
pub open spec fn names_port(s: Seq<char>) -> bool {
    parsed(s, u16::MAX as int).is_some() && parsed(s, u16::MAX as int).unwrap() > 0
}

/// Whether a text names a port.
pub fn port_valid(s: &str) -> (res: bool)
    ensures
        res == names_port(s@),
{
    match parse_u16(s) {
        Some(p) => p > 0,
        None => false,
    }
}

/// Whether a forward can be added: both texts name ports.
pub fn can_add(host: &str, guest: &str) -> (res: bool)
    ensures
        res == (names_port(host@) && names_port(guest@)),
{
    port_valid(host) && port_valid(guest)
}

/// The forward that is added, by the answer to the dialog, the texts for the ports, and
/// the position of the protocol in its list; none if the answer is another or a text is no
/// number of a port.
pub fn forward_of(response: &str, host: &str, guest: &str, protocol: u32) -> (res: Option<
    PortForward,
>)
    ensures
        res.is_some() <==> response@ == "add"@ && parsed(host@, u16::MAX as int).is_some()
            && parsed(guest@, u16::MAX as int).is_some(),
        res.is_some() ==> {
            let f = res.unwrap();
            &&& f.host_port == parsed(host@, u16::MAX as int).unwrap()
            &&& f.guest_port == parsed(guest@, u16::MAX as int).unwrap()
            &&& f.protocol == (if protocol == 0 {
                PortProtocol::Tcp
            } else {
                PortProtocol::Udp
            })
        },
{
    if !same_text(response, "add") {
        return None;
    }
    match (parse_u16(host), parse_u16(guest)) {
        (Some(host_port), Some(guest_port)) => {
            let protocol = if protocol == 0 {
                PortProtocol::Tcp
            } else {
                PortProtocol::Udp
            };
            Some(PortForward { protocol, host_port, guest_port })
        },
        _ => None,
    }
}

/// How a forward is shown.
pub open spec fn forward_view(fwd: PortForward) -> Seq<char> {
    (if fwd.protocol == PortProtocol::Tcp {
        "TCP"@
    } else {
        "UDP"@
    }) + " "@ + decimal(fwd.host_port as int) + "→"@ + decimal(fwd.guest_port as int)
}

/// The title of the row of a forward.
pub fn make_pf_row(fwd: &PortForward) -> (res: String)
    ensures
        res@ == forward_view(*fwd),
{
    let name: &str = match fwd.protocol {
        PortProtocol::Tcp => "TCP",
        PortProtocol::Udp => "UDP",
    };
    let mut out: String = name.to_string();
    out.append(" ");
    out.append(decimal_text(fwd.host_port as u64).as_str());
    out.append("→");
    out.append(decimal_text(fwd.guest_port as u64).as_str());
    out
}

/// The forwards of a machine, each with a number of its own, in order.
pub fn tag_forwards(forwards: &Vec<PortForward>) -> (res: Tagged<PortForward>)
    requires
        forwards@.len() <= u32::MAX,
    ensures
        res.wf(),
        res.values() == forwards@,
        res.next_id == forwards@.len(),
{
    let mut list: Tagged<PortForward> = Tagged::new();
    let mut i: usize = 0;
    while i < forwards.len()
        invariant
            i <= forwards@.len() <= u32::MAX,
            list.wf(),
            list.next_id == i,
            list.items@.len() == i,
            list.values() == forwards@.take(i as int),
        decreases forwards@.len() - i,
    {
        let ghost before = list.values();
        list.push(forwards[i]);
        proof {
            assert(list.values() =~= before.push(forwards@[i as int]));
            assert(forwards@.take(i + 1) =~= forwards@.take(i as int).push(forwards@[i as int]));
        }
        i = i + 1;
    }
    proof {
        assert(forwards@.take(i as int) =~= forwards@);
    }
    list
}

/// The forwards to save: those of the list, without their numbers.
pub fn forwards_of(list: &Tagged<PortForward>) -> (res: Vec<PortForward>)
    ensures
        res@ == list.values(),
{
    let mut out: Vec<PortForward> = Vec::new();
    let mut i: usize = 0;
    while i < list.items.len()
        invariant
            i <= list.items@.len(),
            out@ == list.values().take(i as int),
        decreases list.items@.len() - i,
    {
        out.push(list.items[i].1);
        proof {
            assert(list.values().take(i + 1) =~= list.values().take(i as int).push(
                list.values()[i as int],
            ));
        }
        i = i + 1;
    }
    proof {
        assert(list.values().take(i as int) =~= list.values());
    }
    out
}

/// The name by which a launch script knows a backend.
pub open spec fn script_name(backend: NetworkBackend) -> Seq<char> {
    match backend {
        NetworkBackend::User => "user"@,
        NetworkBackend::Passt => "passt"@,
        NetworkBackend::Bridge(_) => "bridge"@,
        NetworkBackend::Disabled => "none"@,
    }
}

/// Saving the dialog as it was opened asks for the network that the machine has: if its
/// adapter model is one of the list, its bridge has a name, and its MAC address, if it has
/// one, is not empty.
pub proof fn unchanged_dialog_keeps_the_network(net: Network)
    requires
        net.model@ == "virtio-net-pci"@ || net.model@ == "e1000"@ || net.model@ == "rtl8139"@,
        net.backend matches NetworkBackend::Bridge(b) ==> b@.len() > 0,
        net.mac_address matches Some(m) ==> m@.len() > 0,
    ensures
        ({
            let form = form_view(Some(net));
            request_view(form.0, form.1, form.2, form.3) == (
                net.model@,
                script_name(net.backend),
                match net.backend {
                    NetworkBackend::Bridge(b) => Some(b@),
                    _ => None,
                },
                text_in(net.mac_address),
            )
        }),
{
    reveal_strlit("");
    reveal_strlit("e1000");
    reveal_strlit("rtl8139");
    reveal_strlit("virtio-net-pci");
    assert("e1000"@.len() != "rtl8139"@.len());
    assert("virtio-net-pci"@.len() != "rtl8139"@.len());
    assert("virtio-net-pci"@.len() != "e1000"@.len());
}

/// A machine without a network of its own is given that of the first choices.
pub proof fn no_network_means_the_defaults()
    ensures
        ({
            let form = form_view(None);
            request_view(form.0, form.1, form.2, form.3) == (
                "virtio-net-pci"@,
                "user"@,
                None::<Seq<char>>,
                None::<Seq<char>>,
            )
        }),
{
    reveal_strlit("");
}

/// A forward that can be added joins two ports, neither of them 0.
pub proof fn added_ports_are_ports(host: Seq<char>, guest: Seq<char>)
    requires
        names_port(host),
        names_port(guest),
    ensures
        1 <= parsed(host, u16::MAX as int).unwrap() <= 65535,
        1 <= parsed(guest, u16::MAX as int).unwrap() <= 65535,
{
}

} // verus!
