use vstd::prelude::*;

verus! {

/// The backend through which memory is read.
#[derive(Clone, Copy, Debug, PartialEq, Eq, Structural, PartialOrd, Ord, Hash)]
pub enum Connector {
    /// A PCILeech DMA device.
    Pcileech,
    /// The local machine's own memory access.
    Native,
    /// A QEMU virtual machine (experimental).
    Qemu,
    /// A KVM virtual machine (experimental).
    Kvm,
}

/// The name by which the backend's plugin is known.
pub open spec fn connector_name(c: Connector) -> Seq<char> {
    match c {
        Connector::Pcileech => seq!['p', 'c', 'i', 'l', 'e', 'e', 'c', 'h'],
        Connector::Native => seq!['n', 'a', 't', 'i', 'v', 'e'],
        Connector::Qemu => seq!['q', 'e', 'm', 'u'],
        Connector::Kvm => seq!['k', 'v', 'm'],
    }
}

impl Connector {
    /// The name by which the backend's plugin is known, in lower case.
    pub fn name(&self) -> (r: &'static str)
        ensures
            r@ == connector_name(*self),
    {
        proof {
            reveal_strlit("pcileech");
            reveal_strlit("native");
            reveal_strlit("qemu");
            reveal_strlit("kvm");
        }
        let r = match self {
            Connector::Pcileech => "pcileech",
            Connector::Native => "native",
            Connector::Qemu => "qemu",
            Connector::Kvm => "kvm",
        };
        assert(r@ =~= connector_name(*self));
        r
    }

    /// The name as an owned string.
    pub fn to_string(&self) -> (r: String)
        ensures
            r@ == connector_name(*self),
    {
        String::from_str(self.name())
    }
}

impl Default for Connector {
    fn default() -> (r: Connector)
        ensures
            r == Connector::Pcileech,
    {
        Connector::Pcileech
    }
}

} // verus!
