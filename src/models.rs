use vstd::prelude::*;

verus! {

/// A service that discovery has resolved, reduced to plain values.
#[derive(Clone, Debug, PartialEq, Eq)]
pub struct DiscoveredService {
    pub fullname: String,
    pub hostname: String,
    pub port: u16,
    pub addresses: Vec<String>,
}

/// Mathematical view of a discovered service: full name, host name, port and
/// the addresses, in order.
pub type ServiceView = (Seq<char>, Seq<char>, u16, Seq<Seq<char>>);

/// The texts of a list of strings.
pub open spec fn strings_view(v: Seq<String>) -> Seq<Seq<char>> {
    v.map_values(|s: String| s@)
}

impl View for DiscoveredService {
    type V = ServiceView;

    open spec fn view(&self) -> ServiceView {
        (self.fullname@, self.hostname@, self.port, strings_view(self.addresses@))
    }
}

impl DiscoveredService {
    /// A service from its plain values.
    pub fn new(fullname: String, hostname: String, port: u16, addresses: Vec<String>) -> (r: Self)
        ensures
            r.fullname == fullname,
            r.hostname == hostname,
            r.port == port,
            r.addresses == addresses,
    {
        DiscoveredService { fullname, hostname, port, addresses }
    }
}

} // verus!
