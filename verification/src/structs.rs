//! Shared data model of the pipeline: per-target resolution data and the
//! open-port entries that a scan yields for an address.

use vstd::prelude::*;

verus! {

/// Service metadata attached to an open port; every field past the name may
/// independently be absent.
#[derive(Debug, PartialEq, Eq)]
pub struct Service {
    pub name: String,
    pub version: Option<String>,
    pub product: Option<String>,
    pub ostype: Option<String>,
    pub extrainfo: Option<String>,
}

impl Default for Service {
    /// The empty service metadata: no name and nothing else known.
    fn default() -> (r: Self)
        ensures
            r.name@ == Seq::<char>::empty(),
            r.version is None,
            r.product is None,
            r.ostype is None,
            r.extrainfo is None,
    {
        Service { name: String::new(), version: None, product: None, ostype: None, extrainfo: None }
    }
}

/// The state reported for a port; only the value "open" survives into final
/// results.
#[derive(Debug, PartialEq, Eq)]
pub struct State {
    pub state: String,
}

/// One port entry of a scan result.
#[derive(Debug, PartialEq, Eq)]
pub struct Port {
    pub portid: String,
    pub state: State,
    pub service: Option<Service>,
}

/// Per-target record: the resolved address (empty when unresolved) and the
/// open-port data remapped onto the target.
#[derive(Debug, PartialEq, Eq)]
pub struct ResolvData {
    pub ip: String,
    pub ports_data: Vec<Port>,
}

impl ResolvData {
    pub fn default() -> (r: Self)
        ensures
            r.ip@ == Seq::<char>::empty(),
            r.ports_data@ == Seq::<Port>::empty(),
    {
        Self { ip: String::new(), ports_data: Vec::new() }
    }
}

impl Clone for Service {
    fn clone(&self) -> (r: Self)
        ensures
            r == *self,
    {
        Service {
            name: self.name.clone(),
            version: match &self.version {
                Some(v) => Some(v.clone()),
                None => None,
            },
            product: match &self.product {
                Some(v) => Some(v.clone()),
                None => None,
            },
            ostype: match &self.ostype {
                Some(v) => Some(v.clone()),
                None => None,
            },
            extrainfo: match &self.extrainfo {
                Some(v) => Some(v.clone()),
                None => None,
            },
        }
    }
}

impl Clone for State {
    fn clone(&self) -> (r: Self)
        ensures
            r == *self,
    {
        State { state: self.state.clone() }
    }
}

impl Clone for Port {
    fn clone(&self) -> (r: Self)
        ensures
            r == *self,
    {
        Port {
            portid: self.portid.clone(),
            state: self.state.clone(),
            service: match &self.service {
                Some(s) => Some(s.clone()),
                None => None,
            },
        }
    }
}

impl Clone for ResolvData {
    fn clone(&self) -> (r: Self)
        ensures
            r.ip == self.ip,
            r.ports_data@ == self.ports_data@,
    {
        ResolvData { ip: self.ip.clone(), ports_data: clone_ports(&self.ports_data) }
    }
}

/// Element-wise copy of a port list; the copy holds equal entries.
pub fn clone_ports(v: &Vec<Port>) -> (r: Vec<Port>)
    ensures
        r@ == v@,
{
    let mut r: Vec<Port> = Vec::new();
    let mut i: usize = 0;
    while i < v.len()
        invariant
            i <= v.len(),
            r@ == v@.take(i as int),
        decreases v.len() - i,
    {
        r.push(v[i].clone());
        proof {
            assert(v@.take(i + 1 as int) == v@.take(i as int).push(v@[i as int]));
        }
        i = i + 1;
    }
    proof {
        assert(v@.take(v@.len() as int) == v@);
    }
    r
}

} // verus!
