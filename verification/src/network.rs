//! Network interface descriptions offered for source-address selection.
//! Enumerating adapters is a platform concern that exists only on systems
//! with the adapter API; here no adapters are enumerated.

use vstd::prelude::*;

verus! {

/// One adapter a download may bind to.
pub struct NetworkInterface {
    pub id: String,
    pub name: String,
    pub ipv4: Option<String>,
    pub is_up: bool,
}

/// The adapters available for source-address selection: none on platforms
/// without the adapter enumeration API.
pub fn get_network_interfaces() -> (r: Result<Vec<NetworkInterface>, String>)
    ensures
        r matches Ok(v) && v@.len() == 0,
{
    Ok(Vec::new())
}

} // verus!
