//! The addresses of the configuration service.
use vstd::prelude::*;

verus! {

/// The address of the configuration document of an instance in a region.
pub fn get_base_url(region: &str, guid: &str) -> (r: String)
    ensures
        r@ == "https://"@ + region@ + ".apprapp.cloud.ibm.com/apprapp/feature/v1/instances/"@ + guid@
            + "/config"@,
{
    let mut url = "https://".to_owned();
    url.append(region);
    url.append(".apprapp.cloud.ibm.com/apprapp/feature/v1/instances/");
    url.append(guid);
    url.append("/config");
    url
}

/// The address of the change notification stream of a region.
pub fn get_ws_url(region: &str) -> (r: String)
    ensures
        r@ == "wss://"@ + region@ + ".apprapp.cloud.ibm.com/apprapp/wsfeature"@,
{
    let mut url = "wss://".to_owned();
    url.append(region);
    url.append(".apprapp.cloud.ibm.com/apprapp/wsfeature");
    url
}

} // verus!
