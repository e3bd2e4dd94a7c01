//! Client enrichment: the `ClientData` record derived once per request from
//! the client IP and the User-Agent header, via the geolocation and
//! device-classification collaborators.
//!
//! The two lookups are external collaborators: the boundary queries them and
//! hands their answers in as plain values. Building the record from those
//! answers — truncation, the all-or-nothing failure policy, the summary
//! rendering — is this module's verified logic.

use vstd::prelude::*;
use crate::errors::PipelineError;
use crate::ip_prefix::{spec_truncated_cidr, truncate_ip_to_prefix, IpAddress};

verus! {

/// What the geolocation collaborator reports for an IP address. Latitude and
/// longitude are carried as their decimal text.
pub struct GeoData {
    pub as_number: u32,
    pub as_name: Vec<u8>,
    pub city: Vec<u8>,
    pub country_code: Vec<u8>,
    pub continent_code: Vec<u8>,
    pub latitude: Vec<u8>,
    pub longitude: Vec<u8>,
}

/// What the device-classification collaborator reports for a User-Agent
/// string: any of the three attributes may be absent.
pub struct DeviceLookup {
    pub device_name: Option<Vec<u8>>,
    pub brand: Option<Vec<u8>>,
    pub model: Option<Vec<u8>>,
}

/// A structured representation of a User-Agent string, as classified by the
/// device-detection collaborator.
pub struct UserAgent {
    pub device_name: Vec<u8>,
    pub brand: Vec<u8>,
    pub model: Vec<u8>,
}

/// The rendered classification summary: `{device_name} {brand} {model}`.
pub open spec fn spec_ua_summary(ua: UserAgent) -> Seq<u8> {
    ua.device_name@ + seq![32u8] + ua.brand@ + seq![32u8] + ua.model@
}

impl UserAgent {
    /// Builds a `UserAgent` from the classifier's answer, substituting the
    /// empty string for absent attributes. A lookup that found no match
    /// fails with `UserAgentUnclassified`.
    pub fn from_lookup(lookup: Option<DeviceLookup>) -> (r: Result<UserAgent, PipelineError>)
        ensures
            match r {
                Ok(ua) => lookup matches Some(d) && ua.device_name@ == (match d.device_name {
                    Some(n) => n@,
                    None => Seq::<u8>::empty(),
                }) && ua.brand@ == (match d.brand {
                    Some(n) => n@,
                    None => Seq::<u8>::empty(),
                }) && ua.model@ == (match d.model {
                    Some(n) => n@,
                    None => Seq::<u8>::empty(),
                }),
                Err(e) => lookup is None && e == PipelineError::UserAgentUnclassified,
            },
    {
        match lookup {
            Some(d) => {
                let device_name = match d.device_name {
                    Some(n) => n,
                    None => Vec::new(),
                };
                let brand = match d.brand {
                    Some(n) => n,
                    None => Vec::new(),
                };
                let model = match d.model {
                    Some(n) => n,
                    None => Vec::new(),
                };
                Ok(UserAgent { device_name, brand, model })
            },
            None => Err(PipelineError::UserAgentUnclassified),
        }
    }

    /// The rendered summary: the three attributes joined by single spaces.
    pub fn summary(&self) -> (r: Vec<u8>)
        ensures
            r@ == spec_ua_summary(*self),
    {
        let mut out: Vec<u8> = Vec::new();
        crate::json_ser::push_bytes(&mut out, &self.device_name);
        out.push(32u8);
        crate::json_ser::push_bytes(&mut out, &self.brand);
        out.push(32u8);
        crate::json_ser::push_bytes(&mut out, &self.model);
        assert(out@ =~= spec_ua_summary(*self));
        out
    }
}

/// Information about the client that sent the report request: the
/// privacy-truncated IP, the classified User-Agent, and geolocation data.
/// Shared read-only by every log line of one request.
pub struct ClientData {
    pub client_ip: Vec<u8>,
    pub client_user_agent: Vec<u8>,
    pub client_asn: u32,
    pub client_asname: Vec<u8>,
    pub client_city: Vec<u8>,
    pub client_country_code: Vec<u8>,
    pub client_continent_code: Vec<u8>,
    pub client_latitude: Vec<u8>,
    pub client_longitude: Vec<u8>,
}

/// The classification summary a lookup answer renders to, absent attributes
/// replaced by the empty string.
pub open spec fn spec_summary_of(d: DeviceLookup) -> Seq<u8> {
    (match d.device_name {
        Some(n) => n@,
        None => Seq::<u8>::empty(),
    }) + seq![32u8] + (match d.brand {
        Some(n) => n@,
        None => Seq::<u8>::empty(),
    }) + seq![32u8] + (match d.model {
        Some(n) => n@,
        None => Seq::<u8>::empty(),
    })
}

/// What a well-built `ClientData` holds, given the inputs it was built from.
pub open spec fn spec_client_data_ok(
    c: ClientData,
    ip: IpAddress,
    geo: GeoData,
    device: DeviceLookup,
) -> bool {
    &&& c.client_ip@ == spec_truncated_cidr(ip)
    &&& c.client_user_agent@ == spec_summary_of(device)
    &&& c.client_asn == geo.as_number
    &&& c.client_asname@ == geo.as_name@
    &&& c.client_city@ == geo.city@
    &&& c.client_country_code@ == geo.country_code@
    &&& c.client_continent_code@ == geo.continent_code@
    &&& c.client_latitude@ == geo.latitude@
    &&& c.client_longitude@ == geo.longitude@
}

impl ClientData {
    /// Builds the enrichment record for one request, in order: truncate the
    /// IP (total for every representable address), require a geolocation
    /// match, require a User-Agent classification. Either lookup failing
    /// fails the whole request: a `ClientData` is never built partially.
    pub fn new(client_ip: IpAddress, geo: Option<GeoData>, device: Option<DeviceLookup>) -> (r:
        Result<ClientData, PipelineError>)
        ensures
            match r {
                Ok(c) => geo matches Some(g) && device matches Some(d) && spec_client_data_ok(
                    c,
                    client_ip,
                    g,
                    d,
                ),
                Err(e) => {
                    ||| geo is None && e == PipelineError::GeoUnavailable
                    ||| geo is Some && device is None && e
                        == PipelineError::UserAgentUnclassified
                },
            },
    {
        let truncated_ip = match truncate_ip_to_prefix(client_ip) {
            Ok(t) => t,
            Err(e) => {
                return Err(e);
            },
        };
        let g = match geo {
            Some(g) => g,
            None => {
                return Err(PipelineError::GeoUnavailable);
            },
        };
        let ghost dev = device;
        let ua = match UserAgent::from_lookup(device) {
            Ok(ua) => ua,
            Err(e) => {
                return Err(e);
            },
        };
        let summary = ua.summary();
        proof {
            assert(summary@ =~= spec_summary_of(dev->Some_0));
        }
        let c = ClientData {
            client_ip: truncated_ip,
            client_user_agent: summary,
            client_asn: g.as_number,
            client_asname: g.as_name,
            client_city: g.city,
            client_country_code: g.country_code,
            client_continent_code: g.continent_code,
            client_latitude: g.latitude,
            client_longitude: g.longitude,
        };
        Ok(c)
    }

    /// A copy of this record, field for field: the context is shared
    /// read-only by every log line of one request.
    pub fn duplicate(&self) -> (r: ClientData)
        ensures
            r.client_ip@ == self.client_ip@,
            r.client_user_agent@ == self.client_user_agent@,
            r.client_asn == self.client_asn,
            r.client_asname@ == self.client_asname@,
            r.client_city@ == self.client_city@,
            r.client_country_code@ == self.client_country_code@,
            r.client_continent_code@ == self.client_continent_code@,
            r.client_latitude@ == self.client_latitude@,
            r.client_longitude@ == self.client_longitude@,
    {
        ClientData {
            client_ip: crate::log_line::copy_vec(&self.client_ip),
            client_user_agent: crate::log_line::copy_vec(&self.client_user_agent),
            client_asn: self.client_asn,
            client_asname: crate::log_line::copy_vec(&self.client_asname),
            client_city: crate::log_line::copy_vec(&self.client_city),
            client_country_code: crate::log_line::copy_vec(&self.client_country_code),
            client_continent_code: crate::log_line::copy_vec(&self.client_continent_code),
            client_latitude: crate::log_line::copy_vec(&self.client_latitude),
            client_longitude: crate::log_line::copy_vec(&self.client_longitude),
        }
    }
}

} // verus!
