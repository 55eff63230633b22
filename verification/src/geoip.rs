use vstd::prelude::*;

use crate::Ip4;

verus! {

/// A geolocation record for one responder address: the address and the
/// descriptive fields that the external lookup yields and the store persists.
/// Coordinates travel as their decimal text.
#[derive(Debug)]
pub struct IpApiResp {
    pub ip: Ip4,
    pub city: Option<String>,
    pub region: Option<String>,
    pub region_code: Option<String>,
    pub country_code: Option<String>,
    pub country_code_iso3: Option<String>,
    pub country_name: Option<String>,
    pub country_capital: Option<String>,
    pub latitude: Option<String>,
    pub longitude: Option<String>,
    pub timezone: Option<String>,
    pub utc_offset: Option<String>,
    pub asn: Option<String>,
    pub org: Option<String>,
}

/// The mathematical value of a geolocation record: each text field as a
/// sequence of characters.
pub struct GeoFields {
    pub ip: Ip4,
    pub city: Option<Seq<char>>,
    pub region: Option<Seq<char>>,
    pub region_code: Option<Seq<char>>,
    pub country_code: Option<Seq<char>>,
    pub country_code_iso3: Option<Seq<char>>,
    pub country_name: Option<Seq<char>>,
    pub country_capital: Option<Seq<char>>,
    pub latitude: Option<Seq<char>>,
    pub longitude: Option<Seq<char>>,
    pub timezone: Option<Seq<char>>,
    pub utc_offset: Option<Seq<char>>,
    pub asn: Option<Seq<char>>,
    pub org: Option<Seq<char>>,
}

impl View for IpApiResp {
    type V = GeoFields;

    open spec fn view(&self) -> GeoFields {
        GeoFields {
            ip: self.ip,
            city: self.city.deep_view(),
            region: self.region.deep_view(),
            region_code: self.region_code.deep_view(),
            country_code: self.country_code.deep_view(),
            country_code_iso3: self.country_code_iso3.deep_view(),
            country_name: self.country_name.deep_view(),
            country_capital: self.country_capital.deep_view(),
            latitude: self.latitude.deep_view(),
            longitude: self.longitude.deep_view(),
            timezone: self.timezone.deep_view(),
            utc_offset: self.utc_offset.deep_view(),
            asn: self.asn.deep_view(),
            org: self.org.deep_view(),
        }
    }
}

/// Copy an optional text, keeping its contents.
pub fn clone_opt_text(o: &Option<String>) -> (r: Option<String>)
    ensures
        r.deep_view() == o.deep_view(),
{
    match o {
        Option::Some(s) => Option::Some(s.clone()),
        Option::None => Option::None,
    }
}

impl IpApiResp {
    /// Copy the record, keeping every field's contents.
    pub fn duplicate(&self) -> (r: IpApiResp)
        ensures
            r@ == self@,
    {
        IpApiResp {
            ip: self.ip,
            city: clone_opt_text(&self.city),
            region: clone_opt_text(&self.region),
            region_code: clone_opt_text(&self.region_code),
            country_code: clone_opt_text(&self.country_code),
            country_code_iso3: clone_opt_text(&self.country_code_iso3),
            country_name: clone_opt_text(&self.country_name),
            country_capital: clone_opt_text(&self.country_capital),
            latitude: clone_opt_text(&self.latitude),
            longitude: clone_opt_text(&self.longitude),
            timezone: clone_opt_text(&self.timezone),
            utc_offset: clone_opt_text(&self.utc_offset),
            asn: clone_opt_text(&self.asn),
            org: clone_opt_text(&self.org),
        }
    }

    /// The same record with another address.
    pub fn with_ip(self, ip: Ip4) -> (r: IpApiResp)
        ensures
            r@ == (GeoFields { ip, ..self@ }),
    {
        IpApiResp { ip, ..self }
    }
}

} // verus!
