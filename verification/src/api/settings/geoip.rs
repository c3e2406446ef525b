//! The GeoIP databases: the file of each kind, the unpacking of a
//! downloaded database, and the settings of the automatic update.

use vstd::prelude::*;
use crate::api::{Refusal, refuse};
use crate::api::settings::site::{flag_text, pairs_view, read_flag, read_text};
use crate::text::{chars_of, chars_ends_with, is_suffix, string_of, concat_chars, str_eq, copy_str};

verus! {

/// A request to download one GeoIP database.
#[derive(Debug)]
pub struct DownloadGeoIpRequest {
    pub url: String,
    pub db_type: String,
}

/// The settings of the automatic GeoIP database update.
#[derive(Debug)]
pub struct GeoIpConfigRequest {
    pub enabled: bool,
    pub url: String,
    pub update_interval: String,
}

/// The file a database kind is stored in.
pub open spec fn geoip_file_of(db_type: Seq<char>) -> Option<Seq<char>> {
    if db_type == "country"@ {
        Some("GeoLite2-Country.mmdb"@)
    } else if db_type == "city"@ {
        Some("GeoLite2-City.mmdb"@)
    } else if db_type == "asn"@ {
        Some("GeoLite2-ASN.mmdb"@)
    } else {
        None
    }
}

/// The file of a database kind; other kinds are refused.
pub fn geoip_filename(db_type: &str) -> (r: Result<&'static str, Refusal>)
    ensures
        match geoip_file_of(db_type@) {
            Some(f) => r matches Ok(n) && n@ == f,
            None => r matches Err(e) && e.code == 400 && e.message@ == "无效的数据库类型"@,
        },
{
    if str_eq(db_type, "country") {
        Ok("GeoLite2-Country.mmdb")
    } else if str_eq(db_type, "city") {
        Ok("GeoLite2-City.mmdb")
    } else if str_eq(db_type, "asn") {
        Ok("GeoLite2-ASN.mmdb")
    } else {
        Err(refuse(400, "无效的数据库类型"))
    }
}

/// What `flate2::read::GzDecoder` gives for gzip data read to its end: the
/// unpacked bytes, or the text of the error.
pub uninterp spec fn gunzipped(data: Seq<u8>) -> Result<Seq<u8>, Seq<char>>;

/// `flate2::read::GzDecoder` read to the end. Claimed: the result is the
/// named function of the data.
#[verifier::external_body]
fn gunzip(data: &[u8]) -> (r: Result<Vec<u8>, String>)
    ensures
        match r {
            Ok(v) => gunzipped(data@) == Ok::<Seq<u8>, Seq<char>>(v@),
            Err(e) => gunzipped(data@) == Err::<Seq<u8>, Seq<char>>(e@),
        },
{
    let mut decoder = flate2::read::GzDecoder::new(data);
    let mut out: Vec<u8> = Vec::new();
    match std::io::Read::read_to_end(&mut decoder, &mut out) {
        Ok(_) => Ok(out),
        Err(e) => Err(e.to_string()),
    }
}

fn copy_bytes(data: &[u8]) -> (r: Vec<u8>)
    ensures
        r@ == data@,
{
    let mut out: Vec<u8> = Vec::new();
    let mut i: usize = 0;
    while i < data.len()
        invariant
            i <= data.len(),
            out@ == data@.take(i as int),
        decreases data.len() - i,
    {
        out.push(data[i]);
        assert(data@.take(i + 1) =~= data@.take(i as int).push(data@[i as int]));
        i = i + 1;
    }
    assert(data@.take(data.len() as int) =~= data@);
    out
}

/// The message of a download that does not unpack.
pub open spec fn unpack_failed_message(e: Seq<char>) -> Seq<char> {
    "解压失败: "@ + e
}

/// The database file from a downloaded body: unpacked when the URL ends
/// in `.gz`, else the body itself.
pub fn geoip_payload(url: &str, body: &[u8]) -> (r: Result<Vec<u8>, Refusal>)
    ensures
        !is_suffix(".gz"@, url@) ==> (r matches Ok(v) && v@ == body@),
        is_suffix(".gz"@, url@) ==> match gunzipped(body@) {
            Ok(v) => r matches Ok(w) && w@ == v,
            Err(e) => r matches Err(x) && x.code == 500 && x.message@ == unpack_failed_message(e),
        },
{
    if chars_ends_with(&chars_of(url), &chars_of(".gz")) {
        match gunzip(body) {
            Ok(v) => Ok(v),
            Err(e) => {
                let msg = concat_chars(&chars_of("解压失败: "), &chars_of(e.as_str()));
                Err(Refusal { code: 500, message: string_of(&msg) })
            },
        }
    } else {
        Ok(copy_bytes(body))
    }
}

/// The records the update settings are saved as, in order.
pub open spec fn geoip_config_writes(enabled: bool, url: Seq<char>, interval: Seq<char>) -> Seq<(Seq<char>, Seq<char>)> {
    seq![
        ("geoip_auto_update"@, flag_text(enabled)),
        ("geoip_update_url"@, url),
        ("geoip_update_interval"@, interval),
    ]
}

/// The records that save the update settings.
pub fn geoip_config_updates(req: &GeoIpConfigRequest) -> (r: Vec<(String, String)>)
    ensures
        pairs_view(r@) == geoip_config_writes(req.enabled, req.url@, req.update_interval@),
{
    let flag = if req.enabled { String::from_str("true") } else { String::from_str("false") };
    let mut out: Vec<(String, String)> = Vec::new();
    out.push((String::from_str("geoip_auto_update"), flag));
    out.push((String::from_str("geoip_update_url"), copy_str(req.url.as_str())));
    out.push((String::from_str("geoip_update_interval"), copy_str(req.update_interval.as_str())));
    assert(pairs_view(out@) =~= geoip_config_writes(req.enabled, req.url@, req.update_interval@));
    out
}

/// The update settings as shown.
#[derive(Debug)]
pub struct GeoIpConfigView {
    pub enabled: bool,
    pub url: String,
    pub update_interval: String,
    pub last_update: Option<String>,
}

/// The update settings from the stored values: off, the GeoLite2 country
/// database, weekly, unless stored otherwise.
pub fn geoip_config_view(
    enabled: Option<String>,
    url: Option<String>,
    interval: Option<String>,
    last_update: Option<String>,
) -> (r: GeoIpConfigView)
    ensures
        r.enabled == read_flag(enabled),
        r.url@ == read_text(url, "https://git.io/GeoLite2-Country.mmdb"@),
        r.update_interval@ == read_text(interval, "weekly"@),
        r.last_update == last_update,
{
    let on = match &enabled {
        Some(s) => str_eq(s.as_str(), "true"),
        None => false,
    };
    let u = match url {
        Some(s) => s,
        None => String::from_str("https://git.io/GeoLite2-Country.mmdb"),
    };
    let i = match interval {
        Some(s) => s,
        None => String::from_str("weekly"),
    };
    GeoIpConfigView { enabled: on, url: u, update_interval: i, last_update }
}

} // verus!
