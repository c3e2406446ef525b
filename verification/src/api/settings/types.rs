//! The requests and answers of the site settings.

use vstd::prelude::*;

verus! {

/// A change of site settings: each field given is written, the others
/// stay.
#[derive(Debug)]
pub struct UpdateSettingsRequest {
    pub site_title: Option<String>,
    pub site_description: Option<String>,
    pub site_icon: Option<String>,
    pub allow_registration: Option<bool>,
    pub default_user_group: Option<String>,
    pub site_announcement: Option<String>,
    pub robots_txt: Option<String>,
    pub preview_encrypted_audio: Option<bool>,
    pub background_image: Option<String>,
    pub glass_effect: Option<bool>,
    pub glass_blur: Option<i32>,
    pub glass_opacity: Option<i32>,
    /// The most bytes per second a proxied download gets; 0 for no limit.
    pub proxy_max_speed: Option<i64>,
    /// The most proxied downloads at once; 0 for no limit.
    pub proxy_max_concurrent: Option<i32>,
    /// The domain of download links; empty for the current one.
    pub download_domain: Option<String>,
    /// How long a download link lasts, in minutes.
    pub link_expiry_minutes: Option<i32>,
}

/// The settings of the automatic GeoIP database update.
#[derive(Debug)]
pub struct GeoIpConfigRequest {
    pub enabled: bool,
    pub url: String,
    pub update_interval: String,
}

/// Which GeoIP databases are loaded.
#[derive(Debug)]
pub struct GeoIpStatus {
    pub loaded: bool,
    pub country_db: bool,
    pub city_db: bool,
    pub asn_db: bool,
    pub data_dir: String,
}

} // verus!
