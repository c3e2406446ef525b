//! Site settings: who may change them, the records a change writes, and
//! the public view of the stored values with their defaults.

use vstd::prelude::*;
use crate::api::{Refusal, refuse};
use crate::api::settings::types::UpdateSettingsRequest;
use crate::num::{int_text, i64_to_decimal, parse_int_spec, parse_i32, parse_i64, lemma_int_text_round_trip};
use crate::text::{chars_of, string_of, str_eq, copy_str};

verus! {

/// Which GeoIP databases are loaded.
#[derive(Debug)]
pub struct GeoIpStatus {
    pub loaded: bool,
    pub country_db: bool,
    pub city_db: bool,
    pub asn_db: bool,
    pub data_dir: String,
}

/// What the session lookup of a settings request found: `None` when the
/// request has no session, else the lookup's result (whether the valid
/// session's enabled user is an administrator, if there is one).
pub open spec fn settings_admin_outcome(lookup: Option<Result<Option<bool>, ()>>) -> Option<(u16, Seq<char>)> {
    match lookup {
        None => Some((401, "未登录"@)),
        Some(Err(())) => Some((500, "服务器错误"@)),
        Some(Ok(a)) => if a == Some(true) { None } else { Some((403, "需要管理员权限"@)) },
    }
}

/// Decides whether a settings request comes from an administrator.
pub fn check_settings_admin(lookup: Option<Result<Option<bool>, ()>>) -> (r: Result<(), Refusal>)
    ensures
        match settings_admin_outcome(lookup) {
            None => r is Ok,
            Some((code, msg)) => r matches Err(e) && e.code == code && e.message@ == msg,
        },
{
    match lookup {
        None => Err(refuse(401, "未登录")),
        Some(Err(())) => Err(refuse(500, "服务器错误")),
        Some(Ok(a)) => {
            if a == Some(true) {
                Ok(())
            } else {
                Err(refuse(403, "需要管理员权限"))
            }
        },
    }
}

/// How a flag is stored.
pub open spec fn flag_text(b: bool) -> Seq<char> {
    if b { "true"@ } else { "false"@ }
}

/// The record of a setting when it is given.
pub open spec fn write_of(key: Seq<char>, value: Option<Seq<char>>) -> Seq<(Seq<char>, Seq<char>)> {
    match value {
        Some(v) => seq![(key, v)],
        None => Seq::empty(),
    }
}

pub open spec fn text_value(v: Option<String>) -> Option<Seq<char>> {
    match v { Some(s) => Some(s@), None => None }
}

pub open spec fn flag_value(v: Option<bool>) -> Option<Seq<char>> {
    match v { Some(b) => Some(flag_text(b)), None => None }
}

pub open spec fn int_value(v: Option<int>) -> Option<Seq<char>> {
    match v { Some(n) => Some(int_text(n)), None => None }
}

pub open spec fn opt_int<T: Integer>(v: Option<T>) -> Option<int> {
    match v { Some(n) => Some(n as int), None => None }
}

/// The records a settings change writes, in order: each given field under
/// its name, flags as `true`/`false`, numbers in decimal.
pub open spec fn settings_writes(r: UpdateSettingsRequest) -> Seq<(Seq<char>, Seq<char>)> {
    write_of("site_title"@, text_value(r.site_title))
        + write_of("site_description"@, text_value(r.site_description))
        + write_of("site_icon"@, text_value(r.site_icon))
        + write_of("allow_registration"@, flag_value(r.allow_registration))
        + write_of("default_user_group"@, text_value(r.default_user_group))
        + write_of("site_announcement"@, text_value(r.site_announcement))
        + write_of("robots_txt"@, text_value(r.robots_txt))
        + write_of("preview_encrypted_audio"@, flag_value(r.preview_encrypted_audio))
        + write_of("background_image"@, text_value(r.background_image))
        + write_of("glass_effect"@, flag_value(r.glass_effect))
        + write_of("glass_blur"@, int_value(opt_int(r.glass_blur)))
        + write_of("glass_opacity"@, int_value(opt_int(r.glass_opacity)))
        + write_of("proxy_max_speed"@, int_value(opt_int(r.proxy_max_speed)))
        + write_of("proxy_max_concurrent"@, int_value(opt_int(r.proxy_max_concurrent)))
        + write_of("download_domain"@, text_value(r.download_domain))
        + write_of("link_expiry_minutes"@, int_value(opt_int(r.link_expiry_minutes)))
}

pub open spec fn pairs_view(v: Seq<(String, String)>) -> Seq<(Seq<char>, Seq<char>)> {
    v.map_values(|p: (String, String)| (p.0@, p.1@))
}

fn push_write(out: &mut Vec<(String, String)>, key: &str, value: String)
    ensures
        pairs_view(final(out)@) == pairs_view(old(out)@) + seq![(key@, value@)],
{
    let ghost before = out@;
    out.push((String::from_str(key), value));
    assert(pairs_view(out@) =~= pairs_view(before) + seq![(key@, value@)]);
}

fn flag_string(b: bool) -> (r: String)
    ensures
        r@ == flag_text(b),
{
    if b { String::from_str("true") } else { String::from_str("false") }
}

fn push_text(out: &mut Vec<(String, String)>, key: &str, v: &Option<String>)
    ensures
        pairs_view(final(out)@) == pairs_view(old(out)@) + write_of(key@, text_value(*v)),
{
    let ghost before = pairs_view(out@);
    if let Some(s) = v {
        push_write(out, key, copy_str(s.as_str()));
    } else {
        assert(before + write_of(key@, text_value(*v)) =~= before);
    }
}

fn push_flag(out: &mut Vec<(String, String)>, key: &str, v: Option<bool>)
    ensures
        pairs_view(final(out)@) == pairs_view(old(out)@) + write_of(key@, flag_value(v)),
{
    let ghost before = pairs_view(out@);
    if let Some(b) = v {
        push_write(out, key, flag_string(b));
    } else {
        assert(before + write_of(key@, flag_value(v)) =~= before);
    }
}

fn push_number(out: &mut Vec<(String, String)>, key: &str, v: Option<i64>)
    ensures
        pairs_view(final(out)@) == pairs_view(old(out)@) + write_of(key@, int_value(opt_int(v))),
{
    let ghost before = pairs_view(out@);
    if let Some(n) = v {
        push_write(out, key, string_of(&i64_to_decimal(n)));
    } else {
        assert(before + write_of(key@, int_value(opt_int(v))) =~= before);
    }
}

fn widen_i32(v: Option<i32>) -> (r: Option<i64>)
    ensures
        opt_int(r) == opt_int(v),
{
    match v {
        Some(n) => Some(n as i64),
        None => None,
    }
}

/// The records a settings change writes, in order.
#[verifier::rlimit(40)]
pub fn settings_updates(r: &UpdateSettingsRequest) -> (out: Vec<(String, String)>)
    ensures
        pairs_view(out@) == settings_writes(*r),
{
    let mut out: Vec<(String, String)> = Vec::new();
    assert(pairs_view(out@) =~= Seq::<(Seq<char>, Seq<char>)>::empty());
    push_text(&mut out, "site_title", &r.site_title);
    push_text(&mut out, "site_description", &r.site_description);
    push_text(&mut out, "site_icon", &r.site_icon);
    push_flag(&mut out, "allow_registration", r.allow_registration);
    push_text(&mut out, "default_user_group", &r.default_user_group);
    push_text(&mut out, "site_announcement", &r.site_announcement);
    push_text(&mut out, "robots_txt", &r.robots_txt);
    push_flag(&mut out, "preview_encrypted_audio", r.preview_encrypted_audio);
    push_text(&mut out, "background_image", &r.background_image);
    push_flag(&mut out, "glass_effect", r.glass_effect);
    push_number(&mut out, "glass_blur", widen_i32(r.glass_blur));
    push_number(&mut out, "glass_opacity", widen_i32(r.glass_opacity));
    push_number(&mut out, "proxy_max_speed", r.proxy_max_speed);
    push_number(&mut out, "proxy_max_concurrent", widen_i32(r.proxy_max_concurrent));
    push_text(&mut out, "download_domain", &r.download_domain);
    push_number(&mut out, "link_expiry_minutes", widen_i32(r.link_expiry_minutes));
    assert(pairs_view(out@) =~= settings_writes(*r));
    out
}

/// The stored values of the public settings, `None` where none is stored.
#[derive(Debug)]
pub struct StoredSettings {
    pub site_title: Option<String>,
    pub site_description: Option<String>,
    pub site_icon: Option<String>,
    pub allow_registration: Option<String>,
    pub default_user_group: Option<String>,
    pub site_announcement: Option<String>,
    pub robots_txt: Option<String>,
    pub preview_encrypted_audio: Option<String>,
    pub background_image: Option<String>,
    pub glass_effect: Option<String>,
    pub glass_blur: Option<String>,
    pub glass_opacity: Option<String>,
    pub proxy_max_speed: Option<String>,
    pub proxy_max_concurrent: Option<String>,
    pub download_domain: Option<String>,
    pub link_expiry_minutes: Option<String>,
}

/// The public settings of the site.
#[derive(Debug)]
pub struct PublicSettings {
    pub site_title: String,
    pub site_description: String,
    pub site_icon: String,
    pub allow_registration: bool,
    pub default_user_group: String,
    pub site_announcement: String,
    pub robots_txt: String,
    pub preview_encrypted_audio: bool,
    pub background_image: String,
    pub glass_effect: bool,
    pub glass_blur: i32,
    pub glass_opacity: i32,
    pub proxy_max_speed: i64,
    pub proxy_max_concurrent: i32,
    pub download_domain: String,
    pub link_expiry_minutes: i32,
}

/// A stored text, or the default.
pub open spec fn read_text(v: Option<String>, default: Seq<char>) -> Seq<char> {
    match v { Some(s) => s@, None => default }
}

/// A stored flag: set only when it reads `true`.
pub open spec fn read_flag(v: Option<String>) -> bool {
    match v { Some(s) => s@ == "true"@, None => false }
}

/// A stored number of a type from `lo` to `hi`, or the default when none
/// is stored or it does not read as such a number.
pub open spec fn read_int(v: Option<String>, lo: int, hi: int, default: int) -> int {
    match v {
        Some(s) => match parse_int_spec(s@, lo, hi) { Some(n) => n, None => default },
        None => default,
    }
}

fn text_or(v: &Option<String>, default: &str) -> (r: String)
    ensures
        r@ == read_text(*v, default@),
{
    match v {
        Some(s) => copy_str(s.as_str()),
        None => String::from_str(default),
    }
}

pub(crate) fn flag_of(v: &Option<String>) -> (r: bool)
    ensures
        r == read_flag(*v),
{
    match v {
        Some(s) => str_eq(s.as_str(), "true"),
        None => false,
    }
}

fn i32_or(v: &Option<String>, default: i32) -> (r: i32)
    ensures
        r as int == read_int(*v, i32::MIN as int, i32::MAX as int, default as int),
{
    match v {
        Some(s) => match parse_i32(&chars_of(s.as_str())) {
            Some(n) => n,
            None => default,
        },
        None => default,
    }
}

fn i64_or(v: &Option<String>, default: i64) -> (r: i64)
    ensures
        r as int == read_int(*v, i64::MIN as int, i64::MAX as int, default as int),
{
    match v {
        Some(s) => match parse_i64(&chars_of(s.as_str())) {
            Some(n) => n,
            None => default,
        },
        None => default,
    }
}

/// `p` is what the public settings show of the stored values `s`.
pub open spec fn public_settings_of(s: StoredSettings, p: PublicSettings) -> bool {
    &&& p.site_title@ == read_text(s.site_title, "YaoList"@)
    &&& p.site_description@ == read_text(s.site_description, ""@)
    &&& p.site_icon@ == read_text(s.site_icon, "/favicon.ico"@)
    &&& p.allow_registration == read_flag(s.allow_registration)
    &&& p.default_user_group@ == read_text(s.default_user_group, ""@)
    &&& p.site_announcement@ == read_text(s.site_announcement, ""@)
    &&& p.robots_txt@ == read_text(s.robots_txt, ""@)
    &&& p.preview_encrypted_audio == read_flag(s.preview_encrypted_audio)
    &&& p.background_image@ == read_text(s.background_image, ""@)
    &&& p.glass_effect == read_flag(s.glass_effect)
    &&& p.glass_blur as int == read_int(s.glass_blur, i32::MIN as int, i32::MAX as int, 12)
    &&& p.glass_opacity as int == read_int(s.glass_opacity, i32::MIN as int, i32::MAX as int, 80)
    &&& p.proxy_max_speed as int == read_int(s.proxy_max_speed, i64::MIN as int, i64::MAX as int, 0)
    &&& p.proxy_max_concurrent as int == read_int(s.proxy_max_concurrent, i32::MIN as int, i32::MAX as int, 0)
    &&& p.download_domain@ == read_text(s.download_domain, ""@)
    &&& p.link_expiry_minutes as int == read_int(s.link_expiry_minutes, i32::MIN as int, i32::MAX as int, 15)
}

/// The public settings from the stored values: the title defaults to
/// `YaoList`, the icon to `/favicon.ico`, the glass blur to 12, its
/// opacity to 80, the link expiry to 15 minutes, the proxy limits to 0 (no
/// limit), the flags to off and the other texts to empty.
pub fn public_settings(s: &StoredSettings) -> (r: PublicSettings)
    ensures
        public_settings_of(*s, r),
{
    PublicSettings {
        site_title: text_or(&s.site_title, "YaoList"),
        site_description: text_or(&s.site_description, ""),
        site_icon: text_or(&s.site_icon, "/favicon.ico"),
        allow_registration: flag_of(&s.allow_registration),
        default_user_group: text_or(&s.default_user_group, ""),
        site_announcement: text_or(&s.site_announcement, ""),
        robots_txt: text_or(&s.robots_txt, ""),
        preview_encrypted_audio: flag_of(&s.preview_encrypted_audio),
        background_image: text_or(&s.background_image, ""),
        glass_effect: flag_of(&s.glass_effect),
        glass_blur: i32_or(&s.glass_blur, 12),
        glass_opacity: i32_or(&s.glass_opacity, 80),
        proxy_max_speed: i64_or(&s.proxy_max_speed, 0),
        proxy_max_concurrent: i32_or(&s.proxy_max_concurrent, 0),
        download_domain: text_or(&s.download_domain, ""),
        link_expiry_minutes: i32_or(&s.link_expiry_minutes, 15),
    }
}

/// Law: a flag written by a settings change reads back as written.
pub proof fn lemma_flag_reads_back(b: bool, stored: String)
    requires
        stored@ == flag_text(b),
    ensures
        read_flag(Some(stored)) == b,
{
    reveal_strlit("true");
    reveal_strlit("false");
    if !b {
        assert(stored@ != "true"@) by {
            assert(stored@[0] == 'f');
        }
    }
}

/// Law: a number written by a settings change reads back as written,
/// whatever the default.
pub proof fn lemma_number_reads_back(n: int, lo: int, hi: int, default: int, stored: String)
    requires
        lo <= n <= hi,
        stored@ == int_text(n),
    ensures
        read_int(Some(stored), lo, hi, default) == n,
{
    lemma_int_text_round_trip(n, lo, hi);
}


/// The value a store holds under `key` after the records `w` are written
/// in order over a store that held `prior`: the last record under the key,
/// else `prior`.
pub open spec fn last_write(w: Seq<(Seq<char>, Seq<char>)>, key: Seq<char>, prior: Option<Seq<char>>) -> Option<Seq<char>>
    decreases w.len(),
{
    if w.len() == 0 {
        prior
    } else if w.last().0 == key {
        Some(w.last().1)
    } else {
        last_write(w.drop_last(), key, prior)
    }
}

/// The stored settings `after` are those `before` once the records `w`
/// are written: each field holds the last record under its name, else what
/// it held.
pub open spec fn stored_after(before: StoredSettings, w: Seq<(Seq<char>, Seq<char>)>, after: StoredSettings) -> bool {
    &&& text_value(after.site_title) == last_write(w, "site_title"@, text_value(before.site_title))
    &&& text_value(after.site_description) == last_write(w, "site_description"@, text_value(before.site_description))
    &&& text_value(after.site_icon) == last_write(w, "site_icon"@, text_value(before.site_icon))
    &&& text_value(after.allow_registration) == last_write(w, "allow_registration"@, text_value(before.allow_registration))
    &&& text_value(after.default_user_group) == last_write(w, "default_user_group"@, text_value(before.default_user_group))
    &&& text_value(after.site_announcement) == last_write(w, "site_announcement"@, text_value(before.site_announcement))
    &&& text_value(after.robots_txt) == last_write(w, "robots_txt"@, text_value(before.robots_txt))
    &&& text_value(after.preview_encrypted_audio) == last_write(w, "preview_encrypted_audio"@, text_value(before.preview_encrypted_audio))
    &&& text_value(after.background_image) == last_write(w, "background_image"@, text_value(before.background_image))
    &&& text_value(after.glass_effect) == last_write(w, "glass_effect"@, text_value(before.glass_effect))
    &&& text_value(after.glass_blur) == last_write(w, "glass_blur"@, text_value(before.glass_blur))
    &&& text_value(after.glass_opacity) == last_write(w, "glass_opacity"@, text_value(before.glass_opacity))
    &&& text_value(after.proxy_max_speed) == last_write(w, "proxy_max_speed"@, text_value(before.proxy_max_speed))
    &&& text_value(after.proxy_max_concurrent) == last_write(w, "proxy_max_concurrent"@, text_value(before.proxy_max_concurrent))
    &&& text_value(after.download_domain) == last_write(w, "download_domain"@, text_value(before.download_domain))
    &&& text_value(after.link_expiry_minutes) == last_write(w, "link_expiry_minutes"@, text_value(before.link_expiry_minutes))
}

proof fn lemma_last_write_step(
    a: Seq<(Seq<char>, Seq<char>)>,
    k2: Seq<char>,
    v: Option<Seq<char>>,
    key: Seq<char>,
    prior: Option<Seq<char>>,
)
    ensures
        last_write(a + write_of(k2, v), key, prior)
            == (if k2 == key && v is Some { v } else { last_write(a, key, prior) }),
{
    match v {
        Some(x) => {
            assert((a + seq![(k2, x)]).drop_last() =~= a);
        },
        None => {
            assert(a + write_of(k2, v) =~= a);
        },
    }
}

/// The names of the settings tell apart by their length and first letter.
proof fn lemma_setting_names_differ()
    ensures
        "site_title"@.len() == 10 && "site_title"@[0] == 's',
        "site_description"@.len() == 16 && "site_description"@[0] == 's',
        "site_icon"@.len() == 9 && "site_icon"@[0] == 's',
        "allow_registration"@.len() == 18 && "allow_registration"@[0] == 'a',
        "default_user_group"@.len() == 18 && "default_user_group"@[0] == 'd',
        "site_announcement"@.len() == 17 && "site_announcement"@[0] == 's',
        "robots_txt"@.len() == 10 && "robots_txt"@[0] == 'r',
        "preview_encrypted_audio"@.len() == 23 && "preview_encrypted_audio"@[0] == 'p',
        "background_image"@.len() == 16 && "background_image"@[0] == 'b',
        "glass_effect"@.len() == 12 && "glass_effect"@[0] == 'g',
        "glass_blur"@.len() == 10 && "glass_blur"@[0] == 'g',
        "glass_opacity"@.len() == 13 && "glass_opacity"@[0] == 'g',
        "proxy_max_speed"@.len() == 15 && "proxy_max_speed"@[0] == 'p',
        "proxy_max_concurrent"@.len() == 20 && "proxy_max_concurrent"@[0] == 'p',
        "download_domain"@.len() == 15 && "download_domain"@[0] == 'd',
        "link_expiry_minutes"@.len() == 19 && "link_expiry_minutes"@[0] == 'l',
{
    reveal_strlit("site_title");
    reveal_strlit("site_description");
    reveal_strlit("site_icon");
    reveal_strlit("allow_registration");
    reveal_strlit("default_user_group");
    reveal_strlit("site_announcement");
    reveal_strlit("robots_txt");
    reveal_strlit("preview_encrypted_audio");
    reveal_strlit("background_image");
    reveal_strlit("glass_effect");
    reveal_strlit("glass_blur");
    reveal_strlit("glass_opacity");
    reveal_strlit("proxy_max_speed");
    reveal_strlit("proxy_max_concurrent");
    reveal_strlit("download_domain");
    reveal_strlit("link_expiry_minutes");
}

/// The value a settings change gives for the setting named `key`, as
/// stored; `None` when it gives none.
pub open spec fn setting_given(r: UpdateSettingsRequest, key: Seq<char>) -> Option<Seq<char>> {
    if key == "site_title"@ {
        text_value(r.site_title)
    } else if key == "site_description"@ {
        text_value(r.site_description)
    } else if key == "site_icon"@ {
        text_value(r.site_icon)
    } else if key == "allow_registration"@ {
        flag_value(r.allow_registration)
    } else if key == "default_user_group"@ {
        text_value(r.default_user_group)
    } else if key == "site_announcement"@ {
        text_value(r.site_announcement)
    } else if key == "robots_txt"@ {
        text_value(r.robots_txt)
    } else if key == "preview_encrypted_audio"@ {
        flag_value(r.preview_encrypted_audio)
    } else if key == "background_image"@ {
        text_value(r.background_image)
    } else if key == "glass_effect"@ {
        flag_value(r.glass_effect)
    } else if key == "glass_blur"@ {
        int_value(opt_int(r.glass_blur))
    } else if key == "glass_opacity"@ {
        int_value(opt_int(r.glass_opacity))
    } else if key == "proxy_max_speed"@ {
        int_value(opt_int(r.proxy_max_speed))
    } else if key == "proxy_max_concurrent"@ {
        int_value(opt_int(r.proxy_max_concurrent))
    } else if key == "download_domain"@ {
        text_value(r.download_domain)
    } else if key == "link_expiry_minutes"@ {
        int_value(opt_int(r.link_expiry_minutes))
    } else {
        None
    }
}

#[verifier::rlimit(60)]
proof fn lemma_settings_last_write(r: UpdateSettingsRequest, key: Seq<char>, prior: Option<Seq<char>>)
    ensures
        last_write(settings_writes(r), key, prior) == (match setting_given(r, key) {
            Some(v) => Some(v),
            None => prior,
        }),
{
    lemma_setting_names_differ();
    let w0 = write_of("site_title"@, text_value(r.site_title));
    lemma_last_write_step(Seq::empty(), "site_title"@, text_value(r.site_title), key, prior);
    assert(Seq::<(Seq<char>, Seq<char>)>::empty() + w0 =~= w0);
    let w1 = w0 + write_of("site_description"@, text_value(r.site_description));
    lemma_last_write_step(w0, "site_description"@, text_value(r.site_description), key, prior);
    let w2 = w1 + write_of("site_icon"@, text_value(r.site_icon));
    lemma_last_write_step(w1, "site_icon"@, text_value(r.site_icon), key, prior);
    let w3 = w2 + write_of("allow_registration"@, flag_value(r.allow_registration));
    lemma_last_write_step(w2, "allow_registration"@, flag_value(r.allow_registration), key, prior);
    let w4 = w3 + write_of("default_user_group"@, text_value(r.default_user_group));
    lemma_last_write_step(w3, "default_user_group"@, text_value(r.default_user_group), key, prior);
    let w5 = w4 + write_of("site_announcement"@, text_value(r.site_announcement));
    lemma_last_write_step(w4, "site_announcement"@, text_value(r.site_announcement), key, prior);
    let w6 = w5 + write_of("robots_txt"@, text_value(r.robots_txt));
    lemma_last_write_step(w5, "robots_txt"@, text_value(r.robots_txt), key, prior);
    let w7 = w6 + write_of("preview_encrypted_audio"@, flag_value(r.preview_encrypted_audio));
    lemma_last_write_step(w6, "preview_encrypted_audio"@, flag_value(r.preview_encrypted_audio), key, prior);
    let w8 = w7 + write_of("background_image"@, text_value(r.background_image));
    lemma_last_write_step(w7, "background_image"@, text_value(r.background_image), key, prior);
    let w9 = w8 + write_of("glass_effect"@, flag_value(r.glass_effect));
    lemma_last_write_step(w8, "glass_effect"@, flag_value(r.glass_effect), key, prior);
    let w10 = w9 + write_of("glass_blur"@, int_value(opt_int(r.glass_blur)));
    lemma_last_write_step(w9, "glass_blur"@, int_value(opt_int(r.glass_blur)), key, prior);
    let w11 = w10 + write_of("glass_opacity"@, int_value(opt_int(r.glass_opacity)));
    lemma_last_write_step(w10, "glass_opacity"@, int_value(opt_int(r.glass_opacity)), key, prior);
    let w12 = w11 + write_of("proxy_max_speed"@, int_value(opt_int(r.proxy_max_speed)));
    lemma_last_write_step(w11, "proxy_max_speed"@, int_value(opt_int(r.proxy_max_speed)), key, prior);
    let w13 = w12 + write_of("proxy_max_concurrent"@, int_value(opt_int(r.proxy_max_concurrent)));
    lemma_last_write_step(w12, "proxy_max_concurrent"@, int_value(opt_int(r.proxy_max_concurrent)), key, prior);
    let w14 = w13 + write_of("download_domain"@, text_value(r.download_domain));
    lemma_last_write_step(w13, "download_domain"@, text_value(r.download_domain), key, prior);
    let w15 = w14 + write_of("link_expiry_minutes"@, int_value(opt_int(r.link_expiry_minutes)));
    lemma_last_write_step(w14, "link_expiry_minutes"@, int_value(opt_int(r.link_expiry_minutes)), key, prior);
    assert(w15 == settings_writes(r));
}

proof fn lemma_text_back(after: Option<String>, before: Option<String>, given: Option<String>, d: Seq<char>)
    requires
        text_value(after) == (match text_value(given) { Some(v) => Some(v), None => text_value(before) }),
    ensures
        read_text(after, d) == (match given { Some(v) => v@, None => read_text(before, d) }),
{
}

proof fn lemma_flag_back(after: Option<String>, before: Option<String>, given: Option<bool>)
    requires
        text_value(after) == (match flag_value(given) { Some(v) => Some(v), None => text_value(before) }),
    ensures
        read_flag(after) == (match given { Some(b) => b, None => read_flag(before) }),
{
    if let Some(b) = given {
        lemma_flag_reads_back(b, after->0);
    }
}

proof fn lemma_int_back(after: Option<String>, before: Option<String>, given: Option<int>, lo: int, hi: int, d: int)
    requires
        given matches Some(n) ==> lo <= n <= hi,
        text_value(after) == (match int_value(given) { Some(v) => Some(v), None => text_value(before) }),
    ensures
        read_int(after, lo, hi, d) == (match given { Some(n) => n, None => read_int(before, lo, hi, d) }),
{
    if let Some(n) = given {
        lemma_number_reads_back(n, lo, hi, d, after->0);
    }
}

/// Law: after a whole settings change is written, the public settings read
/// back every field the change gives, and every other field as it was.
pub proof fn lemma_update_reads_back(r: UpdateSettingsRequest, before: StoredSettings, after: StoredSettings)
    requires
        stored_after(before, settings_writes(r), after),
    ensures
        read_text(after.site_title, "YaoList"@) == (match r.site_title { Some(v) => v@, None => read_text(before.site_title, "YaoList"@) }),
        read_text(after.site_description, ""@) == (match r.site_description { Some(v) => v@, None => read_text(before.site_description, ""@) }),
        read_text(after.site_icon, "/favicon.ico"@) == (match r.site_icon { Some(v) => v@, None => read_text(before.site_icon, "/favicon.ico"@) }),
        read_flag(after.allow_registration) == (match r.allow_registration { Some(b) => b, None => read_flag(before.allow_registration) }),
        read_text(after.default_user_group, ""@) == (match r.default_user_group { Some(v) => v@, None => read_text(before.default_user_group, ""@) }),
        read_text(after.site_announcement, ""@) == (match r.site_announcement { Some(v) => v@, None => read_text(before.site_announcement, ""@) }),
        read_text(after.robots_txt, ""@) == (match r.robots_txt { Some(v) => v@, None => read_text(before.robots_txt, ""@) }),
        read_flag(after.preview_encrypted_audio) == (match r.preview_encrypted_audio { Some(b) => b, None => read_flag(before.preview_encrypted_audio) }),
        read_text(after.background_image, ""@) == (match r.background_image { Some(v) => v@, None => read_text(before.background_image, ""@) }),
        read_flag(after.glass_effect) == (match r.glass_effect { Some(b) => b, None => read_flag(before.glass_effect) }),
        read_int(after.glass_blur, i32::MIN as int, i32::MAX as int, 12) == (match r.glass_blur { Some(n) => n as int, None => read_int(before.glass_blur, i32::MIN as int, i32::MAX as int, 12) }),
        read_int(after.glass_opacity, i32::MIN as int, i32::MAX as int, 80) == (match r.glass_opacity { Some(n) => n as int, None => read_int(before.glass_opacity, i32::MIN as int, i32::MAX as int, 80) }),
        read_int(after.proxy_max_speed, i64::MIN as int, i64::MAX as int, 0) == (match r.proxy_max_speed { Some(n) => n as int, None => read_int(before.proxy_max_speed, i64::MIN as int, i64::MAX as int, 0) }),
        read_int(after.proxy_max_concurrent, i32::MIN as int, i32::MAX as int, 0) == (match r.proxy_max_concurrent { Some(n) => n as int, None => read_int(before.proxy_max_concurrent, i32::MIN as int, i32::MAX as int, 0) }),
        read_text(after.download_domain, ""@) == (match r.download_domain { Some(v) => v@, None => read_text(before.download_domain, ""@) }),
        read_int(after.link_expiry_minutes, i32::MIN as int, i32::MAX as int, 15) == (match r.link_expiry_minutes { Some(n) => n as int, None => read_int(before.link_expiry_minutes, i32::MIN as int, i32::MAX as int, 15) }),
{
    assert(read_text(after.site_title, "YaoList"@) == (match r.site_title { Some(v) => v@, None => read_text(before.site_title, "YaoList"@) })) by {
        assert(setting_given(r, "site_title"@) == text_value(r.site_title)) by { lemma_setting_names_differ(); }
        lemma_settings_last_write(r, "site_title"@, text_value(before.site_title));
        lemma_text_back(after.site_title, before.site_title, r.site_title, "YaoList"@);
    }
    assert(read_text(after.site_description, ""@) == (match r.site_description { Some(v) => v@, None => read_text(before.site_description, ""@) })) by {
        assert(setting_given(r, "site_description"@) == text_value(r.site_description)) by { lemma_setting_names_differ(); }
        lemma_settings_last_write(r, "site_description"@, text_value(before.site_description));
        lemma_text_back(after.site_description, before.site_description, r.site_description, ""@);
    }
    assert(read_text(after.site_icon, "/favicon.ico"@) == (match r.site_icon { Some(v) => v@, None => read_text(before.site_icon, "/favicon.ico"@) })) by {
        assert(setting_given(r, "site_icon"@) == text_value(r.site_icon)) by { lemma_setting_names_differ(); }
        lemma_settings_last_write(r, "site_icon"@, text_value(before.site_icon));
        lemma_text_back(after.site_icon, before.site_icon, r.site_icon, "/favicon.ico"@);
    }
    assert(read_flag(after.allow_registration) == (match r.allow_registration { Some(b) => b, None => read_flag(before.allow_registration) })) by {
        assert(setting_given(r, "allow_registration"@) == flag_value(r.allow_registration)) by { lemma_setting_names_differ(); }
        lemma_settings_last_write(r, "allow_registration"@, text_value(before.allow_registration));
        lemma_flag_back(after.allow_registration, before.allow_registration, r.allow_registration);
    }
    assert(read_text(after.default_user_group, ""@) == (match r.default_user_group { Some(v) => v@, None => read_text(before.default_user_group, ""@) })) by {
        assert(setting_given(r, "default_user_group"@) == text_value(r.default_user_group)) by { lemma_setting_names_differ(); }
        lemma_settings_last_write(r, "default_user_group"@, text_value(before.default_user_group));
        lemma_text_back(after.default_user_group, before.default_user_group, r.default_user_group, ""@);
    }
    assert(read_text(after.site_announcement, ""@) == (match r.site_announcement { Some(v) => v@, None => read_text(before.site_announcement, ""@) })) by {
        assert(setting_given(r, "site_announcement"@) == text_value(r.site_announcement)) by { lemma_setting_names_differ(); }
        lemma_settings_last_write(r, "site_announcement"@, text_value(before.site_announcement));
        lemma_text_back(after.site_announcement, before.site_announcement, r.site_announcement, ""@);
    }
    assert(read_text(after.robots_txt, ""@) == (match r.robots_txt { Some(v) => v@, None => read_text(before.robots_txt, ""@) })) by {
        assert(setting_given(r, "robots_txt"@) == text_value(r.robots_txt)) by { lemma_setting_names_differ(); }
        lemma_settings_last_write(r, "robots_txt"@, text_value(before.robots_txt));
        lemma_text_back(after.robots_txt, before.robots_txt, r.robots_txt, ""@);
    }
    assert(read_flag(after.preview_encrypted_audio) == (match r.preview_encrypted_audio { Some(b) => b, None => read_flag(before.preview_encrypted_audio) })) by {
        assert(setting_given(r, "preview_encrypted_audio"@) == flag_value(r.preview_encrypted_audio)) by { lemma_setting_names_differ(); }
        lemma_settings_last_write(r, "preview_encrypted_audio"@, text_value(before.preview_encrypted_audio));
        lemma_flag_back(after.preview_encrypted_audio, before.preview_encrypted_audio, r.preview_encrypted_audio);
    }
    assert(read_text(after.background_image, ""@) == (match r.background_image { Some(v) => v@, None => read_text(before.background_image, ""@) })) by {
        assert(setting_given(r, "background_image"@) == text_value(r.background_image)) by { lemma_setting_names_differ(); }
        lemma_settings_last_write(r, "background_image"@, text_value(before.background_image));
        lemma_text_back(after.background_image, before.background_image, r.background_image, ""@);
    }
    assert(read_flag(after.glass_effect) == (match r.glass_effect { Some(b) => b, None => read_flag(before.glass_effect) })) by {
        assert(setting_given(r, "glass_effect"@) == flag_value(r.glass_effect)) by { lemma_setting_names_differ(); }
        lemma_settings_last_write(r, "glass_effect"@, text_value(before.glass_effect));
        lemma_flag_back(after.glass_effect, before.glass_effect, r.glass_effect);
    }
    assert(read_int(after.glass_blur, i32::MIN as int, i32::MAX as int, 12) == (match r.glass_blur { Some(n) => n as int, None => read_int(before.glass_blur, i32::MIN as int, i32::MAX as int, 12) })) by {
        assert(setting_given(r, "glass_blur"@) == int_value(opt_int(r.glass_blur))) by { lemma_setting_names_differ(); }
        lemma_settings_last_write(r, "glass_blur"@, text_value(before.glass_blur));
        lemma_int_back(after.glass_blur, before.glass_blur, opt_int(r.glass_blur), i32::MIN as int, i32::MAX as int, 12);
    }
    assert(read_int(after.glass_opacity, i32::MIN as int, i32::MAX as int, 80) == (match r.glass_opacity { Some(n) => n as int, None => read_int(before.glass_opacity, i32::MIN as int, i32::MAX as int, 80) })) by {
        assert(setting_given(r, "glass_opacity"@) == int_value(opt_int(r.glass_opacity))) by { lemma_setting_names_differ(); }
        lemma_settings_last_write(r, "glass_opacity"@, text_value(before.glass_opacity));
        lemma_int_back(after.glass_opacity, before.glass_opacity, opt_int(r.glass_opacity), i32::MIN as int, i32::MAX as int, 80);
    }
    assert(read_int(after.proxy_max_speed, i64::MIN as int, i64::MAX as int, 0) == (match r.proxy_max_speed { Some(n) => n as int, None => read_int(before.proxy_max_speed, i64::MIN as int, i64::MAX as int, 0) })) by {
        assert(setting_given(r, "proxy_max_speed"@) == int_value(opt_int(r.proxy_max_speed))) by { lemma_setting_names_differ(); }
        lemma_settings_last_write(r, "proxy_max_speed"@, text_value(before.proxy_max_speed));
        lemma_int_back(after.proxy_max_speed, before.proxy_max_speed, opt_int(r.proxy_max_speed), i64::MIN as int, i64::MAX as int, 0);
    }
    assert(read_int(after.proxy_max_concurrent, i32::MIN as int, i32::MAX as int, 0) == (match r.proxy_max_concurrent { Some(n) => n as int, None => read_int(before.proxy_max_concurrent, i32::MIN as int, i32::MAX as int, 0) })) by {
        assert(setting_given(r, "proxy_max_concurrent"@) == int_value(opt_int(r.proxy_max_concurrent))) by { lemma_setting_names_differ(); }
        lemma_settings_last_write(r, "proxy_max_concurrent"@, text_value(before.proxy_max_concurrent));
        lemma_int_back(after.proxy_max_concurrent, before.proxy_max_concurrent, opt_int(r.proxy_max_concurrent), i32::MIN as int, i32::MAX as int, 0);
    }
    assert(read_text(after.download_domain, ""@) == (match r.download_domain { Some(v) => v@, None => read_text(before.download_domain, ""@) })) by {
        assert(setting_given(r, "download_domain"@) == text_value(r.download_domain)) by { lemma_setting_names_differ(); }
        lemma_settings_last_write(r, "download_domain"@, text_value(before.download_domain));
        lemma_text_back(after.download_domain, before.download_domain, r.download_domain, ""@);
    }
    assert(read_int(after.link_expiry_minutes, i32::MIN as int, i32::MAX as int, 15) == (match r.link_expiry_minutes { Some(n) => n as int, None => read_int(before.link_expiry_minutes, i32::MIN as int, i32::MAX as int, 15) })) by {
        assert(setting_given(r, "link_expiry_minutes"@) == int_value(opt_int(r.link_expiry_minutes))) by { lemma_setting_names_differ(); }
        lemma_settings_last_write(r, "link_expiry_minutes"@, text_value(before.link_expiry_minutes));
        lemma_int_back(after.link_expiry_minutes, before.link_expiry_minutes, opt_int(r.link_expiry_minutes), i32::MIN as int, i32::MAX as int, 15);
    }
}


/// Law: a settings change written to the store and read back through the
/// public settings shows every field it gives as given, and every other
/// field as it was shown before.
pub proof fn lemma_settings_round_trip(
    r: UpdateSettingsRequest,
    before: StoredSettings,
    after: StoredSettings,
    shown_before: PublicSettings,
    shown_after: PublicSettings,
)
    requires
        stored_after(before, settings_writes(r), after),
        public_settings_of(before, shown_before),
        public_settings_of(after, shown_after),
    ensures
        shown_after.site_title@ == (match r.site_title { Some(v) => v@, None => shown_before.site_title@ }),
        shown_after.site_description@ == (match r.site_description { Some(v) => v@, None => shown_before.site_description@ }),
        shown_after.site_icon@ == (match r.site_icon { Some(v) => v@, None => shown_before.site_icon@ }),
        shown_after.allow_registration == (match r.allow_registration { Some(b) => b, None => shown_before.allow_registration }),
        shown_after.default_user_group@ == (match r.default_user_group { Some(v) => v@, None => shown_before.default_user_group@ }),
        shown_after.site_announcement@ == (match r.site_announcement { Some(v) => v@, None => shown_before.site_announcement@ }),
        shown_after.robots_txt@ == (match r.robots_txt { Some(v) => v@, None => shown_before.robots_txt@ }),
        shown_after.preview_encrypted_audio == (match r.preview_encrypted_audio { Some(b) => b, None => shown_before.preview_encrypted_audio }),
        shown_after.background_image@ == (match r.background_image { Some(v) => v@, None => shown_before.background_image@ }),
        shown_after.glass_effect == (match r.glass_effect { Some(b) => b, None => shown_before.glass_effect }),
        shown_after.glass_blur as int == (match r.glass_blur { Some(n) => n as int, None => shown_before.glass_blur as int }),
        shown_after.glass_opacity as int == (match r.glass_opacity { Some(n) => n as int, None => shown_before.glass_opacity as int }),
        shown_after.proxy_max_speed as int == (match r.proxy_max_speed { Some(n) => n as int, None => shown_before.proxy_max_speed as int }),
        shown_after.proxy_max_concurrent as int == (match r.proxy_max_concurrent { Some(n) => n as int, None => shown_before.proxy_max_concurrent as int }),
        shown_after.download_domain@ == (match r.download_domain { Some(v) => v@, None => shown_before.download_domain@ }),
        shown_after.link_expiry_minutes as int == (match r.link_expiry_minutes { Some(n) => n as int, None => shown_before.link_expiry_minutes as int }),
{
    lemma_update_reads_back(r, before, after);
}

} // verus!
