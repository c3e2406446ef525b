//! Storage drivers: the name a driver is listed under, the settings form
//! of a kind of driver, the device id of a Thunder login, and the answer
//! to a Thunder login that may send a code.

use vstd::prelude::*;
use crate::api::{Refusal, refuse};
use crate::digest::{hex_lower, hex_encode, md5, md5_digest};
use crate::text::{chars_of, string_of, concat_chars, copy_str, chars_has_infix, has_infix, pieces, split_text};
use crate::api::files::list::opt_view;
use crate::num::{int_text, i64_to_decimal};

verus! {

/// The name a driver is listed under: its mount path, else its type.
pub fn driver_display_name(mount_path: Option<&str>, driver_type: &str) -> (r: String)
    ensures
        r@ == (match mount_path {
            Some(m) => m@,
            None => driver_type@,
        }),
{
    match mount_path {
        Some(m) => copy_str(m),
        None => copy_str(driver_type),
    }
}

/// The device id of a Thunder login: the MD5 of the user name followed by
/// the password, in lower-case hexadecimal. Both must be given (else 400).
pub fn thunder_device_id(username: &str, password: &str) -> (r: Result<String, Refusal>)
    ensures
        (username@.len() == 0 || password@.len() == 0) ==> (r matches Err(e) && e.code == 400
            && e.message@ == "请先填写手机号和密码"@),
        (username@.len() > 0 && password@.len() > 0) ==> (r matches Ok(d)
            && d@ == hex_lower(md5(vstd::utf8::encode_utf8(username@ + password@)))),
{
    if chars_of(username).len() == 0 || chars_of(password).len() == 0 {
        return Err(refuse(400, "请先填写手机号和密码"));
    }
    let input = string_of(&concat_chars(&chars_of(username), &chars_of(password)));
    let d = md5_digest(input.as_str().as_bytes());
    Ok(hex_encode(d.as_slice()))
}

/// The answer to a Thunder login meant to send a code: a login that went
/// through needs no code (200); a failure whose message says the code was
/// sent is answered 200 with it; any other failure 400 with its message.
pub fn thunder_login_answer(failure: Option<&str>) -> (r: (u16, String))
    ensures
        failure is None ==> r.0 == 200 && r.1@ == "登录成功，无需验证码"@,
        failure matches Some(m) ==> r.1@ == m@ && r.0 == (if has_infix(m@, "验证码已发送"@) { 200u16 } else { 400u16 }),
{
    match failure {
        None => (200, copy_str("登录成功，无需验证码")),
        Some(m) => {
            let sent = chars_has_infix(&chars_of(m), &chars_of("验证码已发送"));
            (if sent { 200 } else { 400 }, copy_str(m))
        },
    }
}


/// One setting that a kind of storage driver asks for.
#[derive(Debug, Clone)]
pub struct DriverConfigItem {
    pub name: String,
    pub item_type: String,
    pub title: Option<String>,
    pub help: Option<String>,
    pub default: Option<String>,
    /// The choices, separated by commas.
    pub options: Option<String>,
    pub link: Option<String>,
    pub required: bool,
}

/// One field of the settings form of a kind of driver.
#[derive(Debug)]
pub struct SchemaProperty {
    pub name: String,
    pub item_type: String,
    pub title: String,
    /// The place of the setting among those the driver asks for.
    pub order: usize,
    pub description: Option<String>,
    pub default: Option<String>,
    pub choices: Option<Vec<String>>,
    pub link: Option<String>,
}

/// The settings form of a kind of driver: one field per setting, in the
/// driver's order, and the names of the settings that must be filled.
#[derive(Debug)]
pub struct ConfigSchema {
    pub properties: Vec<SchemaProperty>,
    pub required: Vec<String>,
}

/// The choices a field offers: the options split at commas.
pub open spec fn choices_view(o: Option<Vec<String>>) -> Option<Seq<Seq<char>>> {
    match o {
        Some(v) => Some(v@.map_values(|c: String| c@)),
        None => None,
    }
}

/// The field of the settings form for the setting `item`, the `i`-th one.
pub open spec fn property_for(item: DriverConfigItem, i: int, p: SchemaProperty) -> bool {
    &&& p.name@ == item.name@
    &&& p.item_type@ == item.item_type@
    &&& p.title@ == (match item.title {
        Some(t) => t@,
        None => item.name@,
    })
    &&& p.order == i
    &&& opt_view(p.description) == opt_view(item.help)
    &&& opt_view(p.default) == opt_view(item.default)
    &&& choices_view(p.choices) == (match item.options {
        Some(o) => Some(pieces(o@, ',')),
        None => None,
    })
    &&& opt_view(p.link) == opt_view(item.link)
}

/// The names of the settings that must be filled, in order.
pub open spec fn required_names(items: Seq<DriverConfigItem>) -> Seq<Seq<char>>
    decreases items.len(),
{
    if items.len() == 0 {
        Seq::empty()
    } else {
        let r = required_names(items.drop_last());
        if items.last().required { r.push(items.last().name@) } else { r }
    }
}

fn opt_text(t: &Option<String>) -> (r: Option<String>)
    ensures
        opt_view(r) == opt_view(*t),
{
    match t {
        Some(s) => Some(copy_str(s.as_str())),
        None => None,
    }
}

/// The settings form of a kind of driver, from the settings it asks for:
/// each field titled by the setting's title, else its name, numbered by
/// its place, its choices split at commas.
pub fn config_schema(items: &Vec<DriverConfigItem>) -> (r: ConfigSchema)
    ensures
        r.properties.len() == items.len(),
        forall|i: int| 0 <= i < items.len() ==> #[trigger] property_for(items[i], i, r.properties[i]),
        r.required@.map_values(|n: String| n@) == required_names(items@),
{
    let mut properties: Vec<SchemaProperty> = Vec::new();
    let mut required: Vec<String> = Vec::new();
    let mut i: usize = 0;
    while i < items.len()
        invariant
            i <= items.len(),
            properties.len() == i,
            forall|k: int| 0 <= k < i ==> #[trigger] property_for(items[k], k, properties[k]),
            required@.map_values(|n: String| n@) == required_names(items@.take(i as int)),
        decreases items.len() - i,
    {
        let item = &items[i];
        let title = match &item.title {
            Some(t) => copy_str(t.as_str()),
            None => copy_str(item.name.as_str()),
        };
        let choices = match &item.options {
            Some(o) => Some(split_text(o.as_str(), ',')),
            None => None,
        };
        let p = SchemaProperty {
            name: copy_str(item.name.as_str()),
            item_type: copy_str(item.item_type.as_str()),
            title,
            order: i,
            description: opt_text(&item.help),
            default: opt_text(&item.default),
            choices,
            link: opt_text(&item.link),
        };
        assert(property_for(items[i as int], i as int, p));
        properties.push(p);
        assert(items@.take((i + 1) as int).drop_last() =~= items@.take(i as int));
        if item.required {
            let ghost before = required@.map_values(|n: String| n@);
            required.push(copy_str(item.name.as_str()));
            assert(required@.map_values(|n: String| n@) =~= before.push(items[i as int].name@));
        }
        i = i + 1;
    }
    assert(items@.take(items.len() as int) =~= items@);
    ConfigSchema { properties, required }
}


/// The id a new driver is stored under: one more than the largest numeric
/// id in use (none in use counts as 0), in decimal.
pub fn next_driver_id(largest: Option<i64>) -> (r: String)
    requires
        largest matches Some(m) ==> m < i64::MAX,
    ensures
        r@ == int_text((match largest {
            Some(m) => m as int,
            None => 0int,
        }) + 1),
{
    let base: i64 = match largest {
        Some(m) => m,
        None => 0,
    };
    string_of(&i64_to_decimal(base + 1))
}

} // verus!
