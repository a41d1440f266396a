//! Defaults and bounds of single settings.
use vstd::prelude::*;

use super::types::{relay_profile_views, RelayProfile, RelayProfileView};
use crate::text::{same_text, texts, trim, trimmed};

verus! {

pub fn default_stepwise_api_key_env() -> (r: String)
    ensures
        r@ == "CODEX_STEPWISE_API_KEY"@,
{
    "CODEX_STEPWISE_API_KEY".to_owned()
}

pub fn default_stepwise_protocol() -> (r: String)
    ensures
        r@ == "chat_completions"@,
{
    "chat_completions".to_owned()
}

pub open spec fn is_stepwise_protocol(s: Seq<char>) -> bool {
    s == "chat_completions"@ || s == "responses"@ || s == "anthropic_messages"@ || s == "auto"@
}

/// A known protocol without the space around it, or the default one.
pub open spec fn stepwise_protocol(s: Seq<char>) -> Seq<char> {
    if is_stepwise_protocol(trimmed(s)) {
        trimmed(s)
    } else {
        "chat_completions"@
    }
}

pub fn normalize_stepwise_protocol(value: &str) -> (r: String)
    ensures
        r@ == stepwise_protocol(value@),
{
    let value = trim(value);
    if same_text(value, "chat_completions") || same_text(value, "responses") || same_text(
        value,
        "anthropic_messages",
    ) || same_text(value, "auto") {
        value.to_owned()
    } else {
        default_stepwise_protocol()
    }
}

pub fn default_stepwise_max_items() -> (r: u8)
    ensures
        r == 6,
{
    6
}

pub fn default_stepwise_max_input_chars() -> (r: u32)
    ensures
        r == 6000,
{
    6000
}

pub fn default_stepwise_max_output_tokens() -> (r: u32)
    ensures
        r == 500,
{
    500
}

pub fn default_stepwise_timeout_ms() -> (r: u64)
    ensures
        r == 8000,
{
    8000
}

pub fn default_image_overlay_opacity() -> (r: u8)
    ensures
        r == 35,
{
    35
}

/// A number kept between two bounds.
pub open spec fn clamped(value: int, low: int, high: int) -> int {
    if value < low {
        low
    } else if value > high {
        high
    } else {
        value
    }
}

pub fn clamp_image_overlay_opacity(value: u8) -> (r: u8)
    ensures
        r == clamped(value as int, 1, 100),
{
    if value < 1 {
        1
    } else if value > 100 {
        100
    } else {
        value
    }
}

pub fn default_image_overlay_fit_mode() -> (r: String)
    ensures
        r@ == "fit"@,
{
    "fit".to_owned()
}

pub open spec fn is_fit_mode(s: Seq<char>) -> bool {
    s == "fill"@ || s == "fit"@ || s == "stretch"@ || s == "tile"@ || s == "center"@
}

pub open spec fn fit_mode(s: Seq<char>) -> Seq<char> {
    if is_fit_mode(s) {
        s
    } else {
        "fit"@
    }
}

pub fn normalize_image_overlay_fit_mode(value: &str) -> (r: String)
    ensures
        r@ == fit_mode(value@),
{
    if same_text(value, "fill") || same_text(value, "fit") || same_text(value, "stretch")
        || same_text(value, "tile") || same_text(value, "center") {
        value.to_owned()
    } else {
        default_image_overlay_fit_mode()
    }
}

pub fn default_dream_skin_theme() -> (r: String)
    ensures
        r@ == "pink"@,
{
    "pink".to_owned()
}

pub open spec fn is_dream_skin_theme(s: Seq<char>) -> bool {
    s == "pink"@ || s == "luckyGod"@ || s == "redWhite"@ || s == "clearGlass"@ || s
        == "inspiration"@ || s == "purpleNight"@ || s == "miku"@ || s == "blackGold"@
}

/// A known theme without the space around it, or the default one.
pub open spec fn dream_skin_theme(s: Seq<char>) -> Seq<char> {
    if is_dream_skin_theme(trimmed(s)) {
        trimmed(s)
    } else {
        "pink"@
    }
}

pub fn normalize_dream_skin_theme(value: &str) -> (r: String)
    ensures
        r@ == dream_skin_theme(value@),
{
    let value = trim(value);
    if same_text(value, "pink") || same_text(value, "luckyGod") || same_text(value, "redWhite")
        || same_text(value, "clearGlass") || same_text(value, "inspiration") || same_text(
        value,
        "purpleNight",
    ) || same_text(value, "miku") || same_text(value, "blackGold") {
        value.to_owned()
    } else {
        default_dream_skin_theme()
    }
}

/// The layout of a theme that names none itself.
pub open spec fn layout_of_theme(id: Seq<char>) -> Seq<char> {
    if id == "caishen-lite"@ || id == "caishen-max"@ || id == "caishen-readable"@ || id
        == "export-night"@ || id == "global-founder-bright"@ || id == "mythic-guardian-noir"@ || id
        == "glass-vision"@ {
        id
    } else if id == "codex-snow-skin"@ {
        "codex-snow"@
    } else if id == "preset-midnight-aurora"@ {
        "midnight-aurora"@
    } else if id == "preset-amber-dusk"@ {
        "amber-dusk"@
    } else if id == "preset-forest-mist"@ {
        "forest-mist"@
    } else if id == "preset-cyber-neon"@ {
        "cyber-neon"@
    } else if id == "preset-sakura-dawn"@ {
        "sakura-dawn"@
    } else {
        "dream-original"@
    }
}

/// The layout of a theme: the one it names, unless that is the original one, else the one that
/// goes with its id.
pub open spec fn style_preset(id: Seq<char>, named: Seq<char>) -> Seq<char> {
    if trimmed(named).len() > 0 && trimmed(named) != "dream-original"@ {
        trimmed(named)
    } else {
        layout_of_theme(trimmed(id))
    }
}

pub fn resolve_dream_skin_style_preset(id: &str, style_preset: &str) -> (r: String)
    ensures
        r@ == self::style_preset(id@, style_preset@),
{
    let named = trim(style_preset);
    if !named.is_empty() && !same_text(named, "dream-original") {
        return named.to_owned();
    }
    let id = trim(id);
    if same_text(id, "caishen-lite") || same_text(id, "caishen-max") || same_text(
        id,
        "caishen-readable",
    ) || same_text(id, "export-night") || same_text(id, "global-founder-bright") || same_text(
        id,
        "mythic-guardian-noir",
    ) || same_text(id, "glass-vision") {
        id.to_owned()
    } else if same_text(id, "codex-snow-skin") {
        "codex-snow".to_owned()
    } else if same_text(id, "preset-midnight-aurora") {
        "midnight-aurora".to_owned()
    } else if same_text(id, "preset-amber-dusk") {
        "amber-dusk".to_owned()
    } else if same_text(id, "preset-forest-mist") {
        "forest-mist".to_owned()
    } else if same_text(id, "preset-cyber-neon") {
        "cyber-neon".to_owned()
    } else if same_text(id, "preset-sakura-dawn") {
        "sakura-dawn".to_owned()
    } else {
        "dream-original".to_owned()
    }
}

pub fn clamp_stepwise_max_items(value: u8) -> (r: u8)
    ensures
        r == clamped(value as int, 0, 6),
{
    if value > default_stepwise_max_items() {
        default_stepwise_max_items()
    } else {
        value
    }
}

pub fn clamp_stepwise_max_input_chars(value: u32) -> (r: u32)
    ensures
        r == clamped(value as int, 1000, 24000),
{
    if value < 1000 {
        1000
    } else if value > 24000 {
        24000
    } else {
        value
    }
}

pub fn clamp_stepwise_max_output_tokens(value: u32) -> (r: u32)
    ensures
        r == clamped(value as int, 100, 4000),
{
    if value < 100 {
        100
    } else if value > 4000 {
        4000
    } else {
        value
    }
}

pub fn clamp_stepwise_timeout_ms(value: u64) -> (r: u64)
    ensures
        r == clamped(value as int, 1000, 60000),
{
    if value < 1000 {
        1000
    } else if value > 60000 {
        60000
    } else {
        value
    }
}

pub fn default_true() -> (r: bool)
    ensures
        r,
{
    true
}

pub fn default_relay_base_url() -> (r: String)
    ensures
        r@ == Seq::<char>::empty(),
{
    let r = String::new();
    assert(r@ =~= Seq::empty());
    r
}

pub open spec fn weixin_base_url() -> Seq<char> {
    "https://ilinkai.weixin.qq.com"@
}

pub fn default_weixin_connect_base_url() -> (r: String)
    ensures
        r@ == weixin_base_url(),
{
    "https://ilinkai.weixin.qq.com".to_owned()
}

pub fn default_weixin_connect_sandbox() -> (r: String)
    ensures
        r@ == "read-only"@,
{
    "read-only".to_owned()
}

/// What the sandbox of a connection may be; anything else is read-only.
pub open spec fn weixin_sandbox(s: Seq<char>) -> Seq<char> {
    if trimmed(s) == "workspace-write"@ || trimmed(s) == "danger-full-access"@ {
        trimmed(s)
    } else {
        "read-only"@
    }
}

pub fn normalize_weixin_connect_sandbox(value: &str) -> (r: String)
    ensures
        r@ == weixin_sandbox(value@),
{
    let value = trim(value);
    if same_text(value, "workspace-write") || same_text(value, "danger-full-access") {
        value.to_owned()
    } else {
        default_weixin_connect_sandbox()
    }
}

pub fn default_active_relay_id() -> (r: String)
    ensures
        r@ == "default"@,
{
    "default".to_owned()
}

pub fn default_relay_test_model() -> (r: String)
    ensures
        r@ == "gpt-5.4-mini"@,
{
    "gpt-5.4-mini".to_owned()
}

pub fn default_relay_profiles() -> (r: Vec<RelayProfile>)
    ensures
        relay_profile_views(r@) == seq![RelayProfileView::default()],
{
    let r: Vec<RelayProfile> = vec![RelayProfile::default()];
    assert(relay_profile_views(r@) =~= seq![RelayProfileView::default()]);
    r
}

pub fn default_aggregate_member_weight() -> (r: u32)
    ensures
        r == 1,
{
    1
}

/// The texts that hold more than white space, trimmed.
pub open spec fn filled(list: Seq<Seq<char>>) -> Seq<Seq<char>>
    decreases list.len(),
{
    if list.len() == 0 {
        Seq::empty()
    } else {
        let before = filled(list.drop_last());
        if trimmed(list.last()).len() > 0 {
            before.push(trimmed(list.last()))
        } else {
            before
        }
    }
}

pub fn normalize_codex_extra_args(args: &[String]) -> (r: Vec<String>)
    ensures
        texts(r@) == filled(texts(args@)),
{
    let mut r: Vec<String> = Vec::new();
    let ghost all = texts(args@);
    assert(texts(r@) =~= filled(all.take(0)));
    for i in 0..args.len()
        invariant
            all == texts(args@),
            texts(r@) == filled(all.take(i as int)),
    {
        proof {
            assert(all.take(i + 1).drop_last() =~= all.take(i as int));
            assert(all.take(i + 1).last() == args@[i as int]@);
        }
        let arg = trim(args[i].as_str());
        if !arg.is_empty() {
            let ghost before = texts(r@);
            r.push(arg.to_owned());
            assert(texts(r@) =~= before.push(arg@));
        }
    }
    assert(all.take(args@.len() as int) =~= all);
    r
}

/// A stored name of the key's variable; an empty or missing one is the default.
pub fn stored_stepwise_api_key_env(value: Option<String>) -> (r: String)
    ensures
        r@ == (match value {
            Some(name) => if name@.len() > 0 {
                name@
            } else {
                "CODEX_STEPWISE_API_KEY"@
            },
            None => "CODEX_STEPWISE_API_KEY"@,
        }),
{
    match value {
        Some(name) => if name.as_str().is_empty() {
            default_stepwise_api_key_env()
        } else {
            name
        },
        None => default_stepwise_api_key_env(),
    }
}

pub fn stored_stepwise_protocol(value: Option<String>) -> (r: String)
    ensures
        r@ == (match value {
            Some(name) => stepwise_protocol(name@),
            None => "chat_completions"@,
        }),
{
    match value {
        Some(name) => normalize_stepwise_protocol(name.as_str()),
        None => default_stepwise_protocol(),
    }
}

pub fn stored_image_overlay_opacity(value: Option<u8>) -> (r: u8)
    ensures
        r == (match value {
            Some(n) => clamped(n as int, 1, 100),
            None => 35,
        }),
{
    match value {
        Some(n) => clamp_image_overlay_opacity(n),
        None => default_image_overlay_opacity(),
    }
}

pub fn stored_image_overlay_fit_mode(value: Option<String>) -> (r: String)
    ensures
        r@ == (match value {
            Some(mode) => fit_mode(mode@),
            None => "fit"@,
        }),
{
    match value {
        Some(mode) => normalize_image_overlay_fit_mode(mode.as_str()),
        None => default_image_overlay_fit_mode(),
    }
}

pub fn stored_dream_skin_theme(value: Option<String>) -> (r: String)
    ensures
        r@ == (match value {
            Some(theme) => dream_skin_theme(theme@),
            None => "pink"@,
        }),
{
    match value {
        Some(theme) => normalize_dream_skin_theme(theme.as_str()),
        None => default_dream_skin_theme(),
    }
}

pub fn stored_stepwise_max_items(value: Option<u8>) -> (r: u8)
    ensures
        r == (match value {
            Some(n) => clamped(n as int, 0, 6),
            None => 6,
        }),
{
    match value {
        Some(n) => clamp_stepwise_max_items(n),
        None => default_stepwise_max_items(),
    }
}

pub fn stored_stepwise_max_input_chars(value: Option<u32>) -> (r: u32)
    ensures
        r == (match value {
            Some(n) => clamped(n as int, 1000, 24000),
            None => 6000,
        }),
{
    match value {
        Some(n) => clamp_stepwise_max_input_chars(n),
        None => default_stepwise_max_input_chars(),
    }
}

pub fn stored_stepwise_max_output_tokens(value: Option<u32>) -> (r: u32)
    ensures
        r == (match value {
            Some(n) => clamped(n as int, 100, 4000),
            None => 500,
        }),
{
    match value {
        Some(n) => clamp_stepwise_max_output_tokens(n),
        None => default_stepwise_max_output_tokens(),
    }
}

pub fn stored_stepwise_timeout_ms(value: Option<u64>) -> (r: u64)
    ensures
        r == (match value {
            Some(n) => clamped(n as int, 1000, 60000),
            None => 8000,
        }),
{
    match value {
        Some(n) => clamp_stepwise_timeout_ms(n),
        None => default_stepwise_timeout_ms(),
    }
}

} // verus!
