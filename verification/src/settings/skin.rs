//! The skin that the app can wear.
use vstd::prelude::*;

use crate::json::{empty_object, parsed_json, Json, JsonView};
use crate::text::same_text;

verus! {

/// The colours of a skin.
#[derive(Clone, Debug, PartialEq, Eq)]
pub struct DreamSkinColors {
    pub background: String,
    pub panel: String,
    pub panel_alt: String,
    pub accent: String,
    pub accent_alt: String,
    pub secondary: String,
    pub highlight: String,
    pub text: String,
    pub muted: String,
    pub line: String,
}

#[verifier::ext_equal]
pub struct DreamSkinColorsView {
    pub background: Seq<char>,
    pub panel: Seq<char>,
    pub panel_alt: Seq<char>,
    pub accent: Seq<char>,
    pub accent_alt: Seq<char>,
    pub secondary: Seq<char>,
    pub highlight: Seq<char>,
    pub text: Seq<char>,
    pub muted: Seq<char>,
    pub line: Seq<char>,
}

impl View for DreamSkinColors {
    type V = DreamSkinColorsView;

    open spec fn view(&self) -> DreamSkinColorsView {
        DreamSkinColorsView {
            background: self.background@,
            panel: self.panel@,
            panel_alt: self.panel_alt@,
            accent: self.accent@,
            accent_alt: self.accent_alt@,
            secondary: self.secondary@,
            highlight: self.highlight@,
            text: self.text@,
            muted: self.muted@,
            line: self.line@,
        }
    }
}

impl DreamSkinColorsView {
    pub open spec fn default() -> DreamSkinColorsView {
        DreamSkinColorsView {
            background: "#F7F4F5"@,
            panel: "#FFFFFF"@,
            panel_alt: "#FFF7F8"@,
            accent: "#E25563"@,
            accent_alt: "#F07A86"@,
            secondary: "#F3A8AF"@,
            highlight: "#C93D4C"@,
            text: "#2B2224"@,
            muted: "#8A7A7D"@,
            line: "rgba(196, 120, 128, .22)"@,
        }
    }
}

impl Default for DreamSkinColors {
    fn default() -> (r: Self)
        ensures
            r@ == DreamSkinColorsView::default(),
    {
        DreamSkinColors {
            background: "#F7F4F5".to_owned(),
            panel: "#FFFFFF".to_owned(),
            panel_alt: "#FFF7F8".to_owned(),
            accent: "#E25563".to_owned(),
            accent_alt: "#F07A86".to_owned(),
            secondary: "#F3A8AF".to_owned(),
            highlight: "#C93D4C".to_owned(),
            text: "#2B2224".to_owned(),
            muted: "#8A7A7D".to_owned(),
            line: "rgba(196, 120, 128, .22)".to_owned(),
        }
    }
}

impl DreamSkinColors {
    pub fn copy(&self) -> (r: Self)
        ensures
            r@ == self@,
    {
        DreamSkinColors {
            background: self.background.clone(),
            panel: self.panel.clone(),
            panel_alt: self.panel_alt.clone(),
            accent: self.accent.clone(),
            accent_alt: self.accent_alt.clone(),
            secondary: self.secondary.clone(),
            highlight: self.highlight.clone(),
            text: self.text.clone(),
            muted: self.muted.clone(),
            line: self.line.clone(),
        }
    }

    pub fn same(&self, other: &Self) -> (r: bool)
        ensures
            r == (self@ == other@),
    {
        same_text(self.background.as_str(), other.background.as_str())
            && same_text(self.panel.as_str(), other.panel.as_str())
            && same_text(self.panel_alt.as_str(), other.panel_alt.as_str())
            && same_text(self.accent.as_str(), other.accent.as_str())
            && same_text(self.accent_alt.as_str(), other.accent_alt.as_str())
            && same_text(self.secondary.as_str(), other.secondary.as_str())
            && same_text(self.highlight.as_str(), other.highlight.as_str())
            && same_text(self.text.as_str(), other.text.as_str())
            && same_text(self.muted.as_str(), other.muted.as_str())
            && same_text(self.line.as_str(), other.line.as_str())
    }
}

/// A skin. Fields that are not known here are kept as they came.
#[derive(Debug)]
pub struct DreamSkinThemeConfig {
    pub schema_version: u8,
    pub id: String,
    pub name: String,
    pub style_preset: String,
    pub brand_subtitle: String,
    pub tagline: String,
    pub project_prefix: String,
    pub project_label: String,
    pub status_text: String,
    pub quote: String,
    pub colors: Option<DreamSkinColors>,
    pub extra_fields: Json,
}

#[verifier::ext_equal]
pub struct DreamSkinThemeConfigView {
    pub schema_version: u8,
    pub id: Seq<char>,
    pub name: Seq<char>,
    pub style_preset: Seq<char>,
    pub brand_subtitle: Seq<char>,
    pub tagline: Seq<char>,
    pub project_prefix: Seq<char>,
    pub project_label: Seq<char>,
    pub status_text: Seq<char>,
    pub quote: Seq<char>,
    pub colors: Option<DreamSkinColorsView>,
    pub extra_fields: JsonView,
}

pub open spec fn colors_view(colors: Option<DreamSkinColors>) -> Option<DreamSkinColorsView> {
    match colors {
        Some(c) => Some(c@),
        None => None,
    }
}

impl View for DreamSkinThemeConfig {
    type V = DreamSkinThemeConfigView;

    open spec fn view(&self) -> DreamSkinThemeConfigView {
        DreamSkinThemeConfigView {
            schema_version: self.schema_version,
            id: self.id@,
            name: self.name@,
            style_preset: self.style_preset@,
            brand_subtitle: self.brand_subtitle@,
            tagline: self.tagline@,
            project_prefix: self.project_prefix@,
            project_label: self.project_label@,
            status_text: self.status_text@,
            quote: self.quote@,
            colors: colors_view(self.colors),
            extra_fields: self.extra_fields@,
        }
    }
}

/// Where the picture of the default skin on Windows is looked at.
pub open spec fn windows_art() -> JsonView {
    match parsed_json(
        "{\"focusX\":0.72,\"focusY\":0.45,\"safeArea\":\"left\",\"taskMode\":\"ambient\"}"@,
    ) {
        Ok(value) => value,
        Err(_) => JsonView::Null,
    }
}

impl DreamSkinThemeConfigView {
    /// The skin of a fresh installation, on Windows or elsewhere.
    pub open spec fn for_system(windows: bool) -> DreamSkinThemeConfigView {
        if windows {
            DreamSkinThemeConfigView {
                schema_version: 1,
                id: "preset-arina-hashimoto"@,
                name: "桥本有菜"@,
                style_preset: Seq::empty(),
                brand_subtitle: "CODEX DREAM SKIN"@,
                tagline: "把柔光与玫瑰带进今天的工作台。"@,
                project_prefix: "选择项目 · "@,
                project_label: "◉  选择项目"@,
                status_text: "DREAM SKIN ONLINE"@,
                quote: "MAKE SOMETHING WONDERFUL"@,
                colors: None,
                extra_fields: empty_object().with_text("image"@, "dream-reference.jpg"@).with_text(
                    "appearance"@,
                    "auto"@,
                ).with("art"@, windows_art()),
            }
        } else {
            DreamSkinThemeConfigView {
                schema_version: 1,
                id: "custom-1784123441349"@,
                name: "Dream Skin"@,
                style_preset: Seq::empty(),
                brand_subtitle: "CODEX DREAM SKIN"@,
                tagline: "把喜欢的画面变成可交互的 Codex 工作台。"@,
                project_prefix: "选择项目 · "@,
                project_label: "◉  选择项目"@,
                status_text: "THEME ONLINE"@,
                quote: "Make something wonderful"@,
                colors: Some(DreamSkinColorsView::default()),
                extra_fields: empty_object().with_text("image"@, "portal-hero.png"@).with_text(
                    "promoTitle"@,
                    "感谢 Passion8 赞助"@,
                ).with_text("promoSub"@, "passion8.cc"@).with_text(
                    "promoUrl"@,
                    "https://passion8.cc/register?aff=TuPe"@,
                ),
            }
        }
    }
}

impl DreamSkinThemeConfig {
    pub fn for_system(windows: bool) -> (r: Self)
        ensures
            r@ == DreamSkinThemeConfigView::for_system(windows),
    {
        let mut extra_fields = Json::object();
        let r = if windows {
            extra_fields.put_text("image", "dream-reference.jpg");
            extra_fields.put_text("appearance", "auto");
            let art = match Json::parse(
                "{\"focusX\":0.72,\"focusY\":0.45,\"safeArea\":\"left\",\"taskMode\":\"ambient\"}",
            ) {
                Ok(art) => art,
                Err(_) => Json::Null,
            };
            extra_fields.put("art", art);
            DreamSkinThemeConfig {
                schema_version: 1,
                id: "preset-arina-hashimoto".to_owned(),
                name: "桥本有菜".to_owned(),
                style_preset: String::new(),
                brand_subtitle: "CODEX DREAM SKIN".to_owned(),
                tagline: "把柔光与玫瑰带进今天的工作台。".to_owned(),
                project_prefix: "选择项目 · ".to_owned(),
                project_label: "◉  选择项目".to_owned(),
                status_text: "DREAM SKIN ONLINE".to_owned(),
                quote: "MAKE SOMETHING WONDERFUL".to_owned(),
                colors: None,
                extra_fields,
            }
        } else {
            extra_fields.put_text("image", "portal-hero.png");
            extra_fields.put_text("promoTitle", "感谢 Passion8 赞助");
            extra_fields.put_text("promoSub", "passion8.cc");
            extra_fields.put_text("promoUrl", "https://passion8.cc/register?aff=TuPe");
            DreamSkinThemeConfig {
                schema_version: 1,
                id: "custom-1784123441349".to_owned(),
                name: "Dream Skin".to_owned(),
                style_preset: String::new(),
                brand_subtitle: "CODEX DREAM SKIN".to_owned(),
                tagline: "把喜欢的画面变成可交互的 Codex 工作台。".to_owned(),
                project_prefix: "选择项目 · ".to_owned(),
                project_label: "◉  选择项目".to_owned(),
                status_text: "THEME ONLINE".to_owned(),
                quote: "Make something wonderful".to_owned(),
                colors: Some(DreamSkinColors::default()),
                extra_fields,
            }
        };
        assert(r@ =~= DreamSkinThemeConfigView::for_system(windows));
        r
    }

    pub fn copy(&self) -> (r: Self)
        ensures
            r@ == self@,
    {
        DreamSkinThemeConfig {
            schema_version: self.schema_version,
            id: self.id.clone(),
            name: self.name.clone(),
            style_preset: self.style_preset.clone(),
            brand_subtitle: self.brand_subtitle.clone(),
            tagline: self.tagline.clone(),
            project_prefix: self.project_prefix.clone(),
            project_label: self.project_label.clone(),
            status_text: self.status_text.clone(),
            quote: self.quote.clone(),
            colors: match &self.colors {
                Some(colors) => Some(colors.copy()),
                None => None,
            },
            extra_fields: self.extra_fields.copy(),
        }
    }

    pub fn same(&self, other: &Self) -> (r: bool)
        ensures
            r == (self@ == other@),
    {
        let colors = match (&self.colors, &other.colors) {
            (Some(a), Some(b)) => a.same(b),
            (None, None) => true,
            _ => false,
        };
        self.schema_version == other.schema_version
            && same_text(self.id.as_str(), other.id.as_str())
            && same_text(self.name.as_str(), other.name.as_str())
            && same_text(self.style_preset.as_str(), other.style_preset.as_str())
            && same_text(self.brand_subtitle.as_str(), other.brand_subtitle.as_str())
            && same_text(self.tagline.as_str(), other.tagline.as_str())
            && same_text(self.project_prefix.as_str(), other.project_prefix.as_str())
            && same_text(self.project_label.as_str(), other.project_label.as_str())
            && same_text(self.status_text.as_str(), other.status_text.as_str())
            && same_text(self.quote.as_str(), other.quote.as_str())
            && colors
            && self.extra_fields.same(&other.extra_fields)
    }
}

/// `std::path::is_separator` tells whether a character parts the names of a path on the system that
/// the program runs on. What it tells depends on the system, so nothing is stated of it.
pub assume_specification[ std::path::is_separator ](c: char) -> (r: bool);

/// The skin of a fresh installation on the system that the program runs on: a backslash parts the
/// names of a path on Windows alone.
impl Default for DreamSkinThemeConfig {
    fn default() -> (r: Self)
        ensures
            exists|windows: bool| r@ == #[trigger] DreamSkinThemeConfigView::for_system(windows),
    {
        DreamSkinThemeConfig::for_system(std::path::is_separator('\\'))
    }
}

} // verus!
