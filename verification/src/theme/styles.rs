//! The values of a theme: its colors, the styles of the components that
//! are drawn with them, and how a configuration overrides both.
//!
//! A theme starts from a plan: the default theme, or the palette of a
//! built-in theme. Overrides of the palette replace single colors; the
//! styles of the components are then derived from the colors anew; and
//! overrides of the styles are applied last, on top of what was derived.

use crate::config::theme::{ThemeColor, ThemePalette, ThemeStyle};
use crate::theme::{
    builtin_palette, palette_of, resolve_theme_color, resolved_color_of, BuiltinPalette,
    BuiltinTheme, NamedColor, ResolvedColor, ThemePlan,
};
use vstd::prelude::*;

verus! {

/// How a component is drawn: its colors, where it has its own, and the
/// attributes that are switched on.
#[derive(Debug, Clone, Copy, PartialEq, Eq)]
pub struct ComponentStyle {
    pub fg: Option<ResolvedColor>,
    pub bg: Option<ResolvedColor>,
    pub bold: bool,
    pub dim: bool,
    pub italic: bool,
    pub underlined: bool,
}

/// The style that sets the foreground color and nothing else.
pub open spec fn foreground(color: ResolvedColor) -> ComponentStyle {
    ComponentStyle {
        fg: Some(color),
        bg: None,
        bold: false,
        dim: false,
        italic: false,
        underlined: false,
    }
}

/// The style with bold switched on.
pub open spec fn emboldened(style: ComponentStyle) -> ComponentStyle {
    ComponentStyle { bold: true, ..style }
}

/// The style with underlining switched on.
pub open spec fn underscored(style: ComponentStyle) -> ComponentStyle {
    ComponentStyle { underlined: true, ..style }
}

impl ComponentStyle {
    /// The style that sets the foreground color and nothing else.
    pub fn with_fg(color: ResolvedColor) -> (style: ComponentStyle)
        ensures
            style == foreground(color),
    {
        ComponentStyle {
            fg: Some(color),
            bg: None,
            bold: false,
            dim: false,
            italic: false,
            underlined: false,
        }
    }

    /// Switches bold on.
    pub fn bold(self) -> (style: ComponentStyle)
        ensures
            style == emboldened(self),
    {
        ComponentStyle { bold: true, ..self }
    }

    /// Switches underlining on.
    pub fn underlined(self) -> (style: ComponentStyle)
        ensures
            style == underscored(self),
    {
        ComponentStyle { underlined: true, ..self }
    }
}

/// The values of a theme.
#[derive(Debug, Clone, Copy, PartialEq, Eq)]
pub struct ThemeValues {
    /// Accent color.
    pub accent: ResolvedColor,
    /// Success color.
    pub success: ResolvedColor,
    /// Error color.
    pub error: ResolvedColor,
    /// Brand color.
    pub brand: ResolvedColor,
    /// Informational color.
    pub info: ResolvedColor,
    /// Explicit message background, if there is one.
    pub message_bg: Option<ResolvedColor>,
    /// Explicit selection background, if there is one.
    pub selection_bg: Option<ResolvedColor>,
    /// Markdown inline and fenced code.
    pub markdown_code: ComponentStyle,
    /// Markdown links.
    pub markdown_link: ComponentStyle,
    /// Markdown blockquotes.
    pub markdown_blockquote: ComponentStyle,
    /// Added lines of a diff.
    pub diff_added: ComponentStyle,
    /// Removed lines of a diff.
    pub diff_removed: ComponentStyle,
}

/// The theme with the styles of its components derived from its colors:
/// code and links in the accent color, links underlined, blockquotes and
/// added lines in the success color, removed lines in the error color.
pub open spec fn with_component_styles(theme: ThemeValues) -> ThemeValues {
    ThemeValues {
        markdown_code: foreground(theme.accent),
        markdown_link: underscored(foreground(theme.accent)),
        markdown_blockquote: foreground(theme.success),
        diff_added: foreground(theme.success),
        diff_removed: foreground(theme.error),
        ..theme
    }
}

/// The theme of the given colors, with the styles of its components
/// derived from them.
pub open spec fn theme_of(
    accent: ResolvedColor,
    success: ResolvedColor,
    error: ResolvedColor,
    brand: ResolvedColor,
    info: ResolvedColor,
    message_bg: Option<ResolvedColor>,
    selection_bg: Option<ResolvedColor>,
) -> ThemeValues {
    ThemeValues {
        accent,
        success,
        error,
        brand,
        info,
        message_bg,
        selection_bg,
        markdown_code: foreground(accent),
        markdown_link: underscored(foreground(accent)),
        markdown_blockquote: foreground(success),
        diff_added: foreground(success),
        diff_removed: foreground(error),
    }
}

/// Builds the theme of the given colors.
pub fn build_theme(
    accent: ResolvedColor,
    success: ResolvedColor,
    error: ResolvedColor,
    brand: ResolvedColor,
    info: ResolvedColor,
    message_bg: Option<ResolvedColor>,
    selection_bg: Option<ResolvedColor>,
) -> (theme: ThemeValues)
    ensures
        theme == theme_of(accent, success, error, brand, info, message_bg, selection_bg),
{
    ThemeValues {
        accent,
        success,
        error,
        brand,
        info,
        message_bg,
        selection_bg,
        markdown_code: ComponentStyle::with_fg(accent),
        markdown_link: ComponentStyle::with_fg(accent).underlined(),
        markdown_blockquote: ComponentStyle::with_fg(success),
        diff_added: ComponentStyle::with_fg(success),
        diff_removed: ComponentStyle::with_fg(error),
    }
}

/// The color of three components.
pub open spec fn rgb(components: (u8, u8, u8)) -> ResolvedColor {
    ResolvedColor::Rgb(components.0, components.1, components.2)
}

/// The background color of three components, if there are any.
pub open spec fn background(components: Option<(u8, u8, u8)>) -> Option<ResolvedColor> {
    match components {
        Some(found) => Some(rgb(found)),
        None => None,
    }
}

/// The theme of a palette.
pub open spec fn palette_theme(palette: BuiltinPalette) -> ThemeValues {
    theme_of(
        rgb(palette.accent),
        rgb(palette.success),
        rgb(palette.error),
        rgb(palette.brand),
        rgb(palette.info),
        background(palette.message_bg),
        background(palette.selection_bg),
    )
}

fn rgb_color(components: (u8, u8, u8)) -> (color: ResolvedColor)
    ensures
        color == rgb(components),
{
    ResolvedColor::Rgb(components.0, components.1, components.2)
}

fn background_color(components: Option<(u8, u8, u8)>) -> (color: Option<ResolvedColor>)
    ensures
        color == background(components),
{
    match components {
        Some(found) => Some(rgb_color(found)),
        None => None,
    }
}

/// Builds the theme of a palette.
pub fn build_theme_from_palette(palette: BuiltinPalette) -> (theme: ThemeValues)
    ensures
        theme == palette_theme(palette),
{
    build_theme(
        rgb_color(palette.accent),
        rgb_color(palette.success),
        rgb_color(palette.error),
        rgb_color(palette.brand),
        rgb_color(palette.info),
        background_color(palette.message_bg),
        background_color(palette.selection_bg),
    )
}

/// The default theme: colors of the terminal's own palette, and no
/// backgrounds.
pub open spec fn default_values() -> ThemeValues {
    theme_of(
        ResolvedColor::Named(NamedColor::Cyan),
        ResolvedColor::Named(NamedColor::Green),
        ResolvedColor::Named(NamedColor::Red),
        ResolvedColor::Named(NamedColor::Magenta),
        ResolvedColor::Named(NamedColor::LightBlue),
        None,
        None,
    )
}

/// The theme of a built-in theme, without regard to the terminal.
pub open spec fn builtin_values(builtin: BuiltinTheme) -> ThemeValues {
    match palette_of(builtin) {
        Some(palette) => palette_theme(palette),
        None => default_values(),
    }
}

/// The theme that a plan starts from. A palette that is to be adapted is
/// taken as it is.
pub open spec fn plan_values(plan: ThemePlan) -> ThemeValues {
    match plan {
        ThemePlan::DefaultTheme => default_values(),
        ThemePlan::Palette(palette) => palette_theme(palette),
        ThemePlan::Adapted(palette) => palette_theme(palette),
    }
}

impl ThemeValues {
    /// The default theme.
    pub fn default_theme() -> (theme: ThemeValues)
        ensures
            theme == default_values(),
    {
        build_theme(
            ResolvedColor::Named(NamedColor::Cyan),
            ResolvedColor::Named(NamedColor::Green),
            ResolvedColor::Named(NamedColor::Red),
            ResolvedColor::Named(NamedColor::Magenta),
            ResolvedColor::Named(NamedColor::LightBlue),
            None,
            None,
        )
    }

    /// The theme of a built-in theme, without regard to the terminal.
    pub fn from_builtin(builtin: BuiltinTheme) -> (theme: ThemeValues)
        ensures
            theme == builtin_values(builtin),
    {
        match builtin_palette(builtin) {
            Some(palette) => build_theme_from_palette(palette),
            None => ThemeValues::default_theme(),
        }
    }

    /// The theme that a plan starts from. A palette that is to be adapted
    /// is taken as it is: who knows the background of the terminal adapts
    /// the palette first.
    pub fn from_plan(plan: ThemePlan) -> (theme: ThemeValues)
        ensures
            theme == plan_values(plan),
    {
        match plan {
            ThemePlan::DefaultTheme => ThemeValues::default_theme(),
            ThemePlan::Palette(palette) => build_theme_from_palette(palette),
            ThemePlan::Adapted(palette) => build_theme_from_palette(palette),
        }
    }

    /// The style with the accent color as foreground.
    pub fn accent_style(&self) -> (style: ComponentStyle)
        ensures
            style == foreground(self.accent),
    {
        ComponentStyle::with_fg(self.accent)
    }

    /// The style with the success color as foreground.
    pub fn success_style(&self) -> (style: ComponentStyle)
        ensures
            style == foreground(self.success),
    {
        ComponentStyle::with_fg(self.success)
    }

    /// The style with the error color as foreground.
    pub fn error_style(&self) -> (style: ComponentStyle)
        ensures
            style == foreground(self.error),
    {
        ComponentStyle::with_fg(self.error)
    }

    /// The style with the brand color as foreground.
    pub fn brand_style(&self) -> (style: ComponentStyle)
        ensures
            style == foreground(self.brand),
    {
        ComponentStyle::with_fg(self.brand)
    }

    /// The style with the informational color as foreground.
    pub fn info_style(&self) -> (style: ComponentStyle)
        ensures
            style == foreground(self.info),
    {
        ComponentStyle::with_fg(self.info)
    }

    /// The bold style with the success color as foreground.
    pub fn success_bold(&self) -> (style: ComponentStyle)
        ensures
            style == emboldened(foreground(self.success)),
    {
        self.success_style().bold()
    }

    /// The bold style with the error color as foreground.
    pub fn error_bold(&self) -> (style: ComponentStyle)
        ensures
            style == emboldened(foreground(self.error)),
    {
        self.error_style().bold()
    }

    /// The bold style with the brand color as foreground.
    pub fn brand_bold(&self) -> (style: ComponentStyle)
        ensures
            style == emboldened(foreground(self.brand)),
    {
        self.brand_style().bold()
    }
}

/// The color that a configured value sets, if it sets one: a value that
/// resolves to no color sets none.
pub open spec fn configured_color(value: Option<ThemeColor>) -> Option<ResolvedColor> {
    match value {
        Some(color) => resolved_color_of(color),
        None => None,
    }
}

/// A color with an override: the configured color, where it resolves, and
/// else the color as it was.
pub open spec fn overridden_color(base: ResolvedColor, value: Option<ThemeColor>) -> ResolvedColor {
    match configured_color(value) {
        Some(color) => color,
        None => base,
    }
}

/// A color that may be missing, with an override.
pub open spec fn overridden_background(
    base: Option<ResolvedColor>,
    value: Option<ThemeColor>,
) -> Option<ResolvedColor> {
    match configured_color(value) {
        Some(color) => Some(color),
        None => base,
    }
}

/// The theme with the colors of a palette put over its own. The styles of
/// the components are left as they are.
pub open spec fn with_palette(theme: ThemeValues, palette: ThemePalette) -> ThemeValues {
    ThemeValues {
        accent: overridden_color(theme.accent, palette.accent),
        success: overridden_color(theme.success, palette.success),
        error: overridden_color(theme.error, palette.error),
        brand: overridden_color(theme.brand, palette.brand),
        info: overridden_color(theme.info, palette.info),
        message_bg: overridden_background(theme.message_bg, palette.message_bg),
        selection_bg: overridden_background(theme.selection_bg, palette.selection_bg),
        ..theme
    }
}

fn resolve_configured(value: &Option<ThemeColor>) -> (color: Option<ResolvedColor>)
    ensures
        color == configured_color(*value),
{
    match value {
        Some(color) => resolve_theme_color(color),
        None => None,
    }
}

/// Puts the colors of a configured palette over those of the theme.
pub fn apply_palette_overrides(theme: &mut ThemeValues, palette: &ThemePalette)
    ensures
        *final(theme) == with_palette(*old(theme), *palette),
{
    if let Some(color) = resolve_configured(&palette.accent) {
        theme.accent = color;
    }
    if let Some(color) = resolve_configured(&palette.success) {
        theme.success = color;
    }
    if let Some(color) = resolve_configured(&palette.error) {
        theme.error = color;
    }
    if let Some(color) = resolve_configured(&palette.brand) {
        theme.brand = color;
    }
    if let Some(color) = resolve_configured(&palette.info) {
        theme.info = color;
    }
    if let Some(color) = resolve_configured(&palette.message_bg) {
        theme.message_bg = Some(color);
    }
    if let Some(color) = resolve_configured(&palette.selection_bg) {
        theme.selection_bg = Some(color);
    }
}

/// Derives the styles of the components from the colors of the theme.
pub fn apply_component_styles(theme: &mut ThemeValues)
    ensures
        *final(theme) == with_component_styles(*old(theme)),
{
    theme.markdown_code = ComponentStyle::with_fg(theme.accent);
    theme.markdown_link = ComponentStyle::with_fg(theme.accent).underlined();
    theme.markdown_blockquote = ComponentStyle::with_fg(theme.success);
    theme.diff_added = ComponentStyle::with_fg(theme.success);
    theme.diff_removed = ComponentStyle::with_fg(theme.error);
}

/// A style with an override: the configured colors, where they resolve,
/// replace those of the style, and the configured attributes are switched
/// on. No attribute is switched off.
pub open spec fn with_style(base: ComponentStyle, style: ThemeStyle) -> ComponentStyle {
    ComponentStyle {
        fg: overridden_background(base.fg, style.fg),
        bg: overridden_background(base.bg, style.bg),
        bold: base.bold || style.bold,
        dim: base.dim || style.dim,
        italic: base.italic || style.italic,
        underlined: base.underlined || style.underlined,
    }
}

/// Puts a configured style over the style of a component.
pub fn apply_style_override(base: ComponentStyle, override_style: &ThemeStyle) -> (style:
    ComponentStyle)
    ensures
        style == with_style(base, *override_style),
{
    let mut style = base;
    if let Some(color) = resolve_configured(&override_style.fg) {
        style.fg = Some(color);
    }
    if let Some(color) = resolve_configured(&override_style.bg) {
        style.bg = Some(color);
    }
    if override_style.bold {
        style.bold = true;
    }
    if override_style.dim {
        style.dim = true;
    }
    if override_style.italic {
        style.italic = true;
    }
    if override_style.underlined {
        style.underlined = true;
    }
    style
}

/// The configured styles of the components, each of which may be missing.
#[derive(Debug, Clone, PartialEq, Eq)]
pub struct ComponentOverrides {
    pub markdown_code: Option<ThemeStyle>,
    pub markdown_link: Option<ThemeStyle>,
    pub markdown_blockquote: Option<ThemeStyle>,
    pub diff_added: Option<ThemeStyle>,
    pub diff_removed: Option<ThemeStyle>,
}

/// The style of a component with a configured style that may be missing.
pub open spec fn overridden_style(base: ComponentStyle, style: Option<ThemeStyle>) -> ComponentStyle {
    match style {
        Some(configured) => with_style(base, configured),
        None => base,
    }
}

/// The theme with the configured styles put over those of its components.
pub open spec fn with_styles(theme: ThemeValues, overrides: ComponentOverrides) -> ThemeValues {
    ThemeValues {
        markdown_code: overridden_style(theme.markdown_code, overrides.markdown_code),
        markdown_link: overridden_style(theme.markdown_link, overrides.markdown_link),
        markdown_blockquote: overridden_style(
            theme.markdown_blockquote,
            overrides.markdown_blockquote,
        ),
        diff_added: overridden_style(theme.diff_added, overrides.diff_added),
        diff_removed: overridden_style(theme.diff_removed, overrides.diff_removed),
        ..theme
    }
}

/// Puts the configured styles over those of the components.
pub fn apply_style_overrides(theme: &mut ThemeValues, overrides: &ComponentOverrides)
    ensures
        *final(theme) == with_styles(*old(theme), *overrides),
{
    if let Some(style) = &overrides.markdown_code {
        theme.markdown_code = apply_style_override(theme.markdown_code, style);
    }
    if let Some(style) = &overrides.markdown_link {
        theme.markdown_link = apply_style_override(theme.markdown_link, style);
    }
    if let Some(style) = &overrides.markdown_blockquote {
        theme.markdown_blockquote = apply_style_override(theme.markdown_blockquote, style);
    }
    if let Some(style) = &overrides.diff_added {
        theme.diff_added = apply_style_override(theme.diff_added, style);
    }
    if let Some(style) = &overrides.diff_removed {
        theme.diff_removed = apply_style_override(theme.diff_removed, style);
    }
}

/// The theme of a configuration: what the plan starts from; then the
/// palette put over it and the styles of the components derived anew,
/// where a palette is configured; then the configured styles put over
/// those.
pub open spec fn configured_values(
    plan: ThemePlan,
    palette: Option<ThemePalette>,
    styles: Option<ComponentOverrides>,
) -> ThemeValues {
    let base = plan_values(plan);
    let colored = match palette {
        Some(colors) => with_component_styles(with_palette(base, colors)),
        None => base,
    };
    match styles {
        Some(overrides) => with_styles(colored, overrides),
        None => colored,
    }
}

/// Resolves the theme of a configuration from its plan.
pub fn resolve_theme_values(
    plan: ThemePlan,
    palette: &Option<ThemePalette>,
    styles: &Option<ComponentOverrides>,
) -> (theme: ThemeValues)
    ensures
        theme == configured_values(plan, *palette, *styles),
{
    let mut theme = ThemeValues::from_plan(plan);
    if let Some(colors) = palette {
        apply_palette_overrides(&mut theme, colors);
        apply_component_styles(&mut theme);
    }
    if let Some(overrides) = styles {
        apply_style_overrides(&mut theme, overrides);
    }
    theme
}

/// A palette that overrides nothing, and no configured styles, leave the
/// colors of the plan as they are.
pub proof fn lemma_empty_palette_keeps_colors(plan: ThemePlan, palette: ThemePalette)
    requires
        palette.accent is None,
        palette.success is None,
        palette.error is None,
        palette.brand is None,
        palette.info is None,
        palette.message_bg is None,
        palette.selection_bg is None,
    ensures
        configured_values(plan, Some(palette), None) == plan_values(plan),
{
}

} // verus!
