//! Header rendering stuff.

use crate::decimal::{decimal, decimal_text};
use crate::layout::html::{fragment, markups, one, styled, styled_node, Html, Markup};
use crate::layout::logo::{ocp_pic, ocp_pic_markup, LOGO_HEIGHT_PX};
use crate::layout::numbers::{
    binary_prefixes, count_text, decimal_prefixes, duration, duration_text, scaled, size_text,
};
use crate::store::AllocStats;
use vstd::prelude::*;
use vstd::string::StringExecFns;

verus! {

/// Height of the info of the header.
pub const HEADER_INFO_LINE_HEIGHT_PX: usize = 60;

/// Height of a line of the header.
pub const HEADER_LINE_HEIGHT_PX: usize = 40;

/// Vertical padding of the buttons on the left.
pub const HEADER_VERTICAL_LEFT_BUTTON_PADDING: usize = HEADER_INFO_LINE_HEIGHT_PX / 10;

/// Height of the buttons on the left of the info line.
pub const HEADER_INFO_LINE_LEFT_BUTTON_HEIGHT_PX: usize = HEADER_INFO_LINE_HEIGHT_PX
    - HEADER_VERTICAL_LEFT_BUTTON_PADDING;

/// Vertical button padding.
pub const HEADER_VERTICAL_BUTTON_PADDING: usize = HEADER_INFO_LINE_HEIGHT_PX / 4;

/// Font size in the header, in percent.
pub const FONT_SIZE: usize = 130;

/// Height of the buttons of the info line.
pub const HEADER_INFO_LINE_BUTTON_HEIGHT_PX: usize = HEADER_INFO_LINE_HEIGHT_PX
    - HEADER_VERTICAL_BUTTON_PADDING;

/// Width of the center column of a header line, in percent.
pub const CENTER_WIDTH_PC: usize = 70;

/// Width of the left column of a header line, in percent.
pub const LFT_WIDTH_PC: usize = (100 - CENTER_WIDTH_PC) / 2;

/// Width of the right column of a header line, in percent.
pub const RGT_WIDTH_PC: usize = LFT_WIDTH_PC;

/// Header of the UI.
///
/// Renders the info line.
#[derive(Debug, Clone, Copy, PartialEq, Eq, Structural)]
pub struct Header {}

/// The statistics of a run, each written out as it is to be shown.
#[derive(Debug, Clone, PartialEq, Eq)]
pub struct StatsText {
    /// Time of day at which the run started, in local time.
    pub start_time: String,
    /// Day on which the run started.
    pub start_date: String,
    /// How long the run has lasted.
    pub duration: String,
    /// Number of allocations.
    pub alloc_count: String,
    /// Total size of the allocations, without the unit.
    pub total_size: String,
    /// Path of the directory the dumps are read from.
    pub dump_dir: String,
}

impl StatsText {
    /// Writes out the statistics of a run. The start of the run is given as it is to be
    /// shown, in local time; the duration is written in seconds, the number of allocations
    /// scaled to a power of one thousand, and their total size scaled to a power of 1024.
    pub fn new(stats: &AllocStats, start_time: String, start_date: String) -> (res: Self)
        ensures
            res.start_time@ == start_time@,
            res.start_date@ == start_date@,
            res.duration@ == duration(stats.duration),
            res.alloc_count@ == scaled(stats.alloc_count as nat, 1000, decimal_prefixes()),
            res.total_size@ == scaled(stats.total_size as nat, 1024, binary_prefixes()),
            res.dump_dir@ == stats.dump_dir@,
    {
        StatsText {
            start_time,
            start_date,
            duration: duration_text(stats.duration),
            alloc_count: count_text(stats.alloc_count),
            total_size: size_text(stats.total_size),
            dump_dir: stats.dump_dir.clone(),
        }
    }
}

/// Style of the table that centers its content.
pub open spec fn table_style() -> Seq<char> {
    "display: table; width: 100%; height: 100%;"@
}

/// Style of the table cell that centers its content.
pub open spec fn cell_style() -> Seq<char> {
    "display: table-cell; padding: 0% 10px; white-space: nowrap; text-align: center; vertical-align: middle;"@
}

/// Style of a column that takes `width` percent of a line.
pub open spec fn tile_style(width: nat) -> Seq<char> {
    "display: block; float: left; height: 100%; overflow: scroll; width: "@ + decimal(width)
        + "%;"@
}

/// Style of an element that is `height` pixels high.
pub open spec fn height_style(height: nat) -> Seq<char> {
    "height: "@ + decimal(height) + "px;"@
}

/// Style of a button holder that floats on the `side` with `padding` pixels above and below.
pub open spec fn float_style(side: Seq<char>, padding: nat) -> Seq<char> {
    "float: "@ + side + "; padding: "@ + decimal(padding) + "px 0%;"@
}

/// Style of a header that is `height` pixels high, written in `fg` on `bg`.
pub open spec fn header_style(height: nat, fg: Seq<char>, bg: Seq<char>) -> Seq<char> {
    "font-size: "@ + decimal(FONT_SIZE as nat) + "%; width: 100%; height: "@ + decimal(height)
        + "px; color: "@ + fg + "; background-color: "@ + bg
        + "; border-radius: 0px 0px 20px 20px; position: fixed; top: 0px; z-index: 600;"@
}

/// The top header: the settings, then the info line.
pub open spec fn header_markup(
    height: nat,
    fg: Seq<char>,
    bg: Seq<char>,
    settings: Markup,
    info_line: Markup,
) -> Markup {
    styled("header"@, header_style(height, fg, bg), seq![settings, info_line])
}

/// The buttons of the info line: two on the left, the rest on the right.
pub open spec fn buttons_markup(expand: Markup, collapse: Markup, buttons: Markup) -> Markup {
    Markup::Fragment(
        seq![
            styled(
                "div"@,
                float_style("left"@, (HEADER_VERTICAL_LEFT_BUTTON_PADDING / 2) as nat),
                seq![expand],
            ),
            styled(
                "div"@,
                float_style("left"@, (HEADER_VERTICAL_LEFT_BUTTON_PADDING / 2) as nat),
                seq![collapse],
            ),
            styled(
                "div"@,
                float_style("right"@, (HEADER_VERTICAL_BUTTON_PADDING / 2) as nat),
                seq![buttons],
            ),
        ],
    )
}

/// Emphasized text.
pub open spec fn emph_markup(text: Seq<char>) -> Markup {
    styled("b"@, "color: #c8f5fd;"@, seq![Markup::Text(text)])
}

/// Text in code style.
pub open spec fn code_markup(text: Seq<char>) -> Markup {
    styled(
        "b"@,
        "font-family: monospace; font-size: 100%; color: #ffb961;"@,
        seq![Markup::Text(text)],
    )
}

/// Content centered with the `table`/`table cell` trick.
pub open spec fn center_markup(inner: Markup) -> Markup {
    styled("div"@, table_style(), seq![styled("div"@, cell_style(), seq![inner])])
}

/// A line with three columns, 15%-70%-15%.
pub open spec fn three_part_markup(
    style: Seq<char>,
    lft: Markup,
    center: Markup,
    rgt: Markup,
) -> Markup {
    styled(
        "div"@,
        style,
        seq![
            styled("div"@, tile_style(LFT_WIDTH_PC as nat), seq![lft]),
            styled("div"@, tile_style(CENTER_WIDTH_PC as nat), seq![center]),
            styled("div"@, tile_style(RGT_WIDTH_PC as nat), seq![rgt]),
        ],
    )
}

/// The link to the editor's site, around `logo`.
pub open spec fn logo_link_markup(logo: Markup) -> Markup {
    Markup::Node {
        tag: "a"@,
        attrs: seq![
            ("href"@, "https://www.ocamlpro.com"@),
            ("target"@, "_blank"@),
            (
                "style"@,
                height_style(LOGO_HEIGHT_PX as nat),
            ),
        ],
        children: seq![logo],
    }
}

/// The info line: the buttons, the statistics, and the logo.
pub open spec fn info_line_markup(buttons: Markup, stats: Markup) -> Markup {
    three_part_markup(
        height_style(HEADER_INFO_LINE_HEIGHT_PX as nat),
        center_markup(buttons),
        center_markup(stats),
        center_markup(logo_link_markup(ocp_pic_markup())),
    )
}

/// The statistics of a run, or a notice that there are none.
pub open spec fn stats_markup(stats: Option<StatsText>) -> Markup {
    match stats {
        Some(stats) => styled(
            "p"@,
            "margin: 0px;"@,
            seq![
                Markup::Text("run started at "@),
                emph_markup(stats.start_time@ + " (LT)"@),
                Markup::Text(", on "@),
                emph_markup(stats.start_date@),
                Markup::Text(", ran for "@),
                emph_markup(stats.duration@),
                Markup::Text(" with "@),
                emph_markup(stats.alloc_count@),
                Markup::Text(" allocations, "@),
                emph_markup(stats.total_size@ + "B"@),
                Markup::Text(" | "@),
                code_markup(stats.dump_dir@),
            ],
        ),
        None => Markup::Text("No allocation statistics available at this moment..."@),
    }
}

/// Writes the style of a column that takes `width` percent of a line.
fn tile_style_text(width: usize) -> (res: String)
    ensures
        res@ == tile_style(width as nat),
{
    String::from_str(
        "display: block; float: left; height: 100%; overflow: scroll; width: ",
    ).concat(decimal_text(width as u64).as_str()).concat("%;")
}

/// Writes the style of an element that is `height` pixels high.
fn height_style_text(height: usize) -> (res: String)
    ensures
        res@ == height_style(height as nat),
{
    String::from_str("height: ").concat(decimal_text(height as u64).as_str()).concat("px;")
}

/// Writes the style of a button holder that floats on the `side`.
fn float_style_text(side: &str, padding: usize) -> (res: String)
    ensures
        res@ == float_style(side@, padding as nat),
{
    String::from_str("float: ").concat(side).concat("; padding: ").concat(
        decimal_text(padding as u64).as_str(),
    ).concat("px 0%;")
}

impl Header {
    /// Constructor.
    pub fn new() -> (res: Self)
        ensures
            res == (Header {  }),
    {
        Header {  }
    }

    /// Height in pixels of a header that shows `line_count` lines of settings under its info
    /// line.
    pub open spec fn spec_height_px(line_count: nat) -> nat {
        HEADER_INFO_LINE_HEIGHT_PX as nat + line_count * HEADER_LINE_HEIGHT_PX as nat
    }

    /// Height of the header in pixels.
    pub fn height_px(&self, line_count: usize) -> (res: usize)
        requires
            Self::spec_height_px(line_count as nat) <= usize::MAX,
        ensures
            res == Self::spec_height_px(line_count as nat),
    {
        HEADER_INFO_LINE_HEIGHT_PX + line_count * HEADER_LINE_HEIGHT_PX
    }

    /// Renders the top header: `settings`, which shows `line_count` lines, above `info_line`.
    /// The header is written in the color `fg` on the color `bg`.
    pub fn render(
        &self,
        line_count: usize,
        fg: &str,
        bg: &str,
        settings: Html,
        info_line: Html,
    ) -> (res: Html)
        requires
            Self::spec_height_px(line_count as nat) <= usize::MAX,
        ensures
            res.markup() == header_markup(
                Self::spec_height_px(line_count as nat),
                fg@,
                bg@,
                settings.markup(),
                info_line.markup(),
            ),
    {
        let height = self.height_px(line_count);
        let style = String::from_str("font-size: ").concat(
            decimal_text(FONT_SIZE as u64).as_str(),
        ).concat("%; width: 100%; height: ").concat(decimal_text(height as u64).as_str()).concat(
            "px; color: ",
        ).concat(fg).concat("; background-color: ").concat(bg).concat(
            "; border-radius: 0px 0px 20px 20px; position: fixed; top: 0px; z-index: 600;",
        );
        let mut children: Vec<Html> = Vec::new();
        children.push(settings);
        children.push(info_line);
        assert(markups(children@) =~= seq![settings.markup(), info_line.markup()]);
        styled_node("header", style.as_str(), children)
    }

    /// Lays out the buttons of the info line: `expand` and `collapse` on the left, `buttons`
    /// on the right.
    pub fn info_line_buttons(&self, expand: Html, collapse: Html, buttons: Html) -> (res: Html)
        ensures
            res.markup() == buttons_markup(
                expand.markup(),
                collapse.markup(),
                buttons.markup(),
            ),
    {
        let lft = float_style_text("left", HEADER_VERTICAL_LEFT_BUTTON_PADDING / 2);
        let rgt = float_style_text("right", HEADER_VERTICAL_BUTTON_PADDING / 2);
        let expand = styled_node("div", lft.as_str(), one(expand));
        let collapse = styled_node("div", lft.as_str(), one(collapse));
        let buttons = styled_node("div", rgt.as_str(), one(buttons));
        let mut parts: Vec<Html> = Vec::new();
        parts.push(expand);
        parts.push(collapse);
        parts.push(buttons);
        assert(markups(parts@) =~= seq![expand.markup(), collapse.markup(), buttons.markup()]);
        fragment(parts)
    }

    /// Generates the line containing the buttons, generic info about the dump(s) and the logo.
    pub fn info_line(&self, buttons: Html, stats: Html) -> (res: Html)
        ensures
            res.markup() == info_line_markup(buttons.markup(), stats.markup()),
    {
        let style = height_style_text(HEADER_INFO_LINE_HEIGHT_PX);
        let logo_style = height_style_text(LOGO_HEIGHT_PX);
        let logo = ocp_pic();
        let mut attrs: Vec<(String, String)> = Vec::new();
        attrs.push((String::from_str("href"), String::from_str("https://www.ocamlpro.com")));
        attrs.push((String::from_str("target"), String::from_str("_blank")));
        attrs.push((String::from_str("style"), logo_style));
        let link = Html::Node { tag: String::from_str("a"), attrs, children: one(logo) };
        assert(link.markup() == logo_link_markup(logo.markup())) by {
            assert(attrs.deep_view() =~= seq![
                ("href"@, "https://www.ocamlpro.com"@),
                ("target"@, "_blank"@),
                ("style"@, height_style(LOGO_HEIGHT_PX as nat)),
            ]);
            assert(link.markup()->children =~= seq![logo.markup()]);
        }
        Self::three_part_line_with(
            style.as_str(),
            Self::center(buttons),
            Self::center(stats),
            Self::center(link),
        )
    }

    /// Centers its content using the `table`/`table cell` trick.
    pub fn center(inner: Html) -> (res: Html)
        ensures
            res.markup() == center_markup(inner.markup()),
    {
        let cell = styled_node(
            "div",
            "display: table-cell; padding: 0% 10px; white-space: nowrap; text-align: center; vertical-align: middle;",
            one(inner),
        );
        styled_node("div", "display: table; width: 100%; height: 100%;", one(cell))
    }

    /// Creates a header line with three columns (15%-70%-15%, float left).
    pub fn three_part_line_with(style: &str, lft: Html, center: Html, rgt: Html) -> (res: Html)
        ensures
            res.markup() == three_part_markup(
                style@,
                lft.markup(),
                center.markup(),
                rgt.markup(),
            ),
    {
        let lft = styled_node("div", tile_style_text(LFT_WIDTH_PC).as_str(), one(lft));
        let center = styled_node("div", tile_style_text(CENTER_WIDTH_PC).as_str(), one(center));
        let rgt = styled_node("div", tile_style_text(RGT_WIDTH_PC).as_str(), one(rgt));
        let mut columns: Vec<Html> = Vec::new();
        columns.push(lft);
        columns.push(center);
        columns.push(rgt);
        assert(markups(columns@) =~= seq![lft.markup(), center.markup(), rgt.markup()]);
        styled_node("div", style, columns)
    }

    /// Formats the statistics, if any.
    pub fn format_stats(&self, stats: &Option<StatsText>) -> (res: Html)
        ensures
            res.markup() == stats_markup(*stats),
    {
        match stats {
            Some(stats) => {
                let mut parts: Vec<Html> = Vec::new();
                parts.push(Html::text("run started at "));
                let start_time = stats.start_time.clone().concat(" (LT)");
                parts.push(emph(start_time.as_str()));
                parts.push(Html::text(", on "));
                parts.push(emph(stats.start_date.as_str()));
                parts.push(Html::text(", ran for "));
                parts.push(emph(stats.duration.as_str()));
                parts.push(Html::text(" with "));
                parts.push(emph(stats.alloc_count.as_str()));
                parts.push(Html::text(" allocations, "));
                let total_size = stats.total_size.clone().concat("B");
                parts.push(emph(total_size.as_str()));
                parts.push(Html::text(" | "));
                parts.push(code(stats.dump_dir.as_str()));
                assert(markups(parts@) =~= seq![
                    Markup::Text("run started at "@),
                    emph_markup(stats.start_time@ + " (LT)"@),
                    Markup::Text(", on "@),
                    emph_markup(stats.start_date@),
                    Markup::Text(", ran for "@),
                    emph_markup(stats.duration@),
                    Markup::Text(" with "@),
                    emph_markup(stats.alloc_count@),
                    Markup::Text(" allocations, "@),
                    emph_markup(stats.total_size@ + "B"@),
                    Markup::Text(" | "@),
                    code_markup(stats.dump_dir@),
                ]);
                styled_node("p", "margin: 0px;", parts)
            },
            None => Html::text("No allocation statistics available at this moment..."),
        }
    }
}

/// Produces emphasized text.
pub fn emph(s: &str) -> (res: Html)
    ensures
        res.markup() == emph_markup(s@),
{
    styled_node("b", "color: #c8f5fd;", one(Html::text(s)))
}

/// Formats some text in code style.
pub fn code(s: &str) -> (res: Html)
    ensures
        res.markup() == code_markup(s@),
{
    styled_node(
        "b",
        "font-family: monospace; font-size: 100%; color: #ffb961;",
        one(Html::text(s)),
    )
}

} // verus!
