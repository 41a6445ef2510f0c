//! Layout configuration and resolved bar colours.

use vstd::prelude::*;

verus! {

/// The four colours a bar is drawn with.
#[derive(Clone, Debug)]
pub struct BarTaskStyles {
    pub background_color: String,
    pub background_selected_color: String,
    pub progress_color: String,
    pub progress_selected_color: String,
}

/// Dimensions and palette of a chart.
#[derive(Clone, Debug)]
pub struct LayoutConfig {
    /// Width in pixels of one axis bucket.
    pub column_width: u32,
    /// Height in pixels of one task row.
    pub row_height: u32,
    /// Share of the row height a bar takes, in percent (0 to 100).
    pub bar_fill: u32,
    pub bar_corner_radius: u32,
    pub handle_width: u32,
    /// Length of the horizontal lead-out and lead-in of an arrow.
    pub arrow_indent: u32,
    /// Height in pixels of the two-tier calendar header.
    pub header_height: u32,
    /// Id of the task drawn in its selected colours, if any.
    pub selected_task_id: Option<String>,
    /// Colours of plain tasks.
    pub bar_styles: BarTaskStyles,
    /// Colours of projects.
    pub project_styles: BarTaskStyles,
    /// Colours of milestones.
    pub milestone_styles: BarTaskStyles,
}

/// A configuration the geometry can be computed with.
pub open spec fn config_valid(c: LayoutConfig) -> bool {
    c.bar_fill <= 100
}

/// The default colours: grey bars with a blue progress.
pub open spec fn default_styles_spec(s: BarTaskStyles) -> bool {
    &&& s.background_color@ == "#b8c2cc"@
    &&& s.background_selected_color@ == "#aeb8c2"@
    &&& s.progress_color@ == "#a3a3ff"@
    &&& s.progress_selected_color@ == "#8282f5"@
}

impl BarTaskStyles {
    /// The default colours, used for every kind of task.
    pub fn default_colors() -> (r: BarTaskStyles)
        ensures
            default_styles_spec(r),
    {
        BarTaskStyles {
            background_color: "#b8c2cc".to_owned(),
            background_selected_color: "#aeb8c2".to_owned(),
            progress_color: "#a3a3ff".to_owned(),
            progress_selected_color: "#8282f5".to_owned(),
        }
    }
}

impl Default for LayoutConfig {
    /// Columns 30 wide, rows 50 high with bars filling 60 percent of them,
    /// corners of radius 3, handles 8 wide, arrows indented by 20, a header
    /// 50 high, nothing selected and the default colours.
    fn default() -> (r: LayoutConfig)
        ensures
            r.column_width == 30,
            r.row_height == 50,
            r.bar_fill == 60,
            r.bar_corner_radius == 3,
            r.handle_width == 8,
            r.arrow_indent == 20,
            r.header_height == 50,
            r.selected_task_id is None,
            default_styles_spec(r.bar_styles),
            default_styles_spec(r.project_styles),
            default_styles_spec(r.milestone_styles),
    {
        LayoutConfig {
            column_width: 30,
            row_height: 50,
            bar_fill: 60,
            bar_corner_radius: 3,
            handle_width: 8,
            arrow_indent: 20,
            header_height: 50,
            selected_task_id: None,
            bar_styles: BarTaskStyles::default_colors(),
            project_styles: BarTaskStyles::default_colors(),
            milestone_styles: BarTaskStyles::default_colors(),
        }
    }
}

} // verus!
