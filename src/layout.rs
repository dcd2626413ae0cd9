//! Where the overlays go on a frame, and what each one shows.
use vstd::prelude::*;

verus! {

/// A rectangle of terminal cells.
#[derive(Clone, Copy, PartialEq, Eq, Structural, Debug)]
pub struct Area {
    pub x: u16,
    pub y: u16,
    pub width: u16,
    pub height: u16,
}

/// Rows of the instructions panel.
pub const INFO_ROWS: u16 = 9;

/// Rows of the password box: one line between two borders.
pub const PROMPT_ROWS: u16 = 3;

/// Rows of the connection result panel.
pub const RESULT_ROWS: u16 = 3;

/// A panel half as wide as a `width` by `height` frame and `rows` high (or
/// as high as the frame, if that is less), centred on both axes.
pub open spec fn centered_area(width: u16, height: u16, rows: u16) -> Area {
    let h = if rows <= height { rows } else { height };
    Area {
        x: ((width - width / 2) / 2) as u16,
        y: ((height - h) / 2) as u16,
        width: (width / 2) as u16,
        height: h,
    }
}

/// The panel of `rows` rows centred on a `width` by `height` frame.
pub fn centered(width: u16, height: u16, rows: u16) -> (r: Area)
    ensures
        r == centered_area(width, height, rows),
        r.x as int + r.width as int <= width as int,
        r.y as int + r.height as int <= height as int,
{
    let h = if rows <= height {
        rows
    } else {
        height
    };
    let w = width / 2;
    Area { x: (width - w) / 2, y: (height - h) / 2, width: w, height: h }
}

/// What an overlay shows.
#[derive(PartialEq, Eq, Debug)]
pub enum Panel {
    /// The key instructions.
    Instructions,
    /// The password typed so far, shown as typed.
    Password { input: String },
    /// What the last connection attempt printed.
    Result { text: String },
}

pub enum PanelView {
    Instructions,
    Password(Seq<char>),
    Result(Seq<char>),
}

impl View for Panel {
    type V = PanelView;

    open spec fn view(&self) -> PanelView {
        match self {
            Panel::Instructions => PanelView::Instructions,
            Panel::Password { input } => PanelView::Password(input@),
            Panel::Result { text } => PanelView::Result(text@),
        }
    }
}

/// A panel drawn over the list, and where.
#[derive(PartialEq, Eq, Debug)]
pub struct Overlay {
    pub area: Area,
    pub panel: Panel,
}

impl View for Overlay {
    type V = (Area, PanelView);

    open spec fn view(&self) -> (Area, PanelView) {
        (self.area, self.panel@)
    }
}

pub open spec fn overlay_views(os: Seq<Overlay>) -> Seq<(Area, PanelView)> {
    os.map_values(|o: Overlay| o@)
}

} // verus!
