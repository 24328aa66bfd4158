//! What the display shows of the current scan, and how sizes are written.

use vstd::prelude::*;
use vstd::string::StringExecFns;

verus! {

/// The character of one decimal digit.
pub open spec fn digit_char(d: nat) -> char {
    if d == 0 {
        '0'
    } else if d == 1 {
        '1'
    } else if d == 2 {
        '2'
    } else if d == 3 {
        '3'
    } else if d == 4 {
        '4'
    } else if d == 5 {
        '5'
    } else if d == 6 {
        '6'
    } else if d == 7 {
        '7'
    } else if d == 8 {
        '8'
    } else {
        '9'
    }
}

/// The decimal digits of `n`, most significant first, without leading zeros.
pub open spec fn decimal(n: nat) -> Seq<char>
    decreases n,
{
    if n < 10 {
        seq![digit_char(n)]
    } else {
        decimal(n / 10).push(digit_char(n % 10))
    }
}

/// The name of the unit that is 1024 to the power `i` bytes.
pub open spec fn unit_name(i: nat) -> Seq<char> {
    if i == 0 {
        ""@
    } else if i == 1 {
        "K"@
    } else if i == 2 {
        "M"@
    } else if i == 3 {
        "G"@
    } else if i == 4 {
        "T"@
    } else if i == 5 {
        "P"@
    } else if i == 6 {
        "E"@
    } else if i == 7 {
        "Z"@
    } else {
        "Y"@
    }
}

/// The number and the unit that `v` is shown with, starting from the unit
/// of index `i`: the number is divided by 1024, rounding down, as long as
/// it is 2300 or more and a larger unit is left.
pub open spec fn scaled(v: nat, i: nat) -> (nat, nat)
    decreases v,
{
    if v >= 2300 && i < 8 {
        scaled(v / 1024, i + 1)
    } else {
        (v, i)
    }
}

/// How a count or a size is written: a number and a unit.
pub open spec fn size_text(v: nat) -> Seq<char> {
    decimal(scaled(v, 0).0) + unit_name(scaled(v, 0).1)
}

/// A number that fits 64 bits is shown with a number below 2300, so with at
/// most four digits, and with no unit beyond `E`.
pub proof fn shown_number_is_short(v: u64)
    ensures
        scaled(v as nat, 0).0 < 2300,
        scaled(v as nat, 0).1 <= 6,
{
    reveal_with_fuel(scaled, 8);
}

/// One decimal digit as text.
fn digit_str(d: u64) -> (text: &'static str)
    requires
        d < 10,
    ensures
        text@ == seq![digit_char(d as nat)],
{
    proof {
        reveal_strlit("0");
        reveal_strlit("1");
        reveal_strlit("2");
        reveal_strlit("3");
        reveal_strlit("4");
        reveal_strlit("5");
        reveal_strlit("6");
        reveal_strlit("7");
        reveal_strlit("8");
        reveal_strlit("9");
    }
    let text = if d == 0 {
        "0"
    } else if d == 1 {
        "1"
    } else if d == 2 {
        "2"
    } else if d == 3 {
        "3"
    } else if d == 4 {
        "4"
    } else if d == 5 {
        "5"
    } else if d == 6 {
        "6"
    } else if d == 7 {
        "7"
    } else if d == 8 {
        "8"
    } else {
        "9"
    };
    text
}

/// Writes `v` in decimal.
pub fn decimal_string(v: u64) -> (text: String)
    ensures
        text@ == decimal(v as nat),
    decreases v,
{
    if v < 10 {
        String::from_str(digit_str(v))
    } else {
        let mut text = decimal_string(v / 10);
        text.append(digit_str(v % 10));
        text
    }
}

/// The name of the unit of index `i`.
fn unit_str(i: usize) -> (name: &'static str)
    requires
        i <= 8,
    ensures
        name@ == unit_name(i as nat),
{
    if i == 0 {
        ""
    } else if i == 1 {
        "K"
    } else if i == 2 {
        "M"
    } else if i == 3 {
        "G"
    } else if i == 4 {
        "T"
    } else if i == 5 {
        "P"
    } else if i == 6 {
        "E"
    } else if i == 7 {
        "Z"
    } else {
        "Y"
    }
}

/// Writes a count or a size in a few characters: the number is divided by
/// 1024, rounding down, until it is below 2300, and the unit says how often.
pub fn u64_to_str(v: u64) -> (text: String)
    ensures
        text@ == size_text(v as nat),
{
    let mut n: u64 = v;
    let mut i: usize = 0;
    while n >= 2300 && i < 8
        invariant
            i <= 8,
            scaled(n as nat, i as nat) == scaled(v as nat, 0),
        decreases n,
    {
        assert(n >> 10 == n / 1024) by (bit_vector);
        n = n >> 10;
        i = i + 1;
    }
    let mut text = decimal_string(n);
    text.append(unit_str(i));
    text
}

/// Where the current scan stands.
#[derive(Clone, Copy, Debug, PartialEq, Eq, Structural)]
pub enum ScanStatus {
    /// Records are still to come.
    Computing,
    /// The marker of completion has arrived.
    Complete,
    /// The directory could not be listed, so no record will come.
    Unreadable,
}

/// A rectangle of the terminal, in character cells.
#[derive(Clone, Copy, Debug, PartialEq, Eq, Structural)]
pub struct Area {
    pub left: u16,
    pub top: u16,
    pub width: u16,
    pub height: u16,
}

/// What one drawing of the screen consists of.
#[derive(Debug, PartialEq, Eq)]
pub struct Frame {
    /// The terminal has changed its size since the last drawing: it is to be
    /// cleared, and the list laid out anew in `list_area`.
    pub resized: bool,
    pub title: String,
    pub title_area: Area,
    pub list_area: Area,
    pub hint_area: Area,
}

/// The mathematical content of a [`Frame`].
pub struct FrameView {
    pub resized: bool,
    pub title: Seq<char>,
    pub title_area: Area,
    pub list_area: Area,
    pub hint_area: Area,
}

impl View for Frame {
    type V = FrameView;

    open spec fn view(&self) -> FrameView {
        FrameView {
            resized: self.resized,
            title: self.title@,
            title_area: self.title_area,
            list_area: self.list_area,
            hint_area: self.hint_area,
        }
    }
}

/// What the display shows of the current scan, apart from the rows.
#[derive(Debug)]
pub struct Screen {
    root: String,
    status: ScanStatus,
    total_size: u64,
    dimensions: (u16, u16),
    list_area: Area,
}

/// The mathematical content of a [`Screen`].
pub struct ScreenView {
    /// The directory being shown.
    pub root: Seq<char>,
    pub status: ScanStatus,
    /// The sum of the sizes of the records received for the current scan,
    /// modulo 2 to the power 64.
    pub total_size: u64,
    /// The size of the terminal at the last drawing, width first.
    pub dimensions: (u16, u16),
    /// Where the list of rows is drawn.
    pub list_area: Area,
}

/// The screen as it is when a scan of `root` starts: no total yet, records
/// still to come, the layout as before.
pub open spec fn scanning(screen: ScreenView, root: Seq<char>) -> ScreenView {
    ScreenView { root, status: ScanStatus::Computing, total_size: 0, ..screen }
}

/// The title line: the root, and a note while the scan is not complete.
pub open spec fn title_text(root: Seq<char>, status: ScanStatus) -> Seq<char> {
    let name = "# **"@ + root + "**"@;
    match status {
        ScanStatus::Computing => name + " *computing...*"@,
        ScanStatus::Complete => name,
        ScanStatus::Unreadable => name + " *unreadable*"@,
    }
}

/// What a drawing on a terminal of `width` by `height` cells consists of,
/// and the screen after it. The title takes the first line and a line of
/// hints the last but one; when the terminal has changed its size, the list
/// is given the full width and all but four lines.
pub open spec fn drawing(screen: ScreenView, width: u16, height: u16) -> (ScreenView, FrameView) {
    let resized = screen.dimensions != (width, height);
    let list_area = if resized {
        Area { width, height: (height - 4) as u16, ..screen.list_area }
    } else {
        screen.list_area
    };
    (
        ScreenView { dimensions: (width, height), list_area, ..screen },
        FrameView {
            resized,
            title: title_text(screen.root, screen.status),
            title_area: Area { left: 0, top: 0, width, height: 1 },
            list_area,
            hint_area: Area { left: 0, top: (height - 2) as u16, width, height: 1 },
        },
    )
}

impl View for Screen {
    type V = ScreenView;

    closed spec fn view(&self) -> ScreenView {
        ScreenView {
            root: self.root@,
            status: self.status,
            total_size: self.total_size,
            dimensions: self.dimensions,
            list_area: self.list_area,
        }
    }
}

impl Screen {
    /// The screen for a first scan of `root`, before anything was drawn.
    pub fn new(root: String) -> (screen: Screen)
        ensures
            screen@ == (ScreenView {
                root: root@,
                status: ScanStatus::Computing,
                total_size: 0,
                dimensions: (0u16, 0u16),
                list_area: Area { left: 0, top: 1, width: 10, height: 10 },
            }),
    {
        Screen {
            root,
            status: ScanStatus::Computing,
            total_size: 0,
            dimensions: (0, 0),
            list_area: Area { left: 0, top: 1, width: 10, height: 10 },
        }
    }

    /// A scan of `path` starts: the total is cleared and records are awaited.
    pub fn set_new_root(&mut self, path: String)
        ensures
            final(self)@ == scanning(old(self)@, path@),
    {
        self.root = path;
        self.total_size = 0;
        self.status = ScanStatus::Computing;
    }

    /// The marker of completion has arrived. A scan that could not start
    /// stays unreadable.
    pub fn set_finished(&mut self)
        ensures
            final(self)@ == (ScreenView {
                status: if old(self)@.status == ScanStatus::Computing {
                    ScanStatus::Complete
                } else {
                    old(self)@.status
                },
                ..old(self)@
            }),
    {
        match self.status {
            ScanStatus::Computing => {
                self.status = ScanStatus::Complete;
            },
            _ => {},
        }
    }

    /// The directory could not be listed: no record of this scan will come.
    pub fn set_unreadable(&mut self)
        ensures
            final(self)@ == (ScreenView { status: ScanStatus::Unreadable, ..old(self)@ }),
    {
        self.status = ScanStatus::Unreadable;
    }

    /// Adds the size of one record to the running total, which wraps around
    /// at 2 to the power 64.
    pub fn add_to_total_size(&mut self, to_add: u64)
        ensures
            final(self)@ == (ScreenView {
                total_size: ((old(self)@.total_size + to_add) % 0x1_0000_0000_0000_0000) as u64,
                ..old(self)@
            }),
    {
        self.total_size = self.total_size.wrapping_add(to_add);
    }

    /// The directory being shown.
    pub fn get_root(&self) -> (root: &String)
        ensures
            root@ == self@.root,
    {
        &self.root
    }

    /// The running total of the current scan.
    pub fn total_size(&self) -> (total: u64)
        ensures
            total == self@.total_size,
    {
        self.total_size
    }

    /// Where the current scan stands.
    pub fn status(&self) -> (status: ScanStatus)
        ensures
            status == self@.status,
    {
        self.status
    }

    /// The title line.
    pub fn title(&self) -> (title: String)
        ensures
            title@ == title_text(self@.root, self@.status),
    {
        let mut title = String::from_str("# **");
        title.append(self.root.as_str());
        title.append("**");
        match self.status {
            ScanStatus::Computing => {
                title.append(" *computing...*");
            },
            ScanStatus::Complete => {},
            ScanStatus::Unreadable => {
                title.append(" *unreadable*");
            },
        }
        title
    }

    /// Whether [`Screen::display`] may be called for a terminal of this
    /// size: it needs a line for the hints, and four lines around the list
    /// where the list is laid out anew.
    pub fn can_display(&self, width: u16, height: u16) -> (ok: bool)
        ensures
            ok == (height >= 2 && (self@.dimensions != (width, height) ==> height >= 4)),
    {
        let resized = self.dimensions.0 != width || self.dimensions.1 != height;
        height >= 2 && (!resized || height >= 4)
    }

    /// Lays out one drawing for a terminal of `width` by `height` cells, and
    /// remembers the size.
    pub fn display(&mut self, width: u16, height: u16) -> (frame: Frame)
        requires
            height >= 2,
            old(self)@.dimensions != (width, height) ==> height >= 4,
        ensures
            (final(self)@, frame@) == drawing(old(self)@, width, height),
    {
        let resized = self.dimensions.0 != width || self.dimensions.1 != height;
        if resized {
            self.dimensions = (width, height);
            self.list_area.width = width;
            self.list_area.height = height - 4;
        }
        Frame {
            resized,
            title: self.title(),
            title_area: Area { left: 0, top: 0, width, height: 1 },
            list_area: self.list_area,
            hint_area: Area { left: 0, top: height - 2, width, height: 1 },
        }
    }
}

} // verus!
