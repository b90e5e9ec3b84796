//! What each page of the diagnostics application shows and where: the text
//! lines with their positions and colours, and the footer bar with its two
//! softkey labels. Colours are RGB565.
use vstd::prelude::*;
use vstd::string::{StrSliceExecFns, StringExecFns};
use crate::device::Page;

verus! {

/// Black, the page background.
pub const COLOR_BG: u16 = 0x0000;

/// White, the colour of ordinary text and of the softkey labels.
pub const COLOR_TEXT: u16 = 0xFFFF;

/// Green, the colour of titles and of the highlighted menu entry.
pub const COLOR_SEL: u16 = 0x07E0;

/// Dark grey, the colour of the footer bar.
pub const COLOR_FOOTER: u16 = 0x1082;

/// A line of text drawn with its top-left corner at `(x, y)`.
pub struct TextItem {
    pub x: i32,
    pub y: i32,
    pub text: String,
    pub color: u16,
}

/// A filled rectangle.
#[derive(Debug, Clone, Copy, PartialEq, Eq, Structural)]
pub struct Bar {
    pub x: i32,
    pub y: i32,
    pub width: i32,
    pub height: i32,
    pub color: u16,
}

/// The footer: a bar along the bottom of the screen with a label at each end.
pub struct Footer {
    pub bar: Bar,
    pub left: TextItem,
    pub right: TextItem,
}

/// Heap statistics as the platform reports them.
#[derive(Debug, Clone, Copy, PartialEq, Eq, Structural)]
pub struct HeapStats {
    pub current: i32,
    pub peak: i32,
    pub avail_heap_size: i32,
    pub malloc_count: i32,
    pub free_count: i32,
}

/// `t` is the text `text` at `(x, y)` in `color`.
pub open spec fn shows(t: TextItem, x: int, y: int, text: Seq<char>, color: u16) -> bool {
    t.x == x && t.y == y && t.text@ == text && t.color == color
}

/// The decimal digit `d`.
pub open spec fn digit(d: nat) -> char {
    (48 + d) as char
}

/// The decimal numeral of `n`, without leading zeros.
pub open spec fn decimal(n: nat) -> Seq<char>
    decreases n,
{
    if n < 10 {
        seq![digit(n)]
    } else {
        decimal(n / 10).push(digit(n % 10))
    }
}

/// The decimal numeral of `n`, with a leading `'-'` when it is negative, as
/// `%d` prints it.
pub open spec fn signed_decimal(n: int) -> Seq<char> {
    if n < 0 {
        seq!['-'] + decimal((-n) as nat)
    } else {
        decimal(n as nat)
    }
}

/// Appends the decimal numeral of `n` to `out`.
pub fn push_decimal(out: &mut String, n: u64)
    ensures
        final(out)@ == old(out)@ + decimal(n as nat),
    decreases n,
{
    if n >= 10 {
        push_decimal(out, n / 10);
    }
    let d = (n % 10) as usize;
    let digits = "0123456789";
    proof {
        reveal_strlit("0123456789");
    }
    out.append(digits.substring_char(d, d + 1));
    assert(digits@.subrange(d as int, d + 1) =~= seq![digit(d as nat)]);
}

/// Appends the decimal numeral of `n`, signed, to `out`.
pub fn push_signed(out: &mut String, n: i32)
    ensures
        final(out)@ == old(out)@ + signed_decimal(n as int),
{
    if n < 0 {
        proof {
            reveal_strlit("-");
        }
        out.append("-");
        let magnitude = (0 - (n as i64)) as u64;
        push_decimal(out, magnitude);
    } else {
        push_decimal(out, n as u64);
    }
}

/// `label` followed by the numeral of `n`.
fn labelled(label: &str, n: i32) -> (s: String)
    ensures
        s@ == label@ + signed_decimal(n as int),
{
    let mut s = String::from_str(label);
    push_signed(&mut s, n);
    s
}

/// The rectangle that clears a screen `width` by `height` pixels before a
/// page is drawn.
pub fn background(width: i32, height: i32) -> (b: Bar)
    ensures
        b == (Bar { x: 0, y: 0, width, height, color: COLOR_BG }),
{
    Bar { x: 0, y: 0, width, height, color: COLOR_BG }
}

/// The labels at the two ends of the footer of `page`.
pub fn footer_labels(page: Page) -> (r: (&'static str, &'static str))
    ensures
        page == Page::Menu ==> r.0@ == "Select"@ && r.1@ == "Exit"@,
        page != Page::Menu ==> r.0@ == ""@ && r.1@ == "Back"@,
{
    match page {
        Page::Menu => ("Select", "Exit"),
        _ => ("", "Back"),
    }
}

/// The footer on a screen `screen_width` by `screen_height` with characters
/// `char_height` high: a bar four pixels taller than a character along the
/// bottom, `left` two pixels in from its left end, and `right`, which is
/// `right_width` pixels wide, two pixels in from its right end.
pub fn footer_layout(
    screen_width: i32,
    screen_height: i32,
    char_height: i32,
    left: &str,
    right: &str,
    right_width: i32,
) -> (f: Footer)
    requires
        i32::MIN <= char_height + 4 <= i32::MAX,
        i32::MIN <= screen_height - (char_height + 4) <= i32::MAX,
        i32::MIN <= screen_height - (char_height + 4) + 2 <= i32::MAX,
        i32::MIN <= screen_width - right_width <= i32::MAX,
        i32::MIN <= screen_width - right_width - 2 <= i32::MAX,
    ensures
        f.bar == (Bar {
            x: 0,
            y: (screen_height - (char_height + 4)) as i32,
            width: screen_width,
            height: (char_height + 4) as i32,
            color: COLOR_FOOTER,
        }),
        shows(f.left, 2, screen_height - (char_height + 4) + 2, left@, COLOR_TEXT),
        shows(
            f.right,
            screen_width - right_width - 2,
            screen_height - (char_height + 4) + 2,
            right@,
            COLOR_TEXT,
        ),
{
    let h = char_height + 4;
    let y = screen_height - h;
    Footer {
        bar: Bar { x: 0, y, width: screen_width, height: h, color: COLOR_FOOTER },
        left: TextItem { x: 2, y: y + 2, text: String::from_str(left), color: COLOR_TEXT },
        right: TextItem {
            x: screen_width - right_width - 2,
            y: y + 2,
            text: String::from_str(right),
            color: COLOR_TEXT,
        },
    }
}

/// The text of menu entry `i`.
pub open spec fn menu_entry(i: int) -> Seq<char> {
    if i == 0 {
        "RAM Test"@
    } else {
        "Screen"@
    }
}

/// Line `j` (from one) of the menu page: entry `j - 1`, at `x = 8`, the
/// first at `y = 40` and each next one a character height plus eight pixels
/// lower, prefixed by `"> "` and green when highlighted, by two spaces and
/// white otherwise.
pub open spec fn menu_line_shows(t: TextItem, j: int, cursor: i32, char_height: i32) -> bool {
    let i = j - 1;
    shows(
        t,
        8,
        40 + i * (char_height + 8),
        (if i == cursor {
            "> "@
        } else {
            "  "@
        }) + menu_entry(i),
        if i == cursor {
            COLOR_SEL
        } else {
            COLOR_TEXT
        },
    )
}

/// The menu page with entry `cursor` highlighted, on a screen whose
/// characters are `char_height` high: the title at `(8, 8)`, then the two
/// entries.
pub fn menu_lines(cursor: i32, char_height: i32) -> (lines: Vec<TextItem>)
    requires
        40 + char_height + 8 <= i32::MAX,
    ensures
        lines@.len() == 3,
        shows(lines@[0], 8, 8, "Diagnostics"@, COLOR_SEL),
        forall|j: int| 1 <= j < 3 ==> menu_line_shows(#[trigger] lines@[j], j, cursor, char_height),
{
    let row = char_height + 8;
    let mut lines: Vec<TextItem> = Vec::new();
    lines.push(TextItem { x: 8, y: 8, text: String::from_str("Diagnostics"), color: COLOR_SEL });
    let entries = ["RAM Test", "Screen"];
    let mut i: i32 = 0;
    while i < 2
        invariant
            0 <= i <= 2,
            row == char_height + 8,
            40 + row <= i32::MAX,
            entries@[0]@ == "RAM Test"@,
            entries@[1]@ == "Screen"@,
            lines@.len() == i + 1,
            shows(lines@[0], 8, 8, "Diagnostics"@, COLOR_SEL),
            forall|j: int|
                1 <= j <= i ==> menu_line_shows(#[trigger] lines@[j], j, cursor, char_height),
        decreases 2 - i,
    {
        let selected = i == cursor;
        let mut text = if selected {
            String::from_str("> ")
        } else {
            String::from_str("  ")
        };
        text.append(entries[i as usize]);
        let y = if i == 0 { 40 } else { 40 + row };
        let color = if selected { COLOR_SEL } else { COLOR_TEXT };
        lines.push(TextItem { x: 8, y, text, color });
        assert(menu_line_shows(lines@[i + 1], i + 1, cursor, char_height));
        i = i + 1;
    }
    lines
}

/// A line of ordinary text at `x = 8` and height `y`.
fn body_line(y: i32, text: String) -> (t: TextItem)
    ensures
        shows(t, 8, y as int, text@, COLOR_TEXT),
{
    TextItem { x: 8, y, text, color: COLOR_TEXT }
}

/// A title at `(8, 8)`.
fn title_line(text: &str) -> (t: TextItem)
    ensures
        shows(t, 8, 8, text@, COLOR_SEL),
{
    TextItem { x: 8, y: 8, text: String::from_str(text), color: COLOR_SEL }
}

/// The heap page: its title, then five counters from `stats` and the total
/// memory of the runtime, one per line from `y = 40` in steps of 20 pixels.
pub fn ram_lines(stats: HeapStats, total_mem: u32) -> (lines: Vec<TextItem>)
    ensures
        lines@.len() == 7,
        shows(lines@[0], 8, 8, "Heap Information"@, COLOR_SEL),
        shows(lines@[1], 8, 40, "Current : "@ + signed_decimal(stats.current as int), COLOR_TEXT),
        shows(lines@[2], 8, 60, "Peak    : "@ + signed_decimal(stats.peak as int), COLOR_TEXT),
        shows(
            lines@[3],
            8,
            80,
            "Free    : "@ + signed_decimal(stats.avail_heap_size as int),
            COLOR_TEXT,
        ),
        shows(
            lines@[4],
            8,
            100,
            "Mallocs : "@ + signed_decimal(stats.malloc_count as int),
            COLOR_TEXT,
        ),
        shows(lines@[5], 8, 120, "Frees   : "@ + signed_decimal(stats.free_count as int), COLOR_TEXT),
        shows(lines@[6], 8, 140, "MRE Mem : "@ + decimal(total_mem as nat), COLOR_TEXT),
{
    let mut lines: Vec<TextItem> = Vec::new();
    lines.push(title_line("Heap Information"));
    lines.push(body_line(40, labelled("Current : ", stats.current)));
    lines.push(body_line(60, labelled("Peak    : ", stats.peak)));
    lines.push(body_line(80, labelled("Free    : ", stats.avail_heap_size)));
    lines.push(body_line(100, labelled("Mallocs : ", stats.malloc_count)));
    lines.push(body_line(120, labelled("Frees   : ", stats.free_count)));
    let mut mem = String::from_str("MRE Mem : ");
    push_decimal(&mut mem, total_mem as u64);
    lines.push(body_line(140, mem));
    lines
}

/// `n / 2` rounded toward zero, as integer division in C and Rust gives it.
pub open spec fn half(n: int) -> int {
    if n >= 0 {
        n / 2
    } else {
        -((-n) / 2)
    }
}

/// `n / 2` rounded toward zero.
fn half_of(n: i32) -> (h: i32)
    ensures
        h == half(n as int),
{
    let wide = n as i64;
    if wide >= 0 {
        (wide / 2) as i32
    } else {
        (0 - ((0 - wide) / 2)) as i32
    }
}

/// The screen page for a screen `width` by `height` pixels: its title, then
/// the width, the height, the centre, the colour format and the layer, one
/// per line from `y = 40` in steps of 20 pixels.
pub fn screen_lines(width: i32, height: i32) -> (lines: Vec<TextItem>)
    ensures
        lines@.len() == 6,
        shows(lines@[0], 8, 8, "Screen Information"@, COLOR_SEL),
        shows(lines@[1], 8, 40, "Width  : "@ + signed_decimal(width as int) + " px"@, COLOR_TEXT),
        shows(
            lines@[2],
            8,
            60,
            "Height : "@ + signed_decimal(height as int) + " px"@,
            COLOR_TEXT,
        ),
        shows(
            lines@[3],
            8,
            80,
            "Center : "@ + signed_decimal(half(width as int)) + ","@ + signed_decimal(
                half(height as int),
            ),
            COLOR_TEXT,
        ),
        shows(lines@[4], 8, 100, "Color  : RGB565"@, COLOR_TEXT),
        shows(lines@[5], 8, 120, "Layer  : Primary"@, COLOR_TEXT),
{
    let mut lines: Vec<TextItem> = Vec::new();
    lines.push(title_line("Screen Information"));
    let mut w = labelled("Width  : ", width);
    w.append(" px");
    lines.push(body_line(40, w));
    let mut h = labelled("Height : ", height);
    h.append(" px");
    lines.push(body_line(60, h));
    let mut c = labelled("Center : ", half_of(width));
    c.append(",");
    push_signed(&mut c, half_of(height));
    lines.push(body_line(80, c));
    lines.push(body_line(100, String::from_str("Color  : RGB565")));
    lines.push(body_line(120, String::from_str("Layer  : Primary")));
    lines
}

/// The number that the decimal digits `s` spell.
pub open spec fn numeral_value(s: Seq<char>) -> int
    decreases s.len(),
{
    if s.len() == 0 {
        0
    } else {
        numeral_value(s.drop_last()) * 10 + (s.last() as int - 48)
    }
}

/// The numeral printed for `n` is made of decimal digits, starts with a
/// zero only when it is `"0"`, and reads back as `n`.
pub proof fn law_decimal_reads_back(n: nat)
    ensures
        forall|i: int| 0 <= i < decimal(n).len() ==> '0' <= #[trigger] decimal(n)[i] <= '9',
        decimal(n)[0] == '0' ==> n == 0,
        numeral_value(decimal(n)) == n,
    decreases n,
{
    if n >= 10 {
        law_decimal_reads_back(n / 10);
        assert(decimal(n).drop_last() =~= decimal(n / 10));
        assert(decimal(n)[0] == decimal(n / 10)[0]);
        assert(digit(n % 10) as int == 48 + n % 10);
        assert((n / 10) * 10 + n % 10 == n) by (nonlinear_arith);
        assert(decimal(n).last() == digit(n % 10));
        assert(numeral_value(decimal(n)) == numeral_value(decimal(n / 10)) * 10 + (digit(n % 10)
            as int - 48));
    } else {
        assert(seq![digit(n)].drop_last() =~= Seq::<char>::empty());
        assert(digit(n) as int == 48 + n);
        assert(numeral_value(Seq::<char>::empty()) == 0);
        assert(numeral_value(seq![digit(n)]) == numeral_value(seq![digit(n)].drop_last()) * 10 + (
        digit(n) as int - 48));
    }
}

} // verus!
