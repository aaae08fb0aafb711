//! The progress that is drawn over a frame while a federation member is dialled.

use crate::client::switching::FederationConnectingUi;
use vstd::prelude::*;

verus! {

/// What `UnicodeWidthChar::width` answers for a character.
pub uninterp spec fn char_width(c: char) -> Option<usize>;

/// `UnicodeWidthChar::width` gives the columns that a character takes, as a function of the
/// character: one for printable ASCII, none for the control characters below 160. The tables for
/// the others are not restated here.
#[verifier::external_body]
fn columns_of_char(c: char) -> (r: Option<usize>)
    ensures
        r == char_width(c),
        0x20 <= c as u32 && (c as u32) < 0x7f ==> r == Some(1usize),
        (c as u32) < 0x20 || (0x7f <= c as u32 && (c as u32) < 0xa0) ==> r is None,
{
    unicode_width::UnicodeWidthChar::width(c)
}

/// What `UnicodeWidthStr::width` answers for a text.
pub uninterp spec fn text_width(text: Seq<char>) -> usize;

/// `UnicodeWidthStr::width` gives the columns that a text takes, as a function of the text. Its
/// rules for characters that combine are not restated here.
#[verifier::external_body]
fn columns_of_text(text: &str) -> (r: usize)
    ensures
        r == text_width(text@),
{
    unicode_width::UnicodeWidthStr::width(text)
}

/// A cell of a frame.
#[derive(Debug, PartialEq, Eq)]
pub struct CellData {
    pub symbol: String,
    pub fg: u32,
    pub bg: u32,
    pub modifier: u16,
    pub skip: bool,
    pub hyperlink: Option<u32>,
}

/// A cell, with its symbol as a sequence.
#[verifier::ext_equal]
pub struct Cell {
    pub symbol: Seq<char>,
    pub fg: u32,
    pub bg: u32,
    pub modifier: u16,
    pub skip: bool,
    pub hyperlink: Option<u32>,
}

impl View for CellData {
    type V = Cell;

    open spec fn view(&self) -> Cell {
        Cell {
            symbol: self.symbol@,
            fg: self.fg,
            bg: self.bg,
            modifier: self.modifier,
            skip: self.skip,
            hyperlink: self.hyperlink,
        }
    }
}

#[derive(Debug, Clone, Copy, PartialEq, Eq, Structural)]
pub struct FrameCursor {
    pub x: u16,
    pub y: u16,
    pub visible: bool,
    pub shape: u8,
}

/// What a server shows.
#[derive(Debug, PartialEq, Eq)]
pub struct FrameData {
    /// The cells, row by row.
    pub cells: Vec<CellData>,
    pub width: u16,
    pub height: u16,
    pub cursor: Option<FrameCursor>,
    pub hyperlinks: Vec<String>,
    pub graphics: Vec<u8>,
}

pub open spec fn cells_of(cells: Seq<CellData>) -> Seq<Cell> {
    Seq::new(cells.len(), |i: int| cells[i]@)
}

/// The colours and the weight that the progress is drawn in.
#[derive(Debug, Clone, Copy, PartialEq, Eq, Structural)]
pub struct PanelColors {
    pub background: u32,
    pub border: u32,
    pub text: u32,
    /// The modifier for bold.
    pub bold: u16,
}

/// Where the progress is drawn: a box of three rows.
#[derive(Debug, Clone, Copy, PartialEq, Eq, Structural)]
pub struct Panel {
    /// The columns of the frame.
    pub stride: u16,
    pub x: u16,
    pub y: u16,
    pub width: u16,
}

/// The cells with one drawn over. What lies beyond the cells is not drawn.
pub open spec fn put(
    cells: Seq<Cell>,
    panel: Panel,
    column: int,
    row: int,
    symbol: Seq<char>,
    fg: u32,
    bg: u32,
    modifier: u16,
    skip: bool,
) -> Seq<Cell> {
    let index = row * panel.stride + column;
    if 0 <= index < cells.len() {
        cells.update(index, Cell { symbol, fg, bg, modifier, skip, hyperlink: None })
    } else {
        cells
    }
}

/// A row of the box, blank from a column on.
pub open spec fn blanked(
    cells: Seq<Cell>,
    panel: Panel,
    row: int,
    from: int,
    colors: PanelColors,
) -> Seq<Cell>
    decreases panel.x + panel.width - from,
{
    if from >= panel.x + panel.width {
        cells
    } else {
        blanked(
            put(
                cells,
                panel,
                from,
                row,
                seq![' '],
                colors.text,
                colors.background,
                0,
                false,
            ),
            panel,
            row,
            from + 1,
            colors,
        )
    }
}

/// The lines above and below, from a column on.
pub open spec fn ruled(cells: Seq<Cell>, panel: Panel, from: int, colors: PanelColors) -> Seq<Cell>
    decreases panel.x + panel.width - 1 - from,
{
    if from >= panel.x + panel.width - 1 {
        cells
    } else {
        ruled(
            edge(
                edge(cells, panel, from, panel.y as int, '─', colors),
                panel,
                from,
                panel.y + 2,
                '─',
                colors,
            ),
            panel,
            from + 1,
            colors,
        )
    }
}

/// A piece of the border.
pub open spec fn edge(
    cells: Seq<Cell>,
    panel: Panel,
    column: int,
    row: int,
    symbol: char,
    colors: PanelColors,
) -> Seq<Cell> {
    put(cells, panel, column, row, seq![symbol], colors.border, colors.background, 0, false)
}

/// The columns that a character takes.
pub open spec fn columns(c: char) -> int {
    match char_width(c) {
        Some(w) => w as int % 65536,
        None => 0,
    }
}

/// The message, from a character and a column on. What has no width, or no room, is left out.
pub open spec fn lettered(
    cells: Seq<Cell>,
    panel: Panel,
    message: Seq<char>,
    i: int,
    column: int,
    colors: PanelColors,
) -> Seq<Cell>
    decreases message.len() - i,
{
    if i < 0 || i >= message.len() {
        cells
    } else {
        let w = columns(message[i]);
        if w == 0 || column + w > panel.x + panel.width - 1 {
            lettered(cells, panel, message, i + 1, column, colors)
        } else {
            let one = put(
                cells,
                panel,
                column,
                panel.y + 1,
                seq![message[i]],
                colors.text,
                colors.background,
                colors.bold,
                false,
            );
            let two = if w == 2 {
                put(
                    one,
                    panel,
                    column + 1,
                    panel.y + 1,
                    seq![' '],
                    colors.text,
                    colors.background,
                    colors.bold,
                    true,
                )
            } else {
                one
            };
            lettered(two, panel, message, i + 1, column + w, colors)
        }
    }
}

/// The pictures that turn while the client waits.
pub open spec fn spinner(tick: u64) -> char {
    if tick % 4 == 0 {
        '◐'
    } else if tick % 4 == 1 {
        '◓'
    } else if tick % 4 == 2 {
        '◑'
    } else {
        '◒'
    }
}

/// The box with its border.
pub open spec fn boxed(cells: Seq<Cell>, panel: Panel, colors: PanelColors) -> Seq<Cell> {
    let x = panel.x as int;
    let y = panel.y as int;
    let right = panel.x + panel.width - 1;
    let blank = blanked(
        blanked(blanked(cells, panel, y, x, colors), panel, y + 1, x, colors),
        panel,
        y + 2,
        x,
        colors,
    );
    let top = edge(edge(blank, panel, x, y, '╭', colors), panel, right, y, '╮', colors);
    let middle = edge(edge(top, panel, x, y + 1, '│', colors), panel, right, y + 1, '│', colors);
    let bottom = edge(edge(middle, panel, x, y + 2, '╰', colors), panel, right, y + 2, '╯', colors);
    ruled(bottom, panel, x + 1, colors)
}

/// The box with the spinner and the message in it.
pub open spec fn drawn(
    cells: Seq<Cell>,
    panel: Panel,
    message: Seq<char>,
    tick: u64,
    colors: PanelColors,
) -> Seq<Cell> {
    let with_spinner = put(
        boxed(cells, panel, colors),
        panel,
        panel.x + 1,
        panel.y + 1,
        seq![spinner(tick)],
        colors.border,
        colors.background,
        colors.bold,
        false,
    );
    lettered(with_spinner, panel, message, 0, panel.x + 3, colors)
}

/// The box in the middle of a frame, wide enough for a message of some columns.
pub open spec fn panel_for(width: u16, height: u16, message_columns: int) -> Panel {
    let wanted = message_columns % 65536 + 4;
    let wide = if wanted < width {
        wanted
    } else {
        width as int
    };
    Panel {
        stride: width,
        x: ((width - wide) / 2) as u16,
        y: ((height - 3) / 2) as u16,
        width: wide as u16,
    }
}

/// The most columns that a message in the box can take.
pub fn max_content_width(frame_width: u16) -> (r: usize)
    ensures
        r == (if frame_width > 6 {
            frame_width - 6
        } else {
            0
        }),
{
    if frame_width > 6 {
        (frame_width - 6) as usize
    } else {
        0
    }
}

fn copy_cells(cells: &Vec<CellData>) -> (r: Vec<CellData>)
    ensures
        cells_of(r@) == cells_of(cells@),
{
    let mut out: Vec<CellData> = Vec::new();
    let mut i: usize = 0;
    while i < cells.len()
        invariant
            i <= cells@.len(),
            out@.len() == i,
            forall|k: int| 0 <= k < i ==> (#[trigger] out@[k])@ == cells@[k]@,
        decreases cells@.len() - i,
    {
        let cell = &cells[i];
        out.push(
            CellData {
                symbol: cell.symbol.clone(),
                fg: cell.fg,
                bg: cell.bg,
                modifier: cell.modifier,
                skip: cell.skip,
                hyperlink: cell.hyperlink,
            },
        );
        i += 1;
    }
    assert(cells_of(out@) =~= cells_of(cells@));
    out
}

fn text_of_char(c: char) -> (r: String)
    ensures
        r@ == seq![c],
{
    let mut text = String::new();
    text.push(c);
    assert(text@ =~= seq![c]);
    text
}

fn put_cell(
    cells: &mut Vec<CellData>,
    panel: Panel,
    column: u16,
    row: u16,
    symbol: char,
    fg: u32,
    bg: u32,
    modifier: u16,
    skip: bool,
)
    ensures
        cells_of(final(cells)@) == put(
            cells_of(old(cells)@),
            panel,
            column as int,
            row as int,
            seq![symbol],
            fg,
            bg,
            modifier,
            skip,
        ),
{
    let stride = panel.stride;
    assert(row * stride <= 65535 * 65535) by (nonlinear_arith)
        requires
            row <= 65535,
            stride <= 65535,
    ;
    assert(row * stride >= 0) by (nonlinear_arith)
        requires
            row >= 0,
            stride >= 0,
    ;
    let index: usize = row as usize * stride as usize + column as usize;
    if index < cells.len() {
        cells.set(
            index,
            CellData {
                symbol: text_of_char(symbol),
                fg,
                bg,
                modifier,
                skip,
                hyperlink: None,
            },
        );
    }
    assert(cells_of(cells@) =~= put(
        cells_of(old(cells)@),
        panel,
        column as int,
        row as int,
        seq![symbol],
        fg,
        bg,
        modifier,
        skip,
    ));
}

fn blank_row(cells: &mut Vec<CellData>, panel: Panel, row: u16, colors: PanelColors)
    requires
        panel.x + panel.width <= u16::MAX,
    ensures
        cells_of(final(cells)@) == blanked(
            cells_of(old(cells)@),
            panel,
            row as int,
            panel.x as int,
            colors,
        ),
{
    let end: u16 = panel.x + panel.width;
    let mut column: u16 = panel.x;
    let ghost all = blanked(cells_of(cells@), panel, row as int, panel.x as int, colors);
    while column < end
        invariant
            panel.x <= column <= end == panel.x + panel.width,
            all == blanked(cells_of(cells@), panel, row as int, column as int, colors),
        decreases end - column,
    {
        put_cell(cells, panel, column, row, ' ', colors.text, colors.background, 0, false);
        column += 1;
    }
}

fn put_edge(
    cells: &mut Vec<CellData>,
    panel: Panel,
    column: u16,
    row: u16,
    symbol: char,
    colors: PanelColors,
)
    ensures
        cells_of(final(cells)@) == edge(
            cells_of(old(cells)@),
            panel,
            column as int,
            row as int,
            symbol,
            colors,
        ),
{
    put_cell(cells, panel, column, row, symbol, colors.border, colors.background, 0, false);
}

fn draw_box(cells: &mut Vec<CellData>, panel: Panel, colors: PanelColors)
    requires
        4 <= panel.width,
        panel.x + panel.width <= u16::MAX,
        panel.y + 2 <= u16::MAX,
    ensures
        cells_of(final(cells)@) == boxed(cells_of(old(cells)@), panel, colors),
{
    let x = panel.x;
    let y = panel.y;
    let right: u16 = x + panel.width - 1;
    blank_row(cells, panel, y, colors);
    blank_row(cells, panel, y + 1, colors);
    blank_row(cells, panel, y + 2, colors);
    put_edge(cells, panel, x, y, '╭', colors);
    put_edge(cells, panel, right, y, '╮', colors);
    put_edge(cells, panel, x, y + 1, '│', colors);
    put_edge(cells, panel, right, y + 1, '│', colors);
    put_edge(cells, panel, x, y + 2, '╰', colors);
    put_edge(cells, panel, right, y + 2, '╯', colors);
    let mut column: u16 = x + 1;
    let ghost all = ruled(cells_of(cells@), panel, column as int, colors);
    while column < right
        invariant
            panel.y + 2 <= u16::MAX,
            y == panel.y,
            x < column <= right == panel.x + panel.width - 1,
            all == ruled(cells_of(cells@), panel, column as int, colors),
        decreases right - column,
    {
        put_edge(cells, panel, column, y, '─', colors);
        put_edge(cells, panel, column, y + 2, '─', colors);
        column += 1;
    }
}

fn draw_message(cells: &mut Vec<CellData>, panel: Panel, message: &str, colors: PanelColors)
    requires
        4 <= panel.width,
        panel.x + panel.width <= u16::MAX,
        panel.y + 2 <= u16::MAX,
    ensures
        cells_of(final(cells)@) == lettered(
            cells_of(old(cells)@),
            panel,
            message@,
            0,
            panel.x + 3,
            colors,
        ),
{
    let chars = crate::text::chars_of(message);
    let row: u16 = panel.y + 1;
    let right: u16 = panel.x + panel.width - 1;
    let mut column: u16 = panel.x + 3;
    let mut i: usize = 0;
    let ghost all = lettered(cells_of(cells@), panel, message@, 0, column as int, colors);
    while i < chars.len()
        invariant
            chars@ == message@,
            i <= chars@.len(),
            right == panel.x + panel.width - 1,
            row == panel.y + 1,
            column <= right,
            all == lettered(cells_of(cells@), panel, message@, i as int, column as int, colors),
        decreases chars@.len() - i,
    {
        let c = chars[i];
        let width: u16 = match columns_of_char(c) {
            Some(w) => (w % 65536) as u16,
            None => 0,
        };
        if width != 0 && width <= right - column {
            put_cell(
                cells,
                panel,
                column,
                row,
                c,
                colors.text,
                colors.background,
                colors.bold,
                false,
            );
            if width == 2 {
                put_cell(
                    cells,
                    panel,
                    column + 1,
                    row,
                    ' ',
                    colors.text,
                    colors.background,
                    colors.bold,
                    true,
                );
            }
            column += width;
        }
        i += 1;
    }
}

fn copy_texts(texts: &Vec<String>) -> (r: Vec<String>)
    ensures
        r@ == texts@,
{
    let mut out: Vec<String> = Vec::new();
    let mut i: usize = 0;
    while i < texts.len()
        invariant
            i <= texts@.len(),
            out@ == texts@.take(i as int),
        decreases texts@.len() - i,
    {
        out.push(texts[i].clone());
        i += 1;
        assert(texts@.take(i as int) =~= texts@.take(i - 1).push(texts@[i - 1]));
    }
    assert(texts@.take(i as int) =~= texts@);
    out
}

/// `r` is `base` with the progress drawn over it, and without its cursor and its images. A frame
/// that is too small for the box only loses those.
pub open spec fn covered(
    r: FrameData,
    base: FrameData,
    message: Seq<char>,
    tick: u64,
    colors: PanelColors,
) -> bool {
    &&& r.width == base.width
    &&& r.height == base.height
    &&& r.hyperlinks@ == base.hyperlinks@
    &&& r.graphics@ == Seq::<u8>::empty()
    &&& r.cursor == (match base.cursor {
        Some(cursor) => Some(FrameCursor { visible: false, ..cursor }),
        None => None,
    })
    &&& cells_of(r.cells@) == (if base.width < 12 || base.height < 3 {
        cells_of(base.cells@)
    } else {
        drawn(
            cells_of(base.cells@),
            panel_for(base.width, base.height, text_width(message) as int),
            message,
            tick,
            colors,
        )
    })
}

/// The frame with the progress drawn over it.
pub fn federation_connecting_frame(
    base: &FrameData,
    message: &str,
    tick: u64,
    colors: PanelColors,
) -> (r: FrameData)
    ensures
        covered(r, *base, message@, tick, colors),
{
    let mut cells = copy_cells(&base.cells);
    let cursor = match base.cursor {
        Some(cursor) => Some(FrameCursor { visible: false, ..cursor }),
        None => None,
    };
    if base.width >= 12 && base.height >= 3 {
        let wanted: u32 = (columns_of_text(message) % 65536) as u32 + 4;
        let width: u16 = if wanted < base.width as u32 {
            wanted as u16
        } else {
            base.width
        };
        let panel = Panel {
            stride: base.width,
            x: (base.width - width) / 2,
            y: (base.height - 3) / 2,
            width,
        };
        draw_box(&mut cells, panel, colors);
        let picture = match tick % 4 {
            0 => '◐',
            1 => '◓',
            2 => '◑',
            _ => '◒',
        };
        put_cell(
            &mut cells,
            panel,
            panel.x + 1,
            panel.y + 1,
            picture,
            colors.border,
            colors.background,
            colors.bold,
            false,
        );
        draw_message(&mut cells, panel, message, colors);
    }
    FrameData {
        cells,
        width: base.width,
        height: base.height,
        cursor,
        hyperlinks: copy_texts(&base.hyperlinks),
        graphics: Vec::new(),
    }
}

/// The frame as it is shown: with the progress over it while a member is dialled.
pub fn displayed_frame(
    frame: FrameData,
    connecting: &Option<FederationConnectingUi>,
    colors: PanelColors,
) -> (r: FrameData)
    ensures
        match *connecting {
            Some(progress) => covered(r, frame, progress.text(), progress.tick, colors),
            None => r == frame,
        },
{
    match connecting {
        Some(progress) => {
            let message = progress.message();
            federation_connecting_frame(&frame, message.as_str(), progress.tick, colors)
        },
        None => frame,
    }
}

/// A cell of the box.
pub open spec fn in_panel(panel: Panel, index: int) -> bool {
    exists|row: int, column: int|
        #[trigger] place(panel, row, column) == index && panel.y <= row < panel.y + 3 && panel.x
            <= column < panel.x + panel.width
}

pub open spec fn place(panel: Panel, row: int, column: int) -> int {
    row * panel.stride + column
}

/// Only cells of the box differ.
pub open spec fn only_panel(before: Seq<Cell>, after: Seq<Cell>, panel: Panel) -> bool {
    &&& after.len() == before.len()
    &&& forall|k: int|
        0 <= k < before.len() && !in_panel(panel, k) ==> #[trigger] after[k] == before[k]
}

proof fn lemma_put(
    start: Seq<Cell>,
    cells: Seq<Cell>,
    panel: Panel,
    column: int,
    row: int,
    symbol: Seq<char>,
    fg: u32,
    bg: u32,
    modifier: u16,
    skip: bool,
)
    requires
        only_panel(start, cells, panel),
        panel.y <= row < panel.y + 3,
        panel.x <= column < panel.x + panel.width,
    ensures
        only_panel(start, put(cells, panel, column, row, symbol, fg, bg, modifier, skip), panel),
{
    assert(in_panel(panel, place(panel, row, column)));
}

proof fn lemma_blanked(
    start: Seq<Cell>,
    cells: Seq<Cell>,
    panel: Panel,
    row: int,
    from: int,
    colors: PanelColors,
)
    requires
        only_panel(start, cells, panel),
        panel.y <= row < panel.y + 3,
        panel.x <= from,
    ensures
        only_panel(start, blanked(cells, panel, row, from, colors), panel),
    decreases panel.x + panel.width - from,
{
    if from < panel.x + panel.width {
        lemma_put(
            start,
            cells,
            panel,
            from,
            row,
            seq![' '],
            colors.text,
            colors.background,
            0,
            false,
        );
        lemma_blanked(
            start,
            put(cells, panel, from, row, seq![' '], colors.text, colors.background, 0, false),
            panel,
            row,
            from + 1,
            colors,
        );
    }
}

proof fn lemma_edge(
    start: Seq<Cell>,
    cells: Seq<Cell>,
    panel: Panel,
    column: int,
    row: int,
    symbol: char,
    colors: PanelColors,
)
    requires
        only_panel(start, cells, panel),
        panel.y <= row < panel.y + 3,
        panel.x <= column < panel.x + panel.width,
    ensures
        only_panel(start, edge(cells, panel, column, row, symbol, colors), panel),
{
    lemma_put(
        start,
        cells,
        panel,
        column,
        row,
        seq![symbol],
        colors.border,
        colors.background,
        0,
        false,
    );
}

proof fn lemma_ruled(
    start: Seq<Cell>,
    cells: Seq<Cell>,
    panel: Panel,
    from: int,
    colors: PanelColors,
)
    requires
        only_panel(start, cells, panel),
        panel.x <= from,
    ensures
        only_panel(start, ruled(cells, panel, from, colors), panel),
    decreases panel.x + panel.width - 1 - from,
{
    if from < panel.x + panel.width - 1 {
        let top = edge(cells, panel, from, panel.y as int, '─', colors);
        lemma_edge(start, cells, panel, from, panel.y as int, '─', colors);
        lemma_edge(start, top, panel, from, panel.y + 2, '─', colors);
        lemma_ruled(
            start,
            edge(top, panel, from, panel.y + 2, '─', colors),
            panel,
            from + 1,
            colors,
        );
    }
}

proof fn lemma_boxed(start: Seq<Cell>, panel: Panel, colors: PanelColors)
    requires
        4 <= panel.width,
    ensures
        only_panel(start, boxed(start, panel, colors), panel),
{
    let x = panel.x as int;
    let y = panel.y as int;
    let right = panel.x + panel.width - 1;
    let b1 = blanked(start, panel, y, x, colors);
    let b2 = blanked(b1, panel, y + 1, x, colors);
    let b3 = blanked(b2, panel, y + 2, x, colors);
    lemma_blanked(start, start, panel, y, x, colors);
    lemma_blanked(start, b1, panel, y + 1, x, colors);
    lemma_blanked(start, b2, panel, y + 2, x, colors);
    let e1 = edge(b3, panel, x, y, '╭', colors);
    lemma_edge(start, b3, panel, x, y, '╭', colors);
    let e2 = edge(e1, panel, right, y, '╮', colors);
    lemma_edge(start, e1, panel, right, y, '╮', colors);
    let e3 = edge(e2, panel, x, y + 1, '│', colors);
    lemma_edge(start, e2, panel, x, y + 1, '│', colors);
    let e4 = edge(e3, panel, right, y + 1, '│', colors);
    lemma_edge(start, e3, panel, right, y + 1, '│', colors);
    let e5 = edge(e4, panel, x, y + 2, '╰', colors);
    lemma_edge(start, e4, panel, x, y + 2, '╰', colors);
    let e6 = edge(e5, panel, right, y + 2, '╯', colors);
    lemma_edge(start, e5, panel, right, y + 2, '╯', colors);
    lemma_ruled(start, e6, panel, x + 1, colors);
}

proof fn lemma_lettered(
    start: Seq<Cell>,
    cells: Seq<Cell>,
    panel: Panel,
    message: Seq<char>,
    i: int,
    column: int,
    colors: PanelColors,
)
    requires
        only_panel(start, cells, panel),
        panel.x <= column,
    ensures
        only_panel(start, lettered(cells, panel, message, i, column, colors), panel),
    decreases message.len() - i,
{
    if 0 <= i < message.len() {
        let w = columns(message[i]);
        if w == 0 || column + w > panel.x + panel.width - 1 {
            lemma_lettered(start, cells, panel, message, i + 1, column, colors);
        } else {
            let one = put(
                cells,
                panel,
                column,
                panel.y + 1,
                seq![message[i]],
                colors.text,
                colors.background,
                colors.bold,
                false,
            );
            lemma_put(
                start,
                cells,
                panel,
                column,
                panel.y + 1,
                seq![message[i]],
                colors.text,
                colors.background,
                colors.bold,
                false,
            );
            if w == 2 {
                lemma_put(
                    start,
                    one,
                    panel,
                    column + 1,
                    panel.y + 1,
                    seq![' '],
                    colors.text,
                    colors.background,
                    colors.bold,
                    true,
                );
                lemma_lettered(
                    start,
                    put(
                        one,
                        panel,
                        column + 1,
                        panel.y + 1,
                        seq![' '],
                        colors.text,
                        colors.background,
                        colors.bold,
                        true,
                    ),
                    panel,
                    message,
                    i + 1,
                    column + w,
                    colors,
                );
            } else {
                lemma_lettered(start, one, panel, message, i + 1, column + w, colors);
            }
        }
    }
}

/// The progress leaves the frame around its box as it is, and the box lies inside the frame.
pub proof fn progress_stays_in_its_box(
    cells: Seq<Cell>,
    width: u16,
    height: u16,
    message: Seq<char>,
    tick: u64,
    colors: PanelColors,
)
    requires
        width >= 12,
        height >= 3,
    ensures
        ({
            let panel = panel_for(width, height, text_width(message) as int);
            &&& only_panel(cells, drawn(cells, panel, message, tick, colors), panel)
            &&& panel.x + panel.width <= width
            &&& panel.y + 3 <= height
        }),
{
    let panel = panel_for(width, height, text_width(message) as int);
    lemma_boxed(cells, panel, colors);
    let ringed = boxed(cells, panel, colors);
    lemma_put(
        cells,
        ringed,
        panel,
        panel.x + 1,
        panel.y + 1,
        seq![spinner(tick)],
        colors.border,
        colors.background,
        colors.bold,
        false,
    );
    lemma_lettered(
        cells,
        put(
            ringed,
            panel,
            panel.x + 1,
            panel.y + 1,
            seq![spinner(tick)],
            colors.border,
            colors.background,
            colors.bold,
            false,
        ),
        panel,
        message,
        0,
        panel.x + 3,
        colors,
    );
}

proof fn lemma_letters_stand(
    cells: Seq<Cell>,
    panel: Panel,
    message: Seq<char>,
    i: int,
    column: int,
    colors: PanelColors,
    start: int,
)
    requires
        0 <= i <= message.len(),
        0 <= start,
        start == (panel.y + 1) * panel.stride,
        panel.x <= column,
        column + (message.len() - i) < panel.x + panel.width,
        start + column + (message.len() - i) <= cells.len(),
        forall|k: int| 0 <= k < message.len() ==> char_width(#[trigger] message[k]) == Some(1usize),
    ensures
        ({
            let after = lettered(cells, panel, message, i, column, colors);
            &&& after.len() == cells.len()
            &&& forall|k: int| 0 <= k < start + column ==> #[trigger] after[k] == cells[k]
            &&& forall|k: int|
                start + column <= k < start + column + (message.len() - i) ==> (
                #[trigger] after[k]).symbol == seq![message[k - start - column + i]]
        }),
    decreases message.len() - i,
{
    if i < message.len() {
        assert(char_width(message[i]) == Some(1usize));
        assert(columns(message[i]) == 1);
        let one = put(
            cells,
            panel,
            column,
            panel.y + 1,
            seq![message[i]],
            colors.text,
            colors.background,
            colors.bold,
            false,
        );
        lemma_letters_stand(one, panel, message, i + 1, column + 1, colors, start);
        let after = lettered(cells, panel, message, i, column, colors);
        assert(after == lettered(one, panel, message, i + 1, column + 1, colors));
        assert(after[start + column] == one[start + column]);
        assert forall|k: int|
            start + column <= k < start + column + (message.len() - i) implies (
        #[trigger] after[k]).symbol == seq![message[k - start - column + i]] by {
            if k > start + column {
                assert(k - start - (column + 1) + (i + 1) == k - start - column + i);
            }
        }
    }
}

/// A message of letters that take one column each stands in the middle row of its box, letter by
/// letter behind the turning picture.
pub proof fn the_message_stands_in_its_box(
    cells: Seq<Cell>,
    panel: Panel,
    message: Seq<char>,
    tick: u64,
    colors: PanelColors,
    k: int,
)
    requires
        message.len() + 4 <= panel.width,
        panel.x + panel.width <= panel.stride,
        cells.len() >= (panel.y + 3) * panel.stride,
        0 <= k < message.len(),
    ensures
        (forall|i: int| 0 <= i < message.len() ==> char_width(#[trigger] message[i]) == Some(1usize)) ==> {
            let after = drawn(cells, panel, message, tick, colors);
            let start = (panel.y + 1) * panel.stride + panel.x;
            &&& after[start + 1].symbol == seq![spinner(tick)]
            &&& after[start + 3 + k].symbol == seq![message[k]]
        },
{
    let start = (panel.y + 1) * panel.stride;
    let ringed = boxed(cells, panel, colors);
    lemma_boxed(cells, panel, colors);
    let turning = put(
        ringed,
        panel,
        panel.x + 1,
        panel.y + 1,
        seq![spinner(tick)],
        colors.border,
        colors.background,
        colors.bold,
        false,
    );
    let s = panel.stride as int;
    let y = panel.y as int;
    assert((y + 3) * s == (y + 1) * s + 2 * s && 0 <= (y + 1) * s) by (nonlinear_arith)
        requires
            s >= 0,
            y >= 0,
    ;
    if forall|i: int| 0 <= i < message.len() ==> char_width(#[trigger] message[i]) == Some(1usize) {
        lemma_letters_stand(turning, panel, message, 0, panel.x + 3, colors, start);
        let after = drawn(cells, panel, message, tick, colors);
        assert(after[start + panel.x + 1] == turning[start + panel.x + 1]);
        assert(after[start + (panel.x + 3) + k].symbol == seq![message[k]]);
    }
}

/// The picture turns: it differs from one beat to the next, and comes back after four.
pub proof fn the_picture_turns(tick: u64)
    requires
        tick < u64::MAX - 4,
    ensures
        spinner(tick) != spinner((tick + 1) as u64),
        spinner(tick) != spinner((tick + 2) as u64),
        spinner(tick) == spinner((tick + 4) as u64),
{
}

/// The box is as wide as its message asks, or as the frame, and stands in the middle.
pub proof fn the_box_stands_in_the_middle(width: u16, height: u16, message_columns: int)
    requires
        width >= 12,
        height >= 3,
        0 <= message_columns < 65536,
    ensures
        ({
            let panel = panel_for(width, height, message_columns);
            let right = width - panel.x - panel.width;
            let below = height - panel.y - 3;
            &&& panel.stride == width
            &&& message_columns + 4 <= width ==> panel.width == message_columns + 4
            &&& message_columns + 4 > width ==> panel.width == width
            &&& panel.x == right || panel.x + 1 == right
            &&& panel.y == below || panel.y + 1 == below
        }),
{
}

} // verus!
