//! Scannable codes.

use vstd::prelude::*;

verus! {

/// How many light modules are kept around a code on a screen.
pub const QUIET: usize = 2;

/// A code as a square of modules.
#[derive(Debug)]
pub struct Modules {
    /// Which modules are dark, row by row.
    pub dark: Vec<bool>,
    /// How many modules there are to a row.
    pub width: usize,
}

/// The modules of a code for `data` and their width, where there is a code for it.
pub uninterp spec fn code_for(data: Seq<char>) -> Option<(Seq<bool>, usize)>;

/// Makes a code of low error correction by `qrcode::QrCode::with_error_correction_level`,
/// and reads its modules by `to_colors` and `width`. Which modules are dark is left to the
/// crate: the same text always gives the same code. The contract claims that a code is
/// square, has at most 177 modules to a side, and that a text that does not fit gives none.
#[verifier::external_body]
fn encode(data: &str) -> (r: Option<Modules>)
    ensures
        match r {
            Some(m) => {
                &&& code_for(data@) == Some((m.dark@, m.width))
                &&& m.width <= 177
                &&& m.dark@.len() == m.width * m.width
            },
            None => code_for(data@) is None,
        },
{
    let code = qrcode::QrCode::with_error_correction_level(data.as_bytes(), qrcode::EcLevel::L);
    code.ok().map(|code| Modules {
        width: code.width(),
        dark: code.to_colors().into_iter().map(|c| c == qrcode::Color::Dark).collect(),
    })
}

/// The text of a code for `data`, or why there is none.
pub uninterp spec fn printed_for(data: Seq<char>) -> Result<Seq<char>, Seq<char>>;

/// Draws a code with half-block characters and a quiet zone, by `qrcode::QrCode::new` and
/// its renderer for `Dense1x2`. What it draws, and how the crate words its error, is left to
/// the crate: the same text always gives the same result.
#[verifier::external_body]
fn draw(data: &str) -> (r: Result<String, String>)
    ensures
        match r {
            Ok(drawn) => printed_for(data@) == Ok::<Seq<char>, Seq<char>>(drawn@),
            Err(why) => printed_for(data@) == Err::<Seq<char>, Seq<char>>(why@),
        },
{
    qrcode::QrCode::new(data.as_bytes())
        .map(|code| code.render::<qrcode::render::unicode::Dense1x2>().quiet_zone(true).build())
        .map_err(|e| e.to_string())
}

/// What a terminal shows for a ticket: a code, or why there is none.
pub fn print_qr(ticket: &str) -> (r: String)
    ensures
        r@ == match printed_for(ticket@) {
            Ok(drawn) => "\n"@ + drawn,
            Err(why) => "! could not render a QR code: "@ + why,
        },
{
    printed(draw(ticket))
}

/// What a terminal shows for a drawn code, or for the lack of one.
pub fn printed(drawn: Result<String, String>) -> (r: String)
    ensures
        r@ == match drawn {
            Ok(drawn) => "\n"@ + drawn@,
            Err(why) => "! could not render a QR code: "@ + why@,
        },
{
    match drawn {
        Ok(drawn) => "\n".to_owned().concat(drawn.as_str()),
        Err(why) => "! could not render a QR code: ".to_owned().concat(why.as_str()),
    }
}

/// Whether the cell at column `x` and row `y` of a field is dark: the field is a code with a
/// quiet zone around it.
pub open spec fn is_dark(dark: Seq<bool>, width: int, x: int, y: int) -> bool {
    &&& QUIET <= x < width + QUIET
    &&& QUIET <= y < width + QUIET
    &&& dark[(y - QUIET) * width + (x - QUIET)]
}

/// Where to paint: the side of the field in modules, and the dark cells as columns and rows.
#[derive(Debug)]
pub struct Painting {
    /// The side of the field, in modules.
    pub side: usize,
    /// The dark cells.
    pub cells: Vec<(usize, usize)>,
}

/// Whether cells stand row by row, and column by column in a row, none of them twice.
pub open spec fn row_by_row(cells: Seq<(usize, usize)>) -> bool {
    forall|i: int, j: int|
        0 <= i < j < cells.len() ==> (#[trigger] cells[i]).1 < (#[trigger] cells[j]).1 || (
        cells[i].1 == cells[j].1 && cells[i].0 < cells[j].0)
}

impl Painting {
    /// Whether this is the painting of a code: its dark cells and no others, each of them
    /// once.
    pub open spec fn paints(&self, dark: Seq<bool>, width: int) -> bool {
        &&& self.side == width + 2 * QUIET
        &&& row_by_row(self.cells@)
        &&& forall|x: int, y: int|
            #![trigger is_dark(dark, width, x, y)]
            is_dark(dark, width, x, y) <==> exists|k: int|
                0 <= k < self.cells@.len() && (#[trigger] self.cells@[k]).0 == x
                    && self.cells@[k].1 == y
    }
}

/// Places the modules of a code in a light field with a quiet zone around them.
pub fn place(m: &Modules) -> (r: Painting)
    requires
        m.width <= 177,
        m.dark@.len() == m.width * m.width,
    ensures
        r.paints(m.dark@, m.width as int),
{
    let width: usize = m.width;
    let ghost w = width as int;
    let ghost dark = m.dark@;
    let mut cells: Vec<(usize, usize)> = Vec::new();
    let mut y: usize = 0;
    while y < width
        invariant
            y <= width == m.width <= 177,
            w == width,
            dark == m.dark@,
            dark.len() == width * width,
            row_by_row(cells@),
            forall|k: int| 0 <= k < cells@.len() ==> (#[trigger] cells@[k]).1 < y + QUIET,
            forall|k: int|
                0 <= k < cells@.len() ==> is_dark(
                    dark,
                    w,
                    (#[trigger] cells@[k]).0 as int,
                    cells@[k].1 as int,
                ),
            forall|a: int, b: int| #[trigger]
                is_dark(dark, w, a, b) && b < y + QUIET ==> exists|k: int|
                    0 <= k < cells@.len() && (#[trigger] cells@[k]).0 == a && cells@[k].1 == b,
        decreases width - y,
    {
        let mut x: usize = 0;
        while x < width
            invariant
                x <= width == m.width <= 177,
                y < width,
                w == width,
                dark == m.dark@,
                dark.len() == width * width,
                row_by_row(cells@),
                forall|k: int|
                    0 <= k < cells@.len() ==> (#[trigger] cells@[k]).1 < y + QUIET || (
                    cells@[k].1 == y + QUIET && cells@[k].0 < x + QUIET),
                forall|k: int|
                    0 <= k < cells@.len() ==> is_dark(
                        dark,
                        w,
                        (#[trigger] cells@[k]).0 as int,
                        cells@[k].1 as int,
                    ),
                forall|a: int, b: int| #[trigger]
                    is_dark(dark, w, a, b) && (b < y + QUIET || (b == y + QUIET && a < x + QUIET))
                        ==> exists|k: int|
                        0 <= k < cells@.len() && (#[trigger] cells@[k]).0 == a && cells@[k].1 == b,
            decreases width - x,
        {
            assert(y * width + x < width * width && y * width <= 177 * 177) by (nonlinear_arith)
                requires
                    0 <= y < width,
                    0 <= x < width,
                    width <= 177,
            ;
            let ghost before = cells@;
            if m.dark[y * width + x] {
                let cell = (x + QUIET, y + QUIET);
                cells.push(cell);
                assert(is_dark(dark, w, cell.0 as int, cell.1 as int));
                assert(cells@[before.len() as int] == cell);
            }
            assert forall|a: int, b: int|
                #[trigger] is_dark(dark, w, a, b) && (b < y + QUIET || (b == y + QUIET && a < x + 1
                    + QUIET)) implies exists|k: int|
                0 <= k < cells@.len() && (#[trigger] cells@[k]).0 == a && cells@[k].1 == b by {
                if b == y + QUIET && a == x + QUIET {
                    assert(cells@[before.len() as int].0 == a);
                } else {
                    let k = choose|k: int|
                        0 <= k < before.len() && (#[trigger] before[k]).0 == a && before[k].1 == b;
                    assert(cells@[k] == before[k]);
                }
            }
            x += 1;
        }
        y += 1;
    }
    let r = Painting { side: width + 2 * QUIET, cells };
    assert forall|x: int, y: int|
        #![trigger is_dark(m.dark@, m.width as int, x, y)]
        is_dark(m.dark@, m.width as int, x, y) <==> exists|k: int|
            0 <= k < r.cells@.len() && (#[trigger] r.cells@[k]).0 == x && r.cells@[k].1 == y by {
        if is_dark(dark, w, x, y) {
            let k = choose|k: int|
                0 <= k < cells@.len() && (#[trigger] cells@[k]).0 == x && cells@[k].1 == y;
            assert(r.cells@[k].0 == x);
        }
        if exists|k: int|
            0 <= k < r.cells@.len() && (#[trigger] r.cells@[k]).0 == x && r.cells@[k].1 == y {
            let k = choose|k: int|
                0 <= k < r.cells@.len() && (#[trigger] r.cells@[k]).0 == x && r.cells@[k].1 == y;
            assert(is_dark(dark, w, r.cells@[k].0 as int, r.cells@[k].1 as int));
            assert(is_dark(dark, w, x, y));
        }
    }
    r
}

/// The code for a link, ready to be painted; none where the link is too long for one.
pub fn show(data: &str) -> (r: Option<Painting>)
    ensures
        match r {
            Some(painting) => {
                &&& code_for(data@) matches Some((dark, width))
                &&& painting.paints(dark, width as int)
            },
            None => code_for(data@) is None,
        },
{
    match encode(data) {
        Some(m) => Some(place(&m)),
        None => None,
    }
}

/// The quiet zone around a code is light.
pub proof fn quiet_zone_is_light(dark: Seq<bool>, width: int, x: int, y: int)
    requires
        x < QUIET || y < QUIET || x >= width + QUIET || y >= width + QUIET,
    ensures
        !is_dark(dark, width, x, y),
{
}

} // verus!
