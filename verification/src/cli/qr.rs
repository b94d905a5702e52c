//! QR codes as grids of modules, and what is drawn from them: text art and
//! the grey-scale pixels of an image.
use vstd::prelude::*;
use crate::error::{MosaicError, fails_with};
use crate::text::owned;

verus! {

/// A QR code: its side in modules and whether each module is dark, row by
/// row.
#[derive(Debug, Clone)]
pub struct QrGrid {
    pub size: i32,
    pub modules: Vec<bool>,
}

/// The side and the modules, row by row.
pub type QrView = (i32, Seq<bool>);

impl QrGrid {
    /// A side between 21 and 177 with one module per cell.
    pub open spec fn well_formed(&self) -> bool {
        &&& 21 <= self.size <= 177
        &&& self.modules@.len() == self.size * self.size
    }

    pub open spec fn qr_view(&self) -> QrView {
        (self.size, self.modules@)
    }

    /// Whether the module at column `x` and row `y` is dark; anything
    /// outside the code is light.
    pub open spec fn dark(&self, x: int, y: int) -> bool {
        if 0 <= x < self.size && 0 <= y < self.size {
            self.modules@[y * self.size + x]
        } else {
            false
        }
    }

    /// Whether the module at column `x` and row `y` is dark.
    pub fn get_module(&self, x: i32, y: i32) -> (b: bool)
        requires
            self.well_formed(),
        ensures
            b == self.dark(x as int, y as int),
    {
        if 0 <= x && x < self.size && 0 <= y && y < self.size {
            assert(0 <= y * self.size + x < self.size * self.size && self.size * self.size <= 177 * 177) by (nonlinear_arith)
                requires
                    0 <= x < self.size,
                    0 <= y < self.size,
                    self.size <= 177,
            ;
            let row = y * self.size;
            self.modules[(row + x) as usize]
        } else {
            false
        }
    }
}

/// What `qrcodegen::QrCode::encode_text(text, QrCodeEcc::Medium)` yields:
/// the code's side and modules, or the text of its `DataTooLong` error.
pub uninterp spec fn qr_encoded(text: Seq<char>) -> Result<QrView, Seq<char>>;

/// Encodes text as a QR code at the medium error-correction level
/// (`QrCode::encode_text`) and reads back its side (`QrCode::size`, between
/// 21 and 177 as the crate documents) and each module (`QrCode::get_module`).
#[verifier::external_body]
pub(crate) fn encode_qr(text: &str) -> (out: Result<QrGrid, String>)
    ensures
        match out {
            Ok(g) => g.well_formed() && qr_encoded(text@) == Ok::<QrView, Seq<char>>(g.qr_view()),
            Err(e) => qr_encoded(text@) == Err::<QrView, Seq<char>>(e@),
        },
{
    match qrcodegen::QrCode::encode_text(text, qrcodegen::QrCodeEcc::Medium) {
        Ok(qr) => {
            let size = qr.size();
            let modules = (0..size).flat_map(|y| (0..size).map(move |x| (x, y))).map(
                |(x, y)| qr.get_module(x, y),
            ).collect();
            Ok(QrGrid { size, modules })
        },
        Err(err) => Err(err.to_string()),
    }
}

/// Encodes a payload as a QR code; a payload too long is refused.
pub fn encode_qr_payload(payload: &str) -> (out: Result<QrGrid, MosaicError>)
    ensures
        match qr_encoded(payload@) {
            Ok(v) => out matches Ok(g) && g.well_formed() && g.qr_view() == v,
            Err(e) => fails_with(out, "failed to encode qr payload: "@ + e),
        },
{
    match encode_qr(payload) {
        Ok(g) => Ok(g),
        Err(e) => Err(MosaicError::Validation(crate::text::cat("failed to encode qr payload: ", e.as_str()))),
    }
}

/// One cell of the text art: two full blocks for a dark module, two spaces
/// for a light one.
pub open spec fn ascii_cell(g: QrGrid, x: int, y: int) -> Seq<char> {
    if g.dark(x, y) {
        "██"@
    } else {
        "  "@
    }
}

/// The first `n` cells of row `y`, starting `qz` modules left of the code.
pub open spec fn ascii_row(g: QrGrid, qz: int, y: int, n: nat) -> Seq<char>
    decreases n,
{
    if n == 0 {
        Seq::<char>::empty()
    } else {
        ascii_row(g, qz, y, (n - 1) as nat) + ascii_cell(g, n - 1 - qz, y)
    }
}

/// The first `m` rows of the text art, starting `qz` modules above the code.
pub open spec fn ascii_rows(g: QrGrid, qz: int, m: nat) -> Seq<Seq<char>>
    decreases m,
{
    if m == 0 {
        Seq::<Seq<char>>::empty()
    } else {
        ascii_rows(g, qz, (m - 1) as nat).push(ascii_row(g, qz, m - 1 - qz, (g.size + 2 * qz) as nat))
    }
}

/// Lines joined by line breaks.
pub open spec fn joined_lines(lines: Seq<Seq<char>>) -> Seq<char>
    decreases lines.len(),
{
    if lines.len() == 0 {
        Seq::<char>::empty()
    } else if lines.len() == 1 {
        lines[0]
    } else {
        joined_lines(lines.drop_last()) + "\n"@ + lines.last()
    }
}

/// The text art of a QR code with a quiet zone of `qz` light modules all
/// round: one line per row of modules.
pub open spec fn qr_ascii(g: QrGrid, qz: int) -> Seq<char> {
    joined_lines(ascii_rows(g, qz, (g.size + 2 * qz) as nat))
}

/// Draws a QR code as text, with a quiet zone of `quiet_zone` modules.
pub fn render_qr_ascii(qr: &QrGrid, quiet_zone: i32) -> (out: String)
    requires
        qr.well_formed(),
        0 <= quiet_zone <= 32,
    ensures
        out@ == qr_ascii(*qr, quiet_zone as int),
{
    let width = qr.size + 2 * quiet_zone;
    let mut out = String::new();
    let mut rows: usize = 0;
    let ghost mut lines: Seq<Seq<char>> = Seq::empty();
    let mut y = -quiet_zone;
    while y < qr.size + quiet_zone
        invariant
            qr.well_formed(),
            0 <= quiet_zone <= 32,
            width == qr.size + 2 * quiet_zone,
            -quiet_zone <= y <= qr.size + quiet_zone,
            lines == ascii_rows(*qr, quiet_zone as int, (y + quiet_zone) as nat),
            out@ == joined_lines(lines),
        decreases qr.size + quiet_zone - y,
    {
        let mut line = String::new();
        let mut x = -quiet_zone;
        while x < qr.size + quiet_zone
            invariant
                qr.well_formed(),
                0 <= quiet_zone <= 32,
                -quiet_zone <= x <= qr.size + quiet_zone,
                -quiet_zone <= y < qr.size + quiet_zone,
                line@ == ascii_row(*qr, quiet_zone as int, y as int, (x + quiet_zone) as nat),
            decreases qr.size + quiet_zone - x,
        {
            if qr.get_module(x, y) {
                line.append("██");
            } else {
                line.append("  ");
            }
            x += 1;
        }
        let ghost before = lines;
        proof {
            lines = lines.push(line@);
            assert(lines.drop_last() =~= before);
        }
        if y > -quiet_zone {
            out.append("\n");
        } else {
            assert(before.len() == 0);
        }
        out.append(line.as_str());
        proof {
            if before.len() == 0 {
                assert(lines.len() == 1);
                assert(out@ =~= lines[0]);
            } else {
                assert(out@ =~= joined_lines(before) + "\n"@ + line@);
            }
        }
        y += 1;
    }
    out
}

/// Whether the pixel at column `px` and row `py` of an image drawn with
/// `ms` pixels per module and a quiet zone of `qz` modules falls on a dark
/// module.
pub open spec fn module_dark(g: QrGrid, qz: int, ms: int, px: int, py: int) -> bool {
    g.dark(px / ms - qz, py / ms - qz)
}

/// The grey level of a pixel: black on a dark module, else white.
pub open spec fn pixel_value(g: QrGrid, qz: int, ms: int, px: int, py: int) -> u8 {
    if module_dark(g, qz, ms, px, py) {
        0
    } else {
        255
    }
}

/// The side of the image in pixels: the code and its quiet zone, times the
/// pixels per module.
pub open spec fn png_side(g: QrGrid, qz: int, ms: int) -> int {
    (g.size + 2 * qz) * ms
}

proof fn lemma_cell_before(a: int, b: int, py: int, px: int, side: int)
    requires
        0 <= a,
        0 <= b < side,
        0 <= px,
        a < py || (a == py && b < px),
    ensures
        a * side + b < py * side + px,
        0 <= a * side + b,
{
    if a < py {
        assert(a * side + b < py * side) by (nonlinear_arith)
            requires
                0 <= a < py,
                0 <= b < side,
        ;
    }
    assert(0 <= a * side) by (nonlinear_arith)
        requires
            0 <= a,
            0 <= b < side,
    ;
}

proof fn lemma_module_of(p: int, total: int, ms: int)
    requires
        0 <= p < total * ms,
        ms > 0,
        total > 0,
    ensures
        0 <= p / ms < total,
{
    assert(0 <= p / ms < total) by (nonlinear_arith)
        requires
            0 <= p < total * ms,
            ms > 0,
            total > 0,
    ;
}

/// The grey-scale pixels of a QR code drawn with `module_size` pixels per
/// module and a quiet zone of `quiet_zone` modules, row by row, with the
/// image's side; refused when the side or the pixel count overflows `u32`.
pub fn qr_png_pixels(qr: &QrGrid, quiet_zone: u8, module_size: u32) -> (out: Result<(u32, Vec<u8>), MosaicError>)
    requires
        qr.well_formed(),
        module_size > 0,
    ensures
        png_side(*qr, quiet_zone as int, module_size as int) > u32::MAX ==> fails_with(
            out,
            "png dimensions overflow from qr settings"@,
        ),
        png_side(*qr, quiet_zone as int, module_size as int) <= u32::MAX && png_side(*qr, quiet_zone as int, module_size as int)
            * png_side(*qr, quiet_zone as int, module_size as int) > u32::MAX ==> fails_with(out, "png buffer size overflow"@),
        match out {
            Ok((side, pixels)) => {
                &&& side == png_side(*qr, quiet_zone as int, module_size as int)
                &&& pixels@.len() == side * side
                &&& forall|py: int, px: int|
                    0 <= py < side && 0 <= px < side ==> #[trigger] pixels@[py * side + px] == pixel_value(
                        *qr,
                        quiet_zone as int,
                        module_size as int,
                        px,
                        py,
                    )
            },
            Err(_) => png_side(*qr, quiet_zone as int, module_size as int) > u32::MAX
                || png_side(*qr, quiet_zone as int, module_size as int) * png_side(*qr, quiet_zone as int, module_size as int)
                > u32::MAX,
        },
{
    let border = quiet_zone as i32;
    let total = (qr.size + 2 * border) as u32;
    let side = match total.checked_mul(module_size) {
        Some(s) => s,
        None => {
            return Err(MosaicError::Validation(owned("png dimensions overflow from qr settings")));
        },
    };
    let count = match side.checked_mul(side) {
        Some(c) => c,
        None => {
            return Err(MosaicError::Validation(owned("png buffer size overflow")));
        },
    };
    let ghost g = *qr;
    let ghost qz = quiet_zone as int;
    let ghost ms = module_size as int;
    let mut pixels: Vec<u8> = Vec::new();
    let mut py: u32 = 0;
    while py < side
        invariant
            qr.well_formed(),
            g == *qr,
            qz == quiet_zone as int,
            ms == module_size as int,
            module_size > 0,
            border == quiet_zone as i32,
            total == qr.size + 2 * quiet_zone,
            side == total * module_size,
            count == side * side,
            py <= side,
            pixels@.len() == py * side,
            forall|a: int, b: int|
                0 <= a < py && 0 <= b < side ==> #[trigger] pixels@[a * side + b] == pixel_value(g, qz, ms, b, a),
        decreases side - py,
    {
        let mut px: u32 = 0;
        proof {
            lemma_module_of(py as int, total as int, ms);
        }
        let my = (py / module_size) as i32 - border;
        while px < side
            invariant
                qr.well_formed(),
                g == *qr,
                qz == quiet_zone as int,
                ms == module_size as int,
                module_size > 0,
                border == quiet_zone as i32,
                total == qr.size + 2 * quiet_zone,
                side == total * module_size,
                py < side,
                px <= side,
                my == py / module_size - quiet_zone,
                pixels@.len() == py * side + px,
                forall|a: int, b: int|
                    (0 <= a < py && 0 <= b < side) || (a == py && 0 <= b < px) ==> #[trigger] pixels@[a * side + b]
                        == pixel_value(g, qz, ms, b, a),
            decreases side - px,
        {
            proof {
                lemma_module_of(px as int, total as int, ms);
            }
            let mx = (px / module_size) as i32 - border;
            let dark = qr.get_module(mx, my);
            let ghost prev = pixels@;
            pixels.push(if dark { 0u8 } else { 255u8 });
            proof {
                assert forall|a: int, b: int|
                    (0 <= a < py && 0 <= b < side) || (a == py && 0 <= b < px + 1) implies #[trigger] pixels@[a * side + b]
                        == pixel_value(g, qz, ms, b, a) by {
                    if a == py && b == px {
                        assert(a * side + b == prev.len());
                    } else {
                        lemma_cell_before(a, b, py as int, px as int, side as int);
                        assert(pixels@[a * side + b] == prev[a * side + b]);
                    }
                }
            }
            px += 1;
        }
        proof {
            assert(pixels@.len() == (py + 1) * side) by (nonlinear_arith)
                requires
                    pixels@.len() == py * side + side,
            ;
        }
        py += 1;
    }
    Ok((side, pixels))
}

} // verus!
