//! Mapping an overview sequence to pixel-drawing commands for a fixed-size
//! raster canvas.

use vstd::prelude::*;
use vstd::arithmetic::div_mod::{lemma_div_is_ordered, lemma_div_multiples_vanish};
use vstd::arithmetic::mul::{lemma_mul_inequality, lemma_mul_nonnegative, lemma_mul_upper_bound};

use crate::overview::SampleOverview;

verus! {

/// The two visual styles a column can be drawn in.
#[derive(Clone, Copy, Debug, PartialEq, Eq, Structural)]
pub enum WaveformTheme {
    /// One vertical segment from the minimum to the maximum, and a second
    /// segment for the root-mean-square band.
    Line,
    /// Four single-point marks: at the minimum, the maximum, and the two
    /// boundaries of the root-mean-square band.
    Dot,
}

/// An RGB color, one byte per channel.
#[derive(Clone, Copy, Debug, PartialEq, Eq, Structural)]
pub struct Rgb8 {
    pub r: u8,
    pub g: u8,
    pub b: u8,
}

/// The two vertical boundaries of a column's root-mean-square band, as the
/// bit patterns of the caller's fractional pixel coordinates. The
/// root-mean-square magnitude and its vertical mapping are floating point,
/// so the renderer carries these values through untouched.
#[derive(Clone, Copy, Debug, PartialEq, Eq, Structural)]
pub struct RmsSpan {
    pub rms_y_bits: u32,
    pub low_rms_y_bits: u32,
}

/// One pixel-drawing command: a vertical stroke in column `x`. A stroke
/// whose two endpoints coincide is a single-point mark.
#[derive(Clone, Copy, Debug, PartialEq, Eq, Structural)]
pub enum DrawCommand {
    /// A stroke between two whole-pixel rows, for the envelope body.
    Segment { x: u32, y_from: i32, y_to: i32, color: Rgb8 },
    /// A stroke between two fractional rows given as bit patterns carried
    /// over from an `RmsSpan`, for the root-mean-square band.
    RmsSegment { x: u32, y_from_bits: u32, y_to_bits: u32, color: Rgb8 },
}

/// Whether the overview sequence covered every requested column.
#[derive(Clone, Copy, Debug, PartialEq, Eq, Structural)]
pub enum RenderOutcome {
    /// Every column of the image was drawn.
    Complete,
    /// The overview sequence ran out before the last column: the remaining
    /// columns were left untouched.
    InsufficientData,
}

/// The primary envelope color of the line theme.
pub open spec fn line_wave_color() -> Rgb8 {
    Rgb8 { r: 63, g: 77, b: 155 }
}

/// The root-mean-square band color of the line theme.
pub open spec fn line_rms_color() -> Rgb8 {
    Rgb8 { r: 121, g: 128, b: 225 }
}

/// The color of the minimum and maximum marks of the dot theme.
pub open spec fn dot_peak_color() -> Rgb8 {
    Rgb8 { r: 255, g: 255, b: 0 }
}

/// The color of the root-mean-square marks of the dot theme.
pub open spec fn dot_rms_color() -> Rgb8 {
    Rgb8 { r: 255, g: 0, b: 255 }
}

/// An amplitude clamped to the signed 16-bit range. The range is fixed
/// regardless of the source's true bit depth; clamping saturates, it never
/// wraps.
pub open spec fn clamped_amplitude(v: int) -> int {
    if v < -32768 {
        -32768
    } else if v > 32767 {
        32767
    } else {
        v
    }
}

/// The pixel row of a clamped amplitude: the amplitude is offset into the
/// unsigned domain `[0, 65535]` and scaled so that the top of that domain
/// maps near row 0 and its bottom to row `height` (rows grow downward).
pub open spec fn scaled_y(clamped: int, height: int) -> int {
    height - (clamped + 32768) * height / 65536
}

/// Clamps an amplitude to the signed 16-bit range and maps it to its pixel
/// row.
pub fn amplitude_to_y(v: i32, image_height: u32) -> (y: i32)
    requires
        1 <= image_height <= 32768,
    ensures
        y == scaled_y(clamped_amplitude(v as int), image_height as int),
        0 <= y <= image_height,
{
    let c: i32 = if v < -32768 {
        -32768
    } else if v > 32767 {
        32767
    } else {
        v
    };
    let offset: u32 = (c + 32768) as u32;
    proof {
        lemma_mul_upper_bound(offset as int, 65535, image_height as int, 32768);
        lemma_mul_nonnegative(offset as int, image_height as int);
        lemma_mul_inequality(offset as int, 65536, image_height as int);
        lemma_div_is_ordered(
            offset as int * image_height as int,
            65536 * image_height as int,
            65536,
        );
        lemma_div_multiples_vanish(image_height as int, 65536);
    }
    let scaled: u32 = offset * image_height / 65536;
    image_height as i32 - scaled as i32
}

/// The drawing commands of one column: under the line theme a stroke from
/// the minimum's row to the maximum's row and a stroke across the
/// root-mean-square band; under the dot theme a single-point mark at each
/// of those four rows.
pub open spec fn column_commands(
    entry: SampleOverview,
    span: RmsSpan,
    x: u32,
    height: int,
    theme: WaveformTheme,
) -> Seq<DrawCommand> {
    let low_y = scaled_y(clamped_amplitude(entry.min as int), height);
    let high_y = scaled_y(clamped_amplitude(entry.max as int), height);
    match theme {
        WaveformTheme::Line => seq![
            DrawCommand::Segment {
                x,
                y_from: low_y as i32,
                y_to: high_y as i32,
                color: line_wave_color(),
            },
            DrawCommand::RmsSegment {
                x,
                y_from_bits: span.low_rms_y_bits,
                y_to_bits: span.rms_y_bits,
                color: line_rms_color(),
            },
        ],
        WaveformTheme::Dot => seq![
            DrawCommand::Segment {
                x,
                y_from: low_y as i32,
                y_to: low_y as i32,
                color: dot_peak_color(),
            },
            DrawCommand::Segment {
                x,
                y_from: high_y as i32,
                y_to: high_y as i32,
                color: dot_peak_color(),
            },
            DrawCommand::RmsSegment {
                x,
                y_from_bits: span.low_rms_y_bits,
                y_to_bits: span.low_rms_y_bits,
                color: dot_rms_color(),
            },
            DrawCommand::RmsSegment {
                x,
                y_from_bits: span.rms_y_bits,
                y_to_bits: span.rms_y_bits,
                color: dot_rms_color(),
            },
        ],
    }
}

/// How many columns are drawn: every requested column, unless the overview
/// sequence is shorter.
pub open spec fn drawn_columns(overview_len: int, image_width: int) -> int {
    if overview_len < image_width {
        overview_len
    } else {
        image_width
    }
}

/// The drawing commands of the first `n` columns, in column order.
pub open spec fn render_spec(
    overview: Seq<SampleOverview>,
    spans: Seq<RmsSpan>,
    n: int,
    height: int,
    theme: WaveformTheme,
) -> Seq<DrawCommand>
    decreases n,
{
    if n <= 0 {
        Seq::empty()
    } else {
        render_spec(overview, spans, n - 1, height, theme)
            + column_commands(overview[n - 1], spans[n - 1], (n - 1) as u32, height, theme)
    }
}

/// The column a command draws in.
pub open spec fn command_column(cmd: DrawCommand) -> int {
    match cmd {
        DrawCommand::Segment { x, .. } => x as int,
        DrawCommand::RmsSegment { x, .. } => x as int,
    }
}

/// Renders the overview sequence: walks the columns in order, maps each
/// entry's clamped minimum and maximum to pixel rows, and emits that
/// column's commands under the chosen theme. `rms_spans` holds, per entry,
/// the caller's root-mean-square band boundaries. Stops as soon as the
/// overview sequence is exhausted and reports `InsufficientData` exactly
/// when that happens before the last column; the commands never touch a
/// column at or past the stopping point.
pub fn render_waveform(
    overview: &Vec<SampleOverview>,
    rms_spans: &Vec<RmsSpan>,
    image_width: u32,
    image_height: u32,
    theme: &WaveformTheme,
) -> (r: (Vec<DrawCommand>, RenderOutcome))
    requires
        rms_spans@.len() == overview@.len(),
        image_width >= 1,
        1 <= image_height <= 32768,
    ensures
        r.0@ == render_spec(
            overview@,
            rms_spans@,
            drawn_columns(overview@.len() as int, image_width as int),
            image_height as int,
            *theme,
        ),
        r.1 == (if overview@.len() < image_width {
            RenderOutcome::InsufficientData
        } else {
            RenderOutcome::Complete
        }),
{
    let ghost n_ghost = drawn_columns(overview@.len() as int, image_width as int);
    let n: usize = if overview.len() < image_width as usize {
        overview.len()
    } else {
        image_width as usize
    };
    assert(n == n_ghost);
    let mut cmds: Vec<DrawCommand> = Vec::new();
    let mut x: usize = 0;
    while x < n
        invariant
            rms_spans@.len() == overview@.len(),
            1 <= image_height <= 32768,
            n <= overview@.len(),
            n <= u32::MAX,
            x <= n,
            cmds@ == render_spec(overview@, rms_spans@, x as int, image_height as int, *theme),
        decreases n - x,
    {
        let entry = overview[x];
        let span = rms_spans[x];
        let low_y = amplitude_to_y(entry.min, image_height);
        let high_y = amplitude_to_y(entry.max, image_height);
        let col: u32 = x as u32;
        match theme {
            WaveformTheme::Line => {
                cmds.push(DrawCommand::Segment {
                    x: col,
                    y_from: low_y,
                    y_to: high_y,
                    color: Rgb8 { r: 63, g: 77, b: 155 },
                });
                cmds.push(DrawCommand::RmsSegment {
                    x: col,
                    y_from_bits: span.low_rms_y_bits,
                    y_to_bits: span.rms_y_bits,
                    color: Rgb8 { r: 121, g: 128, b: 225 },
                });
            },
            WaveformTheme::Dot => {
                cmds.push(DrawCommand::Segment {
                    x: col,
                    y_from: low_y,
                    y_to: low_y,
                    color: Rgb8 { r: 255, g: 255, b: 0 },
                });
                cmds.push(DrawCommand::Segment {
                    x: col,
                    y_from: high_y,
                    y_to: high_y,
                    color: Rgb8 { r: 255, g: 255, b: 0 },
                });
                cmds.push(DrawCommand::RmsSegment {
                    x: col,
                    y_from_bits: span.low_rms_y_bits,
                    y_to_bits: span.low_rms_y_bits,
                    color: Rgb8 { r: 255, g: 0, b: 255 },
                });
                cmds.push(DrawCommand::RmsSegment {
                    x: col,
                    y_from_bits: span.rms_y_bits,
                    y_to_bits: span.rms_y_bits,
                    color: Rgb8 { r: 255, g: 0, b: 255 },
                });
            },
        }
        proof {
            assert(cmds@ =~= render_spec(
                overview@,
                rms_spans@,
                x as int + 1,
                image_height as int,
                *theme,
            ));
        }
        x += 1;
    }
    let outcome = if overview.len() < image_width as usize {
        RenderOutcome::InsufficientData
    } else {
        RenderOutcome::Complete
    };
    (cmds, outcome)
}

/// No command reaches a column at or past the stopping point: a column the
/// renderer never drew stays at the canvas background.
pub proof fn lemma_commands_within_columns(
    overview: Seq<SampleOverview>,
    spans: Seq<RmsSpan>,
    n: int,
    height: int,
    theme: WaveformTheme,
)
    requires
        0 <= n <= u32::MAX,
    ensures
        forall|i: int|
            0 <= i < render_spec(overview, spans, n, height, theme).len()
                ==> #[trigger] command_column(render_spec(overview, spans, n, height, theme)[i])
                < n,
    decreases n,
{
    if n > 0 {
        lemma_commands_within_columns(overview, spans, n - 1, height, theme);
        let prev = render_spec(overview, spans, n - 1, height, theme);
        let col = column_commands(overview[n - 1], spans[n - 1], (n - 1) as u32, height, theme);
        let whole = render_spec(overview, spans, n, height, theme);
        assert forall|j: int| 0 <= j < col.len() implies #[trigger] command_column(col[j]) == n - 1
        by {
            match theme {
                WaveformTheme::Line => {
                    assert(command_column(col[0]) == n - 1);
                    assert(command_column(col[1]) == n - 1);
                },
                WaveformTheme::Dot => {
                    assert(command_column(col[0]) == n - 1);
                    assert(command_column(col[1]) == n - 1);
                    assert(command_column(col[2]) == n - 1);
                    assert(command_column(col[3]) == n - 1);
                },
            }
        }
        assert forall|i: int| 0 <= i < whole.len() implies #[trigger] command_column(whole[i]) < n
        by {
            if i < prev.len() {
                assert(whole[i] == prev[i]);
            } else {
                assert(whole[i] == col[i - prev.len()]);
            }
        }
    }
}

/// Clamping saturates: an entry whose maximum lies at or above the 16-bit
/// maximum draws exactly as one whose maximum is that bound, in every
/// column, at every height, under either theme.
pub proof fn lemma_render_clamp_saturates(
    entry: SampleOverview,
    saturated: SampleOverview,
    span: RmsSpan,
    x: u32,
    height: int,
    theme: WaveformTheme,
)
    requires
        entry.max >= 32767,
        saturated.max == 32767,
        saturated.min == entry.min,
    ensures
        column_commands(entry, span, x, height, theme)
            == column_commands(saturated, span, x, height, theme),
{
    assert(clamped_amplitude(entry.max as int) == clamped_amplitude(saturated.max as int));
}

} // verus!
