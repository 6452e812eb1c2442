use waveform::overview::SampleOverview;
use waveform::render::{
    amplitude_to_y, render_waveform, DrawCommand, RenderOutcome, Rgb8, RmsSpan, WaveformTheme,
};

fn span(rms_y_bits: u32, low_rms_y_bits: u32) -> RmsSpan {
    RmsSpan { rms_y_bits, low_rms_y_bits }
}

#[test]
fn amplitude_zero_maps_to_mid_canvas() {
    assert_eq!(amplitude_to_y(0, 220), 110);
}

#[test]
fn amplitude_floor_maps_to_bottom_row() {
    assert_eq!(amplitude_to_y(-32768, 220), 220);
}

#[test]
fn amplitude_ceiling_maps_near_top_row() {
    assert_eq!(amplitude_to_y(32767, 220), 1);
}

#[test]
fn amplitude_clamp_saturates_both_ways() {
    assert_eq!(amplitude_to_y(40000, 220), amplitude_to_y(32767, 220));
    assert_eq!(amplitude_to_y(-40000, 220), amplitude_to_y(-32768, 220));
}

#[test]
fn overdriven_maximum_renders_as_clamped_maximum() {
    let loud = vec![SampleOverview { min: -100, max: 40000 }];
    let bounded = vec![SampleOverview { min: -100, max: 32767 }];
    let spans = vec![span(7, 9)];
    let loud_render = render_waveform(&loud, &spans, 1, 220, &WaveformTheme::Line);
    let bounded_render = render_waveform(&bounded, &spans, 1, 220, &WaveformTheme::Line);
    assert_eq!(loud_render, bounded_render);
}

#[test]
fn line_theme_draws_body_and_rms_band() {
    let overview = vec![SampleOverview { min: 0, max: 40000 }];
    let spans = vec![span(7, 9)];
    let (cmds, outcome) = render_waveform(&overview, &spans, 1, 220, &WaveformTheme::Line);
    assert_eq!(outcome, RenderOutcome::Complete);
    assert_eq!(
        cmds,
        vec![
            DrawCommand::Segment {
                x: 0,
                y_from: 110,
                y_to: 1,
                color: Rgb8 { r: 63, g: 77, b: 155 },
            },
            DrawCommand::RmsSegment {
                x: 0,
                y_from_bits: 9,
                y_to_bits: 7,
                color: Rgb8 { r: 121, g: 128, b: 225 },
            },
        ]
    );
}

#[test]
fn dot_theme_draws_four_marks() {
    let overview = vec![SampleOverview { min: -40000, max: 100 }];
    let spans = vec![span(41, 43)];
    let (cmds, outcome) = render_waveform(&overview, &spans, 1, 220, &WaveformTheme::Dot);
    assert_eq!(outcome, RenderOutcome::Complete);
    assert_eq!(
        cmds,
        vec![
            DrawCommand::Segment {
                x: 0,
                y_from: 220,
                y_to: 220,
                color: Rgb8 { r: 255, g: 255, b: 0 },
            },
            DrawCommand::Segment {
                x: 0,
                y_from: 110,
                y_to: 110,
                color: Rgb8 { r: 255, g: 255, b: 0 },
            },
            DrawCommand::RmsSegment {
                x: 0,
                y_from_bits: 43,
                y_to_bits: 43,
                color: Rgb8 { r: 255, g: 0, b: 255 },
            },
            DrawCommand::RmsSegment {
                x: 0,
                y_from_bits: 41,
                y_to_bits: 41,
                color: Rgb8 { r: 255, g: 0, b: 255 },
            },
        ]
    );
}

#[test]
fn short_overview_stops_early_and_reports_it() {
    let overview = vec![
        SampleOverview { min: -1, max: 1 },
        SampleOverview { min: -2, max: 2 },
    ];
    let spans = vec![span(1, 2), span(3, 4)];
    let (cmds, outcome) = render_waveform(&overview, &spans, 4, 220, &WaveformTheme::Line);
    assert_eq!(outcome, RenderOutcome::InsufficientData);
    assert_eq!(cmds.len(), 4);
    for cmd in &cmds {
        let x = match cmd {
            DrawCommand::Segment { x, .. } => *x,
            DrawCommand::RmsSegment { x, .. } => *x,
        };
        assert!(x < 2);
    }
}

#[test]
fn exact_cover_is_complete() {
    let overview = vec![SampleOverview { min: 0, max: 0 }; 4];
    let spans = vec![span(0, 0); 4];
    let (cmds, outcome) = render_waveform(&overview, &spans, 4, 100, &WaveformTheme::Line);
    assert_eq!(outcome, RenderOutcome::Complete);
    assert_eq!(cmds.len(), 8);
}

#[test]
fn long_overview_draws_only_requested_columns() {
    let overview = vec![SampleOverview { min: 0, max: 0 }; 5];
    let spans = vec![span(0, 0); 5];
    let (cmds, outcome) = render_waveform(&overview, &spans, 4, 100, &WaveformTheme::Dot);
    assert_eq!(outcome, RenderOutcome::Complete);
    assert_eq!(cmds.len(), 16);
    for cmd in &cmds {
        let x = match cmd {
            DrawCommand::Segment { x, .. } => *x,
            DrawCommand::RmsSegment { x, .. } => *x,
        };
        assert!(x < 4);
    }
}

#[test]
fn rms_band_bits_pass_through_untouched() {
    let overview = vec![SampleOverview { min: 0, max: 0 }];
    let bits = 123456789u32;
    let spans = vec![span(bits, bits ^ 1)];
    let (cmds, _) = render_waveform(&overview, &spans, 1, 220, &WaveformTheme::Line);
    match cmds[1] {
        DrawCommand::RmsSegment { y_from_bits, y_to_bits, .. } => {
            assert_eq!(y_from_bits, bits ^ 1);
            assert_eq!(y_to_bits, bits);
        }
        _ => panic!("second command should be the rms band"),
    }
}
