use mist_core::layout::{
    can_lay_out, crop_offset, current_after, get_coords, hides_highlight, shown_highlight, glyph_offsets, highlighted_row, rounding_after, row_top,
    status_color, visible_rows,
};
use mist_core::timer::state::{SplitStatus, StateChange};

fn atlas() -> Vec<u32> {
    // Offsets of `- 0 1 2 3 4 5 6 7 8 9 : .`, the end of the gap after the
    // last glyph, and the advance of a digit.
    vec![0, 10, 30, 45, 65, 85, 105, 125, 145, 165, 185, 205, 212, 218, 223, 20]
}

#[test]
fn glyphs_are_placed_from_the_right() {
    let placed = get_coords("1:23.456".to_string(), &atlas());
    assert_eq!(
        placed,
        vec![
            // The fraction and its separator are drawn at four fifths.
            (160, 20, 16, 16),
            (135, 20, 32, 16),
            (110, 20, 48, 16),
            (272, 6, 54, 4),
            (85, 20, 74, 20),
            (60, 20, 94, 20),
            (260, 7, 101, 7),
            (40, 15, 121, 15),
        ]
    );
}

#[test]
fn unknown_characters_are_drawn_as_the_first_glyph() {
    let placed = get_coords("-x 0".to_string(), &atlas());
    assert_eq!(
        placed,
        vec![(15, 20, 16, 16), (0, 10, 32, 8), (0, 10, 48, 8), (0, 10, 64, 8)]
    );
}

#[test]
fn empty_text_places_nothing() {
    assert_eq!(get_coords(String::new(), &atlas()), vec![]);
}

#[test]
fn atlas_offsets_are_running_sums_of_the_widths() {
    assert_eq!(glyph_offsets(&[]), vec![0]);
    assert_eq!(glyph_offsets(&[10, 20, 15]), vec![0, 10, 30, 45]);
    let offsets = glyph_offsets(&[10, 20, 15, 20, 20, 20, 20, 20, 20, 20, 20, 7, 6]);
    assert_eq!(offsets[13], 218);
}

#[test]
fn status_picks_the_configured_color() {
    let colors = [(0, 255, 0), (255, 0, 0), (255, 90, 90), (135, 255, 125), (255, 255, 0), (0, 0, 0)];
    assert_eq!(status_color(SplitStatus::NoStatus, &colors), (255, 255, 255));
    assert_eq!(status_color(SplitStatus::Ahead, &colors), (0, 255, 0));
    assert_eq!(status_color(SplitStatus::Behind, &colors), (255, 0, 0));
    assert_eq!(status_color(SplitStatus::Gaining, &colors), (255, 90, 90));
    assert_eq!(status_color(SplitStatus::Losing, &colors), (135, 255, 125));
    assert_eq!(status_color(SplitStatus::Gold, &colors), (255, 255, 0));
}

#[test]
fn segment_out_of_sight_is_not_highlighted() {
    assert_eq!(highlighted_row(3, 2, 6), 1);
    assert_eq!(highlighted_row(2, 2, 6), 0);
    assert_eq!(highlighted_row(6, 2, 6), 4);
    assert_eq!(highlighted_row(1, 2, 6), usize::MAX);
    assert_eq!(highlighted_row(7, 2, 6), usize::MAX);
}

#[test]
fn time_is_rounded_while_the_attempt_stands_still() {
    assert!(rounding_after(false, &[StateChange::Pause]));
    assert!(rounding_after(false, &[StateChange::Finish]));
    assert!(!rounding_after(true, &[StateChange::Unpause { status: SplitStatus::Ahead }]));
    assert!(!rounding_after(true, &[StateChange::EnterSplit { idx: 1 }]));
    assert!(rounding_after(true, &[StateChange::NoChange, StateChange::EnterOffset]));
    assert!(!rounding_after(false, &[]));
    let exit = StateChange::ExitSplit { idx: 0, status: SplitStatus::Gold, time: 1, diff: 0 };
    assert!(rounding_after(false, &[exit, StateChange::Finish]));
    assert!(!rounding_after(false, &[StateChange::Pause, StateChange::Unpause { status: SplitStatus::NoStatus }]));
}

#[test]
fn window_shows_as_many_rows_as_fit() {
    // (600 - 85) / (25 * 2 + 5) = 9 rows below one another.
    assert_eq!(visible_rows(600, 85, 25, false, 20), (9, 8));
    assert_eq!(visible_rows(600, 85, 25, false, 9), (9, 8));
    assert_eq!(visible_rows(600, 85, 25, false, 4), (4, 3));
    assert_eq!(visible_rows(600, 85, 25, false, 0), (0, 0));
    // (600 - 85) / (25 + 5) = 17 rows with the time beside the name.
    assert_eq!(visible_rows(600, 85, 25, true, 20), (17, 16));
    assert_eq!(visible_rows(60, 85 - 30, 25, true, 0), (0, 0));
}

#[test]
fn rows_are_stacked_with_room_for_the_separator() {
    assert_eq!(row_top(0, 25, false), 0);
    assert_eq!(row_top(1, 25, false), 55);
    assert_eq!(row_top(3, 25, false), 165);
    assert_eq!(row_top(3, 25, true), 90);
}

#[test]
fn image_larger_than_the_window_is_centered() {
    assert_eq!(crop_offset(1000, 600), 200);
    assert_eq!(crop_offset(601, 600), 0);
    assert_eq!(crop_offset(600, 600), 0);
    assert_eq!(crop_offset(100, 600), 0);
    assert_eq!(crop_offset(u32::MAX, 0), i32::MAX);
}

#[test]
fn layout_is_checked_before_it_is_computed() {
    assert!(can_lay_out("1:23.456", &atlas()));
    assert!(can_lay_out("", &atlas()));
    // Too few offsets.
    assert!(!can_lay_out("1", &atlas()[..15]));
    // The gap would be negative.
    let mut coords = atlas();
    coords[14] = 200;
    assert!(!can_lay_out("", &coords));
    // A glyph would have a negative width, but only where it is drawn.
    let mut coords = atlas();
    coords[3] = 20;
    assert!(!can_lay_out("1", &coords));
    assert!(can_lay_out("7", &coords));
    // The advance of a small digit does not fit four fifths in 32 bits.
    let mut coords = atlas();
    coords[15] = u32::MAX / 8 + 1;
    assert!(!can_lay_out("7", &coords));
    assert!(can_lay_out(".", &coords));
    coords[15] = u32::MAX / 8;
    assert!(can_lay_out("7", &coords));
    // The pen runs out of the 32 bits.
    let mut coords = atlas();
    coords[15] = 1 << 28;
    // Four small glyphs and twelve full ones advance by 15.2 * 2^28.
    assert!(can_lay_out("0000000000000000", &coords));
    assert!(!can_lay_out("00000000000000000", &coords));
    // The source offset of a glyph does not fit.
    let mut coords = atlas();
    coords[13] = 218;
    coords[14] = u32::MAX;
    assert!(!can_lay_out("1", &coords));
    assert!(can_lay_out("-", &coords));
}

#[test]
fn highlight_follows_the_segment_in_progress() {
    let exit = StateChange::ExitSplit { idx: 0, status: SplitStatus::Ahead, time: 1, diff: 0 };
    assert_eq!(current_after(0, &[]), 0);
    assert_eq!(current_after(0, &[exit, StateChange::EnterSplit { idx: 1 }]), 1);
    assert_eq!(current_after(3, &[StateChange::EnterSplit { idx: 2 }]), 2);
    assert_eq!(current_after(3, &[StateChange::Pause, StateChange::NoChange]), 3);
    assert_eq!(current_after(3, &[exit, StateChange::Finish]), 3);
    let restart = [StateChange::Reset { offset: None }, StateChange::EnterSplit { idx: 0 }];
    assert_eq!(current_after(3, &restart), 0);
    let twice = [StateChange::EnterSplit { idx: 4 }, StateChange::EnterSplit { idx: 5 }];
    assert_eq!(current_after(3, &twice), 5);
}

#[test]
fn highlight_is_hidden_in_the_tick_of_a_pause_or_finish() {
    let exit = StateChange::ExitSplit { idx: 1, status: SplitStatus::Ahead, time: 1, diff: 0 };
    assert!(hides_highlight(&[StateChange::Pause]));
    assert!(hides_highlight(&[exit, StateChange::Finish]));
    assert!(hides_highlight(&[StateChange::Pause, StateChange::Unpause { status: SplitStatus::Ahead }]));
    assert!(!hides_highlight(&[]));
    assert!(!hides_highlight(&[StateChange::NoChange, StateChange::EnterSplit { idx: 0 }]));
    assert!(!hides_highlight(&[StateChange::Unpause { status: SplitStatus::Ahead }]));
    assert!(!hides_highlight(&[exit, StateChange::EnterSplit { idx: 2 }]));
}

#[test]
fn highlight_is_hidden_while_the_attempt_stands_still() {
    assert_eq!(shown_highlight(false, 3, 2, 6), 1);
    assert_eq!(shown_highlight(true, 3, 2, 6), usize::MAX);
    assert_eq!(shown_highlight(false, 7, 2, 6), usize::MAX);
    assert_eq!(shown_highlight(false, 1, 2, 6), usize::MAX);
}
