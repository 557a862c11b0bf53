use practical_runner::color::{color_from_hex, Color, Palette};
use practical_runner::config::{
    Arguments, RunnerMenuSettings, BACKGROUND_COLOR, BACKGROUND_COLOR_ACTIVE, BORDER_COLOR,
    FONT_COLOR, FONT_COLOR_ACTIVE,
};
use practical_runner::layout::{draw_borders, window_size, DrawOp, Layout, Rect};
use practical_runner::placement::{centered_position, handoff_position, target_display, DisplayBounds};
use practical_runner::session::Session;

fn settings(border_size: u8, rows: u16, line_spacing: u16) -> RunnerMenuSettings {
    RunnerMenuSettings {
        font_color: FONT_COLOR.to_string(),
        font_color_active: FONT_COLOR_ACTIVE.to_string(),
        border_color: BORDER_COLOR.to_string(),
        border_size,
        background_color: BACKGROUND_COLOR.to_string(),
        background_color_active: BACKGROUND_COLOR_ACTIVE.to_string(),
        rows,
        font_size: 16,
        line_spacing,
        display_index: None,
        font: None,
    }
}

#[test]
fn hex_colors_parse() {
    assert_eq!(color_from_hex("#ff8000").unwrap(), Color { r: 255, g: 128, b: 0 });
    assert_eq!(color_from_hex("#1E1e2E").unwrap(), Color { r: 30, g: 30, b: 46 });
}

#[test]
fn malformed_hex_colors_are_rejected() {
    assert!(color_from_hex("ff8000").is_err());
    assert!(color_from_hex("#ff800").is_err());
    assert!(color_from_hex("#ff80000").is_err());
    assert!(color_from_hex("#gg0000").is_err());
    assert!(color_from_hex("").is_err());
}

#[test]
fn palette_resolves_the_default_colors() {
    let p = Palette::from_settings(&settings(1, 9, 2)).unwrap();
    assert_eq!(p.font, Color { r: 0xcd, g: 0xd6, b: 0xf4 });
    assert_eq!(p.background_active, Color { r: 0x89, g: 0xb4, b: 0xfa });
    assert_eq!(p.border, Color { r: 0x58, g: 0x5b, b: 0x70 });
}

#[test]
fn palette_fails_on_one_bad_color() {
    let mut s = settings(1, 9, 2);
    s.border_color = "red".to_string();
    assert!(Palette::from_settings(&s).is_err());
}

#[test]
fn window_size_follows_rows_and_line_height() {
    assert_eq!(window_size(1, 20, 2, 9), (482, 237));
    assert_eq!(window_size(0, 10, 0, 0), (480, 26));
}

#[test]
fn borders_are_four_bands_or_none() {
    assert!(draw_borders(0, 480, 100).is_empty());
    assert_eq!(
        draw_borders(2, 484, 100),
        vec![
            Rect { x: 0, y: 0, w: 484, h: 2 },
            Rect { x: 482, y: 0, w: 2, h: 100 },
            Rect { x: 0, y: 98, w: 484, h: 2 },
            Rect { x: 0, y: 0, w: 2, h: 100 },
        ]
    );
}

#[test]
fn frame_lays_out_prompt_cursor_and_rows() {
    let s = settings(1, 2, 2);
    let p = Palette::from_settings(&s).unwrap();
    let l = Layout::new(&s, p, 10);
    assert_eq!((l.window_width, l.window_height), (482, 53));
    let session = Session::new(&vec!["a".to_string(), "b".to_string(), "c".to_string()]);
    let ops = l.frame(&"> ".to_string(), &session, 20, true);
    assert_eq!(
        ops,
        vec![
            DrawOp::Clear { color: p.background },
            DrawOp::Fill { rect: Rect { x: 0, y: 0, w: 482, h: 1 }, color: p.border },
            DrawOp::Fill { rect: Rect { x: 481, y: 0, w: 1, h: 53 }, color: p.border },
            DrawOp::Fill { rect: Rect { x: 0, y: 52, w: 482, h: 1 }, color: p.border },
            DrawOp::Fill { rect: Rect { x: 0, y: 0, w: 1, h: 53 }, color: p.border },
            DrawOp::Text { text: "> ".to_string(), x: 9, y: 9, color: p.font },
            DrawOp::Fill { rect: Rect { x: 29, y: 9, w: 3, h: 10 }, color: p.background_active },
            DrawOp::Fill { rect: Rect { x: 1, y: 28, w: 480, h: 12 }, color: p.background_active },
            DrawOp::Text { text: "a".to_string(), x: 9, y: 29, color: p.font_active },
            DrawOp::Fill { rect: Rect { x: 1, y: 40, w: 480, h: 12 }, color: p.background },
            DrawOp::Text { text: "b".to_string(), x: 9, y: 41, color: p.font },
        ]
    );
}

#[test]
fn frame_without_prompt_or_focus_draws_only_rows() {
    let s = settings(0, 5, 0);
    let p = Palette::from_settings(&s).unwrap();
    let l = Layout::new(&s, p, 10);
    let session = Session::new(&vec!["x".to_string()]);
    let ops = l.frame(&String::new(), &session, 0, false);
    assert_eq!(
        ops,
        vec![
            DrawOp::Clear { color: p.background },
            DrawOp::Fill { rect: Rect { x: 0, y: 26, w: 480, h: 10 }, color: p.background_active },
            DrawOp::Text { text: "x".to_string(), x: 8, y: 26, color: p.font_active },
        ]
    );
}

#[test]
fn target_display_must_exist() {
    assert_eq!(target_display(Some(1), 2), Some(1));
    assert_eq!(target_display(Some(2), 2), None);
    assert_eq!(target_display(None, 2), None);
}

#[test]
fn window_is_centered_on_the_display() {
    let b = DisplayBounds { x: 1920, y: 0, w: 2560, h: 1440 };
    assert_eq!(centered_position(b, 482, 237), (1920 + 1280 - 241, 720 - 118));
}

#[test]
fn handoff_moves_to_the_display_origin_only_when_chosen() {
    let b = DisplayBounds { x: -1920, y: 100, w: 1920, h: 1080 };
    assert_eq!(handoff_position(true, Some(b)), Some((-1920, 100)));
    assert_eq!(handoff_position(false, Some(b)), None);
    assert_eq!(handoff_position(true, None), None);
}

#[test]
fn arguments_become_settings() {
    let args = Arguments {
        prompt: "run: ".to_string(),
        font: Some("Mono".to_string()),
        font_color: "#000000".to_string(),
        font_color_active: "#111111".to_string(),
        border_color: "#222222".to_string(),
        border_size: 3,
        background_color: "#333333".to_string(),
        background_color_active: "#444444".to_string(),
        rows: 4,
        font_size: 12,
        line_spacing: 1,
        display: Some(1),
    };
    let (prompt, s) = args.into_settings();
    assert_eq!(prompt, "run: ");
    assert_eq!(s.font, Some("Mono".to_string()));
    assert_eq!(s.border_color, "#222222");
    assert_eq!((s.border_size, s.rows, s.font_size, s.line_spacing), (3, 4, 12, 1));
    assert_eq!(s.display_index, Some(1));
}
