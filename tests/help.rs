use broot_help::help_states::{help_text, Action, AppStateCmdResult, HelpState, HelpText, VerbEntry};
use broot_help::markup::{render_line, replace_spans};
use broot_help::screen_area::ScreenArea;

const BOLD: &str = "\x1b[1m";
const RESET: &str = "\x1b[m";
const CODE_OPEN: &str = "\x1b[48;5;234m ";
const CODE_CLOSE: &str = " \x1b[49m";

fn verb(key: &str, name: &str, description: &str) -> VerbEntry {
    VerbEntry {
        key: key.to_string(),
        name: name.to_string(),
        description: description.to_string(),
    }
}

fn two_verbs() -> Vec<VerbEntry> {
    vec![
        verb("e", "edit", "open in editor"),
        verb("o", "open", "open with default app"),
    ]
}

#[test]
fn scroll_stays_in_range_for_many_deltas() {
    for len in [0, 1, 5, 10, 11, 40] {
        for d in [i32::MIN, -100, -1, 0, 1, 3, 100, i32::MAX] {
            let mut a = ScreenArea::new(1, 10);
            a.set_content_length(len);
            a.try_scroll(7);
            a.try_scroll(d);
            let hi = if len > 10 { len - 10 } else { 0 };
            assert!(a.top_line >= 0 && a.top_line <= hi);
        }
    }
}

#[test]
fn scroll_clamps_at_bottom_and_top() {
    let mut a = ScreenArea::new(1, 10);
    a.set_content_length(30);
    a.try_scroll(25);
    assert_eq!(a.top_line, 20);
    a.try_scroll(-7);
    assert_eq!(a.top_line, 13);
    a.try_scroll(-50);
    assert_eq!(a.top_line, 0);
}

#[test]
fn shrinking_content_pulls_offset_back() {
    let mut a = ScreenArea::new(1, 10);
    a.set_content_length(30);
    a.try_scroll(20);
    assert_eq!(a.top_line, 20);
    a.set_content_length(15);
    assert_eq!(a.top_line, 5);
    assert_eq!(a.content_length, 15);
}

#[test]
fn content_shorter_than_viewport_never_scrolls() {
    for d in [-3, -1, 1, 2, 5, 100] {
        let mut a = ScreenArea::new(1, 10);
        a.set_content_length(5);
        a.try_scroll(d);
        assert_eq!(a.top_line, 0);
    }
}

#[test]
fn rendering_twice_gives_the_same_line() {
    let line = " `<esc>` gets you **back** to the previous state.";
    assert_eq!(render_line(line), render_line(line));
    let mut t1 = HelpText::new();
    let mut t2 = HelpText::new();
    t1.md(line);
    t2.md(line);
    assert_eq!(t1.lines, t2.lines);
}

#[test]
fn plain_line_renders_unchanged() {
    let line = "    and launch various commands on files.";
    assert_eq!(render_line(line), line);
    assert_eq!(render_line(""), "");
}

#[test]
fn emphasis_renders_bold() {
    assert_eq!(render_line("**x**"), format!("{}x{}", BOLD, RESET));
    assert_eq!(render_line("a **bc** d"), format!("a {}bc{} d", BOLD, RESET));
}

#[test]
fn code_renders_on_grey() {
    assert_eq!(render_line("`k`"), format!("{}k{}", CODE_OPEN, CODE_CLOSE));
}

#[test]
fn emphasis_then_code_in_either_order() {
    let e = format!("{}u{}", BOLD, RESET);
    let c = format!("{}v{}", CODE_OPEN, CODE_CLOSE);
    assert_eq!(render_line("**u**`v`"), format!("{}{}", e, c));
    assert_eq!(render_line("`v`**u**"), format!("{}{}", c, e));
}

#[test]
fn emphasis_inside_code_is_bold() {
    assert_eq!(
        render_line("`a**b**c`"),
        format!("{}a{}b{}c{}", CODE_OPEN, BOLD, RESET, CODE_CLOSE)
    );
}

#[test]
fn code_first_agrees_on_overlapping_delimiters() {
    for line in ["`a**b**c`", "`**`a**", "**a`b**c`"] {
        let code = replace_spans(line, 1, '`', CODE_OPEN, CODE_CLOSE);
        let code_first = replace_spans(&code, 2, '*', BOLD, RESET);
        assert_eq!(render_line(line), code_first);
    }
    assert_eq!(
        render_line("`**`a**"),
        format!("{}{}{}a{}", CODE_OPEN, BOLD, CODE_CLOSE, RESET)
    );
}

#[test]
fn stray_backtick_is_kept() {
    assert_eq!(render_line("odd ` mark"), "odd ` mark");
    assert_eq!(render_line("**a** `"), format!("{}a{} `", BOLD, RESET));
}

#[test]
fn unmatched_stars_are_kept() {
    assert_eq!(render_line("a ** b"), "a ** b");
    assert_eq!(render_line("****"), "****");
    assert_eq!(render_line("``"), "``");
}

#[test]
fn help_text_lists_verbs_in_order() {
    let text = help_text(&two_verbs(), "\"/home/u/.config/broot/conf.toml\"");
    let lines = &text.lines;
    assert_eq!(lines.len(), 15);
    assert_eq!(lines[0], "");
    assert_eq!(
        lines[1],
        format!(" {}broot{} (pronounce \"b-root\") lets you explore directory trees", BOLD, RESET)
    );
    assert_eq!(lines[10], " Current Verbs:");
    assert_eq!(
        lines[11],
        format!("          edit : {}e{} => open in editor", CODE_OPEN, CODE_CLOSE)
    );
    assert_eq!(
        lines[12],
        format!("          open : {}o{} => open with default app", CODE_OPEN, CODE_CLOSE)
    );
    assert_eq!(lines[13], "");
    assert_eq!(
        lines[14],
        " Verbs are configured in \"/home/u/.config/broot/conf.toml\"."
    );
}

#[test]
fn long_verb_name_is_not_cut() {
    let text = help_text(&vec![verb("x", "a_very_long_verb_name", "d")], "c");
    assert_eq!(
        text.lines[11],
        format!("a_very_long_verb_name : {}x{} => d", CODE_OPEN, CODE_CLOSE)
    );
}

#[test]
fn back_pops_quit_quits_move_keeps() {
    let mut s = HelpState::new("", 7);
    assert_eq!(s.apply(&Action::Back), AppStateCmdResult::PopState);
    assert_eq!(s.apply(&Action::Quit), AppStateCmdResult::Quit);
    assert_eq!(s.area.top_line, 0);
    assert_eq!(s.apply(&Action::MoveSelection(-1)), AppStateCmdResult::Keep);
    assert_eq!(s.area.top_line, 0);
    s.display(&two_verbs(), "c");
    assert_eq!(s.apply(&Action::MoveSelection(4)), AppStateCmdResult::Keep);
    assert_eq!(s.area.top_line, 4);
    assert_eq!(s.apply(&Action::Back), AppStateCmdResult::PopState);
    assert_eq!(s.apply(&Action::Quit), AppStateCmdResult::Quit);
    assert_eq!(s.area.top_line, 4);
}

#[test]
fn other_actions_keep_and_do_not_scroll() {
    let mut s = HelpState::new("", 7);
    s.display(&two_verbs(), "c");
    s.apply(&Action::MoveSelection(2));
    let others = vec![
        Action::FixPattern,
        Action::Select("a".to_string()),
        Action::OpenSelection,
        Action::Verb("e".to_string()),
        Action::PatternEdit("p".to_string()),
        Action::Next,
    ];
    for a in others.iter() {
        assert_eq!(s.apply(a), AppStateCmdResult::Keep);
        assert_eq!(s.area.top_line, 2);
    }
}

#[test]
fn display_returns_the_visible_window() {
    let mut s = HelpState::new("about", 7);
    assert_eq!(s.area.visible_height, 5);
    assert_eq!(s.area.top, 1);
    let verbs = two_verbs();
    let all = help_text(&verbs, "c").lines;
    let shown = s.display(&verbs, "c");
    assert_eq!(s.area.content_length, 15);
    assert_eq!(shown, all[0..5].to_vec());
    s.apply(&Action::MoveSelection(100));
    assert_eq!(s.area.top_line, 10);
    let shown = s.display(&verbs, "c");
    assert_eq!(shown, all[10..15].to_vec());
}

#[test]
fn display_with_tall_screen_shows_everything() {
    let mut s = HelpState::new("", 40);
    s.apply(&Action::MoveSelection(3));
    let shown = s.display(&two_verbs(), "c");
    assert_eq!(shown.len(), 15);
    assert_eq!(s.area.top_line, 0);
}

#[test]
fn status_hint_text() {
    let s = HelpState::new("", 10);
    assert_eq!(s.status_text(), "Hit <esc> to get back to the tree");
}
