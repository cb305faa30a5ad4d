use avance::render::glyph_bar_of;
use avance::{set_max_progress_bars, AvanceBar, Env, Registry, Style, TermOp};

const SEC: u64 = 1_000_000_000;

fn tty(now: u64) -> Env {
    Env { tty: true, cols: 80, rows: 64, now }
}

fn printed(ops: &[TermOp]) -> Vec<String> {
    ops.iter()
        .filter_map(|op| match op {
            TermOp::Print(s) => Some(s.clone()),
            _ => None,
        })
        .collect()
}

fn percent_of(line: &str) -> u64 {
    line[..3].trim().parse().unwrap()
}

#[test]
fn basic_bounded() {
    let mut reg = Registry::new();
    let mut bar = AvanceBar::new(100, &mut reg, tty(0)).0;
    let mut last_ops = Vec::new();
    for i in 1..=100u64 {
        last_ops = bar.inc(&reg, tty(i * 100_000_001));
    }
    assert_eq!(bar.progress.n, 100);
    let line = bar.to_line(tty(20 * SEC));
    let expected = format!("100%|{}| 100/100 [00:20<00:00, 5.00it/s]", "#".repeat(42));
    assert_eq!(line, expected);
    assert_eq!(line.chars().count(), 80);
    assert!(matches!(last_ops[0], TermOp::MoveToColumn(0)));
    assert_eq!(printed(&last_ops)[0].chars().count(), 80);
    assert!(matches!(last_ops[2], TermOp::Flush));
}

#[test]
fn unbounded() {
    let mut reg = Registry::new();
    let mut bar = AvanceBar::with_hint(None, &mut reg);
    for t in 1..=3u64 {
        bar.update(10, &reg, tty(t * SEC));
    }
    assert_eq!(bar.to_line(tty(3 * SEC)), "30it [00:03, 10.00it/s]");
}

#[test]
fn unbounded_with_desc_and_postfix() {
    let mut reg = Registry::new();
    let mut bar = AvanceBar::with_hint(None, &mut reg).with_desc("load", &reg, tty(0)).0;
    bar.set_postfix("ok", &reg, tty(0));
    bar.update(4, &reg, tty(2 * SEC));
    assert_eq!(bar.to_line(tty(2 * SEC)), "load: 4it [00:02, 2.00it/s, ok]");
}

#[test]
fn shared_bar_three_workers() {
    let mut reg = Registry::new();
    let mut bar = AvanceBar::new(300, &mut reg, tty(0)).0;
    let mut all_ops = Vec::new();
    let mut t: u64 = 0;
    for _ in 0..100 {
        for _worker in 0..3 {
            t += 7_000_000;
            all_ops.extend(bar.inc(&reg, tty(t)));
        }
    }
    assert_eq!(bar.progress.n, 300);
    assert!(!all_ops.iter().any(|op| matches!(op, TermOp::MoveUp(_))));
    let close_ops = bar.close(&mut reg, tty(t + 1));
    let newlines: usize = printed(&close_ops).iter().map(|s| s.matches('\n').count()).sum();
    assert_eq!(newlines, 1);
    assert!(reg.is_finished());
}

#[test]
fn many_bars_with_cap() {
    let mut reg = Registry::new();
    set_max_progress_bars(&mut reg, 3);
    let mut bars: Vec<AvanceBar> = (0..15).map(|_| AvanceBar::new(100, &mut reg, tty(0)).0).collect();
    let mut shown = 0;
    let mut hidden_markers = 0;
    for bar in &bars {
        let ops = bar.refresh(&reg, tty(0));
        for text in printed(&ops) {
            if text.starts_with("... (more hidden) ...") {
                hidden_markers += 1;
            } else if text.contains("%|") {
                shown += 1;
            }
        }
    }
    assert_eq!(shown, 3);
    assert_eq!(hidden_markers, 1);
    for bar in bars.iter_mut() {
        for i in 1..=100u64 {
            bar.inc(&reg, tty(i * SEC));
        }
        assert!(bar.to_line(tty(101 * SEC)).starts_with("100%|"));
    }
}

#[test]
fn unit_scale() {
    let mut reg = Registry::new();
    let mut bar = AvanceBar::new(1_234_000, &mut reg, tty(0)).0.with_unit_scale(true, &reg, tty(0)).0;
    bar.update(1_234_000, &reg, tty(SEC));
    let line = bar.to_line(tty(SEC));
    assert!(line.contains("| 1.23M/1.23M [00:01<00:00, "));
}

#[test]
fn custom_style_half_done() {
    let g = vec!['=', '>', '-'];
    let region: String = glyph_bar_of(&g, 20, 50, 100).into_iter().collect();
    assert_eq!(region, "==========>---------");
    let mut reg = Registry::new();
    let mut bar = AvanceBar::new(100, &mut reg, tty(0)).0.with_style_str("=>-", &reg, tty(0)).0.with_width(57, &reg, tty(0)).0;
    bar.update(50, &reg, tty(10 * SEC));
    assert_eq!(
        bar.to_line(tty(10 * SEC)),
        " 50%|==========>---------| 50/100 [00:10<00:10, 5.00it/s]"
    );
}

#[test]
fn two_glyph_style_uses_filled_as_partial() {
    let region: String = glyph_bar_of(&vec!['a', 'b'], 10, 55, 100).into_iter().collect();
    assert_eq!(region, "aaaaaabbbb");
}

#[test]
fn block_style_partial_cell() {
    let g = Style::Block.glyphs();
    let region: String = glyph_bar_of(&g, 10, 1, 3).into_iter().collect();
    assert_eq!(region, "███▎      ");
    assert_eq!(Style::ASCII.glyphs().len(), 12);
    assert_eq!(Style::Balloon.glyphs(), vec!['*', '.', 'o', 'O', '@', ' ']);
}

#[test]
fn nothing_done_shows_unknown_eta() {
    let mut reg = Registry::new();
    let bar = AvanceBar::new(100, &mut reg, tty(0)).0;
    let line = bar.to_line(tty(SEC));
    assert!(line.starts_with("  0%|0    "));
    assert!(line.ends_with("| 0/100 [00:01<?, 0.00it/s]"));
    assert_eq!(line.chars().count(), 80);
}

#[test]
fn close_twice_is_a_no_op() {
    let mut reg = Registry::new();
    let mut bar = AvanceBar::new(10, &mut reg, tty(0)).0;
    let other = AvanceBar::new(10, &mut reg, tty(0)).0;
    bar.update(15, &reg, tty(SEC));
    let first = bar.close(&mut reg, tty(2 * SEC));
    assert!(!first.is_empty());
    assert_eq!(bar.progress.n, 10);
    assert!(matches!(first[first.len() - 2], TermOp::MoveToColumn(80)));
    let positions = reg.positions.clone();
    let second = bar.close(&mut reg, tty(3 * SEC));
    assert!(second.is_empty());
    assert_eq!(reg.positions, positions);
    assert_eq!(other.get_pos(&reg), 0);
}

#[test]
fn frame_on_lower_row_fills_the_row() {
    let mut reg = Registry::new();
    let _a = AvanceBar::new(10, &mut reg, tty(0)).0;
    let _b = AvanceBar::new(10, &mut reg, tty(0)).0;
    let c = AvanceBar::new(10, &mut reg, tty(0)).0.with_desc("c", &reg, tty(0)).0;
    let ops = c.refresh(&reg, tty(0));
    assert_eq!(ops.len(), 6);
    assert!(matches!(&ops[0], TermOp::Print(s) if s == "\n\n"));
    assert!(matches!(ops[1], TermOp::MoveToColumn(0)));
    assert!(matches!(&ops[2], TermOp::Print(s) if s.chars().count() == 80 && s.starts_with("c:   0%|")));
    assert!(matches!(ops[3], TermOp::MoveUp(2)));
    assert!(matches!(ops[4], TermOp::MoveToColumn(80)));
    assert!(matches!(ops[5], TermOp::Flush));
}

#[test]
fn redraws_are_rate_limited() {
    let mut reg = Registry::new();
    let mut bar = AvanceBar::new(10, &mut reg, tty(0)).0;
    assert!(bar.update(1, &reg, tty(50_000_000)).is_empty());
    assert!(!bar.update(1, &reg, tty(100_000_001)).is_empty());
    assert!(bar.update(1, &reg, tty(200_000_001)).is_empty());
    assert!(!bar.update(1, &reg, tty(200_000_002)).is_empty());
    assert_eq!(bar.progress.n, 4);
}

#[test]
fn percent_never_drops() {
    let mut reg = Registry::new();
    let mut bar = AvanceBar::new(7, &mut reg, tty(0)).0;
    let mut prev = 0;
    for i in 1..=9u64 {
        bar.update(1, &reg, tty(i * SEC));
        let pct = percent_of(&bar.to_line(tty(i * SEC)));
        assert!(pct >= prev);
        prev = pct;
    }
    assert_eq!(prev, 100);
}

#[test]
fn no_terminal_draws_nothing() {
    let mut reg = Registry::new();
    let mut bar = AvanceBar::new(10, &mut reg, tty(0)).0;
    let quiet = Env { tty: false, cols: 80, rows: 64, now: SEC };
    assert!(bar.refresh(&reg, quiet).is_empty());
    assert!(bar.update(3, &reg, quiet).is_empty());
    assert_eq!(bar.progress.n, 3);
    assert!(bar.close(&mut reg, quiet).is_empty());
    assert!(reg.is_finished());
}

#[test]
fn width_change_clears_first() {
    let mut reg = Registry::new();
    let mut bar = AvanceBar::new(10, &mut reg, tty(0)).0;
    let ops = bar.set_width(40, &reg, tty(0));
    assert!(matches!(ops[0], TermOp::ClearLine));
    assert!(matches!(ops[1], TermOp::Flush));
    assert_eq!(bar.to_line(tty(0)).chars().count(), 40);
}

#[test]
fn config_is_copied() {
    let mut reg = Registry::new();
    let a = AvanceBar::new(100, &mut reg, tty(0)).0
        .with_style(Style::Balloon, &reg, tty(0))
        .0
        .with_width(60, &reg, tty(0))
        .0
        .with_desc("task1", &reg, tty(0))
        .0;
    let b = AvanceBar::with_config_of(&a, &mut reg, tty(0))
        .0
        .with_total(200, &reg, tty(0))
        .0
        .with_desc("task2", &reg, tty(0))
        .0;
    assert_eq!(b.total, Some(200));
    assert_eq!(b.config.width, Some(60));
    assert!(matches!(b.config.style, Style::Balloon));
    assert_eq!(b.config.desc.as_deref(), Some("task2"));
    assert_eq!(b.progress.n, 0);
    assert_eq!(b.id, a.id + 1);
}

#[test]
fn new_bar_draws_its_first_frame() {
    let mut reg = Registry::new();
    let (_bar, ops) = AvanceBar::new(10, &mut reg, tty(0));
    assert_eq!(ops.len(), 3);
    assert!(matches!(&ops[1], TermOp::Print(s) if s.starts_with("  0%|")));
    let quiet = Env { tty: false, cols: 80, rows: 64, now: 0 };
    let (second, ops) = AvanceBar::new(10, &mut reg, quiet);
    assert!(ops.is_empty());
    assert_eq!(second.get_pos(&reg), 1);
    let (_copy, ops) = AvanceBar::with_config_of(&second, &mut reg, tty(0));
    assert_eq!(ops.len(), 6);
}

#[test]
fn explicit_row_without_terminal_draws_nothing() {
    let mut reg = Registry::new();
    let (bar, _) = AvanceBar::new(10, &mut reg, tty(0));
    let quiet = Env { tty: false, cols: 80, rows: 64, now: SEC };
    assert!(bar.draw(Some(0), &reg, quiet).is_empty());
    assert_eq!(bar.draw(Some(0), &reg, tty(SEC)).len(), 3);
}

#[test]
fn unbounded_unit_scale_count() {
    let mut reg = Registry::new();
    let mut bar = AvanceBar::with_hint(None, &mut reg);
    let ops = bar.set_unit_scale(true, &reg, tty(0));
    assert_eq!(ops.len(), 3);
    bar.update(12_345, &reg, tty(SEC));
    assert!(bar.to_line(tty(SEC)).starts_with("12.3kit [00:01, "));
}

#[test]
fn custom_style_is_kept() {
    let mut reg = Registry::new();
    let (bar, _) = AvanceBar::new(10, &mut reg, tty(0));
    let (bar, _) = bar.with_style_str("=>-", &reg, tty(0));
    assert!(matches!(&bar.config.style, Style::Custom(s) if s == "=>-"));
}

#[test]
fn advance_then_draw_when_due() {
    let mut reg = Registry::new();
    let (mut bar, _) = AvanceBar::new(10, &mut reg, tty(0));
    assert!(!bar.advance(2, 50_000_000));
    assert!(bar.draw_if_due(&reg, tty(50_000_000)).is_empty());
    assert!(bar.advance(1, 100_000_001));
    assert_eq!(bar.draw_if_due(&reg, tty(100_000_001)).len(), 3);
    assert_eq!((bar.progress.n, bar.progress.last, bar.progress.prev), (3, 3, 100_000_001));
    assert!(bar.draw_if_due(&reg, tty(100_000_002)).is_empty());
}
