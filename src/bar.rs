//! One progress bar: its configuration, its counters, and what it asks of the
//! terminal when it is created, changed, advanced or closed.
//!
//! A bar does not write anywhere itself: every call that may show something
//! returns the terminal operations to play back. The registry of live bars
//! and the state of the terminal are handed in by the caller.

use vstd::prelude::*;
use crate::progress::{is_ready, sat_add, Progress, INTERVAL};
use crate::registry::{lemma_close_slides_up, lemma_row_unique, rows_in_use, Registry};
use crate::render::{line_of, line_spec, Config};
use crate::style::Style;
use crate::term::{
    actions, clear_actions, clear_ops, draw_actions, frame_ops, hidden_marker_chars, Action,
    TermOp,
};
use crate::format::string_of;

verus! {

/// The terminal and the clock, as a call finds them.
#[derive(Debug, Clone, Copy, PartialEq, Eq)]
pub struct Env {
    /// Standard error is a terminal; when it is not, nothing is drawn.
    pub tty: bool,
    /// Width of the terminal in columns.
    pub cols: u16,
    /// Height of the terminal in rows.
    pub rows: u16,
    /// Nanoseconds since the bar was created.
    pub now: u64,
}

/// A progress bar.
#[derive(Debug)]
pub struct AvanceBar {
    /// The bar's id in the registry.
    pub id: u64,
    /// How the bar looks.
    pub config: Config,
    /// Steps to do, when known.
    pub total: Option<u64>,
    /// Steps done, and when the bar was last drawn.
    pub progress: Progress,
}

/// The configuration of a new bar.
pub open spec fn default_config() -> Config {
    Config { style: Style::ASCII, width: None, desc: None, postfix: None, unit_scale: false }
}

/// `o` holds a text equal to `s`.
pub open spec fn holds_text(o: Option<String>, s: Seq<char>) -> bool {
    match o {
        Some(t) => t@ == s,
        None => false,
    }
}

/// `style` is the custom alphabet `s`.
pub open spec fn is_custom(style: Style, s: Seq<char>) -> bool {
    match style {
        Style::Custom(t) => t@ == s,
        _ => false,
    }
}

/// The counters of a bar as it closes at `now`: the count is cut down to the
/// total, and the closing frame shows the average rate.
pub open spec fn closing_progress(p: Progress, total: Option<u64>, now: u64) -> Progress {
    let n = match total {
        Some(t) => if p.n > t {
            t
        } else {
            p.n
        },
        None => p.n,
    };
    Progress { n, last: n, prev: now }
}

/// After the closing frame: a newline, then back to column `cols` while other
/// bars are still live.
pub open spec fn close_tail(reg: Registry, cols: u16) -> Seq<Action> {
    seq![Action::Print(seq!['\n'])] + (if reg@.len() > 0 {
        seq![Action::MoveToColumn(cols as nat)]
    } else {
        Seq::empty()
    }) + seq![Action::Flush]
}

impl AvanceBar {
    /// The style can draw a bar.
    pub open spec fn wf(&self) -> bool {
        self.config.style.wf()
    }

    /// The row of this bar in `reg`.
    pub open spec fn row_in(&self, reg: Registry) -> int {
        choose|k: int| reg.at_row(self.id, k)
    }

    /// The line of this bar.
    pub open spec fn line(&self, env: Env) -> Seq<char> {
        line_spec(self.config, self.total, self.progress, env.now, env.cols)
    }

    /// Drawing this bar on row `pos`.
    pub open spec fn frame_at(&self, pos: nat, reg: Registry, env: Env) -> Seq<Action> {
        draw_actions(self.line(env), pos, env.cols as nat, rows_in_use(reg.max_bars, env.rows) as nat)
    }

    /// The bar is live and there is a terminal to draw on.
    pub open spec fn drawable_in(&self, reg: Registry, env: Env) -> bool {
        env.tty && reg@.contains(self.id)
    }

    /// Drawing this bar on its own row, if it can be drawn.
    pub open spec fn redraw(&self, reg: Registry, env: Env) -> Seq<Action> {
        if self.drawable_in(reg, env) {
            self.frame_at(self.row_in(reg) as nat, reg, env)
        } else {
            Seq::empty()
        }
    }

    /// Blanking this bar's row, if it can be drawn.
    pub open spec fn wipe(&self, reg: Registry, env: Env) -> Seq<Action> {
        if self.drawable_in(reg, env) {
            clear_actions(self.row_in(reg) as nat, rows_in_use(reg.max_bars, env.rows) as nat)
        } else {
            Seq::empty()
        }
    }

    fn fresh(total: Option<u64>, reg: &mut Registry) -> (r: AvanceBar)
        requires
            old(reg).wf(),
            old(reg).has_room(),
        ensures
            final(reg).wf(),
            r.wf(),
            r.id == old(reg).next_id,
            final(reg)@ == old(reg)@.push(r.id),
            final(reg).next_id == r.id + 1,
            final(reg).max_bars == old(reg).max_bars,
            r.config == default_config(),
            r.total == total,
            r.progress == (Progress { n: 0, last: 0, prev: 0 }),
    {
        let id = reg.next_free_pos();
        AvanceBar { id, config: Config::new(), total, progress: Progress::new() }
    }

    /// A new bar of `total` steps, registered on the row below the live bars,
    /// with its first frame.
    pub fn new(total: u64, reg: &mut Registry, env: Env) -> (r: (AvanceBar, Vec<TermOp>))
        requires
            old(reg).wf(),
            old(reg).has_room(),
        ensures
            final(reg).wf(),
            r.0.wf(),
            r.0.id == old(reg).next_id,
            final(reg)@ == old(reg)@.push(r.0.id),
            final(reg).next_id == r.0.id + 1,
            final(reg).max_bars == old(reg).max_bars,
            r.0.config == default_config(),
            r.0.total == Some(total),
            r.0.progress == (Progress { n: 0, last: 0, prev: 0 }),
            actions(r.1@) == r.0.redraw(*final(reg), env),
    {
        let bar = AvanceBar::fresh(Some(total), reg);
        let ops = bar.refresh(reg, env);
        (bar, ops)
    }

    /// A new bar with the configuration and total of `pb`, nothing done, and
    /// its first frame.
    pub fn with_config_of(pb: &AvanceBar, reg: &mut Registry, env: Env) -> (r: (
        AvanceBar,
        Vec<TermOp>,
    ))
        requires
            pb.wf(),
            old(reg).wf(),
            old(reg).has_room(),
        ensures
            final(reg).wf(),
            r.0.wf(),
            r.0.id == old(reg).next_id,
            final(reg)@ == old(reg)@.push(r.0.id),
            final(reg).next_id == r.0.id + 1,
            final(reg).max_bars == old(reg).max_bars,
            r.0.config == pb.config,
            r.0.total == pb.total,
            r.0.progress == (Progress { n: 0, last: 0, prev: 0 }),
            actions(r.1@) == r.0.redraw(*final(reg), env),
    {
        let mut bar = AvanceBar::fresh(pb.total, reg);
        bar.config = pb.config.duplicate();
        let ops = bar.refresh(reg, env);
        (bar, ops)
    }

    /// A new bar for a sequence whose length is at most `size_hint`; without
    /// a hint the bar has no total. It is first drawn by its first step.
    pub fn with_hint(size_hint: Option<usize>, reg: &mut Registry) -> (r: AvanceBar)
        requires
            old(reg).wf(),
            old(reg).has_room(),
        ensures
            final(reg).wf(),
            r.wf(),
            r.id == old(reg).next_id,
            final(reg)@ == old(reg)@.push(r.id),
            final(reg).next_id == r.id + 1,
            final(reg).max_bars == old(reg).max_bars,
            r.config == default_config(),
            r.total == match size_hint {
                Some(s) => Some(s as u64),
                None => None::<u64>,
            },
            r.progress == (Progress { n: 0, last: 0, prev: 0 }),
    {
        let total = match size_hint {
            Some(s) => Some(s as u64),
            None => None,
        };
        AvanceBar::fresh(total, reg)
    }

    /// The same bar drawn with `style`, with its new frame.
    pub fn with_style(self, style: Style, reg: &Registry, env: Env) -> (r: (AvanceBar, Vec<TermOp>))
        requires
            style.wf(),
            reg.wf(),
        ensures
            r.0 == (AvanceBar { config: Config { style, ..self.config }, ..self }),
            actions(r.1@) == r.0.redraw(*reg, env),
    {
        let mut bar = self;
        let ops = bar.set_style(style, reg, env);
        (bar, ops)
    }

    /// The same bar drawn with the glyph alphabet `s` (first the filled glyph,
    /// then the partial ones, last the background glyph), with its new frame.
    pub fn with_style_str(self, s: &str, reg: &Registry, env: Env) -> (r: (AvanceBar, Vec<TermOp>))
        requires
            s@.len() >= 2,
            reg.wf(),
        ensures
            r.0 == (AvanceBar { config: Config { style: r.0.config.style, ..self.config }, ..self }),
            is_custom(r.0.config.style, s@),
            r.0.wf(),
            actions(r.1@) == r.0.redraw(*reg, env),
    {
        let mut bar = self;
        let ops = bar.set_style_str(s, reg, env);
        (bar, ops)
    }

    /// The same bar at most `width` columns wide; its row is blanked, then
    /// redrawn.
    pub fn with_width(self, width: u16, reg: &Registry, env: Env) -> (r: (AvanceBar, Vec<TermOp>))
        requires
            self.wf(),
            reg.wf(),
        ensures
            r.0 == (AvanceBar { config: Config { width: Some(width), ..self.config }, ..self }),
            actions(r.1@) == r.0.wipe(*reg, env) + r.0.redraw(*reg, env),
    {
        let mut bar = self;
        let ops = bar.set_width(width, reg, env);
        (bar, ops)
    }

    /// The same bar with the description `desc`, with its new frame.
    pub fn with_desc(self, desc: &str, reg: &Registry, env: Env) -> (r: (AvanceBar, Vec<TermOp>))
        requires
            self.wf(),
            reg.wf(),
        ensures
            r.0 == (AvanceBar { config: Config { desc: r.0.config.desc, ..self.config }, ..self }),
            holds_text(r.0.config.desc, desc@),
            actions(r.1@) == r.0.redraw(*reg, env),
    {
        let mut bar = self;
        let ops = bar.set_desc(desc, reg, env);
        (bar, ops)
    }

    /// The same bar with `total` steps to do, with its new frame.
    pub fn with_total(self, total: u64, reg: &Registry, env: Env) -> (r: (AvanceBar, Vec<TermOp>))
        requires
            self.wf(),
            reg.wf(),
        ensures
            r.0 == (AvanceBar { total: Some(total), ..self }),
            actions(r.1@) == r.0.redraw(*reg, env),
    {
        let mut bar = self;
        let ops = bar.set_total(total, reg, env);
        (bar, ops)
    }

    /// The same bar, with counts shown with SI prefixes when `unit_scale`,
    /// with its new frame.
    pub fn with_unit_scale(self, unit_scale: bool, reg: &Registry, env: Env) -> (r: (
        AvanceBar,
        Vec<TermOp>,
    ))
        requires
            self.wf(),
            reg.wf(),
        ensures
            r.0 == (AvanceBar { config: Config { unit_scale, ..self.config }, ..self }),
            actions(r.1@) == r.0.redraw(*reg, env),
    {
        let mut bar = self;
        let ops = bar.set_unit_scale(unit_scale, reg, env);
        (bar, ops)
    }

    /// The row of this bar, if it is live.
    pub fn try_get_pos(&self, reg: &Registry) -> (r: Option<u16>)
        requires
            reg.wf(),
        ensures
            match r {
                Some(row) => reg.at_row(self.id, row as int) && row == self.row_in(*reg),
                None => !reg@.contains(self.id),
            },
    {
        let r = reg.position(self.id);
        proof {
            if let Some(row) = r {
                lemma_row_unique(*reg, self.id, row as int, self.row_in(*reg));
            }
        }
        r
    }

    /// The row of this live bar.
    pub fn get_pos(&self, reg: &Registry) -> (r: u16)
        requires
            reg.wf(),
            reg@.contains(self.id),
        ensures
            reg.at_row(self.id, r as int),
            r == self.row_in(*reg),
    {
        match self.try_get_pos(reg) {
            Some(row) => row,
            None => 0,
        }
    }

    /// The bar is live and there is a terminal to draw on.
    pub fn drawable(&self, reg: &Registry, env: Env) -> (r: bool)
        requires
            reg.wf(),
        ensures
            r == self.drawable_in(*reg, env),
    {
        env.tty && self.try_get_pos(reg).is_some()
    }

    /// Draws the bar on row `pos`, or on its own row when `pos` is `None`;
    /// nothing without a terminal, or when the bar is closed and no row is
    /// given. The last row that bars may use shows
    /// the overflow marker instead, and rows past it show nothing.
    pub fn draw(&self, pos: Option<u16>, reg: &Registry, env: Env) -> (r: Vec<TermOp>)
        requires
            self.wf(),
            reg.wf(),
        ensures
            actions(r@) == if env.tty {
                match pos {
                    Some(p) => self.frame_at(p as nat, *reg, env),
                    None => self.redraw(*reg, env),
                }
            } else {
                Seq::empty()
            },
    {
        if !env.tty {
            let r: Vec<TermOp> = Vec::new();
            assert(actions(r@) =~= Seq::empty());
            return r;
        }
        let pos = match pos {
            Some(p) => p,
            None => {
                if !self.drawable(reg, env) {
                    let r: Vec<TermOp> = Vec::new();
                    assert(actions(r@) =~= Seq::empty());
                    return r;
                }
                self.get_pos(reg)
            },
        };
        let nrows = reg.nrows(env.rows);
        if pos >= nrows {
            let r: Vec<TermOp> = Vec::new();
            assert(actions(r@) =~= Seq::empty());
            return r;
        }
        let msg = if pos == nrows - 1 {
            hidden_marker_chars()
        } else {
            line_of(&self.config, self.total, &self.progress, env.now, env.cols)
        };
        frame_ops(msg, pos, env.cols)
    }

    /// The line of this bar, unpadded.
    pub fn to_line(&self, env: Env) -> (r: String)
        requires
            self.wf(),
        ensures
            r@ == self.line(env),
    {
        string_of(line_of(&self.config, self.total, &self.progress, env.now, env.cols))
    }

    /// Draws the bar on its own row.
    pub fn refresh(&self, reg: &Registry, env: Env) -> (r: Vec<TermOp>)
        requires
            self.wf(),
            reg.wf(),
        ensures
            actions(r@) == self.redraw(*reg, env),
    {
        self.draw(None, reg, env)
    }

    /// Blanks the bar's row; used before a redraw at another width.
    pub fn clear(&self, reg: &Registry, env: Env) -> (r: Vec<TermOp>)
        requires
            reg.wf(),
        ensures
            actions(r@) == self.wipe(*reg, env),
    {
        if !self.drawable(reg, env) {
            let r: Vec<TermOp> = Vec::new();
            assert(actions(r@) =~= Seq::empty());
            return r;
        }
        let pos = self.get_pos(reg);
        clear_ops(pos, reg.nrows(env.rows))
    }

    /// Sets the postfix and redraws.
    pub fn set_postfix(&mut self, postfix: &str, reg: &Registry, env: Env) -> (r: Vec<TermOp>)
        requires
            old(self).wf(),
            reg.wf(),
        ensures
            *final(self) == (AvanceBar {
                config: Config { postfix: final(self).config.postfix, ..old(self).config },
                ..*old(self)
            }),
            holds_text(final(self).config.postfix, postfix@),
            actions(r@) == final(self).redraw(*reg, env),
    {
        self.config.postfix = Some(String::from_str(postfix));
        self.draw(None, reg, env)
    }

    /// Sets the style and redraws.
    pub fn set_style(&mut self, style: Style, reg: &Registry, env: Env) -> (r: Vec<TermOp>)
        requires
            style.wf(),
            reg.wf(),
        ensures
            *final(self) == (AvanceBar {
                config: Config { style, ..old(self).config },
                ..*old(self)
            }),
            actions(r@) == final(self).redraw(*reg, env),
    {
        self.config.style = style;
        self.draw(None, reg, env)
    }

    /// Sets the glyph alphabet `s` as style and redraws.
    pub fn set_style_str(&mut self, s: &str, reg: &Registry, env: Env) -> (r: Vec<TermOp>)
        requires
            s@.len() >= 2,
            reg.wf(),
        ensures
            *final(self) == (AvanceBar {
                config: Config { style: final(self).config.style, ..old(self).config },
                ..*old(self)
            }),
            is_custom(final(self).config.style, s@),
            final(self).wf(),
            actions(r@) == final(self).redraw(*reg, env),
    {
        self.config.style = Style::Custom(String::from_str(s));
        self.draw(None, reg, env)
    }

    /// Sets the width; blanks the row, then redraws.
    pub fn set_width(&mut self, width: u16, reg: &Registry, env: Env) -> (r: Vec<TermOp>)
        requires
            old(self).wf(),
            reg.wf(),
        ensures
            *final(self) == (AvanceBar {
                config: Config { width: Some(width), ..old(self).config },
                ..*old(self)
            }),
            actions(r@) == final(self).wipe(*reg, env) + final(self).redraw(*reg, env),
    {
        self.config.width = Some(width);
        let mut ops = self.clear(reg, env);
        let ghost first = ops@;
        let mut more = self.draw(None, reg, env);
        let ghost second = more@;
        ops.append(&mut more);
        assert(actions(ops@) =~= actions(first) + actions(second));
        ops
    }

    /// Sets the description and redraws.
    pub fn set_desc(&mut self, desc: &str, reg: &Registry, env: Env) -> (r: Vec<TermOp>)
        requires
            old(self).wf(),
            reg.wf(),
        ensures
            *final(self) == (AvanceBar {
                config: Config { desc: final(self).config.desc, ..old(self).config },
                ..*old(self)
            }),
            holds_text(final(self).config.desc, desc@),
            actions(r@) == final(self).redraw(*reg, env),
    {
        self.config.desc = Some(String::from_str(desc));
        self.draw(None, reg, env)
    }

    /// Sets the total and redraws.
    pub fn set_total(&mut self, total: u64, reg: &Registry, env: Env) -> (r: Vec<TermOp>)
        requires
            old(self).wf(),
            reg.wf(),
        ensures
            *final(self) == (AvanceBar { total: Some(total), ..*old(self) }),
            actions(r@) == final(self).redraw(*reg, env),
    {
        self.total = Some(total);
        self.draw(None, reg, env)
    }

    /// Shows counts with SI prefixes, or not, and redraws.
    pub fn set_unit_scale(&mut self, unit_scale: bool, reg: &Registry, env: Env) -> (r: Vec<TermOp>)
        requires
            old(self).wf(),
            reg.wf(),
        ensures
            *final(self) == (AvanceBar {
                config: Config { unit_scale, ..old(self).config },
                ..*old(self)
            }),
            actions(r@) == final(self).redraw(*reg, env),
    {
        self.config.unit_scale = unit_scale;
        self.draw(None, reg, env)
    }

    /// Adds `n` steps (saturating at `u64::MAX`) and tells whether a redraw
    /// is due at `now`. Touches neither the registry nor the terminal.
    pub fn advance(&mut self, n: u64, now: u64) -> (due: bool)
        ensures
            *final(self) == (AvanceBar {
                progress: Progress { n: sat_add(old(self).progress.n, n), ..old(self).progress },
                ..*old(self)
            }),
            due == is_ready(old(self).progress.prev, now),
    {
        self.progress.inc(n);
        self.progress.ready(now)
    }

    /// When a redraw is due at `env.now`, draws the bar and records the draw;
    /// otherwise does nothing.
    pub fn draw_if_due(&mut self, reg: &Registry, env: Env) -> (r: Vec<TermOp>)
        requires
            old(self).wf(),
            reg.wf(),
        ensures
            is_ready(old(self).progress.prev, env.now) ==> {
                &&& *final(self) == (AvanceBar {
                    progress: Progress {
                        n: old(self).progress.n,
                        last: old(self).progress.n,
                        prev: env.now,
                    },
                    ..*old(self)
                })
                &&& actions(r@) == old(self).redraw(*reg, env)
            },
            !is_ready(old(self).progress.prev, env.now) ==> {
                &&& *final(self) == *old(self)
                &&& r@.len() == 0
            },
    {
        if self.progress.ready(env.now) {
            let ops = self.draw(None, reg, env);
            self.progress.update(env.now);
            ops
        } else {
            Vec::new()
        }
    }

    /// Advances the bar by `n` steps (saturating at `u64::MAX`). When more than
    /// `INTERVAL` passed since the last draw, the bar is drawn with the new
    /// count and the draw is recorded; otherwise nothing is drawn. A bar that
    /// is closed, hidden past the rows in use, or without a terminal counts
    /// its steps all the same and draws nothing.
    pub fn update(&mut self, n: u64, reg: &Registry, env: Env) -> (r: Vec<TermOp>)
        requires
            old(self).wf(),
            reg.wf(),
        ensures
            *final(self) == (AvanceBar {
                progress: old(self).progress.stepped(n, env.now),
                ..*old(self)
            }),
            actions(r@) == if is_ready(old(self).progress.prev, env.now) {
                (AvanceBar {
                    progress: Progress { n: sat_add(old(self).progress.n, n), ..old(self).progress },
                    ..*old(self)
                }).redraw(*reg, env)
            } else {
                Seq::empty()
            },
            r@.len() > 0 ==> env.now > old(self).progress.prev + INTERVAL,
            !old(self).drawable_in(*reg, env) ==> r@.len() == 0,
            old(self).row_in(*reg) >= rows_in_use(reg.max_bars, env.rows) ==> r@.len() == 0,
    {
        self.advance(n, env.now);
        let r = self.draw_if_due(reg, env);
        assert(actions(r@).len() == r@.len());
        r
    }

    /// Advances the bar by one step, as `update(1)`.
    pub fn inc(&mut self, reg: &Registry, env: Env) -> (r: Vec<TermOp>)
        requires
            old(self).wf(),
            reg.wf(),
        ensures
            *final(self) == (AvanceBar {
                progress: old(self).progress.stepped(1, env.now),
                ..*old(self)
            }),
            actions(r@) == if is_ready(old(self).progress.prev, env.now) {
                (AvanceBar {
                    progress: Progress { n: sat_add(old(self).progress.n, 1), ..old(self).progress },
                    ..*old(self)
                }).redraw(*reg, env)
            } else {
                Seq::empty()
            },
    {
        self.update(1, reg, env)
    }

    /// Closes the bar: it leaves the registry, the bars below it move up one
    /// row, its count is cut down to the total, and its last frame is drawn on
    /// the cursor's row followed by a newline. A closed bar stays as it is.
    pub fn close(&mut self, reg: &mut Registry, env: Env) -> (r: Vec<TermOp>)
        requires
            old(self).wf(),
            old(reg).wf(),
        ensures
            final(reg).wf(),
            final(reg).next_id == old(reg).next_id,
            final(reg).max_bars == old(reg).max_bars,
            !old(reg)@.contains(old(self).id) ==> {
                &&& *final(reg) == *old(reg)
                &&& *final(self) == *old(self)
                &&& r@.len() == 0
            },
            old(reg)@.contains(old(self).id) ==> {
                &&& final(reg)@ == old(reg)@.remove(old(self).row_in(*old(reg)))
                &&& *final(self) == (AvanceBar {
                    progress: closing_progress(old(self).progress, old(self).total, env.now),
                    ..*old(self)
                })
                &&& actions(r@) == if env.tty {
                    final(self).frame_at(0, *final(reg), env) + close_tail(*final(reg), env.cols)
                } else {
                    Seq::empty()
                }
            },
    {
        if self.try_get_pos(reg).is_none() {
            return Vec::new();
        }
        let ghost k = self.row_in(*reg);
        reg.reposition(self.id);
        if let Some(t) = self.total {
            if self.progress.n > t {
                self.progress.n = t;
            }
        }
        self.progress.update(env.now);
        if !env.tty {
            let r: Vec<TermOp> = Vec::new();
            assert(actions(r@) =~= Seq::empty());
            return r;
        }
        let mut ops = self.draw(Some(0), reg, env);
        let ghost frame = ops@;
        let mut nl: Vec<char> = Vec::new();
        nl.push('\n');
        ops.push(TermOp::Print(string_of(nl)));
        if !reg.is_finished() {
            ops.push(TermOp::MoveToColumn(env.cols));
        }
        ops.push(TermOp::Flush);
        assert(actions(ops@) =~= actions(frame) + close_tail(*reg, env.cols));
        ops
    }
}

/// Closing a bar takes it out of the registry, so closing it again changes
/// nothing.
pub proof fn lemma_close_once(bar: AvanceBar, before: Registry, after: Registry)
    requires
        before.wf(),
        after.wf(),
        before@.contains(bar.id),
        after@ == before@.remove(bar.row_in(before)),
    ensures
        !after@.contains(bar.id),
{
    let w = choose|w: int| 0 <= w < before@.len() && before@[w] == bar.id;
    assert(before.at_row(bar.id, w));
    lemma_close_slides_up(before, after, bar.id, bar.row_in(before));
}

} // verus!
