use vstd::prelude::*;

use crate::keys::{KeyCode, KeyPress};
use crate::text::{chars_vec, string_of};
use vstd::string::StringExecFns;
use vstd::string::StrSliceExecFns;

verus! {

/// Eight spaces: the fixed tab stop the log view renders a tab as.
pub open spec fn tab_spaces() -> Seq<char> {
    seq![' ', ' ', ' ', ' ', ' ', ' ', ' ', ' ']
}

/// `s` with every tab replaced by eight spaces.
pub open spec fn expand_tabs(s: Seq<char>) -> Seq<char>
    decreases s.len(),
{
    if s.len() == 0 {
        s
    } else if s[s.len() - 1] == '\t' {
        expand_tabs(s.drop_last()) + tab_spaces()
    } else {
        expand_tabs(s.drop_last()).push(s[s.len() - 1])
    }
}

/// Replaces tabs by eight spaces, as the renderer will before wrapping.
fn expand_tabs_exec(s: &str) -> (r: Vec<char>)
    ensures
        r@ == expand_tabs(s@),
{
    let v = chars_vec(s);
    let n = v.len();
    let mut out: Vec<char> = Vec::new();
    proof {
        assert(expand_tabs(s@.subrange(0, 0)) =~= Seq::<char>::empty());
    }
    let mut i: usize = 0;
    while i < n
        invariant
            n == v@.len(),
            v@ == s@,
            i <= n,
            out@ == expand_tabs(s@.subrange(0, i as int)),
        decreases n - i,
    {
        if v[i] == '\t' {
            out.push(' ');
            out.push(' ');
            out.push(' ');
            out.push(' ');
            out.push(' ');
            out.push(' ');
            out.push(' ');
            out.push(' ');
        } else {
            out.push(v[i]);
        }
        i = i + 1;
        proof {
            let pre = s@.subrange(0, i as int);
            assert(pre.drop_last() =~= s@.subrange(0, i - 1));
            if s@[i - 1] == '\t' {
                assert(out@ =~= expand_tabs(pre.drop_last()) + tab_spaces());
            }
            assert(out@ =~= expand_tabs(pre));
        }
    }
    proof {
        assert(s@.subrange(0, n as int) =~= s@);
    }
    out
}

/// How many terminal rows a text occupies when wrapped at a width, exactly as
/// ratatui's paragraph wrapping (no trimming) computes it; a function of the
/// text and the width alone.
pub uninterp spec fn wrapped_lines(text: Seq<char>, width: u16) -> nat;

/// Relies on ratatui's `Paragraph::line_count`, with wrapping on and trimming
/// off: the rows the text will occupy when painted at `width`.
#[verifier::external_body]
fn paragraph_line_count(text: &str, width: u16) -> (r: usize)
    requires
        width >= 1,
    ensures
        r == wrapped_lines(text@, width),
{
    let p = ratatui::widgets::Paragraph::new(text).wrap(ratatui::widgets::Wrap { trim: false });
    p.line_count(width)
}

/// The rows the log buffer occupies at `page_width`: tabs expanded, then
/// wrapped exactly as the renderer wraps (width at least one column).
pub open spec fn visual_lines(text: Seq<char>, page_width: u16) -> nat {
    wrapped_lines(expand_tabs(text), if page_width >= 1 { page_width } else { 1u16 })
}

/// The largest scroll offset that still shows content on the last row:
/// `visual_lines - page_height`, or zero for content shorter than a page.
pub open spec fn max_scroll(text: Seq<char>, page_height: u16, page_width: u16) -> nat {
    let l = visual_lines(text, page_width);
    if l > page_height {
        (l - page_height) as nat
    } else {
        0
    }
}

/// The log viewport: one task's streamed output, a scroll offset in visual
/// lines, and whether the view follows the newest content.
#[derive(Debug)]
pub struct LogState {
    /// The task whose log is shown.
    pub task_id: u64,
    /// The accumulated log text.
    pub logs: String,
    /// Scroll offset, in visual lines after wrapping.
    pub scroll_offset: usize,
    /// Whether the view is pinned to the end of the buffer.
    pub autoscroll: bool,
    /// Whether a live stream still feeds this view; app code owns the handle.
    pub stream_open: bool,
}

/// Whether the log view reacts to this key at all.
pub open spec fn is_log_key(key: KeyPress) -> bool {
    match key.code {
        KeyCode::Char(c) => {
            ||| c == 'j'
            ||| c == 'k'
            ||| c == 'b'
            ||| c == ' '
            ||| c == 'g'
            ||| c == 'G'
            ||| c == 'd'
            ||| c == 'u'
        },
        KeyCode::Up | KeyCode::Down | KeyCode::PageUp | KeyCode::PageDown | KeyCode::Home
            | KeyCode::End => true,
        _ => false,
    }
}

/// The offset a key requests, before clamping; `None` when the key instead
/// jumps to the end.
pub open spec fn requested_offset(key: KeyPress, offset: nat, h: u16) -> Option<nat> {
    match key.code {
        KeyCode::Char(c) => {
            if c == 'j' {
                Some(sat_add_usize(offset, 1))
            } else if c == 'k' {
                Some(if offset >= 1 { (offset - 1) as nat } else { 0 })
            } else if c == 'b' {
                Some(if offset >= h { (offset - h) as nat } else { 0 })
            } else if c == ' ' {
                Some(sat_add_usize(offset, h as nat))
            } else if c == 'g' {
                Some(0)
            } else if c == 'd' {
                Some(sat_add_usize(offset, (h / 2) as nat))
            } else if c == 'u' {
                Some(if offset >= h / 2 { (offset - h / 2) as nat } else { 0 })
            } else {
                None
            }
        },
        KeyCode::Down => Some(sat_add_usize(offset, 1)),
        KeyCode::Up => Some(if offset >= 1 { (offset - 1) as nat } else { 0 }),
        KeyCode::PageUp => Some(if offset >= h { (offset - h) as nat } else { 0 }),
        KeyCode::PageDown => Some(sat_add_usize(offset, h as nat)),
        KeyCode::Home => Some(0),
        _ => None,
    }
}

/// Addition saturating at `usize::MAX`.
pub open spec fn sat_add_usize(a: nat, b: nat) -> nat {
    if a + b > usize::MAX {
        usize::MAX as nat
    } else {
        a + b
    }
}

impl LogState {
    /// A fresh viewport for one task: empty buffer, pinned to the end.
    pub fn new(task_id: u64) -> (r: LogState)
        ensures
            r.task_id == task_id,
            r.logs@.len() == 0,
            r.scroll_offset == 0,
            r.autoscroll,
            !r.stream_open,
    {
        LogState {
            task_id,
            logs: String::new(),
            scroll_offset: 0,
            autoscroll: true,
            stream_open: false,
        }
    }

    /// The rows this buffer occupies at `page_width`, using the renderer's
    /// own wrapping.
    pub fn visual_line_count(&self, page_width: u16) -> (r: usize)
        ensures
            r == visual_lines(self.logs@, page_width),
    {
        let expanded = string_of(&expand_tabs_exec(self.logs.as_str()));
        let w: u16 = if page_width >= 1 {
            page_width
        } else {
            1
        };
        paragraph_line_count(expanded.as_str(), w)
    }

    /// While pinned to the end, recomputes the offset so the last visual line
    /// stays on the last row; otherwise changes nothing.
    pub fn update_autoscroll(&mut self, page_height: u16, page_width: u16)
        ensures
            final(self).task_id == old(self).task_id,
            final(self).logs == old(self).logs,
            final(self).autoscroll == old(self).autoscroll,
            final(self).stream_open == old(self).stream_open,
            old(self).autoscroll ==> final(self).scroll_offset == max_scroll(
                old(self).logs@,
                page_height,
                page_width,
            ),
            !old(self).autoscroll ==> final(self).scroll_offset == old(self).scroll_offset,
    {
        if self.autoscroll {
            let lines = self.visual_line_count(page_width);
            self.scroll_offset = lines.saturating_sub(page_height as usize);
        }
    }

    /// One scroll key. Every key but End/`G` turns autoscroll off and then
    /// clamps the offset so no blank space beyond the content can show;
    /// End/`G` re-enables autoscroll and jumps to the end. Returns whether
    /// the key was one the view reacts to.
    pub fn handle_key(&mut self, key: KeyPress, page_height: u16, page_width: u16) -> (handled:
        bool)
        ensures
            handled == is_log_key(key),
            final(self).task_id == old(self).task_id,
            final(self).logs == old(self).logs,
            final(self).stream_open == old(self).stream_open,
            !handled ==> final(self).scroll_offset == old(self).scroll_offset,
            !handled ==> final(self).autoscroll == old(self).autoscroll,
            match requested_offset(key, old(self).scroll_offset as nat, page_height) {
                Some(want) => {
                    &&& !final(self).autoscroll
                    &&& final(self).scroll_offset == if want <= max_scroll(
                        old(self).logs@,
                        page_height,
                        page_width,
                    ) {
                        want
                    } else {
                        max_scroll(old(self).logs@, page_height, page_width)
                    }
                },
                None => true,
            },
            (handled && requested_offset(key, old(self).scroll_offset as nat, page_height)
                is None) ==> {
                &&& final(self).autoscroll
                &&& final(self).scroll_offset == max_scroll(
                    old(self).logs@,
                    page_height,
                    page_width,
                )
            },
            !final(self).autoscroll ==> final(self).scroll_offset <= max_scroll(
                old(self).logs@,
                page_height,
                page_width,
            ) || (!handled && final(self).scroll_offset == old(self).scroll_offset),
    {
        let handled = match key.code {
            KeyCode::Char('j') | KeyCode::Down => {
                self.scroll_offset = self.scroll_offset.saturating_add(1);
                self.autoscroll = false;
                true
            },
            KeyCode::Char('k') | KeyCode::Up => {
                self.scroll_offset = self.scroll_offset.saturating_sub(1);
                self.autoscroll = false;
                true
            },
            KeyCode::Char('b') | KeyCode::PageUp => {
                self.scroll_offset = self.scroll_offset.saturating_sub(page_height as usize);
                self.autoscroll = false;
                true
            },
            KeyCode::Char(' ') | KeyCode::PageDown => {
                self.scroll_offset = self.scroll_offset.saturating_add(page_height as usize);
                self.autoscroll = false;
                true
            },
            KeyCode::Char('g') | KeyCode::Home => {
                self.scroll_offset = 0;
                self.autoscroll = false;
                true
            },
            KeyCode::Char('G') | KeyCode::End => {
                self.autoscroll = true;
                self.update_autoscroll(page_height, page_width);
                true
            },
            KeyCode::Char('d') => {
                self.scroll_offset = self.scroll_offset.saturating_add(
                    (page_height / 2) as usize,
                );
                self.autoscroll = false;
                true
            },
            KeyCode::Char('u') => {
                self.scroll_offset = self.scroll_offset.saturating_sub(
                    (page_height / 2) as usize,
                );
                self.autoscroll = false;
                true
            },
            _ => false,
        };
        // never leave blank space under the content after a manual scroll
        if handled && !self.autoscroll {
            let max_offset = self.visual_line_count(page_width).saturating_sub(
                page_height as usize,
            );
            if self.scroll_offset > max_offset {
                self.scroll_offset = max_offset;
            }
        }
        handled
    }

    /// Takes one streamed chunk into the buffer. While pinned to the end the
    /// offset follows the newest content; otherwise the content grows below
    /// the fold and the offset stays.
    pub fn append_chunk(&mut self, chunk: &str, page_height: u16, page_width: u16)
        ensures
            final(self).task_id == old(self).task_id,
            final(self).autoscroll == old(self).autoscroll,
            final(self).stream_open == old(self).stream_open,
            chunk@.len() == 0 ==> *final(self) == *old(self),
            chunk@.len() > 0 ==> final(self).logs@ == old(self).logs@ + chunk@,
            chunk@.len() > 0 && old(self).autoscroll ==> final(self).scroll_offset
                == max_scroll(old(self).logs@ + chunk@, page_height, page_width),
            chunk@.len() > 0 && !old(self).autoscroll ==> final(self).scroll_offset
                == old(self).scroll_offset,
    {
        if chunk.unicode_len() != 0 {
            self.logs.append(chunk);
            if self.autoscroll {
                self.update_autoscroll(page_height, page_width);
            }
        }
    }

    /// The stream behind this view ended or broke; the view keeps its text.
    pub fn on_stream_closed(&mut self)
        ensures
            final(self).task_id == old(self).task_id,
            final(self).logs == old(self).logs,
            final(self).scroll_offset == old(self).scroll_offset,
            final(self).autoscroll == old(self).autoscroll,
            !final(self).stream_open,
    {
        self.stream_open = false;
    }
}

/// After a jump to the end of the log, the rows `[offset, offset + h)` that
/// the renderer paints include the buffer's last visual line.
pub proof fn lemma_end_shows_last_line(text: Seq<char>, h: u16, w: u16)
    requires
        h >= 1,
        visual_lines(text, w) >= 1,
    ensures
        max_scroll(text, h, w) <= visual_lines(text, w) - 1 < max_scroll(text, h, w) + h,
{
}

} // verus!
