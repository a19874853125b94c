use vstd::prelude::*;
use crate::grid::{Window, blank};
use crate::elements::{
    Container, Element, Clip, clip_of, render_all, fired_all, chars_of, vec_pop, vec_remove,
    vec_remove_by_id, vec_get_by_id,
};

verus! {

/// The line that stops the dispatch loop.
pub open spec fn quit_line() -> Seq<char> {
    seq!['q', 'u', 'i', 't', '\n']
}

/// The prompt written after the last row of a frame.
pub open spec fn prompt() -> Seq<char> {
    seq!['>', ' ', '$', ' ']
}

/// Each row of `g` followed by a newline.
pub open spec fn rows_text(g: Seq<Seq<char>>) -> Seq<char>
    decreases g.len(),
{
    if g.len() == 0 {
        Seq::empty()
    } else {
        rows_text(g.drop_last()) + g.last() + seq!['\n']
    }
}

/// The text of a frame: each row and a newline, then the prompt.
pub open spec fn frame_text(g: Seq<Seq<char>>) -> Seq<char> {
    rows_text(g) + prompt()
}

/// What the host does with one input line, in order.
#[derive(PartialEq, Eq, Structural, Clone, Copy, Debug)]
pub enum Step {
    /// Run the host's own command handler on the line.
    Handler,
    /// Hand the line to every top-level element, in order.
    Forward,
    /// Render and write a frame.
    Redraw,
}

/// The root of the element tree, its window and its lifecycle flag
/// (`1` while running, `0` once stopped).
pub struct App {
    elements: Vec<Element>,
    window: Window,
    state: u32,
}

impl App {
    /// The window is well formed and small enough for its bounds to be clip bounds.
    pub closed spec fn wf(&self) -> bool {
        &&& self.window.wf()
        &&& self.window.spec_width() <= u16::MAX
        &&& self.window.spec_height() <= u16::MAX
    }

    pub closed spec fn spec_state(&self) -> u32 {
        self.state
    }

    /// The lifecycle flag: `1` while running, `0` once stopped.
    pub fn state(&self) -> (s: u32)
        ensures
            s == self.spec_state(),
    {
        self.state
    }

    pub closed spec fn spec_window(&self) -> Window {
        self.window
    }

    /// An app with no elements, running, over a window `width` columns wide and one
    /// row shorter than `rows`, which leaves a line for the prompt.
    pub fn new(width: u16, rows: u16) -> (a: App)
        ensures
            a.wf(),
            a.spec_state() == 1,
            a.children().len() == 0,
            a.spec_window().spec_width() == width,
            a.spec_window().spec_height() == if rows == 0 { 0 } else { rows - 1 },
            a.spec_window().cells() == blank(width as int, if rows == 0 { 0 } else { rows - 1 }),
    {
        let h: u16 = if rows == 0 { 0 } else { rows - 1 };
        App { elements: Vec::new(), window: Window::new(width as usize, h as usize), state: 1 }
    }

    /// The window as last rendered.
    pub fn window(&self) -> (w: &Window)
        requires
            self.wf(),
        ensures
            *w == self.spec_window(),
            w.wf(),
    {
        &self.window
    }

    /// Decides what happens with one input line. A stopped app does nothing. The quit
    /// line stops it. Any other line runs the host's handler first, then goes to the
    /// elements, then a redraw follows.
    pub fn next_steps(&mut self, line: &str) -> (steps: Vec<Step>)
        ensures
            final(self).children() == old(self).children(),
            final(self).spec_window() == old(self).spec_window(),
            old(self).wf() ==> final(self).wf(),
            old(self).spec_state() == 0 ==> steps@.len() == 0 && final(self).spec_state() == 0,
            old(self).spec_state() != 0 && line@ == quit_line() ==> steps@.len() == 0 && final(self).spec_state() == 0,
            old(self).spec_state() != 0 && line@ != quit_line() ==> steps@ == seq![Step::Handler, Step::Forward, Step::Redraw]
                && final(self).spec_state() == old(self).spec_state(),
    {
        let mut steps: Vec<Step> = Vec::new();
        if self.state == 0 {
            return steps;
        }
        let cs = chars_of(line);
        let is_quit = cs.len() == 5 && cs[0] == 'q' && cs[1] == 'u' && cs[2] == 'i' && cs[3] == 't' && cs[4] == '\n';
        proof {
            if is_quit {
                assert(cs@ =~= quit_line());
            }
            if cs@ == quit_line() {
                assert(cs@.len() == 5);
            }
        }
        if is_quit {
            self.state = 0;
            return steps;
        }
        steps.push(Step::Handler);
        steps.push(Step::Forward);
        steps.push(Step::Redraw);
        assert(steps@ =~= seq![Step::Handler, Step::Forward, Step::Redraw]);
        steps
    }

    /// Callback keys of the buttons, over the whole tree in pre-order, whose trigger
    /// command equals `line`.
    pub fn command_controller(&self, line: &String) -> (ids: Vec<u64>)
        ensures
            ids@ == fired_all(self.children(), line@),
    {
        let mut out: Vec<u64> = Vec::new();
        let mut i: usize = 0;
        assert(out@ =~= fired_all(self.elements@.subrange(0, 0), line@));
        while i < self.elements.len()
            invariant
                i <= self.elements@.len(),
                out@ == fired_all(self.elements@.subrange(0, i as int), line@),
            decreases self.elements@.len() - i,
        {
            self.elements[i].command_controller(line, &mut out);
            assert(self.elements@.subrange(0, i + 1).drop_last() =~= self.elements@.subrange(0, i as int));
            i = i + 1;
        }
        assert(self.elements@.subrange(0, self.elements@.len() as int) =~= self.elements@);
        out
    }

    /// Clears the window, renders every top-level element into it over the whole
    /// window, and returns the frame's text.
    pub fn redraw(&mut self) -> (text: Vec<char>)
        requires
            old(self).wf(),
        ensures
            final(self).wf(),
            final(self).children() == old(self).children(),
            final(self).spec_state() == old(self).spec_state(),
            final(self).spec_window().spec_width() == old(self).spec_window().spec_width(),
            final(self).spec_window().spec_height() == old(self).spec_window().spec_height(),
            final(self).spec_window().cells() == render_all(
                blank(old(self).spec_window().spec_width(), old(self).spec_window().spec_height()),
                old(self).children(),
                0,
                0,
                Clip { min_r: 0, max_r: old(self).spec_window().spec_height(), min_c: 0, max_c: old(self).spec_window().spec_width() },
            ),
            text@ == frame_text(final(self).spec_window().cells()),
    {
        self.window.clear();
        proof {
            self.window.lemma_dims();
        }
        let w: i64 = self.window.width() as i64;
        let h: i64 = self.window.height() as i64;
        let ghost g0 = self.window.cells();
        let mut i: usize = 0;
        assert(self.elements@.subrange(0, 0) =~= Seq::<Element>::empty());
        while i < self.elements.len()
            invariant
                i <= self.elements@.len(),
                self.elements@ == old(self).elements@,
                self.state == old(self).spec_state(),
                self.window.wf(),
                self.window.spec_width() == old(self).window.spec_width(),
                self.window.spec_height() == old(self).window.spec_height(),
                self.window.spec_width() <= u16::MAX,
                self.window.spec_height() <= u16::MAX,
                w == self.window.spec_width(),
                h == self.window.spec_height(),
                0 <= w <= u16::MAX,
                0 <= h <= u16::MAX,
                self.window.cells() == render_all(g0, self.elements@.subrange(0, i as int), 0, 0, clip_of(0, h, 0, w)),
            decreases self.elements@.len() - i,
        {
            self.elements[i].show(&mut self.window, 0, h, 0, w);
            assert(self.elements@.subrange(0, i + 1).drop_last() =~= self.elements@.subrange(0, i as int));
            i = i + 1;
        }
        assert(self.elements@.subrange(0, self.elements@.len() as int) =~= self.elements@);
        Self::get_text_to_print(&self.window)
    }

    /// The frame's text: each row of the window and a newline, then the prompt.
    pub fn get_text_to_print(wnd: &Window) -> (text: Vec<char>)
        requires
            wnd.wf(),
        ensures
            text@ == frame_text(wnd.cells()),
    {
        proof {
            wnd.lemma_dims();
        }
        let mut text: Vec<char> = Vec::new();
        let mut i: usize = 0;
        while i < wnd.height()
            invariant
                i <= wnd.spec_height(),
                wnd.wf(),
                wnd.cells().len() == wnd.spec_height(),
                text@ == rows_text(wnd.cells().subrange(0, i as int)),
            decreases wnd.spec_height() - i,
        {
            let row = wnd.row(i);
            let ghost before = text@;
            let mut j: usize = 0;
            while j < row.len()
                invariant
                    j <= row@.len(),
                    text@ == before + row@.subrange(0, j as int),
                decreases row@.len() - j,
            {
                text.push(row[j]);
                j = j + 1;
                assert(text@ =~= before + row@.subrange(0, j as int));
            }
            text.push('\n');
            assert(row@.subrange(0, row@.len() as int) =~= row@);
            assert(wnd.cells().subrange(0, i + 1).drop_last() =~= wnd.cells().subrange(0, i as int));
            i = i + 1;
        }
        assert(wnd.cells().subrange(0, wnd.spec_height()) =~= wnd.cells());
        let ghost body = text@;
        text.push('>');
        text.push(' ');
        text.push('$');
        text.push(' ');
        assert(text@ =~= body + prompt());
        text
    }
}

impl Container for App {
    closed spec fn children(&self) -> Seq<Element> {
        self.elements@
    }

    open spec fn inv(&self) -> bool {
        self.wf()
    }

    open spec fn same_except_children(&self, other: &Self) -> bool {
        &&& self.spec_window() == other.spec_window()
        &&& self.spec_state() == other.spec_state()
    }

    fn push_element(&mut self, elem: Element) {
        self.elements.push(elem);
    }

    fn pop_element(&mut self) -> (r: Option<Element>) {
        vec_pop(&mut self.elements)
    }

    fn remove_element(&mut self, index: usize) -> (r: Option<Element>) {
        vec_remove(&mut self.elements, index)
    }

    fn remove_element_by_id(&mut self, id: &str) -> (r: Option<Element>) {
        vec_remove_by_id(&mut self.elements, id)
    }

    fn insert_element(&mut self, elem: Element, index: usize) {
        self.elements.insert(index, elem);
    }

    fn get_element_by_id(&mut self, id: &str) -> (r: Option<&mut Element>) {
        vec_get_by_id(&mut self.elements, id)
    }
}

} // verus!
