//! Widgets that draw themselves as text: a label, a button, and a window
//! that holds other widgets under its title.

use crate::text::repeated;
use crate::text::repetition;
use crate::text::reversed;
use vstd::prelude::*;
use vstd::utf8::encode_utf8;
use vstd::utf8::is_ascii_chars_encode_utf8;

verus! {

/// How many bytes a text takes.
pub open spec fn byte_len(text: Seq<char>) -> nat {
    encode_utf8(text).len()
}

pub trait Widget {
    /// Natural width of `self`.
    spec fn natural_width(&self) -> nat;

    /// What `self` draws.
    spec fn rendering(&self) -> Seq<char>;

    /// Natural width of `self`.
    fn width(&self) -> (width: usize)
        ensures
            width == self.natural_width(),
    ;

    /// Draw the widget into a buffer.
    fn draw_into(&self, buffer: &mut String)
        ensures
            final(buffer)@ == old(buffer)@ + self.rendering(),
    ;
}

/// What a widget draws, as a text of its own.
pub fn drawing(widget: &dyn Widget) -> (text: String)
    ensures
        text@ == widget.rendering(),
{
    let mut buffer = String::new();
    widget.draw_into(&mut buffer);
    assert(buffer@ == widget.rendering());
    buffer
}

pub struct Label {
    label: String,
}

impl Label {
    /// The text of the label.
    pub closed spec fn text(&self) -> Seq<char> {
        self.label@
    }

    pub fn new(label: &str) -> (made: Label)
        ensures
            made.text() == label@,
    {
        Label { label: label.to_owned() }
    }
}

impl Widget for Label {
    open spec fn natural_width(&self) -> nat {
        byte_len(self.text())
    }

    open spec fn rendering(&self) -> Seq<char> {
        self.text().push('\n')
    }

    fn width(&self) -> (width: usize) {
        self.label.as_str().as_bytes().len()
    }

    fn draw_into(&self, buffer: &mut String) {
        proof {
            reveal_strlit("\n");
        }
        buffer.append(self.label.as_str());
        buffer.append("\n");
        assert(buffer@ == old(buffer)@ + self.rendering());
    }
}

/// The text that frames a button's caption on the left; on the right
/// stands its mirror image.
pub open spec fn button_frame() -> Seq<char> {
    seq!['|', ' ']
}

pub struct Button<F: FnMut()> {
    label: Label,
    callback: F,
    label_wrapper: String,
}

impl<F: FnMut()> Button<F> {
    #[verifier::type_invariant]
    spec fn framed(&self) -> bool {
        &&& self.label_wrapper@ == button_frame()
        &&& byte_len(self.label.text()) + 4 <= usize::MAX
    }

    /// The text on the button.
    pub closed spec fn caption(&self) -> Seq<char> {
        self.label.text()
    }

    /// A button with this caption. The caption must leave room for the
    /// frame: its bytes and four more are counted in a `usize`.
    pub fn new(label: &str, callback: F) -> (made: Button<F>)
        requires
            byte_len(label@) + 4 <= usize::MAX,
        ensures
            made.caption() == label@,
            made.natural_width() == byte_len(label@) + 4,
            made.rendering() == button_frame() + seq![' '] + label@ + seq![' ']
                + button_frame().reverse() + seq!['\n'],
    {
        proof {
            reveal_strlit("| ");
            assert("| "@ == button_frame());
        }
        Button { label: Label::new(label), callback, label_wrapper: "| ".to_owned() }
    }
}

impl<F: FnMut()> Widget for Button<F> {
    open spec fn natural_width(&self) -> nat {
        byte_len(self.caption()) + 4
    }

    open spec fn rendering(&self) -> Seq<char> {
        button_frame() + seq![' '] + self.caption() + seq![' '] + button_frame().reverse()
            + seq!['\n']
    }

    fn width(&self) -> (width: usize) {
        proof {
            use_type_invariant(self);
            is_ascii_chars_encode_utf8(button_frame());
        }
        self.label.width() + self.label_wrapper.as_str().as_bytes().len() * 2
    }

    fn draw_into(&self, buffer: &mut String) {
        proof {
            use_type_invariant(self);
            reveal_strlit(" ");
            reveal_strlit("\n");
        }
        let mirrored = reversed(self.label_wrapper.as_str());
        buffer.append(self.label_wrapper.as_str());
        buffer.append(" ");
        buffer.append(self.label.label.as_str());
        buffer.append(" ");
        buffer.append(mirrored.as_str());
        buffer.append("\n");
        assert(buffer@ == old(buffer)@ + self.rendering());
    }
}

/// The widest of some widgets; zero where there are none.
pub open spec fn widest(widgets: Seq<Box<dyn Widget>>) -> nat
    decreases widgets.len(),
{
    if widgets.len() == 0 {
        0
    } else if widgets.last().natural_width() > widest(widgets.drop_last()) {
        widgets.last().natural_width()
    } else {
        widest(widgets.drop_last())
    }
}

/// What some widgets draw, one after the other, each after an empty line.
pub open spec fn stacked(widgets: Seq<Box<dyn Widget>>) -> Seq<char>
    decreases widgets.len(),
{
    if widgets.len() == 0 {
        Seq::empty()
    } else {
        stacked(widgets.drop_last()) + seq!['\n'] + widgets.last().rendering()
    }
}

/// A line of `width` equals signs.
pub open spec fn rule(width: nat) -> Seq<char> {
    repetition(seq!['='], width)
}

pub struct Window {
    title: String,
    widgets: Vec<Box<dyn Widget>>,
    width: usize,
}

impl Window {
    /// The title of the window.
    pub closed spec fn title(&self) -> Seq<char> {
        self.title@
    }

    /// The widgets of the window, in the order in which they were added.
    pub closed spec fn widgets(&self) -> Seq<Box<dyn Widget>> {
        self.widgets@
    }

    /// The width that the window keeps: that of the title with a margin of
    /// two, or of its widest widget where that is more.
    pub closed spec fn kept_width(&self) -> nat {
        self.width as nat
    }

    /// An empty window. The title must leave room for the margin: its
    /// bytes and two more are counted in a `usize`.
    pub fn new(title: &str) -> (made: Window)
        requires
            byte_len(title@) + 2 <= usize::MAX,
        ensures
            made.title() == title@,
            made.widgets() == Seq::<Box<dyn Widget>>::empty(),
            made.kept_width() == byte_len(title@) + 2,
    {
        Window { title: title.to_owned(), widgets: Vec::new(), width: title.as_bytes().len() + 2 }
    }

    /// Adds a widget below the others; the window grows to its width.
    pub fn add_widget(&mut self, widget: Box<dyn Widget>)
        ensures
            final(self).title() == old(self).title(),
            final(self).widgets() == old(self).widgets().push(widget),
            final(self).kept_width() == if old(self).kept_width() < widget.natural_width() {
                widget.natural_width()
            } else {
                old(self).kept_width()
            },
    {
        let width = widget.width();
        if self.width < width {
            self.width = width;
        }
        self.widgets.push(widget);
    }

    /// The width of what the window holds: that of its widest widget, or
    /// the number of characters of its title where that is more.
    pub fn inner_width(&self) -> (width: usize)
        ensures
            width == if self.title().len() > widest(self.widgets()) {
                self.title().len()
            } else {
                widest(self.widgets())
            },
    {
        let mut width: usize = self.title.as_str().unicode_len();
        let ghost title_len = width;
        let mut i: usize = 0;
        while i < self.widgets.len()
            invariant
                i <= self.widgets.len(),
                title_len == self.title@.len(),
                width == if title_len > widest(self.widgets@.take(i as int)) {
                    title_len as nat
                } else {
                    widest(self.widgets@.take(i as int))
                },
            decreases self.widgets.len() - i,
        {
            proof {
                assert(self.widgets@.take(i as int + 1).drop_last() == self.widgets@.take(
                    i as int,
                ));
            }
            let next = self.widgets[i].width();
            if next > width {
                width = next;
            }
            i = i + 1;
        }
        assert(self.widgets@.take(i as int) == self.widgets@);
        width
    }
}

impl Widget for Window {
    open spec fn natural_width(&self) -> nat {
        self.kept_width()
    }

    open spec fn rendering(&self) -> Seq<char> {
        rule(self.kept_width()) + seq!['\n'] + self.title() + seq!['\n'] + rule(
            self.kept_width(),
        ) + seq!['\n'] + stacked(self.widgets()) + seq!['\n']
    }

    fn width(&self) -> (width: usize) {
        self.width
    }

    fn draw_into(&self, buffer: &mut String) {
        proof {
            reveal_strlit("\n");
        }
        let mut inner = String::new();
        let mut i: usize = 0;
        while i < self.widgets.len()
            invariant
                i <= self.widgets.len(),
                inner@ == stacked(self.widgets@.take(i as int)),
                "\n"@ == seq!['\n'],
            decreases self.widgets.len() - i,
        {
            proof {
                assert(self.widgets@.take(i as int + 1).drop_last() == self.widgets@.take(
                    i as int,
                ));
            }
            inner.append("\n");
            self.widgets[i].draw_into(&mut inner);
            i = i + 1;
        }
        assert(self.widgets@.take(i as int) == self.widgets@);
        proof {
            reveal_strlit("=");
            assert("="@ == seq!['=']);
        }
        let line = repeated("=", self.width);
        assert(line@ == rule(self.kept_width()));
        let ghost start = buffer@;
        let ghost newline = seq!['\n'];
        let ghost bar = rule(self.kept_width());
        buffer.append(line.as_str());
        buffer.append("\n");
        buffer.append(self.title.as_str());
        buffer.append("\n");
        assert(buffer@ == start + (bar + newline + self.title() + newline));
        buffer.append(line.as_str());
        buffer.append("\n");
        assert(buffer@ == start + (bar + newline + self.title() + newline + bar + newline));
        buffer.append(inner.as_str());
        buffer.append("\n");
        assert(buffer@ == start + self.rendering());
    }
}

} // verus!
