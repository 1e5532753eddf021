//! The differential ANSI style state machine: five independent attributes
//! (bold, italic, strikethrough, underline, foreground color) and the two
//! transition operations — a full reset-and-apply for segment boundaries and
//! a minimal diff for nested inline transitions.

use vstd::prelude::*;

use crate::textutil::{dec_str, push_dec};

verus! {

/// Terminal foreground colors used by the renderer, with their bright-palette
/// select-graphic-rendition codes.
#[derive(Debug, Clone, Copy, PartialEq, Eq, Structural)]
pub enum Color {
    Red,
    Green,
    Yellow,
    Blue,
    Magenta,
    Cyan,
    White,
    DarkGrey,
}

/// The select-graphic-rendition code that sets a foreground color.
pub open spec fn color_code(c: Color) -> int {
    match c {
        Color::Red => 91,
        Color::Green => 92,
        Color::Yellow => 93,
        Color::Blue => 94,
        Color::Magenta => 95,
        Color::Cyan => 96,
        Color::White => 97,
        Color::DarkGrey => 90,
    }
}

/// One escape sequence: escape, bracket, the code in decimal, and `m`.
/// Opaque: proofs about rendered output treat one escape sequence as an
/// atomic run of characters.
#[verifier::opaque]
pub open spec fn esc(code: int) -> Seq<char> {
    seq!['\u{1b}', '['] + dec_str(code) + seq!['m']
}

/// The current text style: five independent fields.
#[derive(Debug, Clone, Copy)]
pub struct StyleState {
    pub bold: bool,
    pub italic: bool,
    pub strikethrough: bool,
    pub underline: bool,
    pub color: Option<Color>,
}

/// The everything-off style.
pub open spec fn plain_style() -> StyleState {
    StyleState { bold: false, italic: false, strikethrough: false, underline: false, color: Option::None }
}

impl Default for StyleState {
    /// The default style has every attribute off and no color.
    fn default() -> (r: StyleState)
        ensures
            r == plain_style(),
    {
        StyleState {
            bold: false,
            italic: false,
            strikethrough: false,
            underline: false,
            color: Option::None,
        }
    }
}

/// What `apply_fresh` emits: an unconditional reset of all five attributes,
/// then only the enable commands for the attributes set in the target.
pub open spec fn fresh_seq(target: StyleState) -> Seq<char> {
    esc(22) + esc(23) + esc(29) + esc(24) + esc(39) + (if target.bold {
        esc(1)
    } else {
        Seq::empty()
    }) + (if target.italic {
        esc(3)
    } else {
        Seq::empty()
    }) + (if target.strikethrough {
        esc(9)
    } else {
        Seq::empty()
    }) + (if target.underline {
        esc(4)
    } else {
        Seq::empty()
    }) + (match target.color {
        Option::Some(c) => esc(color_code(c)),
        Option::None => Seq::empty(),
    })
}

/// The minimal command for one boolean attribute: nothing when the field
/// matches, else the enable or disable command.
pub open spec fn diff_flag(target: bool, from: bool, on_code: int, off_code: int) -> Seq<char> {
    if target == from {
        Seq::empty()
    } else if target {
        esc(on_code)
    } else {
        esc(off_code)
    }
}

/// The minimal command for the color field: nothing when it matches, else a
/// set-color or a reset-to-default-color command.
pub open spec fn diff_color(target: Option<Color>, from: Option<Color>) -> Seq<char> {
    if target == from {
        Seq::empty()
    } else {
        match target {
            Option::Some(c) => esc(color_code(c)),
            Option::None => esc(39),
        }
    }
}

/// What `apply_diff` emits: for each of the five fields, the minimal
/// enable/disable (or set/reset-color) command, only where the target
/// differs from the starting style.
pub open spec fn diff_seq(target: StyleState, from: StyleState) -> Seq<char> {
    diff_flag(target.bold, from.bold, 1, 22) + diff_flag(target.italic, from.italic, 3, 23)
        + diff_flag(target.strikethrough, from.strikethrough, 9, 29) + diff_flag(
        target.underline,
        from.underline,
        4,
        24,
    ) + diff_color(target.color, from.color)
}

/// Appends one escape sequence.
pub fn push_esc(code: u64, out: &mut Vec<char>)
    ensures
        final(out)@ == old(out)@ + esc(code as int),
{
    out.push('\u{1b}');
    out.push('[');
    push_dec(code, out);
    out.push('m');
    proof {
        reveal(esc);
        assert(out@ =~= old(out)@ + esc(code as int));
    }
}

pub fn color_sgr(c: Color) -> (r: u64)
    ensures
        r as int == color_code(c),
{
    match c {
        Color::Red => 91,
        Color::Green => 92,
        Color::Yellow => 93,
        Color::Blue => 94,
        Color::Magenta => 95,
        Color::Cyan => 96,
        Color::White => 97,
        Color::DarkGrey => 90,
    }
}

pub fn same_color(a: Option<Color>, b: Option<Color>) -> (r: bool)
    ensures
        r == (a == b),
{
    match (a, b) {
        (Option::Some(x), Option::Some(y)) => x == y,
        (Option::None, Option::None) => true,
        _ => false,
    }
}

impl StyleState {
    /// Applies this style from a clean slate: all attributes are explicitly
    /// cleared first, so nothing leaks from prior output, then the desired
    /// attributes are enabled. Used at segment boundaries.
    pub fn apply_fresh(&self, out: &mut Vec<char>)
        ensures
            final(out)@ == old(out)@ + fresh_seq(*self),
    {
        let ghost base = out@;
        let ghost p6 = if self.bold { esc(1) } else { Seq::<char>::empty() };
        let ghost p7 = if self.italic { esc(3) } else { Seq::<char>::empty() };
        let ghost p8 = if self.strikethrough { esc(9) } else { Seq::<char>::empty() };
        let ghost p9 = if self.underline { esc(4) } else { Seq::<char>::empty() };
        let ghost p10 = match self.color {
            Option::Some(c) => esc(color_code(c)),
            Option::None => Seq::<char>::empty(),
        };
        push_esc(22, out);
        push_esc(23, out);
        push_esc(29, out);
        push_esc(24, out);
        push_esc(39, out);
        let ghost r5 = ((((base + esc(22)) + esc(23)) + esc(29)) + esc(24)) + esc(39);
        if self.bold {
            push_esc(1, out);
        }
        proof {
            assert(out@ =~= r5 + p6);
        }
        if self.italic {
            push_esc(3, out);
        }
        proof {
            assert(out@ =~= (r5 + p6) + p7);
        }
        if self.strikethrough {
            push_esc(9, out);
        }
        proof {
            assert(out@ =~= ((r5 + p6) + p7) + p8);
        }
        if self.underline {
            push_esc(4, out);
        }
        proof {
            assert(out@ =~= (((r5 + p6) + p7) + p8) + p9);
        }
        match self.color {
            Option::Some(c) => {
                let code = color_sgr(c);
                push_esc(code, out);
            },
            Option::None => (),
        }
        proof {
            assert(out@ =~= ((((r5 + p6) + p7) + p8) + p9) + p10);
            vstd::seq_lib::lemma_concat_associative(base, esc(22), esc(23));
            vstd::seq_lib::lemma_concat_associative(base, esc(22) + esc(23), esc(29));
            vstd::seq_lib::lemma_concat_associative(base, (esc(22) + esc(23)) + esc(29), esc(24));
            vstd::seq_lib::lemma_concat_associative(
                base,
                ((esc(22) + esc(23)) + esc(29)) + esc(24),
                esc(39),
            );
            let h5 = (((esc(22) + esc(23)) + esc(29)) + esc(24)) + esc(39);
            vstd::seq_lib::lemma_concat_associative(base, h5, p6);
            vstd::seq_lib::lemma_concat_associative(base, h5 + p6, p7);
            vstd::seq_lib::lemma_concat_associative(base, (h5 + p6) + p7, p8);
            vstd::seq_lib::lemma_concat_associative(base, ((h5 + p6) + p7) + p8, p9);
            vstd::seq_lib::lemma_concat_associative(base, (((h5 + p6) + p7) + p8) + p9, p10);
            assert(out@ == old(out)@ + fresh_seq(*self));
        }
    }

    /// Applies only the differences from another style: fields that match
    /// emit nothing. Used for nested inline transitions, so closing a child
    /// style restores the parent's style instead of clearing it.
    pub fn apply_diff(&self, from: &StyleState, out: &mut Vec<char>)
        ensures
            final(out)@ == old(out)@ + diff_seq(*self, *from),
    {
        let ghost base = out@;
        let ghost d1 = diff_flag(self.bold, from.bold, 1, 22);
        let ghost d2 = diff_flag(self.italic, from.italic, 3, 23);
        let ghost d3 = diff_flag(self.strikethrough, from.strikethrough, 9, 29);
        let ghost d4 = diff_flag(self.underline, from.underline, 4, 24);
        let ghost d5 = diff_color(self.color, from.color);
        if self.bold != from.bold {
            if self.bold {
                push_esc(1, out);
            } else {
                push_esc(22, out);
            }
        }
        proof {
            assert(out@ =~= base + d1);
        }
        if self.italic != from.italic {
            if self.italic {
                push_esc(3, out);
            } else {
                push_esc(23, out);
            }
        }
        proof {
            assert(out@ =~= (base + d1) + d2);
        }
        if self.strikethrough != from.strikethrough {
            if self.strikethrough {
                push_esc(9, out);
            } else {
                push_esc(29, out);
            }
        }
        proof {
            assert(out@ =~= ((base + d1) + d2) + d3);
        }
        if self.underline != from.underline {
            if self.underline {
                push_esc(4, out);
            } else {
                push_esc(24, out);
            }
        }
        proof {
            assert(out@ =~= (((base + d1) + d2) + d3) + d4);
        }
        if !same_color(self.color, from.color) {
            match self.color {
                Option::Some(c) => {
                    let code = color_sgr(c);
                    push_esc(code, out);
                },
                Option::None => {
                    push_esc(39, out);
                },
            }
        }
        proof {
            assert(out@ =~= ((((base + d1) + d2) + d3) + d4) + d5);
            vstd::seq_lib::lemma_concat_associative(base, d1, d2);
            vstd::seq_lib::lemma_concat_associative(base, d1 + d2, d3);
            vstd::seq_lib::lemma_concat_associative(base, (d1 + d2) + d3, d4);
            vstd::seq_lib::lemma_concat_associative(base, ((d1 + d2) + d3) + d4, d5);
            assert(out@ == old(out)@ + diff_seq(*self, *from));
        }
    }
}

/// Style-diff minimality, first half: transitioning a style to itself emits
/// no escape sequence at all.
pub proof fn lemma_diff_same_style_is_empty(s: StyleState)
    ensures
        diff_seq(s, s) == Seq::<char>::empty(),
{
    assert(diff_seq(s, s) =~= Seq::<char>::empty());
}

/// Style-diff minimality, second half: when only the color differs, the diff
/// is exactly the one color command — no attribute is toggled.
pub proof fn lemma_diff_color_change_only(target: StyleState, from: StyleState)
    requires
        target.bold == from.bold,
        target.italic == from.italic,
        target.strikethrough == from.strikethrough,
        target.underline == from.underline,
    ensures
        diff_seq(target, from) == diff_color(target.color, from.color),
{
    assert(diff_seq(target, from) =~= diff_color(target.color, from.color));
}

} // verus!
