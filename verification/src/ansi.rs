//! Line builders that emit ANSI-styled text with as few escape sequences
//! as possible.
//!
//! Both builders track the active style and use a conservative transition
//! strategy: a style change always emits RESET first, a plain character
//! after styled ones emits RESET, and a finished line ends with exactly one
//! RESET if and only if a style is still active.

use vstd::prelude::*;
use crate::color::RESET;
use crate::text::{chars_of, chars_eq, push_chars, push_char, push_str};

verus! {

/// Equality of two string slices, character by character.
pub fn str_eq(a: &str, b: &str) -> (r: bool)
    ensures
        r == (a@ == b@),
{
    let va = chars_of(a);
    let vb = chars_of(b);
    chars_eq(&va, &vb)
}

/// Equality of two optional styles.
pub fn style_eq(a: Option<&'static str>, b: Option<&'static str>) -> (r: bool)
    ensures
        r == (style_view(a) == style_view(b)),
{
    match (a, b) {
        (None, None) => true,
        (Some(x), Some(y)) => str_eq(x, y),
        _ => false,
    }
}

/// The characters of an optional style.
pub open spec fn style_view(s: Option<&'static str>) -> Option<Seq<char>> {
    match s {
        Some(x) => Some(x@),
        None => None,
    }
}

/// The characters of an optional style, or nothing.
pub open spec fn style_text(s: Option<Seq<char>>) -> Seq<char> {
    match s {
        Some(x) => x,
        None => Seq::empty(),
    }
}

/// An empty `String` with room for `capacity` bytes
/// (`String::with_capacity`).
#[verifier::external_body]
fn string_with_capacity(capacity: usize) -> (s: String)
    ensures
        s@ == Seq::<char>::empty(),
{
    String::with_capacity(capacity)
}


/// Builder for lines of foreground-styled characters.
pub struct AnsiForegroundLine {
    output: String,
    current_style: Option<&'static str>,
}

impl AnsiForegroundLine {
    /// The text emitted so far.
    pub closed spec fn output(&self) -> Seq<char> {
        self.output@
    }

    /// The active style, if any.
    pub closed spec fn style(&self) -> Option<Seq<char>> {
        style_view(self.current_style)
    }

    /// Creates a new line builder with the given capacity.
    pub fn with_capacity(capacity: usize) -> (line: Self)
        ensures
            line.output() == Seq::<char>::empty(),
            line.style() is None,
    {
        Self { output: string_with_capacity(capacity), current_style: None }
    }

    /// Pushes a character drawn in `style`: the style is emitted when no
    /// style is active, RESET and the style when another style is active,
    /// and nothing but the character when the same style is active.
    pub fn push_styled(&mut self, ch: char, style: &'static str)
        ensures
            final(self).style() == Some(style@),
            final(self).output() == match old(self).style() {
                None => old(self).output() + style@ + seq![ch],
                Some(current) => if current == style@ {
                    old(self).output() + seq![ch]
                } else {
                    old(self).output() + RESET@ + style@ + seq![ch]
                },
            },
    {
        match self.current_style {
            None => {
                push_str(&mut self.output, style);
                push_char(&mut self.output, ch);
                self.current_style = Some(style);
            },
            Some(current) => {
                if str_eq(current, style) {
                    push_char(&mut self.output, ch);
                } else {
                    push_str(&mut self.output, RESET);
                    push_str(&mut self.output, style);
                    push_char(&mut self.output, ch);
                    self.current_style = Some(style);
                }
            },
        }
    }

    /// Pushes a plain character, emitting RESET first if a style is active.
    pub fn push_plain(&mut self, ch: char)
        ensures
            final(self).style() is None,
            final(self).output() == if old(self).style() is Some {
                old(self).output() + RESET@ + seq![ch]
            } else {
                old(self).output() + seq![ch]
            },
    {
        if self.current_style.is_some() {
            push_str(&mut self.output, RESET);
            self.current_style = None;
        }
        push_char(&mut self.output, ch);
    }

    /// Finishes the line: one RESET is appended if and only if a style is
    /// active.
    pub fn finish(self) -> (s: String)
        ensures
            s@ == if self.style() is Some {
                self.output() + RESET@
            } else {
                self.output()
            },
    {
        let mut out = self.output;
        if self.current_style.is_some() {
            push_str(&mut out, RESET);
        }
        out
    }
}

/// Builder for lines of half-block cells with independent foreground and
/// background styles.
pub struct AnsiHalfBlockLine {
    output: String,
    current_foreground: Option<&'static str>,
    current_background: Option<&'static str>,
}

impl AnsiHalfBlockLine {
    /// The text emitted so far.
    pub closed spec fn output(&self) -> Seq<char> {
        self.output@
    }

    /// The active foreground, if any.
    pub closed spec fn foreground(&self) -> Option<Seq<char>> {
        style_view(self.current_foreground)
    }

    /// The active background, if any.
    pub closed spec fn background(&self) -> Option<Seq<char>> {
        style_view(self.current_background)
    }

    /// Creates a new line builder with the given capacity.
    pub fn with_capacity(capacity: usize) -> (line: Self)
        ensures
            line.output() == Seq::<char>::empty(),
            line.foreground() is None,
            line.background() is None,
    {
        Self {
            output: string_with_capacity(capacity),
            current_foreground: None,
            current_background: None,
        }
    }

    /// Pushes a cell. An identical complete style emits only the glyph; any
    /// change emits RESET (when a style was active), then the new
    /// foreground and background (when present), then the glyph.
    pub fn push_cell(
        &mut self,
        ch: char,
        foreground: Option<&'static str>,
        background: Option<&'static str>,
    )
        ensures
            final(self).foreground() == style_view(foreground),
            final(self).background() == style_view(background),
            final(self).output() == if old(self).foreground() == style_view(foreground)
                && old(self).background() == style_view(background) {
                old(self).output() + seq![ch]
            } else {
                old(self).output() + (if old(self).foreground() is Some || old(
                    self,
                ).background() is Some {
                    RESET@
                } else {
                    Seq::empty()
                }) + style_text(style_view(foreground)) + style_text(style_view(background))
                    + seq![ch]
            },
    {
        if style_eq(foreground, self.current_foreground) && style_eq(
            background,
            self.current_background,
        ) {
            push_char(&mut self.output, ch);
        } else {
            let ghost o0 = self.output@;
            if self.current_foreground.is_some() || self.current_background.is_some() {
                push_str(&mut self.output, RESET);
            }
            let ghost o1 = self.output@;
            if let Some(fg) = foreground {
                push_str(&mut self.output, fg);
            }
            let ghost o2 = self.output@;
            assert(o2 == o1 + style_text(style_view(foreground)));
            if let Some(bg) = background {
                push_str(&mut self.output, bg);
            }
            assert(self.output@ == o2 + style_text(style_view(background)));
            push_char(&mut self.output, ch);
            self.current_foreground = foreground;
            self.current_background = background;
        }
    }

    /// Finishes the line: one RESET is appended if and only if a style is
    /// active.
    pub fn finish(self) -> (s: String)
        ensures
            s@ == if self.foreground() is Some || self.background() is Some {
                self.output() + RESET@
            } else {
                self.output()
            },
    {
        let mut out = self.output;
        if self.current_foreground.is_some() || self.current_background.is_some() {
            push_str(&mut out, RESET);
        }
        out
    }
}

} // verus!
