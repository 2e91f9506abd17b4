//! Terminal geometry and ANSI-aware width measurement.

use vstd::prelude::*;

verus! {

/// Visible terminal size in character cells.
#[derive(Debug, Clone, Copy, PartialEq, Eq)]
pub struct TerminalDimensions {
    pub width: usize,
    pub height: usize,
}

/// Output capabilities of the terminal the program writes to.
#[derive(Debug, Clone, Copy, PartialEq, Eq)]
pub struct Terminal {
    /// Stdout is an interactive terminal.
    pub is_tty: bool,
    /// ANSI colors may be written.
    pub colors_enabled: bool,
}

impl Terminal {
    /// A terminal with the given capabilities.
    pub fn with_colors(is_tty: bool, colors_enabled: bool) -> (t: Self)
        ensures
            t.is_tty == is_tty,
            t.colors_enabled == colors_enabled,
    {
        Terminal { is_tty, colors_enabled }
    }

    /// Whether ANSI colors may be written.
    pub fn colors_enabled(&self) -> (b: bool)
        ensures
            b == self.colors_enabled,
    {
        self.colors_enabled
    }
}

/// A reported terminal size is usable when both dimensions are non-zero.
pub fn validate_dimensions(width: usize, height: usize) -> (r: Option<TerminalDimensions>)
    ensures
        r == (if width > 0 && height > 0 {
            Some(TerminalDimensions { width, height })
        } else {
            None
        }),
{
    if width > 0 && height > 0 {
        Some(TerminalDimensions { width, height })
    } else {
        None
    }
}

/// A CSI final byte (`@` through `~`).
pub open spec fn is_csi_final(c: char) -> bool {
    '\u{40}' <= c <= '\u{7e}'
}

/// `s` after the parameters and final byte of a CSI sequence whose
/// introducer has already been consumed (everything, if unterminated).
pub open spec fn skip_csi(s: Seq<char>) -> Seq<char>
    decreases s.len(),
{
    if s.len() == 0 {
        s
    } else if is_csi_final(s[0]) {
        s.skip(1)
    } else {
        skip_csi(s.skip(1))
    }
}

/// Number of terminal columns `s` occupies: every character counts one
/// column, except CSI escape sequences (`ESC [ ... final`), which count
/// none.
pub open spec fn visible_width_spec(s: Seq<char>) -> nat
    decreases s.len(),
{
    if s.len() == 0 {
        0
    } else if s[0] == '\u{1b}' && s.len() > 1 && s[1] == '[' {
        visible_width_from_csi(s.skip(2))
    } else {
        1 + visible_width_spec(s.skip(1))
    }
}

pub open spec fn visible_width_from_csi(s: Seq<char>) -> nat
    decreases s.len(), 0nat,
{
    if s.len() == 0 {
        0
    } else if is_csi_final(s[0]) {
        visible_width_spec(s.skip(1))
    } else {
        visible_width_from_csi(s.skip(1))
    }
}

/// A plain text without escape characters is as wide as it is long.
pub proof fn lemma_plain_width(s: Seq<char>)
    requires
        forall|i: int| 0 <= i < s.len() ==> s[i] != '\u{1b}',
    ensures
        visible_width_spec(s) == s.len(),
    decreases s.len(),
{
    if s.len() > 0 {
        lemma_plain_width(s.skip(1));
    }
}

/// The visible width of `s` is at most its length.
pub proof fn lemma_width_le_len(s: Seq<char>)
    ensures
        visible_width_spec(s) <= s.len(),
    decreases s.len(), 1nat,
{
    if s.len() == 0 {
    } else if s[0] == '\u{1b}' && s.len() > 1 && s[1] == '[' {
        lemma_width_from_csi_le_len(s.skip(2));
    } else {
        lemma_width_le_len(s.skip(1));
    }
}

proof fn lemma_width_from_csi_le_len(s: Seq<char>)
    ensures
        visible_width_from_csi(s) <= s.len(),
    decreases s.len(), 0nat,
{
    if s.len() == 0 {
    } else if is_csi_final(s[0]) {
        lemma_width_le_len(s.skip(1));
    } else {
        lemma_width_from_csi_le_len(s.skip(1));
    }
}

/// Reading `s` from the start ends outside any escape sequence, with no
/// escape character pending.
pub open spec fn ends_ground(s: Seq<char>) -> bool
    decreases s.len(),
{
    if s.len() == 0 {
        true
    } else if s[0] == '\u{1b}' && s.len() > 1 && s[1] == '[' {
        ends_ground_from_csi(s.skip(2))
    } else if s[0] == '\u{1b}' && s.len() == 1 {
        false
    } else {
        ends_ground(s.skip(1))
    }
}

pub open spec fn ends_ground_from_csi(s: Seq<char>) -> bool
    decreases s.len(), 0nat,
{
    if s.len() == 0 {
        false
    } else if is_csi_final(s[0]) {
        ends_ground(s.skip(1))
    } else {
        ends_ground_from_csi(s.skip(1))
    }
}

/// A complete CSI sequence: `ESC [`, parameter characters, one final
/// character.
pub open spec fn is_csi_sequence(s: Seq<char>) -> bool {
    &&& s.len() >= 3
    &&& s[0] == '\u{1b}'
    &&& s[1] == '['
    &&& is_csi_final(s[s.len() - 1])
    &&& forall|i: int| 2 <= i < s.len() - 1 ==> !is_csi_final(#[trigger] s[i])
}

/// Text read to its end outside escape sequences adds its width to what
/// follows, and what follows decides where reading ends.
pub proof fn lemma_width_concat(x: Seq<char>, y: Seq<char>)
    requires
        ends_ground(x),
    ensures
        visible_width_spec(x + y) == visible_width_spec(x) + visible_width_spec(y),
        ends_ground(x + y) == ends_ground(y),
    decreases x.len(), 1nat,
{
    if x.len() == 0 {
        assert(x + y =~= y);
    } else if x[0] == '\u{1b}' && x.len() > 1 && x[1] == '[' {
        assert((x + y).skip(2) =~= x.skip(2) + y);
        lemma_width_concat_from_csi(x.skip(2), y);
    } else {
        assert((x + y).skip(1) =~= x.skip(1) + y);
        lemma_width_concat(x.skip(1), y);
    }
}

proof fn lemma_width_concat_from_csi(x: Seq<char>, y: Seq<char>)
    requires
        ends_ground_from_csi(x),
    ensures
        visible_width_from_csi(x + y) == visible_width_from_csi(x) + visible_width_spec(y),
        ends_ground_from_csi(x + y) == ends_ground(y),
    decreases x.len(), 0nat,
{
    assert((x + y).skip(1) =~= x.skip(1) + y);
    if is_csi_final(x[0]) {
        lemma_width_concat(x.skip(1), y);
    } else {
        lemma_width_concat_from_csi(x.skip(1), y);
    }
}

proof fn lemma_csi_tail(t: Seq<char>)
    requires
        t.len() >= 1,
        is_csi_final(t[t.len() - 1]),
        forall|i: int| 0 <= i < t.len() - 1 ==> !is_csi_final(#[trigger] t[i]),
    ensures
        visible_width_from_csi(t) == 0,
        ends_ground_from_csi(t),
    decreases t.len(),
{
    if !is_csi_final(t[0]) {
        let rest = t.skip(1);
        assert(rest[rest.len() - 1] == t[t.len() - 1]);
        assert forall|i: int| 0 <= i < rest.len() - 1 implies !is_csi_final(#[trigger] rest[i]) by {
            assert(rest[i] == t[i + 1]);
        }
        lemma_csi_tail(rest);
    } else {
        if t.len() > 1 {
            assert(!is_csi_final(t[0]));
        }
        assert(t.skip(1) =~= Seq::<char>::empty());
        assert(visible_width_spec(t.skip(1)) == 0);
        assert(ends_ground(t.skip(1)));
    }
}

/// A complete CSI sequence is invisible and ends outside escape sequences.
pub proof fn lemma_csi_sequence(s: Seq<char>)
    requires
        is_csi_sequence(s),
    ensures
        visible_width_spec(s) == 0,
        ends_ground(s),
{
    let t = s.skip(2);
    assert forall|i: int| 0 <= i < t.len() - 1 implies !is_csi_final(#[trigger] t[i]) by {
        assert(t[i] == s[i + 2]);
    }
    lemma_csi_tail(t);
}

/// One character other than ESC is one column wide and ends outside escape
/// sequences.
pub proof fn lemma_single_char(c: char)
    requires
        c != '\u{1b}',
    ensures
        visible_width_spec(seq![c]) == 1,
        ends_ground(seq![c]),
{
    assert(seq![c].skip(1) =~= Seq::<char>::empty());
    assert(visible_width_spec(Seq::<char>::empty()) == 0);
    assert(ends_ground(Seq::<char>::empty()));
}

/// The characters of `s` that the terminal shows: everything but CSI
/// escape sequences.
pub open spec fn visible_text(s: Seq<char>) -> Seq<char>
    decreases s.len(),
{
    if s.len() == 0 {
        s
    } else if s[0] == '\u{1b}' && s.len() > 1 && s[1] == '[' {
        visible_text_from_csi(s.skip(2))
    } else {
        seq![s[0]] + visible_text(s.skip(1))
    }
}

pub open spec fn visible_text_from_csi(s: Seq<char>) -> Seq<char>
    decreases s.len(), 0nat,
{
    if s.len() == 0 {
        s
    } else if is_csi_final(s[0]) {
        visible_text(s.skip(1))
    } else {
        visible_text_from_csi(s.skip(1))
    }
}

/// What text read to its end outside escape sequences shows is followed by
/// what the rest shows.
pub proof fn lemma_visible_text_concat(x: Seq<char>, y: Seq<char>)
    requires
        ends_ground(x),
    ensures
        visible_text(x + y) == visible_text(x) + visible_text(y),
    decreases x.len(), 1nat,
{
    if x.len() == 0 {
        assert(x + y =~= y);
        assert(visible_text(x) + visible_text(y) =~= visible_text(y));
    } else if x[0] == '\u{1b}' && x.len() > 1 && x[1] == '[' {
        assert((x + y).skip(2) =~= x.skip(2) + y);
        lemma_visible_text_concat_from_csi(x.skip(2), y);
    } else {
        assert((x + y).skip(1) =~= x.skip(1) + y);
        lemma_visible_text_concat(x.skip(1), y);
        assert(seq![x[0]] + (visible_text(x.skip(1)) + visible_text(y)) =~= seq![x[0]] + visible_text(
            x.skip(1),
        ) + visible_text(y));
    }
}

proof fn lemma_visible_text_concat_from_csi(x: Seq<char>, y: Seq<char>)
    requires
        ends_ground_from_csi(x),
    ensures
        visible_text_from_csi(x + y) == visible_text_from_csi(x) + visible_text(y),
    decreases x.len(), 0nat,
{
    assert((x + y).skip(1) =~= x.skip(1) + y);
    if is_csi_final(x[0]) {
        lemma_visible_text_concat(x.skip(1), y);
    } else {
        lemma_visible_text_concat_from_csi(x.skip(1), y);
    }
}

proof fn lemma_csi_tail_text(t: Seq<char>)
    requires
        t.len() >= 1,
        is_csi_final(t[t.len() - 1]),
        forall|i: int| 0 <= i < t.len() - 1 ==> !is_csi_final(#[trigger] t[i]),
    ensures
        visible_text_from_csi(t) == Seq::<char>::empty(),
    decreases t.len(),
{
    if !is_csi_final(t[0]) {
        let rest = t.skip(1);
        assert(rest[rest.len() - 1] == t[t.len() - 1]);
        assert forall|i: int| 0 <= i < rest.len() - 1 implies !is_csi_final(#[trigger] rest[i]) by {
            assert(rest[i] == t[i + 1]);
        }
        lemma_csi_tail_text(rest);
    } else {
        if t.len() > 1 {
            assert(!is_csi_final(t[0]));
        }
        assert(t.skip(1) =~= Seq::<char>::empty());
        assert(visible_text(t.skip(1)) == Seq::<char>::empty());
    }
}

/// A complete CSI sequence shows nothing.
pub proof fn lemma_csi_sequence_text(s: Seq<char>)
    requires
        is_csi_sequence(s),
    ensures
        visible_text(s) == Seq::<char>::empty(),
{
    let t = s.skip(2);
    assert forall|i: int| 0 <= i < t.len() - 1 implies !is_csi_final(#[trigger] t[i]) by {
        assert(t[i] == s[i + 2]);
    }
    lemma_csi_tail_text(t);
}

/// A character other than ESC shows itself.
pub proof fn lemma_single_char_text(c: char)
    requires
        c != '\u{1b}',
    ensures
        visible_text(seq![c]) == seq![c],
{
    assert(seq![c].skip(1) =~= Seq::<char>::empty());
    assert(visible_text(Seq::<char>::empty()) == Seq::<char>::empty());
    assert(seq![c] + Seq::<char>::empty() =~= seq![c]);
}

/// A text without escape characters is read to its end outside escape
/// sequences.
pub proof fn lemma_plain_ground(s: Seq<char>)
    requires
        forall|i: int| 0 <= i < s.len() ==> s[i] != '\u{1b}',
    ensures
        ends_ground(s),
    decreases s.len(),
{
    if s.len() > 0 {
        assert(s[0] != '\u{1b}');
        lemma_plain_ground(s.skip(1));
    }
}

/// ANSI-aware visible width of a line.
pub fn visible_width(s: &str) -> (w: usize)
    ensures
        w == visible_width_spec(s@),
{
    let v = crate::text::chars_of(s);
    visible_width_chars(&v)
}

/// ANSI-aware visible width of a character sequence.
pub fn visible_width_chars(v: &[char]) -> (w: usize)
    ensures
        w == visible_width_spec(v@),
{
    let mut i: usize = 0;
    let mut w: usize = 0;
    let mut in_csi = false;
    let n = v.len();
    proof {
        lemma_width_le_len(v@);
        assert(v@.skip(0) =~= v@);
    }
    while i < n
        invariant
            n == v@.len(),
            i <= n,
            w <= i,
            in_csi ==> w + visible_width_from_csi(v@.skip(i as int)) == visible_width_spec(v@),
            !in_csi ==> w + visible_width_spec(v@.skip(i as int)) == visible_width_spec(v@),
        decreases n - i,
    {
        let c = v[i];
        let ghost rest = v@.skip(i as int);
        assert(rest.skip(1) =~= v@.skip(i + 1));
        if in_csi {
            if '\u{40}' <= c && c <= '\u{7e}' {
                in_csi = false;
            }
            i = i + 1;
        } else if c == '\u{1b}' && i + 1 < n && v[i + 1] == '[' {
            assert(rest.skip(2) =~= v@.skip(i + 2));
            in_csi = true;
            i = i + 2;
        } else {
            w = w + 1;
            i = i + 1;
        }
    }
    proof {
        assert(v@.skip(n as int) =~= Seq::<char>::empty());
    }
    w
}

} // verus!
