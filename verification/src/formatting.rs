//! Human-readable number and duration formatting shared by the status bar
//! and the exit summary.

use vstd::prelude::*;

verus! {

/// The ASCII digit for `d` (`0 <= d < 10`).
pub open spec fn digit(d: int) -> char {
    (d + 48) as char
}

/// The decimal representation of `n`, most significant digit first, with
/// no leading zeros (`"0"` for zero).
pub open spec fn decimal(n: nat) -> Seq<char>
    decreases n,
{
    if n < 10 {
        seq![digit(n as int)]
    } else {
        decimal(n / 10).push(digit((n % 10) as int))
    }
}

fn digit_char(d: u64) -> (c: char)
    requires
        d < 10,
    ensures
        c == digit(d as int),
{
    let b: u8 = d as u8 + 48u8;
    b as char
}

/// Appends the decimal representation of `n` to `out`.
pub fn push_decimal(out: &mut String, n: u64)
    ensures
        final(out)@ == old(out)@ + decimal(n as nat),
    decreases n,
{
    if n >= 10 {
        push_decimal(out, n / 10);
    }
    out.push(digit_char(n % 10));
    proof {
        assert(final(out)@ =~= old(out)@ + decimal(n as nat));
    }
}

/// The decimal representation of `n` (`n.to_string()`).
pub fn decimal_string(n: u64) -> (s: String)
    ensures
        s@ == decimal(n as nat),
{
    let mut s = String::new();
    push_decimal(&mut s, n);
    proof {
        assert(s@ =~= decimal(n as nat));
    }
    s
}

/// Words joined by single spaces.
pub open spec fn join_words(words: Seq<Seq<char>>) -> Seq<char>
    decreases words.len(),
{
    if words.len() == 0 {
        Seq::empty()
    } else if words.len() == 1 {
        words[0]
    } else {
        join_words(words.drop_last()) + seq![' '] + words.last()
    }
}

/// The word for a non-zero component of a duration, e.g. `"15m"`.
pub open spec fn duration_word(value: nat, unit: char) -> Seq<char> {
    decimal(value).push(unit)
}

/// The non-zero components of `secs` as hours, minutes and seconds words.
pub open spec fn duration_words(secs: nat) -> Seq<Seq<char>> {
    let h = secs / 3600;
    let m = (secs % 3600) / 60;
    let s = secs % 60;
    (if h > 0 { seq![duration_word(h, 'h')] } else { seq![] }) + (if m > 0 {
        seq![duration_word(m, 'm')]
    } else {
        seq![]
    }) + (if s > 0 { seq![duration_word(s, 's')] } else { seq![] })
}

/// `"0s"` for zero, otherwise the non-zero hours, minutes and seconds
/// components joined by spaces (`75` is `"1m 15s"`, `3660` is `"1h 1m"`).
pub open spec fn duration_text(secs: nat) -> Seq<char> {
    if secs == 0 {
        seq!['0', 's']
    } else {
        join_words(duration_words(secs))
    }
}

fn push_word(out: &mut String, first: bool, words: Ghost<Seq<Seq<char>>>, value: u64, unit: char) -> (new_words: Ghost<Seq<Seq<char>>>)
    requires
        old(out)@ == join_words(words@),
        first == (words@.len() == 0),
    ensures
        new_words@ == words@.push(duration_word(value as nat, unit)),
        final(out)@ == join_words(new_words@),
{
    let ghost w = duration_word(value as nat, unit);
    if !first {
        out.push(' ');
    }
    push_decimal(out, value);
    out.push(unit);
    proof {
        let nw = words@.push(w);
        assert(nw.drop_last() =~= words@);
        if words@.len() == 0 {
            assert(old(out)@ =~= Seq::<char>::empty());
            assert(final(out)@ =~= w);
        } else {
            assert(final(out)@ =~= join_words(words@) + seq![' '] + w);
        }
    }
    Ghost(words@.push(w))
}

/// Formats a duration in seconds: the non-zero hours, minutes and seconds,
/// joined by spaces, or `"0s"`.
pub fn format_duration(secs: u64) -> (s: String)
    ensures
        s@ == duration_text(secs as nat),
{
    if secs == 0 {
        let mut s = String::new();
        s.push('0');
        s.push('s');
        proof {
            assert(s@ =~= seq!['0', 's']);
        }
        return s;
    }
    let hours = secs / 3600;
    let minutes = (secs % 3600) / 60;
    let seconds = secs % 60;
    let mut out = String::new();
    let mut words: Ghost<Seq<Seq<char>>> = Ghost(Seq::empty());
    proof {
        assert(out@ =~= join_words(words@));
    }
    if hours > 0 {
        words = push_word(&mut out, true, words, hours, 'h');
    }
    if minutes > 0 {
        words = push_word(&mut out, hours == 0, words, minutes, 'm');
    }
    if seconds > 0 {
        words = push_word(&mut out, hours == 0 && minutes == 0, words, seconds, 's');
    }
    proof {
        assert(words@ =~= duration_words(secs as nat));
    }
    out
}

/// How a token count is labelled: exactly, or as a count of a larger unit
/// shown with one decimal place.
#[derive(Debug, PartialEq, Eq)]
pub enum TokenLabel {
    /// The finished label.
    Exact(String),
    /// The count divided by `divisor`, to be shown with `suffix`.
    Scaled { divisor: u64, suffix: char },
}

/// The unit a token count is shown in: `(divisor, suffix)`, or `None` for a
/// count below one thousand.
pub open spec fn token_unit(n: nat) -> Option<(u64, char)> {
    if n < 1_000 {
        None
    } else if n < 1_000_000 {
        Some((1_000u64, 'k'))
    } else if n < 1_000_000_000 {
        Some((1_000_000u64, 'M'))
    } else {
        Some((1_000_000_000u64, 'B'))
    }
}

/// Counts below 2^53 are exactly representable as `f64`, so a whole
/// multiple of the unit is then printed without a fraction.
pub open spec fn exact_limit() -> nat {
    0x20_0000_0000_0000
}

/// The label of a token count: `n` itself below one thousand; a whole
/// multiple of the unit as the multiple and the unit letter (`5000` is
/// `"5k"`); everything else scaled with one decimal place.
pub open spec fn token_label_spec(n: nat) -> (Option<Seq<char>>, Option<(u64, char)>) {
    match token_unit(n) {
        None => (Some(decimal(n)), None),
        Some((d, c)) => if n % (d as nat) == 0 && n < exact_limit() {
            (Some(decimal(n / (d as nat)).push(c)), None)
        } else {
            (None, Some((d, c)))
        },
    }
}

/// Decides how `n` tokens are labelled (see `token_label_spec`).
pub fn token_label(n: u64) -> (t: TokenLabel)
    ensures
        match t {
            TokenLabel::Exact(s) => token_label_spec(n as nat) == (Some(s@), None::<(u64, char)>),
            TokenLabel::Scaled { divisor, suffix } => token_label_spec(n as nat) == (
                None::<Seq<char>>,
                Some((divisor, suffix)),
            ),
        },
{
    if n < 1_000 {
        return TokenLabel::Exact(decimal_string(n));
    }
    let (divisor, suffix): (u64, char) = if n < 1_000_000 {
        (1_000, 'k')
    } else if n < 1_000_000_000 {
        (1_000_000, 'M')
    } else {
        (1_000_000_000, 'B')
    };
    if n % divisor == 0 && n < 0x20_0000_0000_0000 {
        let mut s = decimal_string(n / divisor);
        s.push(suffix);
        TokenLabel::Exact(s)
    } else {
        TokenLabel::Scaled { divisor, suffix }
    }
}

} // verus!
