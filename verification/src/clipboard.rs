//! Clipboard payloads: standard base64 (RFC 4648 section 4) and the OSC 52
//! escape sequence `ESC ] 52 ; c ; <base64> BEL`, plus the order in which the
//! clipboard backends are tried (OSC 52 first, then `pbcopy`).

use vstd::prelude::*;
use crate::chars::str_chars;
use vstd::string::StringSliceAdditionalSpecFns;

verus! {

/// The base64 alphabet: `A-Z`, `a-z`, `0-9`, `+`, `/`.
pub open spec fn b64_char(v: int) -> char {
    if v < 26 {
        (v + 65) as char
    } else if v < 52 {
        (v - 26 + 97) as char
    } else if v < 62 {
        (v - 52 + 48) as char
    } else if v == 62 {
        '+'
    } else {
        '/'
    }
}

/// The four output characters of one input group of one to three bytes;
/// missing bytes count as zero and their output positions are `=`.
pub open spec fn b64_group(g: Seq<u8>) -> Seq<char> {
    let b0 = g[0] as int;
    let b1 = if g.len() > 1 { g[1] as int } else { 0 };
    let b2 = if g.len() > 2 { g[2] as int } else { 0 };
    seq![
        b64_char(b0 / 4),
        b64_char((b0 % 4) * 16 + b1 / 16),
        if g.len() > 1 { b64_char((b1 % 16) * 4 + b2 / 64) } else { '=' },
        if g.len() > 2 { b64_char(b2 % 64) } else { '=' },
    ]
}

/// Standard padded base64 of `bytes`, three bytes at a time.
pub open spec fn base64(bytes: Seq<u8>) -> Seq<char>
    decreases bytes.len(),
{
    if bytes.len() == 0 {
        Seq::empty()
    } else if bytes.len() <= 3 {
        b64_group(bytes)
    } else {
        b64_group(bytes.take(3)) + base64(bytes.skip(3))
    }
}

fn alphabet(v: u8) -> (c: char)
    requires
        v < 64,
    ensures
        c == b64_char(v as int),
{
    if v < 26 {
        (v + 65u8) as char
    } else if v < 52 {
        (v - 26u8 + 97u8) as char
    } else if v < 62 {
        (v - 52u8 + 48u8) as char
    } else if v == 62 {
        '+'
    } else {
        '/'
    }
}

proof fn base64_split(bytes: Seq<u8>, i: int)
    requires
        0 <= i <= bytes.len(),
        i % 3 == 0,
    ensures
        base64(bytes) == base64(bytes.take(i)) + base64(bytes.skip(i)),
    decreases i,
{
    if i == 0 {
        assert(bytes.take(0) =~= Seq::<u8>::empty());
        assert(bytes.skip(0) =~= bytes);
        assert(base64(bytes.take(i)) + base64(bytes.skip(i)) =~= base64(bytes));
    } else {
        let j = i - 3;
        base64_split(bytes, j);
        let rest = bytes.skip(j);
        assert(base64(bytes.take(i)) == base64(bytes.take(j)) + b64_group(bytes.subrange(j, i))) by {
            base64_split(bytes.take(i), j);
            assert(bytes.take(i).take(j) =~= bytes.take(j));
            assert(bytes.take(i).skip(j) =~= bytes.subrange(j, i));
        }
        if rest.len() <= 3 {
            assert(rest.len() == 3);
            assert(rest =~= bytes.subrange(j, i));
            assert(bytes.skip(i) =~= Seq::<u8>::empty());
            assert(base64(bytes.skip(i)) =~= Seq::<char>::empty());
        } else {
            assert(rest.take(3) =~= bytes.subrange(j, i));
            assert(rest.skip(3) =~= bytes.skip(i));
        }
        assert(base64(bytes.take(j)) + b64_group(bytes.subrange(j, i)) + base64(bytes.skip(i))
            =~= base64(bytes.take(j)) + (b64_group(bytes.subrange(j, i)) + base64(bytes.skip(i))));
    }
}

/// Appends the four characters of the group `b0 b1 b2` of `len` bytes.
fn push_group(output: &mut String, b0: u8, b1: u8, b2: u8, len: usize, g: Ghost<Seq<u8>>)
    requires
        1 <= len <= 3,
        g@.len() == len,
        g@[0] == b0,
        len > 1 ==> g@[1] == b1,
        len > 2 ==> g@[2] == b2,
        len <= 1 ==> b1 == 0,
        len <= 2 ==> b2 == 0,
    ensures
        final(output)@ == old(output)@ + b64_group(g@),
{
    output.push(alphabet(b0 / 4));
    output.push(alphabet((b0 % 4) * 16 + b1 / 16));
    if len > 1 {
        output.push(alphabet((b1 % 16) * 4 + b2 / 64));
    } else {
        output.push('=');
    }
    if len > 2 {
        output.push(alphabet(b2 % 64));
    } else {
        output.push('=');
    }
    proof {
        assert(final(output)@ =~= old(output)@ + b64_group(g@));
    }
}

/// Encodes bytes using the standard base64 alphabet with `=` padding.
pub fn base64_encode(input: &[u8]) -> (s: String)
    ensures
        s@ == base64(input@),
{
    let mut output = String::new();
    let n = input.len();
    let mut i: usize = 0;
    proof {
        assert(input@.take(0) =~= Seq::<u8>::empty());
    }
    while n - i >= 3
        invariant
            n == input@.len(),
            i <= n,
            i % 3 == 0,
            output@ == base64(input@.take(i as int)),
        decreases n - i,
    {
        let ghost g = input@.subrange(i as int, i + 3);
        push_group(&mut output, input[i], input[i + 1], input[i + 2], 3, Ghost(g));
        proof {
            let t = input@.take(i + 3);
            base64_split(t, i as int);
            assert(t.take(i as int) =~= input@.take(i as int));
            assert(t.skip(i as int) =~= g);
        }
        i = i + 3;
    }
    let len = n - i;
    if len > 0 {
        let b1 = if len > 1 { input[i + 1] } else { 0 };
        let ghost g = input@.subrange(i as int, n as int);
        push_group(&mut output, input[i], b1, 0, len, Ghost(g));
        proof {
            base64_split(input@, i as int);
            assert(input@.skip(i as int) =~= g);
        }
    } else {
        proof {
            assert(input@.take(n as int) =~= input@);
        }
    }
    output
}

/// A character of the base64 alphabet (never the padding `=`).
pub open spec fn is_b64_alphabet(c: char) -> bool {
    ||| 'A' <= c <= 'Z'
    ||| 'a' <= c <= 'z'
    ||| '0' <= c <= '9'
    ||| c == '+'
    ||| c == '/'
}

/// How many `=` end the encoding of `n` bytes.
pub open spec fn b64_padding(n: int) -> int {
    (3 - n % 3) % 3
}

proof fn b64_char_in_alphabet(v: int)
    requires
        0 <= v < 64,
    ensures
        is_b64_alphabet(b64_char(v)),
{
}

proof fn b64_group_shape(g: Seq<u8>)
    requires
        1 <= g.len() <= 3,
    ensures
        b64_group(g).len() == 4,
        forall|i: int|
            0 <= i < 4 ==> (i < 4 - b64_padding(g.len() as int) ==> is_b64_alphabet(#[trigger] b64_group(g)[i]))
                && (i >= 4 - b64_padding(g.len() as int) ==> b64_group(g)[i] == '='),
{
    let b0 = g[0] as int;
    let b1 = if g.len() > 1 { g[1] as int } else { 0 };
    let b2 = if g.len() > 2 { g[2] as int } else { 0 };
    b64_char_in_alphabet(b0 / 4);
    b64_char_in_alphabet((b0 % 4) * 16 + b1 / 16);
    b64_char_in_alphabet((b1 % 16) * 4 + b2 / 64);
    b64_char_in_alphabet(b2 % 64);
}

/// The encoding of `n` bytes has `4 * ceil(n / 3)` characters, all of the
/// base64 alphabet except the last `(3 - n % 3) % 3`, which are `=`.
pub proof fn base64_shape(bytes: Seq<u8>)
    ensures
        base64(bytes).len() == 4 * ((bytes.len() + 2) / 3),
        forall|i: int|
            0 <= i < base64(bytes).len() ==> (i < base64(bytes).len() - b64_padding(bytes.len() as int)
                ==> is_b64_alphabet(#[trigger] base64(bytes)[i])) && (i >= base64(bytes).len() - b64_padding(
                bytes.len() as int,
            ) ==> base64(bytes)[i] == '='),
    decreases bytes.len(),
{
    if bytes.len() == 0 {
    } else if bytes.len() <= 3 {
        b64_group_shape(bytes);
    } else {
        let head = bytes.take(3);
        let rest = bytes.skip(3);
        b64_group_shape(head);
        base64_shape(rest);
        assert(b64_padding(rest.len() as int) == b64_padding(bytes.len() as int));
        let out = base64(bytes);
        assert(out == b64_group(head) + base64(rest));
        assert forall|i: int| 0 <= i < out.len() implies (i < out.len() - b64_padding(bytes.len() as int)
            ==> is_b64_alphabet(#[trigger] out[i])) && (i >= out.len() - b64_padding(bytes.len() as int) ==> out[i]
            == '=') by {
            if i >= 4 {
                assert(out[i] == base64(rest)[i - 4]);
            } else {
                assert(out[i] == b64_group(head)[i]);
            }
        }
    }
}

/// The six-bit value of a base64 alphabet character.
pub open spec fn b64_value(c: char) -> int {
    if 'A' <= c <= 'Z' {
        c as int - 65
    } else if 'a' <= c <= 'z' {
        c as int - 71
    } else if '0' <= c <= '9' {
        c as int + 4
    } else if c == '+' {
        62
    } else {
        63
    }
}

/// The bytes of one group of four characters: three, or fewer where the
/// group ends in `=`.
pub open spec fn b64_decode_group(q: Seq<char>) -> Seq<u8> {
    let v0 = b64_value(q[0]);
    let v1 = b64_value(q[1]);
    let v2 = if q[2] == '=' { 0 } else { b64_value(q[2]) };
    let v3 = if q[3] == '=' { 0 } else { b64_value(q[3]) };
    let b0 = (v0 * 4 + v1 / 16) as u8;
    let b1 = ((v1 % 16) * 16 + v2 / 4) as u8;
    let b2 = ((v2 % 4) * 64 + v3) as u8;
    if q[2] == '=' {
        seq![b0]
    } else if q[3] == '=' {
        seq![b0, b1]
    } else {
        seq![b0, b1, b2]
    }
}

/// Standard base64 decoding of well-formed padded text, four characters at
/// a time.
pub open spec fn base64_decode(text: Seq<char>) -> Seq<u8>
    decreases text.len(),
{
    if text.len() < 4 {
        Seq::empty()
    } else {
        b64_decode_group(text.take(4)) + base64_decode(text.skip(4))
    }
}

proof fn b64_value_of_char(v: int)
    requires
        0 <= v < 64,
    ensures
        b64_value(b64_char(v)) == v,
        b64_char(v) != '=',
{
}

proof fn b64_regroup(b0: u32, b1: u32, b2: u32)
    requires
        b0 < 256,
        b1 < 256,
        b2 < 256,
    ensures
        (b0 / 4) * 4 + ((b0 % 4) * 16 + b1 / 16) / 16 == b0,
        (((b0 % 4) * 16 + b1 / 16) % 16) * 16 + ((b1 % 16) * 4 + b2 / 64) / 4 == b1,
        (((b1 % 16) * 4 + b2 / 64) % 4) * 64 + b2 % 64 == b2,
{
    assert((b0 / 4) * 4 + ((b0 % 4) * 16 + b1 / 16) / 16 == b0) by (bit_vector)
        requires
            b0 < 256,
            b1 < 256,
    ;
    assert((((b0 % 4) * 16 + b1 / 16) % 16) * 16 + ((b1 % 16) * 4 + b2 / 64) / 4 == b1) by (bit_vector)
        requires
            b0 < 256,
            b1 < 256,
            b2 < 256,
    ;
    assert((((b1 % 16) * 4 + b2 / 64) % 4) * 64 + b2 % 64 == b2) by (bit_vector)
        requires
            b1 < 256,
            b2 < 256,
    ;
}

proof fn b64_group_decodes(g: Seq<u8>)
    requires
        1 <= g.len() <= 3,
    ensures
        b64_decode_group(b64_group(g)) == g,
{
    let b0 = g[0] as int;
    let b1 = if g.len() > 1 { g[1] as int } else { 0 };
    let b2 = if g.len() > 2 { g[2] as int } else { 0 };
    b64_value_of_char(b0 / 4);
    b64_value_of_char((b0 % 4) * 16 + b1 / 16);
    b64_value_of_char((b1 % 16) * 4 + b2 / 64);
    b64_value_of_char(b2 % 64);
    b64_regroup(b0 as u32, b1 as u32, b2 as u32);
    assert(b64_decode_group(b64_group(g)) =~= g);
}

/// Decoding the encoding gives the bytes back.
pub proof fn base64_roundtrip(bytes: Seq<u8>)
    ensures
        base64_decode(base64(bytes)) == bytes,
    decreases bytes.len(),
{
    if bytes.len() == 0 {
        assert(base64_decode(base64(bytes)) =~= bytes);
    } else if bytes.len() <= 3 {
        b64_group_decodes(bytes);
        let out = base64(bytes);
        assert(out.take(4) =~= out);
        assert(out.skip(4) =~= Seq::<char>::empty());
        assert(base64_decode(out.skip(4)) =~= Seq::<u8>::empty());
        assert(base64_decode(out) =~= bytes);
    } else {
        let head = bytes.take(3);
        let rest = bytes.skip(3);
        b64_group_decodes(head);
        base64_roundtrip(rest);
        let out = base64(bytes);
        assert(out.take(4) =~= b64_group(head));
        assert(out.skip(4) =~= base64(rest));
        assert(head + rest =~= bytes);
    }
}

/// A clipboard payload: the base64 of the text's UTF-8 bytes.
pub struct ClipboardPayload {
    pub base64: String,
}

impl ClipboardPayload {
    /// Builds a payload from arbitrary text.
    pub fn new(text: &str) -> (p: Self)
        ensures
            p.base64@ == base64(text.spec_bytes()),
    {
        ClipboardPayload { base64: base64_encode(text.as_bytes()) }
    }

    /// Formats the payload as a BEL-terminated OSC 52 escape sequence.
    pub fn to_osc52(&self) -> (s: String)
        ensures
            s@ == seq!['\x1b', ']', '5', '2', ';', 'c', ';'] + self.base64@ + seq!['\x07'],
    {
        let mut s = String::new();
        s.push('\x1b');
        s.push(']');
        s.push('5');
        s.push('2');
        s.push(';');
        s.push('c');
        s.push(';');
        let b = str_chars(self.base64.as_str());
        let mut k: usize = 0;
        let ghost start = s@;
        while k < b.len()
            invariant
                b@ == self.base64@,
                k <= b@.len(),
                s@ == start + b@.take(k as int),
            decreases b@.len() - k,
        {
            s.push(b[k]);
            proof {
                assert(b@.take(k + 1) =~= b@.take(k as int).push(b@[k as int]));
            }
            k = k + 1;
        }
        s.push('\x07');
        proof {
            assert(b@.take(b@.len() as int) =~= b@);
            assert(s@ =~= seq!['\x1b', ']', '5', '2', ';', 'c', ';'] + self.base64@ + seq!['\x07']);
        }
        s
    }
}

/// Which backend carried a clipboard write.
#[derive(Debug, PartialEq, Eq)]
pub enum ClipboardBackend {
    /// The OSC 52 escape sequence.
    Osc52,
    /// The host `pbcopy` command.
    Pbcopy,
}

/// Errors a clipboard backend may surface.
#[derive(Debug, PartialEq, Eq)]
pub enum ClipboardError {
    /// `pbcopy` is not installed on the host PATH.
    PbcopyNotFound,
    /// `pbcopy` exited with a non-zero status or failed to spawn.
    PbcopyFailed(String),
    /// Writing the OSC 52 escape to stdout failed.
    StdoutFailed(String),
}

/// What to do after the OSC 52 write: stop with its success, or fall back
/// to `pbcopy`.
pub fn after_osc52(osc52_written: bool) -> (fallback: bool)
    ensures
        fallback == !osc52_written,
{
    !osc52_written
}

/// The outcome of a copy: OSC 52 when it was written; otherwise the
/// `pbcopy` fallback's success or its error.
pub fn copy_outcome(osc52_written: bool, pbcopy: Option<Result<(), ClipboardError>>) -> (r: Result<
    ClipboardBackend,
    ClipboardError,
>)
    requires
        !osc52_written ==> pbcopy is Some,
    ensures
        osc52_written ==> r == Ok::<ClipboardBackend, ClipboardError>(ClipboardBackend::Osc52),
        !osc52_written ==> match pbcopy {
            Some(Ok(())) => r == Ok::<ClipboardBackend, ClipboardError>(ClipboardBackend::Pbcopy),
            Some(Err(e)) => r == Err::<ClipboardBackend, ClipboardError>(e),
            None => false,
        },
{
    if osc52_written {
        return Ok(ClipboardBackend::Osc52);
    }
    match pbcopy {
        Some(Ok(())) => Ok(ClipboardBackend::Pbcopy),
        Some(Err(e)) => Err(e),
        None => Ok(ClipboardBackend::Pbcopy),
    }
}

} // verus!
