//! The `TALOS` wordmark of the first alternate-screen frame: a wide block
//! rendering for terminals of at least eighty columns and a compact one for
//! narrower terminals.

use vstd::prelude::*;
use vstd::string::StringExecFns;
use crate::chars::char_count;

verus! {

/// Left margin applied to every splash row.
pub const INDENT: &'static str = "  ";

/// Which wordmark a terminal width gets.
#[derive(Debug, Clone, Copy, PartialEq, Eq, Structural)]
pub enum LogoRenderMode {
    /// Full-width block wordmark (at least 80 columns).
    Canvas,
    /// Compact wordmark for narrow terminals (below 80 columns).
    UnicodeBlock,
}

/// The block wordmark from 80 columns on, the compact one below.
pub fn select_render_mode(width: u16) -> (m: LogoRenderMode)
    ensures
        m == (if width >= 80 { LogoRenderMode::Canvas } else { LogoRenderMode::UnicodeBlock }),
{
    if width >= 80 {
        LogoRenderMode::Canvas
    } else {
        LogoRenderMode::UnicodeBlock
    }
}

/// The full block (`U+2588`) the wide wordmark is drawn with.
pub open spec fn full_block() -> char {
    '\u{2588}'
}

/// The rows of the wide wordmark.
pub open spec fn wide_rows() -> Seq<Seq<char>> {
    seq![
        "████████╗ █████╗ ██╗      ██████╗ ███████╗"@,
        "╚══██╔══╝██╔══██╗██║     ██╔═══██╗██╔════╝"@,
        "   ██║   ███████║██║     ██║   ██║███████╗"@,
        "   ██║   ██╔══██╗██║     ██║   ██║╚════██║"@,
        "   ██║   ██║  ██║███████╗╚██████╔╝███████║"@,
        "   ╚═╝   ╚═╝  ╚═╝╚══════╝ ╚═════╝ ╚══════╝"@,
    ]
}

/// The rows of the compact wordmark.
pub open spec fn compact_rows() -> Seq<Seq<char>> {
    seq![
        " _____ _    _    ___  ___"@,
        "|_   _/ \\  | |  / _ \\/ __|"@,
        "  | || _ \\ | |_| (_) \\__ \\"@,
        "  |_||_/ \\_|___|\\___/|___/"@,
    ]
}

/// The wide `TALOS` wordmark: six rows, each 42 columns of block and
/// box-drawing characters, starting with a full block.
pub fn talos_wordmark() -> (rows: Vec<&'static str>)
    ensures
        rows@.len() == 6,
        forall|i: int| 0 <= i < 6 ==> (#[trigger] rows@[i])@ == wide_rows()[i],
        forall|i: int| 0 <= i < 6 ==> (#[trigger] rows@[i])@.len() == 42,
        rows@[0]@[0] == full_block(),
{
    let r0 = "████████╗ █████╗ ██╗      ██████╗ ███████╗";
    let r1 = "╚══██╔══╝██╔══██╗██║     ██╔═══██╗██╔════╝";
    let r2 = "   ██║   ███████║██║     ██║   ██║███████╗";
    let r3 = "   ██║   ██╔══██╗██║     ██║   ██║╚════██║";
    let r4 = "   ██║   ██║  ██║███████╗╚██████╔╝███████║";
    let r5 = "   ╚═╝   ╚═╝  ╚═╝╚══════╝ ╚═════╝ ╚══════╝";
    proof {
        reveal_strlit("████████╗ █████╗ ██╗      ██████╗ ███████╗");
        reveal_strlit("╚══██╔══╝██╔══██╗██║     ██╔═══██╗██╔════╝");
        reveal_strlit("   ██║   ███████║██║     ██║   ██║███████╗");
        reveal_strlit("   ██║   ██╔══██╗██║     ██║   ██║╚════██║");
        reveal_strlit("   ██║   ██║  ██║███████╗╚██████╔╝███████║");
        reveal_strlit("   ╚═╝   ╚═╝  ╚═╝╚══════╝ ╚═════╝ ╚══════╝");
    }
    let rows = vec![r0, r1, r2, r3, r4, r5];
    proof {
        assert(rows@[0]@.len() == 42);
        assert(rows@[1]@.len() == 42);
        assert(rows@[2]@.len() == 42);
        assert(rows@[3]@.len() == 42);
        assert(rows@[4]@.len() == 42);
        assert(rows@[5]@.len() == 42);
    }
    rows
}

/// The compact `TALOS` wordmark: four ASCII rows of at most 26 columns.
pub fn talos_wordmark_compact() -> (rows: Vec<&'static str>)
    ensures
        rows@.len() == 4,
        forall|i: int| 0 <= i < 4 ==> (#[trigger] rows@[i])@ == compact_rows()[i],
        forall|i: int| 0 <= i < 4 ==> (#[trigger] rows@[i])@.len() <= 26,
{
    let r0 = " _____ _    _    ___  ___";
    let r1 = "|_   _/ \\  | |  / _ \\/ __|";
    let r2 = "  | || _ \\ | |_| (_) \\__ \\";
    let r3 = "  |_||_/ \\_|___|\\___/|___/";
    proof {
        reveal_strlit(" _____ _    _    ___  ___");
        reveal_strlit("|_   _/ \\  | |  / _ \\/ __|");
        reveal_strlit("  | || _ \\ | |_| (_) \\__ \\");
        reveal_strlit("  |_||_/ \\_|___|\\___/|___/");
    }
    let rows = vec![r0, r1, r2, r3];
    proof {
        assert(rows@[0]@.len() <= 26);
        assert(rows@[1]@.len() <= 26);
        assert(rows@[2]@.len() <= 26);
        assert(rows@[3]@.len() <= 26);
    }
    rows
}

/// The line under the wordmark.
pub const SUBTITLE: &'static str = "⬡ The watchman never sleeps";

/// The badge labels, in order.
pub open spec fn badge_labels_spec() -> Seq<Seq<char>> {
    seq!["Precision"@, "Safety"@, "Reliability"@]
}

/// The badge labels shown under the subtitle.
pub fn badge_labels() -> (labels: Vec<&'static str>)
    ensures
        labels@.len() == 3,
        forall|i: int| 0 <= i < 3 ==> (#[trigger] labels@[i])@ == badge_labels_spec()[i],
{
    vec!["Precision", "Safety", "Reliability"]
}

/// For each wordmark row, the index of its colour in a ramp of `ramp_len`
/// colours: the middle-left one for a single row, otherwise spread evenly
/// from the first colour to the last.
pub open spec fn gradient_index(i: int, rows: int, ramp_len: int) -> int {
    if rows <= 1 { 1 } else { i * (ramp_len - 1) / (rows - 1) }
}

/// The ramp index of each wordmark row (see `gradient_index`).
pub fn wordmark_gradient_indices(rows: usize, ramp_len: usize) -> (r: Vec<usize>)
    requires
        ramp_len >= 2,
        rows * ramp_len <= usize::MAX,
    ensures
        r@.len() == rows,
        forall|i: int| 0 <= i < rows ==> (#[trigger] r@[i]) == gradient_index(i, rows as int, ramp_len as int),
        forall|i: int| 0 <= i < rows ==> (#[trigger] r@[i]) < ramp_len,
{
    let mut r: Vec<usize> = Vec::new();
    let mut i: usize = 0;
    while i < rows
        invariant
            i <= rows,
            ramp_len >= 2,
            rows * ramp_len <= usize::MAX,
            r@.len() == i,
            forall|t: int| 0 <= t < i ==> (#[trigger] r@[t]) == gradient_index(t, rows as int, ramp_len as int),
            forall|t: int| 0 <= t < i ==> (#[trigger] r@[t]) < ramp_len,
        decreases rows - i,
    {
        if rows <= 1 {
            r.push(1);
        } else {
            proof {
                assert(i * (ramp_len - 1) <= rows * ramp_len) by (nonlinear_arith)
                    requires
                        i < rows,
                        ramp_len >= 2,
                ;
                assert(i * (ramp_len - 1) / (rows - 1) < ramp_len) by (nonlinear_arith)
                    requires
                        i <= rows - 1,
                        rows >= 2,
                        ramp_len >= 2,
                {
                    assert(i * (ramp_len - 1) <= (rows - 1) * (ramp_len - 1));
                }
            }
            r.push(i * (ramp_len - 1) / (rows - 1));
        }
        i = i + 1;
    }
    r
}

/// `n` spaces.
pub open spec fn spaces(n: nat) -> Seq<char> {
    Seq::new(n, |_i: int| ' ')
}

/// The text of each splash row at a terminal width: a blank row, the
/// wordmark for the width (each row indented), the version right-aligned
/// under the wordmark, the subtitle, the badges joined by `"  ·  "`, and a
/// blank row.
pub open spec fn splash_text_spec(width: int, version: Seq<char>) -> Seq<Seq<char>> {
    let rows = if width >= 80 { wide_rows() } else { compact_rows() };
    let pad = if rows[0].len() >= version.len() { rows[0].len() - version.len() } else { 0 };
    let badges = badge_labels_spec();
    seq![Seq::<char>::empty()] + rows.map_values(|r: Seq<char>| INDENT@ + r) + seq![
        INDENT@ + spaces(pad as nat) + version,
        INDENT@ + SUBTITLE@,
        INDENT@ + badges[0] + "  ·  "@ + badges[1] + "  ·  "@ + badges[2],
        Seq::<char>::empty(),
    ]
}

/// The splash rows as text (see `splash_text_spec`); `version` is the
/// version label shown under the wordmark.
pub fn viewport_splash_text(width: u16, version: &str) -> (lines: Vec<String>)
    ensures
        lines@.len() == splash_text_spec(width as int, version@).len(),
        forall|i: int| 0 <= i < lines@.len() ==> (#[trigger] lines@[i])@ == splash_text_spec(width as int, version@)[i],
{
    let ghost target = splash_text_spec(width as int, version@);
    let wordmark = match select_render_mode(width) {
        LogoRenderMode::Canvas => talos_wordmark(),
        LogoRenderMode::UnicodeBlock => talos_wordmark_compact(),
    };
    let ghost rows = if width >= 80 { wide_rows() } else { compact_rows() };
    let mut lines: Vec<String> = Vec::new();
    lines.push(String::new());
    let mut i: usize = 0;
    while i < wordmark.len()
        invariant
            i <= wordmark@.len(),
            wordmark@.len() == rows.len(),
            forall|t: int| 0 <= t < rows.len() ==> (#[trigger] wordmark@[t])@ == rows[t],
            lines@.len() == 1 + i,
            lines@[0]@ == Seq::<char>::empty(),
            forall|t: int| 0 <= t < i ==> (#[trigger] lines@[1 + t])@ == INDENT@ + rows[t],
        decreases wordmark@.len() - i,
    {
        let mut line = String::from_str(INDENT);
        line.append(wordmark[i]);
        lines.push(line);
        i = i + 1;
    }
    let wordmark_width = char_count(wordmark[0]);
    let version_width = char_count(version);
    let pad = if wordmark_width >= version_width { wordmark_width - version_width } else { 0 };
    let mut version_line = String::from_str(INDENT);
    let mut k: usize = 0;
    while k < pad
        invariant
            k <= pad,
            version_line@ == INDENT@ + spaces(k as nat),
        decreases pad - k,
    {
        version_line.push(' ');
        proof {
            assert(spaces((k + 1) as nat) =~= spaces(k as nat).push(' '));
        }
        k = k + 1;
    }
    version_line.append(version);
    lines.push(version_line);
    let mut subtitle = String::from_str(INDENT);
    subtitle.append(SUBTITLE);
    lines.push(subtitle);
    let labels = badge_labels();
    let mut badges = String::from_str(INDENT);
    badges.append(labels[0]);
    badges.append("  ·  ");
    badges.append(labels[1]);
    badges.append("  ·  ");
    badges.append(labels[2]);
    lines.push(badges);
    lines.push(String::new());
    proof {
        let n = lines@.len();
        assert(n == target.len());
        assert forall|t: int| 0 <= t < n implies (#[trigger] lines@[t])@ == target[t] by {
            if 1 <= t < 1 + rows.len() {
                assert(lines@[1 + (t - 1)]@ == INDENT@ + rows[t - 1]);
            }
        }
    }
    lines
}

} // verus!
