use vstd::prelude::*;

use crate::text::{
    decimal, decimal_value, is_digits, lemma_decimal_value, lemma_two_digits_value, pad_left, push_decimal, push_decimal_padded, push_repeat, push_two_digits,
    repeat_char, two_digits,
};

verus! {

/// How many of the bar's `width` cells are filled: all of them when `total` is 0, else
/// `min(done, total) * width / total`, rounded down.
pub open spec fn bar_fill(done: u64, total: u64, width: nat) -> nat {
    if total == 0 {
        width
    } else {
        let m: int = if done < total { done as int } else { total as int };
        (m * width / (total as int)) as nat
    }
}

/// The fixed-width bar `[####------]`: `bar_fill` cells of `#`, the rest `-`.
pub open spec fn bar_text(done: u64, total: u64, width: nat) -> Seq<char> {
    seq!['['] + repeat_char('#', bar_fill(done, total, width)) + repeat_char(
        '-',
        (width - bar_fill(done, total, width)) as nat,
    ) + seq![']']
}

/// `h:mm:ss` from one hour on, `mm:ss` below it.
pub open spec fn duration_text(total_secs: u64) -> Seq<char> {
    let h = total_secs / 3600;
    let m = (total_secs % 3600) / 60;
    let s = total_secs % 60;
    if h > 0 {
        decimal(h as nat) + seq![':'] + two_digits(m as nat) + seq![':'] + two_digits(s as nat)
    } else {
        two_digits(m as nat) + seq![':'] + two_digits(s as nat)
    }
}

/// Reads a duration back: the last two digits are seconds, the two before the colon
/// minutes, and whatever stands before the second colon from the end hours.
pub open spec fn read_duration(text: Seq<char>) -> int {
    let n = text.len() as int;
    let hours = if n > 5 {
        decimal_value(text.subrange(0, n - 6))
    } else {
        0
    };
    3600 * hours + 60 * decimal_value(text.subrange(n - 5, n - 3)) + decimal_value(
        text.subrange(n - 2, n),
    )
}

/// A formatted duration has `:` where the fields are split, only the hour field appears from
/// one hour on, and reading the fields back as numbers gives the number of seconds. The
/// minutes and seconds fields are two digits each, both below 60, and the hour field, when
/// present, is a positive number without leading zeros: the fields are the unique
/// hours/minutes/seconds split of the duration.
pub proof fn lemma_duration_reads_back(total_secs: u64)
    ensures
        ({
            let d = duration_text(total_secs);
            let n = d.len() as int;
            &&& n >= 5
            &&& d[n - 3] == ':'
            &&& (n == 5 <==> total_secs < 3600)
            &&& (n > 5 ==> d[n - 6] == ':')
            &&& read_duration(d) == total_secs
            &&& is_digits(d.subrange(n - 5, n - 3))
            &&& is_digits(d.subrange(n - 2, n))
            &&& decimal_value(d.subrange(n - 5, n - 3)) < 60
            &&& decimal_value(d.subrange(n - 2, n)) < 60
            &&& (n > 5 ==> {
                &&& is_digits(d.subrange(0, n - 6))
                &&& d[0] != '0'
                &&& decimal_value(d.subrange(0, n - 6)) >= 1
                &&& 3600 * decimal_value(d.subrange(0, n - 6)) + 60 * decimal_value(
                    d.subrange(n - 5, n - 3),
                ) + decimal_value(d.subrange(n - 2, n)) == total_secs
            })
            &&& (n == 5 ==> 60 * decimal_value(d.subrange(0, 2)) + decimal_value(
                d.subrange(3, 5),
            ) == total_secs)
        }),
{
    let h = total_secs / 3600;
    let m = (total_secs % 3600) / 60;
    let s = total_secs % 60;
    let d = duration_text(total_secs);
    let n = d.len() as int;
    lemma_decimal_value(h as nat);
    lemma_two_digits_value(m as nat);
    lemma_two_digits_value(s as nat);
    assert(d.subrange(n - 5, n - 3) =~= two_digits(m as nat));
    assert(d.subrange(n - 2, n) =~= two_digits(s as nat));
    if h > 0 {
        assert(d.subrange(0, n - 6) =~= decimal(h as nat));
    }
    assert(total_secs == 3600 * h + 60 * m + s);
}

/// Percentage done, rounded down; 100 for an empty transfer.
pub open spec fn percent_done(done: u64, total: u64) -> nat {
    if total == 0 {
        100
    } else {
        (done as int * 100 / total as int) as nat
    }
}

/// The ETA field: the duration when there is an estimate, `--:--` when there is none.
pub open spec fn eta_text(eta_secs: Option<u64>) -> Seq<char> {
    match eta_secs {
        Some(s) => duration_text(s),
        None => seq!['-', '-', ':', '-', '-'],
    }
}

/// One progress line: bar, percent (width 3), `done` (width 7) `/total bytes`, rate, ETA.
pub open spec fn progress_text(
    done: u64,
    total: u64,
    width: nat,
    rate: Seq<char>,
    eta_secs: Option<u64>,
) -> Seq<char> {
    bar_text(done, total, width) + seq![' '] + pad_left(decimal(percent_done(done, total)), 3)
        + seq!['%', ' '] + pad_left(decimal(done as nat), 7) + seq!['/'] + decimal(total as nat)
        + seq![' ', 'b', 'y', 't', 'e', 's', ' ', ' '] + rate + seq![' ', ' ', 'E', 'T', 'A', ' ']
        + eta_text(eta_secs)
}

proof fn lemma_fill_bounded(m: int, total: int, width: int)
    requires
        0 <= m <= total,
        0 < total,
        0 <= width,
    ensures
        0 <= m * width / total <= width,
{
    assert(0 <= m * width / total <= width) by (nonlinear_arith)
        requires
            0 <= m <= total,
            0 < total,
            0 <= width,
    ;
}

/// The fill never exceeds the width, is complete once `done` reaches `total`, and an empty
/// transfer (`total == 0`) shows as complete.
pub proof fn lemma_bar_fill_bounds(done: u64, total: u64, width: nat)
    ensures
        bar_fill(done, total, width) <= width,
        done >= total ==> bar_fill(done, total, width) == width,
        bar_text(done, total, width).len() == width + 2,
{
    if total != 0 {
        let m: int = if done < total { done as int } else { total as int };
        lemma_fill_bounded(m, total as int, width as int);
        if done >= total {
            assert((total as int) * (width as int) / (total as int) == width) by (nonlinear_arith)
                requires
                    total > 0,
            ;
        }
    }
}

/// The bar shows the fraction done rounded down to whole cells: with `f` of `width` cells
/// filled and `m = min(done, total)`, `f / width <= m / total < (f + 1) / width`. Cell `i`
/// (counting from 1 inside the brackets) is `#` exactly when `i <= f`, else `-`, and an empty
/// transfer fills every cell.
pub proof fn lemma_bar_cells(done: u64, total: u64, width: nat)
    ensures
        ({
            let f = bar_fill(done, total, width);
            let m: int = if done < total { done as int } else { total as int };
            let t = bar_text(done, total, width);
            &&& total > 0 ==> f * total <= m * width < (f + 1) * total
            &&& total == 0 ==> f == width
            &&& t.len() == width + 2
            &&& t[0] == '['
            &&& t[width as int + 1] == ']'
            &&& forall|i: int| 1 <= i <= width ==> (#[trigger] t[i] == '#' <==> i <= f)
            &&& forall|i: int| 1 <= i <= width ==> (t[i] == '#' || #[trigger] t[i] == '-')
        }),
{
    lemma_bar_fill_bounds(done, total, width);
    let f = bar_fill(done, total, width);
    if total > 0 {
        let m: int = if done < total { done as int } else { total as int };
        let q = m * (width as int);
        assert(f * total <= q < (f + 1) * total) by (nonlinear_arith)
            requires
                f == q / (total as int),
                total > 0,
                q >= 0,
        ;
    }
    let t = bar_text(done, total, width);
    assert forall|i: int| 1 <= i <= width implies (#[trigger] t[i] == '#' <==> i <= f) by {
        if i <= f {
            assert(t[i] == repeat_char('#', f)[i - 1]);
        } else {
            assert(t[i] == repeat_char('-', (width - f) as nat)[i - 1 - f]);
        }
    }
}

/// The percentage is the fraction done rounded down: `p * total <= 100 * done <
/// (p + 1) * total`; an empty transfer is 100%.
pub proof fn lemma_percent_rounds_down(done: u64, total: u64)
    ensures
        total > 0 ==> percent_done(done, total) * total <= 100 * done < (percent_done(
            done,
            total,
        ) + 1) * total,
        total == 0 ==> percent_done(done, total) == 100,
        done <= total ==> percent_done(done, total) <= 100,
{
    if total > 0 {
        let p = percent_done(done, total);
        let q = done as int * 100;
        assert(p * total <= q < (p + 1) * total) by (nonlinear_arith)
            requires
                p == q / (total as int),
                total > 0,
                q >= 0,
        ;
        if done <= total {
            assert(p <= 100) by (nonlinear_arith)
                requires
                    p * total <= q,
                    q == done * 100,
                    done <= total,
                    total > 0,
            ;
        }
    }
}

/// More progress never shows a shorter bar.
pub proof fn lemma_bar_fill_monotone(d1: u64, d2: u64, total: u64, width: nat)
    requires
        d1 <= d2,
    ensures
        bar_fill(d1, total, width) <= bar_fill(d2, total, width),
{
    if total != 0 {
        let m1: int = if d1 < total { d1 as int } else { total as int };
        let m2: int = if d2 < total { d2 as int } else { total as int };
        lemma_fill_bounded(m1, total as int, width as int);
        lemma_fill_bounded(m2, total as int, width as int);
        assert(m1 * (width as int) / (total as int) <= m2 * (width as int) / (total as int))
            by (nonlinear_arith)
            requires
                0 <= m1 <= m2,
                total > 0,
                width >= 0,
        ;
    }
}

/// A fixed-width `[####------]` bar; `total == 0` counts as fully done.
pub fn render_bar(done: u64, total: u64, width: usize) -> (bar: String)
    requires
        width + 2 <= usize::MAX,
    ensures
        bar@ == bar_text(done, total, width as nat),
{
    proof {
        lemma_bar_fill_bounds(done, total, width as nat);
    }
    let filled: usize = if total == 0 {
        width
    } else {
        let m: u64 = if done < total {
            done
        } else {
            total
        };
        assert((m as int) * (width as int) <= 0xffff_ffff_ffff_ffff * 0xffff_ffff_ffff_ffff)
            by (nonlinear_arith)
            requires
                m <= 0xffff_ffff_ffff_ffffu64,
                width <= 0xffff_ffff_ffff_ffffu64,
        ;
        ((m as u128 * width as u128) / total as u128) as usize
    };
    assert(filled == bar_fill(done, total, width as nat));
    let mut bar = String::new();
    proof {
        reveal_strlit("[");
        reveal_strlit("#");
        reveal_strlit("-");
        reveal_strlit("]");
    }
    bar.append("[");
    push_repeat(&mut bar, "#", filled);
    push_repeat(&mut bar, "-", width - filled);
    bar.append("]");
    bar
}

/// Elapsed or remaining time as `mm:ss`, or `h:mm:ss` from one hour on.
pub fn format_duration(total_secs: u64) -> (text: String)
    ensures
        text@ == duration_text(total_secs),
{
    let h = total_secs / 3600;
    let m = (total_secs % 3600) / 60;
    let s = total_secs % 60;
    let mut text = String::new();
    proof {
        reveal_strlit(":");
    }
    if h > 0 {
        push_decimal(&mut text, h);
        text.append(":");
    }
    push_two_digits(&mut text, m);
    text.append(":");
    push_two_digits(&mut text, s);
    text
}

/// One line of transfer progress: bar, percent, bytes, the rate as already formatted, and
/// the ETA (`--:--` when there is no estimate).
pub fn render_progress_line(
    done: u64,
    total: u64,
    width: usize,
    rate: &str,
    eta_secs: Option<u64>,
) -> (line: String)
    requires
        width + 2 <= usize::MAX,
        done * 100 <= u64::MAX,
    ensures
        line@ == progress_text(done, total, width as nat, rate@, eta_secs),
{
    let pct: u64 = match (done * 100).checked_div(total) {
        Some(p) => p,
        None => 100,
    };
    proof {
        reveal_strlit(" ");
        reveal_strlit("% ");
        reveal_strlit("/");
        reveal_strlit(" bytes  ");
        reveal_strlit("  ETA ");
        reveal_strlit("--:--");
    }
    let mut line = render_bar(done, total, width);
    line.append(" ");
    push_decimal_padded(&mut line, pct, 3);
    line.append("% ");
    push_decimal_padded(&mut line, done, 7);
    line.append("/");
    push_decimal(&mut line, total);
    line.append(" bytes  ");
    line.append(rate);
    line.append("  ETA ");
    match eta_secs {
        Some(s) => {
            let d = format_duration(s);
            line.append(d.as_str());
        },
        None => {
            line.append("--:--");
        },
    }
    line
}

/// `text` wrapped in the ANSI escape `ESC [ code m` and the reset `ESC [ 0 m` when `enabled`,
/// else `text` unchanged.
pub open spec fn colorize_text(text: Seq<char>, code: Seq<char>, enabled: bool) -> Seq<char> {
    if enabled {
        seq!['\x1b', '['] + code + seq!['m'] + text + seq!['\x1b', '[', '0', 'm']
    } else {
        text
    }
}

/// Wraps `text` in the ANSI color `code` when `enabled`.
pub fn colorize(text: &str, code: &str, enabled: bool) -> (out: String)
    ensures
        out@ == colorize_text(text@, code@, enabled),
{
    if enabled {
        proof {
            reveal_strlit("\x1b[");
            reveal_strlit("m");
            reveal_strlit("\x1b[0m");
        }
        let mut out = String::new();
        out.append("\x1b[");
        out.append(code);
        out.append("m");
        out.append(text);
        out.append("\x1b[0m");
        out
    } else {
        text.to_owned()
    }
}

/// Color is on only when `NO_COLOR` is unset (set to anything, even empty, turns it off)
/// and standard output is a terminal.
pub fn should_color(no_color_env: Option<&str>, is_tty: bool) -> (color: bool)
    ensures
        color == (no_color_env.is_none() && is_tty),
{
    no_color_env.is_none() && is_tty
}

/// The terminal settings, decided once: whether to color, and whether to print raw reports.
pub struct Console {
    pub color: bool,
    pub verbose: bool,
}

impl Console {
    /// Settings from the `NO_COLOR` variable (as read by the caller), whether standard
    /// output is a terminal, and the verbosity flag.
    pub fn new(verbose: bool, no_color_env: Option<&str>, is_tty: bool) -> (c: Console)
        ensures
            c.color == (no_color_env.is_none() && is_tty),
            c.verbose == verbose,
    {
        Console { color: should_color(no_color_env, is_tty), verbose }
    }

    /// `s` in green (ANSI 32) when color is on.
    pub fn green(&self, s: &str) -> (out: String)
        ensures
            out@ == colorize_text(s@, seq!['3', '2'], self.color),
    {
        proof {
            reveal_strlit("32");
        }
        colorize(s, "32", self.color)
    }

    /// `s` in yellow (ANSI 33) when color is on.
    pub fn yellow(&self, s: &str) -> (out: String)
        ensures
            out@ == colorize_text(s@, seq!['3', '3'], self.color),
    {
        proof {
            reveal_strlit("33");
        }
        colorize(s, "33", self.color)
    }

    /// `s` in bold (ANSI 1) when color is on.
    pub fn bold(&self, s: &str) -> (out: String)
        ensures
            out@ == colorize_text(s@, seq!['1'], self.color),
    {
        proof {
            reveal_strlit("1");
        }
        colorize(s, "1", self.color)
    }

    /// `s` in red (ANSI 31) when color is on: the text of a fatal error.
    pub fn red(&self, s: &str) -> (out: String)
        ensures
            out@ == colorize_text(s@, seq!['3', '1'], self.color),
    {
        proof {
            reveal_strlit("31");
        }
        colorize(s, "31", self.color)
    }
}

} // verus!
