//! The volume block: reads the default sink's volume through the system's
//! audio tools and renders it into the block's format template.
//!
//! The conversation with the tools is a small state machine
//! (`VolumeQuery` / `volume_step`): a runner executes the command a state
//! names and feeds the output (or `None` when the command failed) back in.
//! Every parsing decision is made here, verified; only the command
//! execution itself lives outside the crate.

use vstd::prelude::*;
use vstd::string::*;

use crate::engine::BlockConfig;
use crate::text::{
    all_digits, contains_char, contains_str, dec_chars, dec_string, dec_val, digit_val,
    find_char_idx, find_char_pos, find_skip_ws, find_token_end, has_char, has_seq,
    lemma_dec_val_extend, lemma_dec_val_nonneg, lemma_find_char_idx,
    lemma_find_char_le, lemma_skip_ws_idx, lemma_token_end_idx, matches_at, opt_view,
    parse_u32, parse_u32_spec, skip_ws_idx, starts_with_str, strip_trailing,
    strip_trailing_str, subst, token_end_idx, trim_spec, trim_str, apply_format,
};

verus! {

// ------------------------------------------------------------------
// wpctl status: the default sink's id
// ------------------------------------------------------------------

/// First whitespace-separated token at or after `i` that is a number
/// followed by trailing dots (the "42." of a sink listing), as its value.
pub open spec fn sink_id_in_line(line: Seq<char>, i: int) -> Option<u32>
    decreases line.len() - i
        when 0 <= i <= line.len()
{
    let a = skip_ws_idx(line, i);
    if a >= line.len() {
        None
    } else {
        let b = token_end_idx(line, a);
        let tok = line.subrange(a, b);
        if tok.len() >= 1 && tok.last() == '.' && parse_u32_spec(strip_trailing(tok, '.')) is Some {
            parse_u32_spec(strip_trailing(tok, '.'))
        } else {
            proof {
                lemma_skip_ws_idx(line, i);
                lemma_token_end_idx(line, a);
            }
            sink_id_in_line(line, b)
        }
    }
}

/// Scan the `wpctl status` listing line by line: after a line containing
/// `Sinks:`, the first starred line with a dot-terminated number names the
/// default sink.
pub open spec fn sink_id_from(out: Seq<char>, i: int, in_sinks: bool) -> Option<u32>
    decreases out.len() - i
        when 0 <= i <= out.len()
{
    if i >= out.len() {
        None
    } else {
        let j = find_char_idx(out, i, '\n');
        let line = out.subrange(i, j);
        proof {
            lemma_find_char_idx(out, i, '\n');
        }
        if has_seq(line, "Sinks:"@) {
            if j >= out.len() {
                None
            } else {
                sink_id_from(out, j + 1, true)
            }
        } else if in_sinks && has_char(line, '*') && sink_id_in_line(line, 0) is Some {
            sink_id_in_line(line, 0)
        } else {
            if j >= out.len() {
                None
            } else {
                sink_id_from(out, j + 1, in_sinks)
            }
        }
    }
}

/// What `wpctl status` output names as the default sink id.
pub open spec fn wpctl_sink_id(out: Seq<char>) -> Option<u32> {
    sink_id_from(out, 0, false)
}

fn sink_id_line_scan(line: &str, i: usize) -> (r: Option<u32>)
    requires
        i <= line@.len(),
    ensures
        r == sink_id_in_line(line@, i as int),
    decreases line@.len() - i,
{
    let n = line.unicode_len();
    let a = find_skip_ws(line, i);
    if a >= n {
        return None;
    }
    proof {
        lemma_skip_ws_idx(line@, i as int);
    }
    let b = find_token_end(line, a);
    proof {
        lemma_token_end_idx(line@, a as int);
    }
    let tok = line.substring_char(a, b);
    let tn = tok.unicode_len();
    if tn >= 1 && tok.get_char(tn - 1) == '.' {
        proof {
            assert(tok@.last() == tok@[tn as int - 1]);
        }
        let stem = strip_trailing_str(tok, '.');
        match parse_u32(stem) {
            Some(v) => {
                return Some(v);
            },
            None => {},
        }
    }
    sink_id_line_scan(line, b)
}

/// Parse `wpctl status` output: the default sink's id, if listed.
pub fn parse_wpctl_sink_id(out: &str) -> (r: Option<u32>)
    ensures
        r == wpctl_sink_id(out@),
{
    sink_id_scan(out, 0, false)
}

fn sink_id_scan(out: &str, i: usize, in_sinks: bool) -> (r: Option<u32>)
    requires
        i <= out@.len(),
    ensures
        r == sink_id_from(out@, i as int, in_sinks),
    decreases out@.len() - i,
{
    let n = out.unicode_len();
    if i >= n {
        return None;
    }
    let j = find_char_pos(out, i, '\n');
    let line = out.substring_char(i, j);
    if contains_str(line, "Sinks:") {
        if j >= n {
            None
        } else {
            sink_id_scan(out, j + 1, true)
        }
    } else if in_sinks && contains_char(line, '*') {
        match sink_id_line_scan(line, 0) {
            Some(v) => Some(v),
            None => {
                if j >= n {
                    None
                } else {
                    sink_id_scan(out, j + 1, in_sinks)
                }
            },
        }
    } else {
        if j >= n {
            None
        } else {
            sink_id_scan(out, j + 1, in_sinks)
        }
    }
}

// ------------------------------------------------------------------
// wpctl get-volume: muted, or a fixed-point reading scaled to percent
// ------------------------------------------------------------------

/// What one `wpctl get-volume` output yields.
#[derive(Clone, Copy, PartialEq, Eq, Structural, Debug)]
pub enum VolReading {
    /// The sink is muted.
    Muted,
    /// A percentage reading.
    Pct(u32),
    /// No reading could be parsed.
    NoReading,
}

/// The first two fractional digits, scaled to hundredths (the rest is
/// truncation, as scaling a reading like `0.505` to percent truncates).
pub open spec fn frac2(fp: Seq<char>) -> int {
    if fp.len() == 0 {
        0
    } else if fp.len() == 1 {
        digit_val(fp[0]) * 10
    } else {
        digit_val(fp[0]) * 10 + digit_val(fp[1])
    }
}

/// A decimal token such as `0.50`, scaled to percent and truncated; values
/// beyond `u32` saturate.  `None` when the token is not `digits[.digits]`
/// with at least one digit.
pub open spec fn fixed_pct(tok: Seq<char>) -> Option<u32> {
    let d = find_char_idx(tok, 0, '.');
    let ip = tok.subrange(0, d);
    let fp = if d >= tok.len() {
        Seq::<char>::empty()
    } else {
        tok.subrange(d + 1, tok.len() as int)
    };
    if all_digits(ip) && all_digits(fp) && ip.len() + fp.len() >= 1 {
        let v = dec_val(ip) * 100 + frac2(fp);
        if v > u32::MAX {
            Some(u32::MAX)
        } else {
            Some(v as u32)
        }
    } else {
        None
    }
}

/// First whitespace-separated token at or after `i` that reads as a
/// decimal volume, scaled to percent.
pub open spec fn vol_pct_from(s: Seq<char>, i: int) -> Option<u32>
    decreases s.len() - i
        when 0 <= i <= s.len()
{
    let a = skip_ws_idx(s, i);
    if a >= s.len() {
        None
    } else {
        let b = token_end_idx(s, a);
        let tok = s.subrange(a, b);
        if fixed_pct(tok) is Some {
            fixed_pct(tok)
        } else {
            proof {
                lemma_skip_ws_idx(s, i);
                lemma_token_end_idx(s, a);
            }
            vol_pct_from(s, b)
        }
    }
}

/// What `wpctl get-volume` output means: muted beats any reading; then
/// the first token that reads as a decimal, as a percentage.
pub open spec fn wpctl_volume(out: Seq<char>) -> VolReading {
    if has_seq(out, "MUTED"@) {
        VolReading::Muted
    } else {
        match vol_pct_from(out, 0) {
            Some(p) => VolReading::Pct(p),
            None => VolReading::NoReading,
        }
    }
}

fn parse_fixed_pct(tok: &str) -> (r: Option<u32>)
    ensures
        r == fixed_pct(tok@),
{
    let n = tok.unicode_len();
    let d = find_char_pos(tok, 0, '.');
    let ghost ip = tok@.subrange(0, d as int);
    // integer part: saturating decimal accumulation
    let mut acc: u64 = 0;
    let mut sat = false;
    let mut i: usize = 0;
    while i < d
        invariant
            0 <= i <= d <= n,
            n == tok@.len(),
            d as int == find_char_idx(tok@, 0, '.'),
            ip == tok@.subrange(0, d as int),
            all_digits(tok@.subrange(0, i as int)),
            !sat ==> acc == dec_val(tok@.subrange(0, i as int)) && acc <= u32::MAX,
            sat ==> dec_val(tok@.subrange(0, i as int)) > u32::MAX,
        decreases d - i,
    {
        let c = tok.get_char(i);
        let cv = c as u32;
        if cv < 48 || cv > 57 {
            assert(!crate::text::is_digit(tok@[i as int]));
            assert(ip[i as int] == tok@[i as int]);
            assert(!all_digits(ip));
            return None;
        }
        assert(crate::text::is_digit(tok@[i as int]));
        let dgt = (cv - 48) as u64;
        proof {
            lemma_dec_val_extend(tok@, i as int);
            lemma_dec_val_nonneg(tok@.subrange(0, i as int));
        }
        if sat {
        } else {
            let next: u64 = acc * 10 + dgt;
            if next > u32::MAX as u64 {
                sat = true;
            } else {
                acc = next;
            }
        }
        assert(all_digits(tok@.subrange(0, i as int + 1)));
        i = i + 1;
    }
    proof {
        assert(tok@.subrange(0, d as int) =~= ip);
    }
    // fractional part
    let ghost fp = if d as int >= tok@.len() {
        Seq::<char>::empty()
    } else {
        tok@.subrange(d as int + 1, tok@.len() as int)
    };
    let mut f2: u64 = 0;
    if d < n {
        let fstr = tok.substring_char(d + 1, n);
        proof {
            assert(fstr@ =~= fp);
        }
        let fn_ = fstr.unicode_len();
        let mut k: usize = 0;
        while k < fn_
            invariant
                0 <= k <= fn_,
                fn_ == fstr@.len(),
                fstr@ == fp,
                d < n,
                n == tok@.len(),
                d as int == find_char_idx(tok@, 0, '.'),
                fp == tok@.subrange(d as int + 1, tok@.len() as int),
                all_digits(fp.subrange(0, k as int)),
                f2 == frac2_prefix(fp, k as int),
                f2 <= 99,
            decreases fn_ - k,
        {
            let c = fstr.get_char(k);
            let cv = c as u32;
            if cv < 48 || cv > 57 {
                assert(!crate::text::is_digit(fp[k as int]));
                assert(!all_digits(fp));
                return None;
            }
            assert(crate::text::is_digit(fp[k as int]));
            if k == 0 {
                f2 = ((cv - 48) as u64) * 10;
            } else if k == 1 {
                f2 = f2 + (cv - 48) as u64;
            }
            proof {
                assert(all_digits(fp.subrange(0, k as int + 1)));
            }
            k = k + 1;
        }
        proof {
            assert(fp.subrange(0, fn_ as int) =~= fp);
            assert(all_digits(fp));
            assert(f2 == frac2(fp)) by {
                if fp.len() >= 2 {
                    assert(frac2_prefix(fp, fp.len() as int) == frac2(fp));
                }
            }
        }
    } else {
        proof {
            assert(fp =~= Seq::<char>::empty());
        }
    }
    // at least one digit in all
    if d == 0 && d + 1 >= n {
        assert(ip.len() + fp.len() == 0);
        return None;
    }
    proof {
        assert(ip.len() + fp.len() >= 1);
        assert(all_digits(ip));
        assert(all_digits(fp));
    }
    if sat {
        proof {
            lemma_dec_val_nonneg(ip);
            assert(dec_val(ip) * 100 >= dec_val(ip)) by (nonlinear_arith)
                requires dec_val(ip) >= 0;
            assert(frac2(fp) >= 0);
        }
        return Some(u32::MAX);
    }
    let v: u64 = acc * 100 + f2;
    if v > u32::MAX as u64 {
        Some(u32::MAX)
    } else {
        Some(v as u32)
    }
}

/// The two-digit fractional value read from the first `k` characters.
spec fn frac2_prefix(fp: Seq<char>, k: int) -> int {
    if k <= 0 {
        0
    } else if k == 1 || fp.len() == 1 {
        digit_val(fp[0]) * 10
    } else {
        digit_val(fp[0]) * 10 + digit_val(fp[1])
    }
}

fn vol_pct_scan(s: &str, i: usize) -> (r: Option<u32>)
    requires
        i <= s@.len(),
    ensures
        r == vol_pct_from(s@, i as int),
    decreases s@.len() - i,
{
    let n = s.unicode_len();
    let a = find_skip_ws(s, i);
    if a >= n {
        return None;
    }
    proof {
        lemma_skip_ws_idx(s@, i as int);
    }
    let b = find_token_end(s, a);
    proof {
        lemma_token_end_idx(s@, a as int);
    }
    let tok = s.substring_char(a, b);
    match parse_fixed_pct(tok) {
        Some(p) => Some(p),
        None => vol_pct_scan(s, b),
    }
}

/// Parse `wpctl get-volume` output.
pub fn parse_wpctl_volume(out: &str) -> (r: VolReading)
    ensures
        r == wpctl_volume(out@),
{
    if contains_str(out, "MUTED") {
        return VolReading::Muted;
    }
    match vol_pct_scan(out, 0) {
        Some(p) => VolReading::Pct(p),
        None => VolReading::NoReading,
    }
}

// ------------------------------------------------------------------
// pactl info / get-sink-mute / get-sink-volume
// ------------------------------------------------------------------

/// Scan `pactl info` output for the `Default Sink:` line; its value is
/// what stands between the first and second colon, trimmed.
pub open spec fn default_sink_from(out: Seq<char>, i: int) -> Option<Seq<char>>
    decreases out.len() - i
        when 0 <= i <= out.len()
{
    if i >= out.len() {
        None
    } else {
        let j = find_char_idx(out, i, '\n');
        let line = out.subrange(i, j);
        proof {
            lemma_find_char_idx(out, i, '\n');
        }
        if matches_at(line, "Default Sink:"@, 0) {
            let c1 = find_char_idx(line, 0, ':');
            let c2 = find_char_idx(line, c1 + 1, ':');
            Some(trim_spec(line.subrange(c1 + 1, c2)))
        } else if j >= out.len() {
            None
        } else {
            default_sink_from(out, j + 1)
        }
    }
}

/// What `pactl info` names as the default sink.
pub open spec fn pactl_default_sink(out: Seq<char>) -> Option<Seq<char>> {
    default_sink_from(out, 0)
}

fn default_sink_scan(out: &str, i: usize) -> (r: Option<String>)
    requires
        i <= out@.len(),
    ensures
        match r {
            Some(s) => default_sink_from(out@, i as int) == Some(s@),
            None => default_sink_from(out@, i as int) is None,
        },
    decreases out@.len() - i,
{
    let n = out.unicode_len();
    if i >= n {
        return None;
    }
    let j = find_char_pos(out, i, '\n');
    let line = out.substring_char(i, j);
    if starts_with_str(line, "Default Sink:") {
        proof {
            reveal_strlit("Default Sink:");
            assert(line@.subrange(0, 13)[12] == line@[12]);
            assert(line@[12] == ':');
            lemma_find_char_le(line@, 0, 12, ':');
            lemma_find_char_idx(line@, 0, ':');
        }
        let c1 = find_char_pos(line, 0, ':');
        let c2 = find_char_pos(line, c1 + 1, ':');
        let field = line.substring_char(c1 + 1, c2);
        let trimmed = trim_str(field);
        Some(trimmed.to_owned())
    } else if j >= n {
        None
    } else {
        default_sink_scan(out, j + 1)
    }
}

/// Parse `pactl info` output: the default sink's name, if listed.
pub fn parse_pactl_default_sink(out: &str) -> (r: Option<String>)
    ensures
        match r {
            Some(s) => pactl_default_sink(out@) == Some(s@),
            None => pactl_default_sink(out@) is None,
        },
{
    default_sink_scan(out, 0)
}

/// What `pactl get-sink-mute` output means: muted when it says `yes`.
pub open spec fn pactl_muted(out: Seq<char>) -> bool {
    has_seq(out, "yes"@)
}

/// Parse `pactl get-sink-mute` output.
pub fn parse_pactl_muted(out: &str) -> (r: bool)
    ensures
        r == pactl_muted(out@),
{
    contains_str(out, "yes")
}

/// First whitespace-separated token at or after `i` that is a number with
/// trailing percent signs, as its value.
pub open spec fn pct_token_from(s: Seq<char>, i: int) -> Option<u32>
    decreases s.len() - i
        when 0 <= i <= s.len()
{
    let a = skip_ws_idx(s, i);
    if a >= s.len() {
        None
    } else {
        let b = token_end_idx(s, a);
        let tok = s.subrange(a, b);
        if tok.len() >= 1 && tok.last() == '%' && parse_u32_spec(strip_trailing(tok, '%')) is Some {
            parse_u32_spec(strip_trailing(tok, '%'))
        } else {
            proof {
                lemma_skip_ws_idx(s, i);
                lemma_token_end_idx(s, a);
            }
            pct_token_from(s, b)
        }
    }
}

/// What `pactl get-sink-volume` output reads as: the first `NN%` token.
pub open spec fn pactl_volume(out: Seq<char>) -> Option<u32> {
    pct_token_from(out, 0)
}

fn pct_token_scan(s: &str, i: usize) -> (r: Option<u32>)
    requires
        i <= s@.len(),
    ensures
        r == pct_token_from(s@, i as int),
    decreases s@.len() - i,
{
    let n = s.unicode_len();
    let a = find_skip_ws(s, i);
    if a >= n {
        return None;
    }
    proof {
        lemma_skip_ws_idx(s@, i as int);
    }
    let b = find_token_end(s, a);
    proof {
        lemma_token_end_idx(s@, a as int);
    }
    let tok = s.substring_char(a, b);
    let tn = tok.unicode_len();
    if tn >= 1 && tok.get_char(tn - 1) == '%' {
        proof {
            assert(tok@.last() == tok@[tn as int - 1]);
        }
        let stem = strip_trailing_str(tok, '%');
        match parse_u32(stem) {
            Some(v) => {
                return Some(v);
            },
            None => {},
        }
    }
    pct_token_scan(s, b)
}

/// Parse `pactl get-sink-volume` output.
pub fn parse_pactl_volume(out: &str) -> (r: Option<u32>)
    ensures
        r == pactl_volume(out@),
{
    pct_token_scan(out, 0)
}

// ------------------------------------------------------------------
// the reading state machine
// ------------------------------------------------------------------

/// The staged conversation with the audio tools: each state names the
/// command the runner must execute next, or carries the finished reading.
pub enum VolumeQuery {
    /// Run `wpctl status`.
    WpctlStatus,
    /// Run `wpctl get-volume <id>` for this sink id.
    WpctlGetVolume(u32),
    /// Run `pactl info`.
    PactlInfo,
    /// Run `pactl get-sink-mute <name>` for this sink.
    PactlGetMute(String),
    /// Run `pactl get-sink-volume <name>` for this sink.
    PactlGetVolume(String),
    /// The reading is complete: a percentage, or `None` for muted.
    Done(Option<u32>),
}

/// The transition relation of the reading machine: from a state and the
/// named command's output (`None` when the command could not run or
/// failed), to the next state.  Every fruitless path ends in
/// `Done(Some(0))` — the silent default reading.
pub open spec fn volume_step_ok(q: VolumeQuery, out: Option<Seq<char>>, r: VolumeQuery) -> bool {
    match q {
        VolumeQuery::WpctlStatus => match out {
            Some(o) => match wpctl_sink_id(o) {
                Some(id) => r == VolumeQuery::WpctlGetVolume(id),
                None => r == VolumeQuery::PactlInfo,
            },
            None => r == VolumeQuery::PactlInfo,
        },
        VolumeQuery::WpctlGetVolume(_) => match out {
            Some(o) => match wpctl_volume(o) {
                VolReading::Muted => r == VolumeQuery::Done(None),
                VolReading::Pct(p) => r == VolumeQuery::Done(Some(p)),
                VolReading::NoReading => r == VolumeQuery::PactlInfo,
            },
            None => r == VolumeQuery::PactlInfo,
        },
        VolumeQuery::PactlInfo => match out {
            Some(o) => match pactl_default_sink(o) {
                Some(name) => r matches VolumeQuery::PactlGetMute(s) && s@ == name,
                None => r == VolumeQuery::Done(Some(0u32)),
            },
            None => r == VolumeQuery::Done(Some(0u32)),
        },
        VolumeQuery::PactlGetMute(sink) => match out {
            Some(o) => if pactl_muted(o) {
                r == VolumeQuery::Done(None)
            } else {
                r matches VolumeQuery::PactlGetVolume(s) && s@ == sink@
            },
            None => r matches VolumeQuery::PactlGetVolume(s) && s@ == sink@,
        },
        VolumeQuery::PactlGetVolume(_) => match out {
            Some(o) => match pactl_volume(o) {
                Some(p) => r == VolumeQuery::Done(Some(p)),
                None => r == VolumeQuery::Done(Some(0u32)),
            },
            None => r == VolumeQuery::Done(Some(0u32)),
        },
        VolumeQuery::Done(v) => r == VolumeQuery::Done(v),
    }
}

/// Advance the reading machine by one command's outcome.
pub fn volume_step(q: VolumeQuery, out: Option<&str>) -> (r: VolumeQuery)
    ensures
        volume_step_ok(q, opt_view(out), r),
{
    match q {
        VolumeQuery::WpctlStatus => match out {
            Some(o) => match parse_wpctl_sink_id(o) {
                Some(id) => VolumeQuery::WpctlGetVolume(id),
                None => VolumeQuery::PactlInfo,
            },
            None => VolumeQuery::PactlInfo,
        },
        VolumeQuery::WpctlGetVolume(_) => match out {
            Some(o) => match parse_wpctl_volume(o) {
                VolReading::Muted => VolumeQuery::Done(None),
                VolReading::Pct(p) => VolumeQuery::Done(Some(p)),
                VolReading::NoReading => VolumeQuery::PactlInfo,
            },
            None => VolumeQuery::PactlInfo,
        },
        VolumeQuery::PactlInfo => match out {
            Some(o) => match parse_pactl_default_sink(o) {
                Some(name) => VolumeQuery::PactlGetMute(name),
                None => VolumeQuery::Done(Some(0)),
            },
            None => VolumeQuery::Done(Some(0)),
        },
        VolumeQuery::PactlGetMute(sink) => match out {
            Some(o) => {
                if parse_pactl_muted(o) {
                    VolumeQuery::Done(None)
                } else {
                    VolumeQuery::PactlGetVolume(sink)
                }
            },
            None => VolumeQuery::PactlGetVolume(sink),
        },
        VolumeQuery::PactlGetVolume(_) => match out {
            Some(o) => match parse_pactl_volume(o) {
                Some(p) => VolumeQuery::Done(Some(p)),
                None => VolumeQuery::Done(Some(0)),
            },
            None => VolumeQuery::Done(Some(0)),
        },
        VolumeQuery::Done(v) => VolumeQuery::Done(v),
    }
}

// ------------------------------------------------------------------
// the block itself
// ------------------------------------------------------------------

/// The volume block's display text for a finished reading: the format
/// template with `{}` replaced by the percentage, or by `Muted`.
pub open spec fn volume_text(fmt: Seq<char>, reading: Option<u32>) -> Seq<char> {
    match reading {
        Some(p) => subst(fmt, dec_chars(p as int)),
        None => subst(fmt, "Muted"@),
    }
}

/// The volume block: a format template with a `{}` placeholder, a poll
/// interval in whole seconds, and a segment color.
pub struct Volume {
    pub format: String,
    pub interval: u64,
    pub color: u32,
}

impl Volume {
    /// Build the block.  A zero interval is a configuration error and is
    /// rejected before construction.
    pub fn new(format: &str, interval_secs: u64, color: u32) -> (r: Self)
        requires
            interval_secs >= 1,
        ensures
            r.format@ == format@,
            r.interval == interval_secs,
            r.color == color,
    {
        Volume { format: format.to_owned(), interval: interval_secs, color }
    }

    /// The fixed poll interval, in whole seconds.
    pub fn interval(&self) -> (r: u64)
        ensures
            r == self.interval,
    {
        self.interval
    }

    /// The fixed segment color.
    pub fn color(&self) -> (r: u32)
        ensures
            r == self.color,
    {
        self.color
    }

    /// Render a finished reading into the block's template.
    pub fn content_text(&self, reading: Option<u32>) -> (r: String)
        ensures
            r@ == volume_text(self.format@, reading),
    {
        match reading {
            Some(p) => {
                let num = dec_string(p);
                apply_format(self.format.as_str(), num.as_str())
            },
            None => apply_format(self.format.as_str(), "Muted"),
        }
    }

    /// The fallback segment shown while a tick fails: the template applied
    /// to an error placeholder.
    pub fn fallback_text(&self) -> (r: String)
        ensures
            r@ == subst(self.format@, "ERR"@),
    {
        apply_format(self.format.as_str(), "ERR")
    }

    /// The block's entry in the engine's configuration.
    pub fn config(&self) -> (r: BlockConfig)
        ensures
            r.interval_secs == self.interval,
            r.color == self.color,
            r.fallback@ == subst(self.format@, "ERR"@),
    {
        BlockConfig {
            interval_secs: self.interval,
            color: self.color,
            fallback: self.fallback_text(),
        }
    }
}

} // verus!
