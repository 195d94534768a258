//! The wifi block: reads the active SSID through the network manager's
//! command-line tool and renders it into the block's format template.
//!
//! As with the volume block, the conversation with the tool is a state
//! machine (`WifiQuery` / `wifi_step`): the runner executes the command a
//! state names and feeds the output back in; all parsing is verified here.

use vstd::prelude::*;
use vstd::string::*;

use crate::engine::BlockConfig;
use crate::text::{
    apply_format, eq_str, find_char_idx, find_char_pos, lemma_find_char_idx, matches_at,
    opt_view, starts_with_str, subst, trim_spec, trim_str,
};

verus! {

/// Scan `nmcli -t -f ACTIVE,SSID dev wifi` output for the first line of
/// the form `yes:<ssid>` whose ssid field (between the first and second
/// colon), trimmed, is nonempty.
pub open spec fn ssid_from(out: Seq<char>, i: int) -> Option<Seq<char>>
    decreases out.len() - i
        when 0 <= i <= out.len()
{
    if i >= out.len() {
        None
    } else {
        let j = find_char_idx(out, i, '\n');
        let line = out.subrange(i, j);
        proof {
            lemma_find_char_idx(out, i, '\n');
        }
        if matches_at(line, "yes:"@, 0) && trim_spec(
            line.subrange(4, find_char_idx(line, 4, ':')),
        ).len() > 0 {
            Some(trim_spec(line.subrange(4, find_char_idx(line, 4, ':'))))
        } else if j >= out.len() {
            None
        } else {
            ssid_from(out, j + 1)
        }
    }
}

/// The active SSID that the tool's terse listing names, if any.
pub open spec fn nmcli_active_ssid(out: Seq<char>) -> Option<Seq<char>> {
    ssid_from(out, 0)
}

fn ssid_scan(out: &str, i: usize) -> (r: Option<String>)
    requires
        i <= out@.len(),
    ensures
        match r {
            Some(s) => ssid_from(out@, i as int) == Some(s@),
            None => ssid_from(out@, i as int) is None,
        },
    decreases out@.len() - i,
{
    let n = out.unicode_len();
    if i >= n {
        return None;
    }
    let j = find_char_pos(out, i, '\n');
    let line = out.substring_char(i, j);
    if starts_with_str(line, "yes:") {
        proof {
            reveal_strlit("yes:");
        }
        let c2 = find_char_pos(line, 4, ':');
        let field = line.substring_char(4, c2);
        let trimmed = trim_str(field);
        if trimmed.unicode_len() > 0 {
            return Some(trimmed.to_owned());
        }
    }
    if j >= n {
        None
    } else {
        ssid_scan(out, j + 1)
    }
}

/// Parse the terse active-connection listing: the active SSID, if any.
pub fn parse_nmcli_active_ssid(out: &str) -> (r: Option<String>)
    ensures
        match r {
            Some(s) => nmcli_active_ssid(out@) == Some(s@),
            None => nmcli_active_ssid(out@) is None,
        },
{
    ssid_scan(out, 0)
}

/// What the radio-state query means for display: `Disconnected` when the
/// radio is enabled but nothing is connected, `Off` otherwise.
pub open spec fn wifi_state_text(out: Seq<char>) -> Seq<char> {
    if trim_spec(out) == "enabled"@ {
        "Disconnected"@
    } else {
        "Off"@
    }
}

/// Parse `nmcli -t -f WIFI g` output into the display text.
pub fn parse_wifi_state(out: &str) -> (r: String)
    ensures
        r@ == wifi_state_text(out@),
{
    let t = trim_str(out);
    if eq_str(t, "enabled") {
        "Disconnected".to_owned()
    } else {
        "Off".to_owned()
    }
}

/// The staged conversation with the network tool: each state names the
/// command the runner must execute next, or carries the finished text.
pub enum WifiQuery {
    /// Run `nmcli -t -f ACTIVE,SSID dev wifi`.
    NmcliActive,
    /// Run `nmcli -t -f WIFI g`.
    NmcliGeneral,
    /// The reading is complete: the text to display.
    Done(String),
}

/// The transition relation of the wifi reading machine: the active SSID
/// if one is listed; otherwise the radio state; `N/A` when the tool is
/// unavailable.
pub open spec fn wifi_step_ok(q: WifiQuery, out: Option<Seq<char>>, r: WifiQuery) -> bool {
    match q {
        WifiQuery::NmcliActive => match out {
            Some(o) => match nmcli_active_ssid(o) {
                Some(ss) => r matches WifiQuery::Done(s) && s@ == ss,
                None => r == WifiQuery::NmcliGeneral,
            },
            None => r == WifiQuery::NmcliGeneral,
        },
        WifiQuery::NmcliGeneral => match out {
            Some(o) => r matches WifiQuery::Done(s) && s@ == wifi_state_text(o),
            None => r matches WifiQuery::Done(s) && s@ == "N/A"@,
        },
        WifiQuery::Done(v) => r matches WifiQuery::Done(s) && s@ == v@,
    }
}

/// Advance the reading machine by one command's outcome.
pub fn wifi_step(q: WifiQuery, out: Option<&str>) -> (r: WifiQuery)
    ensures
        wifi_step_ok(q, opt_view(out), r),
{
    match q {
        WifiQuery::NmcliActive => match out {
            Some(o) => match parse_nmcli_active_ssid(o) {
                Some(ss) => WifiQuery::Done(ss),
                None => WifiQuery::NmcliGeneral,
            },
            None => WifiQuery::NmcliGeneral,
        },
        WifiQuery::NmcliGeneral => match out {
            Some(o) => WifiQuery::Done(parse_wifi_state(o)),
            None => WifiQuery::Done("N/A".to_owned()),
        },
        WifiQuery::Done(v) => WifiQuery::Done(v),
    }
}

/// The wifi block's display text for a finished reading: the format
/// template with `{}` replaced by the SSID or state text.
pub open spec fn wifi_text(fmt: Seq<char>, ssid: Seq<char>) -> Seq<char> {
    subst(fmt, ssid)
}

/// The wifi block: a format template with a `{}` placeholder, a poll
/// interval in whole seconds, and a segment color.
pub struct Wifi {
    pub format: String,
    pub interval: u64,
    pub color: u32,
}

impl Wifi {
    /// Build the block.  A zero interval is a configuration error and is
    /// rejected before construction.
    pub fn new(format: &str, interval_secs: u64, color: u32) -> (r: Self)
        requires
            interval_secs >= 1,
        ensures
            r.format@ == format@,
            r.interval == interval_secs,
            r.color == color,
    {
        Wifi { format: format.to_owned(), interval: interval_secs, color }
    }

    /// The fixed poll interval, in whole seconds.
    pub fn interval(&self) -> (r: u64)
        ensures
            r == self.interval,
    {
        self.interval
    }

    /// The fixed segment color.
    pub fn color(&self) -> (r: u32)
        ensures
            r == self.color,
    {
        self.color
    }

    /// Render a finished reading into the block's template.
    pub fn content_text(&self, ssid: &str) -> (r: String)
        ensures
            r@ == wifi_text(self.format@, ssid@),
    {
        apply_format(self.format.as_str(), ssid)
    }

    /// The fallback segment shown while a tick fails: the template applied
    /// to an error placeholder.
    pub fn fallback_text(&self) -> (r: String)
        ensures
            r@ == subst(self.format@, "ERR"@),
    {
        apply_format(self.format.as_str(), "ERR")
    }

    /// The block's entry in the engine's configuration.
    pub fn config(&self) -> (r: BlockConfig)
        ensures
            r.interval_secs == self.interval,
            r.color == self.color,
            r.fallback@ == subst(self.format@, "ERR"@),
    {
        BlockConfig {
            interval_secs: self.interval,
            color: self.color,
            fallback: self.fallback_text(),
        }
    }
}

} // verus!
