//! The port-killer view: a filterable listing of processes listening on
//! TCP ports, with a selection cursor. The OS scan itself happens outside;
//! this state machine only receives its results.

use vstd::prelude::*;

use crate::lsof;
use crate::lsof::PortEntry;
use crate::ports::is_digit_char;
use crate::strutil;
use vstd::string::StringExecFns;

verus! {

/// Characters accepted into the port filter: digits, commas and spaces.
pub open spec fn is_filter_char(c: char) -> bool {
    is_digit_char(c) || c == ',' || c == ' '
}

/// How often (in seconds) the listing is refreshed at most.
pub const REFRESH_SECS: u64 = 3;

pub struct PortKiller {
    pub port_input: String,
    pub selected: usize,
    entries: Vec<PortEntry>,
}

impl PortKiller {
    pub closed spec fn spec_entries(&self) -> Seq<PortEntry> {
        self.entries@
    }

    pub closed spec fn spec_input(&self) -> Seq<char> {
        self.port_input@
    }

    pub closed spec fn spec_selected(&self) -> usize {
        self.selected
    }

    pub fn new() -> (r: Self)
        ensures
            r.spec_input() == Seq::<char>::empty(),
            r.spec_selected() == 0,
            r.spec_entries() == Seq::<PortEntry>::empty(),
    {
        PortKiller { port_input: String::new(), selected: 0, entries: Vec::new() }
    }

    /// Replace the listing with the results of a fresh scan, pulling the
    /// selection back onto the last entry when it would fall off the end
    /// of a non-empty listing.
    pub fn refresh(&mut self, entries: Vec<PortEntry>)
        ensures
            final(self).spec_entries() == entries@,
            final(self).spec_input() == old(self).spec_input(),
            final(self).spec_selected() == if old(self).spec_selected() >= entries@.len()
                && entries@.len() > 0 {
                (entries@.len() - 1) as usize
            } else {
                old(self).spec_selected()
            },
    {
        self.entries = entries;
        if self.selected >= self.entries.len() && self.entries.len() > 0 {
            self.selected = self.entries.len() - 1;
        }
    }

    /// Refresh only when at least the refresh interval has elapsed since
    /// the last scan; reports whether the results were taken.
    pub fn maybe_refresh(&mut self, elapsed_secs: u64, entries: Vec<PortEntry>) -> (refreshed:
        bool)
        ensures
            refreshed == (elapsed_secs >= REFRESH_SECS),
            !refreshed ==> *final(self) == *old(self),
            refreshed ==> final(self).spec_entries() == entries@ && final(self).spec_input()
                == old(self).spec_input(),
    {
        if elapsed_secs >= REFRESH_SECS {
            self.refresh(entries);
            true
        } else {
            false
        }
    }

    /// Accept one filter character (a digit, comma or space); anything
    /// else is ignored. Typing resets the selection.
    pub fn type_char(&mut self, c: char) -> (accepted: bool)
        ensures
            accepted == is_filter_char(c),
            accepted ==> final(self).spec_input() == old(self).spec_input().push(c)
                && final(self).spec_selected() == 0 && final(self).spec_entries() == old(
                self,
            ).spec_entries(),
            !accepted ==> *final(self) == *old(self),
    {
        if ('0' <= c && c <= '9') || c == ',' || c == ' ' {
            let mut one: Vec<char> = Vec::new();
            one.push(c);
            let tail = strutil::chars_string(&one);
            self.port_input.append(tail.as_str());
            self.selected = 0;
            proof {
                assert(one@ =~= seq![c]);
                assert(self.spec_input() =~= old(self).spec_input().push(c));
            }
            true
        } else {
            false
        }
    }

    /// Drop the last filter character, if any. Resets the selection.
    pub fn backspace(&mut self)
        ensures
            final(self).spec_input() == if old(self).spec_input().len() > 0 {
                old(self).spec_input().drop_last()
            } else {
                old(self).spec_input()
            },
            final(self).spec_selected() == 0,
            final(self).spec_entries() == old(self).spec_entries(),
    {
        let cs = strutil::str_chars(self.port_input.as_str());
        let mut shorter: Vec<char> = Vec::new();
        if cs.len() > 0 {
            let lim = cs.len() - 1;
            let mut k: usize = 0;
            while k < lim
                invariant
                    cs@ == old(self).spec_input(),
                    lim == cs@.len() - 1,
                    k <= lim,
                    shorter@ =~= cs@.take(k as int),
                decreases lim - k,
            {
                shorter.push(cs[k]);
                k = k + 1;
            }
            proof {
                assert(shorter@ =~= cs@.drop_last());
            }
        }
        self.port_input = strutil::chars_string(&shorter);
        self.selected = 0;
    }

    /// Empty the filter. Resets the selection.
    pub fn clear_input(&mut self)
        ensures
            final(self).spec_input() == Seq::<char>::empty(),
            final(self).spec_selected() == 0,
            final(self).spec_entries() == old(self).spec_entries(),
    {
        self.port_input = String::new();
        self.selected = 0;
    }

    /// Move the selection down, wrapping to the top.
    pub fn select_next(&mut self)
        ensures
            final(self).spec_entries() == old(self).spec_entries(),
            final(self).spec_input() == old(self).spec_input(),
            old(self).spec_entries().len() == 0 ==> *final(self) == *old(self),
            old(self).spec_entries().len() > 0 ==> final(self).spec_selected() as int == (if old(
                self,
            ).spec_selected() as int + 1 >= old(self).spec_entries().len() {
                0int
            } else {
                old(self).spec_selected() as int + 1
            }),
    {
        let len = self.entries.len();
        if len > 0 {
            if self.selected >= len - 1 {
                self.selected = 0;
            } else {
                self.selected = self.selected + 1;
            }
        }
    }

    /// Move the selection up, wrapping to the bottom.
    pub fn select_prev(&mut self)
        ensures
            final(self).spec_entries() == old(self).spec_entries(),
            final(self).spec_input() == old(self).spec_input(),
            old(self).spec_entries().len() == 0 ==> *final(self) == *old(self),
            old(self).spec_entries().len() > 0 ==> final(self).spec_selected() as int == (if old(
                self,
            ).spec_selected() == 0 {
                old(self).spec_entries().len() - 1
            } else {
                old(self).spec_selected() as int - 1
            }),
    {
        let len = self.entries.len();
        if len > 0 {
            if self.selected == 0 {
                self.selected = len - 1;
            } else {
                self.selected = self.selected - 1;
            }
        }
    }

    /// The pid of the selected entry, when the selection is in range.
    pub fn selected_pid(&self) -> (r: Option<u32>)
        ensures
            self.spec_selected() < self.spec_entries().len() ==> r == Some(
                self.spec_entries()[self.spec_selected() as int].pid,
            ),
            self.spec_selected() >= self.spec_entries().len() ==> r is None,
    {
        if self.selected < self.entries.len() {
            Some(self.entries[self.selected].pid)
        } else {
            None
        }
    }

    pub fn entries(&self) -> (r: &Vec<PortEntry>)
        ensures
            r@ == self.spec_entries(),
    {
        &self.entries
    }
}

/// A separator in the port filter: comma or space.
pub open spec fn is_sep_char(c: char) -> bool {
    c == ',' || c == ' '
}

/// The index of the first separator at or after `i`, or the end.
pub open spec fn token_end(s: Seq<char>, i: int) -> int
    decreases s.len() - i,
    when 0 <= i <= s.len()
{
    if i >= s.len() || is_sep_char(s[i]) {
        i
    } else {
        token_end(s, i + 1)
    }
}

proof fn lemma_token_end_bounds(s: Seq<char>, i: int)
    requires
        0 <= i <= s.len(),
    ensures
        i <= token_end(s, i) <= s.len(),
    decreases s.len() - i,
{
    if i < s.len() && !is_sep_char(s[i]) {
        lemma_token_end_bounds(s, i + 1);
    }
}

proof fn lemma_token_end_is(s: Seq<char>, i: int, e: int)
    requires
        0 <= i <= e <= s.len(),
        forall|k: int| i <= k < e ==> !is_sep_char(#[trigger] s[k]),
        e == s.len() || is_sep_char(s[e]),
    ensures
        token_end(s, i) == e,
    decreases e - i,
{
    if i < e {
        lemma_token_end_is(s, i + 1, e);
    }
}

/// The port numbers named in the filter from position `i` on: each
/// token between commas and spaces that is all digits and at most
/// 65535, in order.
pub open spec fn filter_ports(s: Seq<char>, i: int) -> Seq<int>
    decreases s.len() - i,
    when 0 <= i <= s.len()
    via filter_ports_dec
{
    if i >= s.len() {
        Seq::empty()
    } else {
        let e = token_end(s, i);
        let head = lsof::parse_dec(s.subrange(i, e), 0, 65535);
        let rest = if e == s.len() {
            Seq::<int>::empty()
        } else {
            filter_ports(s, e + 1)
        };
        match head {
            Some(v) => seq![v] + rest,
            None => rest,
        }
    }
}

#[via_fn]
proof fn filter_ports_dec(s: Seq<char>, i: int) {
    if i < s.len() {
        lemma_token_end_bounds(s, i);
    }
}

/// Read the filter into port numbers, token by token.
pub fn parse_port_filter(filter: &str) -> (r: Vec<u16>)
    ensures
        r@.len() == filter_ports(filter@, 0).len(),
        forall|k: int|
            0 <= k < r@.len() ==> r@[k] as int == filter_ports(filter@, 0)[k],
{
    let s = strutil::str_chars(filter);
    let n = s.len();
    let mut out: Vec<u16> = Vec::new();
    let mut i: usize = 0;
    while i < n
        invariant
            n == s@.len(),
            i <= n,
            out@.map_values(|x: u16| x as int) + filter_ports(s@, i as int) == filter_ports(
                s@,
                0,
            ),
        decreases n - i,
    {
        let mut e: usize = i;
        while e < n && !(s[e] == ',' || s[e] == ' ')
            invariant
                n == s@.len(),
                i <= e <= n,
                forall|k: int| i <= k < e ==> !is_sep_char(#[trigger] s@[k]),
            decreases n - e,
        {
            e = e + 1;
        }
        proof {
            lemma_token_end_is(s@, i as int, e as int);
        }
        let ghost before = out@;
        match lsof::parse_dec_exec_slice(&s, i, e, 65535) {
            Some(v) => {
                out.push(v as u16);
                proof {
                    assert(out@.map_values(|x: u16| x as int) =~= before.map_values(
                        |x: u16| x as int,
                    ) + seq![v as int]);
                }
            }
            None => {}
        }
        if e == n {
            i = n;
        } else {
            i = e + 1;
        }
    }
    proof {
        assert(filter_ports(s@, i as int) =~= Seq::<int>::empty());
        assert(out@.map_values(|x: u16| x as int) + Seq::<int>::empty() =~= out@.map_values(
            |x: u16| x as int,
        ));
    }
    out
}

} // verus!
