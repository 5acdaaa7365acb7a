//! Parsing of `lsof -F pcn` output into port listings: a line starting
//! with `p` carries a pid, `c` a command name, and `n` an address whose
//! trailing `:port` is read out. Entries are deduplicated by pid and port
//! and sorted by port.

use vstd::prelude::*;

use crate::ports::{is_digit_char, num_value};
use crate::strutil;

verus! {

/// One process listening on a TCP port.
pub struct PortEntry {
    pub port: u16,
    pub pid: u32,
    pub process_name: String,
    pub protocol: String,
}

/// The abstraction of an entry: port, pid, and name characters.
pub type EntryAbs = (int, int, Seq<char>);

/// Whether the concrete entry carries the abstract one (its protocol is
/// always the literal TCP).
pub open spec fn entry_matches(e: PortEntry, t: EntryAbs) -> bool {
    &&& e.port as int == t.0
    &&& e.pid as int == t.1
    &&& e.process_name@ == t.2
    &&& e.protocol@ == "TCP"@
}

pub open spec fn all_digits_from(l: Seq<char>, from: int) -> bool {
    forall|k: int| from <= k < l.len() ==> is_digit_char(#[trigger] l[k])
}

/// The decimal number covering `l` from `from` to its end, when the
/// whole of it is digits and the value is at most `max`.
pub open spec fn parse_dec(l: Seq<char>, from: int, max: int) -> Option<int> {
    if l.len() <= from || !all_digits_from(l, from) {
        None
    } else if num_value(l, from, l.len() - from) <= max {
        Some(num_value(l, from, l.len() - from))
    } else {
        None
    }
}

/// The index of the first newline at or after `i`, or the end.
pub open spec fn line_end(s: Seq<char>, i: int) -> int
    decreases s.len() - i,
    when 0 <= i <= s.len()
{
    if i >= s.len() || s[i] == '\n' {
        i
    } else {
        line_end(s, i + 1)
    }
}

/// The port written after the last `:` of an address such as `*:3000`,
/// `127.0.0.1:8080` or `[::1]:5173`; the whole address when it has no
/// `:` at all.
pub open spec fn last_colon_start(l: Seq<char>) -> int
    decreases l.len(),
{
    if l.len() == 0 {
        0
    } else if l.last() == ':' {
        l.len() as int
    } else {
        last_colon_start(l.drop_last())
    }
}

pub open spec fn addr_port(l: Seq<char>) -> Option<int> {
    parse_dec(l, last_colon_start(l), 65535)
}

/// Whether `acc` already carries an entry with this pid and port.
pub open spec fn has_dup(acc: Seq<EntryAbs>, port: int, pid: int) -> bool {
    exists|j: int| 0 <= j < acc.len() && (#[trigger] acc[j]).0 == port && acc[j].1 == pid
}

/// The lsof line machine, one step per line: `p` lines set (or, when
/// unparsable, clear) the current pid, `c` lines set the current name,
/// and an `n` line whose address yields a port adds an entry when both
/// are known and no entry with that pid and port exists yet.
pub open spec fn lsof_step(
    pid: Option<int>,
    name: Option<Seq<char>>,
    acc: Seq<EntryAbs>,
    l: Seq<char>,
) -> (Option<int>, Option<Seq<char>>, Seq<EntryAbs>) {
    if l.len() > 0 && l[0] == 'p' {
        (parse_dec(l.skip(1), 0, 0xffff_ffff), name, acc)
    } else if l.len() > 0 && l[0] == 'c' {
        (pid, Some(l.skip(1)), acc)
    } else if l.len() > 0 && l[0] == 'n' && pid is Some && name is Some {
        match addr_port(l.skip(1)) {
            Some(port) => {
                if has_dup(acc, port, pid->0) {
                    (pid, name, acc)
                } else {
                    (pid, name, acc.push((port, pid->0, name->0)))
                }
            }
            None => (pid, name, acc),
        }
    } else {
        (pid, name, acc)
    }
}

/// Run the machine over the text from position `i`, one line at a time.
pub open spec fn lsof_run(
    s: Seq<char>,
    i: int,
    pid: Option<int>,
    name: Option<Seq<char>>,
    acc: Seq<EntryAbs>,
) -> Seq<EntryAbs>
    decreases s.len() - i,
    when 0 <= i <= s.len()
    via lsof_run_dec
{
    if i >= s.len() {
        acc
    } else {
        let e = line_end(s, i);
        let st = lsof_step(pid, name, acc, s.subrange(i, e));
        if e == s.len() {
            st.2
        } else {
            lsof_run(s, e + 1, st.0, st.1, st.2)
        }
    }
}

proof fn lemma_line_end_bounds(s: Seq<char>, i: int)
    requires
        0 <= i <= s.len(),
    ensures
        i <= line_end(s, i) <= s.len(),
        line_end(s, i) < s.len() ==> s[line_end(s, i)] == '\n',
        forall|k: int| i <= k < line_end(s, i) ==> #[trigger] s[k] != '\n',
    decreases s.len() - i,
{
    if i < s.len() && s[i] != '\n' {
        lemma_line_end_bounds(s, i + 1);
    }
}

#[via_fn]
proof fn lsof_run_dec(
    s: Seq<char>,
    i: int,
    pid: Option<int>,
    name: Option<Seq<char>>,
    acc: Seq<EntryAbs>,
) {
    if i < s.len() {
        lemma_line_end_bounds(s, i);
    }
}

/// Insert an entry after every earlier entry whose port is at most its
/// own: the insertion step of a stable sort by port.
pub open spec fn insert_by_port(s: Seq<EntryAbs>, e: EntryAbs) -> Seq<EntryAbs>
    decreases s.len(),
{
    if s.len() == 0 {
        seq![e]
    } else if s.last().0 <= e.0 {
        s.push(e)
    } else {
        insert_by_port(s.drop_last(), e).push(s.last())
    }
}

/// The stable sort of the entries by port.
pub open spec fn sort_by_port(s: Seq<EntryAbs>) -> Seq<EntryAbs>
    decreases s.len(),
{
    if s.len() == 0 {
        s
    } else {
        insert_by_port(sort_by_port(s.drop_last()), s.last())
    }
}

/// What `parse_lsof_output` returns, abstractly: the machine's entries,
/// stably sorted by port.
pub open spec fn lsof_ports(s: Seq<char>) -> Seq<EntryAbs> {
    sort_by_port(lsof_run(s, 0, None, None, Seq::empty()))
}

proof fn lemma_num_value_nonneg(s: Seq<char>, i: int, n: int)
    requires
        n >= 0,
        forall|k: int| 0 <= k < n ==> is_digit_char(#[trigger] s[i + k]),
    ensures
        num_value(s, i, n) >= 0,
    decreases n,
{
    if n > 0 {
        lemma_num_value_nonneg(s, i, n - 1);
        assert(is_digit_char(s[i + (n - 1)]));
    }
}

/// Parse the decimal number covering `l` from `from` to the end,
/// refusing values above `max`.
pub(crate) fn parse_dec_exec(l: &Vec<char>, from: usize, max: u64) -> (r: Option<u64>)
    requires
        from <= l@.len(),
        max <= 0xffff_ffff,
    ensures
        r is None <==> parse_dec(l@, from as int, max as int) is None,
        r matches Some(v) ==> parse_dec(l@, from as int, max as int) == Some(v as int),
{
    let n = l.len();
    if from == n {
        return None;
    }
    let mut k: usize = from;
    let mut val: u64 = 0;
    let mut big: bool = false;
    while k < n
        invariant
            n == l@.len(),
            from <= k <= n,
            from < n,
            max <= 0xffff_ffff,
            forall|j: int| from <= j < k ==> is_digit_char(#[trigger] l@[j]),
            !big ==> val as int == num_value(l@, from as int, k - from),
            !big ==> val <= max,
            big ==> num_value(l@, from as int, k - from) > max,
        decreases n - k,
    {
        let c = l[k];
        if c < '0' || c > '9' {
            return None;
        }
        let d = c as u64 - 48;
        proof {
            assert(num_value(l@, from as int, (k + 1) - from) == num_value(
                l@,
                from as int,
                k - from,
            ) * 10 + (c as int - 48));
            if big {
                lemma_num_value_nonneg(l@, from as int, k - from);
            }
        }
        if !big {
            val = val * 10 + d;
            if val > max {
                big = true;
            }
        }
        k = k + 1;
    }
    if big {
        None
    } else {
        proof {
            assert(all_digits_from(l@, from as int));
        }
        Some(val)
    }
}

/// The start of the text after the last `:` of the address.
pub(crate) fn last_colon_exec(l: &Vec<char>) -> (r: usize)
    ensures
        r as int == last_colon_start(l@),
        r <= l@.len(),
{
    let mut k: usize = l.len();
    proof {
        assert(l@.take(l@.len() as int) =~= l@);
    }
    while k > 0
        invariant
            k <= l@.len(),
            last_colon_start(l@) == last_colon_start(l@.take(k as int)),
        decreases k,
    {
        proof {
            assert(l@.take(k as int).last() == l@[k - 1]);
            assert(l@.take(k as int).drop_last() =~= l@.take(k as int - 1));
        }
        if l[k - 1] == ':' {
            return k;
        }
        k = k - 1;
    }
    proof {
        assert(l@.take(0) =~= Seq::<char>::empty());
    }
    0
}

fn entry_is_dup(acc: &Vec<PortEntry>, Ghost(abs): Ghost<Seq<EntryAbs>>, port: u16, pid: u32) -> (r:
    bool)
    requires
        abs.len() == acc@.len(),
        forall|j: int| 0 <= j < acc@.len() ==> entry_matches(#[trigger] acc@[j], abs[j]),
    ensures
        r == has_dup(abs, port as int, pid as int),
{
    let mut j: usize = 0;
    while j < acc.len()
        invariant
            abs.len() == acc@.len(),
            j <= acc@.len(),
            forall|m: int| 0 <= m < acc@.len() ==> entry_matches(#[trigger] acc@[m], abs[m]),
            forall|m: int| 0 <= m < j ==> !((#[trigger] abs[m]).0 == port as int && abs[m].1
                == pid as int),
        decreases acc@.len() - j,
    {
        if acc[j].port == port && acc[j].pid == pid {
            return true;
        }
        j = j + 1;
    }
    false
}

/// Place `e` before the trailing run of strictly greater ports.
proof fn lemma_insert_by_port_at(s: Seq<EntryAbs>, e: EntryAbs, pos: int)
    requires
        0 <= pos <= s.len(),
        forall|m: int| pos <= m < s.len() ==> (#[trigger] s[m]).0 > e.0,
        pos > 0 ==> s[pos - 1].0 <= e.0,
    ensures
        insert_by_port(s, e) == s.insert(pos, e),
    decreases s.len(),
{
    if s.len() == 0 {
        assert(s.insert(0, e) =~= seq![e]);
    } else if pos == s.len() {
        assert(s.last().0 <= e.0);
        assert(s.insert(pos, e) =~= s.push(e));
    } else {
        assert(s.last().0 > e.0);
        assert(forall|m: int|
            pos <= m < s.drop_last().len() ==> (#[trigger] s.drop_last()[m]).0 > e.0);
        lemma_insert_by_port_at(s.drop_last(), e, pos);
        assert(s.drop_last().insert(pos, e).push(s.last()) =~= s.insert(pos, e));
    }
}

/// Sort the entries by port, stable, mirroring `sort_by_port`.
fn sort_entries(v: Vec<PortEntry>, Ghost(abs): Ghost<Seq<EntryAbs>>) -> (r: Vec<PortEntry>)
    requires
        abs.len() == v@.len(),
        forall|j: int| 0 <= j < v@.len() ==> entry_matches(#[trigger] v@[j], abs[j]),
    ensures
        r@.len() == sort_by_port(abs).len(),
        forall|j: int|
            0 <= j < r@.len() ==> entry_matches(#[trigger] r@[j], sort_by_port(abs)[j]),
{
    let mut input = v;
    let mut out: Vec<PortEntry> = Vec::new();
    let ghost mut out_abs: Seq<EntryAbs> = Seq::empty();
    let ghost n = abs.len();

    while input.len() > 0
        invariant
            abs.len() == n,
            input@.len() <= n,
            forall|j: int|
                0 <= j < input@.len() ==> entry_matches(
                    #[trigger] input@[j],
                    abs[n - input@.len() + j],
                ),
            out_abs == sort_by_port(abs.take(n - input@.len())),
            out@.len() == out_abs.len(),
            forall|j: int| 0 <= j < out@.len() ==> entry_matches(#[trigger] out@[j], out_abs[j]),
            forall|a: int, b: int| 0 <= a < b < out_abs.len() ==> (#[trigger] out_abs[a]).0 <= (
            #[trigger] out_abs[b]).0,
        decreases input@.len(),
    {
        let ghost done = n - input@.len();
        let ghost prev_in = input@;
        let e = input.remove(0);
        let ghost e_abs = abs[done];
        proof {
            assert(input@ =~= prev_in.skip(1));
        }

        let mut pos: usize = out.len();
        while pos > 0 && out[pos - 1].port > e.port
            invariant
                pos <= out@.len(),
                out@.len() == out_abs.len(),
                forall|j: int|
                    0 <= j < out@.len() ==> entry_matches(#[trigger] out@[j], out_abs[j]),
                entry_matches(e, e_abs),
                forall|m: int| pos <= m < out_abs.len() ==> (#[trigger] out_abs[m]).0 > e_abs.0,
            decreases pos,
        {
            pos = pos - 1;
        }
        proof {
            lemma_insert_by_port_at(out_abs, e_abs, pos as int);
            out_abs.insert_ensures(pos as int, e_abs);
        }
        out.insert(pos, e);
        proof {
            out_abs = out_abs.insert(pos as int, e_abs);
            assert(abs.take(done + 1) =~= abs.take(done).push(e_abs));
            assert(sort_by_port(abs.take(done + 1)) == insert_by_port(
                sort_by_port(abs.take(done)),
                e_abs,
            )) by {
                assert(abs.take(done + 1).drop_last() =~= abs.take(done));
                assert(abs.take(done + 1).last() == e_abs);
            }
        }
    }
    proof {
        assert(abs.take(n as int) =~= abs);
    }
    out
}

/// Parse `lsof -F pcn` output: one entry per pid/port pair seen, in
/// ascending port order (stable on ties), each carrying the command name
/// last announced for its pid and the TCP protocol tag.
pub fn parse_lsof_output(output: &str) -> (r: Vec<PortEntry>)
    ensures
        r@.len() == lsof_ports(output@).len(),
        forall|j: int|
            0 <= j < r@.len() ==> entry_matches(#[trigger] r@[j], lsof_ports(output@)[j]),
{
    let s = strutil::str_chars(output);
    let n = s.len();

    let mut entries: Vec<PortEntry> = Vec::new();
    let ghost mut entries_abs: Seq<EntryAbs> = Seq::empty();
    let mut cur_pid: Option<u32> = None;
    let mut cur_name: Option<Vec<char>> = None;
    let ghost mut pid_abs: Option<int> = None;
    let ghost mut name_abs: Option<Seq<char>> = None;

    let mut i: usize = 0;

    while i < n
        invariant
            n == s@.len(),
            i <= n,
            pid_abs == (match cur_pid {
                Some(p) => Some(p as int),
                None => None::<int>,
            }),
            name_abs == (match cur_name {
                Some(ref v) => Some(v@),
                None => None::<Seq<char>>,
            }),
            entries_abs.len() == entries@.len(),
            forall|j: int|
                0 <= j < entries@.len() ==> entry_matches(#[trigger] entries@[j], entries_abs[j]),
            lsof_run(s@, 0, None, None, Seq::empty()) == lsof_run(
                s@,
                i as int,
                pid_abs,
                name_abs,
                entries_abs,
            ),
        decreases n - i,
    {
        proof {
            lemma_line_end_bounds(s@, i as int);
        }
        // find the end of this line
        let mut e: usize = i;
        while e < n && s[e] != '\n'
            invariant
                n == s@.len(),
                i <= e <= n,
                forall|k: int| i <= k < e ==> #[trigger] s@[k] != '\n',
            decreases n - e,
        {
            e = e + 1;
        }
        proof {
            assert(line_end(s@, i as int) == e as int) by {
                lemma_line_end_is(s@, i as int, e as int);
            }
        }
        let ghost line = s@.subrange(i as int, e as int);
        let ghost st = lsof_step(pid_abs, name_abs, entries_abs, line);

        if e > i {
            let tag = s[i];
            if tag == 'p' {
                // pid line
                let parsed = parse_dec_exec_slice(&s, i + 1, e, 0xffff_ffff);
                proof {
                    assert(line.len() > 0 && line[0] == 'p');
                    assert(s@.subrange(i as int + 1, e as int) =~= line.skip(1));
                }
                match parsed {
                    Some(p) => {
                        cur_pid = Some(p as u32);
                        proof {
                            pid_abs = Some(p as int);
                        }
                    }
                    None => {
                        cur_pid = None;
                        proof {
                            pid_abs = None;
                        }
                    }
                }
            } else if tag == 'c' {
                let mut namev: Vec<char> = Vec::new();
                let mut k: usize = i + 1;
                while k < e
                    invariant
                        n == s@.len(),
                        i + 1 <= k <= e <= n,
                        namev@ =~= s@.subrange(i as int + 1, k as int),
                    decreases e - k,
                {
                    namev.push(s[k]);
                    k = k + 1;
                }
                proof {
                    assert(namev@ =~= line.skip(1));
                    name_abs = Some(namev@);
                }
                cur_name = Some(namev);
            } else if tag == 'n' {
                let pid_now = match &cur_pid {
                    Some(p) => Some(*p),
                    None => None,
                };
                match pid_now {
                    Some(pid) => {
                        match &cur_name {
                            Some(namev) => {
                                // the address is line[1..]; find its port
                                let mut addr: Vec<char> = Vec::new();
                                let mut k: usize = i + 1;
                                while k < e
                                    invariant
                                        n == s@.len(),
                                        i + 1 <= k <= e <= n,
                                        addr@ =~= s@.subrange(i as int + 1, k as int),
                                    decreases e - k,
                                {
                                    addr.push(s[k]);
                                    k = k + 1;
                                }
                                proof {
                                    assert(addr@ =~= line.skip(1));
                                }
                                let start = last_colon_exec(&addr);
                                let port = parse_dec_exec(&addr, start, 65535);
                                match port {
                                    Some(port) => {
                                        let port16 = port as u16;
                                        let dup = entry_is_dup(
                                            &entries,
                                            Ghost(entries_abs),
                                            port16,
                                            pid,
                                        );
                                        if !dup {
                                            let name_str = strutil::chars_string(namev);
                                            entries.push(
                                                PortEntry {
                                                    port: port16,
                                                    pid,
                                                    process_name: name_str,
                                                    protocol: "TCP".to_owned(),
                                                },
                                            );
                                            proof {
                                                entries_abs = entries_abs.push(
                                                    (port as int, pid as int, namev@),
                                                );
                                            }
                                        }
                                    }
                                    None => {}
                                }
                            }
                            None => {}
                        }
                    }
                    None => {}
                }
            }
        }
        proof {
            assert(pid_abs == st.0);
            assert(name_abs == st.1);
            assert(entries_abs == st.2);
        }
        if e == n {
            i = n;
        } else {
            i = e + 1;
        }
    }

    sort_entries(entries, Ghost(entries_abs))
}

proof fn lemma_line_end_is(s: Seq<char>, i: int, e: int)
    requires
        0 <= i <= e <= s.len(),
        forall|k: int| i <= k < e ==> #[trigger] s[k] != '\n',
        e == s.len() || s[e] == '\n',
    ensures
        line_end(s, i) == e,
    decreases e - i,
{
    if i < e {
        lemma_line_end_is(s, i + 1, e);
    }
}

/// Parse a decimal number out of `s[from..to]`, as `parse_dec_exec` does
/// for a whole vector.
pub(crate) fn parse_dec_exec_slice(s: &Vec<char>, from: usize, to: usize, max: u64) -> (r: Option<u64>)
    requires
        from <= to <= s@.len(),
        max <= 0xffff_ffff,
    ensures
        r is None <==> parse_dec(s@.subrange(from as int, to as int), 0, max as int) is None,
        r matches Some(v) ==> parse_dec(s@.subrange(from as int, to as int), 0, max as int)
            == Some(v as int),
{
    let mut piece: Vec<char> = Vec::new();
    let mut k: usize = from;
    while k < to
        invariant
            from <= k <= to <= s@.len(),
            piece@ =~= s@.subrange(from as int, k as int),
        decreases to - k,
    {
        piece.push(s[k]);
        k = k + 1;
    }
    proof {
        assert(piece@ =~= s@.subrange(from as int, to as int));
    }
    parse_dec_exec(&piece, 0, max)
}

/// The port named after the last `:` of an address such as `*:3000` or
/// `[::1]:5173`; nothing when what follows is not a port number.
pub fn extract_port_from_addr(addr: &str) -> (r: Option<u16>)
    ensures
        (match addr_port(addr@) {
            Some(p) => r == Some(p as u16),
            None => r is None,
        }),
{
    let cs = strutil::str_chars(addr);
    let start = last_colon_exec(&cs);
    match parse_dec_exec(&cs, start, 65535) {
        Some(v) => Some(v as u16),
        None => None,
    }
}

} // verus!
