//! Heuristic extraction of network ports from a process configuration:
//! the explicitly declared port, plus ports read out of the command string
//! from `--port N` / `--PORT N` / `-p N` flags, `PORT=N` assignments, and
//! `localhost:N` references. A port between 2 and 5 digits long is
//! recognised; scanned ports below 80 are discarded as noise.

use vstd::prelude::*;

use crate::strutil;
use crate::types::ProcessConfig;

verus! {

pub open spec fn is_digit_char(c: char) -> bool {
    '0' <= c && c <= '9'
}

pub open spec fn is_space_char(c: char) -> bool {
    c == ' ' || c == '\t' || c == '\n' || c == '\r' || c == '\x0b' || c == '\x0c'
}

pub open spec fn digit_val(c: char) -> int {
    c as int - '0' as int
}

/// Length of the whitespace run starting at `i`.
pub open spec fn spaces_at(s: Seq<char>, i: int) -> int
    decreases s.len() - i,
    when 0 <= i <= s.len()
{
    if i >= s.len() || !is_space_char(s[i]) {
        0
    } else {
        1 + spaces_at(s, i + 1)
    }
}

/// Length of the digit run starting at `i`, reading at most `cap` digits.
pub open spec fn digits_at(s: Seq<char>, i: int, cap: int) -> int
    decreases cap,
    when cap >= 0
{
    if cap == 0 || i < 0 || i >= s.len() || !is_digit_char(s[i]) {
        0
    } else {
        1 + digits_at(s, i + 1, cap - 1)
    }
}

/// Numeric value of the `n` digits starting at `i`.
pub open spec fn num_value(s: Seq<char>, i: int, n: int) -> int
    decreases n,
    when n >= 0
{
    if n <= 0 {
        0
    } else {
        num_value(s, i, n - 1) * 10 + digit_val(s[i + n - 1])
    }
}

proof fn lemma_spaces_at_bounds(s: Seq<char>, i: int)
    requires
        0 <= i <= s.len(),
    ensures
        0 <= spaces_at(s, i),
        i + spaces_at(s, i) <= s.len(),
    decreases s.len() - i,
{
    if i < s.len() && is_space_char(s[i]) {
        lemma_spaces_at_bounds(s, i + 1);
    }
}

proof fn lemma_spaces_at_is(s: Seq<char>, i: int, w: int)
    requires
        0 <= i <= s.len(),
        0 <= w,
        i + w <= s.len(),
        forall|k: int| 0 <= k < w ==> is_space_char(#[trigger] s[i + k]),
        i + w == s.len() || !is_space_char(s[i + w]),
    ensures
        spaces_at(s, i) == w,
    decreases w,
{
    if w > 0 {
        assert(is_space_char(s[i + 0]));
        assert forall|k: int| 0 <= k < w - 1 implies is_space_char(#[trigger] s[i + 1 + k]) by {
            assert(is_space_char(s[i + (k + 1)]));
        }
        lemma_spaces_at_is(s, i + 1, w - 1);
    }
}

proof fn lemma_digits_at_bounds(s: Seq<char>, i: int, cap: int)
    requires
        0 <= i <= s.len(),
        0 <= cap,
    ensures
        0 <= digits_at(s, i, cap) <= cap,
        i + digits_at(s, i, cap) <= s.len(),
    decreases cap,
{
    if cap > 0 && i < s.len() && is_digit_char(s[i]) {
        lemma_digits_at_bounds(s, i + 1, cap - 1);
    }
}

proof fn lemma_digits_at_is(s: Seq<char>, i: int, cap: int, d: int)
    requires
        0 <= i <= s.len(),
        0 <= d <= cap,
        i + d <= s.len(),
        forall|k: int| 0 <= k < d ==> is_digit_char(#[trigger] s[i + k]),
        d < cap ==> (i + d == s.len() || !is_digit_char(s[i + d])),
    ensures
        digits_at(s, i, cap) == d,
    decreases d,
{
    if d > 0 {
        assert(is_digit_char(s[i + 0]));
        assert forall|k: int| 0 <= k < d - 1 implies is_digit_char(#[trigger] s[i + 1 + k]) by {
            assert(is_digit_char(s[i + (k + 1)]));
        }
        lemma_digits_at_is(s, i + 1, cap - 1, d - 1);
    }
}

/// The three shapes of port mention recognised in a command string.
#[derive(Clone, Copy)]
pub enum PortPattern {
    /// `--port`, `--PORT` or `-p`, then whitespace, then the digits.
    Flag,
    /// `PORT=` immediately followed by the digits.
    Env,
    /// `localhost:` immediately followed by the digits.
    Localhost,
}

/// Length of the pattern's introducer when it stands at `i`, else 0.
pub open spec fn pattern_head(p: PortPattern, s: Seq<char>, i: int) -> int {
    match p {
        PortPattern::Flag => {
            if i >= 0 && i + 6 <= s.len() && s[i] == '-' && s[i + 1] == '-' && ((s[i + 2] == 'p'
                && s[i + 3] == 'o' && s[i + 4] == 'r' && s[i + 5] == 't') || (s[i + 2] == 'P' && s[i
                + 3] == 'O' && s[i + 4] == 'R' && s[i + 5] == 'T')) {
                6
            } else if i >= 0 && i + 2 <= s.len() && s[i] == '-' && s[i + 1] == 'p' {
                2
            } else {
                0
            }
        }
        PortPattern::Env => {
            if i >= 0 && i + 5 <= s.len() && s[i] == 'P' && s[i + 1] == 'O' && s[i + 2] == 'R' && s[
                i + 3] == 'T' && s[i + 4] == '=' {
                5
            } else {
                0
            }
        }
        PortPattern::Localhost => {
            if i >= 0 && i + 10 <= s.len() && s[i] == 'l' && s[i + 1] == 'o' && s[i + 2] == 'c'
                && s[i + 3] == 'a' && s[i + 4] == 'l' && s[i + 5] == 'h' && s[i + 6] == 'o' && s[i
                + 7] == 's' && s[i + 8] == 't' && s[i + 9] == ':' {
                10
            } else {
                0
            }
        }
    }
}

/// The match of pattern `p` at position `i`: the port value read and the
/// position just past it, or nothing. A match needs 2 to 5 digits (a
/// longer run yields its first five digits), and the flag form needs at
/// least one whitespace character between flag and digits.
pub open spec fn pattern_match(p: PortPattern, s: Seq<char>, i: int) -> Option<(int, int)> {
    let h = pattern_head(p, s, i);
    if h == 0 {
        None
    } else if p is Flag {
        let j = i + h;
        let w = spaces_at(s, j);
        if w == 0 {
            None
        } else {
            let d = digits_at(s, j + w, 5);
            if d < 2 {
                None
            } else {
                Some((num_value(s, j + w, d), j + w + d))
            }
        }
    } else {
        let j = i + h;
        let d = digits_at(s, j, 5);
        if d < 2 {
            None
        } else {
            Some((num_value(s, j, d), j + d))
        }
    }
}

proof fn lemma_pattern_match_bounds(p: PortPattern, s: Seq<char>, i: int)
    requires
        0 <= i < s.len(),
    ensures
        pattern_match(p, s, i) matches Some(m) ==> i < m.1 <= s.len(),
{
    let h = pattern_head(p, s, i);
    if h != 0 {
        if p is Flag {
            lemma_spaces_at_bounds(s, i + h);
            let w = spaces_at(s, i + h);
            lemma_digits_at_bounds(s, i + h + w, 5);
        } else {
            lemma_digits_at_bounds(s, i + h, 5);
        }
    }
}

/// Every port that pattern `p` finds in `s`, scanning left to right, each
/// search resuming just past the previous match.
pub open spec fn scan_ports(p: PortPattern, s: Seq<char>, i: int) -> Seq<int>
    decreases s.len() - i,
    when 0 <= i <= s.len()
    via scan_ports_dec
{
    if i >= s.len() {
        Seq::empty()
    } else {
        match pattern_match(p, s, i) {
            Some(m) => seq![m.0] + scan_ports(p, s, m.1),
            None => scan_ports(p, s, i + 1),
        }
    }
}

#[via_fn]
proof fn scan_ports_dec(p: PortPattern, s: Seq<char>, i: int) {
    if i < s.len() {
        lemma_pattern_match_bounds(p, s, i);
    }
}

/// All ports mentioned in a command string, in pattern order: flag
/// matches, then environment assignments, then localhost references.
pub open spec fn command_ports(s: Seq<char>) -> Seq<int> {
    scan_ports(PortPattern::Flag, s, 0) + scan_ports(PortPattern::Env, s, 0) + scan_ports(
        PortPattern::Localhost,
        s,
        0,
    )
}

/// Whether `v` belongs to the ports derived from `c`: its explicitly
/// declared port, or a port of at least 80 mentioned in its command.
pub open spec fn is_port_candidate(c: ProcessConfig, v: int) -> bool {
    ||| (c.port matches Some(p) && v == p as int)
    ||| (80 <= v <= 65535 && command_ports(c.command@).contains(v))
}

spec fn ints_of(s: Seq<u32>) -> Seq<int> {
    s.map_values(|x: u32| x as int)
}

/// Which candidates a partially processed scan already covers.
spec fn covered(c: ProcessConfig, scanned: Seq<int>, v: int) -> bool {
    ||| (c.port matches Some(p) && v == p as int)
    ||| (80 <= v <= 65535 && scanned.contains(v))
}

fn match_head(p: PortPattern, s: &Vec<char>, i: usize) -> (h: usize)
    requires
        i < s@.len(),
    ensures
        h as int == pattern_head(p, s@, i as int),
        i + h <= s@.len(),
{
    match p {
        PortPattern::Flag => {
            if s.len() - i >= 6 && s[i] == '-' && s[i + 1] == '-' && ((s[i + 2] == 'p' && s[i + 3]
                == 'o' && s[i + 4] == 'r' && s[i + 5] == 't') || (s[i + 2] == 'P' && s[i + 3] == 'O'
                && s[i + 4] == 'R' && s[i + 5] == 'T')) {
                6
            } else if s.len() - i >= 2 && s[i] == '-' && s[i + 1] == 'p' {
                2
            } else {
                0
            }
        }
        PortPattern::Env => {
            if s.len() - i >= 5 && s[i] == 'P' && s[i + 1] == 'O' && s[i + 2] == 'R' && s[i + 3]
                == 'T' && s[i + 4] == '=' {
                5
            } else {
                0
            }
        }
        PortPattern::Localhost => {
            if s.len() - i >= 10 && s[i] == 'l' && s[i + 1] == 'o' && s[i + 2] == 'c' && s[i + 3]
                == 'a' && s[i + 4] == 'l' && s[i + 5] == 'h' && s[i + 6] == 'o' && s[i + 7] == 's'
                && s[i + 8] == 't' && s[i + 9] == ':' {
                10
            } else {
                0
            }
        }
    }
}

/// Read up to five digits at `start`, returning how many stood there and
/// their numeric value.
fn digits_value(s: &Vec<char>, start: usize) -> (r: (usize, u32))
    requires
        start <= s@.len(),
    ensures
        r.0 as int == digits_at(s@, start as int, 5),
        r.1 as int == num_value(s@, start as int, r.0 as int),
        start + r.0 <= s@.len(),
        r.0 <= 5,
{
    let n = s.len();
    let mut d: usize = 0;
    let mut val: u32 = 0;
    loop
        invariant
            n == s@.len(),
            start <= n,
            d <= 5,
            start + d <= n,
            forall|k: int| 0 <= k < d ==> is_digit_char(#[trigger] s@[start + k]),
            val as int == num_value(s@, start as int, d as int),
            d == 0 ==> val == 0,
            d <= 1 ==> val <= 9,
            d <= 2 ==> val <= 99,
            d <= 3 ==> val <= 999,
            d <= 4 ==> val <= 9999,
            val <= 99999,
        ensures
            d <= 5,
            start + d <= s@.len(),
            forall|k: int| 0 <= k < d ==> is_digit_char(#[trigger] s@[start + k]),
            val as int == num_value(s@, start as int, d as int),
            d < 5 ==> (start + d == s@.len() || !is_digit_char(s@[start + d])),
        decreases 5 - d,
    {
        if d == 5 {
            break;
        }
        if start + d == n {
            break;
        }
        let c = s[start + d];
        if c < '0' || c > '9' {
            break;
        }
        val = val * 10 + (c as u32 - 48);
        d = d + 1;
    }
    proof {
        lemma_digits_at_is(s@, start as int, 5, d as int);
    }
    (d, val)
}

/// Try pattern `p` at position `i`, mirroring `pattern_match`.
fn try_match(p: PortPattern, s: &Vec<char>, i: usize) -> (r: Option<(u32, usize)>)
    requires
        i < s@.len(),
    ensures
        r is None ==> pattern_match(p, s@, i as int) is None,
        r matches Some(m) ==> (pattern_match(p, s@, i as int) matches Some(q) && m.0 as int == q.0
            && m.1 as int == q.1 && i < m.1 <= s@.len()),
{
    let n = s.len();
    let h = match_head(p, s, i);
    if h == 0 {
        return None;
    }
    let j = i + h;
    match p {
        PortPattern::Flag => {
            let mut w: usize = 0;
            loop
                invariant
                    n == s@.len(),
                    j <= n,
                    j + w <= n,
                    forall|k: int| 0 <= k < w ==> is_space_char(#[trigger] s@[j + k]),
                ensures
                    j + w <= s@.len(),
                    forall|k: int| 0 <= k < w ==> is_space_char(#[trigger] s@[j + k]),
                    j + w == s@.len() || !is_space_char(s@[j + w]),
                decreases n - j - w,
            {
                if j + w == n {
                    break;
                }
                let c = s[j + w];
                if !(c == ' ' || c == '\t' || c == '\n' || c == '\r' || c == '\x0b' || c
                    == '\x0c') {
                    break;
                }
                w = w + 1;
            }
            proof {
                lemma_spaces_at_is(s@, j as int, w as int);
            }
            if w == 0 {
                return None;
            }
            let (d, val) = digits_value(s, j + w);
            if d < 2 {
                return None;
            }
            Some((val, j + w + d))
        }
        _ => {
            let (d, val) = digits_value(s, j);
            if d < 2 {
                return None;
            }
            Some((val, j + d))
        }
    }
}

/// Collect every port that pattern `p` finds in `s`.
fn scan_pattern(p: PortPattern, s: &Vec<char>) -> (out: Vec<u32>)
    ensures
        ints_of(out@) == scan_ports(p, s@, 0),
{
    let mut out: Vec<u32> = Vec::new();
    let mut i: usize = 0;
    while i < s.len()
        invariant
            i <= s@.len(),
            ints_of(out@) + scan_ports(p, s@, i as int) == scan_ports(p, s@, 0),
        decreases s@.len() - i,
    {
        let ghost before = out@;
        match try_match(p, s, i) {
            Some(m) => {
                out.push(m.0);
                proof {
                    assert(ints_of(out@) =~= ints_of(before) + seq![m.0 as int]);
                }
                i = m.1;
            }
            None => {
                i = i + 1;
            }
        }
    }
    proof {
        assert(scan_ports(p, s@, i as int) =~= Seq::<int>::empty());
        assert(ints_of(out@) =~= ints_of(out@) + Seq::<int>::empty());
    }
    out
}

proof fn lemma_contains_push(s: Seq<int>, x: int, v: int)
    ensures
        s.push(x).contains(v) <==> (s.contains(v) || v == x),
{
    if s.push(x).contains(v) {
        let k = choose|k: int| 0 <= k < s.push(x).len() && s.push(x)[k] == v;
        if k < s.len() {
            assert(s[k] == v);
        }
    }
    if s.contains(v) {
        let k = choose|k: int| 0 <= k < s.len() && s[k] == v;
        assert(s.push(x)[k] == v);
    }
    assert(s.push(x)[s.len() as int] == x);
}

/// Insert `x` into a strictly increasing vector, keeping it strictly
/// increasing; a value already present is left alone.
fn insert_unique_sorted(v: &mut Vec<u16>, x: u16)
    requires
        forall|a: int, b: int|
            0 <= a < b < old(v)@.len() ==> old(v)@[a] < old(v)@[b],
    ensures
        forall|a: int, b: int|
            0 <= a < b < final(v)@.len() ==> final(v)@[a] < final(v)@[b],
        forall|y: u16| final(v)@.contains(y) <==> (old(v)@.contains(y) || y == x),
{
    let mut idx: usize = 0;
    while idx < v.len() && v[idx] < x
        invariant
            idx <= v@.len(),
            v@ == old(v)@,
            forall|k: int| 0 <= k < idx ==> v@[k] < x,
        decreases v@.len() - idx,
    {
        idx = idx + 1;
    }
    if idx < v.len() && v[idx] == x {
        proof {
            assert(v@.contains(x));
        }
        return;
    }
    let ghost pre = v@;
    v.insert(idx, x);
    proof {
        pre.insert_ensures(idx as int, x);
        assert forall|y: u16| v@.contains(y) implies (pre.contains(y) || y == x) by {
            let k = choose|k: int| 0 <= k < v@.len() && v@[k] == y;
            if k < idx {
                assert(pre[k] == y);
            } else if k > idx {
                assert(pre[k - 1] == y);
            }
        }
        assert forall|y: u16| (pre.contains(y) || y == x) implies v@.contains(y) by {
            if pre.contains(y) {
                let k = choose|k: int| 0 <= k < pre.len() && pre[k] == y;
                if k < idx {
                    assert(v@[k] == y);
                } else {
                    assert(v@[k + 1] == y);
                }
            } else {
                assert(v@[idx as int] == y);
            }
        }
    }
}

/// Fold the in-range scanned ports into the sorted result.
fn add_scanned(
    out: &mut Vec<u16>,
    vals: &Vec<u32>,
    Ghost(cfg): Ghost<ProcessConfig>,
    Ghost(base): Ghost<Seq<int>>,
)
    requires
        forall|a: int, b: int|
            0 <= a < b < old(out)@.len() ==> old(out)@[a] < old(out)@[b],
        forall|y: u16| old(out)@.contains(y) <==> covered(cfg, base, y as int),
    ensures
        forall|a: int, b: int|
            0 <= a < b < final(out)@.len() ==> final(out)@[a] < final(out)@[b],
        forall|y: u16| final(out)@.contains(y) <==> covered(cfg, base + ints_of(vals@), y as int),
{
    let mut k: usize = 0;
    while k < vals.len()
        invariant
            k <= vals@.len(),
            forall|a: int, b: int| 0 <= a < b < out@.len() ==> out@[a] < out@[b],
            forall|y: u16|
                out@.contains(y) <==> covered(cfg, base + ints_of(vals@).take(k as int), y as int),
        decreases vals@.len() - k,
    {
        let x = vals[k];
        let ghost sold = base + ints_of(vals@).take(k as int);
        let ghost snew = base + ints_of(vals@).take(k as int + 1);
        proof {
            assert(ints_of(vals@)[k as int] == x as int);
            assert(snew =~= sold.push(x as int));
        }
        if 80 <= x && x <= 65535 {
            insert_unique_sorted(out, x as u16);
        }
        proof {
            assert forall|y: u16|
                out@.contains(y) <==> covered(cfg, snew, y as int) by {
                lemma_contains_push(sold, x as int, y as int);
            }
        }
        k = k + 1;
    }
    proof {
        assert(ints_of(vals@).take(vals@.len() as int) =~= ints_of(vals@));
    }
}

/// Every port derived from the config: the declared one, if any, plus the
/// in-range ports mentioned in its command string — strictly sorted, each
/// port once.
pub fn extract_ports(config: &ProcessConfig) -> (r: Vec<u16>)
    ensures
        forall|a: int, b: int| 0 <= a < b < r@.len() ==> r@[a] < r@[b],
        forall|y: u16| r@.contains(y) <==> is_port_candidate(*config, y as int),
{
    let mut out: Vec<u16> = Vec::new();
    match config.port {
        Some(p) => {
            out.push(p);
            proof {
                assert(out@[0] == p);
                assert forall|y: u16|
                    out@.contains(y) <==> covered(*config, Seq::<int>::empty(), y as int) by {
                    if out@.contains(y) {
                        let k = choose|k: int| 0 <= k < out@.len() && out@[k] == y;
                        assert(k == 0);
                    }
                }
            }
        }
        None => {
            proof {
                assert(forall|y: u16|
                    out@.contains(y) <==> covered(*config, Seq::<int>::empty(), y as int));
            }
        }
    }

    let chars = strutil::str_chars(config.command.as_str());
    let flags = scan_pattern(PortPattern::Flag, &chars);
    let envs = scan_pattern(PortPattern::Env, &chars);
    let hosts = scan_pattern(PortPattern::Localhost, &chars);

    let ghost s = config.command@;
    add_scanned(&mut out, &flags, Ghost(*config), Ghost(Seq::<int>::empty()));
    add_scanned(&mut out, &envs, Ghost(*config), Ghost(scan_ports(PortPattern::Flag, s, 0)));
    add_scanned(
        &mut out,
        &hosts,
        Ghost(*config),
        Ghost(scan_ports(PortPattern::Flag, s, 0) + scan_ports(PortPattern::Env, s, 0)),
    );
    proof {
        assert(scan_ports(PortPattern::Flag, s, 0) + scan_ports(PortPattern::Env, s, 0)
            + scan_ports(PortPattern::Localhost, s, 0) == command_ports(s));
    }
    out
}

} // verus!
