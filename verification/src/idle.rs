//! Reading the user's idle time from the desktop's idle-time reporters.
//!
//! Three reporters are asked each tick (`xprintidle`, GNOME Mutter's idle
//! monitor over D-Bus, and `loginctl`'s idle hint). The library interprets
//! their output and combines the readings; running the commands is left to
//! the caller.
use crate::text::{
    chars_of, first_number, first_number_exec, first_token, first_token_bounds, line_end,
    line_end_exec, parse_u64, parse_u64_range, substring, trim, trim_bounds,
};
use vstd::prelude::*;

verus! {

#[verifier::external_type_specification]
#[verifier::external_body]
pub struct ExIoError(std::io::Error);

/// Why an idle reading could not be taken.
#[derive(Debug)]
pub enum IdleError {
    /// No reporter is available (or the command failed).
    NoMethod,
    /// The command could not be run.
    Subprocess { source: std::io::Error },
    /// The command's output could not be understood.
    Parse,
}

/// One reporter's reading.
#[derive(Debug, Clone)]
pub struct IdleSample {
    pub idle_ms: u64,
    pub method: &'static str,
    pub latency_us: u64,
}

/// The combined reading of all reporters that answered.
#[derive(Debug, Clone)]
pub struct IdleResult {
    pub idle_ms: u64,
    pub samples: Vec<IdleSample>,
    pub total_latency_us: u64,
}

pub struct IdleDetector;

pub open spec fn opt_seq(o: Option<IdleSample>) -> Seq<IdleSample> {
    match o {
        Some(s) => seq![s],
        None => Seq::empty(),
    }
}

/// The samples that were taken, in reporter order.
pub open spec fn present_samples(
    xi: Option<IdleSample>,
    mu: Option<IdleSample>,
    lc: Option<IdleSample>,
) -> Seq<IdleSample> {
    opt_seq(xi) + opt_seq(mu) + opt_seq(lc)
}

/// The largest idle time among `s` (0 when empty).
pub open spec fn max_idle(s: Seq<IdleSample>) -> u64
    decreases s.len(),
{
    if s.len() == 0 {
        0
    } else {
        let m = max_idle(s.drop_last());
        if s.last().idle_ms > m {
            s.last().idle_ms
        } else {
            m
        }
    }
}

/// The combined idle time is the largest reading: no reporter saw a longer
/// idle time, and one of them saw exactly it.
pub proof fn lemma_max_idle(s: Seq<IdleSample>)
    ensures
        forall|i: int| 0 <= i < s.len() ==> (#[trigger] s[i]).idle_ms <= max_idle(s),
        s.len() > 0 ==> exists|i: int| 0 <= i < s.len() && (#[trigger] s[i]).idle_ms == max_idle(s),
    decreases s.len(),
{
    if s.len() > 0 {
        let t = s.drop_last();
        lemma_max_idle(t);
        assert forall|i: int| 0 <= i < s.len() implies (#[trigger] s[i]).idle_ms <= max_idle(s) by {
            if i < t.len() {
                assert(s[i] == t[i]);
            }
        }
        if s.last().idle_ms > max_idle(t) || t.len() == 0 {
            assert(s[s.len() - 1].idle_ms == max_idle(s));
        } else {
            let j = choose|j: int| 0 <= j < t.len() && (#[trigger] t[j]).idle_ms == max_idle(t);
            assert(s[j] == t[j]);
        }
    }
}

/// `IdleSinceHint=`
pub open spec fn hint_prefix() -> Seq<char> {
    seq!['I', 'd', 'l', 'e', 'S', 'i', 'n', 'c', 'e', 'H', 'i', 'n', 't', '=']
}

/// The session id in `loginctl list-sessions` output: the first token of
/// its first line.
pub open spec fn session_of(out: Seq<char>) -> Option<Seq<char>> {
    first_token(out.take(line_end(out) as int))
}

/// Idle time, in milliseconds, described by a `loginctl show-session`
/// line, `None` when it cannot be understood. An empty or zero hint means
/// the user is active; otherwise the hint is the moment (microseconds since
/// the epoch) from which the session has been idle.
pub open spec fn hint_idle_ms(out: Seq<char>, now_us: u64) -> Option<u64> {
    let line = trim(out);
    if line.len() >= 14 && line.take(14) == hint_prefix() {
        let val = trim(line.skip(14));
        if val.len() == 0 || val == seq!['0'] {
            Some(0)
        } else {
            match parse_u64(val) {
                Some(us) => Some(
                    ((if now_us >= us {
                        now_us - us
                    } else {
                        0
                    }) / 1000) as u64,
                ),
                None => None,
            }
        }
    } else {
        None
    }
}

/// Copy of `s[a..b]`.
fn sub_vec(s: &Vec<char>, a: usize, b: usize) -> (v: Vec<char>)
    requires
        a <= b <= s@.len(),
    ensures
        v@ == s@.subrange(a as int, b as int),
{
    let mut v: Vec<char> = Vec::new();
    let mut i = a;
    while i < b
        invariant
            a <= i <= b <= s@.len(),
            v@ == s@.subrange(a as int, i as int),
        decreases b - i,
    {
        v.push(s[i]);
        i = i + 1;
        assert(v@ =~= s@.subrange(a as int, i as int));
    }
    v
}

/// Whether `s` starts with `IdleSinceHint=`.
fn has_hint_prefix(s: &Vec<char>) -> (b: bool)
    ensures
        b == (s@.len() >= 14 && s@.take(14) == hint_prefix()),
{
    let r = s.len() >= 14 && s[0] == 'I' && s[1] == 'd' && s[2] == 'l' && s[3] == 'e' && s[4] == 'S'
        && s[5] == 'i' && s[6] == 'n' && s[7] == 'c' && s[8] == 'e' && s[9] == 'H' && s[10] == 'i'
        && s[11] == 'n' && s[12] == 't' && s[13] == '=';
    proof {
        if s@.len() >= 14 {
            let t = s@.take(14);
            if r {
                assert(t =~= hint_prefix());
            } else if t == hint_prefix() {
                assert(t[0] == s@[0] && t[1] == s@[1] && t[2] == s@[2] && t[3] == s@[3]);
                assert(t[4] == s@[4] && t[5] == s@[5] && t[6] == s@[6] && t[7] == s@[7]);
                assert(t[8] == s@[8] && t[9] == s@[9] && t[10] == s@[10] && t[11] == s@[11]);
                assert(t[12] == s@[12] && t[13] == s@[13]);
            }
        }
    }
    r
}

impl IdleDetector {
    /// A reporter's outcome turned into a sample, `None` when it failed.
    pub fn timed(name: &'static str, outcome: Result<u64, IdleError>, latency_us: u64) -> (r:
        Option<IdleSample>)
        ensures
            match outcome {
                Ok(v) => r == Some(IdleSample { idle_ms: v, method: name, latency_us }),
                Err(_) => r is None,
            },
    {
        match outcome {
            Ok(idle_ms) => Some(IdleSample { idle_ms, method: name, latency_us }),
            Err(_) => None,
        }
    }

    /// Combines the readings of the three reporters: the samples that were
    /// taken, in order, and the largest idle time among them; `NoMethod`
    /// when none answered.
    pub fn idle_ms(
        xi: Option<IdleSample>,
        mu: Option<IdleSample>,
        lc: Option<IdleSample>,
        total_latency_us: u64,
    ) -> (r: Result<IdleResult, IdleError>)
        ensures
            present_samples(xi, mu, lc).len() == 0 ==> r matches Err(IdleError::NoMethod),
            present_samples(xi, mu, lc).len() > 0 ==> (r matches Ok(res) && res.samples@
                == present_samples(xi, mu, lc) && res.idle_ms == max_idle(
                present_samples(xi, mu, lc),
            ) && res.total_latency_us == total_latency_us),
    {
        let ghost all = present_samples(xi, mu, lc);
        let mut samples: Vec<IdleSample> = Vec::new();
        let mut best: Option<u64> = None;
        if let Some(s) = xi {
            let v = s.idle_ms;
            best = Some(v);
            samples.push(s);
            assert(samples@.drop_last() =~= Seq::<IdleSample>::empty());
            assert(max_idle(samples@.drop_last()) == 0);
            assert(samples@.last().idle_ms == v);
        }
        assert(samples@ =~= opt_seq(xi));
        assert(samples@.len() > 0 ==> best == Some(max_idle(samples@)));
        assert(samples@.len() == 0 ==> best is None);
        let ghost s1 = samples@;
        if let Some(s) = mu {
            let v = s.idle_ms;
            best = match best {
                Some(b) => Some(if b >= v { b } else { v }),
                None => Some(v),
            };
            samples.push(s);
            assert(samples@.drop_last() =~= s1);
            assert(s1.len() == 0 ==> max_idle(s1) == 0);
            assert(samples@.last().idle_ms == v);
        }
        assert(samples@ =~= opt_seq(xi) + opt_seq(mu));
        assert(samples@.len() > 0 ==> best == Some(max_idle(samples@)));
        assert(samples@.len() == 0 ==> best is None);
        let ghost s2 = samples@;
        if let Some(s) = lc {
            let v = s.idle_ms;
            best = match best {
                Some(b) => Some(if b >= v { b } else { v }),
                None => Some(v),
            };
            samples.push(s);
            assert(samples@.drop_last() =~= s2);
            assert(s2.len() == 0 ==> max_idle(s2) == 0);
            assert(samples@.last().idle_ms == v);
        }
        assert(samples@ =~= all);
        assert(samples@.len() > 0 ==> best == Some(max_idle(samples@)));
        assert(samples@.len() == 0 ==> best is None);
        match best {
            Some(idle_ms) => Ok(IdleResult { idle_ms, samples, total_latency_us }),
            None => Err(IdleError::NoMethod),
        }
    }
}

/// Interprets `xprintidle`'s output: the whole trimmed output is the idle
/// time in milliseconds.
pub fn parse_xprintidle(success: bool, stdout: &str) -> (r: Result<u64, IdleError>)
    ensures
        !success ==> r matches Err(IdleError::NoMethod),
        success ==> match parse_u64(trim(stdout@)) {
            Some(v) => (r matches Ok(x) && x == v),
            None => r matches Err(IdleError::Parse),
        },
{
    if !success {
        return Err(IdleError::NoMethod);
    }
    let chars = chars_of(stdout);
    let (a, b) = trim_bounds(&chars);
    match parse_u64_range(&chars, a, b) {
        Some(v) => Ok(v),
        None => Err(IdleError::Parse),
    }
}

/// Interprets Mutter's `GetIdletime` reply: the first whitespace-separated
/// token that is a number.
pub fn parse_mutter(success: bool, stdout: &str) -> (r: Result<u64, IdleError>)
    ensures
        !success ==> r matches Err(IdleError::NoMethod),
        success ==> match first_number(stdout@) {
            Some(v) => (r matches Ok(x) && x == v),
            None => r matches Err(IdleError::Parse),
        },
{
    if !success {
        return Err(IdleError::NoMethod);
    }
    let chars = chars_of(stdout);
    match first_number_exec(&chars) {
        Some(v) => Ok(v),
        None => Err(IdleError::Parse),
    }
}

/// Interprets `loginctl list-sessions --no-legend`: the session id is the
/// first token of the first line.
pub fn parse_session_list(success: bool, stdout: &str) -> (r: Result<String, IdleError>)
    ensures
        !success ==> r matches Err(IdleError::NoMethod),
        success ==> match session_of(stdout@) {
            Some(id) => (r matches Ok(x) && x@ == id),
            None => r matches Err(IdleError::NoMethod),
        },
{
    if !success {
        return Err(IdleError::NoMethod);
    }
    let chars = chars_of(stdout);
    let end = line_end_exec(&chars);
    match first_token_bounds(&chars, end) {
        Some((a, b)) => Ok(substring(stdout, a, b)),
        None => Err(IdleError::NoMethod),
    }
}

/// Interprets `loginctl show-session <id> --property=IdleSinceHint` at wall
/// time `now_us` (microseconds since the epoch).
pub fn parse_session_idle(success: bool, stdout: &str, now_us: u64) -> (r: Result<u64, IdleError>)
    ensures
        !success ==> r matches Err(IdleError::NoMethod),
        success ==> match hint_idle_ms(stdout@, now_us) {
            Some(v) => (r matches Ok(x) && x == v),
            None => r matches Err(IdleError::Parse),
        },
{
    if !success {
        return Err(IdleError::NoMethod);
    }
    let chars = chars_of(stdout);
    let (a, b) = trim_bounds(&chars);
    let line = sub_vec(&chars, a, b);
    if !has_hint_prefix(&line) {
        return Err(IdleError::Parse);
    }
    let rest = sub_vec(&line, 14, line.len());
    assert(rest@ =~= line@.skip(14));
    let (c, d) = trim_bounds(&rest);
    if c == d || (d == c + 1 && rest[c] == '0') {
        proof {
            if d == c + 1 && rest@[c as int] == '0' {
                assert(rest@.subrange(c as int, d as int) =~= seq!['0']);
            }
        }
        return Ok(0);
    }
    assert(rest@.subrange(c as int, d as int) != seq!['0']) by {
        if rest@.subrange(c as int, d as int) == seq!['0'] {
            assert(rest@.subrange(c as int, d as int)[0] == rest@[c as int]);
        }
    }
    match parse_u64_range(&rest, c, d) {
        Some(us) => {
            let elapsed = if now_us >= us {
                now_us - us
            } else {
                0
            };
            Ok(elapsed / 1000)
        },
        None => Err(IdleError::Parse),
    }
}

} // verus!
