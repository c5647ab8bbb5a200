use vstd::prelude::*;
use crate::display::{is_space, is_space_char};
use crate::job::{opt_view, PokeError};

verus! {

/// What the three signal files hold: the text of `PID`, if present, and
/// whether `CONTROL` and `REFRESH` are present.
pub struct SignalFiles {
    pub pid: Option<String>,
    pub control: bool,
    pub refresh: bool,
}

/// The mathematical value of the signal files.
pub struct SignalView {
    pub pid: Option<Seq<char>>,
    pub control: bool,
    pub refresh: bool,
}

impl View for SignalFiles {
    type V = SignalView;

    open spec fn view(&self) -> SignalView {
        SignalView { pid: opt_view(self.pid), control: self.control, refresh: self.refresh }
    }
}

/// No signal file is present.
pub open spec fn cleared() -> SignalView {
    SignalView { pid: None, control: false, refresh: false }
}

/// `s` without its leading whitespace.
pub open spec fn trim_start(s: Seq<char>) -> Seq<char>
    decreases s.len(),
{
    if s.len() > 0 && is_space(s[0]) {
        trim_start(s.drop_first())
    } else {
        s
    }
}

/// `s` without its trailing whitespace.
pub open spec fn trim_end(s: Seq<char>) -> Seq<char>
    decreases s.len(),
{
    if s.len() > 0 && is_space(s.last()) {
        trim_end(s.drop_last())
    } else {
        s
    }
}

pub open spec fn is_digit(c: char) -> bool {
    '0' <= c && c <= '9'
}

/// The value of a string of decimal digits.
pub open spec fn digits_value(s: Seq<char>) -> int
    decreases s.len(),
{
    if s.len() == 0 {
        0
    } else {
        digits_value(s.drop_last()) * 10 + (s.last() as int - '0' as int)
    }
}

pub open spec fn all_digits(d: Seq<char>) -> bool {
    forall|i: int| 0 <= i < d.len() ==> is_digit(#[trigger] d[i])
}

/// `t` without one leading `+`.
pub open spec fn strip_plus(t: Seq<char>) -> Seq<char> {
    if t.len() > 0 && t[0] == '+' {
        t.drop_first()
    } else {
        t
    }
}

/// The number that a decimal text denotes: an optional `+` and at least one
/// digit, nothing else.
pub open spec fn unsigned_value(t: Seq<char>) -> Option<int> {
    let d = strip_plus(t);
    if d.len() > 0 && all_digits(d) {
        Some(digits_value(d))
    } else {
        None
    }
}

/// The process id that the text of a `PID` file holds: a decimal number
/// that fits in 32 bits, with surrounding whitespace ignored.
pub open spec fn pid_value(s: Seq<char>) -> Option<u32> {
    match unsigned_value(trim_end(trim_start(s))) {
        Some(v) => if v <= u32::MAX {
            Some(v as u32)
        } else {
            None
        },
        None => None,
    }
}

/// Reads a process id from the text of a `PID` file.
pub fn parse_pid(text: &str) -> (r: Option<u32>)
    ensures
        r == pid_value(text@),
{
    let n = text.unicode_len();
    let ghost s = text@;
    let mut a: usize = 0;
    assert(s.subrange(0, n as int) =~= s);
    while a < n && is_space_char(text.get_char(a))
        invariant
            n == s.len(),
            s == text@,
            0 <= a <= n,
            trim_start(s) == trim_start(s.subrange(a as int, n as int)),
        decreases n - a,
    {
        assert(s.subrange(a as int, n as int).drop_first() =~= s.subrange(a + 1, n as int));
        a = a + 1;
    }
    let ghost t = s.subrange(a as int, n as int);
    assert(trim_start(s) == t) by {
        if a < n {
            assert(t[0] == s[a as int]);
        }
    }
    let mut b: usize = n;
    assert(s.subrange(a as int, n as int) =~= t);
    while b > a && is_space_char(text.get_char(b - 1))
        invariant
            n == s.len(),
            s == text@,
            0 <= a <= b <= n,
            t == s.subrange(a as int, n as int),
            trim_end(t) == trim_end(s.subrange(a as int, b as int)),
        decreases b,
    {
        assert(s.subrange(a as int, b as int).drop_last() =~= s.subrange(a as int, b - 1));
        b = b - 1;
    }
    let ghost u = s.subrange(a as int, b as int);
    assert(trim_end(t) == u) by {
        if b > a {
            assert(u.last() == s[b - 1]);
        }
    }
    let mut k: usize = a;
    if a < b && text.get_char(a) == '+' {
        k = a + 1;
    }
    let ghost d = s.subrange(k as int, b as int);
    assert(d =~= strip_plus(u));
    assert(unsigned_value(trim_end(trim_start(s))) == unsigned_value(u));
    if k >= b {
        return None;
    }
    let big: u64 = 0x1_0000_0000;
    let mut acc: u64 = 0;
    let mut j: usize = k;
    assert(s.subrange(k as int, k as int) =~= Seq::<char>::empty());
    while j < b
        invariant
            n == s.len(),
            s == text@,
            0 <= k <= j <= b <= n,
            d == s.subrange(k as int, b as int),
            d == strip_plus(u),
            unsigned_value(trim_end(trim_start(s))) == unsigned_value(u),
            forall|i: int| k <= i < j ==> is_digit(#[trigger] s[i]),
            acc as int == (if digits_value(s.subrange(k as int, j as int)) < big {
                digits_value(s.subrange(k as int, j as int))
            } else {
                big as int
            }),
            big == 0x1_0000_0000,
            digits_value(s.subrange(k as int, j as int)) >= 0,
        decreases b - j,
    {
        let c = text.get_char(j);
        if !('0' <= c && c <= '9') {
            assert(d[j - k] == s[j as int]);
            assert(!is_digit(d[j - k]));
            assert(!all_digits(d));
            return None;
        }
        let dig = (c as u32 - '0' as u32) as u64;
        let ghost pre = s.subrange(k as int, j as int);
        let ghost nxt = s.subrange(k as int, j + 1);
        assert(nxt.drop_last() =~= pre);
        assert(digits_value(nxt) == digits_value(pre) * 10 + dig);
        let v = acc * 10 + dig;
        acc = if v < big {
            v
        } else {
            big
        };
        proof {
            if digits_value(pre) >= big {
                assert(digits_value(pre) * 10 >= digits_value(pre)) by (nonlinear_arith)
                    requires
                        digits_value(pre) >= 0,
                ;
            }
        }
        j = j + 1;
    }
    assert(all_digits(d)) by {
        assert forall|i: int| 0 <= i < d.len() implies is_digit(#[trigger] d[i]) by {
            assert(d[i] == s[k + i]);
        }
    }
    if acc < big {
        Some(acc as u32)
    } else {
        None
    }
}

impl SignalFiles {
    /// No signal file present.
    pub fn absent() -> (r: SignalFiles)
        ensures
            r@ == cleared(),
    {
        SignalFiles { pid: None, control: false, refresh: false }
    }
}

/// The outcome of a refresh request on files `f`.
pub open spec fn refresh_result(f: SignalView) -> Result<(), PokeError> {
    if f.pid is None {
        Err(PokeError::NotRunning)
    } else {
        Ok(())
    }
}

/// The files after a refresh request on files `f`.
pub open spec fn after_refresh(f: SignalView) -> SignalView {
    if f.pid is None {
        f
    } else {
        SignalView { refresh: true, ..f }
    }
}

/// Asks a running daemon to reload its jobs: writes `REFRESH`, or fails with
/// `NotRunning` and writes nothing when no `PID` file is present.
pub fn signal_refresh(files: &mut SignalFiles) -> (r: Result<(), PokeError>)
    ensures
        r == refresh_result(old(files)@),
        final(files)@ == after_refresh(old(files)@),
{
    if files.pid.is_none() {
        return Err(PokeError::NotRunning);
    }
    files.refresh = true;
    Ok(())
}

/// Deletes all three signal files; an absent one is no error.
pub fn cleanup_service_files(files: &mut SignalFiles)
    ensures
        final(files)@ == cleared(),
{
    files.pid = None;
    files.control = false;
    files.refresh = false;
}

/// The process that a stop request is aimed at.
pub open spec fn stop_target_result(f: SignalView) -> Result<u32, PokeError> {
    match f.pid {
        None => Err(PokeError::NotRunning),
        Some(t) => match pid_value(t) {
            Some(p) => Ok(p),
            None => Err(PokeError::InvalidPid),
        },
    }
}

/// The process that a stop request is aimed at: `NotRunning` when no `PID`
/// file is present, `InvalidPid` when it holds no process id.
pub fn stop_target(files: &SignalFiles) -> (r: Result<u32, PokeError>)
    ensures
        r == stop_target_result(files@),
{
    match &files.pid {
        None => Err(PokeError::NotRunning),
        Some(t) => match parse_pid(t.as_str()) {
            Some(p) => Ok(p),
            None => Err(PokeError::InvalidPid),
        },
    }
}

/// What a stop request gives: the errors of `stop_target_result` first;
/// then `StaleState` when the named process is dead, else the process id
/// that was asked to shut down.
pub open spec fn stop_result(f: SignalView, alive: bool) -> Result<u32, PokeError> {
    match stop_target_result(f) {
        Err(e) => Err(e),
        Ok(p) => if !alive {
            Err(PokeError::StaleState)
        } else {
            Ok(p)
        },
    }
}

/// The files after a stop request: unchanged when there is no process id
/// to aim at, all deleted when the process is dead, else `CONTROL` deleted.
pub open spec fn after_stop(f: SignalView, alive: bool) -> SignalView {
    match stop_target_result(f) {
        Err(_) => f,
        Ok(_) => if !alive {
            cleared()
        } else {
            SignalView { control: false, ..f }
        },
    }
}

/// Stops the daemon named by the `PID` file, given whether the process it
/// names is alive. No `PID` file gives `NotRunning`, one without a process id
/// `InvalidPid`, and the files stay as they were. A dead process leaves stale
/// files: all three are deleted and the result is `StaleState`. A live one is
/// asked to shut down by deleting `CONTROL`; its id is returned, and the
/// caller waits out the grace period and then calls `finish_stop`.
pub fn stop_service(files: &mut SignalFiles, alive: bool) -> (r: Result<u32, PokeError>)
    ensures
        r == stop_result(old(files)@, alive),
        final(files)@ == after_stop(old(files)@, alive),
{
    let pid = match stop_target(files) {
        Ok(p) => p,
        Err(e) => return Err(e),
    };
    if !alive {
        cleanup_service_files(files);
        return Err(PokeError::StaleState);
    }
    files.control = false;
    Ok(pid)
}

/// Ends a stop request after the grace period: deletes whatever signal
/// files remain, and tells whether the process must be terminated by force,
/// which it must exactly when it is still alive.
pub fn finish_stop(files: &mut SignalFiles, still_alive: bool) -> (terminate: bool)
    ensures
        terminate == still_alive,
        final(files)@ == cleared(),
{
    cleanup_service_files(files);
    still_alive
}

/// A stop aimed at a `PID` file that names a dead process deletes all three
/// signal files and reports `StaleState`: never `NotRunning`, never another
/// error.
pub proof fn lemma_stale_stop(f: SignalView, p: u32)
    requires
        f.pid matches Some(t) && pid_value(t) == Some(p),
    ensures
        stop_target_result(f) == Ok::<u32, PokeError>(p),
        stop_result(f, false) == Err::<u32, PokeError>(PokeError::StaleState),
        after_stop(f, false) == cleared(),
{
}

/// A stop with no `PID` file reports `NotRunning` and touches no file,
/// whatever the liveness probe said.
pub proof fn lemma_stop_not_running(f: SignalView, alive: bool)
    requires
        f.pid is None,
    ensures
        stop_result(f, alive) == Err::<u32, PokeError>(PokeError::NotRunning),
        after_stop(f, alive) == f,
{
}

/// A stop aimed at a live daemon succeeds with its process id and asks it to
/// shut down by deleting `CONTROL`.
pub proof fn lemma_live_stop(f: SignalView, p: u32)
    requires
        f.pid matches Some(t) && pid_value(t) == Some(p),
    ensures
        stop_result(f, true) == Ok::<u32, PokeError>(p),
        !after_stop(f, true).control,
{
}

/// Refreshing twice before the daemon looks is the same as refreshing once.
pub proof fn lemma_refresh_twice(f: SignalView)
    ensures
        after_refresh(after_refresh(f)) == after_refresh(f),
        refresh_result(after_refresh(f)) == refresh_result(f),
{
}

} // verus!
