//! The five format matchers and the classifier.
//!
//! Each matcher decomposes a raw line according to one fixed textual shape,
//! anchored to the whole line, and returns the populated field set on
//! success.  The shape each one recognises is defined by spec functions
//! over the line's character sequence; the executable matcher is proved to
//! succeed exactly on the lines the shape describes and to extract exactly
//! the fields the shape names.
//!
//! Free-text groups (tag, message) accept any character but a newline, so
//! a line containing `'\n'` never matches.  A tag group is lazy: it ends at
//! the first position where the rest of the shape can complete.  Numeric
//! groups are maximal runs of their class, so two adjacent ids must be
//! separated by whitespace: a single digit run is never split in two.
use vstd::prelude::*;
use crate::record::{FormatKind, Logcat, LogcatV};
use crate::text::{
    check_newline_free, colon_sep_from, is_level_char, is_timestamp, last_paren_from,
    lemma_colon_sep, lemma_last_paren, level_char, newline_free, run_end, scan_colon_sep,
    scan_last_paren, scan_run, timestamp_prefix, trim, trim_ws, CharClass,
};

verus! {

// ---------------------------------------------------------------------------
// ThreadTime: `DATE TIME  PID  TID LEVEL TAG: MESSAGE`
// ---------------------------------------------------------------------------

/// Where the process id begins: after the whitespace that follows the
/// 18-character time stamp.
pub open spec fn tt_pid_start(s: Seq<char>) -> int {
    run_end(CharClass::Ws, s, 18)
}

pub open spec fn tt_pid_end(s: Seq<char>) -> int {
    run_end(CharClass::Digit, s, tt_pid_start(s))
}

pub open spec fn tt_tid_start(s: Seq<char>) -> int {
    run_end(CharClass::Ws, s, tt_pid_end(s))
}

pub open spec fn tt_tid_end(s: Seq<char>) -> int {
    run_end(CharClass::Digit, s, tt_tid_start(s))
}

/// The tag begins after `" L "`: a space, the level letter, a space.
pub open spec fn tt_tag_start(s: Seq<char>) -> int {
    tt_tid_end(s) + 3
}

/// The `": "` separator that ends the lazy tag group.
pub open spec fn tt_sep(s: Seq<char>) -> int {
    colon_sep_from(s, tt_tag_start(s))
}

pub open spec fn threadtime_matches(s: Seq<char>) -> bool {
    &&& s.len() >= 18
    &&& is_timestamp(s.subrange(0, 18))
    &&& newline_free(s)
    &&& tt_pid_end(s) > tt_pid_start(s)
    &&& tt_tid_end(s) > tt_tid_start(s)
    &&& tt_tid_end(s) + 2 < s.len()
    &&& s[tt_tid_end(s)] == ' '
    &&& is_level_char(s[tt_tid_end(s) + 1])
    &&& s[tt_tid_end(s) + 2] == ' '
    &&& tt_sep(s) < s.len()
}

pub open spec fn tt_record(s: Seq<char>) -> LogcatV {
    LogcatV {
        timestamp: s.subrange(0, 18),
        level: s.subrange(tt_tid_end(s) + 1, tt_tid_end(s) + 2),
        tag: s.subrange(tt_tag_start(s), tt_sep(s)),
        process: s.subrange(tt_pid_start(s), tt_pid_end(s)),
        message: s.subrange(tt_sep(s) + 2, s.len() as int),
        thread: s.subrange(tt_tid_start(s), tt_tid_end(s)),
    }
}

/// Matcher for the ThreadTime shape.
pub fn match_threadtime(line: &str) -> (r: Option<Logcat>)
    ensures
        r is Some <==> threadtime_matches(line@),
        r matches Some(rec) ==> rec@ == tt_record(line@),
{
    let n: usize = line.unicode_len();
    if n < 18 {
        return None;
    }
    if !timestamp_prefix(line) {
        return None;
    }
    if !check_newline_free(line) {
        return None;
    }
    let ps: usize = scan_run(CharClass::Ws, line, 18);
    let pe: usize = scan_run(CharClass::Digit, line, ps);
    if pe == ps {
        return None;
    }
    let ts: usize = scan_run(CharClass::Ws, line, pe);
    let te: usize = scan_run(CharClass::Digit, line, ts);
    if te == ts {
        return None;
    }
    if n - te < 3 {
        return None;
    }
    if line.get_char(te) != ' ' {
        return None;
    }
    if !level_char(line.get_char(te + 1)) {
        return None;
    }
    if line.get_char(te + 2) != ' ' {
        return None;
    }
    let sep: usize = scan_colon_sep(line, te + 3);
    if sep == n {
        return None;
    }
    proof {
        lemma_colon_sep(line@, te as int + 3);
    }
    let rec = Logcat {
        timestamp: line.substring_char(0, 18).to_owned(),
        level: line.substring_char(te + 1, te + 2).to_owned(),
        tag: line.substring_char(te + 3, sep).to_owned(),
        process: line.substring_char(ps, pe).to_owned(),
        message: line.substring_char(sep + 2, n).to_owned(),
        thread: line.substring_char(ts, te).to_owned(),
    };
    proof {
        assert(rec@ =~= tt_record(line@));
    }
    Some(rec)
}

// ---------------------------------------------------------------------------
// Time: `DATE TIME[:] LEVEL/TAG(PID)[ws]: MESSAGE`
// ---------------------------------------------------------------------------

/// The index just past the time stamp and its optional trailing colon.
pub open spec fn time_after_ts(s: Seq<char>) -> int {
    if 18 < s.len() && s[18] == ':' {
        19
    } else {
        18
    }
}

pub open spec fn time_tag_start(s: Seq<char>) -> int {
    time_after_ts(s) + 3
}

/// Whether the rest of the Time shape can complete at `i`: an opening
/// parenthesis, a non-empty run of pid characters, a closing parenthesis,
/// optional whitespace, then `": "`.
pub open spec fn time_tail_ok(s: Seq<char>, i: int) -> bool {
    &&& 0 <= i < s.len()
    &&& s[i] == '('
    &&& run_end(CharClass::Pid, s, i + 1) > i + 1
    &&& run_end(CharClass::Pid, s, i + 1) < s.len()
    &&& s[run_end(CharClass::Pid, s, i + 1)] == ')'
    &&& {
        let w = run_end(CharClass::Ws, s, run_end(CharClass::Pid, s, i + 1) + 1);
        w + 1 < s.len() && s[w] == ':' && s[w + 1] == ' '
    }
}

/// The least index at or after `from` where the Time tail completes;
/// the length of `s` when there is none.
pub open spec fn time_split_from(s: Seq<char>, from: int) -> int
    decreases s.len() - from,
{
    if from < 0 || from >= s.len() {
        s.len() as int
    } else if time_tail_ok(s, from) {
        from
    } else {
        time_split_from(s, from + 1)
    }
}

pub open spec fn time_split(s: Seq<char>) -> int {
    time_split_from(s, time_tag_start(s))
}

/// A completing position with none before it determines `time_split_from`
/// exactly.
pub proof fn lemma_time_split_exact(s: Seq<char>, from: int, at: int)
    requires
        0 <= from <= at < s.len(),
        time_tail_ok(s, at),
        forall|i: int| from <= i < at ==> !time_tail_ok(s, i),
    ensures
        time_split_from(s, from) == at,
    decreases at - from,
{
    if from < at {
        lemma_time_split_exact(s, from + 1, at);
    }
}

pub open spec fn time_matches(s: Seq<char>) -> bool {
    &&& s.len() >= 18
    &&& is_timestamp(s.subrange(0, 18))
    &&& newline_free(s)
    &&& time_after_ts(s) + 2 < s.len()
    &&& s[time_after_ts(s)] == ' '
    &&& is_level_char(s[time_after_ts(s) + 1])
    &&& s[time_after_ts(s) + 2] == '/'
    &&& time_split(s) < s.len()
}

pub open spec fn time_record(s: Seq<char>) -> LogcatV {
    let k = time_after_ts(s);
    let i = time_split(s);
    let j = run_end(CharClass::Pid, s, i + 1);
    let w = run_end(CharClass::Ws, s, j + 1);
    LogcatV {
        timestamp: s.subrange(0, 18),
        level: s.subrange(k + 1, k + 2),
        tag: s.subrange(k + 3, i),
        process: trim_ws(s.subrange(i + 1, j)),
        message: s.subrange(w + 2, s.len() as int),
        thread: Seq::empty(),
    }
}

fn time_tail_check(s: &str, i: usize) -> (r: bool)
    requires
        i <= s@.len(),
    ensures
        r == time_tail_ok(s@, i as int),
{
    let n: usize = s.unicode_len();
    if i >= n {
        return false;
    }
    if s.get_char(i) != '(' {
        return false;
    }
    let j: usize = scan_run(CharClass::Pid, s, i + 1);
    if j == i + 1 {
        return false;
    }
    if j == n {
        return false;
    }
    if s.get_char(j) != ')' {
        return false;
    }
    let w: usize = scan_run(CharClass::Ws, s, j + 1);
    if n - w < 2 {
        return false;
    }
    s.get_char(w) == ':' && s.get_char(w + 1) == ' '
}

/// Matcher for the Time shape.
pub fn match_time(line: &str) -> (r: Option<Logcat>)
    ensures
        r is Some <==> time_matches(line@),
        r matches Some(rec) ==> rec@ == time_record(line@),
{
    let n: usize = line.unicode_len();
    if n < 18 {
        return None;
    }
    if !timestamp_prefix(line) {
        return None;
    }
    if !check_newline_free(line) {
        return None;
    }
    let k: usize = if n > 18 && line.get_char(18) == ':' {
        19
    } else {
        18
    };
    assert(k == time_after_ts(line@));
    if n - k < 3 {
        return None;
    }
    if line.get_char(k) != ' ' {
        return None;
    }
    if !level_char(line.get_char(k + 1)) {
        return None;
    }
    if line.get_char(k + 2) != '/' {
        return None;
    }
    let mut i: usize = k + 3;
    loop
        invariant
            k + 3 <= i <= n,
            n == line@.len(),
            time_split_from(line@, k as int + 3) == time_split_from(line@, i as int),
        ensures
            i <= n,
            n == line@.len(),
            time_split_from(line@, k as int + 3) == i,
            i < n ==> time_tail_ok(line@, i as int),
        decreases n - i,
    {
        if i == n {
            break;
        }
        if time_tail_check(line, i) {
            break;
        }
        i = i + 1;
    }
    if i == n {
        return None;
    }
    let j: usize = scan_run(CharClass::Pid, line, i + 1);
    let w: usize = scan_run(CharClass::Ws, line, j + 1);
    let rec = Logcat {
        timestamp: line.substring_char(0, 18).to_owned(),
        level: line.substring_char(k + 1, k + 2).to_owned(),
        tag: line.substring_char(k + 3, i).to_owned(),
        process: trim(line.substring_char(i + 1, j)),
        message: line.substring_char(w + 2, n).to_owned(),
        thread: String::new(),
    };
    proof {
        assert(rec@ =~= time_record(line@));
    }
    Some(rec)
}

// ---------------------------------------------------------------------------
// Brief: `LEVEL/TAG(PID): MESSAGE`
// ---------------------------------------------------------------------------

/// Whether the rest of the Brief shape can complete at `i`: an opening
/// parenthesis, a non-empty run of pid characters, then `"): "`.
pub open spec fn brief_tail_ok(s: Seq<char>, i: int) -> bool {
    &&& 0 <= i < s.len()
    &&& s[i] == '('
    &&& run_end(CharClass::Pid, s, i + 1) > i + 1
    &&& {
        let j = run_end(CharClass::Pid, s, i + 1);
        j + 2 < s.len() && s[j] == ')' && s[j + 1] == ':' && s[j + 2] == ' '
    }
}

/// The least index at or after `from` where the Brief tail completes;
/// the length of `s` when there is none.
pub open spec fn brief_split_from(s: Seq<char>, from: int) -> int
    decreases s.len() - from,
{
    if from < 0 || from >= s.len() {
        s.len() as int
    } else if brief_tail_ok(s, from) {
        from
    } else {
        brief_split_from(s, from + 1)
    }
}

pub open spec fn brief_split(s: Seq<char>) -> int {
    brief_split_from(s, 2)
}

/// A completing position with none before it determines `brief_split_from`
/// exactly.
pub proof fn lemma_brief_split_exact(s: Seq<char>, from: int, at: int)
    requires
        0 <= from <= at < s.len(),
        brief_tail_ok(s, at),
        forall|i: int| from <= i < at ==> !brief_tail_ok(s, i),
    ensures
        brief_split_from(s, from) == at,
    decreases at - from,
{
    if from < at {
        lemma_brief_split_exact(s, from + 1, at);
    }
}

pub open spec fn brief_matches(s: Seq<char>) -> bool {
    &&& s.len() >= 2
    &&& is_level_char(s[0])
    &&& s[1] == '/'
    &&& newline_free(s)
    &&& brief_split(s) < s.len()
}

pub open spec fn brief_record(s: Seq<char>) -> LogcatV {
    let i = brief_split(s);
    let j = run_end(CharClass::Pid, s, i + 1);
    LogcatV {
        timestamp: Seq::empty(),
        level: s.subrange(0, 1),
        tag: s.subrange(2, i),
        process: trim_ws(s.subrange(i + 1, j)),
        message: s.subrange(j + 3, s.len() as int),
        thread: Seq::empty(),
    }
}

fn brief_tail_check(s: &str, i: usize) -> (r: bool)
    requires
        i <= s@.len(),
    ensures
        r == brief_tail_ok(s@, i as int),
{
    let n: usize = s.unicode_len();
    if i >= n {
        return false;
    }
    if s.get_char(i) != '(' {
        return false;
    }
    let j: usize = scan_run(CharClass::Pid, s, i + 1);
    if j == i + 1 {
        return false;
    }
    if n - j < 3 {
        return false;
    }
    s.get_char(j) == ')' && s.get_char(j + 1) == ':' && s.get_char(j + 2) == ' '
}

/// Matcher for the Brief shape.
pub fn match_brief(line: &str) -> (r: Option<Logcat>)
    ensures
        r is Some <==> brief_matches(line@),
        r matches Some(rec) ==> rec@ == brief_record(line@),
{
    let n: usize = line.unicode_len();
    if n < 2 {
        return None;
    }
    if !level_char(line.get_char(0)) {
        return None;
    }
    if line.get_char(1) != '/' {
        return None;
    }
    if !check_newline_free(line) {
        return None;
    }
    let mut i: usize = 2;
    loop
        invariant
            2 <= i <= n,
            n == line@.len(),
            brief_split_from(line@, 2) == brief_split_from(line@, i as int),
        ensures
            i <= n,
            n == line@.len(),
            brief_split_from(line@, 2) == i,
            i < n ==> brief_tail_ok(line@, i as int),
        decreases n - i,
    {
        if i == n {
            break;
        }
        if brief_tail_check(line, i) {
            break;
        }
        i = i + 1;
    }
    if i == n {
        return None;
    }
    let j: usize = scan_run(CharClass::Pid, line, i + 1);
    let rec = Logcat {
        timestamp: String::new(),
        level: line.substring_char(0, 1).to_owned(),
        tag: line.substring_char(2, i).to_owned(),
        process: trim(line.substring_char(i + 1, j)),
        message: line.substring_char(j + 3, n).to_owned(),
        thread: String::new(),
    };
    proof {
        assert(rec@ =~= brief_record(line@));
    }
    Some(rec)
}

// ---------------------------------------------------------------------------
// Process: `LEVEL(PID) MESSAGE (TAG)`
// ---------------------------------------------------------------------------

pub open spec fn proc_pid_end(s: Seq<char>) -> int {
    run_end(CharClass::Pid, s, 2)
}

pub open spec fn proc_msg_start(s: Seq<char>) -> int {
    proc_pid_end(s) + 2
}

/// The message group is greedy, so the trailing parenthesised tag starts at
/// the last `" ("` that leaves room for the closing parenthesis.
pub open spec fn proc_split(s: Seq<char>) -> int {
    last_paren_from(s, s.len() - 3)
}

pub open spec fn process_matches(s: Seq<char>) -> bool {
    &&& s.len() >= 2
    &&& is_level_char(s[0])
    &&& s[1] == '('
    &&& newline_free(s)
    &&& proc_pid_end(s) > 2
    &&& proc_pid_end(s) + 1 < s.len()
    &&& s[proc_pid_end(s)] == ')'
    &&& s[proc_pid_end(s) + 1] == ' '
    &&& s[s.len() - 1] == ')'
    &&& proc_split(s) >= proc_msg_start(s)
}

pub open spec fn proc_record(s: Seq<char>) -> LogcatV {
    let pe = proc_pid_end(s);
    let p = proc_split(s);
    LogcatV {
        timestamp: Seq::empty(),
        level: s.subrange(0, 1),
        tag: s.subrange(p + 2, s.len() - 1),
        process: trim_ws(s.subrange(2, pe)),
        message: s.subrange(pe + 2, p),
        thread: Seq::empty(),
    }
}

/// Matcher for the Process shape.
pub fn match_process(line: &str) -> (r: Option<Logcat>)
    ensures
        r is Some <==> process_matches(line@),
        r matches Some(rec) ==> rec@ == proc_record(line@),
{
    let n: usize = line.unicode_len();
    if n < 2 {
        return None;
    }
    if !level_char(line.get_char(0)) {
        return None;
    }
    if line.get_char(1) != '(' {
        return None;
    }
    if !check_newline_free(line) {
        return None;
    }
    let pe: usize = scan_run(CharClass::Pid, line, 2);
    if pe == 2 {
        return None;
    }
    if n - pe < 2 {
        return None;
    }
    if line.get_char(pe) != ')' {
        return None;
    }
    if line.get_char(pe + 1) != ' ' {
        return None;
    }
    if line.get_char(n - 1) != ')' {
        return None;
    }
    let p: usize = match scan_last_paren(line, n - 3) {
        Some(p) => p,
        None => {
            return None;
        },
    };
    if p < pe + 2 {
        return None;
    }
    proof {
        lemma_last_paren(line@, n as int - 3);
    }
    let rec = Logcat {
        timestamp: String::new(),
        level: line.substring_char(0, 1).to_owned(),
        tag: line.substring_char(p + 2, n - 1).to_owned(),
        process: trim(line.substring_char(2, pe)),
        message: line.substring_char(pe + 2, p).to_owned(),
        thread: String::new(),
    };
    proof {
        assert(rec@ =~= proc_record(line@));
    }
    Some(rec)
}

// ---------------------------------------------------------------------------
// Tag: `LEVEL/TAG: MESSAGE`
// ---------------------------------------------------------------------------

/// The `": "` separator that ends the lazy tag group.
pub open spec fn tag_sep(s: Seq<char>) -> int {
    colon_sep_from(s, 2)
}

pub open spec fn tag_matches(s: Seq<char>) -> bool {
    &&& s.len() >= 2
    &&& is_level_char(s[0])
    &&& s[1] == '/'
    &&& newline_free(s)
    &&& tag_sep(s) < s.len()
}

pub open spec fn tag_record(s: Seq<char>) -> LogcatV {
    LogcatV {
        timestamp: Seq::empty(),
        level: s.subrange(0, 1),
        tag: s.subrange(2, tag_sep(s)),
        process: Seq::empty(),
        message: s.subrange(tag_sep(s) + 2, s.len() as int),
        thread: Seq::empty(),
    }
}

/// Matcher for the Tag shape.
pub fn match_tag(line: &str) -> (r: Option<Logcat>)
    ensures
        r is Some <==> tag_matches(line@),
        r matches Some(rec) ==> rec@ == tag_record(line@),
{
    let n: usize = line.unicode_len();
    if n < 2 {
        return None;
    }
    if !level_char(line.get_char(0)) {
        return None;
    }
    if line.get_char(1) != '/' {
        return None;
    }
    if !check_newline_free(line) {
        return None;
    }
    let sep: usize = scan_colon_sep(line, 2);
    if sep == n {
        return None;
    }
    proof {
        lemma_colon_sep(line@, 2);
    }
    let rec = Logcat {
        timestamp: String::new(),
        level: line.substring_char(0, 1).to_owned(),
        tag: line.substring_char(2, sep).to_owned(),
        process: String::new(),
        message: line.substring_char(sep + 2, n).to_owned(),
        thread: String::new(),
    };
    proof {
        assert(rec@ =~= tag_record(line@));
    }
    Some(rec)
}

// ---------------------------------------------------------------------------
// Classification
// ---------------------------------------------------------------------------

pub open spec fn kind_matches(k: FormatKind, s: Seq<char>) -> bool {
    match k {
        FormatKind::ThreadTime => threadtime_matches(s),
        FormatKind::Time => time_matches(s),
        FormatKind::Brief => brief_matches(s),
        FormatKind::Process => process_matches(s),
        FormatKind::Tag => tag_matches(s),
    }
}

pub open spec fn kind_record(k: FormatKind, s: Seq<char>) -> LogcatV {
    match k {
        FormatKind::ThreadTime => tt_record(s),
        FormatKind::Time => time_record(s),
        FormatKind::Brief => brief_record(s),
        FormatKind::Process => proc_record(s),
        FormatKind::Tag => tag_record(s),
    }
}

/// The format a line classifies as: the first matching shape in the fixed
/// order from the most field-rich to the least.
pub open spec fn classify_kind(s: Seq<char>) -> Option<FormatKind> {
    if threadtime_matches(s) {
        Some(FormatKind::ThreadTime)
    } else if time_matches(s) {
        Some(FormatKind::Time)
    } else if brief_matches(s) {
        Some(FormatKind::Brief)
    } else if process_matches(s) {
        Some(FormatKind::Process)
    } else if tag_matches(s) {
        Some(FormatKind::Tag)
    } else {
        None
    }
}

/// Tries each matcher in the fixed order and returns the first success,
/// with the shape it recognised.
pub fn classify_and_parse(line: &str) -> (r: Option<(FormatKind, Logcat)>)
    ensures
        r is Some <==> classify_kind(line@) is Some,
        r matches Some((k, rec)) ==> classify_kind(line@) == Some(k)
            && rec@ == kind_record(k, line@),
{
    if let Some(rec) = match_threadtime(line) {
        return Some((FormatKind::ThreadTime, rec));
    }
    if let Some(rec) = match_time(line) {
        return Some((FormatKind::Time, rec));
    }
    if let Some(rec) = match_brief(line) {
        return Some((FormatKind::Brief, rec));
    }
    if let Some(rec) = match_process(line) {
        return Some((FormatKind::Process, rec));
    }
    if let Some(rec) = match_tag(line) {
        return Some((FormatKind::Tag, rec));
    }
    None
}

/// Runs the single matcher for `k`: the fast path once a format is locked
/// in.
pub fn match_kind(k: FormatKind, line: &str) -> (r: Option<Logcat>)
    ensures
        r is Some <==> kind_matches(k, line@),
        r matches Some(rec) ==> rec@ == kind_record(k, line@),
{
    match k {
        FormatKind::ThreadTime => match_threadtime(line),
        FormatKind::Time => match_time(line),
        FormatKind::Brief => match_brief(line),
        FormatKind::Process => match_process(line),
        FormatKind::Tag => match_tag(line),
    }
}

/// Matcher precedence: classification picks the first matching shape in
/// the order ThreadTime, Time, Brief, Process, Tag, so a line that also
/// satisfies a looser shape classifies as the more specific one.
pub proof fn lemma_matcher_precedence(s: Seq<char>)
    ensures
        threadtime_matches(s) ==> classify_kind(s) == Some(FormatKind::ThreadTime),
        !threadtime_matches(s) && time_matches(s) ==> classify_kind(s) == Some(
            FormatKind::Time,
        ),
        !threadtime_matches(s) && !time_matches(s) && brief_matches(s) ==> classify_kind(s)
            == Some(FormatKind::Brief),
        !threadtime_matches(s) && !time_matches(s) && !brief_matches(s) && process_matches(s)
            ==> classify_kind(s) == Some(FormatKind::Process),
        !threadtime_matches(s) && !time_matches(s) && !brief_matches(s) && !process_matches(s)
            && tag_matches(s) ==> classify_kind(s) == Some(FormatKind::Tag),
        classify_kind(s) is None <==> forall|k: FormatKind| !kind_matches(k, s),
{
    if classify_kind(s) is None {
        assert forall|k: FormatKind| !kind_matches(k, s) by {
            match k {
                FormatKind::ThreadTime => {},
                FormatKind::Time => {},
                FormatKind::Brief => {},
                FormatKind::Process => {},
                FormatKind::Tag => {},
            }
        }
    } else {
        assert(kind_matches(classify_kind(s).unwrap(), s));
    }
}

/// A classified line matches the shape it classifies as, and a line that
/// matches any shape classifies as some shape.
pub proof fn lemma_classify_matches(s: Seq<char>)
    ensures
        classify_kind(s) matches Some(k) ==> kind_matches(k, s),
        forall|k: FormatKind| kind_matches(k, s) ==> classify_kind(s) is Some,
{
    lemma_matcher_precedence(s);
}

} // verus!
