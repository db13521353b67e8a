//! Round-trip laws: a line built by a shape's own textual template
//! classifies as exactly that shape, and parsing recovers the original
//! fields verbatim — modulo whitespace trimming on the numeric id fields
//! of the shapes that admit padded ids.
//!
//! Each template takes fields that are well-formed for its shape: the
//! severity is one of the six level letters, numeric ids are non-empty
//! digit (or digit-and-space) runs, and a free-text field does not contain
//! the delimiter that ends its own group.
use vstd::prelude::*;
use crate::matchers::{
    brief_matches, brief_record, brief_tail_ok, classify_kind, kind_record,
    lemma_brief_split_exact, lemma_time_split_exact, proc_record, process_matches, tag_matches,
    tag_record, tag_sep, threadtime_matches, time_after_ts, time_matches, time_record,
    time_tail_ok, tt_record, tt_sep,
};
use crate::record::FormatKind;
use crate::text::{
    is_digit_char, is_level_char, is_pid_char, is_timestamp, lemma_colon_sep_exact,
    lemma_last_paren_exact, lemma_run_end_exact, newline_free, trim_ws, CharClass,
};

verus! {

/// The ThreadTime template:
/// `<ts> <pid> <tid> <level> <tag>: <msg>`.
pub open spec fn tt_template(
    ts: Seq<char>,
    pid: Seq<char>,
    tid: Seq<char>,
    level: char,
    tag: Seq<char>,
    msg: Seq<char>,
) -> Seq<char> {
    ts + seq![' '] + pid + seq![' '] + tid + seq![' ', level, ' '] + tag + seq![':', ' '] + msg
}

/// Round trip for ThreadTime: the template classifies as ThreadTime and
/// every field is recovered verbatim.
pub proof fn lemma_threadtime_round_trip(
    ts: Seq<char>,
    pid: Seq<char>,
    tid: Seq<char>,
    level: char,
    tag: Seq<char>,
    msg: Seq<char>,
)
    requires
        is_timestamp(ts),
        pid.len() > 0,
        forall|i: int| 0 <= i < pid.len() ==> is_digit_char(#[trigger] pid[i]),
        tid.len() > 0,
        forall|i: int| 0 <= i < tid.len() ==> is_digit_char(#[trigger] tid[i]),
        is_level_char(level),
        newline_free(tag),
        forall|i: int| 0 <= i < tag.len() - 1 ==> !((#[trigger] tag[i]) == ':' && tag[i + 1]
            == ' '),
        newline_free(msg),
    ensures
        classify_kind(tt_template(ts, pid, tid, level, tag, msg)) == Some(
            FormatKind::ThreadTime,
        ),
        kind_record(FormatKind::ThreadTime, tt_template(ts, pid, tid, level, tag, msg))
            .timestamp == ts,
        kind_record(FormatKind::ThreadTime, tt_template(ts, pid, tid, level, tag, msg)).level
            == seq![level],
        kind_record(FormatKind::ThreadTime, tt_template(ts, pid, tid, level, tag, msg)).tag
            == tag,
        kind_record(FormatKind::ThreadTime, tt_template(ts, pid, tid, level, tag, msg)).process
            == pid,
        kind_record(FormatKind::ThreadTime, tt_template(ts, pid, tid, level, tag, msg)).thread
            == tid,
        kind_record(FormatKind::ThreadTime, tt_template(ts, pid, tid, level, tag, msg)).message
            == msg,
{
    let s = tt_template(ts, pid, tid, level, tag, msg);
    let p = pid.len() as int;
    let t = tid.len() as int;
    let g = tag.len() as int;
    let m = msg.len() as int;
    assert(s.len() == 25 + p + t + g + m);
    assert forall|i: int| 0 <= i < 18 implies s[i] == ts[i] by {}
    assert(s[18] == ' ');
    assert forall|i: int| 0 <= i < p implies s[19 + i] == pid[i] by {}
    assert(s[19 + p] == ' ');
    assert forall|i: int| 0 <= i < t implies s[20 + p + i] == tid[i] by {}
    assert(s[20 + p + t] == ' ');
    assert(s[21 + p + t] == level);
    assert(s[22 + p + t] == ' ');
    assert forall|i: int| 0 <= i < g implies s[23 + p + t + i] == tag[i] by {}
    assert(s[23 + p + t + g] == ':');
    assert(s[24 + p + t + g] == ' ');
    assert forall|i: int| 0 <= i < m implies s[25 + p + t + g + i] == msg[i] by {}

    assert(s.subrange(0, 18) =~= ts);
    lemma_timestamp_no_newline(ts);
    assert forall|i: int| 0 <= i < s.len() implies s[i] != '\n' by {
        if i < 18 {
            assert(s[i] == ts[i]);
        } else if 19 <= i < 19 + p {
            assert(s[i] == pid[i - 19]);
        } else if 20 + p <= i < 20 + p + t {
            assert(s[i] == tid[i - 20 - p]);
        } else if 23 + p + t <= i < 23 + p + t + g {
            assert(s[i] == tag[i - 23 - p - t]);
        } else if 25 + p + t + g <= i {
            assert(s[i] == msg[i - 25 - p - t - g]);
        }
    }
    lemma_run_end_exact(CharClass::Ws, s, 18, 19);
    lemma_run_end_exact(CharClass::Digit, s, 19, 19 + p);
    lemma_run_end_exact(CharClass::Ws, s, 19 + p, 20 + p);
    lemma_run_end_exact(CharClass::Digit, s, 20 + p, 20 + p + t);
    assert forall|j: int| 23 + p + t <= j < 23 + p + t + g implies !((#[trigger] s[j]) == ':'
        && s[j + 1] == ' ') by {
        let u = j - 23 - p - t;
        assert(s[j] == tag[u]);
        if u < g - 1 {
            assert(s[j + 1] == tag[u + 1]);
        } else {
            assert(s[j + 1] == ':');
        }
    }
    lemma_colon_sep_exact(s, 23 + p + t, 23 + p + t + g);
    assert(threadtime_matches(s));
    assert(tt_sep(s) == 23 + p + t + g);
    assert(tt_record(s).timestamp =~= ts);
    assert(tt_record(s).level =~= seq![level]);
    assert(tt_record(s).tag =~= tag);
    assert(tt_record(s).process =~= pid);
    assert(tt_record(s).thread =~= tid);
    assert(tt_record(s).message =~= msg);
}

/// The Time template:
/// `<ts> <level>/<tag>(<pid>): <msg>`.
pub open spec fn time_template(
    ts: Seq<char>,
    level: char,
    tag: Seq<char>,
    pid: Seq<char>,
    msg: Seq<char>,
) -> Seq<char> {
    ts + seq![' ', level, '/'] + tag + seq!['('] + pid + seq![')', ':', ' '] + msg
}

/// Round trip for Time: the template classifies as Time and every field
/// is recovered, the process id modulo whitespace trimming.
pub proof fn lemma_time_round_trip(
    ts: Seq<char>,
    level: char,
    tag: Seq<char>,
    pid: Seq<char>,
    msg: Seq<char>,
)
    requires
        is_timestamp(ts),
        is_level_char(level),
        newline_free(tag),
        forall|i: int| 0 <= i < tag.len() ==> (#[trigger] tag[i]) != '(',
        pid.len() > 0,
        forall|i: int| 0 <= i < pid.len() ==> is_pid_char(#[trigger] pid[i]),
        newline_free(msg),
    ensures
        classify_kind(time_template(ts, level, tag, pid, msg)) == Some(FormatKind::Time),
        kind_record(FormatKind::Time, time_template(ts, level, tag, pid, msg)).timestamp == ts,
        kind_record(FormatKind::Time, time_template(ts, level, tag, pid, msg)).level == seq![
            level,
        ],
        kind_record(FormatKind::Time, time_template(ts, level, tag, pid, msg)).tag == tag,
        kind_record(FormatKind::Time, time_template(ts, level, tag, pid, msg)).process
            == trim_ws(pid),
        kind_record(FormatKind::Time, time_template(ts, level, tag, pid, msg)).thread
            == Seq::<char>::empty(),
        kind_record(FormatKind::Time, time_template(ts, level, tag, pid, msg)).message == msg,
{
    let s = time_template(ts, level, tag, pid, msg);
    let g = tag.len() as int;
    let p = pid.len() as int;
    let m = msg.len() as int;
    assert(s.len() == 25 + g + p + m);
    assert forall|i: int| 0 <= i < 18 implies s[i] == ts[i] by {}
    assert(s[18] == ' ');
    assert(s[19] == level);
    assert(s[20] == '/');
    assert forall|i: int| 0 <= i < g implies s[21 + i] == tag[i] by {}
    assert(s[21 + g] == '(');
    assert forall|i: int| 0 <= i < p implies s[22 + g + i] == pid[i] by {}
    assert(s[22 + g + p] == ')');
    assert(s[23 + g + p] == ':');
    assert(s[24 + g + p] == ' ');
    assert forall|i: int| 0 <= i < m implies s[25 + g + p + i] == msg[i] by {}

    assert(s.subrange(0, 18) =~= ts);
    lemma_timestamp_no_newline(ts);
    assert forall|i: int| 0 <= i < s.len() implies s[i] != '\n' by {
        if i < 18 {
            assert(s[i] == ts[i]);
        } else if 21 <= i < 21 + g {
            assert(s[i] == tag[i - 21]);
        } else if 22 + g <= i < 22 + g + p {
            assert(s[i] == pid[i - 22 - g]);
        } else if 25 + g + p <= i {
            assert(s[i] == msg[i - 25 - g - p]);
        }
    }
    assert(time_after_ts(s) == 18);
    // the looser prefix scans of ThreadTime find an empty pid run here
    lemma_run_end_exact(CharClass::Ws, s, 18, 19);
    lemma_run_end_exact(CharClass::Digit, s, 19, 19);
    assert(!threadtime_matches(s));
    // the tail completes exactly at the parenthesis that ends the tag
    let i0 = 21 + g;
    lemma_run_end_exact(CharClass::Pid, s, i0 + 1, i0 + 1 + p);
    lemma_run_end_exact(CharClass::Ws, s, 23 + g + p, 23 + g + p);
    assert(time_tail_ok(s, i0));
    assert forall|i: int| 21 <= i < i0 implies !time_tail_ok(s, i) by {
        assert(s[i] == tag[i - 21]);
    }
    lemma_time_split_exact(s, 21, i0);
    assert(time_matches(s));
    assert(time_record(s).timestamp =~= ts);
    assert(time_record(s).level =~= seq![level]);
    assert(time_record(s).tag =~= tag);
    assert(s.subrange(i0 + 1, i0 + 1 + p) =~= pid);
    assert(time_record(s).process == trim_ws(pid));
    assert(time_record(s).thread =~= Seq::<char>::empty());
    assert(time_record(s).message =~= msg);
}

/// The Brief template:
/// `<level>/<tag>(<pid>): <msg>`.
pub open spec fn brief_template(
    level: char,
    tag: Seq<char>,
    pid: Seq<char>,
    msg: Seq<char>,
) -> Seq<char> {
    seq![level, '/'] + tag + seq!['('] + pid + seq![')', ':', ' '] + msg
}

/// Round trip for Brief: the template classifies as Brief and every field
/// is recovered, the process id modulo whitespace trimming.
pub proof fn lemma_brief_round_trip(level: char, tag: Seq<char>, pid: Seq<char>, msg: Seq<char>)
    requires
        is_level_char(level),
        newline_free(tag),
        forall|i: int| 0 <= i < tag.len() ==> (#[trigger] tag[i]) != '(',
        pid.len() > 0,
        forall|i: int| 0 <= i < pid.len() ==> is_pid_char(#[trigger] pid[i]),
        newline_free(msg),
    ensures
        classify_kind(brief_template(level, tag, pid, msg)) == Some(FormatKind::Brief),
        kind_record(FormatKind::Brief, brief_template(level, tag, pid, msg)).timestamp
            == Seq::<char>::empty(),
        kind_record(FormatKind::Brief, brief_template(level, tag, pid, msg)).level == seq![
            level,
        ],
        kind_record(FormatKind::Brief, brief_template(level, tag, pid, msg)).tag == tag,
        kind_record(FormatKind::Brief, brief_template(level, tag, pid, msg)).process
            == trim_ws(pid),
        kind_record(FormatKind::Brief, brief_template(level, tag, pid, msg)).thread
            == Seq::<char>::empty(),
        kind_record(FormatKind::Brief, brief_template(level, tag, pid, msg)).message == msg,
{
    let s = brief_template(level, tag, pid, msg);
    let g = tag.len() as int;
    let p = pid.len() as int;
    let m = msg.len() as int;
    assert(s.len() == 6 + g + p + m);
    assert(s[0] == level);
    assert(s[1] == '/');
    assert forall|i: int| 0 <= i < g implies s[2 + i] == tag[i] by {}
    assert(s[2 + g] == '(');
    assert forall|i: int| 0 <= i < p implies s[3 + g + i] == pid[i] by {}
    assert(s[3 + g + p] == ')');
    assert(s[4 + g + p] == ':');
    assert(s[5 + g + p] == ' ');
    assert forall|i: int| 0 <= i < m implies s[6 + g + p + i] == msg[i] by {}

    assert forall|i: int| 0 <= i < s.len() implies s[i] != '\n' by {
        if 2 <= i < 2 + g {
            assert(s[i] == tag[i - 2]);
        } else if 3 + g <= i < 3 + g + p {
            assert(s[i] == pid[i - 3 - g]);
        } else if 6 + g + p <= i {
            assert(s[i] == msg[i - 6 - g - p]);
        }
    }
    lemma_level_not_timestamp(s, level);
    let i0 = 2 + g;
    lemma_run_end_exact(CharClass::Pid, s, i0 + 1, i0 + 1 + p);
    assert(brief_tail_ok(s, i0));
    assert forall|i: int| 2 <= i < i0 implies !brief_tail_ok(s, i) by {
        assert(s[i] == tag[i - 2]);
    }
    lemma_brief_split_exact(s, 2, i0);
    assert(brief_matches(s));
    assert(brief_record(s).timestamp =~= Seq::<char>::empty());
    assert(brief_record(s).level =~= seq![level]);
    assert(brief_record(s).tag =~= tag);
    assert(s.subrange(i0 + 1, i0 + 1 + p) =~= pid);
    assert(brief_record(s).process == trim_ws(pid));
    assert(brief_record(s).thread =~= Seq::<char>::empty());
    assert(brief_record(s).message =~= msg);
}

/// The Process template:
/// `<level>(<pid>) <msg> (<tag>)`.
pub open spec fn process_template(
    level: char,
    pid: Seq<char>,
    msg: Seq<char>,
    tag: Seq<char>,
) -> Seq<char> {
    seq![level, '('] + pid + seq![')', ' '] + msg + seq![' ', '('] + tag + seq![')']
}

/// Round trip for Process: the template classifies as Process and every
/// field is recovered, the process id modulo whitespace trimming.  The
/// message may itself contain `" ("`: the trailing tag starts at the last
/// occurrence, which is the template's own.
pub proof fn lemma_process_round_trip(level: char, pid: Seq<char>, msg: Seq<char>, tag: Seq<
    char,
>)
    requires
        is_level_char(level),
        pid.len() > 0,
        forall|i: int| 0 <= i < pid.len() ==> is_pid_char(#[trigger] pid[i]),
        newline_free(msg),
        newline_free(tag),
        forall|i: int| 0 <= i < tag.len() - 1 ==> !((#[trigger] tag[i]) == ' ' && tag[i + 1]
            == '('),
    ensures
        classify_kind(process_template(level, pid, msg, tag)) == Some(FormatKind::Process),
        kind_record(FormatKind::Process, process_template(level, pid, msg, tag)).timestamp
            == Seq::<char>::empty(),
        kind_record(FormatKind::Process, process_template(level, pid, msg, tag)).level == seq![
            level,
        ],
        kind_record(FormatKind::Process, process_template(level, pid, msg, tag)).tag == tag,
        kind_record(FormatKind::Process, process_template(level, pid, msg, tag)).process
            == trim_ws(pid),
        kind_record(FormatKind::Process, process_template(level, pid, msg, tag)).thread
            == Seq::<char>::empty(),
        kind_record(FormatKind::Process, process_template(level, pid, msg, tag)).message == msg,
{
    let s = process_template(level, pid, msg, tag);
    let p = pid.len() as int;
    let m = msg.len() as int;
    let g = tag.len() as int;
    assert(s.len() == 7 + p + m + g);
    assert(s[0] == level);
    assert(s[1] == '(');
    assert forall|i: int| 0 <= i < p implies s[2 + i] == pid[i] by {}
    assert(s[2 + p] == ')');
    assert(s[3 + p] == ' ');
    assert forall|i: int| 0 <= i < m implies s[4 + p + i] == msg[i] by {}
    let p0 = 4 + p + m;
    assert(s[p0] == ' ');
    assert(s[p0 + 1] == '(');
    assert forall|i: int| 0 <= i < g implies s[p0 + 2 + i] == tag[i] by {}
    assert(s[p0 + 2 + g] == ')');

    assert forall|i: int| 0 <= i < s.len() implies s[i] != '\n' by {
        if 2 <= i < 2 + p {
            assert(s[i] == pid[i - 2]);
        } else if 4 + p <= i < 4 + p + m {
            assert(s[i] == msg[i - 4 - p]);
        } else if p0 + 2 <= i < p0 + 2 + g {
            assert(s[i] == tag[i - p0 - 2]);
        }
    }
    lemma_level_not_timestamp(s, level);
    lemma_run_end_exact(CharClass::Pid, s, 2, 2 + p);
    assert forall|q: int| p0 < q <= s.len() - 3 && q + 1 < s.len() implies !((#[trigger] s[q])
        == ' ' && s[q + 1] == '(') by {
        if q == p0 + 1 {
            assert(s[q] == '(');
        } else {
            assert(s[q] == tag[q - p0 - 2]);
            assert(s[q + 1] == tag[q - p0 - 1]);
        }
    }
    lemma_last_paren_exact(s, s.len() - 3, p0);
    assert(process_matches(s));
    assert(proc_record(s).timestamp =~= Seq::<char>::empty());
    assert(proc_record(s).level =~= seq![level]);
    assert(proc_record(s).tag =~= tag);
    assert(s.subrange(2, 2 + p) =~= pid);
    assert(proc_record(s).process == trim_ws(pid));
    assert(proc_record(s).thread =~= Seq::<char>::empty());
    assert(proc_record(s).message =~= msg);
}

/// The Tag template:
/// `<level>/<tag>: <msg>`.
pub open spec fn tag_template(level: char, tag: Seq<char>, msg: Seq<char>) -> Seq<char> {
    seq![level, '/'] + tag + seq![':', ' '] + msg
}

/// Round trip for Tag: the template classifies as Tag — provided it does
/// not also satisfy the stricter Brief shape, which is tried first — and
/// every field is recovered verbatim.
pub proof fn lemma_tag_round_trip(level: char, tag: Seq<char>, msg: Seq<char>)
    requires
        is_level_char(level),
        newline_free(tag),
        forall|i: int| 0 <= i < tag.len() - 1 ==> !((#[trigger] tag[i]) == ':' && tag[i + 1]
            == ' '),
        newline_free(msg),
        !brief_matches(tag_template(level, tag, msg)),
    ensures
        classify_kind(tag_template(level, tag, msg)) == Some(FormatKind::Tag),
        kind_record(FormatKind::Tag, tag_template(level, tag, msg)).timestamp
            == Seq::<char>::empty(),
        kind_record(FormatKind::Tag, tag_template(level, tag, msg)).level == seq![level],
        kind_record(FormatKind::Tag, tag_template(level, tag, msg)).tag == tag,
        kind_record(FormatKind::Tag, tag_template(level, tag, msg)).process
            == Seq::<char>::empty(),
        kind_record(FormatKind::Tag, tag_template(level, tag, msg)).thread
            == Seq::<char>::empty(),
        kind_record(FormatKind::Tag, tag_template(level, tag, msg)).message == msg,
{
    let s = tag_template(level, tag, msg);
    let g = tag.len() as int;
    let m = msg.len() as int;
    assert(s.len() == 4 + g + m);
    assert(s[0] == level);
    assert(s[1] == '/');
    assert forall|i: int| 0 <= i < g implies s[2 + i] == tag[i] by {}
    assert(s[2 + g] == ':');
    assert(s[3 + g] == ' ');
    assert forall|i: int| 0 <= i < m implies s[4 + g + i] == msg[i] by {}

    assert forall|i: int| 0 <= i < s.len() implies s[i] != '\n' by {
        if 2 <= i < 2 + g {
            assert(s[i] == tag[i - 2]);
        } else if 4 + g <= i {
            assert(s[i] == msg[i - 4 - g]);
        }
    }
    lemma_level_not_timestamp(s, level);
    assert forall|j: int| 2 <= j < 2 + g implies !((#[trigger] s[j]) == ':' && s[j + 1] == ' ')
        by {
        let u = j - 2;
        assert(s[j] == tag[u]);
        if u < g - 1 {
            assert(s[j + 1] == tag[u + 1]);
        } else {
            assert(s[j + 1] == ':');
        }
    }
    lemma_colon_sep_exact(s, 2, 2 + g);
    assert(tag_matches(s));
    assert(tag_sep(s) == 2 + g);
    assert(tag_record(s).timestamp =~= Seq::<char>::empty());
    assert(tag_record(s).level =~= seq![level]);
    assert(tag_record(s).tag =~= tag);
    assert(tag_record(s).process =~= Seq::<char>::empty());
    assert(tag_record(s).thread =~= Seq::<char>::empty());
    assert(tag_record(s).message =~= msg);
}

/// A line that opens with a severity letter cannot carry a time stamp, so
/// it matches neither ThreadTime nor Time.
proof fn lemma_level_not_timestamp(s: Seq<char>, level: char)
    requires
        s.len() > 0,
        s[0] == level,
        is_level_char(level),
    ensures
        !threadtime_matches(s),
        !time_matches(s),
{
    if s.len() >= 18 {
        assert(s.subrange(0, 18)[0] == s[0]);
        assert(!is_digit_char(level));
        assert(!is_timestamp(s.subrange(0, 18)));
    }
}

/// A time stamp contains no newline: every position is a digit or a fixed
/// punctuation character.
pub proof fn lemma_timestamp_no_newline(ts: Seq<char>)
    requires
        is_timestamp(ts),
    ensures
        newline_free(ts),
{
    assert forall|i: int| 0 <= i < ts.len() implies ts[i] != '\n' by {
        if i == 0 {
        } else if i == 1 {
        } else if i == 2 {
        } else if i == 3 {
        } else if i == 4 {
        } else if i == 5 {
        } else if i == 6 {
        } else if i == 7 {
        } else if i == 8 {
        } else if i == 9 {
        } else if i == 10 {
        } else if i == 11 {
        } else if i == 12 {
        } else if i == 13 {
        } else if i == 14 {
        } else if i == 15 {
        } else if i == 16 {
        } else {
            assert(i == 17);
        }
    }
}

} // verus!
