//! Reading the kernel shell's answers: metrics in a command's output,
//! numbers before a unit, whether a command succeeded or finished, and the
//! checks of the phase 3 validation report.
use vstd::prelude::*;
use std::time::Duration;
use crate::scan::{
    chars_of, contains_seq, count_matches, count_matches_exec, find_from, find_seq_from,
    lemma_find_char, line_at, lines, lines_from, rfind_char_before, string_from_chars,
};
use crate::metrics::{MetricMap, metric_entry, metric_in, line_bounds};

verus! {

/// The output of one shell command.
pub struct CommandOutput {
    pub raw_output: String,
    pub parsed_metrics: MetricMap,
    pub success: bool,
    pub execution_time: Duration,
}

/// Whether `c` is numeric (Unicode general category Nd, Nl or No).
pub uninterp spec fn numeric_char(c: char) -> bool;

/// `char::is_numeric`: whether `c` is in a number category of Unicode; the
/// ASCII digits are.
#[verifier::external_body]
fn char_is_numeric(c: char) -> (r: bool)
    ensures
        r == numeric_char(c),
        ('0' <= c && c <= '9') ==> r,
{
    c.is_numeric()
}

/// The number written just before the first `unit` in `line`: the text
/// between the last space before the unit and the unit, when all of it is
/// numeric characters and dots.
pub open spec fn numeric_before(line: Seq<char>, unit: Seq<char>) -> Option<Seq<char>> {
    let u = find_from(line, unit, 0);
    if u < 0 {
        None
    } else {
        let sp = rfind_char_before(line, ' ', u);
        if sp < 0 {
            None
        } else {
            let num = line.subrange(sp + 1, u);
            if forall|k: int| 0 <= k < num.len() ==> numeric_char(#[trigger] num[k]) || num[k] == '.' {
                Some(num)
            } else {
                None
            }
        }
    }
}

/// The metrics one output line adds: a "METRIC key=value" entry, the AI
/// inference latency (in μs) and the Neural Engine utilisation (in %).
pub open spec fn line_metrics(m: Map<Seq<char>, Seq<char>>, line: Seq<char>) -> Map<
    Seq<char>,
    Seq<char>,
> {
    let m1 = match metric_entry(line) {
        Some(e) => m.insert(e.0, e.1),
        None => m,
    };
    let lat = numeric_before(line, "μs"@);
    let m2 = if contains_seq(line, "AI inference latency:"@) && lat is Some {
        m1.insert("ai_inference_latency_us"@, lat->0)
    } else {
        m1
    };
    let util = numeric_before(line, "%"@);
    if contains_seq(line, "Neural Engine utilization:"@) && util is Some {
        m2.insert("neural_engine_utilization"@, util->0)
    } else {
        m2
    }
}

/// The metrics of a command's output lines, later lines overriding earlier.
pub open spec fn command_metrics(ls: Seq<Seq<char>>) -> Map<Seq<char>, Seq<char>>
    decreases ls.len(),
{
    if ls.len() == 0 {
        Map::empty()
    } else {
        line_metrics(command_metrics(ls.drop_last()), ls.last())
    }
}

/// Whether `s` contains `pat`.
pub fn str_contains(s: &str, pat: &str) -> (r: bool)
    ensures
        r == contains_seq(s@, pat@),
{
    let cs = chars_of(s);
    let ps = chars_of(pat);
    match find_seq_from(&cs, &ps, 0) {
        Some(_) => true,
        None => false,
    }
}

/// Whether the characters `line` contain `pat`.
fn chars_contain(line: &Vec<char>, pat: &str) -> (r: bool)
    ensures
        r == contains_seq(line@, pat@),
{
    let ps = chars_of(pat);
    match find_seq_from(line, &ps, 0) {
        Some(_) => true,
        None => false,
    }
}

/// The bounds of the number before the first `unit` in `line`.
fn numeric_bounds(line: &Vec<char>, unit: &Vec<char>) -> (r: Option<(usize, usize)>)
    ensures
        match r {
            Some((a, b)) => a <= b <= line@.len() && numeric_before(line@, unit@) == Some(
                line@.subrange(a as int, b as int),
            ),
            None => numeric_before(line@, unit@) is None,
        },
{
    let u = match find_seq_from(line, unit, 0) {
        Some(u) => u,
        None => {
            return None;
        },
    };
    proof {
        lemma_find_from_bound(line@, unit@, 0);
    }
    let mut j = u;
    while j > 0 && line[j - 1] != ' '
        invariant
            j <= u <= line@.len(),
            rfind_char_before(line@, ' ', u as int) == rfind_char_before(line@, ' ', j as int),
        decreases j,
    {
        j = j - 1;
    }
    if j == 0 {
        return None;
    }
    assert(rfind_char_before(line@, ' ', j as int) == j - 1);
    let mut k = j;
    while k < u
        invariant
            0 < j <= k <= u <= line@.len(),
            rfind_char_before(line@, ' ', u as int) == j - 1,
            find_from(line@, unit@, 0) == u,
            forall|i: int| j <= i < k ==> numeric_char(#[trigger] line@[i]) || line@[i] == '.',
        decreases u - k,
    {
        let c = line[k];
        if !(char_is_numeric(c) || c == '.') {
            proof {
                let num = line@.subrange(j as int, u as int);
                assert(num[k - j] == c);
                assert(!(numeric_char(num[k - j]) || num[k - j] == '.'));
            }
            return None;
        }
        k = k + 1;
    }
    proof {
        let num = line@.subrange(j as int, u as int);
        assert forall|i: int| 0 <= i < num.len() implies numeric_char(#[trigger] num[i]) || num[i] == '.' by {
            assert(num[i] == line@[j + i]);
        }
    }
    Some((j, u))
}

/// The number written just before the first `unit` in `line`, if the text
/// between the last space before it and the unit is all numeric characters
/// and dots.
pub fn extract_numeric_value(line: &str, unit: &str) -> (r: Option<String>)
    ensures
        match r {
            Some(s) => numeric_before(line@, unit@) == Some(s@),
            None => numeric_before(line@, unit@) is None,
        },
{
    let cs = chars_of(line);
    let us = chars_of(unit);
    match numeric_bounds(&cs, &us) {
        Some((a, b)) => Some(string_from_chars(&cs, a, b)),
        None => None,
    }
}

/// The characters `cs[lo..hi]`.
fn copy_chars(cs: &Vec<char>, lo: usize, hi: usize) -> (v: Vec<char>)
    requires
        lo <= hi <= cs@.len(),
    ensures
        v@ == cs@.subrange(lo as int, hi as int),
{
    let mut v: Vec<char> = Vec::new();
    let mut i = lo;
    while i < hi
        invariant
            lo <= i <= hi <= cs@.len(),
            v@ == cs@.subrange(lo as int, i as int),
        decreases hi - i,
    {
        v.push(cs[i]);
        assert(v@ =~= cs@.subrange(lo as int, i + 1));
        i = i + 1;
    }
    v
}

/// Add the metrics of one output line to `m`.
fn add_line_metrics(m: &mut MetricMap, line: &Vec<char>)
    ensures
        final(m)@ == line_metrics(old(m)@, line@),
{
    proof {
        assert(line@.subrange(0, line@.len() as int) =~= line@);
    }
    match metric_in(line, 0, line.len()) {
        Some((k, v)) => m.insert(k, v),
        None => {},
    }
    if chars_contain(line, "AI inference latency:") {
        let us = chars_of("μs");
        match numeric_bounds(line, &us) {
            Some((a, b)) => m.insert("ai_inference_latency_us".to_owned(), string_from_chars(line, a, b)),
            None => {},
        }
    }
    if chars_contain(line, "Neural Engine utilization:") {
        let us = chars_of("%");
        match numeric_bounds(line, &us) {
            Some((a, b)) => m.insert("neural_engine_utilization".to_owned(), string_from_chars(line, a, b)),
            None => {},
        }
    }
}

/// The metrics in a command's output: every "METRIC key=value" line, the
/// number before "μs" on a line holding "AI inference latency:" (as
/// "ai_inference_latency_us") and the number before "%" on a line holding
/// "Neural Engine utilization:" (as "neural_engine_utilization").
pub fn parse_command_output(output: &str) -> (m: MetricMap)
    ensures
        m@ == command_metrics(lines(output@)),
{
    let cs = chars_of(output);
    let mut m = MetricMap::new();
    let ghost mut done: Seq<Seq<char>> = seq![];
    let mut p: usize = 0;
    while p < cs.len()
        invariant
            cs@ == output@,
            p <= cs@.len(),
            lines(cs@) == done + lines_from(cs@, p as int),
            m@ == command_metrics(done),
        decreases cs@.len() - p,
    {
        let (e, te) = line_bounds(&cs, p);
        let line = copy_chars(&cs, p, te);
        let ghost l = line_at(cs@, p as int);
        proof {
            assert(lines_from(cs@, p as int) == seq![l] + lines_from(cs@, e + 1));
            assert(done.push(l).drop_last() =~= done);
            assert(done + lines_from(cs@, p as int) =~= done.push(l) + lines_from(cs@, e + 1));
        }
        add_line_metrics(&mut m, &line);
        proof {
            done = done.push(l);
        }
        if e >= cs.len() {
            p = cs.len();
        } else {
            p = e + 1;
        }
    }
    assert(done + lines_from(cs@, p as int) =~= done);
    m
}

/// How many times `pattern` occurs in `text` without overlaps, as a `u32`
/// (keeping the low 32 bits).
pub fn count_pattern_occurrences(text: &str, pattern: &str) -> (n: u32)
    requires
        text@.len() < usize::MAX,
    ensures
        n == count_matches(text@, pattern@) as u32,
{
    let cs = chars_of(text);
    let ps = chars_of(pattern);
    let c = count_matches_exec(&cs, &ps);
    c as u32
}

/// Whether a command succeeded, judged by its output: the three validation
/// commands by their completion banners, any other by the absence of
/// "ERROR" and "FAIL".
pub fn determine_command_success(output: &str, command: &str) -> (r: bool)
    ensures
        r == if command@ == "rtaivalidation"@ {
            contains_seq(output@, "[RT-AI VALIDATION] Real-time AI validation complete"@)
        } else if command@ == "temporaliso"@ {
            contains_seq(output@, "[TEMPORAL ISOLATION] Temporal isolation validation complete"@)
        } else if command@ == "phase3validation"@ {
            contains_seq(output@, "[PHASE 3 VALIDATION] Phase 3 validation complete"@)
        } else {
            !contains_seq(output@, "ERROR"@) && !contains_seq(output@, "FAIL"@)
        },
{
    if crate::text::str_eq(command, "rtaivalidation") {
        str_contains(output, "[RT-AI VALIDATION] Real-time AI validation complete")
    } else if crate::text::str_eq(command, "temporaliso") {
        str_contains(output, "[TEMPORAL ISOLATION] Temporal isolation validation complete")
    } else if crate::text::str_eq(command, "phase3validation") {
        str_contains(output, "[PHASE 3 VALIDATION] Phase 3 validation complete")
    } else {
        !str_contains(output, "ERROR") && !str_contains(output, "FAIL")
    }
}

/// The texts whose appearance shows that `command` has finished.
pub open spec fn completion_patterns(command: Seq<char>) -> Seq<Seq<char>> {
    if command == "rtaivalidation"@ {
        seq!["[RT-AI VALIDATION] Real-time AI validation complete"@, "sis>"@]
    } else if command == "temporaliso"@ {
        seq!["[TEMPORAL ISOLATION] Temporal isolation validation complete"@, "sis>"@]
    } else if command == "phase3validation"@ {
        seq![
            "[PHASE 3 VALIDATION] Phase 3 validation complete"@,
            "Phase 3 validation complete - AI-native kernel operational"@,
            "[NPU] Processing test inference job"@,
            "[NPU PERF] NPU driver performance validation complete"@,
            "sis>"@,
        ]
    } else {
        seq!["sis>"@]
    }
}

/// The texts that show that `command` has finished, in the order tried.
pub fn expected_completion_patterns(command: &str) -> (v: Vec<&'static str>)
    ensures
        v@.map_values(|p: &'static str| p@) == completion_patterns(command@),
{
    let v: Vec<&'static str> = if crate::text::str_eq(command, "rtaivalidation") {
        vec!["[RT-AI VALIDATION] Real-time AI validation complete", "sis>"]
    } else if crate::text::str_eq(command, "temporaliso") {
        vec!["[TEMPORAL ISOLATION] Temporal isolation validation complete", "sis>"]
    } else if crate::text::str_eq(command, "phase3validation") {
        vec![
            "[PHASE 3 VALIDATION] Phase 3 validation complete",
            "Phase 3 validation complete - AI-native kernel operational",
            "[NPU] Processing test inference job",
            "[NPU PERF] NPU driver performance validation complete",
            "sis>",
        ]
    } else {
        vec!["sis>"]
    };
    assert(v@.map_values(|p: &'static str| p@) =~= completion_patterns(command@));
    v
}

/// The first completion pattern of `command` that `output` contains, if any.
pub fn completed_with(command: &str, output: &str) -> (r: Option<&'static str>)
    ensures
        match r {
            Some(p) => completion_patterns(command@).contains(p@) && contains_seq(output@, p@),
            None => forall|i: int|
                0 <= i < completion_patterns(command@).len() ==> !contains_seq(
                    output@,
                    #[trigger] completion_patterns(command@)[i],
                ),
        },
{
    let patterns = expected_completion_patterns(command);
    let ghost ps = completion_patterns(command@);
    let mut i: usize = 0;
    while i < patterns.len()
        invariant
            i <= patterns@.len(),
            patterns@.map_values(|p: &'static str| p@) == ps,
            ps == completion_patterns(command@),
            forall|k: int| 0 <= k < i ==> !contains_seq(output@, #[trigger] ps[k]),
        decreases patterns@.len() - i,
    {
        let p = patterns[i];
        assert(ps[i as int] == p@);
        if str_contains(output, p) {
            return Some(p);
        }
        i = i + 1;
    }
    None
}

/// What the phase 3 validation report shows.
pub struct Phase3Checks {
    pub cbs_edf_scheduler_validated: bool,
    pub npu_driver_functional: bool,
    pub real_time_guarantees_verified: bool,
    pub ai_native_kernel_operational: bool,
    /// The number of "OK" in the report.
    pub validation_tests_passed: u32,
    /// The number of "OK" and "FAIL" in the report.
    pub validation_tests_total: u32,
    /// The report announces that the kernel is operational.
    pub validation_complete: bool,
}

/// The checks of a phase 3 validation report.
pub fn parse_phase3_output(raw: &str) -> (c: Phase3Checks)
    requires
        raw@.len() < usize::MAX,
        (count_matches(raw@, "OK"@) as u32) + (count_matches(raw@, "FAIL"@) as u32) <= u32::MAX,
    ensures
        c.cbs_edf_scheduler_validated == contains_seq(raw@, "CBS+EDF scheduler integration validated"@),
        c.npu_driver_functional == contains_seq(raw@, "NPU driver operational"@),
        c.real_time_guarantees_verified == contains_seq(raw@, "Real-time guarantees verified"@),
        c.ai_native_kernel_operational == contains_seq(raw@, "AI-native kernel operational"@),
        c.validation_tests_passed == count_matches(raw@, "OK"@) as u32,
        c.validation_tests_total == (count_matches(raw@, "OK"@) as u32) + (count_matches(
            raw@,
            "FAIL"@,
        ) as u32),
        c.validation_complete == contains_seq(
            raw@,
            "Phase 3 validation complete - AI-native kernel operational"@,
        ),
{
    let ok = count_pattern_occurrences(raw, "OK");
    let fail = count_pattern_occurrences(raw, "FAIL");
    Phase3Checks {
        cbs_edf_scheduler_validated: str_contains(raw, "CBS+EDF scheduler integration validated"),
        npu_driver_functional: str_contains(raw, "NPU driver operational"),
        real_time_guarantees_verified: str_contains(raw, "Real-time guarantees verified"),
        ai_native_kernel_operational: str_contains(raw, "AI-native kernel operational"),
        validation_tests_passed: ok,
        validation_tests_total: ok + fail,
        validation_complete: str_contains(
            raw,
            "Phase 3 validation complete - AI-native kernel operational",
        ),
    }
}

/// The serial port of a QEMU instance: its monitor port less 100.
pub fn serial_port_for(monitor_port: u16) -> (p: u16)
    requires
        monitor_port >= 100,
    ensures
        p == monitor_port - 100,
{
    monitor_port - 100
}

/// `find_from` gives -1 or a position where the pattern fits in the text.
proof fn lemma_find_from_bound(s: Seq<char>, pat: Seq<char>, i: int)
    requires
        0 <= i,
    ensures
        find_from(s, pat, i) == -1 || (i <= find_from(s, pat, i) && find_from(s, pat, i)
            + pat.len() <= s.len()),
    decreases s.len() + 1 - i,
{
    if i + pat.len() <= s.len() && !(0 <= i && i + pat.len() <= s.len() && s.subrange(
        i,
        i + pat.len(),
    ) == pat) {
        lemma_find_from_bound(s, pat, i + 1);
    }
}

} // verus!
