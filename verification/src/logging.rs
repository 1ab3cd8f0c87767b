//! The daemon's log: what a line carries, which files hold it and which of it is read back.
use vstd::prelude::*;
use vstd::utf8::encode_utf8;

use crate::ipc::paths::{join, joined};
use crate::ipc::{EventView, Paths, Timestamp};
use crate::names::{
    class_name, class_text, decision_name, decision_text, health_name, health_text, hop_name,
    hop_text,
};
use crate::text;
use crate::text::{begins, contents, first_of, last_of, trimmed_end};
use crate::time::{Duration, SystemTime};

verus! {

/// Number of daily log files kept, the one being written included.
pub const KEPT_FILES: usize = 7;

/// The one line a routed connection leaves in the log.
///
/// It carries the fields of [`EventView`] and nothing else: no request line, header or credential
/// ever reaches the log.
#[derive(Debug, Clone, PartialEq, Eq)]
pub struct DecisionLine<'a> {
    /// Destination host.
    pub host: &'a str,
    /// Destination port.
    pub port: u64,
    /// Word for the decision.
    pub decision: &'static str,
    /// Index of the matching rule.
    pub rule_index: Option<u64>,
    /// Word for the class of the matching rule.
    pub class: Option<&'static str>,
    /// Word for the verdict.
    pub upstream: &'static str,
    /// How long the dial took.
    pub connect_ms: Option<u64>,
    /// Word for the hop really taken.
    pub hop: Option<&'static str>,
    /// How long the connection lasted.
    pub duration_ms: u64,
    /// Why it ended badly.
    pub error: Option<&'a str>,
}

/// Returns the line a routed connection leaves in the log.
pub fn decision<'a>(event: &'a EventView) -> (r: DecisionLine<'a>)
    ensures
        r.host@ == event.host.0@,
        r.port == event.port.0,
        r.decision@ == decision_text(event.decision),
        match event.rule_index {
            Some(index) => r.rule_index == Some(index as u64),
            None => r.rule_index is None,
        },
        match event.class {
            Some(class) => r.class matches Some(word) && word@ == class_text(class),
            None => r.class is None,
        },
        r.upstream@ == health_text(event.upstream),
        r.connect_ms == event.connect_ms,
        match event.hop {
            Some(hop) => r.hop matches Some(word) && word@ == hop_text(hop),
            None => r.hop is None,
        },
        r.duration_ms == event.duration_ms,
        match event.error {
            Some(error) => r.error matches Some(shown) && shown@ == error@,
            None => r.error is None,
        },
{
    let rule_index: Option<u64> = match event.rule_index {
        Some(index) => Some(index as u64),
        None => None,
    };
    let class = match event.class {
        Some(class) => Some(class_name(class)),
        None => None,
    };
    let hop = match event.hop {
        Some(hop) => Some(hop_name(hop)),
        None => None,
    };
    let error = match &event.error {
        Some(error) => Some(error.as_str()),
        None => None,
    };
    DecisionLine {
        host: event.host.0.as_str(),
        port: event.port.0 as u64,
        decision: decision_name(event.decision),
        rule_index,
        class,
        upstream: health_name(event.upstream),
        connect_ms: event.connect_ms,
        hop,
        duration_ms: event.duration_ms,
        error,
    }
}

/// Whether one name comes before another or is it: the first character that differs decides.
pub open spec fn in_order(a: Seq<char>, b: Seq<char>) -> bool
    decreases a.len(),
{
    if a.len() == 0 {
        true
    } else if b.len() == 0 {
        false
    } else if a[0] != b[0] {
        a[0] < b[0]
    } else {
        in_order(a.skip(1), b.skip(1))
    }
}

/// Names in order.
pub open spec fn sorted(names: Seq<Seq<char>>) -> bool {
    forall|i: int, j: int|
        0 <= i < j < names.len() ==> in_order(#[trigger] names[i], #[trigger] names[j])
}

/// The names that begin with a prefix, in the order they came.
pub open spec fn with_prefix(names: Seq<Seq<char>>, prefix: Seq<char>) -> Seq<Seq<char>>
    decreases names.len(),
{
    if names.len() == 0 {
        Seq::empty()
    } else if begins(names.last(), prefix) {
        with_prefix(names.drop_last(), prefix).push(names.last())
    } else {
        with_prefix(names.drop_last(), prefix)
    }
}

fn precedes(a: &str, b: &str) -> (r: bool)
    ensures
        r == in_order(a@, b@),
{
    let x = text::chars_of(a);
    let y = text::chars_of(b);
    let mut i: usize = 0;
    assert(x@.skip(0) =~= x@);
    assert(y@.skip(0) =~= y@);
    while i < x.len() && i < y.len()
        invariant
            x@ == a@,
            y@ == b@,
            i <= x.len(),
            i <= y.len(),
            in_order(a@, b@) == in_order(a@.skip(i as int), b@.skip(i as int)),
        decreases x.len() - i,
    {
        let ghost s = a@.skip(i as int);
        let ghost t = b@.skip(i as int);
        assert(s[0] == x@[i as int] && t[0] == y@[i as int]);
        if x[i] != y[i] {
            return x[i] < y[i];
        }
        assert(s.skip(1) =~= a@.skip(i + 1));
        assert(t.skip(1) =~= b@.skip(i + 1));
        i += 1;
    }
    assert(a@.skip(i as int).len() == x.len() - i);
    assert(b@.skip(i as int).len() == y.len() - i);
    i == x.len()
}

proof fn lemma_order_total(a: Seq<char>, b: Seq<char>)
    ensures
        in_order(a, b) || in_order(b, a),
    decreases a.len(),
{
    if a.len() > 0 && b.len() > 0 && a[0] == b[0] {
        lemma_order_total(a.skip(1), b.skip(1));
    }
}

proof fn lemma_order_transitive(a: Seq<char>, b: Seq<char>, c: Seq<char>)
    requires
        in_order(a, b),
        in_order(b, c),
    ensures
        in_order(a, c),
    decreases a.len(),
{
    if a.len() > 0 && b.len() > 0 && c.len() > 0 && a[0] == b[0] && b[0] == c[0] {
        lemma_order_transitive(a.skip(1), b.skip(1), c.skip(1));
    }
}

/// Picks the names that begin with a prefix and puts them in order.
pub fn kept(names: &Vec<String>, prefix: &str) -> (r: Vec<String>)
    ensures
        sorted(contents(r@)),
        contents(r@).to_multiset() == with_prefix(contents(names@), prefix@).to_multiset(),
{
    let mut r: Vec<String> = Vec::new();
    let ghost all = contents(names@);
    let mut i: usize = 0;
    assert(all.take(0) =~= Seq::<Seq<char>>::empty());
    assert(contents(r@) =~= Seq::<Seq<char>>::empty());
    while i < names.len()
        invariant
            all == contents(names@),
            i <= names.len(),
            sorted(contents(r@)),
            contents(r@).to_multiset() == with_prefix(all.take(i as int), prefix@).to_multiset(),
        decreases names.len() - i,
    {
        let ghost longer = all.take(i + 1);
        assert(longer.drop_last() =~= all.take(i as int));
        assert(longer.last() == names@[i as int]@);
        let name = names[i].as_str();
        let matches = match text::strip_prefix(name, prefix) {
            Some(_) => true,
            None => false,
        };
        if matches {
            let ghost before = contents(r@);
            let at = position(&r, name);
            r.insert(at, names[i].clone());
            assert(contents(r@) =~= before.insert(at as int, name@));
            proof {
                vstd::seq_lib::to_multiset_insert(before, at as int, name@);
                let chosen = with_prefix(all.take(i as int), prefix@);
                chosen.to_multiset_ensures();
                lemma_sorted_insert(before, at as int, name@);
            }
        }
        i += 1;
    }
    assert(all.take(i as int) =~= all);
    r
}

proof fn lemma_sorted_insert(s: Seq<Seq<char>>, at: int, x: Seq<char>)
    requires
        sorted(s),
        0 <= at <= s.len(),
        forall|j: int| 0 <= j < at ==> in_order(#[trigger] s[j], x),
        forall|j: int| at <= j < s.len() ==> in_order(x, #[trigger] s[j]),
    ensures
        sorted(s.insert(at, x)),
{
    let t = s.insert(at, x);
    assert forall|i: int, j: int| 0 <= i < j < t.len() implies in_order(
        #[trigger] t[i],
        #[trigger] t[j],
    ) by {
        let a = if i < at {
            s[i]
        } else if i == at {
            x
        } else {
            s[i - 1]
        };
        let b = if j < at {
            s[j]
        } else if j == at {
            x
        } else {
            s[j - 1]
        };
        assert(t[i] == a && t[j] == b);
    }
}

fn position(names: &Vec<String>, name: &str) -> (at: usize)
    requires
        sorted(contents(names@)),
    ensures
        at <= names.len(),
        forall|j: int| 0 <= j < at ==> in_order(#[trigger] contents(names@)[j], name@),
        forall|j: int| at <= j < names.len() ==> in_order(name@, #[trigger] contents(names@)[j]),
{
    let ghost all = contents(names@);
    let mut at: usize = 0;
    while at < names.len() && precedes(names[at].as_str(), name)
        invariant
            all == contents(names@),
            at <= names.len(),
            forall|j: int| 0 <= j < at ==> in_order(#[trigger] all[j], name@),
        decreases names.len() - at,
    {
        assert(all[at as int] == names@[at as int]@);
        at += 1;
    }
    proof {
        assert forall|j: int| at <= j < names.len() implies in_order(name@, #[trigger] all[j]) by {
            assert(all[at as int] == names@[at as int]@);
            lemma_order_total(all[at as int], name@);
            if j > at {
                assert(in_order(all[at as int], all[j]));
                lemma_order_transitive(name@, all[at as int], all[j]);
            }
        }
    }
    at
}

/// The paths of entries of a directory.
pub open spec fn below(dir: Seq<char>, names: Seq<Seq<char>>) -> Seq<Seq<char>> {
    Seq::new(names.len(), |i: int| joined(dir, names[i]))
}

/// Whether these are the log files among the entries of a directory, in chronological order.
pub open spec fn are_log_files(
    files: Seq<Seq<char>>,
    dir: Seq<char>,
    names: Seq<Seq<char>>,
    chosen: Seq<Seq<char>>,
) -> bool {
    &&& sorted(chosen)
    &&& chosen.to_multiset() == with_prefix(names, "nhop.log"@).to_multiset()
    &&& files == below(dir, chosen)
}

/// Returns the kept log files in chronological order, the one being written last, out of the names
/// the state directory holds.
pub fn files(paths: &Paths, names: &Vec<String>) -> (r: Vec<String>)
    ensures
        exists|chosen: Seq<Seq<char>>| #[trigger]
            are_log_files(contents(r@), paths.state(), contents(names@), chosen),
{
    let chosen = kept(names, "nhop.log");
    let mut r: Vec<String> = Vec::new();
    let mut i: usize = 0;
    while i < chosen.len()
        invariant
            i <= chosen.len(),
            r.len() == i,
            forall|j: int|
                0 <= j < i ==> (#[trigger] r@[j])@ == joined(paths.state(), chosen@[j]@),
        decreases chosen.len() - i,
    {
        r.push(join(paths.state_dir(), chosen[i].as_str()));
        i += 1;
    }
    assert(contents(r@) =~= below(paths.state(), contents(chosen@)));
    assert(are_log_files(contents(r@), paths.state(), contents(names@), contents(chosen@)));
    r
}

/// Returns where a file is read from: a file shorter than the offset was rotated away underneath
/// the reader and is read from its start again.
pub fn resumed(len: u64, offset: u64) -> (r: u64)
    ensures
        r == if len < offset {
            0
        } else {
            offset
        },
{
    if len < offset {
        0
    } else {
        offset
    }
}

/// How many characters of a text are complete lines.
pub open spec fn complete(s: Seq<char>) -> nat {
    (last_of(s, '\n') + 1) as nat
}

/// The complete lines of a text, without their trailing white space.
pub open spec fn full_lines(s: Seq<char>) -> Seq<Seq<char>>
    decreases s.len(),
{
    let k = first_of(s, '\n') as int;
    if k >= s.len() {
        Seq::empty()
    } else {
        seq![trimmed_end(s.take(k + 1))] + full_lines(s.skip(k + 1))
    }
}

/// Returns the complete lines of what a log file holds past an offset, and the offset they end at.
pub fn read_from(read: &str, offset: u64) -> (r: (Vec<String>, u64))
    requires
        offset + encode_utf8(read@.take(complete(read@) as int)).len() as usize <= u64::MAX,
    ensures
        contents(r.0@) == full_lines(read@),
        r.1 == offset + encode_utf8(read@.take(complete(read@) as int)).len() as usize,
{
    let mut lines: Vec<String> = Vec::new();
    let mut rest: &str = read;
    assert(contents(lines@) + full_lines(rest@) =~= full_lines(read@));
    loop
        invariant
            contents(lines@) + full_lines(rest@) == full_lines(read@),
        ensures
            contents(lines@) == full_lines(read@),
        decreases rest@.len(),
    {
        let chars = text::chars_of(rest);
        let k = text::find(&chars, '\n');
        if k >= chars.len() {
            assert(full_lines(rest@) =~= Seq::<Seq<char>>::empty());
            assert(contents(lines@) + full_lines(rest@) =~= contents(lines@));
            break;
        }
        let ghost before = contents(lines@);
        let line = rest.substring_char(0, k + 1);
        let tail = rest.substring_char(k + 1, chars.len());
        assert(line@ =~= rest@.take(k + 1));
        assert(tail@ =~= rest@.skip(k + 1));
        lines.push(text::trim_end(line).to_owned());
        assert(contents(lines@) =~= before + seq![trimmed_end(line@)]);
        assert(before + full_lines(rest@) =~= contents(lines@) + full_lines(tail@));
        rest = tail;
    }
    proof {
        text::lemma_last_of(read@, '\n');
    }
    let consumed: usize = match text::rsplit_once(read, '\n') {
        None => {
            assert(read@.take(complete(read@) as int) =~= Seq::<char>::empty());
            assert(encode_utf8(Seq::<char>::empty()) =~= Seq::<u8>::empty());
            0
        },
        Some((_, tail)) => {
            let total = read.unicode_len();
            let open = tail.unicode_len();
            let whole = read.substring_char(0, total - open);
            assert(whole@ =~= read@.take(complete(read@) as int));
            whole.len()
        },
    };
    (lines, offset + consumed as u64)
}

/// Stretch of the log `--since` asks for.
#[derive(Debug, Clone, Copy, PartialEq, Eq, Structural)]
pub enum Window {
    /// Everything.
    All,
    /// Only lines stamped at or after this instant are printed.
    Since(SystemTime),
}

/// The text under a key of the object a line holds.
pub uninterp spec fn json_text(line: Seq<char>, key: Seq<char>) -> Option<Seq<char>>;

/// Parses a line with `serde_json::from_str` and takes the value under a key with
/// `serde_json::Value::get` and `as_str`: present only where the line is one JSON object that holds
/// a string under that key. The result depends on the line and the key alone.
#[verifier::external_body]
fn read_json_text(line: &str, key: &str) -> (r: Option<String>)
    ensures
        match r {
            Some(found) => json_text(line@, key@) == Some(found@),
            None => json_text(line@, key@) is None,
        },
{
    let line = serde_json::from_str::<serde_json::Value>(line).ok()?;
    let found = line.get(key)?.as_str()?;
    Some(found.to_owned())
}

/// When a line was written, absent where it does not say.
pub open spec fn stamp(line: Seq<char>) -> Option<SystemTime> {
    match json_text(line, "timestamp"@) {
        Some(at) => match Timestamp::read(at) {
            Some(at) => Some(at.0),
            None => None,
        },
        None => None,
    }
}

/// Returns when a line was written, absent where it does not say.
pub fn stamped(line: &str) -> (r: Option<SystemTime>)
    ensures
        r == stamp(line@),
        r matches Some(at) ==> at.valid() && at.written(),
{
    match read_json_text(line, "timestamp") {
        Some(at) => match Timestamp::parse(at.as_str()) {
            Some(at) => Some(at.0),
            None => None,
        },
        None => None,
    }
}

impl Window {
    /// The cutoff is an instant.
    pub open spec fn valid(self) -> bool {
        self matches Window::Since(cutoff) ==> cutoff.valid()
    }

    /// Whether an instant, where there is one, falls inside the window.
    pub open spec fn spans(self, at: Option<SystemTime>) -> bool {
        match self {
            Window::All => true,
            Window::Since(cutoff) => at matches Some(at) && at.total() >= cutoff.total(),
        }
    }

    /// Returns the window that begins a span before now, everything where that cannot be
    /// represented.
    pub fn reaching_back(now: SystemTime, window: Duration) -> (r: Window)
        requires
            now.valid(),
            window.valid(),
        ensures
            r.valid(),
            match r {
                Window::All => now.total() - window.total() < i64::MIN
                    * crate::time::NANOS_PER_SEC,
                Window::Since(cutoff) => cutoff.total() == now.total() - window.total(),
            },
    {
        match now.checked_sub(window) {
            None => Window::All,
            Some(cutoff) => Window::Since(cutoff),
        }
    }

    /// Returns the window an invocation asks for: one that begins a span before now, everything
    /// where it names no span.
    pub fn asked(now: SystemTime, since: Option<Duration>) -> (r: Window)
        requires
            now.valid(),
            since matches Some(since) ==> since.valid(),
        ensures
            r.valid(),
            match (r, since) {
                (Window::All, None) => true,
                (Window::All, Some(since)) => now.total() - since.total() < i64::MIN
                    * crate::time::NANOS_PER_SEC,
                (Window::Since(cutoff), None) => false,
                (Window::Since(cutoff), Some(since)) => cutoff.total() == now.total()
                    - since.total(),
            },
    {
        match since {
            None => Window::All,
            Some(since) => Window::reaching_back(now, since),
        }
    }

    /// Returns whether an instant, where there is one, falls inside the window; one that is not
    /// known falls inside none but [`Window::All`].
    pub fn covers(&self, at: Option<SystemTime>) -> (r: bool)
        requires
            self.valid(),
            at matches Some(at) ==> at.valid(),
        ensures
            r == self.spans(at),
    {
        match self {
            Window::All => true,
            Window::Since(cutoff) => match at {
                None => false,
                Some(at) => at.reaches(*cutoff),
            },
        }
    }

    /// Returns whether a line falls inside the window; one that cannot be placed in time falls
    /// inside none but [`Window::All`].
    pub fn holds(&self, line: &str) -> (r: bool)
        requires
            self.valid(),
        ensures
            r == self.spans(stamp(line@)),
    {
        self.covers(stamped(line))
    }
}

/// One line of the log and the decision it records, where it records one.
#[derive(Debug, Clone, PartialEq, Eq)]
pub struct LogLine {
    /// The line as it stands in the file.
    pub line: String,
    /// The decision it records.
    pub logged: Option<LoggedDecision>,
}

/// One routing decision read back out of the log.
#[derive(Debug, Clone, PartialEq, Eq)]
pub struct LoggedDecision {
    /// When it was logged.
    pub at: Timestamp,
    /// What was logged.
    pub event: EventView,
}

proof fn lemma_full_lines_split(s: Seq<char>, t: Seq<char>)
    requires
        s.len() > 0 ==> s.last() == '\n',
    ensures
        full_lines(s + t) == full_lines(s) + full_lines(t),
    decreases s.len(),
{
    if s.len() == 0 {
        assert(s + t =~= t);
        assert(full_lines(s) + full_lines(t) =~= full_lines(t));
    } else {
        text::lemma_first_of(s, '\n');
        let k = first_of(s, '\n') as int;
        if k >= s.len() {
            assert(s[s.len() - 1] != '\n');
        }
        let st = s + t;
        assert forall|j: int| 0 <= j < k implies st[j] != '\n' by {
            assert(st[j] == s[j]);
        }
        assert(st[k] == s[k]);
        text::lemma_first_of_is(st, '\n', k);
        let rest = s.skip(k + 1);
        assert(st.take(k + 1) =~= s.take(k + 1));
        assert(st.skip(k + 1) =~= rest + t);
        if rest.len() > 0 {
            assert(rest.last() == s.last());
        }
        lemma_full_lines_split(rest, t);
        assert(seq![trimmed_end(s.take(k + 1))] + (full_lines(rest) + full_lines(t))
            =~= full_lines(s) + full_lines(t));
    }
}

proof fn lemma_no_line_is_complete(s: Seq<char>)
    requires
        last_of(s, '\n') < 0,
    ensures
        full_lines(s) == Seq::<Seq<char>>::empty(),
{
    text::lemma_last_of(s, '\n');
    text::lemma_first_of(s, '\n');
    let k = first_of(s, '\n') as int;
    if k < s.len() {
        assert(s[k] != '\n');
    }
}

/// Resuming where the complete lines ended loses no line and repeats none, whatever is appended in
/// between: the two reads together give the lines one read of everything would give.
pub proof fn law_resuming_loses_nothing(s: Seq<char>, more: Seq<char>)
    ensures
        full_lines(s + more) == full_lines(s) + full_lines(s.skip(complete(s) as int) + more),
{
    text::lemma_last_of(s, '\n');
    let n = complete(s) as int;
    let head = s.take(n);
    let tail = s.skip(n);
    if n > 0 {
        assert(head.last() == s[n - 1]);
    }
    lemma_full_lines_split(head, tail + more);
    assert(s + more =~= head + (tail + more));
    lemma_full_lines_split(head, tail);
    assert(s =~= head + tail);
    assert forall|j: int| -1 < j < tail.len() implies tail[j] != '\n' by {
        assert(tail[j] == s[n + j]);
    }
    text::lemma_last_of_is(tail, '\n', -1);
    lemma_no_line_is_complete(tail);
    assert(full_lines(head) + full_lines(tail) =~= full_lines(head));
}

/// A line that cannot be placed in time is outside every window but the one that holds everything.
pub proof fn law_an_unplaced_line_is_outside_every_window(window: Window, line: Seq<char>)
    requires
        stamp(line) is None,
    ensures
        window.spans(stamp(line)) <==> window == Window::All,
{
}

/// A line is complete once its line feed is there; it is read without the white space at its end, and
/// what stands behind the last line feed waits for the next read.
pub proof fn law_a_line_is_read_once_it_is_complete(line: Seq<char>, rest: Seq<char>)
    requires
        !line.contains('\n'),
    ensures
        full_lines(line.push('\n') + rest) == seq![trimmed_end(line.push('\n'))] + full_lines(rest),
        full_lines(line).len() == 0,
        complete(line) == 0,
        complete(rest.push('\n') + line) == rest.len() + 1,
{
    let k = line.len() as int;
    assert forall|j: int| 0 <= j < k implies line[j] != '\n' by {
        assert(line.contains(line[j]));
    }
    let all = line.push('\n') + rest;
    assert forall|j: int| 0 <= j < k implies all[j] != '\n' by {
        assert(all[j] == line[j]);
    }
    assert(all[k] == '\n');
    text::lemma_first_of_is(all, '\n', k);
    assert(all.take(k + 1) =~= line.push('\n'));
    assert(all.skip(k + 1) =~= rest);
    text::lemma_first_of_is(line, '\n', k);
    text::lemma_last_of_is(line, '\n', -1);
    let both = rest.push('\n') + line;
    assert(both[rest.len() as int] == '\n');
    assert forall|j: int| rest.len() < j < both.len() implies both[j] != '\n' by {
        assert(both[j] == line[j - rest.len() - 1]);
    }
    text::lemma_last_of_is(both, '\n', rest.len() as int);
}

/// Names stand in the order of their first difference, and a name before those that go on behind it.
pub proof fn law_names_are_ordered_by_their_first_difference(
    same: Seq<char>,
    a: char,
    b: char,
    rest_a: Seq<char>,
    rest_b: Seq<char>,
)
    requires
        a != b,
    ensures
        in_order(same + seq![a] + rest_a, same + seq![b] + rest_b) <==> (a as int) < (b as int),
        in_order(same, same + rest_b),
        rest_b.len() > 0 ==> !in_order(same + rest_b, same),
    decreases same.len(),
{
    let x = same + seq![a] + rest_a;
    let y = same + seq![b] + rest_b;
    if same.len() == 0 {
        assert(x[0] == a && y[0] == b);
        assert(same + rest_b =~= rest_b);
    } else {
        let rest = same.skip(1);
        law_names_are_ordered_by_their_first_difference(rest, a, b, rest_a, rest_b);
        assert(x.skip(1) =~= rest + seq![a] + rest_a);
        assert(y.skip(1) =~= rest + seq![b] + rest_b);
        assert((same + rest_b).skip(1) =~= rest + rest_b);
    }
}

/// The log is read from every file whose name begins with that of the log and from no other.
pub proof fn law_every_file_of_the_log_is_read(
    before: Seq<Seq<char>>,
    name: Seq<char>,
    after: Seq<Seq<char>>,
    prefix: Seq<char>,
)
    ensures
        with_prefix(before + seq![prefix + name] + after, prefix) == with_prefix(before, prefix) + seq![
            prefix + name,
        ] + with_prefix(after, prefix),
        (name.len() < prefix.len() || name.take(prefix.len() as int) != prefix) ==> with_prefix(
            before + seq![name] + after,
            prefix,
        ) == with_prefix(before, prefix) + with_prefix(after, prefix),
        with_prefix(Seq::empty(), prefix).len() == 0,
{
    let full = prefix + name;
    text::law_beginnings_and_endings(prefix, name);
    lemma_with_prefix_of_both(before + seq![full], after, prefix);
    lemma_with_prefix_of_both(before, seq![full], prefix);
    lemma_with_prefix_of_both(before + seq![name], after, prefix);
    lemma_with_prefix_of_both(before, seq![name], prefix);
    reveal_with_fuel(with_prefix, 2);
    assert(seq![full].drop_last() =~= Seq::<Seq<char>>::empty());
    assert(seq![name].drop_last() =~= Seq::<Seq<char>>::empty());
    assert(with_prefix(seq![full], prefix) =~= seq![full]);
    if name.len() < prefix.len() || name.take(prefix.len() as int) != prefix {
        if begins(name, prefix) {
            assert(name.subrange(0, prefix.len() as int) =~= name.take(prefix.len() as int));
        }
        assert(with_prefix(before, prefix) + Seq::<Seq<char>>::empty() =~= with_prefix(
            before,
            prefix,
        ));
    }
}

proof fn lemma_with_prefix_of_both(a: Seq<Seq<char>>, b: Seq<Seq<char>>, prefix: Seq<char>)
    ensures
        with_prefix(a + b, prefix) == with_prefix(a, prefix) + with_prefix(b, prefix),
    decreases b.len(),
{
    if b.len() == 0 {
        assert(a + b =~= a);
        assert(with_prefix(a, prefix) + with_prefix(b, prefix) =~= with_prefix(a, prefix));
    } else {
        lemma_with_prefix_of_both(a, b.drop_last(), prefix);
        assert((a + b).drop_last() =~= a + b.drop_last());
        assert((a + b).last() == b.last());
        assert(with_prefix(a + b, prefix) =~= with_prefix(a, prefix) + with_prefix(b, prefix));
    }
}

/// A window holds what is stamped at its cutoff or later.
pub proof fn law_a_window_holds_what_is_no_older(cutoff: SystemTime, at: SystemTime)
    requires
        cutoff.valid(),
        at.valid(),
    ensures
        Window::Since(cutoff).spans(Some(at)) <==> at.secs > cutoff.secs || (at.secs == cutoff.secs
            && at.nanos >= cutoff.nanos),
        Window::All.spans(Some(at)),
        Window::All.spans(None),
        !Window::Since(cutoff).spans(None),
{
}

/// A line was written when its `timestamp` says.
pub proof fn law_a_line_was_written_when_it_says(line: Seq<char>)
    ensures
        json_text(line, "timestamp"@) is None ==> stamp(line) is None,
        json_text(line, "timestamp"@) matches Some(at) ==> stamp(line) == match Timestamp::read(at) {
            Some(at) => Some(at.0),
            None => None,
        },
{
}

/// The files of the log stand in order, are those of the directory that belong to it, and are named
/// below it.
pub proof fn law_what_the_files_of_the_log_are(
    files: Seq<Seq<char>>,
    dir: Seq<char>,
    names: Seq<Seq<char>>,
    chosen: Seq<Seq<char>>,
    i: int,
    j: int,
)
    requires
        are_log_files(files, dir, names, chosen),
        0 <= i < j < chosen.len(),
    ensures
        files.len() == chosen.len(),
        files[i] == joined(dir, chosen[i]),
        files[j] == joined(dir, chosen[j]),
        in_order(chosen[i], chosen[j]),
        chosen.to_multiset() == with_prefix(names, "nhop.log"@).to_multiset(),
        KEPT_FILES == 7,
{
}

} // verus!
