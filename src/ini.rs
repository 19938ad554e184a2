use vstd::prelude::*;
use vstd::string::StrSliceExecFns;
use crate::text::{
    first_index, lemma_physical_lines_len, physical_lines, split_once, trim, trim_end,
    trim_start, trimmed, trimmed_end, trimmed_start,
};

verus! {

/// The kind of callback.
pub enum CallbackKind<'a> {
    /// A section was declared; holds its name.
    Section(&'a str),
    /// A directive: the current section (if any), the key and the value (if any).
    Directive(Option<&'a str>, &'a str, Option<&'a str>),
}

/// What a handler receives for each line that is neither blank nor a comment.
pub struct Callback<'a> {
    /// The name of the file being parsed (if any).
    pub filename: Option<&'a str>,
    /// The line, trimmed of surrounding white space.
    pub line: &'a str,
    /// The 1-based number of the line.
    pub line_number: usize,
    /// The kind of line.
    pub kind: CallbackKind<'a>,
}

/// The abstract content of a `CallbackKind`.
pub enum EventKind {
    Section(Seq<char>),
    Directive(Option<Seq<char>>, Seq<char>, Option<Seq<char>>),
}

/// The abstract content of a `Callback`.
pub struct Event {
    pub filename: Option<Seq<char>>,
    pub line: Seq<char>,
    pub line_number: int,
    pub kind: EventKind,
}

/// The view of an optional string slice.
pub open spec fn opt_view(o: Option<&str>) -> Option<Seq<char>> {
    match o {
        Some(s) => Some(s@),
        None => None,
    }
}

impl<'a> View for CallbackKind<'a> {
    type V = EventKind;

    open spec fn view(&self) -> EventKind {
        match *self {
            CallbackKind::Section(name) => EventKind::Section(name@),
            CallbackKind::Directive(section, key, value) => EventKind::Directive(
                opt_view(section),
                key@,
                opt_view(value),
            ),
        }
    }
}

impl<'a> View for Callback<'a> {
    type V = Event;

    open spec fn view(&self) -> Event {
        Event {
            filename: opt_view(self.filename),
            line: self.line@,
            line_number: self.line_number as int,
            kind: self.kind@,
        }
    }
}

/// A trimmed line that produces no event: it is empty or a comment.
pub open spec fn is_ignorable(line: Seq<char>) -> bool {
    line.len() == 0 || line[0] == '#'
}

/// A trimmed line that declares a section: it starts with `[` and ends with `]`.
pub open spec fn is_header(line: Seq<char>) -> bool {
    line.len() > 0 && line[0] == '[' && line.last() == ']'
}

/// The name a section header declares: what stands between its brackets.
pub open spec fn header_name(line: Seq<char>) -> Seq<char> {
    line.subrange(1, line.len() - 1)
}

/// The key of a directive: the text before the first `=`, without trailing white space.
pub open spec fn directive_key(line: Seq<char>) -> Seq<char> {
    trimmed_end(line.take(first_index(line, '=') as int))
}

/// The value of a directive: absent without `=`, else the text after the first `=`
/// without leading white space.
pub open spec fn directive_value(line: Seq<char>) -> Option<Seq<char>> {
    let i = first_index(line, '=');
    if i < line.len() {
        Some(trimmed_start(line.skip(i + 1 as int)))
    } else {
        None
    }
}

/// The kind of event a non-ignorable trimmed line produces while `section` is current.
pub open spec fn line_kind(line: Seq<char>, section: Option<Seq<char>>) -> EventKind {
    if is_header(line) {
        EventKind::Section(header_name(line))
    } else {
        EventKind::Directive(section, directive_key(line), directive_value(line))
    }
}

/// The current section after a non-ignorable trimmed line.
pub open spec fn section_after(line: Seq<char>, section: Option<Seq<char>>) -> Option<Seq<char>> {
    if is_header(line) {
        Some(header_name(line))
    } else {
        section
    }
}

/// The events of `lines`, the first of which has number `number`, with `section` current
/// before the first.
pub open spec fn events_from(
    filename: Option<Seq<char>>,
    lines: Seq<Seq<char>>,
    number: int,
    section: Option<Seq<char>>,
) -> Seq<Event>
    decreases lines.len(),
{
    if lines.len() == 0 {
        seq![]
    } else {
        let line = trimmed(lines[0]);
        if is_ignorable(line) {
            events_from(filename, lines.drop_first(), number + 1, section)
        } else {
            seq![
                Event {
                    filename,
                    line,
                    line_number: number,
                    kind: line_kind(line, section),
                },
            ] + events_from(filename, lines.drop_first(), number + 1, section_after(line, section))
        }
    }
}

/// The events that parsing `text` dispatches, in order, when no handler call fails.
pub open spec fn ini_events(filename: Option<Seq<char>>, text: Seq<char>) -> Seq<Event> {
    events_from(filename, physical_lines(text), 1, None)
}

/// Parse ini text into a value of the implementing type, one callback per event.
pub trait Ini: Sized {
    /// The error a callback can return.
    type Err;

    /// The behaviour of `callback`: in state `self` and given `ev`, the call may leave the
    /// state `next` and return `r`. By default a handler may do anything; a handler that
    /// states its behaviour narrows this.
    open spec fn step(self, ev: Event, next: Self, r: Result<(), Self::Err>) -> bool {
        true
    }

    /// Called for every line that is neither blank nor a comment.
    fn callback(&mut self, cb: Callback) -> (r: Result<(), Self::Err>)
        ensures
            Self::step(*old(self), cb@, *final(self), r),
    ;

    /// Parses ini text, with no file name attached to the events.
    fn parse_str(&mut self, ini: &str) -> (r: Result<(), Self::Err>)
        ensures
            runs(
                (|a: Self, e: Event, b: Self, x: Result<(), Self::Err>| Self::step(a, e, b, x)),
                *old(self),
                ini_events(None, ini@),
                *final(self),
                r,
            ),
    {
        self.parse(None, ini)
    }

    /// Parses ini text, passing `filename` to every callback.
    fn parse(&mut self, filename: Option<&str>, ini: &str) -> (r: Result<(), Self::Err>)
        ensures
            runs(
                (|a: Self, e: Event, b: Self, x: Result<(), Self::Err>| Self::step(a, e, b, x)),
                *old(self),
                ini_events(opt_view(filename), ini@),
                *final(self),
                r,
            ),
    {
        let ghost start = *self;
        let ghost step = (|a: Self, e: Event, b: Self, x: Result<(), Self::Err>| Self::step(a, e, b, x));
        let ghost fname = opt_view(filename);
        let ghost all = ini_events(fname, ini@);
        let ghost mut done: Seq<Event> = seq![];
        // The number of characters bounds the number of lines, so line numbers fit.
        let total = ini.unicode_len();
        proof {
            lemma_physical_lines_len(ini@);
        }
        let mut section: Option<&str> = None;
        let mut rest: &str = ini;
        let mut line_number: usize = 0;
        while !rest.is_empty()
            invariant
                start == *old(self),
                all == ini_events(fname, ini@),
                step == (|a: Self, e: Event, b: Self, x: Result<(), Self::Err>| Self::step(a, e, b, x)),
                fname == opt_view(filename),
                physical_lines(ini@).len() <= total,
                all == done + events_from(
                    fname,
                    physical_lines(rest@),
                    line_number + 1,
                    opt_view(section),
                ),
                line_number + physical_lines(rest@).len() == physical_lines(ini@).len(),
                runs(step, start, done, *self, Ok(())),
            decreases rest@.len(),
        {
            proof {
                reveal_strlit("");
            }
            let pieces = split_once(rest, '\n');
            let (raw, tail) = match pieces {
                Some(p) => p,
                None => (rest, ""),
            };
            assert(physical_lines(rest@) == seq![raw@] + physical_lines(tail@));
            let line = trim(raw);
            line_number = line_number + 1;
            assert(physical_lines(rest@).drop_first() == physical_lines(tail@));
            if line.is_empty() || line.get_char(0) == '#' {
                rest = tail;
            } else {
                let n = line.unicode_len();
                let kind;
                if line.get_char(0) == '[' && line.get_char(n - 1) == ']' {
                    let header = line.substring_char(1, n - 1);
                    kind = CallbackKind::Section(header);
                    section = Some(header);
                } else {
                    let pair = split_pair(line);
                    kind = CallbackKind::Directive(section, pair.0, pair.1);
                }
                let data = Callback { filename, line, line_number, kind };
                let ghost ev = data@;
                let ghost mid = *self;
                let r = self.callback(data);
                proof {
                    lemma_runs_push(step, start, done, mid, ev, *self, r);
                    done = done.push(ev);
                }
                if r.is_err() {
                    proof {
                        let later = all.skip(done.len() as int);
                        assert(all == done + events_from(
                            fname,
                            physical_lines(tail@),
                            line_number + 1,
                            opt_view(section),
                        ));
                        assert(done + later =~= all);
                        lemma_failure_stands(step, start, done, later, *self, r);
                    }
                    return r;
                }
                assert(r == Ok::<(), Self::Err>(r->Ok_0));
                assert(r->Ok_0 == ());
                rest = tail;
            }
        }
        Ok(())
    }
}

/// The (state, outcome) pairs in which a handler whose behaviour is `step` can end after
/// running from `start` over `evs`: each event in turn until one fails, whose failure is
/// the outcome.
pub open spec fn outcomes<S, E>(
    step: spec_fn(S, Event, S, Result<(), E>) -> bool,
    start: S,
    evs: Seq<Event>,
) -> Set<(S, Result<(), E>)>
    decreases evs.len(),
{
    if evs.len() == 0 {
        set![(start, Ok(()))]
    } else {
        let before = outcomes(step, start, evs.drop_last());
        Set::new(
            |p: (S, Result<(), E>)|
                exists|q: (S, Result<(), E>)|
                    #[trigger] before.contains(q) && if q.1 is Err {
                        p == q
                    } else {
                        step(q.0, evs.last(), p.0, p.1)
                    },
        )
    }
}

/// The handler whose behaviour is `step` can run over `evs` from state `start` to state
/// `end` with outcome `r`.
pub open spec fn runs<S, E>(
    step: spec_fn(S, Event, S, Result<(), E>) -> bool,
    start: S,
    evs: Seq<Event>,
    end: S,
    r: Result<(), E>,
) -> bool {
    outcomes(step, start, evs).contains((end, r))
}

proof fn lemma_runs_push<S, E>(
    step: spec_fn(S, Event, S, Result<(), E>) -> bool,
    start: S,
    done: Seq<Event>,
    mid: S,
    ev: Event,
    end: S,
    r: Result<(), E>,
)
    requires
        runs(step, start, done, mid, Ok(())),
        step(mid, ev, end, r),
    ensures
        runs(step, start, done.push(ev), end, r),
{
    let evs = done.push(ev);
    assert(evs.drop_last() == done);
    let q: (S, Result<(), E>) = (mid, Ok(()));
    assert(outcomes(step, start, evs.drop_last()).contains(q));
}

/// Once the handler has failed, the events that follow change nothing: the run ends in
/// the state the failing call left, with exactly the failure it returned.
pub proof fn lemma_failure_stands<S, E>(
    step: spec_fn(S, Event, S, Result<(), E>) -> bool,
    start: S,
    evs: Seq<Event>,
    later: Seq<Event>,
    end: S,
    r: Result<(), E>,
)
    requires
        runs(step, start, evs, end, r),
        r is Err,
    ensures
        runs(step, start, evs + later, end, r),
    decreases later.len(),
{
    if later.len() == 0 {
        assert(evs + later == evs);
    } else {
        lemma_failure_stands(step, start, evs, later.drop_last(), end, r);
        let all = evs + later;
        assert(all.drop_last() == evs + later.drop_last());
        let q: (S, Result<(), E>) = (end, r);
        assert(outcomes(step, start, all.drop_last()).contains(q));
    }
}

/// The name of the last section event in `evs`, or `dflt` where there is none.
pub open spec fn latest_section_or(evs: Seq<Event>, dflt: Option<Seq<char>>) -> Option<
    Seq<char>,
>
    decreases evs.len(),
{
    if evs.len() == 0 {
        dflt
    } else {
        match evs.last().kind {
            EventKind::Section(name) => Some(name),
            _ => latest_section_or(evs.drop_last(), dflt),
        }
    }
}

/// The name of the last section event in `evs`, if any.
pub open spec fn latest_section(evs: Seq<Event>) -> Option<Seq<char>> {
    latest_section_or(evs, None)
}

proof fn lemma_events_from_positions(
    filename: Option<Seq<char>>,
    lines: Seq<Seq<char>>,
    number: int,
    section: Option<Seq<char>>,
)
    ensures
        ({
            let evs = events_from(filename, lines, number, section);
            &&& forall|j: int|
                0 <= j < evs.len() ==> {
                    &&& number <= #[trigger] evs[j].line_number < number + lines.len()
                    &&& evs[j].line == trimmed(lines[evs[j].line_number - number])
                    &&& !is_ignorable(evs[j].line)
                    &&& evs[j].filename == filename
                }
            &&& forall|j: int, k: int|
                0 <= j < k < evs.len() ==> #[trigger] evs[j].line_number
                    < #[trigger] evs[k].line_number
            &&& forall|p: int|
                0 <= p < lines.len() && !is_ignorable(#[trigger] trimmed(lines[p])) ==> exists|j: int|
                    0 <= j < evs.len() && evs[j].line_number == number + p
        }),
    decreases lines.len(),
{
    if lines.len() > 0 {
        let line = trimmed(lines[0]);
        let next = if is_ignorable(line) {
            section
        } else {
            section_after(line, section)
        };
        let rest = events_from(filename, lines.drop_first(), number + 1, next);
        let evs = events_from(filename, lines, number, section);
        lemma_events_from_positions(filename, lines.drop_first(), number + 1, next);
        assert forall|p: int|
            0 <= p < lines.len() && !is_ignorable(#[trigger] trimmed(lines[p])) implies exists|j: int|
                0 <= j < evs.len() && evs[j].line_number == number + p by {
            if p > 0 {
                assert(trimmed(lines.drop_first()[p - 1]) == trimmed(lines[p]));
                let j0 = choose|j: int| 0 <= j < rest.len() && rest[j].line_number == number + 1 + (p - 1);
                if is_ignorable(line) {
                    assert(evs[j0].line_number == number + p);
                } else {
                    assert(evs[j0 + 1] == rest[j0]);
                }
            } else {
                assert(evs[0].line_number == number);
            }
        }
        assert forall|j: int| 0 <= j < evs.len() implies {
            &&& number <= #[trigger] evs[j].line_number < number + lines.len()
            &&& evs[j].line == trimmed(lines[evs[j].line_number - number])
            &&& !is_ignorable(evs[j].line)
            &&& evs[j].filename == filename
        } by {
            if is_ignorable(line) || j > 0 {
                let i = if is_ignorable(line) { j } else { j - 1 };
                assert(evs[j] == rest[i]);
                assert(lines.drop_first()[rest[i].line_number - (number + 1)] == lines[rest[i].line_number - number]);
            }
        }
        assert forall|j: int, k: int|
            0 <= j < k < evs.len() implies #[trigger] evs[j].line_number
                < #[trigger] evs[k].line_number by {
            if !is_ignorable(line) {
                assert(evs[k] == rest[k - 1]);
                if j > 0 {
                    assert(evs[j] == rest[j - 1]);
                }
            }
        }
    }
}

/// Parsing visits the physical lines in order: an event comes only from a line that is
/// neither blank nor a comment, it carries that line trimmed and its 1-based position
/// (blank and comment lines counted), positions strictly increase from event to event,
/// and every line that is neither blank nor a comment gives an event.
pub proof fn lemma_event_positions(filename: Option<Seq<char>>, text: Seq<char>)
    ensures
        forall|j: int|
            0 <= j < ini_events(filename, text).len() ==> {
                let ev = #[trigger] ini_events(filename, text)[j];
                &&& 1 <= ev.line_number <= physical_lines(text).len()
                &&& ev.line == trimmed(physical_lines(text)[ev.line_number - 1])
                &&& !is_ignorable(ev.line)
                &&& ev.filename == filename
            },
        forall|j: int, k: int|
            0 <= j < k < ini_events(filename, text).len() ==> #[trigger] ini_events(
                filename,
                text,
            )[j].line_number < #[trigger] ini_events(filename, text)[k].line_number,
        forall|p: int|
            0 <= p < physical_lines(text).len() && !is_ignorable(
                #[trigger] trimmed(physical_lines(text)[p]),
            ) ==> exists|j: int|
                0 <= j < ini_events(filename, text).len() && ini_events(filename, text)[j].line_number
                    == p + 1,
{
    lemma_events_from_positions(filename, physical_lines(text), 1, None);
}

proof fn lemma_latest_section_prepend(e: Event, t: Seq<Event>, dflt: Option<Seq<char>>)
    ensures
        latest_section_or(seq![e] + t, dflt) == latest_section_or(
            t,
            latest_section_or(seq![e], dflt),
        ),
    decreases t.len(),
{
    if t.len() == 0 {
        assert(seq![e] + t == seq![e]);
    } else {
        lemma_latest_section_prepend(e, t.drop_last(), dflt);
        assert((seq![e] + t).drop_last() == seq![e] + t.drop_last());
        assert((seq![e] + t).last() == t.last());
    }
}

proof fn lemma_events_from_kinds(
    filename: Option<Seq<char>>,
    lines: Seq<Seq<char>>,
    number: int,
    section: Option<Seq<char>>,
)
    ensures
        forall|j: int|
            0 <= j < events_from(filename, lines, number, section).len() ==> (#[trigger] events_from(
                filename,
                lines,
                number,
                section,
            )[j]).kind == line_kind(
                events_from(filename, lines, number, section)[j].line,
                latest_section_or(events_from(filename, lines, number, section).take(j), section),
            ),
    decreases lines.len(),
{
    if lines.len() > 0 {
        let line = trimmed(lines[0]);
        let next = if is_ignorable(line) {
            section
        } else {
            section_after(line, section)
        };
        let rest = events_from(filename, lines.drop_first(), number + 1, next);
        let evs = events_from(filename, lines, number, section);
        lemma_events_from_kinds(filename, lines.drop_first(), number + 1, next);
        assert forall|j: int| 0 <= j < evs.len() implies (#[trigger] evs[j]).kind == line_kind(
            evs[j].line,
            latest_section_or(evs.take(j), section),
        ) by {
            if is_ignorable(line) {
                assert(evs == rest);
            } else if j == 0 {
                assert(evs.take(0).len() == 0);
            } else {
                let e0 = evs[0];
                assert(evs[j] == rest[j - 1]);
                assert(evs.take(j) == seq![e0] + rest.take(j - 1));
                lemma_latest_section_prepend(e0, rest.take(j - 1), section);
                assert(e0.kind == line_kind(line, section));
                assert(seq![e0].last() == e0);
                assert(seq![e0].drop_last() =~= Seq::<Event>::empty());
                if !is_header(line) {
                    assert(latest_section_or(seq![e0].drop_last(), section) == section);
                }
                assert(latest_section_or(seq![e0], section) == next);
            }
        }
    }
}

/// A section event comes exactly from a line that starts with `[` and ends with `]`, and
/// its name is the text strictly between those two brackets.
pub proof fn lemma_section_events(filename: Option<Seq<char>>, text: Seq<char>)
    ensures
        forall|j: int|
            0 <= j < ini_events(filename, text).len() ==> {
                let ev = #[trigger] ini_events(filename, text)[j];
                &&& (ev.kind is Section <==> is_header(ev.line))
                &&& ev.kind is Section ==> {
                    &&& ev.line[0] == '['
                    &&& ev.line[ev.line.len() - 1] == ']'
                    &&& ev.kind->Section_0 == ev.line.subrange(1, ev.line.len() - 1)
                }
            },
{
    lemma_events_from_kinds(filename, physical_lines(text), 1, None);
}

/// A directive event has a value exactly when its line holds a `=`; the value is then the
/// text after the first `=` without leading white space, which may be empty.
pub proof fn lemma_directive_values(filename: Option<Seq<char>>, text: Seq<char>)
    ensures
        forall|j: int|
            0 <= j < ini_events(filename, text).len() && (#[trigger] ini_events(
                filename,
                text,
            )[j]).kind is Directive ==> {
                let ev = ini_events(filename, text)[j];
                &&& (ev.kind->Directive_2 is Some <==> ev.line.contains('='))
                &&& ev.kind->Directive_2 is Some ==> exists|i: int|
                    0 <= i < ev.line.len() && ev.line[i] == '=' && !ev.line.take(i).contains('=')
                        && ev.kind->Directive_2->Some_0 == trimmed_start(ev.line.skip(i + 1))
            },
{
    lemma_events_from_kinds(filename, physical_lines(text), 1, None);
    assert forall|j: int|
        0 <= j < ini_events(filename, text).len() && (#[trigger] ini_events(
            filename,
            text,
        )[j]).kind is Directive implies {
        let ev = ini_events(filename, text)[j];
        &&& (ev.kind->Directive_2 is Some <==> ev.line.contains('='))
        &&& ev.kind->Directive_2 is Some ==> exists|i: int|
            0 <= i < ev.line.len() && ev.line[i] == '=' && !ev.line.take(i).contains('=')
                && ev.kind->Directive_2->Some_0 == trimmed_start(ev.line.skip(i + 1))
    } by {
        let line = ini_events(filename, text)[j].line;
        crate::text::lemma_first_index_bound(line, '=');
        let i = first_index(line, '=') as int;
        if i < line.len() {
            assert(line[i] == '=');
            assert(!line.take(i).contains('=')) by {
                if line.take(i).contains('=') {
                    let k = choose|k: int| 0 <= k < line.take(i).len() && line.take(i)[k] == '=';
                    assert(line[k] == '=');
                }
            }
        } else {
            assert(!line.contains('=')) by {
                if line.contains('=') {
                    let k = choose|k: int| 0 <= k < line.len() && line[k] == '=';
                    assert(line[k] != '=');
                }
            }
        }
    }
}

/// The section a directive event carries is the name of the latest section event before
/// it in the same parse, or absent where none came before.
pub proof fn lemma_directive_sections(filename: Option<Seq<char>>, text: Seq<char>)
    ensures
        forall|j: int|
            0 <= j < ini_events(filename, text).len() && (#[trigger] ini_events(
                filename,
                text,
            )[j]).kind is Directive ==> ini_events(filename, text)[j].kind->Directive_0
                == latest_section(ini_events(filename, text).take(j)),
{
    lemma_events_from_kinds(filename, physical_lines(text), 1, None);
}

/// A run that fails ends where one handler call failed: for some event `k`, the events
/// before it ran without failure to a state in which the call for event `k` returned
/// exactly that failure and left exactly that state; no later event was handled.
pub proof fn lemma_failure_comes_from_one_call<S, E>(
    step: spec_fn(S, Event, S, Result<(), E>) -> bool,
    start: S,
    evs: Seq<Event>,
    end: S,
    r: Result<(), E>,
)
    requires
        runs(step, start, evs, end, r),
        r is Err,
    ensures
        exists|k: int, mid: S|
            0 <= k < evs.len() && #[trigger] runs(step, start, evs.take(k), mid, Ok(())) && step(
                mid,
                evs[k],
                end,
                r,
            ),
    decreases evs.len(),
{
    if evs.len() == 0 {
        assert(outcomes(step, start, evs) == set![(start, Ok::<(), E>(()))]);
    } else {
        let before = outcomes(step, start, evs.drop_last());
        let q = choose|q: (S, Result<(), E>)|
            #[trigger] before.contains(q) && if q.1 is Err {
                (end, r) == q
            } else {
                step(q.0, evs.last(), end, r)
            };
        if q.1 is Err {
            lemma_failure_comes_from_one_call(step, start, evs.drop_last(), end, r);
            let (k, mid) = choose|k: int, mid: S|
                0 <= k < evs.drop_last().len() && #[trigger] runs(
                    step,
                    start,
                    evs.drop_last().take(k),
                    mid,
                    Ok(()),
                ) && step(mid, evs.drop_last()[k], end, r);
            assert(evs.drop_last().take(k) == evs.take(k));
            assert(runs(step, start, evs.take(k), mid, Ok(())));
        } else {
            let k = evs.len() - 1;
            assert(q.1 == Ok::<(), E>(q.1->Ok_0));
            assert(evs.take(k) == evs.drop_last());
            assert(runs(step, start, evs.take(k), q.0, Ok(())));
        }
    }
}

/// Splits a directive line into its key and its value.
pub fn split_pair(s: &str) -> (r: (&str, Option<&str>))
    ensures
        r.0@ == directive_key(s@),
        opt_view(r.1) == directive_value(s@),
{
    match split_once(s, '=') {
        Some((key, value)) => (trim_end(key), Some(trim_start(value))),
        None => {
            assert(s@.take(s@.len() as int) == s@);
            (trim_end(s), None)
        },
    }
}

} // verus!
