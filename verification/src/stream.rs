//! The byte stream that a terminal receives.

use crate::csi::{
    copy_params, first_byte, first_values, groups_view, leading_values, params_groups,
};
use crate::integrity::{law_session, Input};
use crate::model::Screen;
use crate::osc::parts_view;
use crate::reply::{addressed, push_all, write_view, PtyWrite};
use crate::terminal::TerminalState;
use vstd::prelude::*;

verus! {

/// The parser of terminal output.
#[verifier::external_type_specification]
#[verifier::external_body]
pub struct ExParser<const OSC_RAW_BUF_SIZE: usize>(vte::Parser<OSC_RAW_BUF_SIZE>);

/// The bytes that a parser was given since it was made.
pub uninterp spec fn fed(parser: vte::Parser) -> Seq<u8>;

/// What the parser finds in a stream of bytes, of that which a terminal takes
/// in: not escape sequences without parameters, nor device control strings.
pub uninterp spec fn parsed(bytes: Seq<u8>) -> Seq<Input>;

/// What the parser found.
#[derive(Debug, PartialEq)]
pub enum Event {
    /// A character to print.
    Print(char),
    /// A control character.
    Execute(u8),
    /// A control sequence: its parameters with their subparameters, its
    /// intermediate bytes, and its final character.
    Csi { groups: Vec<Vec<u16>>, intermediates: Vec<u8>, command: char },
    /// The parts of an operating system command.
    Osc(Vec<Vec<u8>>),
}

/// The contents of vectors of bytes.
pub open spec fn owned_parts(parts: Seq<Vec<u8>>) -> Seq<Seq<u8>> {
    Seq::new(parts.len(), |i: int| parts[i]@)
}

impl View for Event {
    type V = Input;

    open spec fn view(&self) -> Input {
        match *self {
            Event::Print(c) => Input::Print(c),
            Event::Execute(byte) => Input::Execute(byte),
            Event::Csi { groups, intermediates, command } => Input::Csi(
                leading_values(groups_view(groups@)),
                first_byte(intermediates@),
                command,
            ),
            Event::Osc(parts) => Input::Osc(owned_parts(parts@)),
        }
    }
}

/// What the terminal takes from each event.
pub open spec fn events_view(events: Seq<Event>) -> Seq<Input> {
    Seq::new(events.len(), |i: int| events[i]@)
}

/// Writes as their descriptors and their bytes.
pub open spec fn writes_view(writes: Seq<PtyWrite>) -> Seq<(i32, Seq<u8>)> {
    Seq::new(writes.len(), |i: int| (writes[i].fd, writes[i].data@))
}

/// A sequence with one more element, if there is one.
pub open spec fn extended<T>(all: Seq<T>, more: Option<T>) -> Seq<T> {
    match more {
        Some(one) => all.push(one),
        None => all,
    }
}

impl Screen {
    /// The reply to an input.
    pub open spec fn reply(self, input: Input) -> Option<Seq<u8>> {
        match input {
            Input::Print(c) => None,
            Input::Execute(byte) => None,
            Input::Csi(p, marker, command) => self.csi_reply(p, marker, command),
            Input::Osc(parts) => self.osc_reply(parts),
        }
    }

    /// What is written in reply to several inputs, in their order.
    pub open spec fn replies(self, inputs: Seq<Input>) -> Seq<(i32, Seq<u8>)>
        decreases inputs.len(),
    {
        if inputs.len() == 0 {
            Seq::empty()
        } else {
            let s = self.after_all(inputs.drop_last());
            extended(
                self.replies(inputs.drop_last()),
                addressed(s.pty_fd, s.reply(inputs.last())),
            )
        }
    }

    /// How many inputs are taken in, one after the other, until one cannot be.
    pub open spec fn accepted(self, inputs: Seq<Input>) -> nat
        decreases inputs.len(),
    {
        if inputs.len() == 0 {
            0
        } else {
            let n = self.accepted(inputs.drop_last());
            if n == inputs.len() - 1 && self.after_all(inputs.drop_last()).accepts(inputs.last()) {
                inputs.len()
            } else {
                n
            }
        }
    }
}

/// Copies the parts of a command.
fn copy_parts(parts: &[&[u8]]) -> (copy: Vec<Vec<u8>>)
    ensures
        owned_parts(copy@) == parts_view(parts@),
{
    let mut copy: Vec<Vec<u8>> = Vec::new();
    for i in 0..parts.len()
        invariant
            owned_parts(copy@) == parts_view(parts@).take(i as int),
    {
        let mut part: Vec<u8> = Vec::new();
        push_all(&mut part, parts[i]);
        let ghost before = copy@;
        copy.push(part);
        assert(part@ =~= parts@[i as int]@);
        assert(owned_parts(copy@) =~= owned_parts(before).push(part@));
        assert(parts_view(parts@).take(i + 1) =~= parts_view(parts@).take(i as int).push(part@));
    }
    assert(parts_view(parts@).take(parts@.len() as int) =~= parts_view(parts@));
    copy
}

/// The parts of a command as slices.
fn slices(parts: &Vec<Vec<u8>>) -> (out: Vec<&[u8]>)
    ensures
        parts_view(out@) == owned_parts(parts@),
{
    let mut out: Vec<&[u8]> = Vec::new();
    for i in 0..parts.len()
        invariant
            out@.len() == i,
            forall|j: int| 0 <= j < i ==> (#[trigger] out@[j])@ == parts@[j]@,
    {
        out.push(parts[i].as_slice());
    }
    assert(parts_view(out@) =~= owned_parts(parts@));
    out
}

/// Keeps what the parser finds.
pub struct Collector {
    pub events: Vec<Event>,
}

impl vte::Perform for Collector {
    fn print(&mut self, c: char)
        ensures
            events_view(final(self).events@) == events_view(old(self).events@).push(
                Input::Print(c),
            ),
    {
        self.events.push(Event::Print(c));
        assert(events_view(self.events@) =~= events_view(old(self).events@).push(Input::Print(c)));
    }

    fn execute(&mut self, byte: u8)
        ensures
            events_view(final(self).events@) == events_view(old(self).events@).push(
                Input::Execute(byte),
            ),
    {
        self.events.push(Event::Execute(byte));
        assert(events_view(self.events@) =~= events_view(old(self).events@).push(
            Input::Execute(byte),
        ));
    }

    fn csi_dispatch(
        &mut self,
        params: &vte::Params,
        intermediates: &[u8],
        _ignore: bool,
        command: char,
    )
        ensures
            events_view(final(self).events@) == events_view(old(self).events@).push(
                Input::Csi(
                    leading_values(params_groups(*params)),
                    first_byte(intermediates@),
                    command,
                ),
            ),
    {
        let groups: Vec<Vec<u16>> = copy_params(params);
        let mut bytes: Vec<u8> = Vec::new();
        push_all(&mut bytes, intermediates);
        assert(bytes@ =~= intermediates@);
        self.events.push(Event::Csi { groups, intermediates: bytes, command });
        assert(events_view(self.events@) =~= events_view(old(self).events@).push(
            Input::Csi(
                leading_values(params_groups(*params)),
                first_byte(intermediates@),
                command,
            ),
        ));
    }

    fn osc_dispatch(&mut self, params: &[&[u8]], _bell_terminated: bool)
        ensures
            events_view(final(self).events@) == events_view(old(self).events@).push(
                Input::Osc(parts_view(params@)),
            ),
    {
        self.events.push(Event::Osc(copy_parts(params)));
        assert(events_view(self.events@) =~= events_view(old(self).events@).push(
            Input::Osc(parts_view(params@)),
        ));
    }
}

/// Makes a parser. It calls `vte::Parser::new`; the contract claims that the
/// parser was given no bytes yet and has found nothing.
#[verifier::external_body]
fn new_parser() -> (parser: vte::Parser)
    ensures
        fed(parser) == Seq::<u8>::empty(),
        parsed(fed(parser)) == Seq::<Input>::empty(),
{
    vte::Parser::new()
}

/// Gives a parser its next byte. It calls `vte::Parser::advance`, which calls
/// back for everything that the byte completes; the contract claims that what
/// was found in the bytes before stays, that what is handed back follows it,
/// and that all of it depends on the bytes alone.
#[verifier::external_body]
fn advance(parser: &mut vte::Parser, byte: u8) -> (events: Vec<Event>)
    ensures
        fed(*final(parser)) == fed(*old(parser)).push(byte),
        parsed(fed(*final(parser))) == parsed(fed(*old(parser))) + events_view(events@),
{
    let mut collector = Collector { events: Vec::new() };
    parser.advance(&mut collector, byte);
    collector.events
}

impl TerminalState {
    /// Whether an event can be taken in.
    pub fn accepts_event(&self, event: &Event) -> (ok: bool)
        ensures
            ok == self@.accepts(event@),
    {
        match event {
            Event::Print(_) => self.accepts_print(),
            Event::Execute(byte) => self.accepts_execute(*byte),
            Event::Csi { groups, intermediates: _, command } => {
                let p: Vec<u16> = first_values(groups);
                self.accepts_csi(p.as_slice(), *command)
            },
            Event::Osc(_) => true,
        }
    }

    /// Takes an event in. The result is what is to be written in reply.
    pub fn receive(&mut self, event: &Event) -> (w: Option<PtyWrite>)
        requires
            old(self)@.accepts(event@),
        ensures
            final(self)@ == old(self)@.after(event@),
            write_view(w) == addressed(old(self)@.pty_fd, old(self)@.reply(event@)),
    {
        match event {
            Event::Print(c) => {
                self.perform_print(*c);
                None
            },
            Event::Execute(byte) => {
                self.perform_execute(*byte);
                None
            },
            Event::Csi { groups, intermediates, command } => {
                let p: Vec<u16> = first_values(groups);
                self.csi_dispatch(p.as_slice(), intermediates.as_slice(), *command)
            },
            Event::Osc(parts) => {
                let parts: Vec<&[u8]> = slices(parts);
                self.perform_osc_dispatch(parts.as_slice(), false)
            },
        }
    }
}

proof fn lemma_accepted_bound(s: Screen, inputs: Seq<Input>)
    ensures
        s.accepted(inputs) <= inputs.len(),
    decreases inputs.len(),
{
    if inputs.len() > 0 {
        lemma_accepted_bound(s, inputs.drop_last());
    }
}

/// The first input that cannot be taken in ends what is taken in.
proof fn lemma_refused(s: Screen, inputs: Seq<Input>, i: int)
    requires
        0 <= i < inputs.len(),
        s.accepted(inputs.take(i)) == i,
        !s.after_all(inputs.take(i)).accepts(inputs[i]),
    ensures
        s.accepted(inputs) == i,
    decreases inputs.len(),
{
    let rest = inputs.drop_last();
    if i == inputs.len() - 1 {
        assert(rest =~= inputs.take(i));
    } else {
        assert(rest.take(i) =~= inputs.take(i));
        lemma_refused(s, rest, i);
    }
}

/// A terminal that takes inputs in and then more inputs is in the state, has
/// written the replies, and has taken in as many as one that takes them all in
/// at once: it makes no difference where a stream is cut into pieces.
pub proof fn law_pieces(s: Screen, first: Seq<Input>, second: Seq<Input>)
    ensures
        s.after_all(first + second) == s.after_all(first).after_all(second),
        s.replies(first + second) == s.replies(first) + s.after_all(first).replies(second),
        s.accepted(first) == first.len() ==> s.accepted(first + second) == first.len()
            + s.after_all(first).accepted(second),
        s.accepted(first) < first.len() ==> s.accepted(first + second) == s.accepted(first),
    decreases second.len(),
{
    let all = first + second;
    let t = s.after_all(first);
    if second.len() == 0 {
        assert(all =~= first);
        assert(s.replies(first) + t.replies(second) =~= s.replies(first));
    } else {
        let rest = second.drop_last();
        law_pieces(s, first, rest);
        assert(all.drop_last() =~= first + rest);
        assert(all.last() == second.last());
        assert(s.replies(all) =~= s.replies(first) + t.replies(second));
        lemma_accepted_bound(s, first);
        lemma_accepted_bound(s, first + rest);
        lemma_accepted_bound(t, rest);
    }
}

/// Output that is fed in two pieces does what it does in one piece. `known`
/// is what was found before, `middle` what was found after the first piece,
/// and `end` what was found after the second.
pub proof fn law_cut_anywhere(s: Screen, known: Seq<Input>, middle: Seq<Input>, end: Seq<Input>)
    requires
        known.is_prefix_of(middle),
        middle.is_prefix_of(end),
    ensures
        ({
            let first = middle.skip(known.len() as int);
            let second = end.skip(middle.len() as int);
            let whole = end.skip(known.len() as int);
            &&& s.after_all(whole) == s.after_all(first).after_all(second)
            &&& s.replies(whole) == s.replies(first) + s.after_all(first).replies(second)
        }),
{
    let first = middle.skip(known.len() as int);
    let second = end.skip(middle.len() as int);
    assert forall|i: int| 0 <= i < middle.len() implies end[i] == #[trigger] middle[i] by {
        assert(end.subrange(0, middle.len() as int)[i] == end[i]);
    }
    assert(end.skip(known.len() as int) =~= first + second);
    law_pieces(s, first, second);
}

/// A consistent terminal takes everything in.
pub proof fn law_all_accepted(s: Screen, inputs: Seq<Input>)
    requires
        s.consistent(),
    ensures
        s.accepted(inputs) == inputs.len(),
    decreases inputs.len(),
{
    if inputs.len() > 0 {
        law_all_accepted(s, inputs.drop_last());
        law_session(s, inputs.drop_last(), inputs.last());
    }
}

/// What is taken in of more inputs, after all inputs before them.
proof fn lemma_taken_in(s: Screen, before: Seq<Input>, more: Seq<Input>)
    requires
        s.accepted(before) == before.len(),
    ensures
        ({
            let t = s.after_all(before);
            let n = t.accepted(more);
            let taken = (before + more).take(s.accepted(before + more) as int);
            &&& n <= more.len()
            &&& s.accepted(before + more) == before.len() + n
            &&& s.after_all(taken) == t.after_all(more.take(n as int))
            &&& s.replies(taken) == s.replies(before) + t.replies(more.take(n as int))
        }),
{
    let n = s.after_all(before).accepted(more);
    lemma_accepted_bound(s.after_all(before), more);
    law_pieces(s, before, more);
    law_pieces(s, before, more.take(n as int));
    assert((before + more).take((before.len() + n) as int) =~= before + more.take(n as int));
}

impl TerminalState {
    /// Takes events in, in their order, until one cannot be taken in. What is
    /// to be written in reply is appended to `writes`. The result says whether
    /// all events were taken in.
    pub fn receive_all(&mut self, events: &Vec<Event>, writes: &mut Vec<PtyWrite>) -> (ok: bool)
        ensures
            ({
                let all = events_view(events@);
                let n = old(self)@.accepted(all);
                &&& ok == (n == all.len())
                &&& final(self)@ == old(self)@.after_all(all.take(n as int))
                &&& writes_view(final(writes)@) == writes_view(old(writes)@) + old(self)@.replies(
                    all.take(n as int),
                )
            }),
    {
        let ghost s = self@;
        let ghost all = events_view(events@);
        assert(writes_view(writes@) =~= writes_view(old(writes)@) + s.replies(all.take(0)));
        for i in 0..events.len()
            invariant
                s == old(self)@,
                all == events_view(events@),
                s.accepted(all.take(i as int)) == i,
                self@ == s.after_all(all.take(i as int)),
                writes_view(writes@) == writes_view(old(writes)@) + s.replies(all.take(i as int)),
        {
            assert(all.take(i + 1).drop_last() =~= all.take(i as int));
            assert(all.take(i + 1).last() == events@[i as int]@);
            if !self.accepts_event(&events[i]) {
                proof {
                    lemma_refused(s, all, i as int);
                }
                return false;
            }
            let ghost written = writes@;
            match self.receive(&events[i]) {
                Some(w) => {
                    writes.push(w);
                    assert(writes_view(writes@) =~= writes_view(written).push((w.fd, w.data@)));
                },
                None => {},
            }
            assert(writes_view(writes@) =~= writes_view(old(writes)@) + s.replies(
                all.take(i + 1),
            ));
        }
        assert(all.take(all.len() as int) =~= all);
        true
    }
}

/// A stream of bytes that is taken apart as it comes in.
pub struct Stream {
    parser: vte::Parser,
}

/// How far a stream got.
#[derive(Debug, PartialEq)]
pub struct Progress {
    /// What is to be written in reply, in its order.
    pub writes: Vec<PtyWrite>,
    /// The number of bytes that were given to the parser.
    pub used: usize,
    /// Whether all that was found in these bytes was taken in.
    pub complete: bool,
}

impl Stream {
    /// The bytes that came in so far.
    pub closed spec fn bytes(self) -> Seq<u8> {
        fed(self.parser)
    }

    /// What was found in the bytes that came in so far.
    pub open spec fn found(self) -> Seq<Input> {
        parsed(self.bytes())
    }

    /// A stream from which nothing came in yet.
    pub fn new() -> (stream: Stream)
        ensures
            stream.bytes() == Seq::<u8>::empty(),
            stream.found() == Seq::<Input>::empty(),
    {
        Stream { parser: new_parser() }
    }

    fn advance(&mut self, byte: u8) -> (events: Vec<Event>)
        ensures
            final(self).bytes() == old(self).bytes().push(byte),
            final(self).found() == old(self).found() + events_view(events@),
    {
        advance(&mut self.parser, byte)
    }

    /// Hands bytes that came in to a terminal, until it cannot take in what
    /// was found in them.
    #[verifier::rlimit(40)]
    pub fn try_feed(&mut self, state: &mut TerminalState, bytes: &[u8]) -> (progress: Progress)
        ensures
            ({
                let known = old(self).found();
                let inputs = final(self).found().skip(known.len() as int);
                let n = old(state)@.accepted(inputs);
                &&& progress.used <= bytes@.len()
                &&& final(self).bytes() == old(self).bytes() + bytes@.take(progress.used as int)
                &&& final(self).found() == known + inputs
                &&& progress.complete == (n == inputs.len())
                &&& progress.complete ==> progress.used == bytes@.len()
                &&& !progress.complete ==> {
                    let before = parsed(
                        old(self).bytes() + bytes@.take(progress.used - 1),
                    ).skip(known.len() as int);
                    progress.used > 0 && old(state)@.accepted(before) == before.len()
                }
                &&& final(state)@ == old(state)@.after_all(inputs.take(n as int))
                &&& writes_view(progress.writes@) == old(state)@.replies(inputs.take(n as int))
            }),
    {
        let ghost start = self.bytes();
        let ghost known = self.found();
        let ghost s = state@;
        let ghost mut inputs: Seq<Input> = Seq::empty();
        let mut writes: Vec<PtyWrite> = Vec::new();
        let mut i: usize = 0;
        assert(known =~= known + inputs);
        assert(start =~= start + bytes@.take(0));
        assert(writes_view(writes@) =~= Seq::empty());
        while i < bytes.len()
            invariant
                i <= bytes@.len(),
                start == old(self).bytes(),
                known == old(self).found(),
                s == old(state)@,
                self.bytes() == start + bytes@.take(i as int),
                self.found() == known + inputs,
                s.accepted(inputs) == inputs.len(),
                state@ == s.after_all(inputs),
                writes_view(writes@) == s.replies(inputs),
            decreases bytes@.len() - i,
        {
            let ghost before = inputs;
            let more: Vec<Event> = self.advance(bytes[i]);
            i = i + 1;
            proof {
                inputs = before + events_view(more@);
                assert(self.bytes() =~= start + bytes@.take(i as int));
                assert(self.found() =~= known + inputs);
                assert((known + inputs).skip(known.len() as int) =~= inputs);
                assert((known + before).skip(known.len() as int) =~= before);
                lemma_taken_in(s, before, events_view(more@));
            }
            if !state.receive_all(&more, &mut writes) {
                return Progress { writes, used: i, complete: false };
            }
            assert(inputs.take(inputs.len() as int) =~= inputs);
        }
        assert((known + inputs).skip(known.len() as int) =~= inputs);
        assert(inputs.take(inputs.len() as int) =~= inputs);
        Progress { writes, used: i, complete: true }
    }

    /// Hands bytes that came in to a terminal. The result is what is to be
    /// written in reply, in its order.
    pub fn feed(&mut self, state: &mut TerminalState, bytes: &[u8]) -> (writes: Vec<PtyWrite>)
        requires
            old(state)@.consistent(),
        ensures
            ({
                let known = old(self).found();
                let inputs = final(self).found().skip(known.len() as int);
                &&& final(self).bytes() == old(self).bytes() + bytes@
                &&& final(self).found() == known + inputs
                &&& final(state)@ == old(state)@.after_all(inputs)
                &&& final(state)@.consistent()
                &&& writes_view(writes@) == old(state)@.replies(inputs)
            }),
    {
        let ghost s = state@;
        let ghost known = self.found();
        let progress: Progress = self.try_feed(state, bytes);
        proof {
            let inputs = self.found().skip(known.len() as int);
            law_all_accepted(s, inputs);
            law_session(s, inputs, Input::Execute(0));
            assert(inputs.take(inputs.len() as int) =~= inputs);
            assert(bytes@.take(bytes@.len() as int) =~= bytes@);
        }
        progress.writes
    }
}

} // verus!
