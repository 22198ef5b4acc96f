//! The printer directory query.
//!
//! The spooler is asked twice. The first request carries no buffer and only
//! learns how many bytes the full answer takes; the second carries a buffer of
//! exactly that size. Whatever goes wrong on the way (nothing to report, a
//! failed call, a record without a name) shortens the list of names and is
//! never reported as an error.
//!
//! The calls themselves are made by the caller. This module decides which
//! request comes next and turns the final reply into names.

use crate::record::{name_pointer, read_name_pointer, records_fit, PointerWidth};
use crate::wide::{name_at, points_to_string, wide_ptr_to_string};
use vstd::prelude::*;

verus! {

/// The scope flag that limits an enumeration to the printers installed on this
/// machine.
pub const PRINTER_ENUM_LOCAL: u32 = 0x0000_0002;

/// The smallest information level whose records carry the printer's name.
pub const NAME_LEVEL: u32 = 4;

/// What the spooler is asked: which printers, in which record format, and how
/// many bytes the buffer offered for the answer has. A capacity of zero offers
/// no buffer at all.
#[derive(Clone, Copy, PartialEq, Eq, Debug)]
pub struct EnumRequest {
    pub flags: u32,
    pub level: u32,
    pub capacity: u32,
}

/// What the spooler answered.
#[derive(PartialEq, Eq, Debug)]
pub struct EnumReply {
    /// The call's result: zero for failure, anything else for success.
    pub status: i32,
    /// The number of bytes the full answer takes.
    pub needed: u32,
    /// The number of records written to the buffer.
    pub returned: u32,
    /// The address at which the buffer stood during the call; the pointers in
    /// the records are addresses relative to the same origin.
    pub base: u64,
    /// The buffer as the spooler left it.
    pub buffer: Vec<u8>,
}

/// The reply that the query is waiting for.
#[derive(Clone, Copy, PartialEq, Eq, Debug)]
pub enum Phase {
    /// The reply to the request that asks for the size of the answer.
    Sizing,
    /// The reply to the request that offers a buffer of that size.
    Filling,
}

/// What the caller has to do next.
#[derive(PartialEq, Eq, Debug)]
pub enum Step {
    /// Send `request` to the spooler and come back with its reply.
    Call { request: EnumRequest, phase: Phase },
    /// The query is over and these are the printers.
    Done { names: Vec<String> },
}

/// A `Step` with its names as text.
pub enum StepView {
    Call { request: EnumRequest, phase: Phase },
    Done { names: Seq<Seq<char>> },
}

impl View for Step {
    type V = StepView;

    open spec fn view(&self) -> StepView {
        match *self {
            Step::Call { request, phase } => StepView::Call { request, phase },
            Step::Done { names } => StepView::Done { names: names.deep_view() },
        }
    }
}

impl EnumRequest {
    /// The request that opens a query: local printers, at the name level, with
    /// no buffer.
    pub open spec fn sizing() -> EnumRequest {
        EnumRequest { flags: PRINTER_ENUM_LOCAL, level: NAME_LEVEL, capacity: 0 }
    }

    /// The request that follows a sizing reply: the same enumeration, with a
    /// buffer of `capacity` bytes.
    pub open spec fn filling(capacity: u32) -> EnumRequest {
        EnumRequest { flags: PRINTER_ENUM_LOCAL, level: NAME_LEVEL, capacity }
    }
}

/// The function from a name pointer to the name it leads to in the region that
/// holds `memory` at address `base`.
pub open spec fn namer(memory: Seq<u8>, base: u64) -> spec_fn(u64) -> Option<Seq<char>> {
    |ptr: u64| name_at(memory, base, ptr)
}

/// The names that `pointers` lead to, in the order of the pointers; a pointer
/// that leads to no name adds nothing.
pub open spec fn names_of(memory: Seq<u8>, base: u64, pointers: Seq<u64>) -> Seq<Seq<char>> {
    pointers.filter_map(namer(memory, base))
}

impl EnumReply {
    /// The call succeeded.
    pub open spec fn succeeded(&self) -> bool {
        self.status != 0
    }

    /// The buffer is large enough for the records that the reply announces.
    pub open spec fn holds_records(&self, width: PointerWidth) -> bool {
        records_fit(self.buffer@.len() as int, self.returned as int, width)
    }

    /// The name pointers of the announced records, in the order of the records.
    pub open spec fn name_pointers(&self, width: PointerWidth) -> Seq<u64> {
        Seq::new(self.returned as nat, |i: int| name_pointer(self.buffer@, i, width))
    }

    /// The printers that the reply lists: none if the call failed or the buffer
    /// cannot hold the announced records, otherwise the names that the records
    /// lead to, in the order of the records.
    pub open spec fn names(&self, width: PointerWidth) -> Seq<Seq<char>> {
        if self.succeeded() && self.holds_records(width) {
            names_of(self.buffer@, self.base, self.name_pointers(width))
        } else {
            Seq::empty()
        }
    }
}

/// The step that follows when `reply` arrives in `phase`.
///
/// A sizing reply that needs no bytes ends the query with no printers; any
/// other sizing reply leads to one filling request of exactly the size it
/// names. A filling reply always ends the query, with the names it lists.
pub open spec fn next_step(phase: Phase, reply: EnumReply, width: PointerWidth) -> StepView {
    match phase {
        Phase::Sizing => if reply.needed == 0 {
            StepView::Done { names: Seq::empty() }
        } else {
            StepView::Call { request: EnumRequest::filling(reply.needed), phase: Phase::Filling }
        },
        Phase::Filling => StepView::Done { names: reply.names(width) },
    }
}

/// Reads the printers' names out of a reply.
pub fn printer_names(reply: &EnumReply, width: PointerWidth) -> (names: Vec<String>)
    ensures
        names.deep_view() == reply.names(width),
{
    let mut names: Vec<String> = Vec::new();
    if reply.status == 0 {
        return names;
    }
    let size: u64 = width.stride();
    if reply.returned as u64 * size > reply.buffer.len() as u64 {
        return names;
    }
    let ghost pointers = reply.name_pointers(width);
    let ghost to_name = namer(reply.buffer@, reply.base);
    let mut index: u32 = 0;
    while index < reply.returned
        invariant
            index <= reply.returned,
            reply.holds_records(width),
            pointers == reply.name_pointers(width),
            to_name == namer(reply.buffer@, reply.base),
            names.deep_view() == pointers.take(index as int).filter_map(to_name),
        decreases reply.returned - index,
    {
        assert((index + 1) * width.record_size() <= reply.returned * width.record_size())
            by (nonlinear_arith)
            requires
                index + 1 <= reply.returned,
                width.record_size() >= 0,
        ;
        let ptr: u64 = read_name_pointer(reply.buffer.as_slice(), index, width).unwrap();
        match wide_ptr_to_string(reply.buffer.as_slice(), reply.base, ptr) {
            Some(name) => names.push(name),
            None => {},
        }
        proof {
            pointers.lemma_filter_map_take_succ(to_name, index as int);
        }
        index += 1;
    }
    assert(pointers.take(index as int) =~= pointers);
    names
}

/// The step that opens a query.
pub fn start() -> (step: Step)
    ensures
        step@ == (StepView::Call { request: EnumRequest::sizing(), phase: Phase::Sizing }),
{
    Step::Call {
        request: EnumRequest { flags: PRINTER_ENUM_LOCAL, level: NAME_LEVEL, capacity: 0 },
        phase: Phase::Sizing,
    }
}

/// The step that follows when `reply` arrives in `phase`.
pub fn advance(phase: Phase, reply: &EnumReply, width: PointerWidth) -> (step: Step)
    ensures
        step@ == next_step(phase, *reply, width),
{
    match phase {
        Phase::Sizing => {
            if reply.needed == 0 {
                let names: Vec<String> = Vec::new();
                assert(names.deep_view() =~= Seq::empty());
                Step::Done { names }
            } else {
                Step::Call {
                    request: EnumRequest {
                        flags: PRINTER_ENUM_LOCAL,
                        level: NAME_LEVEL,
                        capacity: reply.needed,
                    },
                    phase: Phase::Filling,
                }
            }
        },
        Phase::Filling => Step::Done { names: printer_names(reply, width) },
    }
}

/// The printers that a query reports when the spooler answers the sizing
/// request with `sizing` and, if it comes to that, the filling request with
/// `filling`.
pub open spec fn query_names(sizing: EnumReply, filling: EnumReply, width: PointerWidth) -> Seq<
    Seq<char>,
> {
    if sizing.needed == 0 {
        Seq::empty()
    } else {
        filling.names(width)
    }
}

/// `sizing` and `filling` are replies that `spooler` can have given in one
/// query: `sizing` to the opening request and, unless that ended the query,
/// `filling` to the request for as many bytes as `sizing` asked for.
pub open spec fn answered<F: Fn(EnumRequest) -> EnumReply>(
    spooler: F,
    sizing: EnumReply,
    filling: EnumReply,
) -> bool {
    &&& call_ensures(spooler, (EnumRequest::sizing(),), sizing)
    &&& sizing.needed != 0 ==> call_ensures(
        spooler,
        (EnumRequest::filling(sizing.needed),),
        filling,
    )
}

/// Lists the printers installed on this machine.
///
/// `spooler` performs one enumeration call: it offers the spooler a buffer of
/// the requested capacity and reports what came back. It is called once to
/// learn the size of the answer and, unless that size is zero, once more with
/// a buffer of that size; there is no third call.
pub fn get_printers<F: Fn(EnumRequest) -> EnumReply>(spooler: F, width: PointerWidth) -> (names:
    Vec<String>)
    requires
        call_requires(spooler, (EnumRequest::sizing(),)),
        forall|capacity: u32|
            capacity != 0 ==> call_requires(spooler, (#[trigger] EnumRequest::filling(capacity),)),
    ensures
        exists|sizing: EnumReply, filling: EnumReply| #[trigger]
            answered(spooler, sizing, filling) && names.deep_view() == query_names(
                sizing,
                filling,
                width,
            ),
{
    let mut step = start();
    let ghost mut sizing: Option<EnumReply> = None;
    loop
        invariant
            call_requires(spooler, (EnumRequest::sizing(),)),
            forall|capacity: u32|
                capacity != 0 ==> call_requires(
                    spooler,
                    (#[trigger] EnumRequest::filling(capacity),),
                ),
            match step@ {
                StepView::Call { request, phase: Phase::Sizing } => {
                    &&& sizing is None
                    &&& request == EnumRequest::sizing()
                },
                StepView::Call { request, phase: Phase::Filling } => {
                    &&& sizing matches Some(first)
                    &&& call_ensures(spooler, (EnumRequest::sizing(),), first)
                    &&& first.needed != 0
                    &&& request == EnumRequest::filling(first.needed)
                },
                StepView::Done { names } => exists|first: EnumReply, second: EnumReply| #[trigger]
                    answered(spooler, first, second) && names == query_names(first, second, width),
            },
        decreases calls_left(step@),
    {
        match step {
            Step::Done { names } => {
                return names;
            },
            Step::Call { request, phase } => {
                let reply = spooler(request);
                step = advance(phase, &reply, width);
                proof {
                    match phase {
                        Phase::Sizing => {
                            if reply.needed == 0 {
                                assert(answered(spooler, reply, reply));
                            } else {
                                sizing = Some(reply);
                            }
                        },
                        Phase::Filling => {
                            assert(answered(spooler, sizing.unwrap(), reply));
                        },
                    }
                }
            },
        }
    }
}

/// The largest number of calls that can still follow a step.
pub open spec fn calls_left(step: StepView) -> nat {
    match step {
        StepView::Call { phase: Phase::Sizing, .. } => 2,
        StepView::Call { phase: Phase::Filling, .. } => 1,
        StepView::Done { .. } => 0,
    }
}

/// A query never takes more than two calls: every reply brings it closer to
/// its end, and a filling reply ends it.
pub proof fn lemma_query_ends(phase: Phase, reply: EnumReply, width: PointerWidth)
    ensures
        calls_left(next_step(phase, reply, width)) < calls_left(
            StepView::Call { request: EnumRequest::sizing(), phase },
        ),
        phase == Phase::Filling ==> next_step(phase, reply, width) is Done,
{
}

/// Mapping and filtering go through a concatenation.
pub proof fn lemma_filter_map_concat<A, B>(
    left: Seq<A>,
    right: Seq<A>,
    f: spec_fn(A) -> Option<B>,
)
    ensures
        (left + right).filter_map(f) == left.filter_map(f) + right.filter_map(f),
    decreases right.len(),
{
    if right.len() > 0 {
        assert((left + right).drop_last() =~= left + right.drop_last());
        lemma_filter_map_concat(left, right.drop_last(), f);
    }
}

/// With the spooler reporting every name, the list has one entry for each
/// record, in the order of the records, and each entry is the name that its
/// record leads to.
pub proof fn lemma_every_printer_listed(reply: EnumReply, width: PointerWidth)
    requires
        reply.succeeded(),
        reply.holds_records(width),
        forall|i: int|
            0 <= i < reply.returned ==> points_to_string(
                reply.buffer@,
                reply.base,
                #[trigger] name_pointer(reply.buffer@, i, width),
            ),
    ensures
        reply.names(width).len() == reply.returned,
        forall|i: int|
            0 <= i < reply.returned ==> Some(#[trigger] reply.names(width)[i]) == name_at(
                reply.buffer@,
                reply.base,
                name_pointer(reply.buffer@, i, width),
            ),
{
    lemma_names_of_readable(reply.buffer@, reply.base, reply.name_pointers(width));
}

/// Pointers that all lead to a name give one name each, in their order.
pub proof fn lemma_names_of_readable(memory: Seq<u8>, base: u64, pointers: Seq<u64>)
    requires
        forall|i: int|
            0 <= i < pointers.len() ==> points_to_string(memory, base, #[trigger] pointers[i]),
    ensures
        names_of(memory, base, pointers).len() == pointers.len(),
        forall|i: int|
            0 <= i < pointers.len() ==> Some(#[trigger] names_of(memory, base, pointers)[i])
                == name_at(memory, base, pointers[i]),
    decreases pointers.len(),
{
    if pointers.len() > 0 {
        lemma_names_of_readable(memory, base, pointers.drop_last());
    }
}

/// A pointer that leads to no name leaves no trace in the list: the names are
/// those of the other pointers, as if the pointer had not been there.
pub proof fn lemma_unnamed_is_skipped(memory: Seq<u8>, base: u64, pointers: Seq<u64>, at: int)
    requires
        0 <= at < pointers.len(),
        !points_to_string(memory, base, pointers[at]),
    ensures
        names_of(memory, base, pointers) == names_of(memory, base, pointers.remove(at)),
{
    let f = namer(memory, base);
    let before = pointers.take(at);
    let after = pointers.skip(at + 1);
    let one = seq![pointers[at]];
    assert(pointers =~= before + one + after);
    lemma_filter_map_concat(before + one, after, f);
    lemma_filter_map_concat(before, one, f);
    lemma_filter_map_concat(before, after, f);
    assert(one.drop_last().filter_map(f).len() == 0);
}

/// A record whose name pointer is null is skipped.
pub proof fn lemma_null_is_skipped(memory: Seq<u8>, base: u64, pointers: Seq<u64>, at: int)
    requires
        0 <= at < pointers.len(),
        pointers[at] == 0,
    ensures
        names_of(memory, base, pointers) == names_of(memory, base, pointers.remove(at)),
{
    lemma_unnamed_is_skipped(memory, base, pointers, at);
}

/// Pointers of which none leads to a name give no names at all.
pub proof fn lemma_names_of_unreadable(memory: Seq<u8>, base: u64, pointers: Seq<u64>)
    requires
        forall|i: int|
            0 <= i < pointers.len() ==> !points_to_string(memory, base, #[trigger] pointers[i]),
    ensures
        names_of(memory, base, pointers).len() == 0,
    decreases pointers.len(),
{
    if pointers.len() > 0 {
        lemma_names_of_unreadable(memory, base, pointers.drop_last());
    }
}

/// When the name pointer of every record is null the list is empty, however
/// many records the spooler announced.
pub proof fn lemma_all_null_lists_nothing(reply: EnumReply, width: PointerWidth)
    requires
        forall|i: int|
            0 <= i < reply.returned ==> #[trigger] name_pointer(reply.buffer@, i, width) == 0,
    ensures
        reply.names(width).len() == 0,
{
    lemma_names_of_unreadable(reply.buffer@, reply.base, reply.name_pointers(width));
}

/// A reply that announces no records lists no printers.
pub proof fn lemma_no_records_list_nothing(reply: EnumReply, width: PointerWidth)
    requires
        reply.returned == 0,
    ensures
        reply.names(width).len() == 0,
{
    lemma_all_null_lists_nothing(reply, width);
}

} // verus!
