//! Parse warnings: diagnostics collected while a card's Oracle text is parsed —
//! silent fallbacks, ignored remainders, bare filters — without changing any parse
//! result. They are harvested after each card's parse.

use vstd::prelude::*;

verus! {

/// The warnings collected since they were last taken or cleared.
#[derive(Debug)]
pub struct Warnings {
    pub messages: Vec<String>,
}

impl View for Warnings {
    type V = Seq<String>;

    open spec fn view(&self) -> Seq<String> {
        self.messages@
    }
}

impl Warnings {
    pub fn new() -> (r: Warnings)
        ensures
            r@ == Seq::<String>::empty(),
    {
        Warnings { messages: Vec::new() }
    }
}

/// The buffer after a warning is recorded: the message goes last.
pub open spec fn spec_push_warning(buffer: Seq<String>, msg: String) -> Seq<String> {
    buffer.push(msg)
}

/// What a take hands back, and the buffer it leaves: everything, in order; empty.
pub open spec fn spec_take_warnings(buffer: Seq<String>) -> (Seq<String>, Seq<String>) {
    (buffer, Seq::empty())
}

/// The buffer after a clear: empty.
pub open spec fn spec_clear_warnings(buffer: Seq<String>) -> Seq<String> {
    Seq::empty()
}

/// Record a diagnostic warning for the card currently being parsed.
pub fn push_warning(warnings: &mut Warnings, msg: String)
    ensures
        final(warnings)@ == spec_push_warning(old(warnings)@, msg),
{
    warnings.messages.push(msg);
}

/// All accumulated warnings, in the order pushed; the buffer is left empty.
pub fn take_warnings(warnings: &mut Warnings) -> (r: Vec<String>)
    ensures
        (r@, final(warnings)@) == spec_take_warnings(old(warnings)@),
{
    let mut taken: Vec<String> = Vec::new();
    std::mem::swap(&mut taken, &mut warnings.messages);
    taken
}

/// Discard any accumulated warnings (called at the start of each card parse).
pub fn clear_warnings(warnings: &mut Warnings)
    ensures
        final(warnings)@ == spec_clear_warnings(old(warnings)@),
{
    warnings.messages.clear();
}

/// The buffer after pushing each of `msgs` in turn.
pub open spec fn pushed_all(buffer: Seq<String>, msgs: Seq<String>) -> Seq<String>
    decreases msgs.len(),
{
    if msgs.len() == 0 {
        buffer
    } else {
        spec_push_warning(pushed_all(buffer, msgs.drop_last()), msgs.last())
    }
}

proof fn lemma_pushed_onto_empty(msgs: Seq<String>)
    ensures
        pushed_all(Seq::<String>::empty(), msgs) == msgs,
    decreases msgs.len(),
{
    if msgs.len() > 0 {
        lemma_pushed_onto_empty(msgs.drop_last());
        assert(msgs.drop_last().push(msgs.last()) =~= msgs);
    }
}

/// Whatever was collected before, a clear followed by pushes of `msgs` (in order,
/// none other in between) makes the next take return exactly `msgs`, in order,
/// nothing from before the clear; and a take right after it returns nothing.
pub proof fn law_take_after_clear_returns_pushed(before: Seq<String>, msgs: Seq<String>)
    ensures
        spec_take_warnings(pushed_all(spec_clear_warnings(before), msgs)).0 == msgs,
        spec_take_warnings(spec_take_warnings(pushed_all(spec_clear_warnings(before), msgs)).1).0
            == Seq::<String>::empty(),
{
    lemma_pushed_onto_empty(msgs);
}

/// Pushing appends: the buffer after pushes is what it was, followed by the pushed
/// messages.
pub proof fn law_push_appends(buffer: Seq<String>, msgs: Seq<String>)
    ensures
        pushed_all(buffer, msgs) == buffer + msgs,
    decreases msgs.len(),
{
    if msgs.len() > 0 {
        law_push_appends(buffer, msgs.drop_last());
        assert((buffer + msgs.drop_last()).push(msgs.last()) =~= buffer + msgs);
    } else {
        assert(buffer + msgs =~= buffer);
    }
}

} // verus!
