//! Selections and the debounce that turns raw events into one per selection.
//!
//! Dragging a selection rewrites the primary selection on every pointer motion,
//! so reacting to raw events would flash the bar through every intermediate
//! state. Waiting for quiescence is what makes the popup feel like it appears
//! when you finish selecting.

use vstd::prelude::*;

use crate::config::{copy_maybe, Selection};
use crate::text::{owned, to_chars, trim_chars};
#[allow(unused_imports)]
use crate::text::{is_space, law_trimming_leaves_the_middle, maybe_text, trim};

verus! {

/// One captured selection: the text, plus the source's HTML rendering of it
/// when one was offered.
#[derive(Debug, PartialEq, Eq)]
pub struct Grab {
    pub text: String,
    pub html: Option<String>,
}

/// A captured selection in specifications.
pub struct GrabView {
    pub text: Seq<char>,
    pub html: Option<Seq<char>>,
}

impl View for Grab {
    type V = GrabView;

    open spec fn view(&self) -> GrabView {
        GrabView { text: self.text@, html: maybe_text(self.html) }
    }
}

/// The selection of a text that came without HTML.
pub open spec fn plain_grab(text: Seq<char>) -> GrabView {
    GrabView { text, html: None }
}

/// The empty selection.
pub open spec fn no_grab() -> GrabView {
    plain_grab(Seq::empty())
}

impl Default for Grab {
    fn default() -> (r: Self)
        ensures
            r@ == no_grab(),
    {
        let r = Grab { text: String::new(), html: None };
        assert(r@.text =~= Seq::<char>::empty());
        r
    }
}

impl Clone for Grab {
    fn clone(&self) -> (r: Self)
        ensures
            r@ == self@,
    {
        Grab { text: self.text.clone(), html: copy_maybe(&self.html) }
    }
}

impl Grab {
    /// A selection of plain text.
    pub fn text(text: &str) -> (r: Self)
        ensures
            r@ == plain_grab(text@),
    {
        Grab { text: owned(text), html: None }
    }
}

/// An unfiltered selection event straight off a backend.
#[derive(Debug, PartialEq, Eq)]
pub enum Raw {
    Selection {
        /// Monotonic per-backend counter. Transfers can complete out of order;
        /// a lower generation than one already seen is stale and is dropped.
        generation: u64,
        grab: Grab,
    },
    /// The primary selection was cleared or holds nothing readable.
    Cleared,
}

/// A raw event in specifications.
pub enum RawView {
    Selection { generation: u64, grab: GrabView },
    Cleared,
}

impl View for Raw {
    type V = RawView;

    open spec fn view(&self) -> RawView {
        match self {
            Raw::Selection { generation, grab } => RawView::Selection {
                generation: *generation,
                grab: grab@,
            },
            Raw::Cleared => RawView::Cleared,
        }
    }
}

/// A selection that has stopped changing.
#[derive(Debug, PartialEq, Eq)]
pub enum Settled {
    /// Act on this selection.
    Text(Grab),
    /// Take any visible popup down.
    Cleared,
}

/// A settled selection in specifications.
pub enum SettledView {
    Text(GrabView),
    Cleared,
}

impl View for Settled {
    type V = SettledView;

    open spec fn view(&self) -> SettledView {
        match self {
            Settled::Text(grab) => SettledView::Text(grab@),
            Settled::Cleared => SettledView::Cleared,
        }
    }
}

/// Whether a selection is worth popping up for: not blank where blank ones are
/// ignored, and within the limits, counted in characters after trimming.
pub open spec fn interesting(text: Seq<char>, limits: Selection) -> bool {
    let candidate = trim(text);
    &&& limits.ignore_whitespace_only ==> candidate.len() > 0
    &&& limits.min_length <= candidate.len() <= limits.max_length
}

/// Whether a selection is worth popping up for.
pub fn is_interesting(text: &str, limits: &Selection) -> (r: bool)
    ensures
        r == interesting(text@, *limits),
{
    let all = to_chars(text);
    let candidate = trim_chars(all.as_slice());
    if limits.ignore_whitespace_only && candidate.len() == 0 {
        return false;
    }
    candidate.len() >= limits.min_length && candidate.len() <= limits.max_length
}

/// What a selection that stopped changing amounts to.
pub open spec fn settling(pending: GrabView, limits: Selection) -> SettledView {
    if interesting(pending.text, limits) {
        SettledView::Text(pending)
    } else {
        SettledView::Cleared
    }
}

/// Decides what a selection that stopped changing amounts to.
pub fn settled(pending: Grab, limits: &Selection) -> (r: Settled)
    ensures
        r@ == settling(pending@, *limits),
{
    if is_interesting(pending.text.as_str(), limits) {
        Settled::Text(pending)
    } else {
        Settled::Cleared
    }
}

/// Whether an event belongs to an older selection than the newest one seen.
pub open spec fn is_stale(raw: RawView, newest: u64) -> bool {
    raw matches RawView::Selection { generation, .. } && generation < newest
}

/// The selection to adopt for an event, if any.
pub open spec fn adopted(raw: RawView, newest: u64) -> Option<GrabView> {
    match raw {
        RawView::Selection { generation, grab } if generation >= newest => Some(grab),
        _ => None,
    }
}

/// The newest generation seen once an event has come in.
pub open spec fn newest_after(raw: RawView, newest: u64) -> u64 {
    match raw {
        RawView::Selection { generation, .. } if generation >= newest => generation,
        _ => newest,
    }
}

/// The contents of an optional selection.
pub open spec fn maybe_grab(grab: Option<Grab>) -> Option<GrabView> {
    match grab {
        Some(grab) => Some(grab@),
        None => None,
    }
}

/// Folds one raw event into the newest-generation bookkeeping.
///
/// Returns the selection to adopt, or `None` if it was cleared or is stale.
pub fn accept(raw: Raw, newest: &mut u64) -> (r: Option<Grab>)
    ensures
        maybe_grab(r) == adopted(raw@, *old(newest)),
        *final(newest) == newest_after(raw@, *old(newest)),
{
    match raw {
        Raw::Cleared => None,
        Raw::Selection { generation, grab } => {
            if generation < *newest {
                return None;
            }
            *newest = generation;
            Some(grab)
        },
    }
}

/// The debounce: the newest generation seen, and the selection that may still
/// change, if one came in since the last that settled.
#[derive(Debug)]
pub struct Debounce {
    newest: u64,
    pending: Option<Grab>,
}

/// The debounce in specifications.
pub struct DebounceView {
    pub newest: u64,
    pub pending: Option<GrabView>,
}

impl View for Debounce {
    type V = DebounceView;

    closed spec fn view(&self) -> DebounceView {
        DebounceView { newest: self.newest, pending: maybe_grab(self.pending) }
    }
}

/// The debounce before anything came in.
pub open spec fn unheard() -> DebounceView {
    DebounceView { newest: 0, pending: None }
}

/// The debounce once an event has come in. A stale one changes nothing, so it
/// cannot take the place of a newer selection.
pub open spec fn heard(state: DebounceView, raw: RawView) -> DebounceView {
    if is_stale(raw, state.newest) {
        state
    } else {
        DebounceView {
            newest: newest_after(raw, state.newest),
            pending: match adopted(raw, state.newest) {
                Some(grab) => Some(grab),
                None => Some(no_grab()),
            },
        }
    }
}

/// What the settle time without an event leads to: the debounce, and what has
/// settled, if anything was pending.
pub open spec fn settle_step(state: DebounceView, limits: Selection) -> (
    DebounceView,
    Option<SettledView>,
) {
    (
        DebounceView { newest: state.newest, pending: None },
        match state.pending {
            Some(pending) => Some(settling(pending, limits)),
            None => None,
        },
    )
}

/// The contents of an optional settled selection.
pub open spec fn maybe_settled(settled: Option<Settled>) -> Option<SettledView> {
    match settled {
        Some(settled) => Some(settled@),
        None => None,
    }
}

impl Debounce {
    /// A debounce that nothing came in at yet.
    pub fn new() -> (r: Self)
        ensures
            r@ == unheard(),
    {
        Debounce { newest: 0, pending: None }
    }

    /// Takes in one event.
    pub fn hear(&mut self, raw: Raw)
        ensures
            final(self)@ == heard(old(self)@, raw@),
    {
        let stale = match &raw {
            Raw::Selection { generation, .. } => *generation < self.newest,
            Raw::Cleared => false,
        };
        if stale {
            return;
        }
        let mut newest: u64 = self.newest;
        let adopted = accept(raw, &mut newest);
        self.newest = newest;
        self.pending = match adopted {
            Some(grab) => Some(grab),
            None => Some(Grab::default()),
        };
    }

    /// Whether a selection is waiting to settle. If so, the next event must
    /// come within the settle time; if not, there is nothing to time.
    pub fn is_pending(&self) -> (r: bool)
        ensures
            r == (self@.pending is Some),
    {
        self.pending.is_some()
    }

    /// The settle time passed without an event: what was pending has settled.
    pub fn settle(&mut self, limits: &Selection) -> (r: Option<Settled>)
        ensures
            final(self)@ == (DebounceView { pending: None, ..old(self)@ }),
            match old(self)@.pending {
                Some(pending) => r matches Some(event) && event@ == settling(pending, *limits),
                None => r is None,
            },
            (final(self)@, maybe_settled(r)) == settle_step(old(self)@, *limits),
    {
        match self.pending.take() {
            Some(pending) => Some(settled(pending, limits)),
            None => None,
        }
    }
}

// ---------------------------------------------------------------------------
// What the debounce promises
// ---------------------------------------------------------------------------

/// The debounce once several events have come in, one after the other.
pub open spec fn heard_all(state: DebounceView, raws: Seq<RawView>) -> DebounceView
    decreases raws.len(),
{
    if raws.len() == 0 {
        state
    } else {
        heard(heard_all(state, raws.drop_last()), raws.last())
    }
}

/// Whether events are selections of which none is older than one before it,
/// nor than `newest`.
pub open spec fn in_order(raws: Seq<RawView>, newest: u64) -> bool {
    forall|i: int|
        0 <= i < raws.len() ==> {
            &&& (#[trigger] raws[i]) matches RawView::Selection { generation, .. }
            &&& generation >= newest
            &&& i > 0 ==> (raws[i - 1] matches RawView::Selection { generation: before, .. }
                && before <= generation)
        }
}

/// A burst of selections in order collapses to its final value.
pub proof fn law_a_burst_collapses_to_its_final_value(state: DebounceView, raws: Seq<RawView>)
    requires
        raws.len() > 0,
        in_order(raws, state.newest),
    ensures
        raws.last() matches RawView::Selection { generation, grab } && heard_all(state, raws) == (
        DebounceView { newest: generation, pending: Some(grab) }),
    decreases raws.len(),
{
    let before = raws.drop_last();
    assert(raws.last() == raws[raws.len() - 1]);
    if before.len() > 0 {
        assert forall|i: int| 0 <= i < before.len() implies {
            &&& (#[trigger] before[i]) matches RawView::Selection { generation, .. }
            &&& generation >= state.newest
            &&& i > 0 ==> (before[i - 1] matches RawView::Selection { generation: prior, .. }
                && prior <= generation)
        } by {
            assert(before[i] == raws[i]);
            if i > 0 {
                assert(before[i - 1] == raws[i - 1]);
            }
        }
        law_a_burst_collapses_to_its_final_value(state, before);
        assert(before.last() == raws[raws.len() - 2]);
    }
}

/// The newest generation never decreases, and once all have come in it is at
/// least that of every selection among them.
pub proof fn law_the_newest_generation_is_remembered(
    state: DebounceView,
    raws: Seq<RawView>,
    i: int,
)
    ensures
        heard_all(state, raws).newest >= state.newest,
        0 <= i < raws.len() ==> (raws[i] matches RawView::Selection { generation, .. }
            ==> heard_all(state, raws).newest >= generation),
    decreases raws.len(),
{
    if raws.len() > 0 {
        let before = raws.drop_last();
        law_the_newest_generation_is_remembered(state, before, i);
        if 0 <= i < before.len() {
            assert(before[i] == raws[i]);
        }
    }
}

/// A selection that arrives late changes nothing: not what is pending, and not
/// what settles.
pub proof fn law_a_late_selection_is_dropped(
    state: DebounceView,
    raws: Seq<RawView>,
    i: int,
    late: RawView,
)
    requires
        0 <= i < raws.len(),
        raws[i] matches RawView::Selection { generation, .. } && (
        late matches RawView::Selection { generation: older, .. } && older < generation),
    ensures
        heard_all(state, raws.push(late)) == heard_all(state, raws),
{
    law_the_newest_generation_is_remembered(state, raws, i);
    assert(raws.push(late).drop_last() =~= raws);
}

/// Clearing settles as cleared, unless the limits take the empty selection.
pub proof fn law_clearing_reports_cleared(state: DebounceView, limits: Selection)
    requires
        limits.ignore_whitespace_only || limits.min_length > 0,
    ensures
        heard(state, RawView::Cleared).pending == Some(no_grab()),
        settling(no_grab(), limits) == SettledView::Cleared,
{
}

/// A selection is worth popping up for exactly if what is left of it without the
/// white space around it has neither too few nor too many characters, and is not
/// empty where blank selections are ignored.
pub proof fn law_interest_is_a_matter_of_length(
    lead: Seq<char>,
    core: Seq<char>,
    tail: Seq<char>,
    limits: Selection,
)
    requires
        forall|i: int| 0 <= i < lead.len() ==> is_space(#[trigger] lead[i]),
        forall|i: int| 0 <= i < tail.len() ==> is_space(#[trigger] tail[i]),
        core.len() > 0 ==> !is_space(core[0]) && !is_space(core.last()),
    ensures
        interesting(lead + core + tail, limits) <==> limits.min_length as int <= core.len()
            && core.len() <= limits.max_length as int && !(limits.ignore_whitespace_only
            && core.len() == 0),
{
    law_trimming_leaves_the_middle(lead, core, tail);
}

/// A selection that settles is handed on as it was grabbed, white space and HTML
/// included, if it is worth it; otherwise the bar goes down.
pub proof fn law_what_settles_is_what_was_grabbed(
    newest: u64,
    grab: GrabView,
    limits: Selection,
)
    ensures
        settle_step(DebounceView { newest, pending: Some(grab) }, limits).1 == Some(
            if interesting(grab.text, limits) {
                SettledView::Text(GrabView { text: grab.text, html: grab.html })
            } else {
                SettledView::Cleared
            },
        ),
        settle_step(DebounceView { newest, pending: None }, limits).1 is None,
        settle_step(DebounceView { newest, pending: Some(grab) }, limits).0 == (DebounceView {
            newest,
            pending: None,
        }),
{
}

/// An event that is not older than the newest takes the place of what is pending:
/// a selection as it was grabbed, a clearing as nothing. An older one changes
/// nothing. The generation of a selection is remembered.
pub proof fn law_events_take_each_others_place(
    newest: u64,
    pending: Option<GrabView>,
    generation: u64,
    grab: GrabView,
)
    ensures
        ({
            let state = DebounceView { newest, pending };
            let selected = heard(state, RawView::Selection { generation, grab });
            let cleared = heard(state, RawView::Cleared);
            &&& newest <= generation ==> selected.newest == generation && selected.pending == Some(
                grab,
            )
            &&& generation < newest ==> selected.newest == newest && selected.pending == pending
            &&& cleared.newest == newest
            &&& cleared.pending matches Some(nothing) && nothing.text.len() == 0
                && nothing.html is None
        }),
        ({
            let raw = RawView::Selection { generation, grab };
            &&& newest <= generation ==> adopted(raw, newest) == Some(grab) && newest_after(
                raw,
                newest,
            ) == generation
            &&& generation < newest ==> adopted(raw, newest) is None && newest_after(raw, newest)
                == newest
            &&& adopted(RawView::Cleared, newest) is None
            &&& newest_after(RawView::Cleared, newest) == newest
        }),
        unheard().newest == 0 && unheard().pending is None,
{
}

} // verus!
