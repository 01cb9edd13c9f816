//! Watching the primary selection through a data-control protocol.
//!
//! These are the only Wayland protocols that let an unfocused client observe
//! the selection. `ext-data-control` is the standardised one and is preferred;
//! the wlroots original is accepted at version 2 or above, which is where
//! primary selection support was added.

use std::collections::HashMap;
use vstd::prelude::*;
#[allow(unused_imports)]
use vstd::utf8::{
    decode_utf8, encode_utf8, encode_utf8_decode_utf8, encode_utf8_valid_utf8, valid_utf8,
};

use crate::manifest::is_listed;
use crate::selection::{Grab, Raw};
use crate::text::{same_text, utf8_text};
#[allow(unused_imports)]
use crate::{
    selection::{GrabView, RawView},
    text::texts,
};

verus! {

broadcast use vstd::std_specs::hash::group_hash_axioms;

/// The HTML rendering browsers and rich editors offer alongside the text.
pub const HTML_MIME: &'static str = "text/html";

/// Cap on how much of a selection is read, in bytes.
pub const MAX_READ: u64 = 4194304;

/// Mime types accepted for a text selection, best first.
pub open spec fn text_mimes() -> Seq<Seq<char>> {
    seq![
        "text/plain;charset=utf-8"@,
        "text/plain;charset=UTF-8"@,
        "UTF8_STRING"@,
        "text/plain"@,
        "STRING"@,
        "TEXT"@,
    ]
}

// ---------------------------------------------------------------------------
// Binding
// ---------------------------------------------------------------------------

/// A global that the watcher needs.
#[derive(Debug, Clone, Copy, PartialEq, Eq, Structural)]
pub enum Global {
    Seat,
    Ext,
    Wlr,
}

/// Which protocol delivers the selection.
#[derive(Debug, Clone, Copy, PartialEq, Eq, Structural)]
pub enum Backend {
    /// `ext-data-control-v1`.
    Ext,
    /// `wlr-data-control-v1` version 2.
    Wlr,
}

/// Why the selection cannot be watched.
#[derive(Debug, Clone, Copy, PartialEq, Eq, Structural)]
pub enum BindError {
    /// The compositor advertised no seat.
    NoSeat,
    /// It exposes neither protocol.
    NoProtocol,
}

/// What a reason says to the user.
pub open spec fn bind_error_text(error: BindError) -> Seq<char> {
    match error {
        BindError::NoSeat => "compositor advertised no wl_seat"@,
        BindError::NoProtocol => {
            "this compositor exposes neither ext-data-control-v1 nor wlr-data-control-v1 v2, so the primary selection cannot be watched"@
        },
    }
}

impl BindError {
    /// What to say to the user.
    pub fn message(&self) -> (r: &'static str)
        ensures
            r@ == bind_error_text(*self),
    {
        match self {
            BindError::NoSeat => "compositor advertised no wl_seat",
            BindError::NoProtocol => {
                "this compositor exposes neither ext-data-control-v1 nor wlr-data-control-v1 v2, so the primary selection cannot be watched"
            },
        }
    }
}

/// The smaller of two versions.
pub open spec fn capped(version: u32, cap: u32) -> u32 {
    if version < cap {
        version
    } else {
        cap
    }
}

/// Which globals are bound.
#[derive(Debug, Clone, Copy, PartialEq, Eq, Structural)]
pub struct Bound {
    pub seat: bool,
    pub ext: bool,
    pub wlr: bool,
}

/// Which global to bind at which version, when one is advertised. The first of
/// each is taken. Version 1 of the wlroots protocol has no primary selection,
/// so it is of no use.
pub open spec fn binding(bound: Bound, interface: Seq<char>, version: u32) -> Option<
    (Global, u32),
> {
    if interface == "wl_seat"@ && !bound.seat {
        Some((Global::Seat, capped(version, 7)))
    } else if interface == "ext_data_control_manager_v1"@ && !bound.ext {
        Some((Global::Ext, capped(version, 1)))
    } else if interface == "zwlr_data_control_manager_v1"@ && !bound.wlr && version >= 2 {
        Some((Global::Wlr, capped(version, 2)))
    } else {
        None
    }
}

/// Which protocol delivers the selection, with these globals bound.
pub open spec fn backend_of(bound: Bound) -> Result<Backend, BindError> {
    if !bound.seat {
        Err(BindError::NoSeat)
    } else if bound.ext {
        Ok(Backend::Ext)
    } else if bound.wlr {
        Ok(Backend::Wlr)
    } else {
        Err(BindError::NoProtocol)
    }
}

/// The bound globals with one more.
pub open spec fn bound_with(bound: Bound, global: Global) -> Bound {
    match global {
        Global::Seat => Bound { seat: true, ..bound },
        Global::Ext => Bound { ext: true, ..bound },
        Global::Wlr => Bound { wlr: true, ..bound },
    }
}

/// The smaller of two versions.
fn cap_version(version: u32, cap: u32) -> (r: u32)
    ensures
        r == capped(version, cap),
{
    if version < cap {
        version
    } else {
        cap
    }
}

impl Bound {
    /// Nothing bound yet.
    pub fn new() -> (r: Self)
        ensures
            r == (Bound { seat: false, ext: false, wlr: false }),
    {
        Bound { seat: false, ext: false, wlr: false }
    }

    /// A global was advertised: decides whether to bind it, and at which
    /// version.
    pub fn advertised(&mut self, interface: &str, version: u32) -> (r: Option<(Global, u32)>)
        ensures
            r == binding(*old(self), interface@, version),
            *final(self) == (match r {
                Some(bind) => bound_with(*old(self), bind.0),
                None => *old(self),
            }),
    {
        if same_text(interface, "wl_seat") && !self.seat {
            self.seat = true;
            Some((Global::Seat, cap_version(version, 7)))
        } else if same_text(interface, "ext_data_control_manager_v1") && !self.ext {
            self.ext = true;
            Some((Global::Ext, cap_version(version, 1)))
        } else if same_text(interface, "zwlr_data_control_manager_v1") && !self.wlr && version
            >= 2 {
            self.wlr = true;
            Some((Global::Wlr, cap_version(version, 2)))
        } else {
            None
        }
    }

    /// Decides which protocol to use.
    pub fn backend(&self) -> (r: Result<Backend, BindError>)
        ensures
            r == backend_of(*self),
            r == (if !self.seat {
                Err(BindError::NoSeat)
            } else if self.ext {
                Ok(Backend::Ext)
            } else if self.wlr {
                Ok(Backend::Wlr)
            } else {
                Err(BindError::NoProtocol)
            }),
    {
        if !self.seat {
            Err(BindError::NoSeat)
        } else if self.ext {
            Ok(Backend::Ext)
        } else if self.wlr {
            Ok(Backend::Wlr)
        } else {
            Err(BindError::NoProtocol)
        }
    }
}

// ---------------------------------------------------------------------------
// Offers
// ---------------------------------------------------------------------------

/// The offers of the compositor, and how far the watcher got.
#[derive(Debug)]
pub struct Watcher {
    /// Mime types advertised by each live offer.
    offers: HashMap<u64, Vec<String>>,
    /// Incremented per selection, so that a slow read from an old selection can
    /// be discarded instead of overwriting a newer one.
    generation: u64,
    /// The compositor reports the current primary selection as soon as it is
    /// asked. Acting on it would pop up over whatever the user last
    /// highlighted, so the first report is swallowed.
    seen_initial: bool,
}

/// The watcher in specifications.
#[verifier::ext_equal]
pub struct WatcherView {
    pub offers: Map<u64, Set<Seq<char>>>,
    pub generation: u64,
    pub seen_initial: bool,
}

/// The mime types of an offer.
pub open spec fn mime_set(mimes: Seq<String>) -> Set<Seq<char>> {
    texts(mimes).to_set()
}

impl View for Watcher {
    type V = WatcherView;

    closed spec fn view(&self) -> WatcherView {
        WatcherView {
            offers: self.offers@.map_values(|mimes: Vec<String>| mime_set(mimes@)),
            generation: self.generation,
            seen_initial: self.seen_initial,
        }
    }
}

/// The mime types that an offer advertises.
pub open spec fn mimes_at(offers: Map<u64, Set<Seq<char>>>, id: u64) -> Set<Seq<char>> {
    if offers.contains_key(id) {
        offers[id]
    } else {
        Set::empty()
    }
}

/// The best text mime type among those advertised, at or after `from` in the
/// list of those accepted.
pub open spec fn best_mime(mimes: Set<Seq<char>>, from: int) -> Option<Seq<char>>
    decreases text_mimes().len() - from,
{
    if from < 0 || from >= text_mimes().len() {
        None
    } else if mimes.contains(text_mimes()[from]) {
        Some(text_mimes()[from])
    } else {
        best_mime(mimes, from + 1)
    }
}

/// What to do about a report of the primary selection.
#[derive(Debug, PartialEq, Eq)]
pub enum Report {
    /// Nothing; it predates the watcher. The offer must be destroyed, if there
    /// is one, or it leaks.
    Swallow(Option<u64>),
    /// Request these mime types of this offer, read them, and forward the
    /// selection.
    Receive { id: u64, mime: &'static str, html: bool },
    /// Forward that the selection was cleared.
    Clear,
}

/// A reaction in specifications.
pub enum ReportView {
    Swallow(Option<u64>),
    Receive { id: u64, mime: Seq<char>, html: bool },
    Clear,
}

impl View for Report {
    type V = ReportView;

    open spec fn view(&self) -> ReportView {
        match self {
            Report::Swallow(id) => ReportView::Swallow(*id),
            Report::Receive { id, mime, html } => ReportView::Receive {
                id: *id,
                mime: mime@,
                html: *html,
            },
            Report::Clear => ReportView::Clear,
        }
    }
}

/// The best text mime type of an optional offer.
pub open spec fn readable(state: WatcherView, id: Option<u64>) -> Option<Seq<char>> {
    match id {
        Some(id) => best_mime(mimes_at(state.offers, id), 0),
        None => None,
    }
}

/// What a report of the primary selection means.
pub open spec fn report_step(state: WatcherView, id: Option<u64>) -> (WatcherView, ReportView) {
    if !state.seen_initial {
        (
            WatcherView {
                seen_initial: true,
                offers: match id {
                    Some(id) => state.offers.remove(id),
                    None => state.offers,
                },
                ..state
            },
            ReportView::Swallow(id),
        )
    } else {
        match readable(state, id) {
            Some(mime) => (
                state,
                ReportView::Receive {
                    id: id->Some_0,
                    mime,
                    html: mimes_at(state.offers, id->Some_0).contains(HTML_MIME@),
                },
            ),
            None => (
                WatcherView { generation: (state.generation + 1) as u64, ..state },
                ReportView::Clear,
            ),
        }
    }
}

/// Picks the best text mime type among those advertised.
fn pick_among(mimes: &Vec<String>) -> (r: Option<&'static str>)
    ensures
        match r {
            Some(mime) => best_mime(mime_set(mimes@), 0) == Some(mime@),
            None => best_mime(mime_set(mimes@), 0) is None,
        },
{
    let accepted: Vec<&'static str> = vec![
        "text/plain;charset=utf-8",
        "text/plain;charset=UTF-8",
        "UTF8_STRING",
        "text/plain",
        "STRING",
        "TEXT",
    ];
    for i in 0..accepted.len()
        invariant
            accepted@.len() == text_mimes().len(),
            forall|k: int| 0 <= k < accepted@.len() ==> (#[trigger] accepted@[k])@
                == text_mimes()[k],
            best_mime(mime_set(mimes@), 0) == best_mime(mime_set(mimes@), i as int),
    {
        assert(accepted@[i as int]@ == text_mimes()[i as int]);
        if is_listed(mimes, accepted[i]) {
            return Some(accepted[i]);
        }
    }
    None
}

/// A new offer was announced.
pub open spec fn offer_step(state: WatcherView, id: u64) -> WatcherView {
    WatcherView { offers: state.offers.insert(id, Set::empty()), ..state }
}

/// An offer advertised a mime type.
pub open spec fn advertise_step(state: WatcherView, id: u64, mime: Seq<char>) -> WatcherView {
    WatcherView {
        offers: state.offers.insert(id, mimes_at(state.offers, id).insert(mime)),
        ..state
    }
}

/// The regular selection changed.
pub open spec fn ignore_step(state: WatcherView, id: Option<u64>) -> (WatcherView, Option<u64>) {
    (
        WatcherView {
            offers: match id {
                Some(id) => state.offers.remove(id),
                None => state.offers,
            },
            ..state
        },
        id,
    )
}

/// A transfer is asked for.
pub open spec fn request_step(state: WatcherView) -> (WatcherView, u64) {
    let generation = (state.generation + 1) as u64;
    (WatcherView { generation, ..state }, generation)
}

/// Whether an offer has HTML.
pub open spec fn has_html(state: WatcherView, id: u64) -> bool {
    mimes_at(state.offers, id).contains(HTML_MIME@)
}

impl Watcher {
    /// A watcher that heard nothing yet.
    pub fn new() -> (r: Self)
        ensures
            r@ == (WatcherView {
                offers: Map::empty(),
                generation: 0,
                seen_initial: false,
            }),
    {
        let r = Watcher { offers: HashMap::new(), generation: 0, seen_initial: false };
        assert(r@.offers =~= Map::<u64, Set<Seq<char>>>::empty());
        r
    }

    /// How many selections there were.
    pub fn generation(&self) -> (r: u64)
        ensures
            r == self@.generation,
    {
        self.generation
    }

    /// A new offer was announced.
    pub fn offered(&mut self, id: u64)
        ensures
            final(self)@ == offer_step(old(self)@, id),
            final(self)@ == (WatcherView {
                offers: old(self)@.offers.insert(id, Set::empty()),
                ..old(self)@
            }),
    {
        let ghost before = self@;
        let mimes: Vec<String> = Vec::new();
        assert(mime_set(mimes@) =~= Set::<Seq<char>>::empty());
        self.offers.insert(id, mimes);
        assert(self@.offers =~= before.offers.insert(id, Set::empty()));
    }

    /// An offer advertised a mime type.
    pub fn advertised(&mut self, id: u64, mime: String)
        ensures
            final(self)@ == advertise_step(old(self)@, id, mime@),
            final(self)@ == (WatcherView {
                offers: old(self)@.offers.insert(
                    id,
                    mimes_at(old(self)@.offers, id).insert(mime@),
                ),
                ..old(self)@
            }),
    {
        let ghost before = self@;
        let mut mimes: Vec<String> = match self.offers.remove(&id) {
            Some(mimes) => mimes,
            None => Vec::new(),
        };
        assert(mime_set(mimes@) =~= mimes_at(before.offers, id));
        let ghost known = texts(mimes@);
        let ghost name = mime@;
        mimes.push(mime);
        proof {
            assert(texts(mimes@) =~= known.push(name));
            assert(known.push(name).to_set() =~= known.to_set().insert(name)) by {
                assert forall|x: Seq<char>| known.push(name).to_set().contains(x)
                    == known.to_set().insert(name).contains(x) by {
                    if known.contains(x) {
                        let k = choose|k: int| 0 <= k < known.len() && known[k] == x;
                        assert(known.push(name)[k] == x);
                    }
                    assert(known.push(name)[known.len() as int] == name);
                }
            }
        }
        self.offers.insert(id, mimes);
        assert(self@.offers =~= before.offers.insert(
            id,
            mimes_at(before.offers, id).insert(name),
        ));
    }

    /// The regular selection changed. It is not used, but the offer must be
    /// destroyed, if there is one, or it leaks.
    pub fn ignored(&mut self, id: Option<u64>) -> (r: Option<u64>)
        ensures
            (final(self)@, r) == ignore_step(old(self)@, id),
            r == id,
            final(self)@ == (WatcherView {
                offers: match id {
                    Some(id) => old(self)@.offers.remove(id),
                    None => old(self)@.offers,
                },
                ..old(self)@
            }),
    {
        let ghost before = self@;
        if let Some(id) = id {
            self.offers.remove(&id);
            assert(self@.offers =~= before.offers.remove(id));
        }
        id
    }

    /// Picks the best text mime type an offer advertises.
    pub fn pick_mime(&self, id: u64) -> (r: Option<&'static str>)
        ensures
            match r {
                Some(mime) => best_mime(mimes_at(self@.offers, id), 0) == Some(mime@),
                None => best_mime(mimes_at(self@.offers, id), 0) is None,
            },
    {
        match self.offers.get(&id) {
            Some(mimes) => pick_among(mimes),
            None => {
                let nothing: Vec<String> = Vec::new();
                assert(mime_set(nothing@) =~= Set::<Seq<char>>::empty());
                pick_among(&nothing)
            },
        }
    }

    /// Whether an offer also carries an HTML rendering of the selection.
    pub fn offers_html(&self, id: u64) -> (r: bool)
        ensures
            r == mimes_at(self@.offers, id).contains(HTML_MIME@),
            r == has_html(self@, id),
    {
        match self.offers.get(&id) {
            Some(mimes) => is_listed(mimes, HTML_MIME),
            None => false,
        }
    }

    /// The primary selection changed.
    pub fn reported(&mut self, id: Option<u64>) -> (r: Report)
        requires
            old(self)@.generation < u64::MAX,
        ensures
            (final(self)@, r@) == report_step(old(self)@, id),
    {
        let ghost before = self@;
        if !self.seen_initial {
            self.seen_initial = true;
            if let Some(id) = id {
                self.offers.remove(&id);
            }
            assert(self@.offers =~= report_step(before, id).0.offers);
            return Report::Swallow(id);
        }
        if let Some(id) = id {
            if let Some(mime) = self.pick_mime(id) {
                let html = self.offers_html(id);
                return Report::Receive { id, mime, html };
            }
        }
        self.generation = self.generation + 1;
        Report::Clear
    }

    /// A selection was requested: the generation that its transfer carries.
    pub fn requested(&mut self) -> (r: u64)
        requires
            old(self)@.generation < u64::MAX,
        ensures
            (final(self)@, r) == request_step(old(self)@),
            r == old(self)@.generation + 1,
            final(self)@ == (WatcherView { generation: r, ..old(self)@ }),
    {
        self.generation = self.generation + 1;
        self.generation
    }
}

/// The HTML of a selection, given the bytes that came for it: none if they are
/// not text or there are none.
pub open spec fn html_of(bytes: Option<Seq<u8>>) -> Option<Seq<char>> {
    match bytes {
        Some(bytes) => if valid_utf8(bytes) && decode_utf8(bytes).len() > 0 {
            Some(decode_utf8(bytes))
        } else {
            None
        },
        None => None,
    }
}

/// The event that a transfer makes.
pub open spec fn transfer(generation: u64, text: Seq<u8>, html: Option<Seq<u8>>) -> Option<
    RawView,
> {
    if valid_utf8(text) {
        Some(
            RawView::Selection {
                generation,
                grab: GrabView { text: decode_utf8(text), html: html_of(html) },
            },
        )
    } else {
        None
    }
}

/// The contents of an optional event.
pub open spec fn maybe_raw(raw: Option<Raw>) -> Option<RawView> {
    match raw {
        Some(raw) => Some(raw@),
        None => None,
    }
}

/// Makes an event of what was transferred. A selection that is not text is
/// ignored.
pub fn transferred(generation: u64, text: Vec<u8>, html: Option<Vec<u8>>) -> (r: Option<Raw>)
    ensures
        if valid_utf8(text@) {
            r matches Some(raw) && raw@ == (RawView::Selection {
                generation,
                grab: GrabView {
                    text: decode_utf8(text@),
                    html: html_of(
                        match html {
                            Some(bytes) => Some(bytes@),
                            None => None,
                        },
                    ),
                },
            })
        } else {
            r is None
        },
        maybe_raw(r) == transfer(
            generation,
            text@,
            match html {
                Some(bytes) => Some(bytes@),
                None => None,
            },
        ),
{
    let text = match utf8_text(text) {
        Ok(text) => text,
        Err(_) => return None,
    };
    let html = match html {
        Some(bytes) => match utf8_text(bytes) {
            Ok(html) => if html.as_str().is_empty() {
                None
            } else {
                Some(html)
            },
            Err(_) => None,
        },
        None => None,
    };
    Some(Raw::Selection { generation, grab: Grab { text, html } })
}

// ---------------------------------------------------------------------------
// What watching promises
// ---------------------------------------------------------------------------

/// The selection that predates the watcher is never forwarded, and only the
/// first report counts as that.
pub proof fn law_the_first_report_is_swallowed(
    state: WatcherView,
    first: Option<u64>,
    second: Option<u64>,
)
    requires
        !state.seen_initial,
    ensures
        ({
            let (after, reaction) = report_step(state, first);
            let (_, next) = report_step(after, second);
            &&& reaction is Swallow
            &&& after.generation == state.generation
            &&& !(next is Swallow)
        }),
{
}

/// A readable selection is read as the best of the accepted mime types that is
/// advertised.
pub proof fn law_the_best_mime_is_picked(mimes: Set<Seq<char>>, from: int)
    requires
        0 <= from,
    ensures
        match best_mime(mimes, from) {
            Some(mime) => mimes.contains(mime) && exists|i: int|
                from <= i < text_mimes().len() && #[trigger] text_mimes()[i] == mime && forall|
                    j: int,
                |
                    from <= j < i ==> !mimes.contains(#[trigger] text_mimes()[j]),
            None => forall|j: int|
                from <= j < text_mimes().len() ==> !mimes.contains(#[trigger] text_mimes()[j]),
        },
    decreases text_mimes().len() - from,
{
    if from < text_mimes().len() && !mimes.contains(text_mimes()[from]) {
        law_the_best_mime_is_picked(mimes, from + 1);
        if let Some(mime) = best_mime(mimes, from) {
            let i = choose|i: int|
                from + 1 <= i < text_mimes().len() && #[trigger] text_mimes()[i] == mime && forall|
                    j: int,
                |
                    from + 1 <= j < i ==> !mimes.contains(#[trigger] text_mimes()[j]);
            assert(text_mimes()[i] == mime);
        }
    } else if from < text_mimes().len() {
        assert(text_mimes()[from] == text_mimes()[from]);
    }
}

/// Version 1 of the wlroots protocol is never bound.
pub proof fn law_version_one_is_of_no_use(bound: Bound, interface: Seq<char>, version: u32)
    ensures
        binding(bound, interface, version) matches Some(bind) ==> (bind.0 == Global::Wlr
            ==> version >= 2 && bind.1 == 2),
{
}

/// The first seat, the first `ext` manager and the first `wlr` manager of version
/// two are bound, at no more than the seventh, first and second version; nothing
/// else is.
pub proof fn law_the_first_of_each_global_is_bound(bound: Bound, name: Seq<char>, version: u32)
    ensures
        name == "wl_seat"@ ==> binding(bound, name, version) == (if bound.seat {
            None
        } else {
            Some(
                (
                    Global::Seat,
                    if version <= 7 {
                        version
                    } else {
                        7u32
                    },
                ),
            )
        }),
        name == "ext_data_control_manager_v1"@ ==> binding(bound, name, version) == (if bound.ext {
            None
        } else {
            Some(
                (
                    Global::Ext,
                    if version == 0 {
                        0u32
                    } else {
                        1u32
                    },
                ),
            )
        }),
        name == "zwlr_data_control_manager_v1"@ ==> binding(bound, name, version) == (
        if bound.wlr || version <= 1 {
            None
        } else {
            Some((Global::Wlr, 2u32))
        }),
        name != "wl_seat"@ && name != "ext_data_control_manager_v1"@ && name
            != "zwlr_data_control_manager_v1"@ ==> binding(bound, name, version) is None,
        bound_with(bound, Global::Seat) == (Bound { seat: true, ext: bound.ext, wlr: bound.wlr }),
        bound_with(bound, Global::Ext) == (Bound { seat: bound.seat, ext: true, wlr: bound.wlr }),
        bound_with(bound, Global::Wlr) == (Bound { seat: bound.seat, ext: bound.ext, wlr: true }),
{
    reveal_strlit("wl_seat");
    reveal_strlit("ext_data_control_manager_v1");
    reveal_strlit("zwlr_data_control_manager_v1");
    assert("wl_seat"@[0] == 'w' && "ext_data_control_manager_v1"@[0] == 'e');
    assert("zwlr_data_control_manager_v1"@[0] == 'z');
}

/// Without a seat nothing can be watched. The `ext` protocol is preferred to the
/// `wlr` one, and without either nothing can be watched.
pub proof fn law_the_newer_protocol_is_preferred(bound: Bound)
    ensures
        !bound.seat ==> backend_of(bound) == Err::<Backend, BindError>(BindError::NoSeat),
        bound.seat && bound.ext ==> backend_of(bound) == Ok::<Backend, BindError>(Backend::Ext),
        bound.seat && !bound.ext && bound.wlr ==> backend_of(bound) == Ok::<Backend, BindError>(
            Backend::Wlr,
        ),
        bound.seat && !bound.ext && !bound.wlr ==> backend_of(bound) == Err::<Backend, BindError>(
            BindError::NoProtocol,
        ),
        bind_error_text(BindError::NoSeat) == "compositor advertised no wl_seat"@,
        bind_error_text(BindError::NoProtocol)
            == "this compositor exposes neither ext-data-control-v1 nor wlr-data-control-v1 v2, so the primary selection cannot be watched"@,
{
}

/// Text is asked for as UTF-8 before anything else, and never as another type.
pub proof fn law_text_is_asked_for_as_utf8_first(mimes: Set<Seq<char>>)
    ensures
        mimes.contains("text/plain;charset=utf-8"@) ==> best_mime(mimes, 0) == Some(
            "text/plain;charset=utf-8"@,
        ),
        !mimes.contains("text/plain;charset=utf-8"@) && mimes.contains("text/plain;charset=UTF-8"@)
            ==> best_mime(mimes, 0) == Some("text/plain;charset=UTF-8"@),
        !mimes.contains("text/plain;charset=utf-8"@) && !mimes.contains(
            "text/plain;charset=UTF-8"@,
        ) ==> {
            &&& mimes.contains("UTF8_STRING"@) ==> best_mime(mimes, 0) == Some("UTF8_STRING"@)
            &&& !mimes.contains("UTF8_STRING"@) && mimes.contains("text/plain"@) ==> best_mime(
                mimes,
                0,
            ) == Some("text/plain"@)
            &&& !mimes.contains("UTF8_STRING"@) && !mimes.contains("text/plain"@)
                && mimes.contains("STRING"@) ==> best_mime(mimes, 0) == Some("STRING"@)
            &&& !mimes.contains("UTF8_STRING"@) && !mimes.contains("text/plain"@)
                && !mimes.contains("STRING"@) && mimes.contains("TEXT"@) ==> best_mime(mimes, 0)
                == Some("TEXT"@)
            &&& !mimes.contains("UTF8_STRING"@) && !mimes.contains("text/plain"@)
                && !mimes.contains("STRING"@) && !mimes.contains("TEXT"@) ==> best_mime(mimes, 0)
                is None
        },
        MAX_READ == 4 * 1024 * 1024,
{
    reveal_with_fuel(best_mime, 7);
    let all = text_mimes();
    assert(all[0] == "text/plain;charset=utf-8"@ && all[1] == "text/plain;charset=UTF-8"@);
    assert(all[2] == "UTF8_STRING"@ && all[3] == "text/plain"@);
    assert(all[4] == "STRING"@ && all[5] == "TEXT"@);
}

/// Once the first report is past, an offer with text is read, with its HTML if it
/// has any, and nothing changes before that. Anything else clears the selection,
/// and counts as a new one.
pub proof fn law_reports_are_read_or_clear_the_selection(
    state: WatcherView,
    id: u64,
    mime: Seq<char>,
)
    requires
        state.seen_initial,
    ensures
        ({
            let mimes = if state.offers.contains_key(id) {
                state.offers[id]
            } else {
                Set::empty()
            };
            let cleared = WatcherView {
                offers: state.offers,
                generation: (state.generation + 1) as u64,
                seen_initial: true,
            };
            &&& best_mime(mimes, 0) == Some(mime) ==> report_step(state, Some(id)) == (
                state,
                (ReportView::Receive { id, mime, html: mimes.contains("text/html"@) }),
            )
            &&& best_mime(mimes, 0) is None ==> report_step(state, Some(id)) == (
                cleared,
                ReportView::Clear,
            )
            &&& report_step(state, None) == (cleared, ReportView::Clear)
        }),
{
}

/// The first report is dropped together with its offer; no other offer is.
pub proof fn law_the_first_offer_is_forgotten(state: WatcherView, id: u64, other: u64)
    requires
        !state.seen_initial,
    ensures
        ({
            let (after, reaction) = report_step(state, Some(id));
            &&& reaction == ReportView::Swallow(Some(id))
            &&& after.seen_initial
            &&& !after.offers.contains_key(id)
            &&& other != id ==> (after.offers.contains_key(other) <==> state.offers.contains_key(
                other,
            ))
            &&& other != id && state.offers.contains_key(other) ==> after.offers[other]
                == state.offers[other]
        }),
        report_step(state, None) == (
            (WatcherView {
                offers: state.offers,
                generation: state.generation,
                seen_initial: true,
            }),
            ReportView::Swallow(None),
        ),
{
}

/// What was transferred is the selection, whole: the text that the bytes encode,
/// and the HTML that its bytes encode unless they are none. What is not text is no
/// selection.
pub proof fn law_transfers_are_taken_whole(
    generation: u64,
    text: Seq<char>,
    html: Seq<char>,
    bytes: Seq<u8>,
)
    ensures
        ({
            let event = |html: Option<Seq<char>>| Some(
                RawView::Selection { generation, grab: GrabView { text, html } },
            );
            &&& transfer(generation, encode_utf8(text), None) == event(None)
            &&& html.len() > 0 ==> transfer(
                generation,
                encode_utf8(text),
                Some(encode_utf8(html)),
            ) == event(Some(html))
            &&& transfer(generation, encode_utf8(text), Some(encode_utf8(Seq::empty()))) == event(
                None,
            )
            &&& !valid_utf8(bytes) ==> transfer(generation, encode_utf8(text), Some(bytes))
                == event(None)
            &&& !valid_utf8(bytes) ==> transfer(generation, bytes, None) is None
            &&& !valid_utf8(bytes) ==> transfer(generation, bytes, Some(encode_utf8(html))) is None
        }),
{
    encode_utf8_valid_utf8(text);
    encode_utf8_valid_utf8(html);
    encode_utf8_valid_utf8(Seq::empty());
    encode_utf8_decode_utf8(text);
    encode_utf8_decode_utf8(html);
    encode_utf8_decode_utf8(Seq::empty());
}

/// An offer has the mime types that it advertised since it was announced, and no
/// other; what one advertises is nothing to the others.
pub proof fn law_an_offer_has_what_it_advertised(
    state: WatcherView,
    id: u64,
    mime: Seq<char>,
    name: Seq<char>,
    other: u64,
)
    ensures
        ({
            let fresh = offer_step(state, id);
            let told = advertise_step(state, id, mime);
            let lists = |state: WatcherView, id: u64, name: Seq<char>|
                state.offers.contains_key(id) && state.offers[id].contains(name);
            &&& fresh.offers.contains_key(id)
            &&& !lists(fresh, id, name)
            &&& lists(told, id, name) <==> name == mime || lists(state, id, name)
            &&& other != id ==> (lists(fresh, other, name) <==> lists(state, other, name))
            &&& other != id ==> (lists(told, other, name) <==> lists(state, other, name))
            &&& fresh.generation == state.generation && fresh.seen_initial == state.seen_initial
            &&& told.generation == state.generation && told.seen_initial == state.seen_initial
            &&& has_html(state, id) <==> lists(state, id, "text/html"@)
        }),
{
}

/// An offer of the regular selection is forgotten and named, so that it can be
/// destroyed; all others stay.
pub proof fn law_offers_of_the_regular_selection_are_dropped(
    state: WatcherView,
    id: u64,
    other: u64,
)
    ensures
        ignore_step(state, None) == (state, None::<u64>),
        ({
            let (after, dropped) = ignore_step(state, Some(id));
            &&& dropped == Some(id)
            &&& !after.offers.contains_key(id)
            &&& other != id ==> (after.offers.contains_key(other) <==> state.offers.contains_key(
                other,
            ))
            &&& other != id && state.offers.contains_key(other) ==> after.offers[other]
                == state.offers[other]
            &&& after.generation == state.generation
            &&& after.seen_initial == state.seen_initial
        }),
{
}

/// Every transfer that is asked for has a generation of its own, the next one.
pub proof fn law_each_transfer_has_its_own_generation(state: WatcherView)
    requires
        state.generation < u64::MAX,
    ensures
        ({
            let (after, generation) = request_step(state);
            &&& generation == state.generation + 1
            &&& after.generation == generation
            &&& after.offers == state.offers
            &&& after.seen_initial == state.seen_initial
        }),
{
}

} // verus!
