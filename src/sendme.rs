//! Flow-control windows for circuits and streams.
//!
//! Each side of a circuit or stream tracks how many cells it may still
//! send (a send window) and how many it is willing to receive before it
//! must acknowledge them with a SENDME message (a receive window).
//! Circuit SENDMEs are authenticated: each carries a tag that must match
//! the oldest tag recorded when the acknowledged cells were sent.
use vstd::prelude::*;
use crate::ct::ct_eq_bytes;
use crate::error::Error;
use std::marker::PhantomData;
use vstd::arithmetic::div_mod::{
    lemma_div_is_ordered, lemma_div_minus_one, lemma_fundamental_div_mod,
    lemma_mod_multiples_vanish,
};

verus! {

/// Parameters of a window: its largest value and the step of a SENDME.
pub trait WindowParams {
    /// Largest allowable value for this window.
    spec fn max_spec() -> u16;

    /// Amount by which one SENDME moves this window.
    spec fn incr_spec() -> u16;

    /// The increment is positive and divides the maximum.
    proof fn lemma_params()
        ensures
            0 < Self::incr_spec() <= Self::max_spec(),
            Self::max_spec() % Self::incr_spec() == 0,
    ;

    /// Largest allowable value for this window.
    fn maximum() -> (r: u16)
        ensures
            r == Self::max_spec(),
    ;

    /// Increment for this window.
    fn increment() -> (r: u16)
        ensures
            r == Self::incr_spec(),
            r > 0,
    ;
}

/// Parameters of circuit windows: at most 1000 cells, 100 per SENDME.
#[derive(Clone, Copy)]
pub struct CircParams;

impl WindowParams for CircParams {
    open spec fn max_spec() -> u16 {
        1000
    }

    open spec fn incr_spec() -> u16 {
        100
    }

    proof fn lemma_params() {
    }

    fn maximum() -> (r: u16) {
        1000
    }

    fn increment() -> (r: u16) {
        100
    }
}

/// Parameters of stream windows: at most 500 cells, 50 per SENDME.
#[derive(Clone, Copy)]
pub struct StreamParams;

impl WindowParams for StreamParams {
    open spec fn max_spec() -> u16 {
        500
    }

    open spec fn incr_spec() -> u16 {
        50
    }

    proof fn lemma_params() {
    }

    fn maximum() -> (r: u16) {
        500
    }

    fn increment() -> (r: u16) {
        50
    }
}

/// Structure to track when we need to send SENDME cells for incoming data.
pub struct RecvWindow<P: WindowParams> {
    /// Number of cells that we'd be willing to receive on this window
    /// before sending a SENDME.
    window: u16,
    _dummy: PhantomData<P>,
}

impl<P: WindowParams> View for RecvWindow<P> {
    type V = u16;

    closed spec fn view(&self) -> u16 {
        self.window
    }
}

impl<P: WindowParams> Clone for RecvWindow<P> {
    fn clone(&self) -> (r: Self)
        ensures
            r@ == self@,
    {
        RecvWindow { window: self.window, _dummy: PhantomData }
    }
}

impl<P: WindowParams> RecvWindow<P> {
    /// Create a new receive window holding `window` cells of credit.
    pub fn new(window: u16) -> (r: RecvWindow<P>)
        ensures
            r@ == window,
    {
        RecvWindow { window, _dummy: PhantomData }
    }

    /// Called when a cell has been received: return `Some(true)` when a
    /// SENDME is now due, `Some(false)` when none is, and `None` when the
    /// cell overran the window (the window is then left as it was).
    pub fn take(&mut self) -> (r: Option<bool>)
        ensures
            old(self)@ == 0 ==> r is None && final(self)@ == 0,
            old(self)@ > 0 ==> final(self)@ == old(self)@ - 1 && r == Some(
                (final(self)@ as int) % (P::incr_spec() as int) == 0,
            ),
    {
        let v = self.window.checked_sub(1);
        if let Some(x) = v {
            self.window = x;
            Some(x % P::increment() == 0)
        } else {
            None
        }
    }

    /// Reduce this window by `n`; give an error if this is not possible.
    pub fn decrement_n(&mut self, n: u16) -> (r: Result<(), Error>)
        ensures
            n <= old(self)@ ==> r is Ok && final(self)@ == old(self)@ - n,
            n > old(self)@ ==> (r matches Err(Error::CircProto(_))) && final(self)@ == old(self)@,
    {
        let v = self.window.checked_sub(n);
        if let Some(x) = v {
            self.window = x;
            Ok(())
        } else {
            Err(Error::CircProto("Received too many cells on a stream"))
        }
    }

    /// Called when we have just sent a SENDME: the window grows by one
    /// increment.
    pub fn put(&mut self)
        requires
            old(self)@ + P::incr_spec() <= u16::MAX,
        ensures
            final(self)@ == old(self)@ + P::incr_spec(),
    {
        self.window = self.window + P::increment();
    }

    /// Current value of this window.
    pub fn window(&self) -> (r: u16)
        ensures
            r == self@,
    {
        self.window
    }
}

/// The command of a relay message, as far as flow control cares.
#[derive(Clone, Copy, Debug, PartialEq, Eq)]
pub enum RelayCmd {
    Data,
    Sendme,
    Extend,
    Extended,
    Other,
}

/// Whether a message with command `cmd` is counted by flow-control
/// windows: only data messages are.
pub fn msg_counts_towards_windows(cmd: RelayCmd) -> (r: bool)
    ensures
        r == (cmd is Data),
{
    match cmd {
        RelayCmd::Data => true,
        _ => false,
    }
}

/// Tag type used in circuit SENDME cells.
pub type CircTag = [u8; 20];

/// Absence of a tag, as with stream SENDME cells.
pub type NoTag = ();

/// A circuit's send window.
pub type CircSendWindow = SendWindow<CircParams, CircTag>;

/// A stream's send window.
pub type StreamSendWindow = SendWindow<StreamParams, NoTag>;

/// A circuit's receive window.
pub type CircRecvWindow = RecvWindow<CircParams>;

/// A stream's receive window.
pub type StreamRecvWindow = RecvWindow<StreamParams>;

/// A tag that a SENDME message may carry to acknowledge sent cells.
pub trait SendmeTag: Sized {
    /// The bytes of this tag.
    spec fn tag_view(&self) -> Seq<u8>;

    /// Compare two tags without short-circuiting on their contents.
    fn tag_eq(&self, other: &Self) -> (r: bool)
        ensures
            r == (self.tag_view() == other.tag_view()),
    ;

    /// A copy of this tag.
    fn tag_clone(&self) -> (r: Self)
        ensures
            r.tag_view() == self.tag_view(),
    ;
}

impl SendmeTag for [u8; 20] {
    open spec fn tag_view(&self) -> Seq<u8> {
        self@
    }

    fn tag_eq(&self, other: &Self) -> (r: bool) {
        ct_eq_bytes(self.as_slice(), other.as_slice())
    }

    fn tag_clone(&self) -> (r: Self) {
        *self
    }
}

impl SendmeTag for () {
    open spec fn tag_view(&self) -> Seq<u8> {
        Seq::empty()
    }

    fn tag_eq(&self, other: &Self) -> (r: bool) {
        true
    }

    fn tag_clone(&self) -> (r: Self) {
    }
}

/// Abstract state of a send window.
pub ghost struct SendState {
    /// Cells that may still be sent without acknowledgement.
    pub window: u16,
    /// Tags that incoming SENDMEs must match, oldest first.
    pub tags: Seq<Seq<u8>>,
    /// Whether a sender is waiting for credit.
    pub parked: bool,
}

/// Effect of sending one cell with tag `tag`: the new state, and the
/// remaining credit, or `None` when there was none and the sender must wait.
pub open spec fn take_spec(s: SendState, tag: Seq<u8>, incr: u16) -> (SendState, Option<u16>) {
    if s.window == 0 {
        (SendState { parked: true, ..s }, None)
    } else {
        let w = (s.window - 1) as u16;
        let tags = if w % incr == 0 {
            s.tags.push(tag)
        } else {
            s.tags
        };
        (SendState { window: w, tags, parked: s.parked }, Some(w))
    }
}

/// Whether a SENDME carrying `tag` is accepted in state `s`: a tag must be
/// recorded, the SENDME either names the oldest one or names none, and
/// the credit it brings must fit in the window's width.
pub open spec fn put_accepts(s: SendState, tag: Option<Seq<u8>>, incr: u16) -> bool {
    &&& s.tags.len() > 0
    &&& (tag matches Some(t) ==> t == s.tags[0])
    &&& s.window + incr <= u16::MAX
}

/// Effect of receiving a SENDME carrying `tag`: on acceptance the oldest
/// tag is consumed, the credit grows by `incr` and a waiting sender is
/// released; otherwise nothing changes and the result is `None`.
pub open spec fn put_spec(s: SendState, tag: Option<Seq<u8>>, incr: u16) -> (SendState, Option<u16>) {
    if put_accepts(s, tag, incr) {
        let w = (s.window + incr) as u16;
        (SendState { window: w, tags: s.tags.drop_first(), parked: false }, Some(w))
    } else {
        (s, None)
    }
}

/// The bytes of an optional tag.
pub open spec fn opt_tag_view<T: SendmeTag>(tag: Option<T>) -> Option<Seq<u8>> {
    match tag {
        Some(t) => Some(t.tag_view()),
        None => None,
    }
}

/// Tracks how many cells we can safely send on a circuit or stream, and
/// the tags that will acknowledge the cells already sent.
pub struct SendWindow<P: WindowParams, T: SendmeTag> {
    /// Current value for this window.
    window: u16,
    /// Tags that incoming SENDMEs need to match, oldest first.
    tags: Vec<T>,
    /// Whether a sender found no credit and waits for a SENDME.
    parked: bool,
    _dummy: PhantomData<P>,
}

impl<P: WindowParams, T: SendmeTag> View for SendWindow<P, T> {
    type V = SendState;

    closed spec fn view(&self) -> SendState {
        SendState {
            window: self.window,
            tags: self.tags@.map_values(|t: T| t.tag_view()),
            parked: self.parked,
        }
    }
}

impl<P: WindowParams, T: SendmeTag> SendWindow<P, T> {
    /// Construct a new send window holding `window` cells of credit.
    pub fn new(window: u16) -> (r: Self)
        ensures
            r@ == (SendState { window, tags: Seq::empty(), parked: false }),
    {
        let r = SendWindow { window, tags: Vec::new(), parked: false, _dummy: PhantomData };
        assert(r@.tags =~= Seq::<Seq<u8>>::empty());
        r
    }

    /// Remove one cell of credit, since a cell with tag `tag` is about to
    /// be sent.  When the new credit is a multiple of the increment the tag
    /// is recorded.  Return the credit left, or `None` when there is none:
    /// the sender is then marked as waiting and must retry after a SENDME.
    pub fn take(&mut self, tag: &T) -> (r: Option<u16>)
        ensures
            (final(self)@, r) == take_spec(old(self)@, tag.tag_view(), P::incr_spec()),
    {
        if self.window == 0 {
            self.parked = true;
            return None;
        }
        let w = self.window - 1;
        self.window = w;
        if w % P::increment() == 0 {
            let ghost before = self.tags@;
            self.tags.push(tag.tag_clone());
            assert(self.tags@.map_values(|t: T| t.tag_view()) =~= before.map_values(
                |t: T| t.tag_view(),
            ).push(tag.tag_view()));
        }
        Some(w)
    }

    /// Handle an incoming SENDME carrying `tag` (`None` when the peer sent
    /// no tag, which is accepted against any recorded tag).  Return the new
    /// credit, or `None` when the SENDME must be treated as a protocol
    /// violation; the window is then left as it was.
    pub fn put(&mut self, tag: Option<T>) -> (r: Option<u16>)
        ensures
            (final(self)@, r) == put_spec(old(self)@, opt_tag_view(tag), P::incr_spec()),
    {
        if self.tags.len() == 0 {
            return None;
        }
        if let Some(t) = &tag {
            if !self.tags[0].tag_eq(t) {
                return None;
            }
        }
        let v = match self.window.checked_add(P::increment()) {
            Some(v) => v,
            None => return None,
        };
        let ghost before = self.tags@;
        self.tags.remove(0);
        assert(self.tags@.map_values(|t: T| t.tag_view()) =~= before.map_values(
            |t: T| t.tag_view(),
        ).drop_first());
        self.window = v;
        self.parked = false;
        Some(v)
    }

    /// Current credit of this window.
    pub fn window(&self) -> (r: u16)
        ensures
            r == self@.window,
    {
        self.window
    }

    /// Whether a sender waits for credit on this window.
    pub fn has_parked(&self) -> (r: bool)
        ensures
            r == self@.parked,
    {
        self.parked
    }

    /// The recorded tags, oldest first.
    pub fn tags(&self) -> (r: &Vec<T>)
        ensures
            r@.map_values(|t: T| t.tag_view()) == self@.tags,
    {
        &self.tags
    }
}

/// State after sending one cell for each tag of `ts`, in order.
pub open spec fn take_all(s: SendState, ts: Seq<Seq<u8>>, incr: u16) -> SendState
    decreases ts.len(),
{
    if ts.len() == 0 {
        s
    } else {
        take_spec(take_all(s, ts.drop_last(), incr), ts.last(), incr).0
    }
}

proof fn lemma_complement_multiple(a: int, b: int, q: int, i: int)
    requires
        0 < i,
        a + b == q * i,
        a % i == 0,
    ensures
        b % i == 0,
{
    lemma_fundamental_div_mod(a, i);
    let c = q - a / i;
    assert(b == i * c + 0) by (nonlinear_arith)
        requires a + b == q * i, a == i * (a / i) + 0, c == q - a / i;
    lemma_mod_multiples_vanish(c, 0, i);
}

proof fn lemma_take_all_count(s: SendState, ts: Seq<Seq<u8>>, incr: u16)
    requires
        0 < incr,
        s.window % incr == 0,
        ts.len() <= s.window,
    ensures
        take_all(s, ts, incr).window == s.window - ts.len(),
        take_all(s, ts, incr).tags.len() == s.tags.len() + (ts.len() as int) / (incr as int),
        take_all(s, ts, incr).parked == s.parked,
    decreases ts.len(),
{
    if ts.len() > 0 {
        let k = ts.len() - 1;
        lemma_take_all_count(s, ts.drop_last(), incr);
        let w = s.window as int;
        let i = incr as int;
        let q = w / i;
        assert(w == q * i) by (nonlinear_arith)
            requires w % i == 0, 0 < i, q == w / i;
        let nw = w - k - 1;
        if nw % i == 0 {
            lemma_complement_multiple(nw, k + 1, q, i);
        }
        if (k + 1) % i == 0 {
            lemma_complement_multiple(k + 1, nw, q, i);
        }
        assert((k + 1) / i == k / i + (if (k + 1) % i == 0 { 1int } else { 0 })) by (nonlinear_arith)
            requires 0 < i, 0 <= k;
    }
}

/// Starting from a full window, sending `maximum` cells records one tag per
/// increment, empties the window, and leaves the next sender waiting.
pub proof fn lemma_fill_window<P: WindowParams>(s: SendState, ts: Seq<Seq<u8>>, tag: Seq<u8>)
    requires
        s.window == P::max_spec(),
        ts.len() == P::max_spec(),
    ensures
        take_all(s, ts, P::incr_spec()).window == 0,
        take_all(s, ts, P::incr_spec()).tags.len() == s.tags.len() + P::max_spec() / P::incr_spec(),
        take_spec(take_all(s, ts, P::incr_spec()), tag, P::incr_spec()).1 is None,
        take_spec(take_all(s, ts, P::incr_spec()), tag, P::incr_spec()).0.parked,
{
    P::lemma_params();
    lemma_take_all_count(s, ts, P::incr_spec());
}

/// A SENDME naming the oldest tag, sent while a sender waits on an empty
/// window, is accepted: the credit becomes one increment, the sender is
/// released, and its retried send then succeeds.
pub proof fn lemma_put_releases_waiter<P: WindowParams>(s: SendState, tag: Seq<u8>, next: Seq<u8>)
    requires
        s.window == 0,
        s.parked,
        s.tags.len() > 0,
        tag == s.tags[0],
    ensures
        put_spec(s, Some(tag), P::incr_spec()).1 == Some(P::incr_spec()),
        put_spec(s, Some(tag), P::incr_spec()).0.window == P::incr_spec(),
        put_spec(s, Some(tag), P::incr_spec()).0.tags == s.tags.drop_first(),
        !put_spec(s, Some(tag), P::incr_spec()).0.parked,
        take_spec(put_spec(s, Some(tag), P::incr_spec()).0, next, P::incr_spec()).1 == Some(
            (P::incr_spec() - 1) as u16,
        ),
{
    P::lemma_params();
}

/// A SENDME whose tag differs from the oldest recorded tag is refused and
/// changes nothing; in particular no waiting sender is released.
pub proof fn lemma_put_mismatch_unchanged(s: SendState, tag: Seq<u8>, incr: u16)
    requires
        s.tags.len() > 0,
        tag != s.tags[0],
    ensures
        put_spec(s, Some(tag), incr) == (s, None::<u16>),
{
}

/// A SENDME without a tag is accepted whenever a tag is recorded and the
/// credit fits.
pub proof fn lemma_put_untagged_accepted(s: SendState, incr: u16)
    requires
        s.tags.len() > 0,
        s.window + incr <= u16::MAX,
    ensures
        put_spec(s, None, incr).1 == Some((s.window + incr) as u16),
        put_spec(s, None, incr).0.tags == s.tags.drop_first(),
{
}

/// The send window's invariant under the parameters `P`: the credit stays
/// within the maximum, and one tag is recorded for each increment of credit
/// spent.
pub open spec fn send_wf<P: WindowParams>(s: SendState) -> bool {
    &&& s.window <= P::max_spec()
    &&& s.tags.len() == (P::max_spec() - s.window) as int / P::incr_spec() as int
}

/// A fresh window at the maximum meets the invariant, and the invariant
/// bounds the number of recorded tags by `maximum / increment`.
pub proof fn lemma_send_wf_bounds<P: WindowParams>(s: SendState)
    ensures
        send_wf::<P>(SendState { window: P::max_spec(), tags: Seq::empty(), parked: false }),
        send_wf::<P>(s) ==> s.tags.len() <= P::max_spec() / P::incr_spec(),
{
    P::lemma_params();
    lemma_div_is_ordered(0, 0, P::incr_spec() as int);
    lemma_div_is_ordered(
        (P::max_spec() - s.window) as int,
        P::max_spec() as int,
        P::incr_spec() as int,
    );
}

/// Sending a cell preserves the invariant.
pub proof fn lemma_take_keeps_wf<P: WindowParams>(s: SendState, tag: Seq<u8>)
    requires
        send_wf::<P>(s),
    ensures
        send_wf::<P>(take_spec(s, tag, P::incr_spec()).0),
{
    P::lemma_params();
    if s.window > 0 {
        let i = P::incr_spec() as int;
        let m = P::max_spec() as int;
        let k = m - s.window;
        let q = m / i;
        lemma_fundamental_div_mod(m, i);
        assert(m == q * i) by (nonlinear_arith)
            requires m % i == 0, m == i * (m / i) + m % i, q == m / i;
        let nw = s.window - 1;
        if nw % i == 0 {
            lemma_complement_multiple(nw, k + 1, q, i);
        }
        if (k + 1) % i == 0 {
            lemma_complement_multiple(k + 1, nw, q, i);
        }
        assert((k + 1) / i == k / i + (if (k + 1) % i == 0 { 1int } else { 0 })) by (nonlinear_arith)
            requires 0 < i, 0 <= k;
    }
}

/// Receiving a SENDME preserves the invariant; in particular an accepted
/// SENDME never raises the credit above the maximum.
pub proof fn lemma_put_keeps_wf<P: WindowParams>(s: SendState, tag: Option<Seq<u8>>)
    requires
        send_wf::<P>(s),
    ensures
        send_wf::<P>(put_spec(s, tag, P::incr_spec()).0),
{
    P::lemma_params();
    if put_accepts(s, tag, P::incr_spec()) {
        let i = P::incr_spec() as int;
        let k = (P::max_spec() - s.window) as int;
        if k < i {
            assert(k / i == 0) by (nonlinear_arith)
                requires 0 <= k < i;
        }
        lemma_div_minus_one(k, i);
        assert(-i + k == k - i);
    }
}

} // verus!
