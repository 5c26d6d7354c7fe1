//! The feed engine: the ordered record collection, batch merging with
//! retention pruning, transient animation state, free-text and structured
//! filter evaluation, and virtual-window arithmetic for the viewport.

use vstd::prelude::*;
use crate::filter::{TransactionFilter, TransactionFilterOperation, TransactionFilterView};
use crate::text::{contains_seq, contains_str, lower_of, lowercase, trim_spec, trim_str};

verus! {

/// Records older than this (in seconds) fall out of the rolling retention
/// window and are pruned on every merge.
pub const SECONDS_IN_DAY: u64 = 86400;

/// Seconds between two polls of the feed service.
pub const FETCH_INTERVAL: u64 = 5;

/// Delay, in seconds, before a merge's freshly inserted records stop
/// animating.
pub const ANIMATION_CLEAR_DELAY: u64 = 1;

/// Quiet period, in milliseconds, before an edited free-text filter is
/// committed.
pub const DEBOUNCE_MILLIS: u64 = 300;

/// Rows of margin rendered above and below the viewport.
pub const NODE_PADDING: i32 = 2;

/// Widest screen, in pixels, that still gets the mobile row height.
pub const MOBILE_WIDTH: i32 = 768;

/// Height in pixels of one record card on a desktop screen.
pub const ELEM_HEIGHT_DESKTOP: i32 = 150;

/// Height in pixels of one record card on a mobile screen.
pub const ELEM_HEIGHT_MOBILE: i32 = 220;

/// Vertical margin in pixels between two record cards.
pub const ELEM_MARGIN: i32 = 24;

/// One record of the feed: a stable id (`hash`), the decoded text
/// (`message`), a timestamp in seconds, the optional source and destination
/// addresses, and the transient animation flag (`None` until the record has
/// taken part in a non-initial merge).
pub struct Transaction {
    pub hash: String,
    pub message: String,
    pub timestamp: u64,
    pub from: Option<String>,
    pub to: Option<String>,
    pub animate: Option<bool>,
}

/// Mathematical image of a [`Transaction`].
pub ghost struct TransactionView {
    pub hash: Seq<char>,
    pub message: Seq<char>,
    pub timestamp: u64,
    pub from: Option<Seq<char>>,
    pub to: Option<Seq<char>>,
    pub animate: Option<bool>,
}

impl View for Transaction {
    type V = TransactionView;

    open spec fn view(&self) -> TransactionView {
        TransactionView {
            hash: self.hash@,
            message: self.message@,
            timestamp: self.timestamp,
            from: match self.from {
                Some(s) => Some(s@),
                None => None,
            },
            to: match self.to {
                Some(s) => Some(s@),
                None => None,
            },
            animate: self.animate,
        }
    }
}

impl Clone for Transaction {
    fn clone(&self) -> (r: Self)
        ensures
            r@ == self@,
    {
        Transaction {
            hash: self.hash.clone(),
            message: self.message.clone(),
            timestamp: self.timestamp,
            from: match &self.from {
                Some(s) => Some(s.clone()),
                None => None,
            },
            to: match &self.to {
                Some(s) => Some(s.clone()),
                None => None,
            },
            animate: self.animate,
        }
    }
}

/// The images of a sequence of records.
pub open spec fn views(s: Seq<Transaction>) -> Seq<TransactionView> {
    s.map_values(|t: Transaction| t@)
}

/// The images of a sequence of structured filters.
pub open spec fn filter_views(s: Seq<TransactionFilter>) -> Seq<TransactionFilterView> {
    s.map_values(|f: TransactionFilter| f@)
}

/// Newest first: timestamps never increase along the collection.
pub open spec fn sorted_desc(s: Seq<TransactionView>) -> bool {
    forall|i: int, j: int| 0 <= i <= j < s.len() ==> s[i].timestamp >= s[j].timestamp
}

/// A record is inside the retention window at time `now`.
pub open spec fn fresh_at(tv: TransactionView, now: u64) -> bool {
    now - tv.timestamp < SECONDS_IN_DAY
}

/// The value `v` exactly equals the record's origin, destination, or text.
pub open spec fn field_matches(tv: TransactionView, v: Seq<char>) -> bool {
    tv.from == Some(v) || tv.to == Some(v) || tv.message == v
}

/// Every `Include` entry's value is carried by the record in some field.
/// Entries that share a value state the same requirement, so this is the
/// "every distinct value must be matched" rule; with no `Include` entries it
/// passes vacuously.
pub open spec fn include_pass(tv: TransactionView, fs: Seq<TransactionFilterView>) -> bool {
    forall|i: int|
        0 <= i < fs.len() && (#[trigger] fs[i]).operation is Include ==> field_matches(tv, fs[i].text)
}

/// Some `Exclude` entry's value is carried by the record in some field.
pub open spec fn exclude_hit(tv: TransactionView, fs: Seq<TransactionFilterView>) -> bool {
    exists|i: int|
        0 <= i < fs.len() && (#[trigger] fs[i]).operation is Exclude && field_matches(tv, fs[i].text)
}

/// The two-phase structured filter: all includes satisfied, no exclude hit.
pub open spec fn structured_pass(tv: TransactionView, fs: Seq<TransactionFilterView>) -> bool {
    include_pass(tv, fs) && !exclude_hit(tv, fs)
}

/// The free-text filter: no filter, or a case-insensitive substring match
/// on the record text — the lowercased filter occurs in the lowercased
/// text.
pub open spec fn text_pass(tv: TransactionView, tf: Option<Seq<char>>) -> bool {
    match tf {
        None => true,
        Some(p) => contains_seq(lower_of(tv.message), lower_of(p)),
    }
}

/// A record is visible under the free-text filter and the structured filter
/// set.
pub open spec fn keep(tv: TransactionView, tf: Option<Seq<char>>, fs: Seq<TransactionFilterView>) -> bool {
    text_pass(tv, tf) && structured_pass(tv, fs)
}

/// A batch's records as they enter a non-initial merge: every animation
/// flag raised.
pub open spec fn mark_new(s: Seq<TransactionView>) -> Seq<TransactionView> {
    s.map_values(|tv: TransactionView| TransactionView { animate: Some(true), ..tv })
}

/// A batch's records as they enter the initial merge: every animation flag
/// unset, so the initial load does not animate.
pub open spec fn mark_initial(s: Seq<TransactionView>) -> Seq<TransactionView> {
    s.map_values(|tv: TransactionView| TransactionView { animate: None, ..tv })
}

/// The retention predicate at time `now`, as a value that can be handed to
/// `Seq::filter`.
pub open spec fn retention_pred(now: u64) -> spec_fn(TransactionView) -> bool {
    |tv: TransactionView| fresh_at(tv, now)
}

/// The collection with every record outside the retention window removed.
pub open spec fn prune(s: Seq<TransactionView>, now: u64) -> Seq<TransactionView> {
    s.filter(retention_pred(now))
}

/// The collection after a non-initial merge: the batch, marked as animating,
/// prepended to the previous collection, then pruned.
pub open spec fn merged(pre: Seq<TransactionView>, batch: Seq<TransactionView>, now: u64) -> Seq<TransactionView> {
    prune(mark_new(batch) + pre, now)
}

/// The collection after an animation-clear pass: every raised flag lowered,
/// everything else untouched.
pub open spec fn clear_new(s: Seq<TransactionView>) -> Seq<TransactionView> {
    s.map_values(
        |tv: TransactionView|
            if tv.animate == Some(true) {
                TransactionView { animate: Some(false), ..tv }
            } else {
                tv
            },
    )
}

/// The predicate that removing a structured filter entry keeps the other
/// entries by: every entry different from the removed one.
pub open spec fn keeps_other_filters(fv: TransactionFilterView) -> spec_fn(
    TransactionFilterView,
) -> bool {
    |g: TransactionFilterView| g != fv
}

/// A committed free-text edit: whitespace-only input clears the filter,
/// anything else is kept trimmed.
pub open spec fn normalized_filter(s: Seq<char>) -> Option<Seq<char>> {
    if trim_spec(s).len() == 0 {
        None
    } else {
        Some(trim_spec(s))
    }
}

/// The record collection and its initial-merge flag are untouched.
pub open spec fn same_feed(a: Model, b: Model) -> bool {
    &&& a.first_fetch_done == b.first_fetch_done
    &&& a.transactions == b.transactions
}

/// The free-text filter, structured filters, and debounce state are
/// untouched.
pub open spec fn same_filter_state(a: Model, b: Model) -> bool {
    &&& a.text_filter == b.text_filter
    &&& a.transaction_filters == b.transaction_filters
    &&& a.pending_filter == b.pending_filter
    &&& a.debounce_gen == b.debounce_gen
}

/// The viewport metrics are untouched.
pub open spec fn same_viewport(a: Model, b: Model) -> bool {
    &&& a.scroll_top == b.scroll_top
    &&& a.root_height == b.root_height
    &&& a.row_height == b.row_height
}

/// The fetch status flags and the sticky error are untouched.
pub open spec fn same_status(a: Model, b: Model) -> bool {
    &&& a.loading == b.loading
    &&& a.error == b.error
    &&& a.feed_paused == b.feed_paused
}

/// Equality of everything but the record collection and its initial-merge
/// flag: what a merge or an animation-clear pass must leave untouched.
pub open spec fn same_but_collection(a: Model, b: Model) -> bool {
    &&& same_status(a, b)
    &&& same_filter_state(a, b)
    &&& same_viewport(a, b)
}

/// The filter state a shareable link carries: the active free-text filter
/// and the structured filter entries (`None` when there are none).
pub struct QueryParams {
    pub text_filter: Option<String>,
    pub filters: Option<Vec<TransactionFilter>>,
}

impl Default for QueryParams {
    fn default() -> (r: Self)
        ensures
            r.text_filter is None,
            r.filters is None,
    {
        QueryParams { text_filter: None, filters: None }
    }
}

/// An event the engine reacts to. Fetch results, timer expirations, and
/// scroll offsets are delivered from outside; the engine itself performs no
/// input or output.
pub enum Msg {
    /// The poll interval elapsed: a fetch may be issued.
    FetchTransactions,
    /// A fetch completed successfully with a batch of records.
    TransactionsFetched(Vec<Transaction>),
    /// The animation-clear timer of a merge that inserted this many records
    /// fired.
    RemoveAnimation(usize),
    /// A fetch failed with this description.
    HttpError(String),
    /// A keystroke edited the free-text filter; commit it only after a quiet
    /// period.
    DebounceFilter(String),
    /// The debounce timer armed with this generation fired.
    DebounceElapsed(u64),
    /// Commit a free-text filter now.
    EditFilter(String),
    /// Add a structured filter entry.
    AddFilter(TransactionFilter),
    /// Remove every structured filter entry equal to this one.
    RemoveFilter(TransactionFilter),
    /// Build the filter state for a shareable link.
    GenerateShareableUrl,
    /// Toggle whether the periodic fetch is suppressed.
    ToggleFeedPaused,
    /// The viewport scrolled to this offset, in pixels.
    OnScroll(i32),
}

/// An action the surrounding runtime must perform on the engine's behalf.
/// Every timer replaces the previous timer of the same kind.
pub enum Effect {
    /// Issue a fetch for records strictly newer than the cursor.
    StartFetch(Option<u64>),
    /// Arm the poll timer: deliver [`Msg::FetchTransactions`] after this many
    /// seconds.
    SchedulePoll(u64),
    /// Arm the animation-clear timer: deliver [`Msg::RemoveAnimation`] with
    /// the given count after [`ANIMATION_CLEAR_DELAY`] seconds.
    ScheduleAnimationClear(usize),
    /// Arm the debounce timer: deliver [`Msg::DebounceElapsed`] with the
    /// given generation after [`DEBOUNCE_MILLIS`] milliseconds.
    ScheduleDebounce(u64),
    /// Navigate to a link that encodes this filter state.
    Share(QueryParams),
}

/// The engine's whole state: the record collection, fetch status, filter
/// state, debounce state, and viewport metrics.
pub struct Model {
    /// Whether the initial merge has happened.
    pub first_fetch_done: bool,
    /// The record collection, newest first.
    pub transactions: Vec<Transaction>,
    /// Whether a fetch is in flight.
    pub loading: bool,
    /// The sticky description of the last failed fetch; replaced by `None`
    /// on the next successful fetch.
    pub error: Option<String>,
    /// The committed free-text filter, if any.
    pub text_filter: Option<String>,
    /// Whether interval polls are suppressed.
    pub feed_paused: bool,
    /// The structured filter entries, in insertion order.
    pub transaction_filters: Vec<TransactionFilter>,
    /// The free-text value awaiting its debounce quiet period.
    pub pending_filter: Option<String>,
    /// Generation of the most recently armed debounce timer; an older
    /// timer's expiration is ignored.
    pub debounce_gen: u64,
    /// Scroll offset of the viewport, in pixels.
    pub scroll_top: i32,
    /// Height of the viewport, in pixels.
    pub root_height: i32,
    /// Height of one rendered row, in pixels.
    pub row_height: i32,
}

impl Model {
    /// The committed free-text filter as a sequence of characters.
    pub open spec fn active_filter(&self) -> Option<Seq<char>> {
        match self.text_filter {
            Some(f) => Some(f@),
            None => None,
        }
    }

    /// The structured filter entries as their images.
    pub open spec fn filters(&self) -> Seq<TransactionFilterView> {
        filter_views(self.transaction_filters@)
    }

    /// The predicate that [`Model::filtered_transactions`] keeps a record
    /// image by.
    pub open spec fn keep_pred(&self) -> spec_fn(TransactionView) -> bool {
        |tv: TransactionView| keep(tv, self.active_filter(), self.filters())
    }

    /// Well-formedness: the collection is ordered newest first and the
    /// viewport metrics are usable.
    pub open spec fn wf(&self) -> bool {
        &&& sorted_desc(views(self.transactions@))
        &&& self.row_height > 0
        &&& self.root_height >= 0
        &&& self.scroll_top >= 0
    }

    /// The engine before the first merge: an empty collection, no filters,
    /// nothing in flight, and desktop viewport metrics.
    pub fn create() -> (m: Model)
        ensures
            m.wf(),
            !m.first_fetch_done,
            m.transactions@.len() == 0,
            !m.loading,
            m.error is None,
            m.text_filter is None,
            !m.feed_paused,
            m.transaction_filters@.len() == 0,
            m.pending_filter is None,
            m.debounce_gen == 0,
            m.scroll_top == 0,
            m.root_height == 600,
            m.row_height == ELEM_HEIGHT_DESKTOP + ELEM_MARGIN,
    {
        Model {
            first_fetch_done: false,
            transactions: Vec::new(),
            loading: false,
            error: None,
            text_filter: None,
            feed_paused: false,
            transaction_filters: Vec::new(),
            pending_filter: None,
            debounce_gen: 0,
            scroll_top: 0,
            root_height: 600,
            row_height: ELEM_HEIGHT_DESKTOP + ELEM_MARGIN,
        }
    }

    /// The row height to use for a screen of the given width.
    pub fn row_height_for_width(width: i32) -> (h: i32)
        ensures
            h == if width <= MOBILE_WIDTH {
                ELEM_HEIGHT_MOBILE + ELEM_MARGIN
            } else {
                ELEM_HEIGHT_DESKTOP + ELEM_MARGIN
            },
            h > 0,
    {
        if width <= MOBILE_WIDTH {
            ELEM_HEIGHT_MOBILE + ELEM_MARGIN
        } else {
            ELEM_HEIGHT_DESKTOP + ELEM_MARGIN
        }
    }

    /// Every `Include` entry's value is matched by some field of the record.
    pub fn in_inclusion_filters(&self, tx: &Transaction) -> (r: bool)
        ensures
            r == include_pass(tx@, self.filters()),
    {
        let n = self.transaction_filters.len();
        let mut i: usize = 0;
        while i < n
            invariant
                n == self.transaction_filters@.len(),
                0 <= i <= n,
                forall|k: int|
                    0 <= k < i && (#[trigger] self.filters()[k]).operation is Include
                        ==> field_matches(tx@, self.filters()[k].text),
            decreases n - i,
        {
            let f = &self.transaction_filters[i];
            if f.operation == TransactionFilterOperation::Include {
                if !tx.matches_exact(&f.text) {
                    proof {
                        assert((self.filters()[i as int]).operation is Include
                            && !field_matches(tx@, self.filters()[i as int].text));
                    }
                    return false;
                }
            }
            i += 1;
        }
        true
    }

    /// Some `Exclude` entry's value is exactly `s`.
    pub fn in_exclusion_filters(&self, s: String) -> (r: bool)
        ensures
            r == exists|i: int|
                0 <= i < self.filters().len() && (#[trigger] self.filters()[i]).operation is Exclude
                    && self.filters()[i].text == s@,
    {
        let n = self.transaction_filters.len();
        let mut i: usize = 0;
        while i < n
            invariant
                n == self.transaction_filters@.len(),
                0 <= i <= n,
                forall|k: int|
                    0 <= k < i ==> !((#[trigger] self.filters()[k]).operation is Exclude
                        && self.filters()[k].text == s@),
            decreases n - i,
        {
            let f = &self.transaction_filters[i];
            if f.operation == TransactionFilterOperation::Exclude {
                if f.text == s {
                    proof {
                        assert((self.filters()[i as int]).operation is Exclude
                            && self.filters()[i as int].text == s@);
                    }
                    return true;
                }
            }
            i += 1;
        }
        false
    }

    /// The structured filter verdict for one record: all includes satisfied
    /// and no exclude hit.
    pub fn filter_transaction(&self, tx: &Transaction) -> (r: bool)
        ensures
            r == structured_pass(tx@, self.filters()),
    {
        if !self.in_inclusion_filters(tx) {
            return false;
        }
        let message_hit = self.in_exclusion_filters(tx.message.clone());
        let from_hit = match &tx.from {
            Some(s) => self.in_exclusion_filters(s.clone()),
            None => false,
        };
        let to_hit = match &tx.to {
            Some(s) => self.in_exclusion_filters(s.clone()),
            None => false,
        };
        let hit = message_hit || from_hit || to_hit;
        proof {
            if hit {
                assert(exclude_hit(tx@, self.filters()));
            } else if exclude_hit(tx@, self.filters()) {
                let i = choose|i: int|
                    0 <= i < self.filters().len()
                        && (#[trigger] self.filters()[i]).operation is Exclude
                        && field_matches(tx@, self.filters()[i].text);
                assert(false);
            }
        }
        !hit
    }

    /// The visible subset: records that pass the free-text filter and the
    /// structured filter set, in collection order. The collection itself is
    /// never changed by evaluation.
    pub fn filtered_transactions(&self) -> (r: Vec<Transaction>)
        ensures
            views(r@) == views(self.transactions@).filter(self.keep_pred()),
            r@.len() <= self.transactions@.len(),
    {
        let ghost pred = self.keep_pred();
        let n = self.transactions.len();
        let mut r: Vec<Transaction> = Vec::new();
        let mut i: usize = 0;
        while i < n
            invariant
                n == self.transactions@.len(),
                0 <= i <= n,
                r@.len() <= i,
                pred == self.keep_pred(),
                views(r@) == views(self.transactions@.subrange(0, i as int)).filter(pred),
            decreases n - i,
        {
            let tx = &self.transactions[i];
            let text_ok = match &self.text_filter {
                Some(f) => {
                    let folded_message = lowercase(tx.message.as_str());
                    let folded_filter = lowercase(f.as_str());
                    contains_str(folded_message.as_str(), folded_filter.as_str())
                },
                None => true,
            };
            let keep_it = text_ok && self.filter_transaction(tx);
            proof {
                assert(keep_it == pred(tx@));
                let prefix = views(self.transactions@.subrange(0, i as int));
                let prefix1 = views(self.transactions@.subrange(0, i + 1));
                assert(prefix1 =~= prefix.push(self.transactions@[i as int]@));
                lemma_filter_push(prefix, self.transactions@[i as int]@, pred);
            }
            if keep_it {
                let ghost prev = r@;
                r.push(tx.clone());
                proof {
                    assert(views(r@) =~= views(prev).push(self.transactions@[i as int]@));
                }
            }
            i += 1;
        }
        proof {
            assert(self.transactions@.subrange(0, n as int) =~= self.transactions@);
        }
        r
    }
}

impl Model {
    /// How many records the filters leave visible.
    pub open spec fn filtered_count(&self) -> int {
        views(self.transactions@).filter(self.keep_pred()).len() as int
    }

    /// The first filtered index the viewport materializes: the first row the
    /// scroll offset reaches, minus the padding, and never negative.
    pub open spec fn start_index_spec(&self) -> int {
        let q = self.scroll_top as int / self.row_height as int;
        if q - NODE_PADDING > 0 {
            q - NODE_PADDING
        } else {
            0
        }
    }

    /// The most rows the viewport ever materializes: what fits, plus padding
    /// on both sides.
    pub open spec fn max_visible_spec(&self) -> int {
        self.root_height as int / self.row_height as int + 2 * NODE_PADDING
    }

    /// How many filtered records the viewport materializes, starting at
    /// [`Model::start_index_spec`]; not positive when the scroll offset lies
    /// past the filtered feed.
    pub open spec fn visible_count_spec(&self) -> int {
        let rest = self.filtered_count() - self.start_index_spec();
        if rest < self.max_visible_spec() {
            rest
        } else {
            self.max_visible_spec()
        }
    }

    /// How many records the filters leave visible.
    pub fn items_count(&self) -> (c: i32)
        requires
            self.wf(),
            self.transactions@.len() <= i32::MAX,
        ensures
            c == self.filtered_count(),
            0 <= c,
    {
        let filtered = self.filtered_transactions();
        filtered.len() as i32
    }

    /// Total height, in pixels, of the filtered feed: what the scrollable
    /// content area must measure.
    pub fn viewport_height(&self) -> (h: i32)
        requires
            self.wf(),
            self.transactions@.len() <= i32::MAX,
            self.transactions@.len() * self.row_height <= i32::MAX,
        ensures
            h == self.filtered_count() * self.row_height,
    {
        let c = self.items_count();
        proof {
            let l = self.transactions@.len() as int;
            let r = self.row_height as int;
            assert(0 <= c * r <= l * r) by (nonlinear_arith)
                requires
                    0 <= c <= l,
                    1 <= r,
            ;
        }
        c * self.row_height
    }

    /// The first filtered index the viewport materializes.
    pub fn start_index(&self) -> (s: i32)
        requires
            self.wf(),
        ensures
            s == self.start_index_spec(),
            0 <= s,
    {
        let q = self.scroll_top / self.row_height;
        proof {
            vstd::arithmetic::div_mod::lemma_div_pos_is_pos(
                self.scroll_top as int,
                self.row_height as int,
            );
        }
        let s = q - NODE_PADDING;
        if s > 0 {
            s
        } else {
            0
        }
    }

    /// How many filtered records the viewport materializes.
    pub fn visible_items_count(&self) -> (v: i32)
        requires
            self.wf(),
            self.transactions@.len() <= i32::MAX,
            self.root_height <= i32::MAX - 2 * NODE_PADDING,
        ensures
            v == self.visible_count_spec(),
    {
        let q = self.root_height / self.row_height;
        proof {
            let rh = self.root_height as int;
            let r = self.row_height as int;
            vstd::arithmetic::div_mod::lemma_div_pos_is_pos(rh, r);
            vstd::arithmetic::div_mod::lemma_div_nonincreasing(rh, r);
        }
        let cap = q + 2 * NODE_PADDING;
        let c = self.items_count();
        let s = self.start_index();
        let rest = c - s;
        if rest < cap {
            rest
        } else {
            cap
        }
    }

    /// The vertical offset, in pixels, at which the materialized slice is
    /// drawn; never past the scroll offset itself.
    pub fn offset_y(&self) -> (o: i32)
        requires
            self.wf(),
        ensures
            o == self.start_index_spec() * self.row_height,
            0 <= o <= self.scroll_top,
    {
        let s = self.start_index();
        proof {
            let st = self.scroll_top as int;
            let r = self.row_height as int;
            vstd::arithmetic::div_mod::lemma_fundamental_div_mod(st, r);
            vstd::arithmetic::div_mod::lemma_remainder_lower(st, r);
            vstd::arithmetic::div_mod::lemma_remainder_upper(st, r);
            assert(0 <= s * r <= st) by (nonlinear_arith)
                requires
                    0 <= s <= st / r,
                    st == r * (st / r) + st % r,
                    0 <= st % r,
                    1 <= r,
            ;
        }
        s * self.row_height
    }

    /// The contiguous slice of the filtered feed that the viewport should
    /// materialize: [`Model::visible_count_spec`] records starting at
    /// [`Model::start_index_spec`], or nothing when the scroll offset lies
    /// past the filtered feed.
    pub fn visible_transactions(&self) -> (r: Vec<Transaction>)
        requires
            self.wf(),
            self.transactions@.len() <= i32::MAX,
            self.root_height <= i32::MAX - 2 * NODE_PADDING,
        ensures
            views(r@) == if self.visible_count_spec() > 0 {
                views(self.transactions@).filter(self.keep_pred()).subrange(
                    self.start_index_spec(),
                    self.start_index_spec() + self.visible_count_spec(),
                )
            } else {
                Seq::<TransactionView>::empty()
            },
    {
        let mut out: Vec<Transaction> = Vec::new();
        let v = self.visible_items_count();
        if v <= 0 {
            proof {
                assert(views(out@) =~= Seq::<TransactionView>::empty());
            }
            return out;
        }
        let filtered = self.filtered_transactions();
        let flen = filtered.len();
        let s = self.start_index();
        let start = s as usize;
        let count = v as usize;
        let ghost fseq = views(self.transactions@).filter(self.keep_pred());
        let mut k: usize = 0;
        while k < count
            invariant
                fseq == views(filtered@),
                flen == filtered@.len(),
                0 <= k <= count,
                start + count <= flen,
                views(out@) == fseq.subrange(start as int, start + k),
            decreases count - k,
        {
            proof {
                assert(fseq.subrange(start as int, start + k + 1) =~= fseq.subrange(
                    start as int,
                    start + k,
                ).push(fseq[start + k]));
            }
            let ghost prev = out@;
            out.push(filtered[start + k].clone());
            proof {
                assert(views(out@) =~= views(prev).push(fseq[start + k]));
            }
            k += 1;
        }
        out
    }
}

/// A record's age at time `now` is below the retention horizon.
fn is_fresh(ts: u64, now: u64) -> (r: bool)
    ensures
        r == (now - ts < SECONDS_IN_DAY),
{
    if ts >= now {
        true
    } else {
        now - ts < SECONDS_IN_DAY
    }
}

impl Model {
    /// Merge a freshly fetched batch (ordered newest first, strictly newer
    /// than the current head record) into the collection and prune records
    /// that have left the retention window; returns how many records the
    /// batch inserted.
    ///
    /// The initial merge takes the batch verbatim with animation flags
    /// unset; every later merge prepends the batch with animation flags
    /// raised and then prunes. The collection stays ordered newest first,
    /// and after a non-initial merge every record is inside the retention
    /// window.
    pub fn merge(&mut self, batch: Vec<Transaction>, now: u64) -> (n: usize)
        requires
            old(self).wf(),
            sorted_desc(views(batch@)),
            old(self).first_fetch_done && old(self).transactions@.len() > 0 ==> forall|i: int|
                0 <= i < batch@.len() ==> (#[trigger] views(batch@)[i]).timestamp
                    > views(old(self).transactions@)[0].timestamp,
        ensures
            n == batch@.len(),
            final(self).first_fetch_done,
            !old(self).first_fetch_done ==> views(final(self).transactions@) == mark_initial(
                views(batch@),
            ),
            old(self).first_fetch_done ==> views(final(self).transactions@) == merged(
                views(old(self).transactions@),
                views(batch@),
                now,
            ),
            sorted_desc(views(final(self).transactions@)),
            old(self).first_fetch_done ==> forall|i: int|
                0 <= i < views(final(self).transactions@).len() ==> fresh_at(
                    #[trigger] views(final(self).transactions@)[i],
                    now,
                ),
            final(self).wf(),
            same_but_collection(*final(self), *old(self)),
    {
        let ghost pre = views(self.transactions@);
        let ghost vb = views(batch@);
        let n = batch.len();
        if !self.first_fetch_done {
            let mut list: Vec<Transaction> = Vec::new();
            let mut i: usize = 0;
            while i < n
                invariant
                    *self == *old(self),
                    n == batch@.len(),
                    vb == views(batch@),
                    0 <= i <= n,
                    views(list@) == mark_initial(vb.subrange(0, i as int)),
                decreases n - i,
            {
                let mut t = batch[i].clone();
                t.animate = None;
                proof {
                    assert(vb.subrange(0, i + 1) =~= vb.subrange(0, i as int).push(vb[i as int]));
                    assert(mark_initial(vb.subrange(0, i + 1)) =~= mark_initial(
                        vb.subrange(0, i as int),
                    ).push(TransactionView { animate: None, ..vb[i as int] }));
                }
                let ghost prev = list@;
                list.push(t);
                proof {
                    assert(views(list@) =~= views(prev).push(
                        TransactionView { animate: None, ..vb[i as int] },
                    ));
                }
                i += 1;
            }
            proof {
                assert(vb.subrange(0, n as int) =~= vb);
            }
            self.first_fetch_done = true;
            self.transactions = list;
            proof {
                lemma_timestamp_preserving_sorted(vb, views(self.transactions@));
            }
            n
        } else {
            let ghost target = merged(pre, vb, now);
            let mut list: Vec<Transaction> = Vec::new();
            let mut i: usize = 0;
            while i < n
                invariant
                    *self == *old(self),
                    old(self).wf(),
                    n == batch@.len(),
                    vb == views(batch@),
                    pre == views(self.transactions@),
                    sorted_desc(vb),
                    pre.len() > 0 ==> forall|q: int|
                        0 <= q < vb.len() ==> (#[trigger] vb[q]).timestamp > pre[0].timestamp,
                    0 <= i <= n,
                    views(list@) == prune(mark_new(vb.subrange(0, i as int)), now),
                    sorted_desc(views(list@)),
                    forall|k: int, m: int|
                        0 <= k < views(list@).len() && i <= m < vb.len()
                            ==> (#[trigger] views(list@)[k]).timestamp >= (#[trigger] vb[m]).timestamp,
                    forall|k: int, m: int|
                        0 <= k < views(list@).len() && 0 <= m < pre.len()
                            ==> (#[trigger] views(list@)[k]).timestamp >= (#[trigger] pre[m]).timestamp,
                    forall|k: int|
                        0 <= k < views(list@).len() ==> fresh_at(#[trigger] views(list@)[k], now),
                decreases n - i,
            {
                let mut t = batch[i].clone();
                t.animate = Some(true);
                proof {
                    let marked = TransactionView { animate: Some(true), ..vb[i as int] };
                    assert(t@ == marked);
                    assert(mark_new(vb.subrange(0, i + 1)) =~= mark_new(
                        vb.subrange(0, i as int),
                    ).push(marked));
                    lemma_filter_push(mark_new(vb.subrange(0, i as int)), marked, retention_pred(now));
                }
                if is_fresh(t.timestamp, now) {
                    let ghost prev = list@;
                    list.push(t);
                    proof {
                        assert(views(list@) =~= views(prev).push(
                            TransactionView { animate: Some(true), ..vb[i as int] },
                        ));
                    }
                }
                i += 1;
            }
            proof {
                assert(vb.subrange(0, n as int) =~= vb);
            }
            let m = self.transactions.len();
            let mut j: usize = 0;
            while j < m
                invariant
                    *self == *old(self),
                    old(self).wf(),
                    m == self.transactions@.len(),
                    vb == views(batch@),
                    pre == views(self.transactions@),
                    sorted_desc(pre),
                    0 <= j <= m,
                    views(list@) == prune(mark_new(vb) + pre.subrange(0, j as int), now),
                    sorted_desc(views(list@)),
                    forall|k: int, q: int|
                        0 <= k < views(list@).len() && j <= q < pre.len()
                            ==> (#[trigger] views(list@)[k]).timestamp >= (#[trigger] pre[q]).timestamp,
                    forall|k: int|
                        0 <= k < views(list@).len() ==> fresh_at(#[trigger] views(list@)[k], now),
                decreases m - j,
            {
                let t = self.transactions[j].clone();
                proof {
                    assert(t@ == pre[j as int]);
                    assert(mark_new(vb) + pre.subrange(0, j + 1) =~= (mark_new(vb) + pre.subrange(
                        0,
                        j as int,
                    )).push(pre[j as int]));
                    lemma_filter_push(
                        mark_new(vb) + pre.subrange(0, j as int),
                        pre[j as int],
                        retention_pred(now),
                    );
                }
                if is_fresh(t.timestamp, now) {
                    let ghost prev = list@;
                    list.push(t);
                    proof {
                        assert(views(list@) =~= views(prev).push(pre[j as int]));
                    }
                }
                j += 1;
            }
            proof {
                assert(pre.subrange(0, m as int) =~= pre);
            }
            self.transactions = list;
            n
        }
    }

    /// One animation-clear pass: lower every raised animation flag. Records,
    /// their order, and every other part of the state are untouched, and a
    /// second pass changes nothing (no flag is ever raised back).
    pub fn clear_animation(&mut self)
        requires
            old(self).wf(),
        ensures
            views(final(self).transactions@) == clear_new(views(old(self).transactions@)),
            final(self).first_fetch_done == old(self).first_fetch_done,
            final(self).wf(),
            same_but_collection(*final(self), *old(self)),
    {
        let ghost pre = views(self.transactions@);
        let n = self.transactions.len();
        let mut list: Vec<Transaction> = Vec::new();
        let mut i: usize = 0;
        while i < n
            invariant
                *self == *old(self),
                n == self.transactions@.len(),
                pre == views(self.transactions@),
                0 <= i <= n,
                views(list@) == clear_new(pre.subrange(0, i as int)),
            decreases n - i,
        {
            let mut t = self.transactions[i].clone();
            let cleared = match t.animate {
                Some(true) => true,
                _ => false,
            };
            if cleared {
                t.animate = Some(false);
            }
            proof {
                let cv = if pre[i as int].animate == Some(true) {
                    TransactionView { animate: Some(false), ..pre[i as int] }
                } else {
                    pre[i as int]
                };
                assert(t@ == cv);
                assert(pre.subrange(0, i + 1) =~= pre.subrange(0, i as int).push(pre[i as int]));
                assert(clear_new(pre.subrange(0, i + 1)) =~= clear_new(
                    pre.subrange(0, i as int),
                ).push(cv));
            }
            let ghost prev = list@;
            list.push(t);
            proof {
                assert(views(list@) =~= views(prev).push(clear_new(pre.subrange(0, i + 1)).last()));
            }
            i += 1;
        }
        proof {
            assert(pre.subrange(0, n as int) =~= pre);
        }
        self.transactions = list;
        proof {
            lemma_timestamp_preserving_sorted(pre, views(self.transactions@));
        }
    }

    /// Commit a free-text edit: clear the filter if the input is empty or
    /// whitespace-only, keep it trimmed otherwise, and reset the scroll
    /// position, which the new filter invalidates.
    fn apply_text_filter(&mut self, s: &String)
        requires
            old(self).wf(),
        ensures
            final(self).active_filter() == normalized_filter(s@),
            final(self).scroll_top == 0,
            final(self).wf(),
            same_feed(*final(self), *old(self)),
            same_status(*final(self), *old(self)),
            final(self).transaction_filters == old(self).transaction_filters,
            final(self).pending_filter == old(self).pending_filter,
            final(self).debounce_gen == old(self).debounce_gen,
            final(self).root_height == old(self).root_height,
            final(self).row_height == old(self).row_height,
    {
        let trimmed = trim_str(s.as_str());
        if trimmed.as_str().is_empty() {
            self.text_filter = None;
        } else {
            self.text_filter = Some(trimmed);
        }
        self.scroll_top = 0;
    }

    /// React to one event: mutate the state and return whether the view
    /// changed, together with the actions the runtime must perform.
    pub fn update(&mut self, msg: Msg, now: u64) -> (r: (bool, Vec<Effect>))
        requires
            old(self).wf(),
            msg matches Msg::DebounceFilter(_) ==> old(self).debounce_gen < u64::MAX,
            msg matches Msg::TransactionsFetched(data) ==> sorted_desc(views(data@)) && (
            old(self).first_fetch_done && old(self).transactions@.len() > 0 ==> forall|i: int|
                0 <= i < data@.len() ==> (#[trigger] views(data@)[i]).timestamp > views(
                    old(self).transactions@,
                )[0].timestamp),
        ensures
            final(self).wf(),
            (msg matches Msg::FetchTransactions && (old(self).feed_paused || old(self).loading))
                ==> (*final(self) == *old(self) && r.0 == false && r.1@.len() == 0),
            (msg matches Msg::FetchTransactions && !old(self).feed_paused && !old(self).loading)
                ==> ({
                &&& final(self).loading
                &&& final(self).error == old(self).error
                &&& final(self).feed_paused == old(self).feed_paused
                &&& same_feed(*final(self), *old(self))
                &&& same_filter_state(*final(self), *old(self))
                &&& same_viewport(*final(self), *old(self))
                &&& r.0 == true
                &&& r.1@.len() == 1
                &&& (r.1@[0] matches Effect::StartFetch(after) && after == (
                if old(self).transactions@.len() > 0 {
                    Some(old(self).transactions@[0].timestamp)
                } else {
                    None
                }))
            }),
            msg matches Msg::TransactionsFetched(data) ==> ({
                &&& !final(self).loading
                &&& final(self).error is None
                &&& final(self).feed_paused == old(self).feed_paused
                &&& final(self).first_fetch_done
                &&& !old(self).first_fetch_done ==> views(final(self).transactions@)
                    == mark_initial(views(data@))
                &&& old(self).first_fetch_done ==> views(final(self).transactions@) == merged(
                    views(old(self).transactions@),
                    views(data@),
                    now,
                )
                &&& sorted_desc(views(final(self).transactions@))
                &&& same_filter_state(*final(self), *old(self))
                &&& same_viewport(*final(self), *old(self))
                &&& r.0 == true
                &&& (old(self).first_fetch_done ==> r.1@.len() == 2 && (r.1@[0] matches
                    Effect::ScheduleAnimationClear(c) && c == data@.len()) && (r.1@[1] matches
                    Effect::SchedulePoll(d) && d == FETCH_INTERVAL))
                &&& (!old(self).first_fetch_done ==> r.1@.len() == 1 && (r.1@[0] matches
                    Effect::SchedulePoll(d) && d == FETCH_INTERVAL))
            }),
            (msg matches Msg::RemoveAnimation(k) && k == 0) ==> (*final(self) == *old(self) && r.0
                == false && r.1@.len() == 0),
            (msg matches Msg::RemoveAnimation(k) && k > 0) ==> ({
                &&& views(final(self).transactions@) == clear_new(views(old(self).transactions@))
                &&& final(self).first_fetch_done == old(self).first_fetch_done
                &&& same_but_collection(*final(self), *old(self))
                &&& r.0 == true
                &&& r.1@.len() == 0
            }),
            msg matches Msg::HttpError(e) ==> ({
                &&& final(self).error == Some(e)
                &&& !final(self).loading
                &&& final(self).feed_paused == old(self).feed_paused
                &&& same_feed(*final(self), *old(self))
                &&& same_filter_state(*final(self), *old(self))
                &&& same_viewport(*final(self), *old(self))
                &&& r.0 == true
                &&& r.1@.len() == 1
                &&& (r.1@[0] matches Effect::SchedulePoll(d) && d == FETCH_INTERVAL)
            }),
            msg matches Msg::DebounceFilter(s) ==> ({
                &&& final(self).debounce_gen == old(self).debounce_gen + 1
                &&& final(self).pending_filter == Some(s)
                &&& final(self).text_filter == old(self).text_filter
                &&& final(self).transaction_filters == old(self).transaction_filters
                &&& same_feed(*final(self), *old(self))
                &&& same_status(*final(self), *old(self))
                &&& same_viewport(*final(self), *old(self))
                &&& r.0 == false
                &&& r.1@.len() == 1
                &&& (r.1@[0] matches Effect::ScheduleDebounce(g) && g == old(self).debounce_gen
                    + 1)
            }),
            (msg matches Msg::DebounceElapsed(g) && !(g == old(self).debounce_gen
                && old(self).pending_filter is Some)) ==> (*final(self) == *old(self) && r.0
                == false && r.1@.len() == 0),
            (msg matches Msg::DebounceElapsed(g) && g == old(self).debounce_gen
                && old(self).pending_filter is Some) ==> ({
                &&& final(self).active_filter() == normalized_filter(old(self).pending_filter->0@)
                &&& final(self).scroll_top == 0
                &&& final(self).pending_filter is None
                &&& final(self).debounce_gen == old(self).debounce_gen
                &&& final(self).transaction_filters == old(self).transaction_filters
                &&& same_feed(*final(self), *old(self))
                &&& same_status(*final(self), *old(self))
                &&& final(self).root_height == old(self).root_height
                &&& final(self).row_height == old(self).row_height
                &&& r.0 == true
                &&& r.1@.len() == 0
            }),
            msg matches Msg::EditFilter(s) ==> ({
                &&& final(self).active_filter() == normalized_filter(s@)
                &&& final(self).scroll_top == 0
                &&& final(self).pending_filter == old(self).pending_filter
                &&& final(self).debounce_gen == old(self).debounce_gen
                &&& final(self).transaction_filters == old(self).transaction_filters
                &&& same_feed(*final(self), *old(self))
                &&& same_status(*final(self), *old(self))
                &&& final(self).root_height == old(self).root_height
                &&& final(self).row_height == old(self).row_height
                &&& r.0 == true
                &&& r.1@.len() == 0
            }),
            msg matches Msg::AddFilter(f) ==> ({
                &&& final(self).transaction_filters@ == old(self).transaction_filters@.push(f)
                &&& final(self).text_filter == old(self).text_filter
                &&& final(self).pending_filter == old(self).pending_filter
                &&& final(self).debounce_gen == old(self).debounce_gen
                &&& same_feed(*final(self), *old(self))
                &&& same_status(*final(self), *old(self))
                &&& same_viewport(*final(self), *old(self))
                &&& r.0 == true
                &&& r.1@.len() == 0
            }),
            msg matches Msg::RemoveFilter(f) ==> ({
                &&& filter_views(final(self).transaction_filters@) == filter_views(
                    old(self).transaction_filters@,
                ).filter(keeps_other_filters(f@))
                &&& final(self).text_filter == old(self).text_filter
                &&& final(self).pending_filter == old(self).pending_filter
                &&& final(self).debounce_gen == old(self).debounce_gen
                &&& same_feed(*final(self), *old(self))
                &&& same_status(*final(self), *old(self))
                &&& same_viewport(*final(self), *old(self))
                &&& r.0 == true
                &&& r.1@.len() == 0
            }),
            msg matches Msg::GenerateShareableUrl ==> ({
                &&& *final(self) == *old(self)
                &&& r.0 == false
                &&& r.1@.len() == 1
                &&& (r.1@[0] matches Effect::Share(qp) && ({
                    &&& (old(self).text_filter is Some ==> (qp.text_filter matches Some(t)
                        && t@ == old(self).active_filter()->0))
                    &&& (old(self).text_filter is None ==> qp.text_filter is None)
                    &&& (old(self).transaction_filters@.len() == 0 ==> qp.filters is None)
                    &&& (old(self).transaction_filters@.len() > 0 ==> (qp.filters matches Some(v)
                        && filter_views(v@) == old(self).filters()))
                }))
            }),
            msg matches Msg::ToggleFeedPaused ==> ({
                &&& final(self).feed_paused == !old(self).feed_paused
                &&& final(self).loading == old(self).loading
                &&& final(self).error == old(self).error
                &&& same_feed(*final(self), *old(self))
                &&& same_filter_state(*final(self), *old(self))
                &&& same_viewport(*final(self), *old(self))
                &&& r.0 == true
                &&& r.1@.len() == 1
                &&& (r.1@[0] matches Effect::SchedulePoll(d) && d == FETCH_INTERVAL)
            }),
            msg matches Msg::OnScroll(o) ==> ({
                &&& final(self).scroll_top == (if o > 0 {
                    o
                } else {
                    0
                })
                &&& final(self).root_height == old(self).root_height
                &&& final(self).row_height == old(self).row_height
                &&& same_feed(*final(self), *old(self))
                &&& same_filter_state(*final(self), *old(self))
                &&& same_status(*final(self), *old(self))
                &&& r.0 == true
                &&& r.1@.len() == 0
            }),
    {
        let mut effects: Vec<Effect> = Vec::new();
        match msg {
            Msg::FetchTransactions => {
                if self.feed_paused || self.loading {
                    return (false, effects);
                }
                let after = if self.transactions.len() > 0 {
                    Some(self.transactions[0].timestamp)
                } else {
                    None
                };
                effects.push(Effect::StartFetch(after));
                self.loading = true;
                (true, effects)
            },
            Msg::TransactionsFetched(data) => {
                self.loading = false;
                self.error = None;
                let was_done = self.first_fetch_done;
                let count = self.merge(data, now);
                if was_done {
                    effects.push(Effect::ScheduleAnimationClear(count));
                }
                effects.push(Effect::SchedulePoll(FETCH_INTERVAL));
                (true, effects)
            },
            Msg::RemoveAnimation(k) => {
                if k == 0 {
                    return (false, effects);
                }
                self.clear_animation();
                (true, effects)
            },
            Msg::HttpError(e) => {
                self.error = Some(e);
                self.loading = false;
                effects.push(Effect::SchedulePoll(FETCH_INTERVAL));
                (true, effects)
            },
            Msg::DebounceFilter(s) => {
                self.debounce_gen = self.debounce_gen + 1;
                self.pending_filter = Some(s);
                effects.push(Effect::ScheduleDebounce(self.debounce_gen));
                (false, effects)
            },
            Msg::DebounceElapsed(g) => {
                let committed = match &self.pending_filter {
                    Some(p) => {
                        if g == self.debounce_gen {
                            Some(p.clone())
                        } else {
                            None
                        }
                    },
                    None => None,
                };
                match committed {
                    Some(p) => {
                        self.pending_filter = None;
                        self.apply_text_filter(&p);
                        (true, effects)
                    },
                    None => (false, effects),
                }
            },
            Msg::EditFilter(s) => {
                self.apply_text_filter(&s);
                (true, effects)
            },
            Msg::AddFilter(f) => {
                self.transaction_filters.push(f);
                (true, effects)
            },
            Msg::RemoveFilter(f) => {
                let ghost fv = f@;
                let ghost prefilters = filter_views(self.transaction_filters@);
                let n = self.transaction_filters.len();
                let mut kept: Vec<TransactionFilter> = Vec::new();
                let mut i: usize = 0;
                while i < n
                    invariant
                        *self == *old(self),
                        n == self.transaction_filters@.len(),
                        prefilters == filter_views(self.transaction_filters@),
                        fv == f@,
                        0 <= i <= n,
                        filter_views(kept@) == filter_views(
                            self.transaction_filters@.subrange(0, i as int),
                        ).filter(keeps_other_filters(fv)),
                    decreases n - i,
                {
                    let g = &self.transaction_filters[i];
                    proof {
                        let prefix = filter_views(self.transaction_filters@.subrange(0, i as int));
                        let prefix1 = filter_views(self.transaction_filters@.subrange(0, i + 1));
                        assert(prefix1 =~= prefix.push(self.transaction_filters@[i as int]@));
                        lemma_filter_push(
                            prefix,
                            self.transaction_filters@[i as int]@,
                            keeps_other_filters(fv),
                        );
                    }
                    if !(*g == f) {
                        let ghost prev = kept@;
                        kept.push(g.clone());
                        proof {
                            assert(filter_views(kept@) =~= filter_views(prev).push(
                                self.transaction_filters@[i as int]@,
                            ));
                        }
                    }
                    i += 1;
                }
                proof {
                    assert(self.transaction_filters@.subrange(0, n as int)
                        =~= self.transaction_filters@);
                }
                self.transaction_filters = kept;
                (true, effects)
            },
            Msg::GenerateShareableUrl => {
                let text_filter = self.text_filter.clone();
                let filters = if self.transaction_filters.len() == 0 {
                    None
                } else {
                    let cloned_filters = self.transaction_filters.clone();
                    proof {
                        assert(filter_views(cloned_filters@) =~= filter_views(
                            self.transaction_filters@,
                        ));
                    }
                    Some(cloned_filters)
                };
                let params = QueryParams { text_filter, filters };
                effects.push(Effect::Share(params));
                (false, effects)
            },
            Msg::ToggleFeedPaused => {
                self.feed_paused = !self.feed_paused;
                effects.push(Effect::SchedulePoll(FETCH_INTERVAL));
                (true, effects)
            },
            Msg::OnScroll(o) => {
                self.scroll_top = if o > 0 {
                    o
                } else {
                    0
                };
                (true, effects)
            },
        }
    }
}

/// Two pointwise timestamp-equal collections are sorted together.
proof fn lemma_timestamp_preserving_sorted(a: Seq<TransactionView>, b: Seq<TransactionView>)
    requires
        sorted_desc(a),
        b.len() == a.len(),
        forall|i: int| 0 <= i < a.len() ==> (#[trigger] b[i]).timestamp == a[i].timestamp,
    ensures
        sorted_desc(b),
{
}

impl Transaction {
    /// The value `v` exactly equals this record's origin, destination, or
    /// text.
    pub fn matches_exact(&self, v: &String) -> (r: bool)
        ensures
            r == field_matches(self@, v@),
    {
        let from_hit = match &self.from {
            Some(s) => *s == *v,
            None => false,
        };
        let to_hit = match &self.to {
            Some(s) => *s == *v,
            None => false,
        };
        from_hit || to_hit || self.message == *v
    }
}

/// Filtering drops nothing from a sequence whose elements all satisfy the
/// predicate.
pub proof fn lemma_filter_all<A>(s: Seq<A>, pred: spec_fn(A) -> bool)
    requires
        forall|i: int| 0 <= i < s.len() ==> pred(#[trigger] s[i]),
    ensures
        s.filter(pred) == s,
    decreases s.len(),
{
    reveal(Seq::filter);
    if s.len() > 0 {
        lemma_filter_all(s.drop_last(), pred);
        assert(s.drop_last().push(s.last()) =~= s);
    }
}

/// Law: a merge never drops or merges records for their ids. Prepending a
/// batch whose ids are disjoint from the collection yields exactly
/// `len(before) + len(batch)` records before pruning; when every record is
/// still inside the retention window, pruning drops nothing and the merged
/// collection itself has that length.
pub proof fn lemma_merge_no_duplication(
    pre: Seq<TransactionView>,
    batch: Seq<TransactionView>,
    now: u64,
)
    requires
        forall|i: int, j: int|
            0 <= i < batch.len() && 0 <= j < pre.len() ==> (#[trigger] batch[i]).hash != (
            #[trigger] pre[j]).hash,
        forall|i: int| 0 <= i < batch.len() ==> fresh_at(#[trigger] batch[i], now),
        forall|j: int| 0 <= j < pre.len() ==> fresh_at(#[trigger] pre[j], now),
    ensures
        (mark_new(batch) + pre).len() == pre.len() + batch.len(),
        merged(pre, batch, now).len() == pre.len() + batch.len(),
{
    let combined = mark_new(batch) + pre;
    assert(forall|k: int| 0 <= k < combined.len() ==> fresh_at(#[trigger] combined[k], now));
    assert(forall|k: int|
        0 <= k < combined.len() ==> (retention_pred(now))(#[trigger] combined[k]));
    lemma_filter_all(combined, retention_pred(now));
}

/// Law: ordering. When the batch is ordered newest first and strictly newer
/// than the head record, the merged collection is ordered newest first:
/// marking animation flags leaves timestamps alone, prepending strictly
/// newer records keeps the order, and pruning never reorders.
pub proof fn lemma_merge_keeps_order(
    pre: Seq<TransactionView>,
    batch: Seq<TransactionView>,
    now: u64,
)
    requires
        sorted_desc(pre),
        sorted_desc(batch),
        pre.len() > 0 ==> forall|i: int|
            0 <= i < batch.len() ==> (#[trigger] batch[i]).timestamp > pre[0].timestamp,
    ensures
        sorted_desc(merged(pre, batch, now)),
{
    let combined = mark_new(batch) + pre;
    assert forall|i: int, j: int| 0 <= i <= j < combined.len() implies combined[i].timestamp
        >= combined[j].timestamp by {
        let n = batch.len() as int;
        if j < n {
            assert(combined[i].timestamp == batch[i].timestamp);
            assert(combined[j].timestamp == batch[j].timestamp);
        } else if i < n {
            assert(combined[i].timestamp == batch[i].timestamp);
            assert(combined[j].timestamp == pre[j - n].timestamp);
            assert(pre[0].timestamp >= pre[j - n].timestamp);
        } else {
            assert(combined[i].timestamp == pre[i - n].timestamp);
            assert(combined[j].timestamp == pre[j - n].timestamp);
        }
    }
    lemma_filter_preserves_order(combined, retention_pred(now));
}

/// Law: retention. Every record of a merged collection is younger than the
/// retention horizon: pruning keeps nothing older. (The initial load is
/// taken verbatim instead of merged; there the feed service's own promise
/// to serve only the retention window is what bounds the ages.)
pub proof fn lemma_merge_retention(
    pre: Seq<TransactionView>,
    batch: Seq<TransactionView>,
    now: u64,
)
    ensures
        forall|i: int|
            0 <= i < merged(pre, batch, now).len() ==> fresh_at(
                #[trigger] merged(pre, batch, now)[i],
                now,
            ),
{
    let combined = mark_new(batch) + pre;
    assert forall|i: int| 0 <= i < merged(pre, batch, now).len() implies fresh_at(
        merged(pre, batch, now)[i],
        now,
    ) by {
        combined.lemma_filter_pred(retention_pred(now), i);
    }
}

/// Law: the animation-clear pass is idempotent. Clearing twice is the same
/// as clearing once: the first pass leaves no flag raised, so the second
/// changes nothing.
pub proof fn lemma_clear_animation_idempotent(s: Seq<TransactionView>)
    ensures
        clear_new(clear_new(s)) == clear_new(s),
{
    assert(clear_new(clear_new(s)) =~= clear_new(s));
}

/// Everything a filter keeps was in the sequence it filtered.
proof fn lemma_filter_membership<A>(s: Seq<A>, pred: spec_fn(A) -> bool)
    ensures
        forall|x: A| s.filter(pred).contains(x) ==> s.contains(x),
    decreases s.len(),
{
    reveal(Seq::filter);
    if s.len() > 0 {
        let d = s.drop_last();
        lemma_filter_membership(d, pred);
        assert forall|x: A| s.filter(pred).contains(x) implies s.contains(x) by {
            if x == s.last() {
                assert(s[s.len() - 1] == x);
            } else {
                assert(d.filter(pred).contains(x));
                assert(d.contains(x));
                let j = choose|j: int| 0 <= j < d.len() && d[j] == x;
                assert(s[j] == x);
            }
        }
    }
}

/// Law: evaluation never reorders. A collection ordered newest first stays
/// ordered newest first after any filtering pass.
pub proof fn lemma_filter_preserves_order(
    s: Seq<TransactionView>,
    pred: spec_fn(TransactionView) -> bool,
)
    requires
        sorted_desc(s),
    ensures
        sorted_desc(s.filter(pred)),
    decreases s.len(),
{
    reveal(Seq::filter);
    if s.len() > 0 {
        let d = s.drop_last();
        assert(sorted_desc(d));
        lemma_filter_preserves_order(d, pred);
        if pred(s.last()) {
            lemma_filter_membership(d, pred);
            let f = d.filter(pred);
            assert forall|k: int| 0 <= k < f.len() implies f[k].timestamp
                >= s.last().timestamp by {
                assert(f.contains(f[k]));
                assert(d.contains(f[k]));
                let j = choose|j: int| 0 <= j < d.len() && d[j] == f[k];
                assert(s[j] == f[k]);
                assert(s[j].timestamp >= s[s.len() - 1].timestamp);
            }
        }
    }
}

/// Filtering one more element appends it exactly when the predicate holds.
pub proof fn lemma_filter_push<A>(s: Seq<A>, x: A, pred: spec_fn(A) -> bool)
    ensures
        s.push(x).filter(pred) == if pred(x) {
            s.filter(pred).push(x)
        } else {
            s.filter(pred)
        },
{
    reveal(Seq::filter);
    assert(s.push(x).drop_last() =~= s);
    assert(s.push(x).last() == x);
}

} // verus!
