use crate::error::CisClientError;
use crate::error::ProfileError;
use vstd::prelude::*;

verus! {

/// Opaque continuation token of the paged listing; passed back verbatim.
#[derive(Debug, Clone)]
pub struct NextPage {
    pub id: String,
}

/// One page of the listing and the cursor of the following page, if any.
#[derive(Debug)]
pub struct Batch<P> {
    pub items: Vec<P>,
    pub next_page: Option<NextPage>,
}

/// Fetches one page of the profile listing: the first page without a cursor,
/// any later page with the cursor of the page before it.
pub trait CisClientTrait {
    type Profile;

    fn get_batch(&self, next_page: &Option<NextPage>, filter: &Option<String>) -> Result<
        Batch<Self::Profile>,
        CisClientError,
    >;
}

/// Where a [`ProfileIter`] stands.
pub enum IterPhase {
    /// Nothing fetched yet; the first fetch goes without a cursor.
    Uninitialized,
    /// The next fetch goes with the stored cursor.
    Inflight,
    /// The listing has ended.
    Done,
    /// A fetch failed; nothing more is produced.
    Error,
}

/// The arguments of one fetch: the cursor and the display filter.
pub type PageRequest = (Option<NextPage>, Option<String>);

/// The abstract state of a [`ProfileIter`]: its phase, the cursor of its next
/// fetch, the display filter it was made with, the arguments of every fetch
/// made so far, and the next-page cursors of all batches received so far.
pub struct PagerView {
    pub phase: IterPhase,
    pub cursor: Option<NextPage>,
    pub filter: Option<String>,
    pub requested: Seq<PageRequest>,
    pub received: Seq<Option<NextPage>>,
}

impl PagerView {
    pub open spec fn is_terminal(self) -> bool {
        self.phase is Done || self.phase is Error
    }

    /// The phase agrees with the cursors received so far.
    pub open spec fn inv(self) -> bool {
        &&& self.phase is Uninitialized ==> self.cursor is None && self.received.len() == 0
        &&& self.phase is Inflight ==> self.received.len() > 0 && self.cursor is Some
            && self.cursor == self.received.last()
        &&& self.phase is Done ==> self.received.len() > 0 && self.received.last() is None
        &&& forall|i: int| 0 <= i < self.received.len() - 1 ==> #[trigger] self.received[i] is Some
    }

    /// The fetches made so far chain by their cursors and all carry the
    /// iterator's filter: one fetch per batch received, plus the failed one.
    pub open spec fn log_matches(self) -> bool {
        &&& self.phase is Error ==> self.requested.len() == self.received.len() + 1
        &&& !(self.phase is Error) ==> self.requested.len() == self.received.len()
        &&& self.requested.len() > 0 ==> self.requested[0].0 is None
        &&& forall|i: int| 0 <= i < self.requested.len() ==> #[trigger] self.requested[i].1 == self.filter
        &&& forall|i: int|
            1 <= i < self.requested.len() ==> #[trigger] self.requested[i].0 == self.received[i - 1]
                && self.received[i - 1] is Some
    }
}

/// What the stream yields for one fetch that came back as `fetched`.
pub open spec fn page_output<P>(fetched: Result<Batch<P>, CisClientError>) -> Option<
    Result<Vec<P>, CisClientError>,
> {
    match fetched {
        Err(e) => Some(Err(e)),
        Ok(b) => if b.next_page is None && b.items@.len() == 0 {
            None
        } else {
            Some(Ok(b.items))
        },
    }
}

/// The state before the first pull of an iterator made with `filter`.
pub open spec fn initial_view(filter: Option<String>) -> PagerView {
    PagerView {
        phase: IterPhase::Uninitialized,
        cursor: None,
        filter,
        requested: Seq::empty(),
        received: Seq::empty(),
    }
}

/// The outcome `fetched` of a fetch at the current cursor: a failure is
/// passed on once and ends the stream; a batch without items and without a
/// cursor ends it with nothing emitted; any other batch is emitted, and the
/// stream goes on with its cursor, or ends when it has none.
pub open spec fn advance_spec<P>(v: PagerView, fetched: Result<Batch<P>, CisClientError>) -> (
    PagerView,
    Option<Result<Vec<P>, CisClientError>>,
) {
    let next = match fetched {
        Err(_) => PagerView { phase: IterPhase::Error, ..v },
        Ok(b) => {
            let received = v.received.push(b.next_page);
            match b.next_page {
                None => PagerView { phase: IterPhase::Done, cursor: None, received, ..v },
                Some(c) => PagerView { phase: IterPhase::Inflight, cursor: Some(c), received, ..v },
            }
        },
    };
    (next, page_output(fetched))
}

/// One pull that fetches: the fetch is made with the current cursor and the
/// filter, and came back as `fetched`.
pub open spec fn pull_spec<P>(v: PagerView, fetched: Result<Batch<P>, CisClientError>) -> (
    PagerView,
    Option<Result<Vec<P>, CisClientError>>,
) {
    advance_spec(PagerView { requested: v.requested.push((v.cursor, v.filter)), ..v }, fetched)
}

/// Successive pulls, the i-th answered by `fetched[i]` if it fetches at all:
/// once the stream has ended a pull yields `None` and fetches nothing.
pub open spec fn run_pages<P>(v: PagerView, fetched: Seq<Result<Batch<P>, CisClientError>>) -> (
    PagerView,
    Seq<Option<Result<Vec<P>, CisClientError>>>,
)
    decreases fetched.len(),
{
    if fetched.len() == 0 {
        (v, Seq::empty())
    } else if v.is_terminal() {
        let (v2, rest) = run_pages(v, fetched.drop_first());
        (v2, seq![None] + rest)
    } else {
        let (v1, r) = pull_spec(v, fetched[0]);
        let (v2, rest) = run_pages(v1, fetched.drop_first());
        (v2, seq![r] + rest)
    }
}

/// Every page of `pages`, each fetched successfully.
pub open spec fn fetched_ok<P>(pages: Seq<Batch<P>>) -> Seq<Result<Batch<P>, CisClientError>> {
    Seq::new(pages.len(), |i: int| Ok(pages[i]))
}

/// A fetched profile counts as existing only when it carries its identity
/// (uuid) field; one without it is reported as not existing.
pub fn check_profile_exists<P>(profile: P, has_uuid: bool) -> (r: Result<P, CisClientError>)
    ensures
        has_uuid ==> r == Ok::<P, CisClientError>(profile),
        !has_uuid ==> r == Err::<P, CisClientError>(
            CisClientError::ProfileError(ProfileError::ProfileDoesNotExist),
        ),
{
    if has_uuid {
        Ok(profile)
    } else {
        Err(CisClientError::ProfileError(ProfileError::ProfileDoesNotExist))
    }
}

/// Iterator over batches of profiles, read page by page from a
/// [`CisClientTrait`] listing. Single use: it cannot be restarted.
pub struct ProfileIter<T: CisClientTrait> {
    cis_client: T,
    filter: Option<String>,
    phase: IterPhase,
    cursor: Option<NextPage>,
    requested: Ghost<Seq<PageRequest>>,
    received: Ghost<Seq<Option<NextPage>>>,
}

impl<T: CisClientTrait> View for ProfileIter<T> {
    type V = PagerView;

    closed spec fn view(&self) -> PagerView {
        PagerView {
            phase: self.phase,
            cursor: self.cursor,
            filter: self.filter,
            requested: self.requested@,
            received: self.received@,
        }
    }
}

impl<T: CisClientTrait> ProfileIter<T> {
    /// A fresh iterator; it calls nothing on `cis_client` until pulled.
    pub fn new(cis_client: T, filter: Option<String>) -> (r: Self)
        ensures
            r@ == initial_view(filter),
            r@.inv(),
            r@.log_matches(),
    {
        ProfileIter {
            cis_client,
            filter,
            phase: IterPhase::Uninitialized,
            cursor: None,
            requested: Ghost(Seq::empty()),
            received: Ghost(Seq::empty()),
        }
    }

    /// Takes in the outcome `fetched` of a fetch at the current cursor and
    /// returns what the stream yields for it.
    pub fn advance(&mut self, fetched: Result<Batch<T::Profile>, CisClientError>) -> (r: Option<
        Result<Vec<T::Profile>, CisClientError>,
    >)
        requires
            old(self)@.inv(),
            !old(self)@.is_terminal(),
        ensures
            (final(self)@, r) == advance_spec(old(self)@, fetched),
            final(self)@.inv(),
    {
        proof {
            lemma_advance_keeps_inv(self@, fetched);
        }
        match fetched {
            Err(e) => {
                self.phase = IterPhase::Error;
                Some(Err(e))
            },
            Ok(b) => {
                let Batch { items, next_page } = b;
                self.received = Ghost(self.received@.push(next_page));
                match next_page {
                    None => {
                        self.phase = IterPhase::Done;
                        self.cursor = None;
                        if items.len() == 0 {
                            None
                        } else {
                            Some(Ok(items))
                        }
                    },
                    Some(c) => {
                        self.phase = IterPhase::Inflight;
                        self.cursor = Some(c);
                        Some(Ok(items))
                    },
                }
            },
        }
    }

    /// Pulls the next batch: unless the stream has ended, makes exactly one
    /// fetch, with the current cursor and the iterator's filter, and logs the
    /// arguments it was made with. After the end, or after a failure, it
    /// yields `None` and fetches nothing.
    pub fn next(&mut self) -> (r: Option<Result<Vec<T::Profile>, CisClientError>>)
        requires
            old(self)@.inv(),
        ensures
            final(self)@.inv(),
            old(self)@.log_matches() ==> final(self)@.log_matches(),
            old(self)@.is_terminal() ==> r is None && final(self)@ == old(self)@,
            !old(self)@.is_terminal() ==> final(self)@.requested == old(self)@.requested.push(
                (old(self)@.cursor, old(self)@.filter),
            ),
            !old(self)@.is_terminal() ==> exists|fetched: Result<Batch<T::Profile>, CisClientError>|
                (final(self)@, r) == pull_spec(old(self)@, fetched),
    {
        match self.phase {
            IterPhase::Done => None,
            IterPhase::Error => None,
            _ => {
                let cursor = &self.cursor;
                let filter = &self.filter;
                let fetched = self.cis_client.get_batch(cursor, filter);
                self.requested = Ghost(self.requested@.push((*cursor, *filter)));
                let ghost f = fetched;
                proof {
                    lemma_pull_keeps_log(old(self)@, f);
                }
                let r = self.advance(fetched);
                assert((self@, r) == pull_spec(old(self)@, f));
                r
            },
        }
    }
}

proof fn lemma_advance_keeps_inv<P>(v: PagerView, fetched: Result<Batch<P>, CisClientError>)
    requires
        v.inv(),
        !v.is_terminal(),
    ensures
        advance_spec(v, fetched).0.inv(),
{
    let v1 = advance_spec(v, fetched).0;
    assert forall|i: int| 0 <= i < v1.received.len() - 1 implies #[trigger] v1.received[i] is Some by {
        if i == v.received.len() - 1 {
            assert(v.phase is Inflight);
        } else {
            assert(v1.received[i] == v.received[i]);
        }
    }
}

proof fn lemma_pull_keeps_log<P>(v: PagerView, fetched: Result<Batch<P>, CisClientError>)
    requires
        v.inv(),
        !v.is_terminal(),
    ensures
        pull_spec(v, fetched).0.inv(),
        v.log_matches() ==> pull_spec(v, fetched).0.log_matches(),
{
    let w = PagerView { requested: v.requested.push((v.cursor, v.filter)), ..v };
    lemma_advance_keeps_inv(w, fetched);
    let v1 = pull_spec(v, fetched).0;
    if v.log_matches() {
        assert forall|i: int| 0 <= i < v1.requested.len() implies #[trigger] v1.requested[i].1 == v1.filter by {
            if i < v.requested.len() {
                assert(v1.requested[i] == v.requested[i]);
            }
        }
        assert forall|i: int| 1 <= i < v1.requested.len() implies #[trigger] v1.requested[i].0 == v1.received[i - 1]
            && v1.received[i - 1] is Some by {
            if i == v.requested.len() {
                assert(v.phase is Inflight);
            } else {
                assert(v1.requested[i] == v.requested[i]);
                assert(v.requested[i].0 == v.received[i - 1]);
            }
        }
    }
}

proof fn lemma_terminal_pulls<P>(v: PagerView, fetched: Seq<Result<Batch<P>, CisClientError>>)
    requires
        v.is_terminal(),
    ensures
        run_pages(v, fetched).0 == v,
        run_pages(v, fetched).1.len() == fetched.len(),
        forall|i: int| 0 <= i < fetched.len() ==> #[trigger] run_pages(v, fetched).1[i] is None,
    decreases fetched.len(),
{
    if fetched.len() > 0 {
        lemma_terminal_pulls(v, fetched.drop_first());
        let rest = run_pages(v, fetched.drop_first()).1;
        assert forall|i: int| 0 <= i < fetched.len() implies #[trigger] run_pages(v, fetched).1[i] is None by {
            if i > 0 {
                assert(run_pages(v, fetched).1[i] == rest[i - 1]);
            }
        }
    }
}

/// Pages with a cursor, then a last fetch that ends the stream, then any
/// further pulls, from any state that can still fetch.
proof fn lemma_run_to_end<P>(
    v: PagerView,
    pages: Seq<Batch<P>>,
    last: Result<Batch<P>, CisClientError>,
    more: Seq<Result<Batch<P>, CisClientError>>,
)
    requires
        v.inv(),
        !v.is_terminal(),
        forall|i: int| 0 <= i < pages.len() ==> (#[trigger] pages[i]).next_page is Some,
        last matches Ok(b) ==> b.next_page is None,
    ensures
        ({
            let fetched = fetched_ok(pages) + seq![last] + more;
            let (v2, outs) = run_pages(v, fetched);
            let n = pages.len() as int;
            let k = v.requested.len() as int;
            &&& outs.len() == fetched.len()
            &&& forall|i: int| 0 <= i < n ==> #[trigger] outs[i] == Some(
                Ok::<Vec<P>, CisClientError>(pages[i].items),
            )
            &&& outs[n] == page_output(last)
            &&& forall|i: int| n < i < outs.len() ==> #[trigger] outs[i] is None
            &&& v2.is_terminal()
            &&& (last is Err <==> v2.phase is Error)
            &&& v2.filter == v.filter
            &&& v2.requested.len() == k + n + 1
            &&& forall|j: int| 0 <= j < k ==> #[trigger] v2.requested[j] == v.requested[j]
            &&& v2.requested[k] == (v.cursor, v.filter)
            &&& forall|j: int|
                1 <= j <= n ==> #[trigger] v2.requested[k + j] == (pages[j - 1].next_page, v.filter)
            &&& v2.inv()
        }),
    decreases pages.len(),
{
    let fetched = fetched_ok(pages) + seq![last] + more;
    let k = v.requested.len() as int;
    let n = pages.len() as int;
    if pages.len() == 0 {
        assert(fetched[0] == last);
        assert(fetched.drop_first() =~= more);
        let v1 = pull_spec(v, last).0;
        lemma_pull_keeps_log(v, last);
        lemma_terminal_pulls(v1, more);
        let outs = run_pages(v, fetched).1;
        assert forall|i: int| n < i < outs.len() implies #[trigger] outs[i] is None by {
            assert(outs[i] == run_pages(v1, more).1[i - 1]);
        }
    } else {
        assert(fetched[0] == Ok::<Batch<P>, CisClientError>(pages[0]));
        let tail = pages.drop_first();
        assert(fetched.drop_first() =~= fetched_ok(tail) + seq![last] + more);
        let v1 = pull_spec(v, fetched[0]).0;
        lemma_pull_keeps_log(v, fetched[0]);
        lemma_run_to_end(v1, tail, last, more);
        let outs = run_pages(v, fetched).1;
        let rest = run_pages(v1, fetched.drop_first()).1;
        let v2 = run_pages(v, fetched).0;
        assert forall|i: int| 0 <= i < n implies #[trigger] outs[i] == Some(
            Ok::<Vec<P>, CisClientError>(pages[i].items),
        ) by {
            if i > 0 {
                assert(outs[i] == rest[i - 1]);
                assert(tail[i - 1] == pages[i]);
            }
        }
        assert(outs[n] == rest[n - 1]);
        assert forall|i: int| n < i < outs.len() implies #[trigger] outs[i] is None by {
            assert(outs[i] == rest[i - 1]);
        }
        assert forall|j: int| 0 <= j < k implies #[trigger] v2.requested[j] == v.requested[j] by {
            assert(v2.requested[j] == v1.requested[j]);
        }
        assert(v2.requested[k] == v1.requested[k]);
        assert forall|j: int|
            1 <= j <= n implies #[trigger] v2.requested[k + j] == (pages[j - 1].next_page, v.filter) by {
            if j > 1 {
                assert(v2.requested[(k + 1) + (j - 1)] == (tail[j - 2].next_page, v1.filter));
            }
        }
    }
}

/// Cursor chain: the first fetch goes without a cursor, every later fetch
/// goes with exactly the cursor of the batch received just before it, and
/// every fetch carries the iterator's filter.
pub proof fn lemma_cursor_chain(v: PagerView)
    requires
        v.inv(),
        v.log_matches(),
    ensures
        v.requested.len() > 0 ==> v.requested[0].0 is None,
        forall|i: int|
            1 <= i < v.requested.len() ==> #[trigger] v.requested[i].0 == v.received[i - 1]
                && v.received[i - 1] is Some,
        forall|i: int| 0 <= i < v.requested.len() ==> #[trigger] v.requested[i].1 == v.filter,
{
}

/// A listing whose pages chain by their cursors, the last without one, is
/// produced page by page in order, each page's items as one batch, except
/// that a last page without items yields nothing; then the stream ends and
/// further pulls fetch nothing. The fetches go without a cursor, then with
/// each page's cursor in turn, and all with the iterator's filter.
pub proof fn lemma_listing_in_order<P>(
    filter: Option<String>,
    pages: Seq<Batch<P>>,
    more: Seq<Result<Batch<P>, CisClientError>>,
)
    requires
        pages.len() >= 1,
        forall|i: int| 0 <= i < pages.len() - 1 ==> (#[trigger] pages[i]).next_page is Some,
        pages.last().next_page is None,
    ensures
        ({
            let n = pages.len() as int;
            let (v2, outs) = run_pages(initial_view(filter), fetched_ok(pages) + more);
            &&& outs.len() == n + more.len()
            &&& forall|i: int| 0 <= i < n - 1 ==> #[trigger] outs[i] == Some(
                Ok::<Vec<P>, CisClientError>(pages[i].items),
            )
            &&& outs[n - 1] == (if pages.last().items@.len() == 0 {
                None
            } else {
                Some(Ok::<Vec<P>, CisClientError>(pages.last().items))
            })
            &&& forall|i: int| n <= i < outs.len() ==> #[trigger] outs[i] is None
            &&& v2.phase is Done
            &&& v2.requested.len() == n
            &&& v2.requested[0] == (None::<NextPage>, filter)
            &&& forall|j: int| 1 <= j < n ==> #[trigger] v2.requested[j] == (pages[j - 1].next_page, filter)
        }),
{
    let n = pages.len() as int;
    let front = pages.take(n - 1);
    let last = Ok::<Batch<P>, CisClientError>(pages.last());
    assert(fetched_ok(pages) + more =~= fetched_ok(front) + seq![last] + more);
    assert forall|i: int| 0 <= i < front.len() implies (#[trigger] front[i]).next_page is Some by {
        assert(front[i] == pages[i]);
    }
    lemma_run_to_end(initial_view(filter), front, last, more);
    let (v2, outs) = run_pages(initial_view(filter), fetched_ok(pages) + more);
    assert forall|i: int| 0 <= i < n - 1 implies #[trigger] outs[i] == Some(
        Ok::<Vec<P>, CisClientError>(pages[i].items),
    ) by {
        assert(front[i] == pages[i]);
    }
    assert forall|j: int| 1 <= j < n implies #[trigger] v2.requested[j] == (pages[j - 1].next_page, filter) by {
        assert(v2.requested[0 + j] == (front[j - 1].next_page, filter));
    }
}

/// A listing whose first fetch returns no items and no cursor produces no
/// batch at all, and nothing is fetched after it.
pub proof fn lemma_empty_listing<P>(
    filter: Option<String>,
    empty: Batch<P>,
    more: Seq<Result<Batch<P>, CisClientError>>,
)
    requires
        empty.items@.len() == 0,
        empty.next_page is None,
    ensures
        ({
            let (v2, outs) = run_pages(initial_view(filter), seq![Ok(empty)] + more);
            &&& forall|i: int| 0 <= i < outs.len() ==> #[trigger] outs[i] is None
            &&& v2.phase is Done
            &&& v2.requested.len() == 1
        }),
{
    assert(fetched_ok(seq![empty]) =~= seq![Ok::<Batch<P>, CisClientError>(empty)]);
    lemma_listing_in_order(filter, seq![empty], more);
}

/// A listing whose first fetch returns items and no cursor produces exactly
/// that one batch; then the stream ends and nothing more is fetched.
pub proof fn lemma_single_page_listing<P>(
    filter: Option<String>,
    page: Batch<P>,
    more: Seq<Result<Batch<P>, CisClientError>>,
)
    requires
        page.items@.len() > 0,
        page.next_page is None,
    ensures
        ({
            let (v2, outs) = run_pages(initial_view(filter), seq![Ok(page)] + more);
            &&& outs[0] == Some(Ok::<Vec<P>, CisClientError>(page.items))
            &&& forall|i: int| 1 <= i < outs.len() ==> #[trigger] outs[i] is None
            &&& v2.phase is Done
            &&& v2.requested.len() == 1
        }),
{
    assert(fetched_ok(seq![page]) =~= seq![Ok::<Batch<P>, CisClientError>(page)]);
    lemma_listing_in_order(filter, seq![page], more);
}

/// A failed fetch after some pages with cursors: those pages' batches come
/// first, in order, then the failure, once; the stream then ends and no
/// further page is fetched.
pub proof fn lemma_failure_ends_listing<P>(
    filter: Option<String>,
    pages: Seq<Batch<P>>,
    e: CisClientError,
    more: Seq<Result<Batch<P>, CisClientError>>,
)
    requires
        forall|i: int| 0 <= i < pages.len() ==> (#[trigger] pages[i]).next_page is Some,
    ensures
        ({
            let n = pages.len() as int;
            let (v2, outs) = run_pages(initial_view(filter), fetched_ok(pages) + seq![Err(e)] + more);
            &&& forall|i: int| 0 <= i < n ==> #[trigger] outs[i] == Some(
                Ok::<Vec<P>, CisClientError>(pages[i].items),
            )
            &&& outs[n] == Some(Err::<Vec<P>, CisClientError>(e))
            &&& forall|i: int| n < i < outs.len() ==> #[trigger] outs[i] is None
            &&& v2.phase is Error
            &&& v2.requested.len() == n + 1
        }),
{
    lemma_run_to_end(initial_view(filter), pages, Err(e), more);
}

} // verus!
