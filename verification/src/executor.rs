//! The record stream and the executor that drains it: records are handed to
//! the sink one by one and counted, a limit cuts the run short, and the
//! first failure ends it.

use vstd::prelude::*;
use crate::error::{
    classify_failure, failure_detail, failure_kind, AppError, ErrorKind, Resource,
};
use crate::output::{framed, NdjsonWriter};

verus! {

/// One element of a record stream.
#[derive(Debug)]
pub enum StreamItem {
    /// A record, encoded as compact JSON.
    Record(String),
    /// A failed page fetch, with the remote side's message.
    Failure(String),
}

/// What a stream item holds, as plain values.
pub enum ItemView {
    Record(Seq<char>),
    Failure(Seq<char>),
}

impl View for StreamItem {
    type V = ItemView;

    open spec fn view(&self) -> ItemView {
        match self {
            StreamItem::Record(j) => ItemView::Record(j@),
            StreamItem::Failure(m) => ItemView::Failure(m@),
        }
    }
}

/// The outcome of fetching one page.
#[derive(Debug)]
pub enum Page {
    /// The page's records in the order received, each encoded as compact JSON.
    Records(Vec<String>),
    /// The fetch failed, with the remote side's message.
    Failed(String),
}

/// What a page holds, as plain values.
pub enum PageView {
    Records(Seq<Seq<char>>),
    Failed(Seq<char>),
}

impl View for Page {
    type V = PageView;

    open spec fn view(&self) -> PageView {
        match self {
            Page::Records(rs) => PageView::Records(rs@.map_values(|r: String| r@)),
            Page::Failed(m) => PageView::Failed(m@),
        }
    }
}

/// The views of a list of items.
pub open spec fn item_views(items: Seq<StreamItem>) -> Seq<ItemView> {
    items.map_values(|i: StreamItem| i@)
}

/// The views of a list of pages.
pub open spec fn page_views(pages: Seq<Page>) -> Seq<PageView> {
    pages.map_values(|p: Page| p@)
}

/// The single sequence that a run of page fetches stands for: the records
/// of each page in turn, up to the first failed fetch, which comes last.
pub open spec fn sequence_of(pages: Seq<PageView>) -> Seq<ItemView>
    decreases pages.len(),
{
    if pages.len() == 0 {
        Seq::<ItemView>::empty()
    } else {
        match pages[0] {
            PageView::Failed(m) => seq![ItemView::Failure(m)],
            PageView::Records(rs) => rs.map_values(|r: Seq<char>| ItemView::Record(r))
                + sequence_of(pages.drop_first()),
        }
    }
}

/// Nothing follows a failure.
pub open spec fn failure_is_last(items: Seq<ItemView>) -> bool {
    forall|i: int| 0 <= i < items.len() && #[trigger] items[i] is Failure ==> i == items.len() - 1
}

/// How many records stand at the front of `items`, before the first failure.
pub open spec fn leading_records(items: Seq<ItemView>) -> nat
    decreases items.len(),
{
    if items.len() > 0 && items[0] is Record {
        1 + leading_records(items.drop_first())
    } else {
        0
    }
}

/// How many records a run over `items` hands to the sink: all that come
/// before the first failure, or `limit` of them if there are that many and
/// the limit is not 0.
pub open spec fn emitted_count(items: Seq<ItemView>, limit: nat) -> nat {
    if limit > 0 && leading_records(items) >= limit {
        limit
    } else {
        leading_records(items)
    }
}

/// How many items a run over `items` takes from the stream: those it hands
/// on, and the failure that ended it, if one did.
pub open spec fn pulled_count(items: Seq<ItemView>, limit: nat) -> nat {
    if limit > 0 && leading_records(items) >= limit {
        limit
    } else if leading_records(items) < items.len() {
        leading_records(items) + 1
    } else {
        leading_records(items)
    }
}

/// The run over `items` ends on a failure.
pub open spec fn run_fails(items: Seq<ItemView>, limit: nat) -> bool {
    !(limit > 0 && leading_records(items) >= limit) && leading_records(items) < items.len()
}

/// The message of the failure that ends a failing run.
pub open spec fn failing_message(items: Seq<ItemView>) -> Seq<char> {
    items[leading_records(items) as int]->Failure_0
}

/// The text carried by an item.
pub open spec fn item_text(item: ItemView) -> Seq<char> {
    match item {
        ItemView::Record(j) => j,
        ItemView::Failure(m) => m,
    }
}

/// The lines written for the first `n` of `items`.
pub open spec fn lines_for(items: Seq<ItemView>, n: nat) -> Seq<Seq<char>> {
    items.take(n as int).map_values(|i: ItemView| framed(item_text(i)))
}

/// Where the first `k` items are records, at least `k` records lead; and
/// exactly `k` where the items end there or a failure follows.
pub proof fn lemma_record_run(items: Seq<ItemView>, k: int)
    requires
        0 <= k <= items.len(),
        forall|i: int| 0 <= i < k ==> #[trigger] items[i] is Record,
    ensures
        leading_records(items) >= k,
        k == items.len() || items[k] is Failure ==> leading_records(items) == k,
        leading_records(items) <= items.len(),
        forall|i: int| 0 <= i < leading_records(items) ==> #[trigger] items[i] is Record,
        leading_records(items) < items.len() ==> items[leading_records(items) as int] is Failure,
    decreases items.len(),
{
    if items.len() > 0 && items[0] is Record {
        let rest = items.drop_first();
        let k1 = if k > 0 {
            k - 1
        } else {
            0
        };
        assert forall|i: int| 0 <= i < k1 implies #[trigger] rest[i] is Record by {
            assert(rest[i] == items[i + 1]);
        }
        lemma_record_run(rest, k1);
        let n = leading_records(rest) as int;
        assert forall|i: int| 0 <= i < n + 1 implies #[trigger] items[i] is Record by {
            if i > 0 {
                assert(items[i] == rest[i - 1]);
            }
        }
        if n < rest.len() {
            assert(items[n + 1] == rest[n]);
        }
        if k > 0 && k < items.len() {
            assert(items[k] == rest[k - 1]);
        }
    }
}

/// What is left of a sequence in which nothing follows a failure is such a
/// sequence too.
pub proof fn lemma_rest_ends_with_failure(items: Seq<ItemView>, taken: int)
    requires
        0 <= taken <= items.len(),
        failure_is_last(items),
    ensures
        failure_is_last(items.skip(taken)),
{
    let rest = items.skip(taken);
    assert forall|i: int| 0 <= i < rest.len() && #[trigger] rest[i] is Failure implies i
        == rest.len() - 1 by {
        assert(rest[i] == items[i + taken]);
    }
}

/// A lazy, forward-only sequence of records that ends with the stream or
/// with the first failure. Once made, it is read from front to back, once.
pub struct RecordStream {
    items: Vec<StreamItem>,
    position: usize,
}

impl RecordStream {
    /// All the items of the stream, those already taken too.
    pub closed spec fn items(&self) -> Seq<ItemView> {
        item_views(self.items@)
    }

    /// How many items have been taken.
    pub closed spec fn pulled(&self) -> nat {
        self.position as nat
    }

    /// The items not yet taken.
    pub open spec fn remaining(&self) -> Seq<ItemView> {
        self.items().skip(self.pulled() as int)
    }

    /// No more has been taken than there is, and nothing follows a failure.
    pub open spec fn wf(&self) -> bool {
        self.pulled() <= self.items().len() && failure_is_last(self.items())
    }

    /// The stream that a run of page fetches stands for: every page's
    /// records in the order received, ending with the first failed fetch.
    pub fn from_pages(pages: &Vec<Page>) -> (s: Self)
        ensures
            s.wf(),
            s.pulled() == 0,
            s.items() == sequence_of(page_views(pages@)),
    {
        let mut items: Vec<StreamItem> = Vec::new();
        let mut i: usize = 0;
        let ghost all = page_views(pages@);
        assert(all.skip(0) =~= all);
        assert(item_views(items@) =~= Seq::<ItemView>::empty());
        assert(Seq::<ItemView>::empty() + sequence_of(all) =~= sequence_of(all));
        while i < pages.len()
            invariant
                i <= pages.len(),
                all == page_views(pages@),
                sequence_of(all) == item_views(items@) + sequence_of(all.skip(i as int)),
                forall|k: int| 0 <= k < items@.len() ==> #[trigger] item_views(items@)[k] is Record,
            decreases pages.len() - i,
        {
            let ghost rest = all.skip(i as int);
            proof {
                assert(rest[0] == pages@[i as int]@);
                assert(rest.drop_first() =~= all.skip(i + 1));
            }
            match &pages[i] {
                Page::Failed(m) => {
                    let ghost before = item_views(items@);
                    items.push(StreamItem::Failure(m.clone()));
                    proof {
                        assert(item_views(items@) =~= before.push(ItemView::Failure(m@)));
                        assert(before + seq![ItemView::Failure(m@)] =~= before.push(
                            ItemView::Failure(m@),
                        ));
                        let v = item_views(items@);
                        assert forall|k: int| 0 <= k < v.len() && #[trigger] v[k] is Failure implies k
                            == v.len() - 1 by {
                            if k < v.len() - 1 {
                                assert(v[k] == before[k]);
                            }
                        }
                    }
                    return RecordStream { items, position: 0 };
                },
                Page::Records(rs) => {
                    let ghost before = item_views(items@);
                    let ghost texts = rs@.map_values(|r: String| r@);
                    let ghost mapped = texts.map_values(|r: Seq<char>| ItemView::Record(r));
                    let mut j: usize = 0;
                    assert(before + mapped.take(0) =~= before);
                    while j < rs.len()
                        invariant
                            j <= rs.len(),
                            texts == rs@.map_values(|r: String| r@),
                            mapped == texts.map_values(|r: Seq<char>| ItemView::Record(r)),
                            item_views(items@) == before + mapped.take(j as int),
                            forall|k: int|
                                0 <= k < items@.len() ==> #[trigger] item_views(
                                    items@,
                                )[k] is Record,
                        decreases rs.len() - j,
                    {
                        let ghost prev = item_views(items@);
                        items.push(StreamItem::Record(rs[j].clone()));
                        proof {
                            assert(item_views(items@) =~= prev.push(ItemView::Record(rs@[j as int]@)));
                            assert(mapped[j as int] == ItemView::Record(rs@[j as int]@));
                            assert(before + mapped.take(j + 1) =~= (before + mapped.take(
                                j as int,
                            )).push(mapped[j as int]));
                            let v = item_views(items@);
                            assert forall|k: int| 0 <= k < v.len() implies #[trigger] v[k] is Record by {
                                if k < v.len() - 1 {
                                    assert(v[k] == prev[k]);
                                }
                            }
                        }
                        j += 1;
                    }
                    proof {
                        assert(mapped.take(rs@.len() as int) =~= mapped);
                        assert((before + mapped) + sequence_of(all.skip(i + 1)) =~= before + (mapped
                            + sequence_of(all.skip(i + 1))));
                    }
                },
            }
            i += 1;
        }
        proof {
            assert(all.skip(pages@.len() as int) =~= Seq::<PageView>::empty());
            assert(item_views(items@) + Seq::<ItemView>::empty() =~= item_views(items@));
        }
        RecordStream { items, position: 0 }
    }

    /// Takes the next item from the stream; `None` once it has ended.
    pub fn next(&mut self) -> (item: Option<StreamItem>)
        requires
            old(self).wf(),
        ensures
            final(self).wf(),
            final(self).items() == old(self).items(),
            match item {
                Some(i) => {
                    &&& old(self).remaining().len() > 0
                    &&& i@ == old(self).remaining()[0]
                    &&& final(self).pulled() == old(self).pulled() + 1
                    &&& i is Failure ==> final(self).remaining().len() == 0
                },
                None => {
                    &&& old(self).remaining().len() == 0
                    &&& final(self).pulled() == old(self).pulled()
                },
            },
    {
        if self.position >= self.items.len() {
            return None;
        }
        let item = match &self.items[self.position] {
            StreamItem::Record(j) => StreamItem::Record(j.clone()),
            StreamItem::Failure(m) => StreamItem::Failure(m.clone()),
        };
        proof {
            assert(item@ == item_views(self.items@)[self.position as int]);
        }
        self.position = self.position + 1;
        Some(item)
    }

    /// How many items have been taken from the stream.
    pub fn taken(&self) -> (n: usize)
        ensures
            n == self.pulled(),
    {
        self.position
    }
}

/// What the executor asks for after it was given an item.
#[derive(Debug)]
pub enum Action {
    /// Write this record, then give the next item.
    Emit(String),
    /// Write this record and give no more: the limit is reached.
    EmitAndStop(String),
    /// The stream has ended: the run succeeded.
    Finish,
    /// The run failed.
    Fail(AppError),
}

/// The decisions of one run: what to do with each item of a stream, and
/// when to stop. It counts the records handed on for writing.
pub struct Executor {
    resource: Resource,
    limit: u64,
    emitted: u64,
    stopped: bool,
}

impl Executor {
    /// The data set whose failures are classified.
    pub closed spec fn resource(&self) -> Resource {
        self.resource
    }

    /// The most records to hand on; 0 for no limit.
    pub closed spec fn limit(&self) -> nat {
        self.limit as nat
    }

    /// How many records have been handed on.
    pub closed spec fn count(&self) -> nat {
        self.emitted as nat
    }

    /// The run is over.
    pub closed spec fn stopped(&self) -> bool {
        self.stopped
    }

    /// A run that goes on has not reached its limit.
    pub open spec fn wf(&self) -> bool {
        self.limit() > 0 && !self.stopped() ==> self.count() < self.limit()
    }

    /// A run that may still count one more record.
    pub open spec fn has_room(&self) -> bool {
        self.count() < u64::MAX
    }

    /// A run that has handed on nothing yet. A `limit` of 0 is no limit.
    pub fn new(resource: Resource, limit: u64) -> (e: Self)
        ensures
            e.wf(),
            e.resource() == resource,
            e.limit() == limit,
            e.count() == 0,
            !e.stopped(),
    {
        Executor { resource, limit, emitted: 0, stopped: false }
    }

    /// How many records have been handed on for writing.
    pub fn emitted(&self) -> (n: u64)
        ensures
            n == self.count(),
    {
        self.emitted
    }

    /// Whether the run is over.
    pub fn is_stopped(&self) -> (b: bool)
        ensures
            b == self.stopped(),
    {
        self.stopped
    }

    /// Whether one more record can be counted.
    pub fn can_accept(&self) -> (b: bool)
        ensures
            b == (!self.stopped() && self.has_room()),
    {
        !self.stopped && self.emitted < u64::MAX
    }

    /// Decides on the next item of the stream; `None` stands for its end.
    ///
    /// A record is handed on for writing and counted; the run stops with it
    /// where the count then reaches a limit that is not 0. A failure ends
    /// the run with its classification, and the end of the stream ends it
    /// in success. Neither changes the count.
    pub fn accept(&mut self, item: Option<&StreamItem>) -> (action: Action)
        requires
            old(self).wf(),
            !old(self).stopped(),
            item is Some && item->0 is Record ==> old(self).has_room(),
        ensures
            final(self).wf(),
            final(self).resource() == old(self).resource(),
            final(self).limit() == old(self).limit(),
            match item {
                None => action is Finish && final(self).stopped() && final(self).count() == old(self).count(),
                Some(StreamItem::Failure(m)) => {
                    &&& action is Fail
                    &&& action->Fail_0.kind() == failure_kind(m@)
                    &&& action->Fail_0.detail() == failure_detail(m@, old(self).resource())
                    &&& final(self).stopped()
                    &&& final(self).count() == old(self).count()
                },
                Some(StreamItem::Record(j)) => {
                    &&& final(self).count() == old(self).count() + 1
                    &&& if old(self).limit() > 0 && old(self).count() + 1 >= old(self).limit() {
                        action is EmitAndStop && action->EmitAndStop_0@ == j@ && final(self).stopped()
                    } else {
                        action is Emit && action->Emit_0@ == j@ && !final(self).stopped()
                    }
                },
            },
    {
        match item {
            None => {
                self.stopped = true;
                Action::Finish
            },
            Some(StreamItem::Failure(m)) => {
                self.stopped = true;
                Action::Fail(classify_failure(m.as_str(), self.resource))
            },
            Some(StreamItem::Record(j)) => {
                self.emitted = self.emitted + 1;
                if self.limit > 0 && self.emitted >= self.limit {
                    self.stopped = true;
                    Action::EmitAndStop(j.clone())
                } else {
                    Action::Emit(j.clone())
                }
            },
        }
    }
}

/// The failure that ends a run when a record cannot be encoded or the sink
/// cannot take it: a local failure of input and output, with the reason given.
pub fn write_failure(why: &str) -> (e: AppError)
    ensures
        e.kind() == ErrorKind::Io,
        e.detail() == why@,
{
    AppError::Io(why.to_owned())
}

/// Drains `stream` into `sink`: each record is written as one line and
/// counted; with a `limit` other than 0 the run stops as soon as that many
/// are written, and takes nothing more from the stream; a failure ends the
/// run with its classification, and what was written before stays written.
/// Returns the number of records written by this run.
pub fn execute(
    stream: &mut RecordStream,
    limit: u64,
    resource: Resource,
    sink: &mut NdjsonWriter,
) -> (r: Result<u64, AppError>)
    requires
        old(stream).wf(),
    ensures
        final(stream).wf(),
        final(stream).items() == old(stream).items(),
        final(stream).pulled() == old(stream).pulled() + pulled_count(
            old(stream).remaining(),
            limit as nat,
        ),
        limit == 0 ==> final(stream).remaining().len() == 0,
        final(sink)@ == old(sink)@ + lines_for(
            old(stream).remaining(),
            emitted_count(old(stream).remaining(), limit as nat),
        ),
        match r {
            Ok(n) => !run_fails(old(stream).remaining(), limit as nat) && n == emitted_count(
                old(stream).remaining(),
                limit as nat,
            ),
            Err(e) => {
                &&& run_fails(old(stream).remaining(), limit as nat)
                &&& e.kind() == failure_kind(failing_message(old(stream).remaining()))
                &&& e.detail() == failure_detail(
                    failing_message(old(stream).remaining()),
                    resource,
                )
            },
        },
{
    let ghost start = stream.pulled() as int;
    let ghost rem = stream.remaining();
    let ghost lines0 = sink@;
    proof {
        lemma_rest_ends_with_failure(stream.items(), start);
        lemma_unlimited_run_takes_all(rem);
    }
    let mut exec = Executor::new(resource, limit);
    assert(lines0 + lines_for(rem, 0) =~= lines0);
    loop
        invariant
            stream.wf(),
            stream.items() == old(stream).items(),
            rem == old(stream).remaining(),
            lines0 == old(sink)@,
            start == old(stream).pulled(),
            start <= stream.pulled() <= stream.items().len(),
            exec.wf(),
            !exec.stopped(),
            exec.limit() == limit,
            exec.resource() == resource,
            exec.count() == stream.pulled() - start,
            forall|k: int| 0 <= k < stream.pulled() - start ==> #[trigger] rem[k] is Record,
            sink@ == lines0 + lines_for(rem, (stream.pulled() - start) as nat),
        decreases stream.items().len() - stream.pulled(),
    {
        let ghost done = stream.pulled() - start;
        let next = stream.next();
        proof {
            if next is Some {
                assert(rem[done] == next->0@);
            }
        }
        let action = match &next {
            Some(item) => exec.accept(Some(item)),
            None => exec.accept(None),
        };
        match action {
            Action::Emit(json) => {
                sink.write(json.as_str());
                proof {
                    assert(lines_for(rem, (done + 1) as nat) =~= lines_for(rem, done as nat).push(
                        framed(json@),
                    ));
                    assert(lines0 + lines_for(rem, (done + 1) as nat) =~= (lines0 + lines_for(
                        rem,
                        done as nat,
                    )).push(framed(json@)));
                }
            },
            Action::EmitAndStop(json) => {
                sink.write(json.as_str());
                proof {
                    assert(lines_for(rem, (done + 1) as nat) =~= lines_for(rem, done as nat).push(
                        framed(json@),
                    ));
                    assert(lines0 + lines_for(rem, (done + 1) as nat) =~= (lines0 + lines_for(
                        rem,
                        done as nat,
                    )).push(framed(json@)));
                    lemma_record_run(rem, done + 1);
                }
                return Ok(exec.emitted());
            },
            Action::Fail(e) => {
                proof {
                    lemma_record_run(rem, done);
                }
                return Err(e);
            },
            Action::Finish => {
                proof {
                    lemma_record_run(rem, done);
                }
                return Ok(exec.emitted());
            },
        }
    }
}

/// With a limit other than 0, a run writes at most that many records and
/// takes at most that many items from the stream; where the stream has that
/// many records in front, it writes and takes exactly that many and
/// succeeds, however long the stream goes on.
pub proof fn lemma_limit_caps_run(items: Seq<ItemView>, limit: nat)
    requires
        limit > 0,
    ensures
        emitted_count(items, limit) <= limit,
        pulled_count(items, limit) <= limit,
        leading_records(items) >= limit ==> {
            &&& emitted_count(items, limit) == limit
            &&& pulled_count(items, limit) == limit
            &&& !run_fails(items, limit)
        },
{
    lemma_record_run(items, 0);
}

/// Without a limit, a run over a stream of records only writes every one of
/// them, takes every one of them and succeeds.
pub proof fn lemma_unlimited_run_drains(items: Seq<ItemView>)
    requires
        forall|i: int| 0 <= i < items.len() ==> #[trigger] items[i] is Record,
    ensures
        emitted_count(items, 0) == items.len(),
        pulled_count(items, 0) == items.len(),
        !run_fails(items, 0),
{
    lemma_record_run(items, items.len() as int);
}

/// Without a limit, a run takes the whole of a stream in which nothing
/// follows a failure.
pub proof fn lemma_unlimited_run_takes_all(items: Seq<ItemView>)
    requires
        failure_is_last(items),
    ensures
        pulled_count(items, 0) == items.len(),
{
    lemma_record_run(items, 0);
}

/// Where the first page arrives and the second fetch fails, a run that the
/// limit does not cut short writes the first page's records, all of them and
/// in order, and then fails with the classification of that failure; what
/// later fetches would have given plays no part.
pub proof fn lemma_failure_after_first_page(
    first: Seq<Seq<char>>,
    msg: Seq<char>,
    later: Seq<PageView>,
    limit: nat,
)
    requires
        limit == 0 || limit > first.len(),
    ensures
        ({
            let pages = seq![PageView::Records(first), PageView::Failed(msg)] + later;
            let items = sequence_of(pages);
            &&& items.len() == first.len() + 1
            &&& emitted_count(items, limit) == first.len()
            &&& pulled_count(items, limit) == first.len() + 1
            &&& run_fails(items, limit)
            &&& failing_message(items) == msg
            &&& lines_for(items, emitted_count(items, limit)) == first.map_values(
                |r: Seq<char>| framed(r),
            )
        }),
{
    let pages = seq![PageView::Records(first), PageView::Failed(msg)] + later;
    let items = sequence_of(pages);
    let mapped = first.map_values(|r: Seq<char>| ItemView::Record(r));
    assert(pages[0] == PageView::Records(first));
    assert(pages.drop_first()[0] == PageView::Failed(msg));
    assert(sequence_of(pages.drop_first()) == seq![ItemView::Failure(msg)]);
    assert(items == mapped + seq![ItemView::Failure(msg)]);
    assert forall|i: int| 0 <= i < first.len() implies #[trigger] items[i] is Record by {
        assert(items[i] == mapped[i]);
    }
    assert(items[first.len() as int] == ItemView::Failure(msg));
    lemma_record_run(items, first.len() as int);
    assert(lines_for(items, first.len()) =~= first.map_values(|r: Seq<char>| framed(r))) by {
        assert forall|i: int| 0 <= i < first.len() implies lines_for(items, first.len())[i]
            == framed(first[i]) by {
            assert(items.take(first.len() as int)[i] == mapped[i]);
        }
    }
}

/// In the sequence that page fetches stand for, nothing follows a failure.
pub proof fn lemma_sequence_ends_with_failure(pages: Seq<PageView>)
    ensures
        failure_is_last(sequence_of(pages)),
    decreases pages.len(),
{
    if pages.len() > 0 {
        match pages[0] {
            PageView::Failed(m) => {},
            PageView::Records(rs) => {
                lemma_sequence_ends_with_failure(pages.drop_first());
                let mapped = rs.map_values(|r: Seq<char>| ItemView::Record(r));
                let tail = sequence_of(pages.drop_first());
                let all = sequence_of(pages);
                assert(all == mapped + tail);
                assert forall|i: int| 0 <= i < all.len() && #[trigger] all[i] is Failure implies i
                    == all.len() - 1 by {
                    if i < mapped.len() {
                        assert(all[i] == mapped[i]);
                    } else {
                        assert(all[i] == tail[i - mapped.len()]);
                    }
                }
            },
        }
    }
}

} // verus!
