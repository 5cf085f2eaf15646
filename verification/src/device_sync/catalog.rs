//! Finding archives among the messages between devices, which come in pages, the latest first.

use vstd::prelude::*;
use crate::bytes;
use crate::device_sync::content;
use crate::device_sync::content::{DeviceSyncReply, SyncContent};
use crate::records::StoredGroupMessage;

verus! {

/// The nanoseconds of a day.
pub const NS_IN_DAY: i64 = 86_400_000_000_000;

/// How many messages a page has at most.
pub const PAGE_SIZE: i64 = 100;

/// What a page of messages led to.
#[derive(Debug)]
pub enum ArchiveSearch {
    Found(StoredGroupMessage, DeviceSyncReply),
    /// Go on with the page that begins here.
    NextPage(i64),
    NotFound,
}

/// Whether a content is a reply that is looked for: any, where no pin is given.
pub open spec fn is_wanted(content: SyncContent, pin: Option<Seq<char>>) -> bool {
    content matches SyncContent::Reply(reply) && (pin is None || reply.request_id@ == pin->0)
}

/// Whether the first wanted reply stands at a place.
pub open spec fn is_first_wanted(
    entries: Seq<(StoredGroupMessage, SyncContent)>,
    pin: Option<Seq<char>>,
    i: int,
) -> bool {
    &&& 0 <= i < entries.len()
    &&& is_wanted(entries[i].1, pin)
    &&& forall|j: int| 0 <= j < i ==> !is_wanted((#[trigger] entries[j]).1, pin)
}

/// Whether a page has no wanted reply.
pub open spec fn none_wanted(entries: Seq<(StoredGroupMessage, SyncContent)>, pin: Option<Seq<char>>) -> bool {
    forall|i: int| 0 <= i < entries.len() ==> !is_wanted((#[trigger] entries[i]).1, pin)
}

/// Whether a search of a page found a reply.
pub open spec fn finds(
    entries: Seq<(StoredGroupMessage, SyncContent)>,
    pin: Option<Seq<char>>,
    message: StoredGroupMessage,
    reply: DeviceSyncReply,
) -> bool {
    exists|i: int|
        #[trigger] is_first_wanted(entries, pin, i) && entries[i] == (message, SyncContent::Reply(reply))
}

/// The text of an optional text.
pub open spec fn pin_text(pin: Option<&str>) -> Option<Seq<char>> {
    match pin {
        Some(p) => Some(p@),
        None => None,
    }
}

/// Whether a page that begins at `offset` leads to a result.
pub open spec fn is_search(
    page: Seq<(StoredGroupMessage, Option<SyncContent>)>,
    offset: i64,
    pin: Option<Seq<char>>,
    r: ArchiveSearch,
) -> bool {
    match r {
        ArchiveSearch::Found(message, reply) => finds(content::readable(page), pin, message, reply),
        ArchiveSearch::NextPage(next) => {
            &&& page.len() > 0
            &&& none_wanted(content::readable(page), pin)
            &&& next == offset + page.len()
        },
        ArchiveSearch::NotFound => page.len() == 0,
    }
}

/// The page of messages that begins at `offset`.
pub open spec fn page_of(messages: Seq<(StoredGroupMessage, Option<SyncContent>)>, offset: int) -> Seq<
    (StoredGroupMessage, Option<SyncContent>),
> {
    let end = if offset + PAGE_SIZE <= messages.len() {
        offset + PAGE_SIZE
    } else {
        messages.len() as int
    };
    messages.subrange(offset, end)
}

/// Whether messages are searched page by page from the first on, each page from where the one before led
/// to.
pub open spec fn is_search_run(
    messages: Seq<(StoredGroupMessage, Option<SyncContent>)>,
    pin: Option<Seq<char>>,
    offsets: Seq<i64>,
    results: Seq<ArchiveSearch>,
) -> bool {
    &&& offsets.len() == results.len()
    &&& offsets.len() > 0
    &&& offsets[0] == 0
    &&& forall|i: int|
        0 <= i < results.len() ==> is_search(page_of(messages, #[trigger] offsets[i] as int), offsets[i], pin, results[i])
    &&& forall|i: int|
        0 <= i < results.len() - 1 ==> (#[trigger] results[i]) == ArchiveSearch::NextPage(offsets[i + 1])
}

/// A search over all pages finds the first wanted reply of all messages, and finds nothing only where none
/// is wanted.
pub proof fn search_finds_the_first_wanted_reply(
    messages: Seq<(StoredGroupMessage, Option<SyncContent>)>,
    pin: Option<Seq<char>>,
    offsets: Seq<i64>,
    results: Seq<ArchiveSearch>,
)
    requires
        is_search_run(messages, pin, offsets, results),
    ensures
        match results.last() {
            ArchiveSearch::Found(message, reply) => finds(content::readable(messages), pin, message, reply),
            ArchiveSearch::NotFound => none_wanted(content::readable(messages), pin),
            ArchiveSearch::NextPage(next) => none_wanted(content::readable(messages.take(next as int)), pin),
        },
{
    let last = results.len() - 1;
    lemma_searched(messages, pin, offsets, results, last);
    let at = offsets[last] as int;
    let page = page_of(messages, at);
    let before = messages.take(at);
    assert(is_search(page, offsets[last], pin, results[last]));
    lemma_page(messages, at);
    match results.last() {
        ArchiveSearch::Found(message, reply) => {
            let entries = content::readable(page);
            let all = content::readable(messages);
            let i = choose|i: int|
                #[trigger] is_first_wanted(entries, pin, i) && entries[i] == (message, SyncContent::Reply(reply));
            let shift = content::readable(before).len();
            assert forall|j: int| 0 <= j < shift + i implies !is_wanted((#[trigger] all[j]).1, pin) by {
                if j < shift {
                    assert(all[j] == content::readable(before)[j]);
                } else {
                    assert(all[j] == entries[j - shift]);
                }
            }
            assert(all[shift + i] == entries[i]);
            assert(is_first_wanted(all, pin, shift + i));
        },
        ArchiveSearch::NotFound => {
            assert(before =~= messages);
        },
        ArchiveSearch::NextPage(next) => {
            content::lemma_readable_parts(before, page);
            assert(messages.take(next as int) =~= before + page);
        },
    }
}

proof fn lemma_page(messages: Seq<(StoredGroupMessage, Option<SyncContent>)>, at: int)
    requires
        0 <= at <= messages.len(),
    ensures
        content::readable(messages) == content::readable(messages.take(at)) + content::readable(page_of(messages, at))
            + content::readable(messages.skip(at + page_of(messages, at).len())),
        at + page_of(messages, at).len() <= messages.len(),
        page_of(messages, at).len() == 0 ==> at == messages.len(),
{
    let before = messages.take(at);
    let page = page_of(messages, at);
    let rest = messages.skip(at + page.len());
    content::lemma_readable_parts(before, page);
    content::lemma_readable_parts(before + page, rest);
    assert(before + page + rest =~= messages);
}

proof fn lemma_searched(
    messages: Seq<(StoredGroupMessage, Option<SyncContent>)>,
    pin: Option<Seq<char>>,
    offsets: Seq<i64>,
    results: Seq<ArchiveSearch>,
    n: int,
)
    requires
        is_search_run(messages, pin, offsets, results),
        0 <= n < results.len(),
    ensures
        0 <= offsets[n] <= messages.len(),
        none_wanted(content::readable(messages.take(offsets[n] as int)), pin),
    decreases n,
{
    if n == 0 {
        assert(messages.take(0) =~= Seq::<(StoredGroupMessage, Option<SyncContent>)>::empty());
    } else {
        lemma_searched(messages, pin, offsets, results, n - 1);
        let at = offsets[n - 1] as int;
        let before = messages.take(at);
        let page = page_of(messages, at);
        assert(is_search(page, offsets[n - 1], pin, results[n - 1]));
        assert(results[n - 1] == ArchiveSearch::NextPage(offsets[n - 1 + 1]));
        content::lemma_readable_parts(before, page);
        assert(messages.take(offsets[n] as int) =~= before + page);
    }
}

/// Looks for a reply in a page that begins at `offset`: the first with the pin, or the first of all.
/// The search ends with an empty page; messages that cannot be read count for where the next page
/// begins.
pub fn find_requested_archive_reply(
    page: Vec<(StoredGroupMessage, Option<SyncContent>)>,
    offset: i64,
    pin: Option<&str>,
) -> (r: ArchiveSearch)
    requires
        0 <= offset,
        offset + page@.len() <= i64::MAX,
    ensures
        is_search(page@, offset, pin_text(pin), r),
{
    if page.len() == 0 {
        return ArchiveSearch::NotFound;
    }
    let next: i64 = offset + page.len() as i64;
    let mut entries = content::iter_with_content(page);
    let ghost all = entries@;
    let total: usize = entries.len();
    let mut i: usize = 0;
    assert(all.skip(0) =~= all);
    let mut found: Option<(StoredGroupMessage, DeviceSyncReply)> = None;
    while i < total && found.is_none()
        invariant
            i <= total,
            total == all.len(),
            entries@ == all.skip(i as int),
            match found {
                Some((message, reply)) => finds(all, pin_text(pin), message, reply),
                None => forall|j: int| 0 <= j < i ==> !is_wanted((#[trigger] all[j]).1, pin_text(pin)),
            },
        decreases total - i,
    {
        let (message, content) = entries.remove(0);
        assert(entries@ =~= all.skip(i + 1));
        if let SyncContent::Reply(reply) = content {
            let matches: bool = match pin {
                None => true,
                Some(p) => bytes::text_equal(reply.request_id.as_str(), p),
            };
            if matches {
                assert(is_first_wanted(all, pin_text(pin), i as int));
                found = Some((message, reply));
            }
        }
        i += 1;
    }
    match found {
        Some((message, reply)) => ArchiveSearch::Found(message, reply),
        None => ArchiveSearch::NextPage(next),
    }
}

/// An archive that can be had.
#[derive(Debug)]
pub struct AvailableArchive {
    pub pin: String,
    /// What it holds, as it is encoded.
    pub metadata: Vec<u8>,
    pub sent_by_installation: Vec<u8>,
}

/// The archive that a message offers, if it offers one.
pub open spec fn offer(entry: (StoredGroupMessage, SyncContent)) -> Option<AvailableArchive> {
    match entry.1 {
        SyncContent::Reply(reply) => match reply.metadata {
            Some(metadata) => Some(
                (AvailableArchive {
                    pin: reply.request_id,
                    metadata,
                    sent_by_installation: entry.0.sender_installation_id,
                }),
            ),
            None => None,
        },
        _ => None,
    }
}

/// The archives that messages offer, in their order.
pub open spec fn offers(entries: Seq<(StoredGroupMessage, SyncContent)>) -> Seq<AvailableArchive>
    decreases entries.len(),
{
    if entries.len() == 0 {
        seq![]
    } else {
        let rest = offers(entries.drop_last());
        match offer(entries.last()) {
            Some(archive) => rest.push(archive),
            None => rest,
        }
    }
}

/// Whether the first `n` messages are recent, and the next one, if there is one, is not.
pub open spec fn is_recent_part(entries: Seq<(StoredGroupMessage, SyncContent)>, cutoff: i64, n: int) -> bool {
    &&& 0 <= n <= entries.len()
    &&& forall|i: int| 0 <= i < n ==> (#[trigger] entries[i]).0.sent_at_ns >= cutoff
    &&& n < entries.len() ==> entries[n].0.sent_at_ns < cutoff
}

/// A list of archives in the making.
#[derive(Debug)]
pub struct ArchiveListing {
    pub offset: i64,
    /// Messages before this time are too old.
    pub cutoff: i64,
    pub archives: Vec<AvailableArchive>,
}

/// Whether a list is a new one of the archives of the last days.
pub open spec fn is_new_listing(now_ns: i64, days_cutoff: i64, r: ArchiveListing) -> bool {
    &&& r.offset == 0
    &&& r.cutoff == now_ns - days_cutoff * NS_IN_DAY
    &&& r.archives@.len() == 0
}

/// A list of the archives of some days begins empty with the first message, and goes as many days back as asked for, each
/// of twenty-four hours.
pub proof fn lists_go_back_as_many_days(now_ns: i64, days_cutoff: i64, r: ArchiveListing)
    requires
        is_new_listing(now_ns, days_cutoff, r),
    ensures
        now_ns - r.cutoff == days_cutoff * 24 * 3600 * 1_000_000_000,
        r.offset == 0,
        r.archives@.len() == 0,
{
    assert(days_cutoff * NS_IN_DAY == days_cutoff * 24 * 3600 * 1_000_000_000) by (nonlinear_arith)
        requires
            NS_IN_DAY == 86_400_000_000_000,
    ;
}

/// What a page adds to a list of archives.
pub open spec fn adds_offers(
    before: Seq<AvailableArchive>,
    entries: Seq<(StoredGroupMessage, SyncContent)>,
    cutoff: i64,
    after: Seq<AvailableArchive>,
    reached_old: bool,
) -> bool {
    exists|n: int|
        #[trigger] is_recent_part(entries, cutoff, n) && after == before + offers(entries.take(n)) && reached_old == (n
            < entries.len())
}

/// Whether a page leads from a list to another.
pub open spec fn is_listing_step(
    before: ArchiveListing,
    page: Seq<(StoredGroupMessage, Option<SyncContent>)>,
    after: ArchiveListing,
    goes_on: bool,
) -> bool {
    &&& after.cutoff == before.cutoff
    &&& after.offset == before.offset + page.len()
    &&& page.len() == 0 ==> !goes_on && after.archives@ == before.archives@
    &&& page.len() > 0 ==> adds_offers(
        before.archives@,
        content::readable(page),
        before.cutoff,
        after.archives@,
        !goes_on,
    )
}

/// Whether a list is made page by page, from the first message on, until no other page is wanted.
pub open spec fn is_listing_run(
    messages: Seq<(StoredGroupMessage, Option<SyncContent>)>,
    listings: Seq<ArchiveListing>,
) -> bool {
    &&& listings.len() > 1
    &&& listings[0].offset == 0
    &&& listings[0].archives@.len() == 0
    &&& forall|i: int|
        0 <= i < listings.len() - 1 ==> is_listing_step(
            #[trigger] listings[i],
            page_of(messages, listings[i].offset as int),
            listings[i + 1],
            i + 1 < listings.len() - 1,
        )
}

/// A list that was made over all pages holds the archives that all messages offer, in their order, up to
/// the first message that is too old.
pub proof fn listing_holds_all_recent_offers(
    messages: Seq<(StoredGroupMessage, Option<SyncContent>)>,
    listings: Seq<ArchiveListing>,
)
    requires
        is_listing_run(messages, listings),
    ensures
        exists|n: int|
            #[trigger] is_recent_part(content::readable(messages), listings[0].cutoff, n) && listings.last().archives@
                == offers(content::readable(messages).take(n)),
{
    let last = listings.len() - 2;
    lemma_listed(messages, listings, last);
    let cutoff = listings[0].cutoff;
    let at = listings[last].offset as int;
    let page = page_of(messages, at);
    let prefix = content::readable(messages.take(at));
    let entries = content::readable(page);
    let all = content::readable(messages);
    assert(is_listing_step(listings[last], page, listings[last + 1], false));
    lemma_page(messages, at);
    if page.len() == 0 {
        assert(messages.take(at) =~= messages);
        assert(is_recent_part(all, cutoff, all.len() as int));
        assert(all.take(all.len() as int) =~= all);
    } else {
        let n = choose|n: int|
            #[trigger] is_recent_part(entries, cutoff, n) && listings[last + 1].archives@ == listings[last].archives@
                + offers(entries.take(n)) && true == (n < entries.len());
        let m = prefix.len() + n;
        assert forall|i: int| 0 <= i < m implies (#[trigger] all[i]).0.sent_at_ns >= cutoff by {
            if i < prefix.len() {
                assert(all[i] == prefix[i]);
            } else {
                assert(all[i] == entries[i - prefix.len()]);
            }
        }
        assert(all[m] == entries[n]);
        assert(is_recent_part(all, cutoff, m));
        assert(all.take(m) =~= prefix + entries.take(n));
        lemma_offers_parts(prefix, entries.take(n));
    }
}

proof fn lemma_offers_parts(first: Seq<(StoredGroupMessage, SyncContent)>, rest: Seq<(StoredGroupMessage, SyncContent)>)
    ensures
        offers(first + rest) == offers(first) + offers(rest),
    decreases rest.len(),
{
    if rest.len() == 0 {
        assert(first + rest =~= first);
        assert(offers(first) + offers(rest) =~= offers(first));
    } else {
        lemma_offers_parts(first, rest.drop_last());
        assert((first + rest).drop_last() =~= first + rest.drop_last());
        assert((first + rest).last() == rest.last());
        assert(offers(first + rest) =~= offers(first) + offers(rest));
    }
}

proof fn lemma_listed(
    messages: Seq<(StoredGroupMessage, Option<SyncContent>)>,
    listings: Seq<ArchiveListing>,
    n: int,
)
    requires
        is_listing_run(messages, listings),
        0 <= n < listings.len() - 1,
    ensures
        0 <= listings[n].offset <= messages.len(),
        listings[n].cutoff == listings[0].cutoff,
        listings[n].archives@ == offers(content::readable(messages.take(listings[n].offset as int))),
        forall|i: int|
            0 <= i < content::readable(messages.take(listings[n].offset as int)).len() ==> (
            #[trigger] content::readable(messages.take(listings[n].offset as int))[i]).0.sent_at_ns
                >= listings[0].cutoff,
    decreases n,
{
    if n == 0 {
        assert(messages.take(0) =~= Seq::<(StoredGroupMessage, Option<SyncContent>)>::empty());
        assert(listings[0].archives@ =~= offers(content::readable(messages.take(0))));
    } else {
        lemma_listed(messages, listings, n - 1);
        let cutoff = listings[0].cutoff;
        let at = listings[n - 1].offset as int;
        let page = page_of(messages, at);
        let prefix = content::readable(messages.take(at));
        let entries = content::readable(page);
        assert(is_listing_step(listings[n - 1], page, listings[n - 1 + 1], true));
        let k = choose|k: int|
            #[trigger] is_recent_part(entries, cutoff, k) && listings[n].archives@ == listings[n - 1].archives@
                + offers(entries.take(k)) && false == (k < entries.len());
        assert(entries.take(k) =~= entries);
        content::lemma_readable_parts(messages.take(at), page);
        assert(messages.take(listings[n].offset as int) =~= messages.take(at) + page);
        lemma_offers_parts(prefix, entries);
        assert forall|i: int| 0 <= i < (prefix + entries).len() implies (#[trigger] (prefix + entries)[i]).0.sent_at_ns
            >= cutoff by {
            if i < prefix.len() {
                assert((prefix + entries)[i] == prefix[i]);
            } else {
                assert((prefix + entries)[i] == entries[i - prefix.len()]);
            }
        }
    }
}

impl ArchiveListing {
    /// Begins a list of the archives of the last days.
    pub fn new(now_ns: i64, days_cutoff: i64) -> (r: Self)
        requires
            i64::MIN <= days_cutoff * NS_IN_DAY <= i64::MAX,
            i64::MIN <= now_ns - days_cutoff * NS_IN_DAY <= i64::MAX,
        ensures
            is_new_listing(now_ns, days_cutoff, r),
    {
        ArchiveListing { offset: 0, cutoff: now_ns - days_cutoff * NS_IN_DAY, archives: Vec::new() }
    }

    /// Takes in a page; whether the next page is wanted too. The list ends with an empty page, or
    /// with the first message that is too old.
    pub fn list_available_archives_from_db(&mut self, page: Vec<(StoredGroupMessage, Option<SyncContent>)>) -> (goes_on:
        bool)
        requires
            0 <= old(self).offset,
            old(self).offset + page@.len() <= i64::MAX,
        ensures
            is_listing_step(*old(self), page@, *final(self), goes_on),
    {
        if page.len() == 0 {
            return false;
        }
        self.offset = self.offset + page.len() as i64;
        let mut entries = content::iter_with_content(page);
        let ghost all = entries@;
        let ghost before = self.archives@;
        let ghost cutoff = self.cutoff;
        let ghost offset = self.offset;
        let total: usize = entries.len();
        let mut i: usize = 0;
        let mut reached_old: bool = false;
        proof {
            assert(all.skip(0) =~= all);
            assert(all.take(0) =~= Seq::<(StoredGroupMessage, SyncContent)>::empty());
            assert(self.archives@ =~= before + offers(all.take(0)));
        }
        while i < total && !reached_old
            invariant
                i <= total,
                total == all.len(),
                self.cutoff == cutoff,
                self.offset == offset,
                !reached_old ==> entries@ == all.skip(i as int),
                self.archives@ == before + offers(all.take(i as int)),
                forall|j: int| 0 <= j < i ==> (#[trigger] all[j]).0.sent_at_ns >= cutoff,
                reached_old ==> i < total && all[i as int].0.sent_at_ns < cutoff,
            decreases total - i, (if reached_old { 0int } else { 1int }),
        {
            let (message, content) = entries.remove(0);
            assert(entries@ =~= all.skip(i + 1));
            if message.sent_at_ns < self.cutoff {
                reached_old = true;
            } else {
                proof {
                    assert(all.take(i + 1).drop_last() =~= all.take(i as int));
                    assert(all.take(i + 1).last() == all[i as int]);
                }
                if let SyncContent::Reply(reply) = content {
                    if let Some(metadata) = reply.metadata {
                        self.archives.push(
                            AvailableArchive {
                                pin: reply.request_id,
                                metadata,
                                sent_by_installation: message.sender_installation_id,
                            },
                        );
                        assert(self.archives@ =~= before + offers(all.take(i + 1)));
                    }
                }
                i += 1;
            }
        }
        assert(is_recent_part(all, cutoff, i as int));
        !reached_old
    }
}

/// An archive is offered by a reply that says what it holds, under the pin of the request and as sent by the installation
/// that sent the message; nothing else offers one.
pub proof fn replies_offer_their_archive(entry: (StoredGroupMessage, SyncContent))
    ensures
        offer(entry) is Some <==> (entry.1 matches SyncContent::Reply(reply) && reply.metadata is Some),
        entry.1 matches SyncContent::Reply(reply) ==> (reply.metadata is Some ==> offer(entry)->0.pin == reply.request_id
            && offer(entry)->0.metadata == reply.metadata->0 && offer(entry)->0.sent_by_installation
            == entry.0.sender_installation_id),
{
}

/// The archives on a list are those that its messages offer, all of them.
pub proof fn lists_hold_every_offer(entries: Seq<(StoredGroupMessage, SyncContent)>, i: int)
    ensures
        0 <= i < entries.len() && offer(entries[i]) is Some ==> offers(entries).contains(offer(entries[i])->0),
        0 <= i < offers(entries).len() ==> exists|k: int|
            0 <= k < entries.len() && offer(#[trigger] entries[k]) == Some(offers(entries)[i]),
    decreases entries.len(),
{
    if entries.len() > 0 {
        let init = entries.drop_last();
        lists_hold_every_offer(init, i);
        let kept = offers(init);
        let all = offers(entries);
        if 0 <= i < init.len() && offer(entries[i]) is Some {
            let k = choose|k: int| 0 <= k < kept.len() && kept[k] == offer(init[i])->0;
            assert(all[k] == kept[k]);
        }
        if i == entries.len() - 1 && offer(entries[i]) is Some {
            assert(all[kept.len() as int] == offer(entries[i])->0);
        }
        if 0 <= i < all.len() {
            if i < kept.len() {
                assert(all[i] == kept[i]);
                let k = choose|k: int| 0 <= k < init.len() && offer(#[trigger] init[k]) == Some(kept[i]);
                assert(entries[k] == init[k]);
            } else {
                assert(offer(entries[entries.len() - 1]) == Some(all[i]));
            }
        }
    }
}

/// A reply with the pin is wanted, or any if no pin is given; nothing else is.
pub proof fn replies_are_wanted_by_their_pin(content: SyncContent, pin: Option<Seq<char>>)
    ensures
        content !is Reply ==> !is_wanted(content, pin),
        content is Reply && pin is None ==> is_wanted(content, pin),
        content matches SyncContent::Reply(reply) ==> (pin is Some ==> is_wanted(content, pin) == (reply.request_id@
            == pin->0)),
{
}

} // verus!
