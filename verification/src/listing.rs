//! Reading a session's complete tool listing page by page.

use vstd::prelude::*;

use crate::clock::{Duration, Instant, NANOS_PER_SEC};
use crate::health::UpstreamErrorClass;
use crate::names::has_name;
use crate::text::{decimal, decimal_digits, join3};
use crate::tools::{Descriptor, Tool};

verus! {

/// Most pages accepted from one session. It bounds requests and memory against
/// an endless stream of distinct cursors.
pub const MAX_TOOLS_LIST_PAGES: usize = 50;

/// One session's complete listing, with the freshness hint it came with.
#[derive(Debug, PartialEq, Eq)]
pub struct ListedCatalog {
    /// Every tool of every page, in order.
    pub tools: Vec<Tool>,
    /// The strictest hint of any page, in milliseconds; nothing if no page
    /// carried one.
    pub ttl_hint_ms: Option<u64>,
    /// When the reading began, which is no later than any page was made.
    pub listed_at: Instant,
}

/// One page of a listing.
#[derive(Debug, PartialEq, Eq)]
pub struct ListedPage {
    pub tools: Vec<Tool>,
    pub ttl_ms: Option<u64>,
    pub next_cursor: Option<String>,
}

/// What a [`ListedPage`] says.
#[verifier::ext_equal]
pub struct Page {
    pub tools: Seq<Descriptor>,
    pub ttl_ms: Option<u64>,
    pub next_cursor: Option<Seq<char>>,
}

impl DeepView for ListedPage {
    type V = Page;

    open spec fn deep_view(&self) -> Page {
        Page {
            tools: self.tools.deep_view(),
            ttl_ms: self.ttl_ms,
            next_cursor: self.next_cursor.deep_view(),
        }
    }
}

/// A listing being read.
pub struct ToolsListing {
    pub tools: Vec<Tool>,
    pub ttl_hint_ms: Option<u64>,
    pub seen_cursors: Vec<String>,
    pub pages: usize,
    pub listed_at: Instant,
}

/// What has been read so far.
#[verifier::ext_equal]
pub struct Reading {
    pub tools: Seq<Descriptor>,
    pub ttl_hint_ms: Option<u64>,
    pub seen_cursors: Seq<Seq<char>>,
    pub pages: nat,
}

/// The stricter of two hints.
pub open spec fn stricter(a: Option<u64>, b: Option<u64>) -> Option<u64> {
    match (a, b) {
        (Some(x), Some(y)) => if x <= y {
            Some(x)
        } else {
            Some(y)
        },
        (Some(x), None) => Some(x),
        (None, b) => b,
    }
}

impl Reading {
    pub open spec fn start() -> Self {
        Reading { tools: Seq::empty(), ttl_hint_ms: None, seen_cursors: Seq::empty(), pages: 0 }
    }

    /// What has been read with one more page.
    pub open spec fn with_page(self, page: Page) -> Self {
        Reading {
            tools: self.tools + page.tools,
            ttl_hint_ms: stricter(self.ttl_hint_ms, page.ttl_ms),
            seen_cursors: match page.next_cursor {
                Some(next) if !self.seen_cursors.contains(next) => self.seen_cursors.push(next),
                _ => self.seen_cursors,
            },
            pages: self.pages + 1,
        }
    }
}

/// What to do after a page.
#[derive(Debug, PartialEq, Eq)]
pub enum ListingStep {
    /// Request the page at this cursor.
    Next(String),
    /// The listing is complete.
    Complete,
    /// The listing cannot be completed, with the reason.
    Refused(String),
}

impl ToolsListing {
    pub open spec fn read(self) -> Reading {
        Reading {
            tools: self.tools.deep_view(),
            ttl_hint_ms: self.ttl_hint_ms,
            seen_cursors: self.seen_cursors.deep_view(),
            pages: self.pages as nat,
        }
    }

    /// Begin a listing, before its first page is requested.
    pub fn begin(listed_at: Instant) -> (r: Self)
        ensures
            r.read() == Reading::start(),
            r.listed_at == listed_at,
    {
        let r = ToolsListing {
            tools: Vec::new(),
            ttl_hint_ms: None,
            seen_cursors: Vec::new(),
            pages: 0,
            listed_at,
        };
        proof {
            assert(r.read() =~= Reading::start());
        }
        r
    }

    /// Whether another page may be requested; the refusal otherwise.
    pub fn may_request(&self) -> (r: Result<(), String>)
        ensures
            r is Ok <==> self.pages != MAX_TOOLS_LIST_PAGES,
            r is Err ==> r->Err_0@ == "upstream exceeded the "@ + decimal_digits(
                MAX_TOOLS_LIST_PAGES as nat,
            ) + "-page tools/list limit"@,
    {
        if self.pages == MAX_TOOLS_LIST_PAGES {
            let limit = decimal(MAX_TOOLS_LIST_PAGES as u128);
            return Err(
                join3("upstream exceeded the ", limit.as_str(), "-page tools/list limit"),
            );
        }
        Ok(())
    }

    /// Take in one page. A cursor seen before would loop for ever and ends the
    /// reading.
    pub fn accept(&mut self, page: ListedPage) -> (step: ListingStep)
        requires
            old(self).pages < MAX_TOOLS_LIST_PAGES,
        ensures
            final(self).read() == old(self).read().with_page(page.deep_view()),
            final(self).listed_at == old(self).listed_at,
            match page.next_cursor {
                None => step is Complete,
                Some(next) => if old(self).seen_cursors.deep_view().contains(next@) {
                    step is Refused && step->Refused_0@ == "upstream repeated tools/list cursor `"@
                        + next@ + "`"@
                } else {
                    step is Next && step->Next_0@ == next@
                },
            },
    {
        let ghost before = self.read();
        let ghost meaning = page.deep_view();
        let ListedPage { tools, ttl_ms, next_cursor } = page;
        let mut listed = tools;
        let ghost start = self.tools@;
        let ghost added = listed@;
        self.tools.append(&mut listed);
        proof {
            assert(self.tools@ =~= start + added);
            assert(self.tools.deep_view() =~= before.tools + meaning.tools);
        }
        self.ttl_hint_ms = match (self.ttl_hint_ms, ttl_ms) {
            (Some(x), Some(y)) => if x <= y {
                Some(x)
            } else {
                Some(y)
            },
            (Some(x), None) => Some(x),
            (None, hint) => hint,
        };
        self.pages = self.pages + 1;
        match next_cursor {
            None => {
                proof {
                    assert(self.read() =~= before.with_page(meaning));
                }
                ListingStep::Complete
            },
            Some(next) => {
                if has_name(&self.seen_cursors, next.as_str()) {
                    proof {
                        assert(self.read() =~= before.with_page(meaning));
                    }
                    return ListingStep::Refused(
                        join3("upstream repeated tools/list cursor `", next.as_str(), "`"),
                    );
                }
                let ghost cursors = self.seen_cursors.deep_view();
                self.seen_cursors.push(next.clone());
                proof {
                    assert(self.seen_cursors.deep_view() =~= cursors.push(next@));
                    assert(self.read() =~= before.with_page(meaning));
                }
                ListingStep::Next(next)
            },
        }
    }

    /// The complete listing.
    pub fn finish(self) -> (r: ListedCatalog)
        ensures
            r.tools == self.tools,
            r.ttl_hint_ms == self.ttl_hint_ms,
            r.listed_at == self.listed_at,
    {
        ListedCatalog {
            tools: self.tools,
            ttl_hint_ms: self.ttl_hint_ms,
            listed_at: self.listed_at,
        }
    }
}

/// Why a session's listing could not be read for a call.
#[derive(Debug, PartialEq, Eq)]
pub struct SessionToolsReadError {
    pub detail: String,
    pub error_class: UpstreamErrorClass,
}

impl SessionToolsReadError {
    pub fn error_class(&self) -> (r: UpstreamErrorClass)
        ensures
            r == self.error_class,
    {
        self.error_class
    }

    pub fn detail(&self) -> (r: &str)
        ensures
            r@ == self.detail@,
    {
        self.detail.as_str()
    }

    /// The listing was refused or broke off.
    pub fn refused(detail: String) -> (r: Self)
        ensures
            r.detail == detail,
            r.error_class == UpstreamErrorClass::Protocol,
    {
        SessionToolsReadError { detail, error_class: UpstreamErrorClass::Protocol }
    }

    /// The listing was not complete in time.
    pub fn timed_out(limit: Duration) -> (r: Self)
        ensures
            r.detail@ == "tools/list did not complete within "@ + decimal_digits(
                (limit.nanos / NANOS_PER_SEC) as nat,
            ) + "s"@,
            r.error_class == UpstreamErrorClass::Timeout,
    {
        let secs = decimal(limit.nanos / NANOS_PER_SEC);
        SessionToolsReadError {
            detail: join3("tools/list did not complete within ", secs.as_str(), "s"),
            error_class: UpstreamErrorClass::Timeout,
        }
    }
}

/// What has been read after a row of pages.
pub open spec fn reading_of(pages: Seq<Page>) -> Reading
    decreases pages.len(),
{
    if pages.len() == 0 {
        Reading::start()
    } else {
        reading_of(pages.drop_last()).with_page(pages.last())
    }
}

/// The tools of a row of pages, one after the other.
pub open spec fn all_tools(pages: Seq<Page>) -> Seq<Descriptor>
    decreases pages.len(),
{
    if pages.len() == 0 {
        Seq::empty()
    } else {
        all_tools(pages.drop_last()) + pages.last().tools
    }
}

/// A listing holds every tool of every page in order, and its hint is the
/// strictest one: no page asks for less, and some page asks for it. Without a
/// hint on any page there is none.
pub proof fn listing_is_complete_and_strictest(pages: Seq<Page>)
    ensures
        reading_of(pages).tools == all_tools(pages),
        reading_of(pages).pages == pages.len(),
        match reading_of(pages).ttl_hint_ms {
            Some(hint) => {
                &&& exists|i: int|
                    0 <= i < pages.len() && (#[trigger] pages[i]).ttl_ms == Some(hint)
                &&& forall|i: int|
                    0 <= i < pages.len() && (#[trigger] pages[i]).ttl_ms is Some ==> hint
                        <= pages[i].ttl_ms->0
            },
            None => forall|i: int|
                0 <= i < pages.len() ==> (#[trigger] pages[i]).ttl_ms is None,
        },
    decreases pages.len(),
{
    if pages.len() > 0 {
        let front = pages.drop_last();
        listing_is_complete_and_strictest(front);
        let n = pages.len() - 1;
        assert(pages[n] == pages.last());
        match reading_of(front).ttl_hint_ms {
            Some(hint) => {
                let i = choose|i: int|
                    0 <= i < front.len() && (#[trigger] front[i]).ttl_ms == Some(hint);
                assert(pages[i] == front[i]);
                assert forall|i: int|
                    0 <= i < pages.len() && (#[trigger] pages[i]).ttl_ms is Some implies reading_of(
                    pages,
                ).ttl_hint_ms->0 <= pages[i].ttl_ms->0 by {
                    if i < n {
                        assert(front[i] == pages[i]);
                    }
                }
            },
            None => {
                assert forall|i: int| 0 <= i < n implies (#[trigger] pages[i]).ttl_ms is None by {
                    assert(front[i] == pages[i]);
                }
            },
        }
    }
}

/// The stricter of two hints is the smaller one, and one that is there before
/// one that is not.
pub proof fn the_smaller_hint_is_stricter(a: u64, b: u64)
    ensures
        a <= b ==> stricter(Some(a), Some(b)) == Some(a) && stricter(Some(b), Some(a)) == Some(a),
        stricter(Some(a), None) == Some(a),
        stricter(None, Some(a)) == Some(a),
        stricter(None, None) is None,
{
}

/// A page adds its tools behind those read before, keeps the stricter hint, counts
/// once, and its cursor is remembered where it is new.
pub proof fn a_page_adds_to_the_reading(reading: Reading, page: Page, cursor: Seq<char>)
    ensures
        reading.with_page(page).tools == reading.tools + page.tools,
        reading.with_page(page).ttl_hint_ms == stricter(reading.ttl_hint_ms, page.ttl_ms),
        reading.with_page(page).pages == reading.pages + 1,
        reading.with_page(page).seen_cursors.contains(cursor) <==> reading.seen_cursors.contains(
            cursor,
        ) || page.next_cursor == Some(cursor),
        Reading::start().tools.len() == 0,
        Reading::start().ttl_hint_ms is None,
        Reading::start().seen_cursors.len() == 0,
        Reading::start().pages == 0,
{
    let before = reading.seen_cursors;
    let after = reading.with_page(page).seen_cursors;
    if page.next_cursor is Some && !before.contains(page.next_cursor->0) {
        let next = page.next_cursor->0;
        assert(after == before.push(next));
        assert(after[before.len() as int] == next);
        if before.contains(cursor) {
            let i = choose|i: int| 0 <= i < before.len() && before[i] == cursor;
            assert(after[i] == cursor);
        }
    }
}

/// The tools of a listing are those of its pages, in order.
pub proof fn pages_give_their_tools_in_order(pages: Seq<Page>, page: Page)
    ensures
        all_tools(Seq::empty()).len() == 0,
        all_tools(pages.push(page)) == all_tools(pages) + page.tools,
        reading_of(pages.push(page)) == reading_of(pages).with_page(page),
        reading_of(Seq::empty()) == Reading::start(),
{
    assert(pages.push(page).drop_last() =~= pages);
}

/// The view of a listed page says every field of it as it is.
pub proof fn listed_page_is_said_whole(value: ListedPage)
    ensures
        value.deep_view().tools == value.tools.deep_view(),
        value.deep_view().ttl_ms == value.ttl_ms.deep_view(),
        value.deep_view().next_cursor == value.next_cursor.deep_view(),
{
}

} // verus!
