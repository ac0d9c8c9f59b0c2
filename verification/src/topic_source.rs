//! Reading the list of topics of interest from its source, page by page.

use vstd::prelude::*;
use vstd::string::*;
use crate::json::{Json, JsonValue};
use crate::text::{text_of, texts};

verus! {

/// The address of one page of the list for `user_id`: the first page, or the one that
/// `cursor` points to.
pub open spec fn followed_url(user_id: Seq<char>, cursor: Option<Seq<char>>) -> Seq<char> {
    let first = "https://api.twitch.tv/helix/channels/followed?user_id="@ + user_id
        + "&first=100"@;
    match cursor {
        Some(c) => first + "&after="@ + c,
        None => first,
    }
}

/// Builds the address of one page of the list.
pub fn followed_page_url(user_id: &str, cursor: &Option<String>) -> (url: String)
    ensures
        url@ == followed_url(user_id@, text_of(*cursor)),
{
    let first = String::from_str("https://api.twitch.tv/helix/channels/followed?user_id=").concat(
        user_id,
    ).concat("&first=100");
    match cursor {
        Some(c) => first.concat("&after=").concat(c.as_str()),
        None => first,
    }
}

/// The topic ids among `items`, in order: of each item the string under
/// `broadcaster_id`; an item without one is passed over.
pub open spec fn item_ids(items: Seq<JsonValue>) -> Seq<Seq<char>>
    decreases items.len(),
{
    if items.len() == 0 {
        Seq::empty()
    } else {
        let rest = item_ids(items.drop_last());
        match items.last().member_text("broadcaster_id"@) {
            Some(id) => rest.push(id),
            None => rest,
        }
    }
}

/// The topic ids that a page lists: those of the array under `data`, and none where
/// there is no such array.
pub open spec fn page_ids(body: JsonValue) -> Seq<Seq<char>> {
    match body.member("data"@) {
        Some(JsonValue::Array(items)) => item_ids(items),
        _ => Seq::empty(),
    }
}

/// Where the next page is: the string under `pagination.cursor`; none on the last page.
pub open spec fn page_cursor(body: JsonValue) -> Option<Seq<char>> {
    match body.member("pagination"@) {
        Some(p) => p.member_text("cursor"@),
        None => None,
    }
}

/// One page of the list.
#[derive(Debug, PartialEq)]
pub struct Page {
    /// The topic ids that the page lists, in order.
    pub ids: Vec<String>,
    /// Where the next page is; `None` on the last page.
    pub cursor: Option<String>,
}

/// Reads one page from the JSON body of a response.
pub fn read_page(body: &Json) -> (page: Page)
    ensures
        texts(page.ids@) == page_ids(body@),
        text_of(page.cursor) == page_cursor(body@),
{
    let mut ids: Vec<String> = Vec::new();
    assert(texts(ids@) =~= Seq::<Seq<char>>::empty());
    match body.get("data") {
        Some(data) => match data.as_array() {
            Some(items) => {
                let ghost values = data@->Array_0;
                let mut i: usize = 0;
                assert(values.subrange(0, 0) =~= Seq::<JsonValue>::empty());
                while i < items.len()
                    invariant
                        i <= items@.len(),
                        values.len() == items@.len(),
                        forall|k: int| 0 <= k < items@.len() ==> #[trigger] values[k] == items@[k]@,
                        texts(ids@) == item_ids(values.subrange(0, i as int)),
                    decreases items@.len() - i,
                {
                    let ghost seen = values.subrange(0, i as int);
                    let ghost next = values.subrange(0, i + 1);
                    let ghost before = texts(ids@);
                    assert(next.drop_last() =~= seen);
                    assert(next.last() == items@[i as int]@);
                    match items[i].get("broadcaster_id") {
                        Some(v) => match v.as_str() {
                            Some(id) => {
                                ids.push(String::from_str(id));
                                assert(texts(ids@) =~= before.push(id@));
                            },
                            None => {},
                        },
                        None => {},
                    }
                    i = i + 1;
                }
                assert(values.subrange(0, values.len() as int) =~= values);
            },
            None => {},
        },
        None => {},
    }
    let cursor = match body.get("pagination") {
        Some(p) => match p.get("cursor") {
            Some(c) => match c.as_str() {
                Some(s) => Some(String::from_str(s)),
                None => None,
            },
            None => None,
        },
        None => None,
    };
    Page { ids, cursor }
}

/// The reading of the whole list, one page after another.
pub struct FollowedFetch {
    collected: Vec<String>,
    cursor: Option<String>,
    done: bool,
}

impl FollowedFetch {
    /// The topic ids read so far, in the order read.
    pub closed spec fn collected(&self) -> Seq<Seq<char>> {
        texts(self.collected@)
    }

    /// Where the next page is, if one was named.
    pub closed spec fn cursor(&self) -> Option<Seq<char>> {
        text_of(self.cursor)
    }

    /// Whether the last page was read.
    pub closed spec fn done(&self) -> bool {
        self.done
    }

    /// Nothing read yet; the first page is next.
    pub fn new() -> (fetch: Self)
        ensures
            fetch.collected() == Seq::<Seq<char>>::empty(),
            fetch.cursor() is None,
            !fetch.done(),
    {
        let fetch = FollowedFetch { collected: Vec::new(), cursor: None, done: false };
        assert(fetch.collected() =~= Seq::<Seq<char>>::empty());
        fetch
    }

    /// The address of the page to get next; `None` once the last page was read.
    pub fn next_url(&self, user_id: &str) -> (url: Option<String>)
        ensures
            self.done() ==> url is None,
            !self.done() ==> text_of(url) == Some(followed_url(user_id@, self.cursor())),
    {
        if self.done {
            None
        } else {
            Some(followed_page_url(user_id, &self.cursor))
        }
    }

    /// Takes the body of the page just got: its ids join those read, and the reading
    /// goes on where the page names a next one.
    pub fn on_page(&mut self, body: &Json)
        ensures
            final(self).collected() == old(self).collected() + page_ids(body@),
            final(self).cursor() == page_cursor(body@),
            final(self).done() == (page_cursor(body@) is None),
    {
        let page = read_page(body);
        let mut ids = page.ids;
        let ghost before = texts(self.collected@);
        let ghost more = texts(ids@);
        self.collected.append(&mut ids);
        assert(texts(self.collected@) =~= before + more);
        self.done = page.cursor.is_none();
        self.cursor = page.cursor;
    }

    /// The list as read: every topic id once, in dictionary order.
    pub fn finish(self) -> (list: Vec<String>)
        ensures
            crate::sorting::strictly_sorted(texts(list@)),
            texts(list@).no_duplicates(),
            texts(list@).to_set() == self.collected().to_set(),
    {
        crate::sorting::sorted_distinct(&self.collected)
    }
}

} // verus!
