//! The list of streamers as the application shows it.

use vstd::prelude::*;
use vstd::string::*;

verus! {

/// One streamer with what is known of the stream.
#[derive(Debug, PartialEq)]
pub struct Broadcasters {
    pub broadcaster_id: String,
    pub broadcaster_name: String,
    pub category: String,
    pub title: String,
    pub is_live: bool,
    pub profile_picture: Option<String>,
}

/// The streamers that are live and those that are not.
#[derive(Debug, PartialEq)]
pub struct Listing {
    pub online: Vec<Broadcasters>,
    pub offline: Vec<Broadcasters>,
}

/// The address of a streamer's page.
pub open spec fn broadcaster_page(name: Seq<char>) -> Seq<char> {
    "https://twitch.tv/"@ + name
}

/// Builds the address of a streamer's page.
pub fn open_broadcaster_url(broadcaster_name: &str) -> (url: String)
    ensures
        url@ == broadcaster_page(broadcaster_name@),
{
    String::from_str("https://twitch.tv/").concat(broadcaster_name)
}

/// The streamers of `all` whose liveness is `live`, in order.
pub open spec fn with_liveness(all: Seq<Broadcasters>, live: bool) -> Seq<Broadcasters>
    decreases all.len(),
{
    if all.len() == 0 {
        Seq::empty()
    } else {
        let rest = with_liveness(all.drop_last(), live);
        if all.last().is_live == live {
            rest.push(all.last())
        } else {
            rest
        }
    }
}

/// Parts a list of streamers into those that are live and those that are not, each
/// part in the order of the list.
pub fn partition_live(streamers: Vec<Broadcasters>) -> (listing: Listing)
    ensures
        listing.online@ == with_liveness(streamers@, true),
        listing.offline@ == with_liveness(streamers@, false),
{
    let ghost all = streamers@;
    let mut online: Vec<Broadcasters> = Vec::new();
    let mut offline: Vec<Broadcasters> = Vec::new();
    assert(all.subrange(0, 0) =~= Seq::<Broadcasters>::empty());
    for streamer in iter: streamers
        invariant
            iter.seq() == all,
            online@ == with_liveness(all.subrange(0, iter.index() as int), true),
            offline@ == with_liveness(all.subrange(0, iter.index() as int), false),
    {
        let ghost seen = all.subrange(0, iter.index() as int);
        let ghost next = all.subrange(0, iter.index() + 1);
        assert(next.drop_last() =~= seen);
        assert(next.last() == streamer);
        if streamer.is_live {
            online.push(streamer);
        } else {
            offline.push(streamer);
        }
    }
    assert(all.subrange(0, all.len() as int) =~= all);
    Listing { online, offline }
}

} // verus!
