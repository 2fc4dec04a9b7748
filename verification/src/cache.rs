//! The server's cache of listings and players: how the listings are made
//! from the configuration, when they are refreshed, how answers are
//! folded in, and what the pages are told.
use vstd::prelude::*;
use std::collections::HashMap;
use crate::listing::{
    ListingModel, ServerListing, ServerListingStatus, WSClientMsg, WSServerMsg, dup_opt,
    listing_views, opt_view, string_views,
};
use crate::status::Refresh;

verus! {

broadcast use vstd::std_specs::hash::group_hash_axioms;

// ---------------------------------------------------------------------
// Listings from the configuration
// ---------------------------------------------------------------------

/// One game of the configuration and the addresses of its servers.
pub struct GameListing {
    pub game: String,
    pub icon: Option<String>,
    pub rconpass: Option<String>,
    pub servers: Vec<String>,
}

/// The model of a [`GameListing`].
pub struct GameModel {
    pub game: Seq<char>,
    pub icon: Option<Seq<char>>,
    pub rconpass: Option<Seq<char>>,
    pub servers: Seq<Seq<char>>,
}

impl View for GameListing {
    type V = GameModel;

    open spec fn view(&self) -> GameModel {
        GameModel {
            game: self.game@,
            icon: opt_view(self.icon),
            rconpass: opt_view(self.rconpass),
            servers: string_views(self.servers@),
        }
    }
}

/// The models of a sequence of games.
pub open spec fn game_views(v: Seq<GameListing>) -> Seq<GameModel> {
    v.map_values(|g: GameListing| g@)
}

/// How many servers the games have in all.
pub open spec fn server_total(games: Seq<GameModel>) -> nat
    decreases games.len(),
{
    if games.len() == 0 {
        0
    } else {
        server_total(games.drop_last()) + games.last().servers.len()
    }
}

/// The listing, not yet queried, of the server at `addr` of game `g`.
pub open spec fn new_listing(g: GameModel, addr: Seq<char>, id: int) -> ListingModel {
    ListingModel {
        id: id as u16,
        game: g.game,
        addr,
        status: ServerListingStatus::Pending,
        name: seq![],
        icon_name: g.icon,
        info: None,
        rcon_password: g.rconpass,
    }
}

/// The listings of one game's servers, numbered from `first`.
pub open spec fn game_listings(g: GameModel, first: int) -> Seq<ListingModel> {
    Seq::new(g.servers.len(), |k: int| new_listing(g, g.servers[k], first + k))
}

/// The listings of all servers of all games, in order, numbered from 0.
pub open spec fn initial_listings(games: Seq<GameModel>) -> Seq<ListingModel>
    decreases games.len(),
{
    if games.len() == 0 {
        seq![]
    } else {
        initial_listings(games.drop_last()) + game_listings(
            games.last(),
            server_total(games.drop_last()) as int,
        )
    }
}

/// Makes the listings of the configured servers: one per server, in the
/// order of the configuration, each numbered by its position.
pub fn build_listings(games: &Vec<GameListing>) -> (r: Vec<ServerListing>)
    requires
        server_total(game_views(games@)) <= 65535,
    ensures
        listing_views(r@) == initial_listings(game_views(games@)),
{
    let ghost gv = game_views(games@);
    let mut out: Vec<ServerListing> = Vec::new();
    let mut next_id: u16 = 0;
    let mut gi: usize = 0;
    assert(gv.take(0) =~= Seq::<GameModel>::empty());
    assert(listing_views(out@) =~= Seq::<ListingModel>::empty());
    while gi < games.len()
        invariant
            gi <= games.len(),
            gv == game_views(games@),
            server_total(gv) <= 65535,
            listing_views(out@) == initial_listings(gv.take(gi as int)),
            next_id == server_total(gv.take(gi as int)),
        decreases games.len() - gi,
    {
        let g = &games[gi];
        assert(gv.take(gi + 1).drop_last() =~= gv.take(gi as int));
        assert(gv.take(gi + 1).last() == g@);
        proof {
            lemma_total_prefix(gv, gi + 1);
        }
        let ghost before = listing_views(out@);
        let mut si: usize = 0;
        while si < g.servers.len()
            invariant
                gi < games.len(),
                g == games@[gi as int],
                si <= g.servers.len(),
                next_id == server_total(gv.take(gi as int)) + si,
                server_total(gv.take(gi as int)) + g.servers@.len() <= 65535,
                listing_views(out@) == before + game_listings(
                    g@,
                    server_total(gv.take(gi as int)) as int,
                ).take(si as int),
            decreases g.servers.len() - si,
        {
            let listing = ServerListing {
                id: next_id,
                game: g.game.clone(),
                addr: g.servers[si].clone(),
                status: ServerListingStatus::Pending,
                name: String::new(),
                icon_name: dup_opt(&g.icon),
                info: None,
                rcon_password: dup_opt(&g.rconpass),
            };
            let ghost old_out = out@;
            out.push(listing);
            proof {
                let first = server_total(gv.take(gi as int)) as int;
                let gl = game_listings(g@, first);
                assert(g@.servers[si as int] == g.servers@[si as int]@);
                assert(gl[si as int] == listing@);
                assert(listing_views(out@) =~= listing_views(old_out).push(listing@));
                assert(gl.take(si + 1) =~= gl.take(si as int).push(gl[si as int]));
            }
            next_id = next_id + 1;
            si = si + 1;
        }
        assert(game_listings(g@, server_total(gv.take(gi as int)) as int).take(
            g.servers.len() as int,
        ) =~= game_listings(g@, server_total(gv.take(gi as int)) as int));
        gi = gi + 1;
    }
    assert(gv.take(games.len() as int) =~= gv);
    out
}

/// The servers of a prefix of the games are no more than all of them.
pub proof fn lemma_total_prefix(games: Seq<GameModel>, k: int)
    requires
        0 <= k <= games.len(),
    ensures
        server_total(games.take(k)) <= server_total(games),
    decreases games.len(),
{
    if k < games.len() {
        assert(games.drop_last().take(k) =~= games.take(k));
        lemma_total_prefix(games.drop_last(), k);
    } else {
        assert(games.take(k) =~= games);
    }
}

/// The listings made from the configuration are numbered by their
/// position: the `k`-th has the id `k`.
pub proof fn lemma_listing_ids(games: Seq<GameModel>, k: int)
    requires
        0 <= k < initial_listings(games).len(),
        server_total(games) <= 65535,
    ensures
        initial_listings(games)[k].id == k,
        initial_listings(games).len() == server_total(games),
    decreases games.len(),
{
    lemma_listing_count(games);
    if games.len() > 0 {
        let rest = games.drop_last();
        let n = server_total(rest);
        lemma_listing_count(rest);
        if k < n {
            lemma_listing_ids(rest, k);
        }
    }
}

/// The servers of the first `g + 1` games are those of the first `g`
/// and those of game `g`.
pub proof fn lemma_total_step(games: Seq<GameModel>, g: int)
    requires
        0 <= g < games.len(),
    ensures
        server_total(games.take(g + 1)) == server_total(games.take(g)) + games[g].servers.len(),
{
    assert(games.take(g + 1).drop_last() =~= games.take(g));
}

/// Each server of the configuration has its listing, at the position that
/// counts the servers before it: it carries that position as its id, its
/// game's name, icon and RCON password (none where the game has none),
/// the server's address, and is not yet queried, with no name and no
/// game information.
pub proof fn lemma_listing_of_server(games: Seq<GameModel>, g: int, s: int)
    requires
        0 <= g < games.len(),
        0 <= s < games[g].servers.len(),
        server_total(games) <= 65535,
    ensures
        server_total(games.take(g)) + s < initial_listings(games).len(),
        initial_listings(games)[server_total(games.take(g)) + s].id == server_total(games.take(g))
            + s,
        initial_listings(games)[server_total(games.take(g)) + s].game == games[g].game,
        initial_listings(games)[server_total(games.take(g)) + s].addr == games[g].servers[s],
        initial_listings(games)[server_total(games.take(g)) + s].icon_name == games[g].icon,
        initial_listings(games)[server_total(games.take(g)) + s].rcon_password
            == games[g].rconpass,
        initial_listings(games)[server_total(games.take(g)) + s].status
            == ServerListingStatus::Pending,
        initial_listings(games)[server_total(games.take(g)) + s].name.len() == 0,
        initial_listings(games)[server_total(games.take(g)) + s].info is None,
    decreases games.len(),
{
    let rest = games.drop_last();
    lemma_listing_count(games);
    lemma_listing_count(rest);
    lemma_total_step(games, g);
    lemma_total_prefix(games, g + 1);
    if g == games.len() - 1 {
        assert(games.take(g) =~= rest);
    } else {
        assert(rest.take(g) =~= games.take(g));
        assert(rest.take(g + 1) =~= games.take(g + 1));
        lemma_total_prefix(rest, g + 1);
        lemma_total_prefix(games, games.len() - 1);
        assert(games.take(games.len() - 1) =~= rest);
        lemma_listing_of_server(rest, g, s);
    }
}

/// There is one listing per configured server.
pub proof fn lemma_listing_count(games: Seq<GameModel>)
    ensures
        initial_listings(games).len() == server_total(games),
    decreases games.len(),
{
    if games.len() > 0 {
        lemma_listing_count(games.drop_last());
    }
}

// ---------------------------------------------------------------------
// The cache
// ---------------------------------------------------------------------

/// How long (in nanoseconds) a refresh of all servers is good for.
pub open spec fn refresh_interval() -> u128 {
    120_000_000_000
}

/// Whether a refresh is due at `now`, the last one having been at `last`
/// (`None`: never). Times are nanoseconds since the Unix epoch.
pub open spec fn refresh_due(last: Option<u128>, now: u128) -> bool {
    match last {
        None => true,
        Some(t) => now - t >= refresh_interval(),
    }
}

/// Whether a refresh is due at `now`, the last one having been at `last`.
pub fn refresh_due_exec(last: Option<u128>, now: u128) -> (b: bool)
    requires
        last matches Some(t) ==> t <= now,
    ensures
        b == refresh_due(last, now),
{
    match last {
        None => true,
        Some(t) => now - t >= 120_000_000_000,
    }
}

/// The listings of all servers, when they were last refreshed, and the
/// players last reported by each.
pub struct ServerCache {
    pub listings: Vec<ServerListing>,
    pub last_refresh: Option<u128>,
    pub players: HashMap<u16, Vec<String>>,
}

/// The model of a [`ServerCache`].
pub struct CacheModel {
    pub listings: Seq<ListingModel>,
    pub last_refresh: Option<u128>,
    pub players: Map<u16, Seq<Seq<char>>>,
}

impl View for ServerCache {
    type V = CacheModel;

    open spec fn view(&self) -> CacheModel {
        CacheModel {
            listings: listing_views(self.listings@),
            last_refresh: self.last_refresh,
            players: self.players@.map_values(|v: Vec<String>| string_views(v@)),
        }
    }
}

/// The players known for the server `id`: those last reported, or none.
pub open spec fn known_players(c: CacheModel, id: u16) -> Seq<Seq<char>> {
    if c.players.contains_key(id) {
        c.players[id]
    } else {
        seq![]
    }
}

/// What a request for the entries leads to: the reply to the requester
/// (if any), and the listings to query (if a refresh is due).
pub struct StreamPlan {
    pub reply: Option<WSServerMsg>,
    pub queries: Option<Vec<ServerListing>>,
}

/// The cache after a stream of the entries was started at `now`: the
/// refresh time moves to `now` where a refresh was due.
pub open spec fn after_stream(c: CacheModel, now: u128) -> CacheModel {
    if refresh_due(c.last_refresh, now) {
        CacheModel { last_refresh: Some(now), ..c }
    } else {
        c
    }
}

/// The cache after the answer of the server at position `i` was folded
/// in: its players are remembered where the answer listed them, and the
/// listing replaced where it is to be published.
pub open spec fn after_answer(
    c: CacheModel,
    i: int,
    listing: ListingModel,
    players: Option<Seq<Seq<char>>>,
    publish: bool,
) -> CacheModel {
    CacheModel {
        listings: if publish {
            c.listings.update(i, listing)
        } else {
            c.listings
        },
        players: match players {
            Some(p) => c.players.insert(listing.id, p),
            None => c.players,
        },
        ..c
    }
}

/// What starting a stream of the entries at `now` does, for a requester
/// (`requested`) or for the pages at large: the cache moves on as
/// [`after_stream`] says; the requester, and only a requester, gets the
/// listings as they were; and every listing is to be queried exactly
/// when a refresh is due.
pub open spec fn streamed(
    c0: CacheModel,
    c1: CacheModel,
    requested: bool,
    now: u128,
    p: StreamPlan,
) -> bool {
    &&& c1 == after_stream(c0, now)
    &&& match p.reply {
        Some(m) => requested && m@ == crate::listing::ServerMsgModel::ResEntries(c0.listings),
        None => !requested,
    }
    &&& match p.queries {
        Some(q) => refresh_due(c0.last_refresh, now) && listing_views(q@) == c0.listings,
        None => !refresh_due(c0.last_refresh, now),
    }
}

/// A copy of a vector of strings.
pub fn dup_strings(v: &Vec<String>) -> (r: Vec<String>)
    ensures
        string_views(r@) == string_views(v@),
{
    let mut r: Vec<String> = Vec::new();
    let mut i: usize = 0;
    while i < v.len()
        invariant
            i <= v.len(),
            string_views(r@) == string_views(v@).take(i as int),
        decreases v.len() - i,
    {
        let ghost old_r = r@;
        r.push(v[i].clone());
        assert(string_views(r@) =~= string_views(old_r).push(v@[i as int]@));
        assert(string_views(v@).take(i + 1) =~= string_views(v@).take(i as int).push(
            v@[i as int]@,
        ));
        i = i + 1;
    }
    assert(string_views(v@).take(v.len() as int) =~= string_views(v@));
    r
}

/// A copy of a vector of listings.
pub fn dup_listings(v: &Vec<ServerListing>) -> (r: Vec<ServerListing>)
    ensures
        listing_views(r@) == listing_views(v@),
{
    let mut r: Vec<ServerListing> = Vec::new();
    let mut i: usize = 0;
    while i < v.len()
        invariant
            i <= v.len(),
            listing_views(r@) == listing_views(v@).take(i as int),
        decreases v.len() - i,
    {
        let ghost old_r = r@;
        r.push(v[i].duplicate());
        assert(listing_views(r@) =~= listing_views(old_r).push(v@[i as int]@));
        assert(listing_views(v@).take(i + 1) =~= listing_views(v@).take(i as int).push(
            v@[i as int]@,
        ));
        i = i + 1;
    }
    assert(listing_views(v@).take(v.len() as int) =~= listing_views(v@));
    r
}

impl ServerCache {
    /// A cache of these listings, never refreshed, with no players known.
    pub fn new(listings: Vec<ServerListing>) -> (c: Self)
        ensures
            c@.listings == listing_views(listings@),
            c@.last_refresh is None,
            c@.players == Map::<u16, Seq<Seq<char>>>::empty(),
    {
        let c = ServerCache { listings, last_refresh: None, players: HashMap::new() };
        assert(c@.players =~= Map::<u16, Seq<Seq<char>>>::empty());
        c
    }

    /// The players known for the server `id`.
    pub fn players_for(&self, id: u16) -> (r: Vec<String>)
        ensures
            string_views(r@) == known_players(self@, id),
    {
        match self.players.get(&id) {
            Some(v) => dup_strings(v),
            None => {
                let r: Vec<String> = Vec::new();
                assert(string_views(r@) =~= Seq::<Seq<char>>::empty());
                r
            },
        }
    }

    /// Starts a stream of the entries at `now`: the current listings go to
    /// the requester (where there is one), and, where a refresh is due,
    /// the refresh time moves to `now` and every listing is to be queried.
    pub fn stream_entries(&mut self, requested: bool, now: u128) -> (p: StreamPlan)
        requires
            old(self).last_refresh matches Some(t) ==> t <= now,
        ensures
            streamed(old(self)@, final(self)@, requested, now, p),
    {
        let reply = if requested {
            Some(WSServerMsg::ResEntries(dup_listings(&self.listings)))
        } else {
            None
        };
        if !refresh_due_exec(self.last_refresh, now) {
            return StreamPlan { reply, queries: None };
        }
        let queries = dup_listings(&self.listings);
        self.last_refresh = Some(now);
        StreamPlan { reply, queries: Some(queries) }
    }

    /// Folds in the answer of the server at position `i`: remembers the
    /// players it listed, and where the listing is to be published,
    /// stores it and returns the message that tells the pages.
    pub fn apply_answer(&mut self, i: usize, r: Refresh) -> (m: Option<WSServerMsg>)
        requires
            i < old(self)@.listings.len(),
        ensures
            final(self)@ == after_answer(
                old(self)@,
                i as int,
                r.listing@,
                match r.players {
                    Some(v) => Some(string_views(v@)),
                    None => None,
                },
                r.publish,
            ),
            match m {
                Some(msg) => r.publish && msg@ == crate::listing::ServerMsgModel::ResEntries(
                    seq![r.listing@],
                ),
                None => !r.publish,
            },
    {
        let ghost old_players = self@.players;
        let id = r.listing.id;
        match r.players {
            Some(names) => {
                let ghost nv = string_views(names@);
                self.players.insert(id, names);
                assert(self@.players =~= old_players.insert(id, nv));
            },
            None => {},
        }
        if r.publish {
            let copy = r.listing.duplicate();
            let ghost old_listings = self.listings@;
            self.listings.set(i, r.listing);
            assert(listing_views(self.listings@) =~= listing_views(old_listings).update(
                i as int,
                copy@,
            ));
            let mut one: Vec<ServerListing> = Vec::new();
            one.push(copy);
            assert(listing_views(one@) =~= seq![copy@]);
            Some(WSServerMsg::ResEntries(one))
        } else {
            None
        }
    }

    /// Answers a request from a page at `now`: a request for the entries
    /// starts a stream, and a request for players is answered from what
    /// is known.
    pub fn handle_request(&mut self, msg: WSClientMsg, now: u128) -> (p: StreamPlan)
        requires
            msg == WSClientMsg::ReqEntries ==> (old(self).last_refresh matches Some(t) ==> t
                <= now),
        ensures
            match msg {
                WSClientMsg::ReqEntries => streamed(old(self)@, final(self)@, true, now, p),
                WSClientMsg::ReqPlayers(id) => {
                    &&& final(self)@ == old(self)@
                    &&& p.queries is None
                    &&& (p.reply matches Some(m) && m@ == crate::listing::ServerMsgModel::ResPlayers(
                        id,
                        known_players(old(self)@, id),
                    ))
                },
                WSClientMsg::Invalid => final(self)@ == old(self)@ && p.reply is None
                    && p.queries is None,
            },
    {
        match msg {
            WSClientMsg::ReqEntries => self.stream_entries(true, now),
            WSClientMsg::ReqPlayers(id) => {
                let names = self.players_for(id);
                StreamPlan { reply: Some(WSServerMsg::ResPlayers(id, names)), queries: None }
            },
            WSClientMsg::Invalid => StreamPlan { reply: None, queries: None },
        }
    }

    /// The periodic refresh: when pages are listening, stream the entries
    /// to them.
    pub fn tick(&mut self, listeners: usize, now: u128) -> (q: Option<Vec<ServerListing>>)
        requires
            listeners > 0 ==> (old(self).last_refresh matches Some(t) ==> t <= now),
        ensures
            listeners == 0 ==> final(self)@ == old(self)@ && q is None,
            listeners > 0 ==> streamed(
                old(self)@,
                final(self)@,
                false,
                now,
                (StreamPlan { reply: None, queries: q }),
            ),
    {
        if listeners > 0 {
            self.stream_entries(false, now).queries
        } else {
            None
        }
    }
}

// ---------------------------------------------------------------------
// Laws
// ---------------------------------------------------------------------

/// After a refresh starts, no other starts until the interval has passed.
pub proof fn lemma_refresh_spacing(c: CacheModel, now: u128, later: u128)
    requires
        refresh_due(c.last_refresh, now),
        now <= later,
        later - now < refresh_interval(),
    ensures
        after_stream(c, now).last_refresh == Some(now),
        !refresh_due(after_stream(c, now).last_refresh, later),
{
}

/// A published answer is what the cache then holds at that position,
/// and the players it listed are what a request for them returns.
pub proof fn lemma_answer_read_back(
    c: CacheModel,
    i: int,
    listing: ListingModel,
    players: Seq<Seq<char>>,
)
    requires
        0 <= i < c.listings.len(),
    ensures
        after_answer(c, i, listing, Some(players), true).listings[i] == listing,
        known_players(after_answer(c, i, listing, Some(players), true), listing.id) == players,
        forall|j: int|
            0 <= j < c.listings.len() && j != i ==> after_answer(
                c,
                i,
                listing,
                Some(players),
                true,
            ).listings[j] == c.listings[j],
{
}

/// The players an answer lists are the players then known for its
/// server, whether the answer's listing is published or not; an answer
/// that lists none leaves the players known as they were.
pub proof fn lemma_answer_players(
    c: CacheModel,
    i: int,
    listing: ListingModel,
    players: Option<Seq<Seq<char>>>,
    publish: bool,
    id: u16,
)
    ensures
        players matches Some(p) ==> known_players(
            after_answer(c, i, listing, players, publish),
            listing.id,
        ) == p,
        players is None ==> known_players(after_answer(c, i, listing, players, publish), id)
            == known_players(c, id),
{
}

/// The cache holds one listing per configured server throughout:
/// neither streams nor answers change how many listings it holds.
pub proof fn lemma_listing_count_kept(
    c: CacheModel,
    now: u128,
    i: int,
    listing: ListingModel,
    players: Option<Seq<Seq<char>>>,
    publish: bool,
)
    requires
        0 <= i < c.listings.len(),
    ensures
        after_stream(c, now).listings == c.listings,
        after_answer(c, i, listing, players, publish).listings.len() == c.listings.len(),
{
}

/// Players once known stay known: folding in an answer keeps every
/// server's players, replacing them only for the server that answered.
pub proof fn lemma_players_kept(
    c: CacheModel,
    i: int,
    listing: ListingModel,
    players: Option<Seq<Seq<char>>>,
    publish: bool,
    id: u16,
)
    requires
        c.players.contains_key(id),
        id != listing.id || players is None,
    ensures
        known_players(after_answer(c, i, listing, players, publish), id) == known_players(c, id),
{
}

/// An answer that is not published leaves the listings as they were.
pub proof fn lemma_unpublished_keeps_listings(
    c: CacheModel,
    i: int,
    listing: ListingModel,
    players: Option<Seq<Seq<char>>>,
)
    ensures
        after_answer(c, i, listing, players, false).listings == c.listings,
        after_answer(c, i, listing, players, false).last_refresh == c.last_refresh,
{
}

} // verus!
