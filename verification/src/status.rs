//! Reading the answer of a game server to the `status` command, and the
//! refreshed listing that follows from it.
use vstd::prelude::*;
use crate::text::{
    after, append, before, before_exec, chars_of, contains, contains_exec, find, find_exec,
    lemma_find_from, lemma_find_from_first, lemma_lines_cons, lines, matches_at, strip_cr, lines_exec, parse_u8, parse_u8_exec, rfind_char, rfind_char_exec,
    same_text, second_piece, second_piece_exec, starts_with, starts_with_exec, string_of, subvec,
    trim, trim_exec, views,
};
use crate::listing::{
    InfoModel, ListingModel, ServerListing, ServerListingInfo, ServerListingStatus, opt_view,
    string_views,
};

verus! {

// ---------------------------------------------------------------------
// Specification of the status report
// ---------------------------------------------------------------------

/// The lines that contain `p`.
pub open spec fn containing(p: Seq<char>) -> spec_fn(Seq<char>) -> bool {
    |l: Seq<char>| contains(l, p)
}

/// The lines that begin with `p`.
pub open spec fn starting(p: Seq<char>) -> spec_fn(Seq<char>) -> bool {
    |l: Seq<char>| starts_with(l, p)
}

/// The first line at or after `from` for which `f` holds.
pub open spec fn first_line(ls: Seq<Seq<char>>, from: int, f: spec_fn(Seq<char>) -> bool) -> Option<
    int,
>
    decreases ls.len() - from,
{
    if from < 0 || from >= ls.len() {
        None
    } else if f(ls[from]) {
        Some(from)
    } else {
        first_line(ls, from + 1, f)
    }
}

/// Where a search that found `found` leaves the reader of `len` lines:
/// after the line found, or at the end when nothing was found.
pub open spec fn resume_at(found: Option<int>, len: int) -> int {
    match found {
        Some(j) => j + 1,
        None => len,
    }
}

/// The line that names the server.
pub open spec fn hostname_line(ls: Seq<Seq<char>>) -> Option<int> {
    first_line(ls, 0, containing("hostname:"@))
}

/// The line that names the map, searched after the host name line.
pub open spec fn map_line(ls: Seq<Seq<char>>) -> Option<int> {
    first_line(ls, resume_at(hostname_line(ls), ls.len() as int), starting("map"@))
}

/// The line that counts the players, searched after the map line.
pub open spec fn players_line(ls: Seq<Seq<char>>) -> Option<int> {
    first_line(ls, resume_at(map_line(ls), ls.len() as int), starting("players"@))
}

/// The server name that the report gives, if it gives one.
pub open spec fn reported_name(ls: Seq<Seq<char>>) -> Option<Seq<char>> {
    match hostname_line(ls) {
        Some(j) => match second_piece(ls[j], "hostname: "@) {
            Some(n) => Some(trim(n)),
            None => None,
        },
        None => None,
    }
}

/// The map that the report gives, or nothing.
pub open spec fn reported_map(ls: Seq<Seq<char>>) -> Seq<char> {
    match map_line(ls) {
        Some(j) => match second_piece(ls[j].skip("map"@.len() as int), ":"@) {
            Some(m) => trim(before(m, " at"@)),
            None => seq![],
        },
        None => seq![],
    }
}

/// The player limit written on the players line, if it can be read.
pub open spec fn written_max(line: Seq<char>) -> Option<u8> {
    match second_piece(line, "("@) {
        Some(m) => parse_u8(before(trim(m), " "@)),
        None => None,
    }
}

/// Team Fortress servers count one slot that no player can take.
pub open spec fn usable_slots(game: Seq<char>, written: u8) -> u8 {
    if contains(game, "Team Fortress"@) && written > 0 {
        (written - 1) as u8
    } else {
        written
    }
}

/// The player limit that the report gives, or zero.
pub open spec fn reported_max(ls: Seq<Seq<char>>, game: Seq<char>) -> u8 {
    match players_line(ls) {
        Some(j) => match written_max(ls[j]) {
            Some(m) => usable_slots(game, m),
            None => 0,
        },
        None => 0,
    }
}

/// A player line, `# ... "name" ...`: the name shown for the player,
/// and whether the player is a person (not a bot). The relay client
/// `SourceTV` is no player.
pub open spec fn player_entry(line: Seq<char>) -> Option<(Seq<char>, bool)> {
    if !starts_with(line, "#"@) {
        None
    } else {
        match rfind_char(line, '"') {
            None => None,
            Some(q) => {
                let l = line.take(q);
                let r = line.skip(q);
                match find(l, "\""@) {
                    None => None,
                    Some(p) => {
                        let name = l.skip(p + 1);
                        if name == "SourceTV"@ {
                            None
                        } else if contains(r, "BOT"@) {
                            Some(("(BOT) "@ + name, false))
                        } else {
                            Some((name, true))
                        }
                    },
                }
            },
        }
    }
}

/// The players listed in `ls`, in order.
pub open spec fn roster(ls: Seq<Seq<char>>) -> Seq<(Seq<char>, bool)>
    decreases ls.len(),
{
    if ls.len() == 0 {
        seq![]
    } else {
        roster(ls.drop_last()) + match player_entry(ls.last()) {
            Some(e) => seq![e],
            None => seq![],
        }
    }
}

/// How many entries of a roster are people.
pub open spec fn people(r: Seq<(Seq<char>, bool)>) -> nat
    decreases r.len(),
{
    if r.len() == 0 {
        0
    } else {
        people(r.drop_last()) + if r.last().1 {
            1nat
        } else {
            0nat
        }
    }
}

/// The names in a roster.
pub open spec fn roster_names(r: Seq<(Seq<char>, bool)>) -> Seq<Seq<char>> {
    r.map_values(|e: (Seq<char>, bool)| e.0)
}

/// The players that the report lists after its players line, if it has one.
pub open spec fn reported_roster(ls: Seq<Seq<char>>) -> Option<Seq<(Seq<char>, bool)>> {
    match players_line(ls) {
        Some(j) => Some(roster(ls.skip(j + 1))),
        None => None,
    }
}

/// The names of the players that the report lists, if it has a players line.
pub open spec fn reported_players(ls: Seq<Seq<char>>) -> Option<Seq<Seq<char>>> {
    match reported_roster(ls) {
        Some(r) => Some(roster_names(r)),
        None => None,
    }
}

/// How many people the report lists.
pub open spec fn reported_people(ls: Seq<Seq<char>>) -> nat {
    match reported_roster(ls) {
        Some(r) => people(r),
        None => 0,
    }
}

/// Whether a status report fits the listing: it counts no more than 255
/// people, the most that a listing can show.
pub open spec fn report_fits(text: Seq<char>) -> bool {
    reported_people(lines(text)) <= 255
}

/// The game information that a status report gives.
pub open spec fn reported_info(text: Seq<char>, game: Seq<char>) -> InfoModel {
    let ls = lines(text);
    InfoModel {
        map: reported_map(ls),
        active: reported_people(ls) as u8,
        max: reported_max(ls, game),
    }
}

// ---------------------------------------------------------------------
// Reading a status report
// ---------------------------------------------------------------------

/// What a status report says, as read by [`survey_status`].
pub struct StatusSurvey {
    pub name: Option<String>,
    pub map: String,
    pub max: u8,
    pub people: usize,
    pub players: Option<Vec<String>>,
}

/// The first line at or after `from` that contains `p`, or, with
/// `prefix`, that begins with `p`.
fn first_line_exec(ls: &Vec<Vec<char>>, from: usize, p: &Vec<char>, prefix: bool) -> (r: Option<
    usize,
>)
    requires
        from <= ls.len(),
    ensures
        ({
            let f = if prefix {
                starting(p@)
            } else {
                containing(p@)
            };
            match r {
                Some(j) => first_line(views(ls@), from as int, f) == Some(j as int) && j < ls.len(),
                None => first_line(views(ls@), from as int, f) is None,
            }
        }),
{
    let ghost f = if prefix {
        starting(p@)
    } else {
        containing(p@)
    };
    let mut i = from;
    while i < ls.len()
        invariant
            from <= i <= ls.len(),
            f == (if prefix {
                starting(p@)
            } else {
                containing(p@)
            }),
            first_line(views(ls@), from as int, f) == first_line(views(ls@), i as int, f),
        decreases ls.len() - i,
    {
        let hit = if prefix {
            starts_with_exec(&ls[i], p)
        } else {
            contains_exec(&ls[i], p)
        };
        assert(views(ls@)[i as int] == ls@[i as int]@);
        if hit {
            return Some(i);
        }
        i = i + 1;
    }
    None
}

/// The player line, read as [`player_entry`] says.
fn player_entry_exec(line: &Vec<char>) -> (r: Option<(Vec<char>, bool)>)
    ensures
        match r {
            Some((n, h)) => player_entry(line@) == Some((n@, h)),
            None => player_entry(line@) is None,
        },
{
    let hash = chars_of("#");
    if !starts_with_exec(line, &hash) {
        return None;
    }
    let q = match rfind_char_exec(line, '"') {
        Some(q) => q,
        None => return None,
    };
    proof {
        lemma_rfind_char(line@, '"');
    }
    let l = subvec(line, 0, q);
    let r = subvec(line, q, line.len());
    assert(l@ =~= line@.take(q as int));
    assert(r@ =~= line@.skip(q as int));
    let quote = chars_of("\"");
    let p = match find_exec(&l, &quote) {
        Some(p) => p,
        None => return None,
    };
    proof {
        lemma_find_from(l@, quote@, 0);
        reveal_strlit("\"");
    }
    assert(p + 1 <= l.len());
    let name = subvec(&l, p + 1, l.len());
    assert(name@ =~= l@.skip(p + 1));
    let relay = chars_of("SourceTV");
    if same_text(&name, &relay) {
        return None;
    }
    let bot = chars_of("BOT");
    if contains_exec(&r, &bot) {
        let mut shown = chars_of("(BOT) ");
        append(&mut shown, &name);
        Some((shown, false))
    } else {
        Some((name, true))
    }
}

/// Where `rfind_char` finds a character, it stands there.
pub proof fn lemma_rfind_char(s: Seq<char>, c: char)
    ensures
        rfind_char(s, c) matches Some(q) ==> 0 <= q < s.len() && s[q] == c,
    decreases s.len(),
{
    if s.len() > 0 && s.last() != c {
        lemma_rfind_char(s.drop_last(), c);
    }
}

/// Reads a `status` report: the server name, the map, the player limit,
/// the number of people playing and the player names, as the spec
/// functions above define them. The player limit is adjusted for `game`.
pub fn survey_status(game: &str, text: &str) -> (r: StatusSurvey)
    ensures
        opt_view(r.name) == reported_name(lines(text@)),
        r.map@ == reported_map(lines(text@)),
        r.max == reported_max(lines(text@), game@),
        r.people == reported_people(lines(text@)),
        match r.players {
            Some(v) => reported_players(lines(text@)) == Some(string_views(v@)),
            None => reported_players(lines(text@)) is None,
        },
{
    let t = chars_of(text);
    let ls = lines_exec(&t);
    let ghost lv = views(ls@);
    assert(lv == lines(text@));
    let n = ls.len();
    // the server name
    let host = chars_of("hostname:");
    let h = first_line_exec(&ls, 0, &host, false);
    let mut name: Option<String> = None;
    let mut pos: usize = n;
    if let Some(j) = h {
        pos = j + 1;
        let tag = chars_of("hostname: ");
        assert(lv[j as int] == ls@[j as int]@);
        if let Some(piece) = second_piece_exec(&ls[j], &tag) {
            name = Some(string_of(&trim_exec(&piece)));
        }
    }
    assert(pos == resume_at(hostname_line(lv), lv.len() as int));
    // the map
    let map_tag = chars_of("map");
    let pos_before_map = pos;
    let m = first_line_exec(&ls, pos, &map_tag, true);
    let mut map: Vec<char> = Vec::new();
    pos = n;
    if let Some(j) = m {
        pos = j + 1;
        assert(lv[j as int] == ls@[j as int]@);
        proof {
            lemma_first_line(lv, pos_before_map as int, starting(map_tag@));
        }
        let line = &ls[j];
        assert(map_tag.len() <= line.len());
        let rest = subvec(line, map_tag.len(), line.len());
        assert(rest@ =~= line@.skip("map"@.len() as int));
        let colon = chars_of(":");
        if let Some(piece) = second_piece_exec(&rest, &colon) {
            let at = chars_of(" at");
            map = trim_exec(&before_exec(&piece, &at));
        }
    }
    assert(map@ == reported_map(lv));
    assert(pos == resume_at(map_line(lv), lv.len() as int));
    // the players
    let players_tag = chars_of("players");
    let p = first_line_exec(&ls, pos, &players_tag, true);
    let mut max: u8 = 0;
    let mut person_count: usize = 0;
    let mut players: Option<Vec<String>> = None;
    if let Some(j) = p {
        assert(lv[j as int] == ls@[j as int]@);
        let line = &ls[j];
        let paren = chars_of("(");
        if let Some(piece) = second_piece_exec(line, &paren) {
            let space = chars_of(" ");
            if let Some(written) = parse_u8_exec(&before_exec(&trim_exec(&piece), &space)) {
                let tf = chars_of("Team Fortress");
                let g = chars_of(game);
                max = if contains_exec(&g, &tf) && written > 0 {
                    written - 1
                } else {
                    written
                };
            }
        }
        let ghost rest = lv.skip(j + 1);
        let mut names: Vec<String> = Vec::new();
        let mut count: usize = 0;
        let mut k = j + 1;
        assert(rest.take(0) =~= Seq::<Seq<char>>::empty());
        assert(string_views(names@) =~= Seq::<Seq<char>>::empty());
        while k < n
            invariant
                j < k <= n == ls.len(),
                lv == views(ls@),
                rest == lv.skip(j + 1),
                string_views(names@) == roster_names(roster(rest.take(k - j - 1))),
                count == people(roster(rest.take(k - j - 1))),
                count <= k - j - 1,
            decreases n - k,
        {
            let ghost before_k = rest.take(k - j - 1);
            assert(rest.take(k - j) =~= before_k.push(lv[k as int]));
            assert(rest.take(k - j).drop_last() =~= before_k);
            assert(lv[k as int] == ls@[k as int]@);
            match player_entry_exec(&ls[k]) {
                Some((who, person)) => {
                    let ghost old_names = names@;
                    let ghost r0 = roster(before_k);
                    assert((r0 + seq![(who@, person)]).drop_last() =~= r0);
                    names.push(string_of(&who));
                    assert(string_views(names@) =~= string_views(old_names).push(who@));
                    assert(roster(rest.take(k - j)) == roster(before_k) + seq![(who@, person)]);
                    assert(roster_names(roster(rest.take(k - j))) =~= roster_names(
                        roster(before_k),
                    ).push(who@));
                    if person {
                        count = count + 1;
                    }
                },
                None => {
                    assert(roster(rest.take(k - j)) =~= roster(before_k));
                },
            }
            k = k + 1;
        }
        assert(rest.take(n - j - 1) =~= rest);
        person_count = count;
        players = Some(names);
    }
    StatusSurvey { name, map: string_of(&map), max, people: person_count, players }
}

/// Whether a status report counts no more than 255 people.
pub fn report_fits_exec(text: &str) -> (b: bool)
    ensures
        b == report_fits(text@),
{
    survey_status("", text).people <= 255
}

/// What `first_line` finds: the first line at or after `from` for
/// which `f` holds.
pub proof fn lemma_first_line(ls: Seq<Seq<char>>, from: int, f: spec_fn(Seq<char>) -> bool)
    ensures
        match first_line(ls, from, f) {
            Some(j) => 0 <= from <= j < ls.len() && f(ls[j]) && forall|m: int|
                from <= m < j ==> !f(#[trigger] ls[m]),
            None => forall|m: int| 0 <= from <= m < ls.len() ==> !f(#[trigger] ls[m]),
        },
    decreases ls.len() - from,
{
    if 0 <= from < ls.len() && !f(ls[from]) {
        lemma_first_line(ls, from + 1, f);
    }
}



// ---------------------------------------------------------------------
// Refreshing a listing
// ---------------------------------------------------------------------

/// Whether game information shows nothing at all: no map, no players
/// and no player limit.
pub open spec fn shows_nothing(i: InfoModel) -> bool {
    i.map.len() == 0 && i.active == 0 && i.max == 0
}

/// A listing after its server answered the status query with `text`:
/// reachable with the reported information, unless the report shows
/// nothing, and renamed where the report names the server.
pub open spec fn refreshed(l: ListingModel, text: Seq<char>) -> ListingModel {
    let info = reported_info(text, l.game);
    ListingModel {
        status: if shows_nothing(info) {
            ServerListingStatus::Unreachable
        } else {
            ServerListingStatus::Reachable
        },
        name: match reported_name(lines(text)) {
            Some(n) => n,
            None => l.name,
        },
        info: Some(info),
        ..l
    }
}

/// A listing after its server did not answer.
pub open spec fn unanswered(l: ListingModel) -> ListingModel {
    ListingModel { status: ServerListingStatus::Unreachable, ..l }
}

/// The result of querying one server.
pub struct Refresh {
    /// The listing as it now stands.
    pub listing: ServerListing,
    /// The players to remember for it, when the answer listed them.
    pub players: Option<Vec<String>>,
    /// Whether the new listing is to be sent to the pages.
    pub publish: bool,
}

/// The password to query a server with: its own, or else the default.
pub fn password_for(listing: &ServerListing, default: &String) -> (p: String)
    ensures
        p@ == match listing.rcon_password {
            Some(own) => own@,
            None => default@,
        },
{
    match &listing.rcon_password {
        Some(own) => own.clone(),
        None => default.clone(),
    }
}

/// Folds the answer to a status query (`None` where the server did not
/// answer) into a listing. An unanswered query always publishes the
/// listing; an answered one publishes it only where it changed.
pub fn refresh_listing(listing: &ServerListing, reply: Option<String>) -> (r: Refresh)
    requires
        reply matches Some(t) ==> report_fits(t@),
    ensures
        match reply {
            None => {
                &&& r.listing@ == unanswered(listing@)
                &&& r.players is None
                &&& r.publish
            },
            Some(t) => {
                &&& r.listing@ == refreshed(listing@, t@)
                &&& match r.players {
                    Some(v) => reported_players(lines(t@)) == Some(string_views(v@)),
                    None => reported_players(lines(t@)) is None,
                }
                &&& r.publish == (r.listing@ != listing@)
            },
        },
{
    let mut next = listing.duplicate();
    match reply {
        None => {
            next.status = ServerListingStatus::Unreachable;
            Refresh { listing: next, players: None, publish: true }
        },
        Some(text) => {
            let report = survey_status(listing.game.as_str(), text.as_str());
            if let Some(n) = report.name {
                next.name = n;
            }
            let info = ServerListingInfo {
                map: report.map,
                active: report.people as u8,
                max: report.max,
            };
            let nothing = info.map.as_str().is_empty() && info.active == 0 && info.max == 0;
            next.status = if nothing {
                ServerListingStatus::Unreachable
            } else {
                ServerListingStatus::Reachable
            };
            next.info = Some(info);
            let publish = !next.same_as(listing);
            Refresh { listing: next, players: report.players, publish }
        },
    }
}


// ---------------------------------------------------------------------
// Laws
// ---------------------------------------------------------------------

/// A roster counts no more people than it lists names.
pub proof fn lemma_people_at_most_names(r: Seq<(Seq<char>, bool)>)
    ensures
        people(r) <= roster_names(r).len(),
    decreases r.len(),
{
    if r.len() > 0 {
        lemma_people_at_most_names(r.drop_last());
    }
}

/// Querying a server changes neither its id, its game, its address, its
/// icon nor its password, whether it answers or not.
pub proof fn lemma_refresh_keeps_identity(l: ListingModel, text: Seq<char>)
    ensures
        refreshed(l, text).id == l.id && refreshed(l, text).game == l.game && refreshed(
            l,
            text,
        ).addr == l.addr && refreshed(l, text).icon_name == l.icon_name && refreshed(
            l,
            text,
        ).rcon_password == l.rcon_password,
        unanswered(l).id == l.id && unanswered(l).game == l.game && unanswered(l).addr == l.addr
            && unanswered(l).icon_name == l.icon_name && unanswered(l).rcon_password
            == l.rcon_password && unanswered(l).name == l.name && unanswered(l).info == l.info,
{
}

/// An answered query leaves the server reachable exactly when the report
/// shows a map, players or a player limit; an unanswered one leaves it
/// unreachable.
pub proof fn lemma_refresh_status(l: ListingModel, text: Seq<char>)
    ensures
        (refreshed(l, text).status == ServerListingStatus::Reachable) == !shows_nothing(
            reported_info(text, l.game),
        ),
        refreshed(l, text).status != ServerListingStatus::Pending,
        unanswered(l).status == ServerListingStatus::Unreachable,
{
}

/// A report without a players line lists no players and counts none.
pub proof fn lemma_no_players_line(text: Seq<char>)
    requires
        players_line(lines(text)) is None,
    ensures
        reported_players(lines(text)) is None,
        reported_people(lines(text)) == 0,
        reported_max(lines(text), seq![]) == 0,
{
}

/// The lines a report is read from: the host name line is the first line
/// that contains `hostname:`; the map line is the first line after it
/// that begins with `map`; the players line is the first line after that
/// which begins with `players`. Where a line is not found, the next
/// search finds nothing.
pub proof fn lemma_report_lines(ls: Seq<Seq<char>>)
    ensures
        match hostname_line(ls) {
            Some(h) => 0 <= h < ls.len() && contains(ls[h], "hostname:"@) && forall|m: int|
                0 <= m < h ==> !contains(#[trigger] ls[m], "hostname:"@),
            None => forall|m: int| 0 <= m < ls.len() ==> !contains(#[trigger] ls[m], "hostname:"@),
        },
        match map_line(ls) {
            Some(j) => hostname_line(ls) matches Some(h) && h < j < ls.len() && starts_with(
                ls[j],
                "map"@,
            ) && forall|m: int| h < m < j ==> !starts_with(#[trigger] ls[m], "map"@),
            None => hostname_line(ls) matches Some(h) ==> forall|m: int|
                h < m < ls.len() ==> !starts_with(#[trigger] ls[m], "map"@),
        },
        match players_line(ls) {
            Some(k) => map_line(ls) matches Some(j) && j < k < ls.len() && starts_with(
                ls[k],
                "players"@,
            ) && forall|m: int| j < m < k ==> !starts_with(#[trigger] ls[m], "players"@),
            None => map_line(ls) matches Some(j) ==> forall|m: int|
                j < m < ls.len() ==> !starts_with(#[trigger] ls[m], "players"@),
        },
{
    lemma_first_line(ls, 0, containing("hostname:"@));
    let mf = resume_at(hostname_line(ls), ls.len() as int);
    lemma_first_line(ls, mf, starting("map"@));
    let pf = resume_at(map_line(ls), ls.len() as int);
    lemma_first_line(ls, pf, starting("players"@));
    assert forall|m: int| 0 <= m < ls.len() implies containing("hostname:"@)(ls[m]) == contains(
        ls[m],
        "hostname:"@,
    ) by {}
}

/// Searching, from the second line on, two reports that differ at most in
/// their first line finds the same line in both.
pub proof fn lemma_first_line_same_tail(
    ls1: Seq<Seq<char>>,
    ls2: Seq<Seq<char>>,
    from: int,
    f: spec_fn(Seq<char>) -> bool,
)
    requires
        ls1.len() == ls2.len(),
        1 <= from,
        forall|m: int| 1 <= m < ls1.len() ==> ls1[m] == ls2[m],
    ensures
        first_line(ls1, from, f) == first_line(ls2, from, f),
    decreases ls1.len() - from,
{
    if from < ls1.len() && !f(ls1[from]) {
        lemma_first_line_same_tail(ls1, ls2, from + 1, f);
    }
}

/// A line made of `pre`, the host name tag and `name`, where `pre` holds
/// no `h`: it contains `hostname:`, the name is read from right after
/// the tag, and no carriage return ends it.
proof fn lemma_host_tag_line(pre: Seq<char>, name: Seq<char>)
    requires
        forall|m: int| 0 <= m < pre.len() ==> pre[m] != 'h',
        forall|m: int| 0 <= m < name.len() ==> name[m] != '\r',
    ensures
        contains(pre + "hostname: "@ + name, "hostname:"@),
        second_piece(pre + "hostname: "@ + name, "hostname: "@) == Some(
            before(name, "hostname: "@),
        ),
        strip_cr(pre + "hostname: "@ + name) == pre + "hostname: "@ + name,
{
    reveal_strlit("hostname: ");
    reveal_strlit("hostname:");
    let tag = "hostname: "@;
    let l = pre + tag + name;
    let p = pre.len() as int;
    assert(l.subrange(p, p + 10) =~= tag);
    assert forall|m: int| 0 <= m < p implies !matches_at(l, tag, m) by {
        if matches_at(l, tag, m) {
            assert(l.subrange(m, m + 10)[0] == l[m]);
            assert(l[m] == pre[m]);
        }
    }
    lemma_find_from_first(l, tag, 0, p);
    assert(l.skip(p + 10) =~= name);
    assert(l.subrange(p, p + 9) =~= "hostname:"@);
    assert(matches_at(l, "hostname:"@, p));
    lemma_find_from(l, "hostname:"@, 0);
    if name.len() > 0 {
        assert(l.last() == name.last());
    } else {
        assert(l.last() == ' ');
    }
}

/// The host name line is the first line that contains `hostname:`,
/// wherever in the line: a report whose first line carries something
/// before the tag (such as the `l` that GoldSrc servers print first)
/// names the server, and reads the same map, player limit, people and
/// players as the same report without it.
pub proof fn lemma_hostname_anywhere(
    pre: Seq<char>,
    name: Seq<char>,
    rest: Seq<char>,
    game: Seq<char>,
)
    requires
        forall|m: int| 0 <= m < pre.len() ==> pre[m] != 'h' && pre[m] != '\n',
        forall|m: int| 0 <= m < name.len() ==> name[m] != '\n' && name[m] != '\r',
    ensures
        hostname_line(lines(pre + "hostname: "@ + name + seq!['\n'] + rest)) == Some(0int),
        reported_name(lines(pre + "hostname: "@ + name + seq!['\n'] + rest)) == Some(
            trim(before(name, "hostname: "@)),
        ),
        reported_name(lines("hostname: "@ + name + seq!['\n'] + rest)) == Some(
            trim(before(name, "hostname: "@)),
        ),
        reported_info(pre + "hostname: "@ + name + seq!['\n'] + rest, game) == reported_info(
            "hostname: "@ + name + seq!['\n'] + rest,
            game,
        ),
        reported_players(lines(pre + "hostname: "@ + name + seq!['\n'] + rest))
            == reported_players(lines("hostname: "@ + name + seq!['\n'] + rest)),
{
    reveal_strlit("hostname: ");
    let tag = "hostname: "@;
    let l1 = pre + tag + name;
    let l2 = tag + name;
    let e: Seq<char> = seq![];
    assert(e + tag + name =~= l2);
    lemma_host_tag_line(pre, name);
    lemma_host_tag_line(e, name);
    assert forall|m: int| 0 <= m < l1.len() implies l1[m] != '\n' by {
        if m < pre.len() {
            assert(l1[m] == pre[m]);
        } else if m < pre.len() + 10 {
            assert(l1[m] == tag[m - pre.len()]);
        } else {
            assert(l1[m] == name[m - pre.len() - 10]);
        }
    }
    assert forall|m: int| 0 <= m < l2.len() implies l2[m] != '\n' by {
        if m < 10 {
            assert(l2[m] == tag[m]);
        } else {
            assert(l2[m] == name[m - 10]);
        }
    }
    lemma_lines_cons(l1, rest);
    lemma_lines_cons(l2, rest);
    let ls1 = lines(l1 + seq!['\n'] + rest);
    let ls2 = lines(l2 + seq!['\n'] + rest);
    assert(ls1[0] == l1);
    assert(ls2[0] == l2);
    assert forall|m: int| 1 <= m < ls1.len() implies ls1[m] == ls2[m] by {
        assert(ls1[m] == lines(rest)[m - 1]);
        assert(ls2[m] == lines(rest)[m - 1]);
    }
    assert(containing("hostname:"@)(ls1[0]));
    assert(containing("hostname:"@)(ls2[0]));
    assert(hostname_line(ls1) == Some(0int));
    assert(hostname_line(ls2) == Some(0int));
    lemma_first_line_same_tail(ls1, ls2, 1, starting("map"@));
    lemma_first_line(ls1, 1, starting("map"@));
    let mf = resume_at(map_line(ls1), ls1.len() as int);
    lemma_first_line_same_tail(ls1, ls2, mf, starting("players"@));
    lemma_first_line(ls1, mf, starting("players"@));
    if let Some(j) = players_line(ls1) {
        assert(ls1.skip(j + 1) =~= ls2.skip(j + 1));
    }
}

} // verus!
