//! The page: how the server's messages become updates of the board of
//! listings, what each listing shows, and what a click on it does.
use vstd::prelude::*;
use std::collections::HashMap;
use crate::listing::{
    ListingModel, ServerListing, ServerListingStatus, WSClientMsg, WSServerMsg, listing_views,
    string_views,
};
use crate::text::{append, append_str, chars_of, decimal, decimal_exec, string_of};
use crate::cache::dup_strings;

verus! {

broadcast use vstd::std_specs::hash::group_hash_axioms;

// ---------------------------------------------------------------------
// Messages
// ---------------------------------------------------------------------

/// A message inside the page.
#[derive(Clone, Debug)]
pub enum UIMsg {
    /// The connection to the server is up.
    WSInit,
    /// A listing changed.
    UpdateListing(ServerListing),
    /// The players of a server are known.
    UpdatePlayers(u16, Vec<String>),
}

/// The model of a [`UIMsg`].
pub enum UIMsgModel {
    WSInit,
    UpdateListing(ListingModel),
    UpdatePlayers(u16, Seq<Seq<char>>),
}

impl View for UIMsg {
    type V = UIMsgModel;

    open spec fn view(&self) -> UIMsgModel {
        match self {
            UIMsg::WSInit => UIMsgModel::WSInit,
            UIMsg::UpdateListing(l) => UIMsgModel::UpdateListing(l@),
            UIMsg::UpdatePlayers(id, v) => UIMsgModel::UpdatePlayers(*id, string_views(v@)),
        }
    }
}

/// The models of a sequence of page messages.
pub open spec fn ui_views(v: Seq<UIMsg>) -> Seq<UIMsgModel> {
    v.map_values(|m: UIMsg| m@)
}

/// The page messages that a message from the server turns into: one
/// listing update per listing, in order, or one players update.
pub open spec fn ui_messages(m: crate::listing::ServerMsgModel) -> Seq<UIMsgModel> {
    match m {
        crate::listing::ServerMsgModel::ResEntries(ls) => ls.map_values(
            |l: ListingModel| UIMsgModel::UpdateListing(l),
        ),
        crate::listing::ServerMsgModel::ResPlayers(id, names) => seq![
            UIMsgModel::UpdatePlayers(id, names),
        ],
        crate::listing::ServerMsgModel::Invalid => seq![],
    }
}

/// Turns a message from the server into page messages.
pub fn ui_messages_exec(m: WSServerMsg) -> (r: Vec<UIMsg>)
    ensures
        ui_views(r@) == ui_messages(m@),
{
    match m {
        WSServerMsg::ResEntries(entries) => {
            let ghost ev = listing_views(entries@);
            let mut out: Vec<UIMsg> = Vec::new();
            let mut i: usize = 0;
            while i < entries.len()
                invariant
                    i <= entries.len(),
                    ev == listing_views(entries@),
                    ui_views(out@) == ev.map_values(
                        |l: ListingModel| UIMsgModel::UpdateListing(l),
                    ).take(i as int),
                decreases entries.len() - i,
            {
                let ghost old_out = out@;
                let copy = entries[i].duplicate();
                out.push(UIMsg::UpdateListing(copy));
                assert(ev[i as int] == entries@[i as int]@);
                assert(ui_views(out@) =~= ui_views(old_out).push(
                    UIMsgModel::UpdateListing(entries@[i as int]@),
                ));
                assert(ui_views(out@) =~= ev.map_values(
                    |l: ListingModel| UIMsgModel::UpdateListing(l),
                ).take(i + 1));
                i = i + 1;
            }
            assert(ev.map_values(|l: ListingModel| UIMsgModel::UpdateListing(l)).take(
                entries.len() as int,
            ) =~= ev.map_values(|l: ListingModel| UIMsgModel::UpdateListing(l)));
            out
        },
        WSServerMsg::ResPlayers(id, names) => {
            let mut out: Vec<UIMsg> = Vec::new();
            out.push(UIMsg::UpdatePlayers(id, names));
            assert(ui_views(out@) =~= ui_messages(m@));
            out
        },
        WSServerMsg::Invalid => {
            let out: Vec<UIMsg> = Vec::new();
            assert(ui_views(out@) =~= ui_messages(m@));
            out
        },
    }
}

// ---------------------------------------------------------------------
// What the page shows
// ---------------------------------------------------------------------

/// The spinner shown while something loads.
pub open spec fn spinner_html() -> Seq<char> {
    "<img class='Spinner'/>"@
}

/// The icon at the head of a game's section.
pub open spec fn section_icon_html(icon: Option<Seq<char>>) -> Seq<char> {
    match icon {
        Some(i) => "<img class='game-icon' src='"@ + i + "' width='32'/>"@,
        None => seq![],
    }
}

/// The head of a game's section, with the grid that holds its servers.
pub open spec fn section_html(game: Seq<char>, icon: Option<Seq<char>>) -> Seq<char> {
    "<div class='game-header'>"@ + section_icon_html(icon) + "<h3>"@ + game
        + "</h3></div><hr class='game-separator'><div class='game-grid'></div>"@
}

/// The id of the element that holds a server's players.
pub open spec fn details_id(id: u16) -> Seq<char> {
    decimal(id as nat) + "expanded"@
}

/// The map line of a notification.
pub open spec fn notice_map(l: ListingModel) -> Seq<char> {
    match l.info {
        Some(i) => if i.map.len() > 0 {
            "\nMap: "@ + i.map
        } else {
            seq![]
        },
        None => seq![],
    }
}

/// The players line of a notification.
pub open spec fn notice_players(l: ListingModel) -> Seq<char> {
    match l.info {
        Some(i) => if i.active > 0 || i.max != 0 {
            "\nPlayers: "@ + decimal(i.active as nat) + " / "@ + decimal(i.max as nat)
        } else {
            seq![]
        },
        None => seq![],
    }
}

/// The text of the notification that a server came up.
pub open spec fn notification_body(l: ListingModel) -> Seq<char> {
    l.game + "\n"@ + l.name + notice_map(l) + notice_players(l)
}

/// The title of that notification.
pub open spec fn notification_title() -> Seq<char> {
    "Server Update"@
}

/// The title of the notification that a server came up.
pub fn notification_title_exec() -> (s: String)
    ensures
        s@ == notification_title(),
{
    string_of(&chars_of("Server Update"))
}

/// The player count shown on a reachable server.
pub open spec fn count_html(active: u8, max: u8) -> Seq<char> {
    if active == 0 && max == 0 {
        "? / ?"@
    } else {
        decimal(active as nat) + " / "@ + decimal(max as nat)
    }
}

/// The game information shown on a reachable server.
pub open spec fn info_html(l: ListingModel) -> Seq<char> {
    match l.info {
        Some(i) => "Map: "@ + (if i.map.len() == 0 {
            "Unknown"@
        } else {
            i.map
        }) + "<br>Players: "@ + count_html(i.active, i.max),
        None => seq![],
    }
}

/// The icon of a reachable server, opening its heading.
pub open spec fn entry_icon_html(icon: Option<Seq<char>>) -> Seq<char> {
    match icon {
        Some(i) => "<p><img class='bg' src='"@ + i + "' width='32'/>"@,
        None => "<p>"@,
    }
}

/// What a server's entry shows.
pub open spec fn entry_html(l: ListingModel) -> Seq<char> {
    match l.status {
        ServerListingStatus::Pending => spinner_html(),
        ServerListingStatus::Unreachable => "<div class='server-header'><p>"@ + l.game + "</p>"@
            + (if l.name.len() == 0 {
            seq![]
        } else {
            "<h2>"@ + l.name + "</h2>"@
        }) + "<hr class='server-separator'></div>IP: "@ + l.addr + "<br>Unreachable"@,
        ServerListingStatus::Reachable => "<div class='server-header'>"@ + entry_icon_html(
            l.icon_name,
        ) + l.game + "</p><h2>"@ + l.name + "</h2><hr class='server-separator'></div>"@
            + info_html(l) + "<br><a href=\"steam://connect/"@ + l.addr
            + "\" onclick=\"event.stopPropagation()\">Connect</a><div class='details' id='"@
            + decimal(l.id as nat) + "expanded'></div>"@,
    }
}

/// The names of players, each followed by a line break.
pub open spec fn name_lines(names: Seq<Seq<char>>) -> Seq<char>
    decreases names.len(),
{
    if names.len() == 0 {
        seq![]
    } else {
        name_lines(names.drop_last()) + names.last() + "<br>"@
    }
}

/// The list of a server's players.
pub open spec fn players_html(names: Seq<Seq<char>>) -> Seq<char> {
    "<div class='inner'><br><hr>Players<hr>"@ + name_lines(names) + "</div>"@
}

/// Appends `n` in decimal.
fn append_decimal(out: &mut Vec<char>, n: u32)
    ensures
        final(out)@ == old(out)@ + decimal(n as nat),
{
    let d = decimal_exec(n);
    append(out, &d);
}

/// Appends the characters of `s`.
fn append_string(out: &mut Vec<char>, s: &String)
    ensures
        final(out)@ == old(out)@ + s@,
{
    append_str(out, s.as_str());
}

/// Builds the head of a game's section.
pub fn section_html_exec(game: &String, icon: &Option<String>) -> (s: String)
    ensures
        s@ == section_html(game@, crate::listing::opt_view(*icon)),
{
    let mut out = chars_of("<div class='game-header'>");
    match icon {
        Some(i) => {
            append_str(&mut out, "<img class='game-icon' src='");
            append_string(&mut out, i);
            append_str(&mut out, "' width='32'/>");
        },
        None => {},
    }
    append_str(&mut out, "<h3>");
    append_string(&mut out, game);
    append_str(&mut out, "</h3></div><hr class='game-separator'><div class='game-grid'></div>");
    assert(out@ =~= section_html(game@, crate::listing::opt_view(*icon)));
    string_of(&out)
}

/// Builds the id of the element that holds a server's players.
pub fn details_id_exec(id: u16) -> (s: String)
    ensures
        s@ == details_id(id),
{
    let mut out: Vec<char> = Vec::new();
    append_decimal(&mut out, id as u32);
    append_str(&mut out, "expanded");
    assert(out@ =~= details_id(id));
    string_of(&out)
}

/// Builds the text of the notification that a server came up.
pub fn notification_body_exec(l: &ServerListing) -> (s: String)
    ensures
        s@ == notification_body(l@),
{
    let mut out: Vec<char> = Vec::new();
    append_string(&mut out, &l.game);
    append_str(&mut out, "\n");
    append_string(&mut out, &l.name);
    match &l.info {
        Some(i) => {
            if !i.map.as_str().is_empty() {
                append_str(&mut out, "\nMap: ");
                append_string(&mut out, &i.map);
            }
            if i.active > 0 || i.max != 0 {
                append_str(&mut out, "\nPlayers: ");
                append_decimal(&mut out, i.active as u32);
                append_str(&mut out, " / ");
                append_decimal(&mut out, i.max as u32);
            }
        },
        None => {},
    }
    assert(out@ =~= notification_body(l@));
    string_of(&out)
}

/// Builds what a server's entry shows.
#[verifier::rlimit(30)]
pub fn entry_html_exec(l: &ServerListing) -> (s: String)
    ensures
        s@ == entry_html(l@),
{
    let mut out: Vec<char> = Vec::new();
    match l.status {
        ServerListingStatus::Pending => {
            append_str(&mut out, "<img class='Spinner'/>");
        },
        ServerListingStatus::Unreachable => {
            append_str(&mut out, "<div class='server-header'><p>");
            append_string(&mut out, &l.game);
            append_str(&mut out, "</p>");
            if !l.name.as_str().is_empty() {
                append_str(&mut out, "<h2>");
                append_string(&mut out, &l.name);
                append_str(&mut out, "</h2>");
            }
            append_str(&mut out, "<hr class='server-separator'></div>IP: ");
            append_string(&mut out, &l.addr);
            append_str(&mut out, "<br>Unreachable");
        },
        ServerListingStatus::Reachable => {
            append_str(&mut out, "<div class='server-header'>");
            match &l.icon_name {
                Some(i) => {
                    append_str(&mut out, "<p><img class='bg' src='");
                    append_string(&mut out, i);
                    append_str(&mut out, "' width='32'/>");
                },
                None => {
                    append_str(&mut out, "<p>");
                },
            }
            append_string(&mut out, &l.game);
            append_str(&mut out, "</p><h2>");
            append_string(&mut out, &l.name);
            append_str(&mut out, "</h2><hr class='server-separator'></div>");
            match &l.info {
                Some(i) => {
                    append_str(&mut out, "Map: ");
                    if i.map.as_str().is_empty() {
                        append_str(&mut out, "Unknown");
                    } else {
                        append_string(&mut out, &i.map);
                    }
                    append_str(&mut out, "<br>Players: ");
                    if i.active == 0 && i.max == 0 {
                        append_str(&mut out, "? / ?");
                    } else {
                        append_decimal(&mut out, i.active as u32);
                        append_str(&mut out, " / ");
                        append_decimal(&mut out, i.max as u32);
                    }
                },
                None => {},
            }
            append_str(&mut out, "<br><a href=\"steam://connect/");
            append_string(&mut out, &l.addr);
            append_str(
                &mut out,
                "\" onclick=\"event.stopPropagation()\">Connect</a><div class='details' id='",
            );
            append_decimal(&mut out, l.id as u32);
            append_str(&mut out, "expanded'></div>");
        },
    }
    assert(out@ =~= entry_html(l@));
    string_of(&out)
}

/// Builds the list of a server's players.
pub fn players_html_exec(names: &Vec<String>) -> (s: String)
    ensures
        s@ == players_html(string_views(names@)),
{
    let ghost nv = string_views(names@);
    let mut lines: Vec<char> = Vec::new();
    let mut i: usize = 0;
    assert(nv.take(0) =~= Seq::<Seq<char>>::empty());
    while i < names.len()
        invariant
            i <= names.len(),
            nv == string_views(names@),
            lines@ == name_lines(nv.take(i as int)),
        decreases names.len() - i,
    {
        append_string(&mut lines, &names[i]);
        append_str(&mut lines, "<br>");
        assert(nv.take(i + 1).drop_last() =~= nv.take(i as int));
        assert(nv.take(i + 1).last() == names@[i as int]@);
        i = i + 1;
    }
    assert(nv.take(names.len() as int) =~= nv);
    let mut out = chars_of("<div class='inner'><br><hr>Players<hr>");
    append(&mut out, &lines);
    append_str(&mut out, "</div>");
    string_of(&out)
}

// ---------------------------------------------------------------------
// The board
// ---------------------------------------------------------------------

/// The state of the page: for each server shown, whether it has yet to
/// be seen reachable; the players known for each server; and the games
/// that have a section.
pub struct Board {
    pub entries: HashMap<u16, bool>,
    pub players: HashMap<u16, Vec<String>>,
    pub sections: Vec<String>,
}

/// The model of a [`Board`].
pub struct BoardModel {
    pub entries: Map<u16, bool>,
    pub players: Map<u16, Seq<Seq<char>>>,
    pub sections: Seq<Seq<char>>,
}

impl View for Board {
    type V = BoardModel;

    open spec fn view(&self) -> BoardModel {
        BoardModel {
            entries: self.entries@,
            players: self.players@.map_values(|v: Vec<String>| string_views(v@)),
            sections: string_views(self.sections@),
        }
    }
}

/// What the page is to do for a listing update.
pub struct ListingUpdate {
    /// The head of a new section for the listing's game, if it has none.
    pub new_section: Option<String>,
    /// Whether the listing gets a new entry.
    pub new_entry: bool,
    /// Whether the entry is to flash, having been seen reachable before.
    pub flash: bool,
    /// The notification to show, if any.
    pub notify: Option<String>,
    /// What the entry is to show.
    pub html: String,
}

/// What a click on a server's entry leads to.
pub enum ClickAction {
    /// Close the list of players.
    Collapse,
    /// Show the players known.
    Show(UIMsg),
    /// Ask the server for the players, and show a spinner meanwhile.
    Request(WSClientMsg, UIMsg),
}

/// Whether an update of `l` opens a section: it creates the entry of its
/// server, and its game has no section yet.
pub open spec fn opens_section(b: BoardModel, l: ListingModel) -> bool {
    !b.entries.contains_key(l.id) && !b.sections.contains(l.game)
}

/// The board after a listing update.
pub open spec fn after_listing(b: BoardModel, l: ListingModel) -> BoardModel {
    let first = if b.entries.contains_key(l.id) {
        b.entries[l.id]
    } else {
        true
    };
    BoardModel {
        entries: b.entries.insert(
            l.id,
            first && l.status != ServerListingStatus::Reachable,
        ),
        players: b.players.remove(l.id),
        sections: if opens_section(b, l) {
            b.sections.push(l.game)
        } else {
            b.sections
        },
    }
}

/// Whether an update of `l` makes its entry flash: the entry exists and
/// its server was seen reachable before.
pub open spec fn flashes(b: BoardModel, l: ListingModel) -> bool {
    b.entries.contains_key(l.id) && !b.entries[l.id]
}

/// Whether an update of `l` notifies: it flashes, the server is
/// reachable, and the page is hidden and without focus.
pub open spec fn notifies(b: BoardModel, l: ListingModel, hidden: bool, focused: bool) -> bool {
    flashes(b, l) && l.status == ServerListingStatus::Reachable && hidden && !focused
}

/// Whether `u` is what the page does for an update of `l` on the board
/// `b`: a section for a game without one, an entry for a server without
/// one, a flash and maybe a notification for a server seen reachable
/// before, and the entry's new content. A section is opened only with
/// the entry of a server whose game has none.
pub open spec fn update_shows(
    b: BoardModel,
    l: ListingModel,
    hidden: bool,
    focused: bool,
    u: ListingUpdate,
) -> bool {
    &&& match u.new_section {
        Some(s) => opens_section(b, l) && s@ == section_html(l.game, l.icon_name),
        None => !opens_section(b, l),
    }
    &&& u.new_entry == !b.entries.contains_key(l.id)
    &&& u.flash == flashes(b, l)
    &&& match u.notify {
        Some(s) => notifies(b, l, hidden, focused) && s@ == notification_body(l),
        None => !notifies(b, l, hidden, focused),
    }
    &&& u.html@ == entry_html(l)
}

/// The board after the players of `id` are shown.
pub open spec fn after_players(b: BoardModel, id: u16, names: Seq<Seq<char>>) -> BoardModel {
    BoardModel { players: b.players.insert(id, names), ..b }
}

/// The model of a [`ClickAction`].
pub enum ClickModel {
    Collapse,
    Show(Seq<Seq<char>>),
    Request,
}

/// What a click on the entry of `id` leads to: closing an open list,
/// showing the players known, or asking for them.
pub open spec fn click(b: BoardModel, id: u16, expanded: bool) -> ClickModel {
    if expanded {
        ClickModel::Collapse
    } else if b.players.contains_key(id) {
        ClickModel::Show(b.players[id])
    } else {
        ClickModel::Request
    }
}

/// Whether the game `g` has a section.
fn has_section(sections: &Vec<String>, g: &String) -> (r: bool)
    ensures
        r == string_views(sections@).contains(g@),
{
    let ghost sv = string_views(sections@);
    let mut i: usize = 0;
    while i < sections.len()
        invariant
            i <= sections.len(),
            sv == string_views(sections@),
            forall|k: int| 0 <= k < i ==> sv[k] != g@,
        decreases sections.len() - i,
    {
        if sections[i] == *g {
            assert(sv[i as int] == g@);
            return true;
        }
        i = i + 1;
    }
    false
}

impl Board {
    /// An empty board.
    pub fn new() -> (b: Self)
        ensures
            b@.entries == Map::<u16, bool>::empty(),
            b@.players == Map::<u16, Seq<Seq<char>>>::empty(),
            b@.sections == Seq::<Seq<char>>::empty(),
    {
        let b = Board { entries: HashMap::new(), players: HashMap::new(), sections: Vec::new() };
        assert(b@.players =~= Map::<u16, Seq<Seq<char>>>::empty());
        assert(b@.sections =~= Seq::<Seq<char>>::empty());
        b
    }

    /// Forgets the entries and the players, as when the page reconnects;
    /// the sections stay.
    pub fn reset(&mut self)
        ensures
            final(self)@.entries == Map::<u16, bool>::empty(),
            final(self)@.players == Map::<u16, Seq<Seq<char>>>::empty(),
            final(self)@.sections == old(self)@.sections,
    {
        self.entries.clear();
        self.players.clear();
        assert(self@.players =~= Map::<u16, Seq<Seq<char>>>::empty());
    }

    /// Takes a listing update: says whether a section and an entry are
    /// new, whether the entry flashes and notifies, and what it shows.
    pub fn update_listing(&mut self, l: &ServerListing, hidden: bool, focused: bool) -> (u:
        ListingUpdate)
        ensures
            final(self)@ == after_listing(old(self)@, l@),
            update_shows(old(self)@, l@, hidden, focused, u),
    {
        let ghost b0 = self@;
        let (new_entry, first) = match self.entries.get(&l.id) {
            Some(f) => (false, *f),
            None => (true, true),
        };
        let new_section = if !new_entry || has_section(&self.sections, &l.game) {
            None
        } else {
            let ghost old_sections = self.sections@;
            self.sections.push(l.game.clone());
            assert(string_views(self.sections@) =~= string_views(old_sections).push(l.game@));
            Some(section_html_exec(&l.game, &l.icon_name))
        };
        let flash = !first;
        let notify = if flash && l.status == ServerListingStatus::Reachable && hidden && !focused {
            Some(notification_body_exec(l))
        } else {
            None
        };
        let html = entry_html_exec(l);
        let still_first = first && l.status != ServerListingStatus::Reachable;
        self.entries.insert(l.id, still_first);
        let ghost before_remove = self@.players;
        self.players.remove(&l.id);
        assert(self@.players =~= before_remove.remove(l.id));
        assert(self@ == after_listing(b0, l@));
        ListingUpdate { new_section, new_entry, flash, notify, html }
    }

    /// Shows the players of `id`: remembers them, and gives the list to
    /// put in the element with [`details_id`].
    pub fn update_players(&mut self, id: u16, names: Vec<String>) -> (html: String)
        ensures
            final(self)@ == after_players(old(self)@, id, string_views(names@)),
            html@ == players_html(string_views(names@)),
    {
        let html = players_html_exec(&names);
        let ghost nv = string_views(names@);
        let ghost before = self@.players;
        self.players.insert(id, names);
        assert(self@.players =~= before.insert(id, nv));
        html
    }

    /// What a click on the entry of `id` leads to; `expanded` tells
    /// whether its list of players is open.
    pub fn click(&self, id: u16, expanded: bool) -> (a: ClickAction)
        ensures
            match click(self@, id, expanded) {
                ClickModel::Collapse => a is Collapse,
                ClickModel::Show(names) => a matches ClickAction::Show(m)
                    && m@ == UIMsgModel::UpdatePlayers(id, names),
                ClickModel::Request => a matches ClickAction::Request(req, m)
                    && req == WSClientMsg::ReqPlayers(id)
                    && m@ == UIMsgModel::UpdatePlayers(id, seq![spinner_html()]),
            },
    {
        if expanded {
            return ClickAction::Collapse;
        }
        match self.players.get(&id) {
            Some(names) => ClickAction::Show(UIMsg::UpdatePlayers(id, dup_strings(names))),
            None => {
                let mut spin: Vec<String> = Vec::new();
                spin.push(string_of(&chars_of("<img class='Spinner'/>")));
                assert(string_views(spin@) =~= seq![spinner_html()]);
                ClickAction::Request(WSClientMsg::ReqPlayers(id), UIMsg::UpdatePlayers(id, spin))
            },
        }
    }
}

/// What the page is to do for a page message.
pub enum UiEffect {
    /// The connection is up: show the banner, and clear the servers shown.
    Connected,
    /// Show the update of the listing with this id.
    Listing(u16, ListingUpdate),
    /// Put this list of players in the element with [`details_id`] of the id.
    Players(u16, String),
}

impl Board {
    /// Takes a page message: a new connection clears the board, a listing
    /// update goes to [`Board::update_listing`], and players to
    /// [`Board::update_players`].
    pub fn handle(&mut self, msg: UIMsg, hidden: bool, focused: bool) -> (e: UiEffect)
        ensures
            match msg {
                UIMsg::WSInit => e is Connected && final(self)@ == (BoardModel {
                    entries: Map::empty(),
                    players: Map::empty(),
                    ..old(self)@
                }),
                UIMsg::UpdateListing(l) => final(self)@ == after_listing(old(self)@, l@) && (
                e matches UiEffect::Listing(id, u) && id == l.id && update_shows(
                    old(self)@,
                    l@,
                    hidden,
                    focused,
                    u,
                )),
                UIMsg::UpdatePlayers(id, names) => final(self)@ == after_players(
                    old(self)@,
                    id,
                    string_views(names@),
                ) && (e matches UiEffect::Players(i, h) && i == id && h@ == players_html(
                    string_views(names@),
                )),
            },
    {
        match msg {
            UIMsg::WSInit => {
                self.reset();
                UiEffect::Connected
            },
            UIMsg::UpdateListing(l) => {
                let u = self.update_listing(&l, hidden, focused);
                UiEffect::Listing(l.id, u)
            },
            UIMsg::UpdatePlayers(id, names) => {
                let h = self.update_players(id, names);
                UiEffect::Players(id, h)
            },
        }
    }
}

// ---------------------------------------------------------------------
// Laws
// ---------------------------------------------------------------------

/// Players shown for a server are what a click on it then shows.
pub proof fn lemma_players_read_back(b: BoardModel, id: u16, names: Seq<Seq<char>>)
    ensures
        click(after_players(b, id, names), id, false) == ClickModel::Show(names),
{
}

/// A listing update forgets the players of its server, so that a click
/// asks for them anew.
pub proof fn lemma_update_forgets_players(b: BoardModel, l: ListingModel)
    ensures
        click(after_listing(b, l), l.id, false) == ClickModel::Request,
{
}

/// An entry flashes from the update after the one that first shows its
/// server reachable on: never on its first update, and always once it
/// was seen reachable.
pub proof fn lemma_flash_after_reachable(b: BoardModel, l1: ListingModel, l2: ListingModel)
    requires
        l1.id == l2.id,
    ensures
        !b.entries.contains_key(l1.id) ==> !flashes(b, l1),
        l1.status == ServerListingStatus::Reachable ==> flashes(after_listing(b, l1), l2),
{
}

/// After an update that shows a server reachable, its entry stays: the
/// board keeps an entry for that server, marked as seen reachable, through
/// every later update, whatever those updates say.
pub proof fn lemma_seen_reachable_stays(b: BoardModel, ls: Seq<ListingModel>, j: int, k: int)
    requires
        0 <= j < k <= ls.len(),
        ls[j].status == ServerListingStatus::Reachable,
    ensures
        after_listings(b, ls.take(k)).entries.contains_key(ls[j].id),
        !after_listings(b, ls.take(k)).entries[ls[j].id],
    decreases k,
{
    let t = ls.take(k);
    assert(t.drop_last() =~= ls.take(k - 1));
    assert(t.last() == ls[k - 1]);
    if k > j + 1 {
        lemma_seen_reachable_stays(b, ls, j, k - 1);
    }
}

/// Once a server has been shown reachable, every later update of its
/// entry flashes, reachable or not, and every later reachable update
/// while the page is hidden and without focus notifies.
pub proof fn lemma_flashes_after_reachable(b: BoardModel, ls: Seq<ListingModel>, j: int, k: int)
    requires
        0 <= j < k < ls.len(),
        ls[j].status == ServerListingStatus::Reachable,
        ls[k].id == ls[j].id,
    ensures
        flashes(after_listings(b, ls.take(k)), ls[k]),
        ls[k].status == ServerListingStatus::Reachable ==> notifies(
            after_listings(b, ls.take(k)),
            ls[k],
            true,
            false,
        ),
{
    lemma_seen_reachable_stays(b, ls, j, k);
}

/// A reachable entry with game information shows the player count as
/// `? / ?` only when both the people count and the player limit are
/// zero; otherwise it shows both in decimal, `active / max`, between the
/// map and the connect link.
pub proof fn lemma_entry_count(l: ListingModel)
    requires
        l.status == ServerListingStatus::Reachable,
        l.info is Some,
    ensures
        (l.info->0.active != 0 || l.info->0.max != 0) ==> exists|a: Seq<char>, z: Seq<char>|
            entry_html(l) == a + "<br>Players: "@ + decimal(l.info->0.active as nat) + " / "@
                + decimal(l.info->0.max as nat) + "<br><a href=\"steam://connect/"@ + z,
        (l.info->0.active == 0 && l.info->0.max == 0) ==> exists|a: Seq<char>, z: Seq<char>|
            entry_html(l) == a + "<br>Players: "@ + "? / ?"@ + "<br><a href=\"steam://connect/"@
                + z,
{
    let i = l.info->0;
    let a = "<div class='server-header'>"@ + entry_icon_html(l.icon_name) + l.game
        + "</p><h2>"@ + l.name + "</h2><hr class='server-separator'></div>"@ + "Map: "@ + (if i.map.len() == 0 {
        "Unknown"@
    } else {
        i.map
    });
    let z = l.addr + "\" onclick=\"event.stopPropagation()\">Connect</a><div class='details' id='"@
        + decimal(l.id as nat) + "expanded'></div>"@;
    if i.active != 0 || i.max != 0 {
        assert(entry_html(l) =~= a + "<br>Players: "@ + decimal(i.active as nat) + " / "@
            + decimal(i.max as nat) + "<br><a href=\"steam://connect/"@ + z);
    } else {
        assert(entry_html(l) =~= a + "<br>Players: "@ + "? / ?"@
            + "<br><a href=\"steam://connect/"@ + z);
    }
}

/// Sections are never taken away: every update keeps the sections that
/// the board had, in their order.
pub proof fn lemma_sections_kept(b: BoardModel, l: ListingModel, id: u16, names: Seq<Seq<char>>)
    ensures
        after_listing(b, l).sections.take(b.sections.len() as int) == b.sections,
        after_players(b, id, names).sections == b.sections,
{
    assert(b.sections.push(l.game).take(b.sections.len() as int) =~= b.sections);
    assert(b.sections.take(b.sections.len() as int) =~= b.sections);
}

/// Each game gets one section: after an update that creates an entry,
/// the listing's game has a section, and a game already with one gets no
/// other.
pub proof fn lemma_one_section_per_game(b: BoardModel, l: ListingModel)
    ensures
        !b.entries.contains_key(l.id) ==> after_listing(b, l).sections.contains(l.game),
        b.sections.contains(l.game) ==> after_listing(b, l).sections == b.sections,
{
    if opens_section(b, l) {
        assert(b.sections.push(l.game)[b.sections.len() as int] == l.game);
    }
}

/// The board after the listing updates `ls`, in order.
pub open spec fn after_listings(b: BoardModel, ls: Seq<ListingModel>) -> BoardModel
    decreases ls.len(),
{
    if ls.len() == 0 {
        b
    } else {
        after_listing(after_listings(b, ls.drop_last()), ls.last())
    }
}

/// Whether some update in `ls` is for the server `id`.
pub open spec fn mentions(ls: Seq<ListingModel>, id: u16) -> bool {
    exists|j: int| 0 <= j < ls.len() && (#[trigger] ls[j]).id == id
}

/// After a run of updates, the board has an entry exactly for the
/// servers it had one for and those that the updates were for.
pub proof fn lemma_entries_after(b: BoardModel, ls: Seq<ListingModel>)
    ensures
        forall|id: u16|
            #![trigger after_listings(b, ls).entries.contains_key(id)]
            after_listings(b, ls).entries.contains_key(id) <==> (b.entries.contains_key(id)
                || mentions(ls, id)),
    decreases ls.len(),
{
    if ls.len() > 0 {
        let rest = ls.drop_last();
        lemma_entries_after(b, rest);
        assert forall|id: u16|
            #![trigger after_listings(b, ls).entries.contains_key(id)]
            after_listings(b, ls).entries.contains_key(id) <==> (b.entries.contains_key(id)
                || mentions(ls, id)) by {
            let prev = after_listings(b, rest);
            assert(after_listings(b, ls) == after_listing(prev, ls.last()));
            assert(prev.entries.contains_key(id) <==> (b.entries.contains_key(id) || mentions(
                rest,
                id,
            )));
            if mentions(rest, id) {
                let j = choose|j: int| 0 <= j < rest.len() && (#[trigger] rest[j]).id == id;
                assert(ls[j] == rest[j]);
            }
            if mentions(ls, id) && ls.last().id != id {
                let j = choose|j: int| 0 <= j < ls.len() && (#[trigger] ls[j]).id == id;
                assert(j < ls.len() - 1);
                assert(rest[j] == ls[j]);
            }
            if ls.last().id == id {
                assert(ls[ls.len() - 1].id == id);
            }
        }
    }
}

/// Over any run of updates, each server gets one entry and each game one
/// section: the update at position `k` creates an entry exactly when no
/// earlier update (and no entry before the run) was for its server; such
/// an update leaves its game with a section; and no game gets a second
/// section.
pub proof fn lemma_board_updates(b: BoardModel, ls: Seq<ListingModel>)
    requires
        b.sections.no_duplicates(),
    ensures
        after_listings(b, ls).sections.no_duplicates(),
        forall|k: int|
            0 <= k < ls.len() ==> (!after_listings(b, ls.take(k)).entries.contains_key(
                (#[trigger] ls[k]).id,
            ) <==> (!b.entries.contains_key(ls[k].id) && !mentions(ls.take(k), ls[k].id))),
        forall|k: int|
            0 <= k < ls.len() && !after_listings(b, ls.take(k)).entries.contains_key(
                (#[trigger] ls[k]).id,
            ) ==> after_listings(b, ls.take(k + 1)).sections.contains(ls[k].game),
    decreases ls.len(),
{
    if ls.len() > 0 {
        let rest = ls.drop_last();
        lemma_board_updates(b, rest);
        let prev = after_listings(b, rest);
        let l = ls.last();
        if opens_section(prev, l) {
            assert(prev.sections.push(l.game).no_duplicates()) by {
                assert forall|i: int, j: int|
                    0 <= i < j < prev.sections.len() + 1 implies prev.sections.push(l.game)[i]
                    != prev.sections.push(l.game)[j] by {
                    if j == prev.sections.len() {
                        assert(prev.sections.push(l.game)[i] == prev.sections[i]);
                    }
                }
            }
        }
        assert forall|k: int|
            0 <= k < ls.len() implies (!after_listings(b, ls.take(k)).entries.contains_key(
            (#[trigger] ls[k]).id,
        ) <==> (!b.entries.contains_key(ls[k].id) && !mentions(ls.take(k), ls[k].id))) by {
            lemma_entries_after(b, ls.take(k));
        }
        assert forall|k: int|
            0 <= k < ls.len() && !after_listings(b, ls.take(k)).entries.contains_key(
                (#[trigger] ls[k]).id,
            ) implies after_listings(b, ls.take(k + 1)).sections.contains(ls[k].game) by {
            let t = ls.take(k + 1);
            assert(t.drop_last() =~= ls.take(k));
            assert(t.last() == ls[k]);
            lemma_one_section_per_game(after_listings(b, ls.take(k)), ls[k]);
        }
    }
}

} // verus!
