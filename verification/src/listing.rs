//! The server listings and the messages that the server and the page
//! exchange, with their mathematical models.
use vstd::prelude::*;

verus! {

/// Whether a server answered the last status query.
#[derive(Clone, Copy, Debug, PartialEq, Eq, Structural)]
pub enum ServerListingStatus {
    /// Not queried yet.
    Pending,
    /// The query failed, or its answer held nothing.
    Unreachable,
    /// The query was answered.
    Reachable,
}

impl Default for ServerListingStatus {
    fn default() -> (s: Self)
        ensures
            s == ServerListingStatus::Pending,
    {
        ServerListingStatus::Pending
    }
}

/// What a server reported of its current game.
#[derive(Clone, Debug)]
pub struct ServerListingInfo {
    pub map: String,
    pub active: u8,
    pub max: u8,
}

/// The model of a [`ServerListingInfo`].
pub struct InfoModel {
    pub map: Seq<char>,
    pub active: u8,
    pub max: u8,
}

impl View for ServerListingInfo {
    type V = InfoModel;

    open spec fn view(&self) -> InfoModel {
        InfoModel { map: self.map@, active: self.active, max: self.max }
    }
}

impl Default for ServerListingInfo {
    fn default() -> (i: Self)
        ensures
            i@ == (InfoModel { map: Seq::empty(), active: 0, max: 0 }),
    {
        ServerListingInfo { map: String::new(), active: 0, max: 0 }
    }
}

impl ServerListingInfo {
    /// A copy with the same model.
    pub fn duplicate(&self) -> (r: Self)
        ensures
            r@ == self@,
    {
        ServerListingInfo { map: self.map.clone(), active: self.active, max: self.max }
    }
}

impl PartialEq for ServerListingInfo {
    fn eq(&self, other: &Self) -> (r: bool) {
        self.map == other.map && self.active == other.active && self.max == other.max
    }
}

impl vstd::std_specs::cmp::PartialEqSpecImpl for ServerListingInfo {
    open spec fn obeys_eq_spec() -> bool {
        true
    }

    open spec fn eq_spec(&self, other: &Self) -> bool {
        self@ == other@
    }
}

/// One game server as shown in the list.
#[derive(Clone, Debug)]
pub struct ServerListing {
    pub id: u16,
    pub game: String,
    pub addr: String,
    pub status: ServerListingStatus,
    pub name: String,
    pub icon_name: Option<String>,
    pub info: Option<ServerListingInfo>,
    pub rcon_password: Option<String>,
}

/// The model of a [`ServerListing`].
pub struct ListingModel {
    pub id: u16,
    pub game: Seq<char>,
    pub addr: Seq<char>,
    pub status: ServerListingStatus,
    pub name: Seq<char>,
    pub icon_name: Option<Seq<char>>,
    pub info: Option<InfoModel>,
    pub rcon_password: Option<Seq<char>>,
}

/// The model of an optional string.
pub open spec fn opt_view(s: Option<String>) -> Option<Seq<char>> {
    match s {
        Some(x) => Some(x@),
        None => None,
    }
}

/// The model of optional game information.
pub open spec fn info_view(i: Option<ServerListingInfo>) -> Option<InfoModel> {
    match i {
        Some(x) => Some(x@),
        None => None,
    }
}

impl View for ServerListing {
    type V = ListingModel;

    open spec fn view(&self) -> ListingModel {
        ListingModel {
            id: self.id,
            game: self.game@,
            addr: self.addr@,
            status: self.status,
            name: self.name@,
            icon_name: opt_view(self.icon_name),
            info: info_view(self.info),
            rcon_password: opt_view(self.rcon_password),
        }
    }
}

/// A copy of an optional string.
pub fn dup_opt(s: &Option<String>) -> (r: Option<String>)
    ensures
        opt_view(r) == opt_view(*s),
{
    match s {
        Some(x) => Some(x.clone()),
        None => None,
    }
}

/// Whether two optional strings hold the same text.
pub fn same_opt(a: &Option<String>, b: &Option<String>) -> (r: bool)
    ensures
        r == (opt_view(*a) == opt_view(*b)),
{
    match (a, b) {
        (Some(x), Some(y)) => *x == *y,
        (None, None) => true,
        _ => false,
    }
}

impl Default for ServerListing {
    fn default() -> (l: Self)
        ensures
            l@ == (ListingModel {
                id: 0,
                game: Seq::empty(),
                addr: Seq::empty(),
                status: ServerListingStatus::Pending,
                name: Seq::empty(),
                icon_name: None,
                info: None,
                rcon_password: None,
            }),
    {
        ServerListing {
            id: 0,
            game: String::new(),
            addr: String::new(),
            status: ServerListingStatus::Pending,
            name: String::new(),
            icon_name: None,
            info: None,
            rcon_password: None,
        }
    }
}

impl ServerListing {
    /// A copy with the same model.
    pub fn duplicate(&self) -> (r: Self)
        ensures
            r@ == self@,
    {
        ServerListing {
            id: self.id,
            game: self.game.clone(),
            addr: self.addr.clone(),
            status: self.status,
            name: self.name.clone(),
            icon_name: dup_opt(&self.icon_name),
            info: match &self.info {
                Some(i) => Some(i.duplicate()),
                None => None,
            },
            rcon_password: dup_opt(&self.rcon_password),
        }
    }

    /// Whether two listings agree in every field.
    pub fn same_as(&self, other: &ServerListing) -> (r: bool)
        ensures
            r == (self@ == other@),
    {
        let same_info = match (&self.info, &other.info) {
            (Some(x), Some(y)) => x.map == y.map && x.active == y.active && x.max == y.max,
            (None, None) => true,
            _ => false,
        };
        self.id == other.id && self.game == other.game && self.addr == other.addr
            && self.status == other.status && self.name == other.name && same_opt(
            &self.icon_name,
            &other.icon_name,
        ) && same_info && same_opt(&self.rcon_password, &other.rcon_password)
    }
}

impl PartialEq for ServerListing {
    fn eq(&self, other: &Self) -> (r: bool) {
        self.same_as(other)
    }
}

impl vstd::std_specs::cmp::PartialEqSpecImpl for ServerListing {
    open spec fn obeys_eq_spec() -> bool {
        true
    }

    open spec fn eq_spec(&self, other: &Self) -> bool {
        self@ == other@
    }
}

/// A request from the page to the server.
#[derive(Clone, Copy, Debug, PartialEq, Eq, Structural)]
pub enum WSClientMsg {
    Invalid,
    /// Asks for every listing.
    ReqEntries,
    /// Asks for the players on the server with this id.
    ReqPlayers(u16),
}

/// A message from the server to the page.
#[derive(Clone, Debug)]
pub enum WSServerMsg {
    Invalid,
    /// Listings, all of them or the ones that changed.
    ResEntries(Vec<ServerListing>),
    /// The players on the server with this id.
    ResPlayers(u16, Vec<String>),
}

/// The models of a sequence of listings.
pub open spec fn listing_views(v: Seq<ServerListing>) -> Seq<ListingModel> {
    v.map_values(|l: ServerListing| l@)
}

/// The models of a sequence of strings.
pub open spec fn string_views(v: Seq<String>) -> Seq<Seq<char>> {
    v.map_values(|s: String| s@)
}

/// The model of a [`WSServerMsg`].
pub enum ServerMsgModel {
    Invalid,
    ResEntries(Seq<ListingModel>),
    ResPlayers(u16, Seq<Seq<char>>),
}

impl View for WSServerMsg {
    type V = ServerMsgModel;

    open spec fn view(&self) -> ServerMsgModel {
        match self {
            WSServerMsg::Invalid => ServerMsgModel::Invalid,
            WSServerMsg::ResEntries(v) => ServerMsgModel::ResEntries(listing_views(v@)),
            WSServerMsg::ResPlayers(id, v) => ServerMsgModel::ResPlayers(*id, string_views(v@)),
        }
    }
}

} // verus!
