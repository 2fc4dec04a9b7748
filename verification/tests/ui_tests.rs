use source_servers_list::listing::{
    ServerListing, ServerListingInfo, ServerListingStatus, WSClientMsg, WSServerMsg,
};
use source_servers_list::session::{
    asset_path_exec, asset_type, nested_index_exec, on_incoming, ws_url_exec, Incoming,
    SessionStep,
};
use source_servers_list::ui::{
    details_id_exec, entry_html_exec, notification_body_exec, notification_title_exec,
    players_html_exec,
    section_html_exec, ui_messages_exec, Board, ClickAction, UIMsg, UiEffect,
};

fn listing(status: ServerListingStatus) -> ServerListing {
    ServerListing {
        id: 12,
        game: "Team Fortress 2".to_string(),
        addr: "1.2.3.4:27015".to_string(),
        status,
        name: "Ducky".to_string(),
        icon_name: Some("tf.png".to_string()),
        info: Some(ServerListingInfo { map: "ctf_2fort".to_string(), active: 3, max: 24 }),
        rcon_password: None,
    }
}

#[test]
fn server_messages_to_page_messages() {
    let msgs = ui_messages_exec(WSServerMsg::ResEntries(vec![
        listing(ServerListingStatus::Pending),
        listing(ServerListingStatus::Reachable),
    ]));
    assert_eq!(msgs.len(), 2);
    match &msgs[1] {
        UIMsg::UpdateListing(l) => assert_eq!(l.status, ServerListingStatus::Reachable),
        _ => panic!("expected a listing"),
    }
    let p = ui_messages_exec(WSServerMsg::ResPlayers(3, vec!["a".to_string()]));
    assert!(matches!(&p[0], UIMsg::UpdatePlayers(3, v) if v == &vec!["a".to_string()]));
    assert!(ui_messages_exec(WSServerMsg::Invalid).is_empty());
}

#[test]
fn entry_html_by_status() {
    assert_eq!(
        entry_html_exec(&listing(ServerListingStatus::Pending)),
        "<img class='Spinner'/>"
    );
    assert_eq!(
        entry_html_exec(&listing(ServerListingStatus::Unreachable)),
        "<div class='server-header'><p>Team Fortress 2</p><h2>Ducky</h2><hr class='server-separator'></div>IP: 1.2.3.4:27015<br>Unreachable"
    );
    let mut nameless = listing(ServerListingStatus::Unreachable);
    nameless.name = String::new();
    assert_eq!(
        entry_html_exec(&nameless),
        "<div class='server-header'><p>Team Fortress 2</p><hr class='server-separator'></div>IP: 1.2.3.4:27015<br>Unreachable"
    );
    assert_eq!(
        entry_html_exec(&listing(ServerListingStatus::Reachable)),
        "<div class='server-header'><p><img class='bg' src='tf.png' width='32'/>Team Fortress 2</p><h2>Ducky</h2><hr class='server-separator'></div>Map: ctf_2fort<br>Players: 3 / 24<br><a href=\"steam://connect/1.2.3.4:27015\" onclick=\"event.stopPropagation()\">Connect</a><div class='details' id='12expanded'></div>"
    );
    let mut bare = listing(ServerListingStatus::Reachable);
    bare.icon_name = None;
    bare.info = Some(ServerListingInfo { map: String::new(), active: 0, max: 0 });
    assert_eq!(
        entry_html_exec(&bare),
        "<div class='server-header'><p>Team Fortress 2</p><h2>Ducky</h2><hr class='server-separator'></div>Map: Unknown<br>Players: ? / ?<br><a href=\"steam://connect/1.2.3.4:27015\" onclick=\"event.stopPropagation()\">Connect</a><div class='details' id='12expanded'></div>"
    );
}

#[test]
fn notification_text() {
    assert_eq!(
        notification_body_exec(&listing(ServerListingStatus::Reachable)),
        "Team Fortress 2\nDucky\nMap: ctf_2fort\nPlayers: 3 / 24"
    );
    let mut quiet = listing(ServerListingStatus::Reachable);
    quiet.info = Some(ServerListingInfo { map: String::new(), active: 0, max: 0 });
    assert_eq!(notification_body_exec(&quiet), "Team Fortress 2\nDucky");
}

#[test]
fn section_and_players_html() {
    assert_eq!(
        section_html_exec(&"Sven Co-op".to_string(), &None),
        "<div class='game-header'><h3>Sven Co-op</h3></div><hr class='game-separator'><div class='game-grid'></div>"
    );
    assert_eq!(
        section_html_exec(&"TF2".to_string(), &Some("i.png".to_string())),
        "<div class='game-header'><img class='game-icon' src='i.png' width='32'/><h3>TF2</h3></div><hr class='game-separator'><div class='game-grid'></div>"
    );
    assert_eq!(
        players_html_exec(&vec!["A".to_string(), "(BOT) B".to_string()]),
        "<div class='inner'><br><hr>Players<hr>A<br>(BOT) B<br></div>"
    );
    assert_eq!(players_html_exec(&vec![]), "<div class='inner'><br><hr>Players<hr></div>");
    assert_eq!(details_id_exec(0), "0expanded");
    assert_eq!(details_id_exec(65535), "65535expanded");
}

#[test]
fn board_listing_updates() {
    let mut b = Board::new();
    let u1 = b.update_listing(&listing(ServerListingStatus::Pending), true, false);
    assert!(u1.new_section.is_some());
    assert!(u1.new_entry);
    assert!(!u1.flash);
    assert!(u1.notify.is_none());
    let u2 = b.update_listing(&listing(ServerListingStatus::Reachable), true, false);
    assert!(u2.new_section.is_none());
    assert!(!u2.new_entry);
    assert!(!u2.flash);
    let u3 = b.update_listing(&listing(ServerListingStatus::Reachable), true, false);
    assert!(u3.flash);
    assert_eq!(
        u3.notify.as_deref(),
        Some("Team Fortress 2\nDucky\nMap: ctf_2fort\nPlayers: 3 / 24")
    );
    let u4 = b.update_listing(&listing(ServerListingStatus::Reachable), false, false);
    assert!(u4.flash && u4.notify.is_none());
    let u5 = b.update_listing(&listing(ServerListingStatus::Unreachable), true, false);
    assert!(u5.flash && u5.notify.is_none());
}

#[test]
fn board_clicks() {
    let mut b = Board::new();
    b.update_listing(&listing(ServerListingStatus::Reachable), false, true);
    assert!(matches!(b.click(12, true), ClickAction::Collapse));
    match b.click(12, false) {
        ClickAction::Request(WSClientMsg::ReqPlayers(12), UIMsg::UpdatePlayers(12, v)) => {
            assert_eq!(v, vec!["<img class='Spinner'/>".to_string()])
        }
        _ => panic!("expected a request"),
    }
    let html = b.update_players(12, vec!["Alice".to_string()]);
    assert_eq!(html, "<div class='inner'><br><hr>Players<hr>Alice<br></div>");
    match b.click(12, false) {
        ClickAction::Show(UIMsg::UpdatePlayers(12, v)) => assert_eq!(v, vec!["Alice".to_string()]),
        _ => panic!("expected the players"),
    }
    b.update_listing(&listing(ServerListingStatus::Reachable), false, true);
    assert!(matches!(b.click(12, false), ClickAction::Request(..)));
}

#[test]
fn board_reconnect() {
    let mut b = Board::new();
    b.handle(UIMsg::UpdateListing(listing(ServerListingStatus::Reachable)), false, false);
    b.handle(UIMsg::UpdatePlayers(12, vec!["x".to_string()]), false, false);
    assert!(matches!(b.handle(UIMsg::WSInit, false, false), UiEffect::Connected));
    assert!(b.entries.is_empty());
    assert!(b.players.is_empty());
    assert_eq!(b.sections, vec!["Team Fortress 2".to_string()]);
    match b.handle(UIMsg::UpdateListing(listing(ServerListingStatus::Reachable)), true, false) {
        UiEffect::Listing(12, u) => {
            assert!(u.new_entry && !u.flash && u.new_section.is_none())
        }
        _ => panic!("expected a listing update"),
    }
}

#[test]
fn session_steps() {
    assert!(matches!(on_incoming::<u8>(Incoming::Closed), SessionStep::Stop));
    assert!(matches!(on_incoming::<u8>(Incoming::Failed), SessionStep::Skip));
    assert!(matches!(on_incoming::<u8>(Incoming::Text(None)), SessionStep::Skip));
    assert!(matches!(on_incoming(Incoming::Text(Some(7u8))), SessionStep::Dispatch(7)));
}

#[test]
fn asset_paths() {
    assert_eq!(asset_path_exec(""), "index.html");
    assert_eq!(asset_path_exec("app.js"), "app.js");
    assert_eq!(nested_index_exec(""), "index.html/index.html");
    assert_eq!(nested_index_exec("docs"), "docs/index.html");
}

#[test]
fn asset_types() {
    assert_eq!(asset_type("", false), "text/html");
    assert_eq!(asset_type("pkg/app.js", false), "text/javascript");
    assert_eq!(asset_type("style.css", false), "text/css");
    assert_eq!(asset_type("docs", true), "text/html");
    assert_eq!(asset_type("blob", false), "application/octet-stream");
}

#[test]
fn websocket_address() {
    assert_eq!(ws_url_exec("https:", "servers.example", "8999"), "https://servers.example:8999/ws");
    assert_eq!(ws_url_exec("http:", "localhost", ""), "http://localhost:/ws");
}

#[test]
fn notification_title_text() {
    assert_eq!(notification_title_exec(), "Server Update");
}

#[test]
fn sections_open_only_with_new_entries() {
    let mut b = Board::new();
    let mut l = listing(ServerListingStatus::Pending);
    assert!(b.update_listing(&l, false, false).new_section.is_some());
    // the same server, now listed under another game, opens no section
    l.game = "Sven Co-op".to_string();
    let u = b.update_listing(&l, false, false);
    assert!(u.new_section.is_none() && !u.new_entry);
    assert_eq!(b.sections, vec!["Team Fortress 2".to_string()]);
    // another server of the new game does
    l.id = 13;
    assert!(b.update_listing(&l, false, false).new_section.is_some());
    // and a third server of a known game does not
    l.id = 14;
    let u = b.update_listing(&l, false, false);
    assert!(u.new_entry && u.new_section.is_none());
    assert_eq!(b.sections.len(), 2);
    assert_eq!(b.entries.len(), 3);
}
