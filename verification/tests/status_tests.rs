use source_servers_list::listing::{ServerListing, ServerListingInfo, ServerListingStatus};
use source_servers_list::status::{password_for, refresh_listing, report_fits_exec, survey_status};

const TF2_STATUS: &str = "hostname: My TF2 Server\n\
version : 8622567/24 8622567 secure\n\
udp/ip  : 1.2.3.4:27015  (public ip: 1.2.3.4)\n\
map     : ctf_2fort at: 0 x, 0 y, 0 z\n\
tags    : cp,increased_maxplayers\n\
players : 3 humans, 1 bots (25 max)\n\
edicts  : 1000 used of 2048 max\n\
# userid name                uniqueid            connected ping loss state  adr\n\
#      2 \"SourceTV\"          BOT                                     active\n\
#      3 \"Alice\"             [U:1:1234]          05:33       45    0 active 1.1.1.1:27005\n\
#      4 \"Bob\"               [U:1:5678]          01:02       60    0 active 2.2.2.2:27005\n\
#      5 \"Bot Heavy\"         BOT                                     active\n";

fn listing(game: &str) -> ServerListing {
    ServerListing {
        id: 4,
        game: game.to_string(),
        addr: "1.2.3.4:27015".to_string(),
        status: ServerListingStatus::Pending,
        name: "old name".to_string(),
        icon_name: Some("tf.png".to_string()),
        info: None,
        rcon_password: Some("secret".to_string()),
    }
}

#[test]
fn survey_of_tf2_status() {
    let s = survey_status("Team Fortress 2", TF2_STATUS);
    assert_eq!(s.name.as_deref(), Some("My TF2 Server"));
    assert_eq!(s.map, "ctf_2fort");
    assert_eq!(s.max, 24);
    assert_eq!(s.people, 2);
    assert_eq!(
        s.players.unwrap(),
        vec!["Alice".to_string(), "Bob".to_string(), "(BOT) Bot Heavy".to_string()]
    );
}

#[test]
fn survey_other_game_keeps_limit() {
    let s = survey_status("Sven Co-op", TF2_STATUS);
    assert_eq!(s.max, 25);
}

#[test]
fn survey_crlf_and_missing_lines() {
    let text = "hostname:NoSpace\r\nmap: c1a0\r\n";
    let s = survey_status("Sven Co-op", text);
    // the host name line has no "hostname: ", so no name is read
    assert_eq!(s.name, None);
    // the map line is searched after the host name line
    assert_eq!(s.map, "c1a0");
    assert_eq!(s.max, 0);
    assert_eq!(s.people, 0);
    assert!(s.players.is_none());
}

#[test]
fn survey_order_matters() {
    // a map line before the host name line is not seen
    let text = "map: early\nhostname: Late\nplayers : 0 (x max)\n";
    let s = survey_status("g", text);
    assert_eq!(s.name.as_deref(), Some("Late"));
    assert_eq!(s.map, "");
    // the search for the map used up the lines, so no players line is seen
    assert_eq!(s.max, 0);
    assert!(s.players.is_none());
}

#[test]
fn survey_player_limit_parsing() {
    assert_eq!(survey_status("g", "hostname: a\nmap: m\nplayers : 1 (+16 max)\n").max, 16);
    assert_eq!(survey_status("g", "hostname: a\nmap: m\nplayers : 1 (256 max)\n").max, 0);
    assert_eq!(survey_status("Team Fortress 2", "hostname: a\nmap: m\nplayers : 0 (0 max)\n").max, 0);
    assert_eq!(survey_status("g", "hostname: a\nmap: m\nplayers : 1 (  007  max)\n").max, 7);
}

#[test]
fn refresh_answered() {
    let l = listing("Team Fortress 2");
    let r = refresh_listing(&l, Some(TF2_STATUS.to_string()));
    assert!(r.publish);
    assert_eq!(r.listing.status, ServerListingStatus::Reachable);
    assert_eq!(r.listing.name, "My TF2 Server");
    let info = r.listing.info.clone().unwrap();
    assert_eq!((info.map.as_str(), info.active, info.max), ("ctf_2fort", 2, 24));
    assert_eq!(r.listing.id, 4);
    assert_eq!(r.listing.rcon_password.as_deref(), Some("secret"));
    assert_eq!(r.players.unwrap().len(), 3);
    // the same answer again changes nothing, so nothing is published
    let again = refresh_listing(&r.listing, Some(TF2_STATUS.to_string()));
    assert!(!again.publish);
    assert!(again.listing == r.listing);
    assert!(again.listing != l);
}

#[test]
fn refresh_unanswered_always_published() {
    let mut l = listing("g");
    l.status = ServerListingStatus::Unreachable;
    let r = refresh_listing(&l, None);
    assert!(r.publish);
    assert_eq!(r.listing.status, ServerListingStatus::Unreachable);
    assert_eq!(r.listing.name, "old name");
    assert!(r.players.is_none());
}

#[test]
fn refresh_empty_answer_is_unreachable() {
    let l = listing("g");
    let r = refresh_listing(&l, Some("Unknown command \"status\"\n".to_string()));
    assert_eq!(r.listing.status, ServerListingStatus::Unreachable);
    let info: ServerListingInfo = r.listing.info.unwrap();
    assert_eq!((info.map.as_str(), info.active, info.max), ("", 0, 0));
    assert_eq!(r.listing.name, "old name");
}

#[test]
fn report_fits_counts_people() {
    assert!(report_fits_exec(TF2_STATUS));
    let mut big = String::from("hostname: a\nmap: m\nplayers : 300 (300 max)\n");
    for i in 0..256 {
        big.push_str(&format!("# {} \"p{}\" [U:1:{}] active\n", i, i, i));
    }
    assert!(!report_fits_exec(&big));
}

#[test]
fn password_choice() {
    let l = listing("g");
    assert_eq!(password_for(&l, &"global".to_string()), "secret");
    let mut m = listing("g");
    m.rcon_password = None;
    assert_eq!(password_for(&m, &"global".to_string()), "global");
}
