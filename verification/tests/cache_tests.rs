use source_servers_list::cache::{build_listings, refresh_due_exec, GameListing, ServerCache};
use source_servers_list::listing::{ServerListingStatus, WSClientMsg, WSServerMsg};
use source_servers_list::status::refresh_listing;

fn games() -> Vec<GameListing> {
    vec![
        GameListing {
            game: "Team Fortress 2".to_string(),
            icon: Some("tf2.png".to_string()),
            rconpass: None,
            servers: vec!["a:1".to_string(), "b:2".to_string()],
        },
        GameListing {
            game: "Sven Co-op".to_string(),
            icon: None,
            rconpass: Some("pw".to_string()),
            servers: vec!["c:3".to_string()],
        },
    ]
}

#[test]
fn listings_from_configuration() {
    let ls = build_listings(&games());
    assert_eq!(ls.len(), 3);
    for (k, l) in ls.iter().enumerate() {
        assert_eq!(l.id as usize, k);
        assert_eq!(l.status, ServerListingStatus::Pending);
        assert!(l.info.is_none());
        assert_eq!(l.name, "");
    }
    assert_eq!(ls[1].addr, "b:2");
    assert_eq!(ls[1].icon_name.as_deref(), Some("tf2.png"));
    assert_eq!(ls[2].game, "Sven Co-op");
    assert_eq!(ls[2].rcon_password.as_deref(), Some("pw"));
}

#[test]
fn refresh_timing() {
    assert!(refresh_due_exec(None, 0));
    assert!(!refresh_due_exec(Some(10), 10 + 119_999_999_999));
    assert!(refresh_due_exec(Some(10), 10 + 120_000_000_000));
}

#[test]
fn stream_refreshes_at_most_every_two_minutes() {
    let mut c = ServerCache::new(build_listings(&games()));
    let p = c.stream_entries(true, 1_000);
    match p.reply {
        Some(WSServerMsg::ResEntries(v)) => assert_eq!(v.len(), 3),
        _ => panic!("expected the entries"),
    }
    assert_eq!(p.queries.unwrap().len(), 3);
    assert_eq!(c.last_refresh, Some(1_000));
    let q = c.stream_entries(false, 1_000 + 60_000_000_000);
    assert!(q.reply.is_none());
    assert!(q.queries.is_none());
    assert_eq!(c.last_refresh, Some(1_000));
    let r = c.stream_entries(false, 1_000 + 120_000_000_000);
    assert!(r.queries.is_some());
}

#[test]
fn answers_are_folded_in() {
    let mut c = ServerCache::new(build_listings(&games()));
    let text = "hostname: A\nmap: m1\nplayers : 1 (8 max)\n# 1 \"Zed\" [U:1:1] active\n";
    let r = refresh_listing(&c.listings[1], Some(text.to_string()));
    match c.apply_answer(1, r) {
        Some(WSServerMsg::ResEntries(v)) => {
            assert_eq!(v.len(), 1);
            assert_eq!(v[0].name, "A");
        }
        _ => panic!("expected a published listing"),
    }
    assert_eq!(c.listings[1].name, "A");
    assert_eq!(c.players_for(1), vec!["Zed".to_string()]);
    assert!(c.players_for(0).is_empty());
    let same = refresh_listing(&c.listings[1], Some(text.to_string()));
    assert!(c.apply_answer(1, same).is_none());
}

#[test]
fn requests_from_pages() {
    let mut c = ServerCache::new(build_listings(&games()));
    let p = c.handle_request(WSClientMsg::ReqPlayers(2), 5);
    match p.reply {
        Some(WSServerMsg::ResPlayers(id, names)) => {
            assert_eq!(id, 2);
            assert!(names.is_empty());
        }
        _ => panic!("expected players"),
    }
    assert!(p.queries.is_none());
    assert_eq!(c.last_refresh, None);
    let none = c.handle_request(WSClientMsg::Invalid, 5);
    assert!(none.reply.is_none() && none.queries.is_none());
    let all = c.handle_request(WSClientMsg::ReqEntries, 5);
    assert!(all.reply.is_some() && all.queries.is_some());
}

#[test]
fn periodic_tick() {
    let mut c = ServerCache::new(build_listings(&games()));
    assert!(c.tick(0, 7).is_none());
    assert_eq!(c.last_refresh, None);
    assert_eq!(c.tick(2, 7).unwrap().len(), 3);
    assert_eq!(c.last_refresh, Some(7));
}

#[test]
fn players_request_ignores_clock() {
    let mut c = ServerCache::new(build_listings(&games()));
    c.stream_entries(false, 1_000);
    // a players request, or a tick without listeners, reads no clock
    let p = c.handle_request(WSClientMsg::ReqPlayers(0), 10);
    assert!(matches!(p.reply, Some(WSServerMsg::ResPlayers(0, _))));
    assert!(c.tick(0, 10).is_none());
    assert_eq!(c.last_refresh, Some(1_000));
}
