use libnetwork_daemon::interface::InterfaceInfo;
use libnetwork_daemon::manager::{link_event, InterfaceManagerEvent, LinkNotice};

fn info(id: u32, name: &str) -> Option<InterfaceInfo> {
    Some(InterfaceInfo::new(id, name))
}

fn name_of(e: &Option<InterfaceManagerEvent>) -> Option<(&'static str, String)> {
    match e {
        Some(InterfaceManagerEvent::InterfaceAdded(i)) => Some(("added", i.name.clone())),
        Some(InterfaceManagerEvent::InterfaceChanged(i)) => Some(("changed", i.name.clone())),
        Some(InterfaceManagerEvent::InterfaceRemoved(i)) => Some(("removed", i.name.clone())),
        None => None,
    }
}

#[test]
fn new_link_adds_changes_or_removes() {
    let alive = LinkNotice::NewLink { index: 3, dying_flag: false };
    let dying = LinkNotice::NewLink { index: 3, dying_flag: true };
    assert_eq!(name_of(&link_event(alive, None, info(3, "em1"))), Some(("added", "em1".to_string())));
    assert_eq!(
        name_of(&link_event(alive, info(3, "em0"), info(3, "em1"))),
        Some(("changed", "em1".to_string()))
    );
    assert_eq!(
        name_of(&link_event(dying, info(3, "em0"), info(3, "em1"))),
        Some(("removed", "em0".to_string()))
    );
    assert_eq!(
        name_of(&link_event(alive, info(3, "em0"), None)),
        Some(("removed", "em0".to_string()))
    );
    assert_eq!(name_of(&link_event(dying, None, info(3, "em1"))), None);
    assert_eq!(name_of(&link_event(alive, None, None)), None);
}

#[test]
fn deleted_links_and_address_changes() {
    let del = LinkNotice::DelLink { index: 4 };
    assert_eq!(name_of(&link_event(del, info(4, "wlan0"), None)), Some(("removed", "wlan0".to_string())));
    assert_eq!(name_of(&link_event(del, None, info(4, "wlan0"))), None);
    for notice in [LinkNotice::NewAddress { index: 4 }, LinkNotice::DelAddress { index: 4 }] {
        assert_eq!(
            name_of(&link_event(notice, info(4, "old"), info(4, "wlan0"))),
            Some(("changed", "wlan0".to_string()))
        );
        assert_eq!(name_of(&link_event(notice, info(4, "old"), None)), None);
    }
}
