use fgtw_fleet::chain::{Chain, ChainError, Fold};
use fgtw_fleet::reach::PathTier;
use fgtw_fleet::roster::{
    device_and_lan_for_rustdesk_id, device_for_rustdesk_id, fleet_roster, members_of, merge_own_settings, record_probe,
    roster_members, DeviceSetting, DeviceSettings, GlobalSetting, SettingValue,
};

fn text(key: &str, value: &str) -> DeviceSetting {
    DeviceSetting { key: key.to_string(), value: SettingValue::Text(value.to_string()), updated: 1, linked: true }
}

fn other(key: &str) -> DeviceSetting {
    DeviceSetting { key: key.to_string(), value: SettingValue::Other(vsf::VsfType::u3(9)), updated: 1, linked: true }
}

fn shown(s: &DeviceSetting) -> (String, Option<String>, i64, bool) {
    let value = match &s.value {
        SettingValue::Text(t) => Some(t.clone()),
        SettingValue::Other(_) => None,
    };
    (s.key.clone(), value, s.updated, s.linked)
}

fn name(hex: &str, value: &str) -> GlobalSetting {
    GlobalSetting { key: format!("fleet.name.{hex}"), value: SettingValue::Text(value.to_string()) }
}

#[test]
fn publishing_puts_id_and_addresses_into_the_own_map() {
    let mut devices = vec![
        DeviceSettings { device_pubkey: [1; 32], updated: 5, entries: vec![text("rustdesk.id", "111")] },
        DeviceSettings { device_pubkey: [2; 32], updated: 5, entries: vec![other("zoom"), text("rustdesk.id", "old")] },
    ];
    let lan = vec!["10.0.0.2:21118".to_string(), "192.168.1.5:21118".to_string()];
    merge_own_settings(&mut devices, &[2; 32], 50, "222".to_string(), &lan);
    assert_eq!(devices.len(), 2);
    assert_eq!(devices[0].updated, 5);
    assert_eq!(shown(&devices[0].entries[0]), ("rustdesk.id".to_string(), Some("111".to_string()), 1, true));
    assert_eq!(devices[1].updated, 50);
    let own: Vec<_> = devices[1].entries.iter().map(shown).collect();
    assert_eq!(
        own,
        vec![
            ("zoom".to_string(), None, 1, true),
            ("rustdesk.id".to_string(), Some("222".to_string()), 50, false),
            ("rustdesk.lan".to_string(), Some("10.0.0.2:21118,192.168.1.5:21118".to_string()), 50, false),
        ]
    );
}

#[test]
fn a_device_without_a_map_gets_one() {
    let mut devices = Vec::new();
    merge_own_settings(&mut devices, &[2; 32], 50, "222".to_string(), &Vec::new());
    assert_eq!(devices.len(), 1);
    assert_eq!(devices[0].device_pubkey, [2; 32]);
    assert_eq!(devices[0].updated, 50);
    let own: Vec<_> = devices[0].entries.iter().map(shown).collect();
    assert_eq!(own, vec![("rustdesk.id".to_string(), Some("222".to_string()), 50, false)]);
}

#[test]
fn what_is_published_is_read() {
    let mut devices = vec![DeviceSettings { device_pubkey: [1; 32], updated: 5, entries: vec![other("zoom")] }];
    merge_own_settings(&mut devices, &[1; 32], 50, "111".to_string(), &vec!["10.0.0.2:1".to_string()]);
    let roster = fleet_roster(&vec![[1; 32]], &[9; 32], None, &Vec::new(), &devices);
    assert_eq!(roster[0].rustdesk_id.as_deref(), Some("111"));
    assert_eq!(roster[0].lan_addr.as_deref(), Some("10.0.0.2:1"));
}

#[test]
fn roster_lists_members_with_names_and_ids() {
    let seed = [9u8; 32];
    let hex_one = "01".repeat(32);
    let globals = vec![
        name(&hex_one, "  Desk  "),
        name(&hex_one, "   "),
        name("zz", "nobody"),
        GlobalSetting { key: "theme".to_string(), value: SettingValue::Text("dark".to_string()) },
        GlobalSetting { key: format!("fleet.name.{hex_one}"), value: SettingValue::Other(vsf::VsfType::u3(1)) },
    ];
    let devices = vec![
        DeviceSettings {
            device_pubkey: [1; 32],
            updated: 1,
            entries: vec![text("rustdesk.id", "a"), other("rustdesk.id"), text("rustdesk.lan", "10.0.0.1:1")],
        },
        DeviceSettings { device_pubkey: [1; 32], updated: 2, entries: vec![text("rustdesk.id", "b")] },
    ];
    let roster = fleet_roster(&vec![[1; 32], [2; 32]], &seed, Some([2; 32]), &globals, &devices);
    assert_eq!(roster.len(), 2);
    assert_eq!(roster[0].name, "Desk");
    assert_eq!(roster[0].rustdesk_id.as_deref(), Some("b"));
    assert_eq!(roster[0].lan_addr.as_deref(), Some("10.0.0.1:1"));
    assert!(!roster[0].is_self && roster[0].online.is_none() && roster[0].direct_tier.is_none());
    assert_eq!(roster[1].name, fgtw::pair::device_name_default(&[2; 32], &seed));
    assert_eq!(roster[1].rustdesk_id, None);
    assert!(roster[1].is_self);
}

#[test]
fn own_entry_is_not_probed() {
    let mut roster = fleet_roster(&vec![[1; 32], [2; 32]], &[9; 32], Some([2; 32]), &Vec::new(), &Vec::new());
    for d in roster.iter_mut() {
        record_probe(d, Some(true), Some(PathTier::Lan));
    }
    assert_eq!((roster[0].online, roster[0].direct_tier), (Some(true), Some(PathTier::Lan)));
    assert_eq!((roster[1].online, roster[1].direct_tier), (None, None));
}

#[test]
fn ids_lead_back_to_devices() {
    let devices = vec![
        DeviceSettings { device_pubkey: [1; 32], updated: 1, entries: vec![text("rustdesk.id", "x")] },
        DeviceSettings {
            device_pubkey: [2; 32],
            updated: 1,
            entries: vec![text("rustdesk.id", "x"), text("rustdesk.lan", "10.0.0.2:1")],
        },
        DeviceSettings { device_pubkey: [3; 32], updated: 1, entries: vec![text("rustdesk.id", "y")] },
    ];
    let roster = fleet_roster(&vec![[1; 32], [2; 32], [3; 32]], &[9; 32], Some([1; 32]), &Vec::new(), &devices);
    // The own entry does not answer to its id.
    assert_eq!(device_and_lan_for_rustdesk_id(Some(&roster), "x"), Some(([2; 32], Some("10.0.0.2:1".to_string()))));
    assert_eq!(device_for_rustdesk_id(Some(&roster), "y"), Some([3; 32]));
    assert_eq!(device_and_lan_for_rustdesk_id(Some(&roster), "y"), Some(([3; 32], None)));
    assert_eq!(device_for_rustdesk_id(Some(&roster), "z"), None);
    assert_eq!(device_for_rustdesk_id(None, "x"), None);
}

#[test]
fn members_are_known_or_the_reason_is() {
    let chain = |fold| Chain { bytes: vec![], genesis: None, fold };
    let good = || Ok(Fold { members: vec![[1; 32]], floor: 1, tip: 0 });
    assert_eq!(roster_members(false, Ok(chain(good()))), Err("not logged in on this machine".to_string()));
    assert_eq!(
        roster_members(true, Err(ChainError::NoFleet)),
        Err("no fleet chain exists for that identity".to_string())
    );
    assert_eq!(roster_members(true, Ok(chain(good()))), Ok(vec![[1; 32]]));
    assert_eq!(members_of(chain(Err("Empty".to_string()))), Err("fleet does not fold: Empty".to_string()));
}
