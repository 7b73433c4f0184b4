//! The fleet's shared settings and the list of its devices: what a device publishes about itself,
//! and what it reads about the others.
use crate::chain::{joined, Chain, ChainError};
use crate::keys::device_name_default;
use crate::reach::{join_commas, PathTier};
use crate::text::{decode_pubkey_hex, same_bytes, same_text, strip_prefix_text, trim_text};
use vstd::prelude::*;

verus! {

/// The key under which a device publishes its remote desktop id.
pub const SETTING_RUSTDESK_ID: &'static str = "rustdesk.id";

/// The key under which a device publishes its addresses on the local network.
pub const SETTING_RUSTDESK_LAN: &'static str = "rustdesk.lan";

/// What stands before a device key, in hexadecimal, in the key of the name that a user gave it.
pub const SETTING_NAME_PREFIX: &'static str = "fleet.name.";

/// A typed value of the fleet's settings.
#[verifier::external_type_specification]
#[verifier::external_body]
pub struct ExVsfType(vsf::VsfType);

/// A setting's value: text, or a value of another type, which is passed on as it is.
pub enum SettingValue {
    Text(String),
    Other(vsf::VsfType),
}

/// What a value says.
pub ghost enum ValueView {
    Text(Seq<char>),
    Other(vsf::VsfType),
}

impl View for SettingValue {
    type V = ValueView;

    open spec fn view(&self) -> ValueView {
        match self {
            SettingValue::Text(text) => ValueView::Text(text@),
            SettingValue::Other(value) => ValueView::Other(*value),
        }
    }
}

/// A setting in a device's own map.
pub struct DeviceSetting {
    pub key: String,
    pub value: SettingValue,
    pub updated: i64,
    pub linked: bool,
}

/// What a setting says.
pub ghost struct SettingView {
    pub key: Seq<char>,
    pub value: ValueView,
    pub updated: i64,
    pub linked: bool,
}

impl View for DeviceSetting {
    type V = SettingView;

    open spec fn view(&self) -> SettingView {
        SettingView { key: self.key@, value: self.value@, updated: self.updated, linked: self.linked }
    }
}

/// What a row of settings says.
pub open spec fn settings_view(entries: Seq<DeviceSetting>) -> Seq<SettingView> {
    Seq::new(entries.len(), |i: int| entries[i]@)
}

/// A device's own map of settings.
pub struct DeviceSettings {
    pub device_pubkey: [u8; 32],
    pub updated: i64,
    pub entries: Vec<DeviceSetting>,
}

/// What a device's map says.
pub ghost struct DeviceView {
    pub device: Seq<u8>,
    pub updated: i64,
    pub entries: Seq<SettingView>,
}

impl View for DeviceSettings {
    type V = DeviceView;

    open spec fn view(&self) -> DeviceView {
        DeviceView { device: self.device_pubkey@, updated: self.updated, entries: settings_view(self.entries@) }
    }
}

/// What all devices' maps say.
pub open spec fn devices_view(devices: Seq<DeviceSettings>) -> Seq<DeviceView> {
    Seq::new(devices.len(), |i: int| devices[i]@)
}

/// A setting of the whole fleet.
pub struct GlobalSetting {
    pub key: String,
    pub value: SettingValue,
}

impl View for GlobalSetting {
    type V = (Seq<char>, ValueView);

    open spec fn view(&self) -> (Seq<char>, ValueView) {
        (self.key@, self.value@)
    }
}

/// What the fleet's settings say.
pub open spec fn globals_view(globals: Seq<GlobalSetting>) -> Seq<(Seq<char>, ValueView)> {
    Seq::new(globals.len(), |i: int| globals[i]@)
}

// ── publishing ──

/// Where the first setting with this key stands, or the length.
pub open spec fn place_of(entries: Seq<SettingView>, key: Seq<char>) -> int
    decreases entries.len(),
{
    if entries.len() == 0 || entries[0].key == key {
        0
    } else {
        1 + place_of(entries.skip(1), key)
    }
}

/// The settings with `entry` in place of the first one with its key, or behind them where there is
/// none.
pub open spec fn with_setting(entries: Seq<SettingView>, entry: SettingView) -> Seq<SettingView> {
    let at = place_of(entries, entry.key);
    if at < entries.len() {
        entries.update(at, entry)
    } else {
        entries.push(entry)
    }
}

/// Where the first map of this device stands, or the length.
pub open spec fn map_of(devices: Seq<DeviceView>, device: Seq<u8>) -> int
    decreases devices.len(),
{
    if devices.len() == 0 || devices[0].device == device {
        0
    } else {
        1 + map_of(devices.skip(1), device)
    }
}

/// A setting of this device alone, as text.
pub open spec fn own_setting(key: Seq<char>, text: Seq<char>, now: i64) -> SettingView {
    SettingView { key, value: ValueView::Text(text), updated: now, linked: false }
}

/// What a device publishes about itself: its remote desktop id, and its addresses where it has any.
pub open spec fn own_entries(id: Seq<char>, lan: Seq<Seq<char>>, now: i64) -> Seq<SettingView> {
    let first = own_setting(SETTING_RUSTDESK_ID@, id, now);
    if lan.len() > 0 {
        seq![first, own_setting(SETTING_RUSTDESK_LAN@, crate::reach::comma_joined(lan), now)]
    } else {
        seq![first]
    }
}

/// The settings with each of `entries` put in, in order.
pub open spec fn with_settings(settings: Seq<SettingView>, entries: Seq<SettingView>) -> Seq<SettingView>
    decreases entries.len(),
{
    if entries.len() == 0 {
        settings
    } else {
        with_setting(with_settings(settings, entries.drop_last()), entries.last())
    }
}

/// All devices' maps after this device has published `entries`: put into its own map, or into a new
/// map behind the others where it has none.
pub open spec fn with_published(
    devices: Seq<DeviceView>,
    me: Seq<u8>,
    entries: Seq<SettingView>,
    now: i64,
) -> Seq<DeviceView> {
    let at = map_of(devices, me);
    if at < devices.len() {
        devices.update(
            at,
            DeviceView { device: devices[at].device, updated: now, entries: with_settings(devices[at].entries, entries) },
        )
    } else {
        devices.push(DeviceView { device: me, updated: now, entries })
    }
}

proof fn lemma_place_bounds(entries: Seq<SettingView>, key: Seq<char>)
    ensures
        0 <= place_of(entries, key) <= entries.len(),
        place_of(entries, key) < entries.len() ==> entries[place_of(entries, key)].key == key,
        forall|j: int| 0 <= j < place_of(entries, key) ==> (#[trigger] entries[j]).key != key,
    decreases entries.len(),
{
    if entries.len() > 0 && entries[0].key != key {
        let rest = entries.skip(1);
        lemma_place_bounds(rest, key);
        assert forall|j: int| 0 <= j < place_of(entries, key) implies (#[trigger] entries[j]).key != key by {
            if j > 0 {
                assert(rest[j - 1] == entries[j]);
            }
        }
    }
}

proof fn lemma_map_bounds(devices: Seq<DeviceView>, device: Seq<u8>)
    ensures
        0 <= map_of(devices, device) <= devices.len(),
        map_of(devices, device) < devices.len() ==> devices[map_of(devices, device)].device == device,
        forall|j: int| 0 <= j < map_of(devices, device) ==> (#[trigger] devices[j]).device != device,
    decreases devices.len(),
{
    if devices.len() > 0 && devices[0].device != device {
        let rest = devices.skip(1);
        lemma_map_bounds(rest, device);
        assert forall|j: int| 0 <= j < map_of(devices, device) implies (#[trigger] devices[j]).device != device by {
            if j > 0 {
                assert(rest[j - 1] == devices[j]);
            }
        }
    }
}

fn put_setting(entries: &mut Vec<DeviceSetting>, entry: DeviceSetting)
    ensures
        settings_view(final(entries)@) == with_setting(settings_view(old(entries)@), entry@),
{
    let ghost before = settings_view(entries@);
    let ghost put = entry@;
    proof {
        lemma_place_bounds(before, put.key);
    }
    let mut i: usize = 0;
    while i < entries.len()
        invariant
            i <= entries@.len(),
            entries@ == old(entries)@,
            before == settings_view(entries@),
            put == entry@,
            i <= place_of(before, put.key) <= before.len(),
            place_of(before, put.key) < before.len() ==> before[place_of(before, put.key)].key == put.key,
            forall|j: int| 0 <= j < place_of(before, put.key) ==> (#[trigger] before[j]).key != put.key,
        decreases entries@.len() - i,
    {
        assert(before[i as int].key == entries@[i as int].key@);
        if same_text(entries[i].key.as_str(), entry.key.as_str()) {
            entries[i] = entry;
            assert(settings_view(entries@) == before.update(i as int, put));
            return;
        }
        i = i + 1;
    }
    entries.push(entry);
    assert(settings_view(entries@) == before.push(put));
}

fn own_text_setting(key: &str, text: String, now: i64) -> (r: DeviceSetting)
    ensures
        r@ == own_setting(key@, text@, now),
{
    DeviceSetting { key: key.to_owned(), value: SettingValue::Text(text), updated: now, linked: false }
}

/// Put what this device publishes about itself into the fleet's maps. Other devices' maps, and what
/// else this device's own map holds, stay as they are.
pub fn merge_own_settings(devices: &mut Vec<DeviceSettings>, me: &[u8; 32], now: i64, id: String, lan: &Vec<String>)
    ensures
        devices_view(final(devices)@) == with_published(
            devices_view(old(devices)@),
            me@,
            own_entries(id@, crate::reach::texts_view(lan@), now),
            now,
        ),
{
    let ghost before = devices_view(devices@);
    let ghost texts = crate::reach::texts_view(lan@);
    let ghost entries = own_entries(id@, texts, now);
    let ghost said = id@;
    let first = own_text_setting(SETTING_RUSTDESK_ID, id, now);
    let second = if lan.len() > 0 {
        Some(own_text_setting(SETTING_RUSTDESK_LAN, join_commas(lan), now))
    } else {
        None
    };
    proof {
        lemma_map_bounds(before, me@);
    }
    let mut i: usize = 0;
    while i < devices.len()
        invariant_except_break
            i <= devices@.len(),
            i <= map_of(before, me@),
        invariant
            devices@ == old(devices)@,
            before == devices_view(devices@),
            map_of(before, me@) <= before.len(),
            map_of(before, me@) < before.len() ==> before[map_of(before, me@)].device == me@,
            forall|j: int| 0 <= j < map_of(before, me@) ==> (#[trigger] before[j]).device != me@,
        ensures
            i == map_of(before, me@),
        decreases devices@.len() - i,
    {
        assert(before[i as int].device == devices@[i as int].device_pubkey@);
        if same_bytes(devices[i].device_pubkey.as_slice(), me.as_slice()) {
            break;
        }
        i = i + 1;
    }
    if i < devices.len() {
        let mut map = devices.remove(i);
        let ghost own = settings_view(map.entries@);
        assert(before[i as int].entries == own);
        put_setting(&mut map.entries, first);
        proof {
            reveal_with_fuel(with_settings, 3);
            let one = seq![own_setting(SETTING_RUSTDESK_ID@, said, now)];
            assert(one.drop_last() == Seq::<SettingView>::empty());
            assert(with_settings(own, one) == settings_view(map.entries@));
            if texts.len() > 0 {
                assert(entries.drop_last() == one);
            } else {
                assert(entries == one);
            }
        }
        if let Some(entry) = second {
            put_setting(&mut map.entries, entry);
        }
        assert(with_settings(own, entries) == settings_view(map.entries@));
        map.updated = now;
        let ghost done = map@;
        devices.insert(i, map);
        assert(devices_view(devices@) == before.update(i as int, done));
    } else {
        let mut list: Vec<DeviceSetting> = Vec::new();
        list.push(first);
        if let Some(entry) = second {
            list.push(entry);
        }
        assert(settings_view(list@) == entries);
        let map = DeviceSettings { device_pubkey: *me, updated: now, entries: list };
        let ghost done = map@;
        devices.push(map);
        assert(devices_view(devices@) == before.push(done));
    }
}

/// Publishing touches no map but this device's own: every other one stands where it stood.
pub proof fn law_siblings_are_untouched(devices: Seq<DeviceView>, me: Seq<u8>, entries: Seq<SettingView>, now: i64, i: int)
    requires
        0 <= i < devices.len(),
        devices[i].device != me,
    ensures
        with_published(devices, me, entries, now).len() >= devices.len(),
        with_published(devices, me, entries, now)[i] == devices[i],
{
    lemma_map_bounds(devices, me);
}

proof fn lemma_with_settings_keeps(settings: Seq<SettingView>, entries: Seq<SettingView>, i: int)
    requires
        0 <= i < settings.len(),
        forall|k: int| 0 <= k < entries.len() ==> (#[trigger] entries[k]).key != settings[i].key,
    ensures
        with_settings(settings, entries).len() >= settings.len(),
        with_settings(settings, entries)[i] == settings[i],
    decreases entries.len(),
{
    if entries.len() > 0 {
        let shorter = entries.drop_last();
        assert forall|k: int| 0 <= k < shorter.len() implies (#[trigger] shorter[k]).key != settings[i].key by {
            assert(shorter[k] == entries[k]);
        }
        lemma_with_settings_keeps(settings, shorter, i);
        assert(entries.last() == entries[entries.len() - 1]);
        lemma_place_bounds(with_settings(settings, shorter), entries.last().key);
    }
}

/// Publishing leaves alone every setting of this device that is stored under another key.
pub proof fn law_other_settings_are_untouched(
    devices: Seq<DeviceView>,
    me: Seq<u8>,
    id: Seq<char>,
    lan: Seq<Seq<char>>,
    now: i64,
    i: int,
)
    requires
        map_of(devices, me) < devices.len(),
        0 <= i < devices[map_of(devices, me)].entries.len(),
        devices[map_of(devices, me)].entries[i].key != SETTING_RUSTDESK_ID@,
        devices[map_of(devices, me)].entries[i].key != SETTING_RUSTDESK_LAN@,
    ensures
        with_published(devices, me, own_entries(id, lan, now), now)[map_of(devices, me)].entries.len() > i,
        with_published(devices, me, own_entries(id, lan, now), now)[map_of(devices, me)].entries[i] == devices[map_of(
            devices,
            me,
        )].entries[i],
{
    lemma_map_bounds(devices, me);
    lemma_with_settings_keeps(devices[map_of(devices, me)].entries, own_entries(id, lan, now), i);
}

// ── reading ──

/// The last text that is stored under a key.
pub open spec fn text_under(entries: Seq<SettingView>, key: Seq<char>) -> Option<Seq<char>>
    decreases entries.len(),
{
    if entries.len() == 0 {
        None
    } else {
        match entries.last().value {
            ValueView::Text(text) => if entries.last().key == key {
                Some(text)
            } else {
                text_under(entries.drop_last(), key)
            },
            ValueView::Other(_) => text_under(entries.drop_last(), key),
        }
    }
}

/// The last text that a device's map stores under a key.
pub open spec fn setting_of(devices: Seq<DeviceView>, device: Seq<u8>, key: Seq<char>) -> Option<Seq<char>>
    decreases devices.len(),
{
    if devices.len() == 0 {
        None
    } else if devices.last().device == device && text_under(devices.last().entries, key) is Some {
        text_under(devices.last().entries, key)
    } else {
        setting_of(devices.drop_last(), device, key)
    }
}

/// The device that a fleet-wide setting names, and the name: the key is the prefix and the device
/// key in hexadecimal, the value a text with more than white space in it.
pub open spec fn naming(setting: (Seq<char>, ValueView)) -> Option<(Seq<u8>, Seq<char>)> {
    match (crate::text::stripped_prefix(setting.0, SETTING_NAME_PREFIX@), setting.1) {
        (Some(rest), ValueView::Text(text)) => if crate::text::is_pubkey_hex(rest) && crate::text::trimmed(text).len() > 0 {
            Some((crate::text::hex_bytes(rest), crate::text::trimmed(text)))
        } else {
            None
        },
        _ => None,
    }
}

/// The last name that the fleet's settings give a device.
pub open spec fn name_of(globals: Seq<(Seq<char>, ValueView)>, device: Seq<u8>) -> Option<Seq<char>>
    decreases globals.len(),
{
    if globals.len() == 0 {
        None
    } else {
        match naming(globals.last()) {
            Some((named, name)) => if named == device {
                Some(name)
            } else {
                name_of(globals.drop_last(), device)
            },
            None => name_of(globals.drop_last(), device),
        }
    }
}

/// What an optional text says.
pub open spec fn opt_text(text: Option<String>) -> Option<Seq<char>> {
    match text {
        Some(t) => Some(t@),
        None => None,
    }
}

fn find_text(entries: &Vec<DeviceSetting>, key: &str) -> (r: Option<String>)
    ensures
        opt_text(r) == text_under(settings_view(entries@), key@),
{
    let mut i: usize = entries.len();
    let ghost all = settings_view(entries@);
    assert(all.take(all.len() as int) == all);
    while i > 0
        invariant
            i <= entries@.len(),
            all == settings_view(entries@),
            text_under(all, key@) == text_under(all.take(i as int), key@),
        decreases i,
    {
        assert(all.take(i as int).last() == entries@[i - 1]@);
        assert(all.take(i as int).drop_last() == all.take(i - 1));
        if let SettingValue::Text(text) = &entries[i - 1].value {
            if same_text(entries[i - 1].key.as_str(), key) {
                return Some(text.clone());
            }
        }
        i = i - 1;
    }
    None
}

fn find_setting(devices: &Vec<DeviceSettings>, device: &[u8; 32], key: &str) -> (r: Option<String>)
    ensures
        opt_text(r) == setting_of(devices_view(devices@), device@, key@),
{
    let mut i: usize = devices.len();
    let ghost all = devices_view(devices@);
    assert(all.take(all.len() as int) == all);
    while i > 0
        invariant
            i <= devices@.len(),
            all == devices_view(devices@),
            setting_of(all, device@, key@) == setting_of(all.take(i as int), device@, key@),
        decreases i,
    {
        assert(all.take(i as int).last() == devices@[i - 1]@);
        assert(all.take(i as int).drop_last() == all.take(i - 1));
        if same_bytes(devices[i - 1].device_pubkey.as_slice(), device.as_slice()) {
            let found = find_text(&devices[i - 1].entries, key);
            if found.is_some() {
                return found;
            }
        }
        i = i - 1;
    }
    None
}

fn read_naming(setting: &GlobalSetting) -> (r: Option<([u8; 32], String)>)
    ensures
        match r {
            Some((device, name)) => naming(setting@) == Some((device@, name@)),
            None => naming(setting@) is None,
        },
{
    let rest = match strip_prefix_text(setting.key.as_str(), SETTING_NAME_PREFIX) {
        Some(rest) => rest,
        None => return None,
    };
    let device = match decode_pubkey_hex(rest.as_str()) {
        Some(device) => device,
        None => return None,
    };
    match &setting.value {
        SettingValue::Text(text) => {
            let name = trim_text(text.as_str());
            if name.as_str().is_empty() {
                None
            } else {
                Some((device, name))
            }
        },
        SettingValue::Other(_) => None,
    }
}

fn find_name(globals: &Vec<GlobalSetting>, device: &[u8; 32]) -> (r: Option<String>)
    ensures
        opt_text(r) == name_of(globals_view(globals@), device@),
{
    let mut i: usize = globals.len();
    let ghost all = globals_view(globals@);
    assert(all.take(all.len() as int) == all);
    while i > 0
        invariant
            i <= globals@.len(),
            all == globals_view(globals@),
            name_of(all, device@) == name_of(all.take(i as int), device@),
        decreases i,
    {
        assert(all.take(i as int).last() == globals@[i - 1]@);
        assert(all.take(i as int).drop_last() == all.take(i - 1));
        if let Some((named, name)) = read_naming(&globals[i - 1]) {
            if same_bytes(named.as_slice(), device.as_slice()) {
                return Some(name);
            }
        }
        i = i - 1;
    }
    None
}

// ── the list of devices ──

/// One device of the fleet, as a chooser shows it.
pub struct FleetDevice {
    pub pubkey: [u8; 32],
    /// The name that the user gave it, or its default name.
    pub name: String,
    /// Its remote desktop id, once it has published one.
    pub rustdesk_id: Option<String>,
    /// This machine's own entry.
    pub is_self: bool,
    /// Whether its pipe is open; `None` where that is not known.
    pub online: Option<bool>,
    /// The addresses that it published.
    pub lan_addr: Option<String>,
    /// The best direct path that answered.
    pub direct_tier: Option<PathTier>,
}

/// The entry of one member says what the settings say of it, before anything was probed.
pub open spec fn lists(
    entry: FleetDevice,
    member: Seq<u8>,
    identity_seed: Seq<u8>,
    me: Option<Seq<u8>>,
    globals: Seq<(Seq<char>, ValueView)>,
    devices: Seq<DeviceView>,
) -> bool {
    &&& entry.pubkey@ == member
    &&& entry.name@ == (match name_of(globals, member) {
        Some(name) => name,
        None => crate::keys::default_name(member, identity_seed),
    })
    &&& opt_text(entry.rustdesk_id) == setting_of(devices, member, SETTING_RUSTDESK_ID@)
    &&& opt_text(entry.lan_addr) == setting_of(devices, member, SETTING_RUSTDESK_LAN@)
    &&& entry.is_self == (me == Some(member))
    &&& entry.online is None
    &&& entry.direct_tier is None
}

/// The fleet's members, or why they are not known: nobody is logged in, no chain is to be had, or
/// the chain does not fold.
pub fn roster_members(session: bool, chain: Result<Chain, ChainError>) -> (r: Result<Vec<[u8; 32]>, String>)
    ensures
        if !session {
            r matches Err(text) && text@ == "not logged in on this machine"@
        } else {
            match chain {
                Err(e) => r matches Err(text) && text@ == e.text(),
                Ok(c) => match c.fold {
                    Ok(fold) => r matches Ok(members) && members@ == fold.members@,
                    Err(e) => r matches Err(text) && text@ == "fleet does not fold: "@ + e@,
                },
            }
        },
{
    if !session {
        return Err("not logged in on this machine".to_owned());
    }
    match chain {
        Err(e) => Err(e.message()),
        Ok(c) => members_of(c),
    }
}

/// A chain's members, or why it has none.
pub fn members_of(chain: Chain) -> (r: Result<Vec<[u8; 32]>, String>)
    ensures
        match chain.fold {
            Ok(fold) => r matches Ok(members) && members@ == fold.members@,
            Err(e) => r matches Err(text) && text@ == "fleet does not fold: "@ + e@,
        },
{
    match chain.fold {
        Ok(fold) => Ok(fold.members),
        Err(e) => Err(joined("fleet does not fold: ", e.as_str())),
    }
}

/// The fleet as a list: one entry per member, in order, with its name and what it published.
/// Without the shared settings, hand in none: the list is then names only.
pub fn fleet_roster(
    members: &Vec<[u8; 32]>,
    identity_seed: &[u8; 32],
    me: Option<[u8; 32]>,
    globals: &Vec<GlobalSetting>,
    devices: &Vec<DeviceSettings>,
) -> (r: Vec<FleetDevice>)
    ensures
        r@.len() == members@.len(),
        forall|i: int|
            0 <= i < r@.len() ==> lists(
                #[trigger] r@[i],
                members@[i]@,
                identity_seed@,
                crate::chain::opt_key(me),
                globals_view(globals@),
                devices_view(devices@),
            ),
{
    let mut out: Vec<FleetDevice> = Vec::new();
    let mut i: usize = 0;
    while i < members.len()
        invariant
            i <= members@.len(),
            out@.len() == i,
            forall|j: int|
                0 <= j < i ==> lists(
                    #[trigger] out@[j],
                    members@[j]@,
                    identity_seed@,
                    crate::chain::opt_key(me),
                    globals_view(globals@),
                    devices_view(devices@),
                ),
        decreases members@.len() - i,
    {
        let m = members[i];
        let name = match find_name(globals, &m) {
            Some(name) => name,
            None => device_name_default(&m, identity_seed),
        };
        let is_self: bool = match me {
            Some(k) => same_bytes(k.as_slice(), m.as_slice()),
            None => false,
        };
        let entry = FleetDevice {
            pubkey: m,
            name,
            rustdesk_id: find_setting(devices, &m, SETTING_RUSTDESK_ID),
            is_self,
            online: None,
            lan_addr: find_setting(devices, &m, SETTING_RUSTDESK_LAN),
            direct_tier: None,
        };
        out.push(entry);
        i = i + 1;
    }
    out
}

/// Enter what probing a device found. This machine's own entry is not probed.
pub fn record_probe(entry: &mut FleetDevice, online: Option<bool>, direct_tier: Option<PathTier>)
    ensures
        final(entry).pubkey == old(entry).pubkey,
        final(entry).name == old(entry).name,
        final(entry).rustdesk_id == old(entry).rustdesk_id,
        final(entry).is_self == old(entry).is_self,
        final(entry).lan_addr == old(entry).lan_addr,
        final(entry).online == (if old(entry).is_self { old(entry).online } else { online }),
        final(entry).direct_tier == (if old(entry).is_self { old(entry).direct_tier } else { direct_tier }),
{
    if !entry.is_self {
        entry.online = online;
        entry.direct_tier = direct_tier;
    }
}

/// The entry is another device with this remote desktop id.
pub open spec fn answers_to(entry: FleetDevice, id: Seq<char>) -> bool {
    !entry.is_self && opt_text(entry.rustdesk_id) == Some(id)
}

/// The first other device with this remote desktop id, with the addresses that it published.
/// `None` where the list could not be had or nobody in it has that id.
pub fn device_and_lan_for_rustdesk_id(roster: Option<&Vec<FleetDevice>>, id: &str) -> (r: Option<([u8; 32], Option<String>)>)
    ensures
        match roster {
            None => r is None,
            Some(list) => match r {
                Some((device, lan)) => exists|i: int|
                    {
                        &&& 0 <= i < list@.len()
                        &&& answers_to(#[trigger] list@[i], id@)
                        &&& forall|j: int| 0 <= j < i ==> !answers_to(#[trigger] list@[j], id@)
                        &&& device == list@[i].pubkey
                        &&& opt_text(lan) == opt_text(list@[i].lan_addr)
                    },
                None => forall|i: int| 0 <= i < list@.len() ==> !answers_to(#[trigger] list@[i], id@),
            },
        },
{
    let list = match roster {
        Some(list) => list,
        None => return None,
    };
    let mut i: usize = 0;
    while i < list.len()
        invariant
            i <= list@.len(),
            roster == Some(list),
            forall|j: int| 0 <= j < i ==> !answers_to(#[trigger] list@[j], id@),
        decreases list@.len() - i,
    {
        if !list[i].is_self {
            if let Some(text) = &list[i].rustdesk_id {
                if same_text(text.as_str(), id) {
                    let lan = match &list[i].lan_addr {
                        Some(lan) => Some(lan.clone()),
                        None => None,
                    };
                    let found = list[i].pubkey;
                    assert(answers_to(list@[i as int], id@));
                    assert(opt_text(lan) == opt_text(list@[i as int].lan_addr));
                    assert(roster->0@ == list@);
                    return Some((found, lan));
                }
            }
        }
        assert(!answers_to(list@[i as int], id@));
        i = i + 1;
    }
    None
}

/// The first other device with this remote desktop id.
pub fn device_for_rustdesk_id(roster: Option<&Vec<FleetDevice>>, id: &str) -> (r: Option<[u8; 32]>)
    ensures
        match roster {
            None => r is None,
            Some(list) => match r {
                Some(device) => exists|i: int|
                    {
                        &&& 0 <= i < list@.len()
                        &&& answers_to(#[trigger] list@[i], id@)
                        &&& forall|j: int| 0 <= j < i ==> !answers_to(#[trigger] list@[j], id@)
                        &&& device == list@[i].pubkey
                    },
                None => forall|i: int| 0 <= i < list@.len() ==> !answers_to(#[trigger] list@[i], id@),
            },
        },
{
    match device_and_lan_for_rustdesk_id(roster, id) {
        Some((device, _)) => Some(device),
        None => None,
    }
}

// ── publishing and reading together ──

/// The first setting under `key` is the only one under it with a text.
pub open spec fn said_once(entries: Seq<SettingView>, key: Seq<char>) -> bool {
    forall|i: int, j: int|
        0 <= i < j < entries.len() && (#[trigger] entries[i]).key == key && (#[trigger] entries[j]).key == key
            ==> entries[j].value is Other
}

/// Nothing but a device's first map says a text under `key` for it, and that map at most once.
pub open spec fn speaks_once(devices: Seq<DeviceView>, device: Seq<u8>, key: Seq<char>) -> bool {
    &&& map_of(devices, device) < devices.len() ==> said_once(devices[map_of(devices, device)].entries, key)
    &&& forall|i: int|
        map_of(devices, device) < i < devices.len() && (#[trigger] devices[i]).device == device ==> text_under(
            devices[i].entries,
            key,
        ) is None
}

proof fn lemma_text_at(entries: Seq<SettingView>, i: int, text: Seq<char>)
    requires
        0 <= i < entries.len(),
        entries[i].value == ValueView::Text(text),
        forall|j: int| i < j < entries.len() && (#[trigger] entries[j]).key == entries[i].key ==> entries[j].value is Other,
    ensures
        text_under(entries, entries[i].key) == Some(text),
    decreases entries.len(),
{
    assert(entries.last() == entries[entries.len() - 1]);
    if i < entries.len() - 1 {
        let shorter = entries.drop_last();
        assert(shorter[i] == entries[i]);
        assert forall|j: int| i < j < shorter.len() && (#[trigger] shorter[j]).key == shorter[i].key implies shorter[j].value is Other by {
            assert(shorter[j] == entries[j]);
        }
        lemma_text_at(shorter, i, text);
    }
}

proof fn lemma_text_update(entries: Seq<SettingView>, i: int, entry: SettingView, key: Seq<char>)
    requires
        0 <= i < entries.len(),
        entries[i].key != key,
        entry.key != key,
    ensures
        text_under(entries.update(i, entry), key) == text_under(entries, key),
    decreases entries.len(),
{
    let after = entries.update(i, entry);
    if i < entries.len() - 1 {
        assert(after.last() == entries.last());
        assert(after.drop_last() == entries.drop_last().update(i, entry));
        lemma_text_update(entries.drop_last(), i, entry, key);
    } else {
        assert(after.drop_last() == entries.drop_last());
    }
}

proof fn lemma_setting_at(devices: Seq<DeviceView>, i: int, key: Seq<char>)
    requires
        0 <= i < devices.len(),
        text_under(devices[i].entries, key) is Some,
        forall|j: int|
            i < j < devices.len() && (#[trigger] devices[j]).device == devices[i].device ==> text_under(
                devices[j].entries,
                key,
            ) is None,
    ensures
        setting_of(devices, devices[i].device, key) == text_under(devices[i].entries, key),
    decreases devices.len(),
{
    assert(devices.last() == devices[devices.len() - 1]);
    if i < devices.len() - 1 {
        let shorter = devices.drop_last();
        assert(shorter[i] == devices[i]);
        assert forall|j: int| i < j < shorter.len() && (#[trigger] shorter[j]).device == shorter[i].device implies text_under(
            shorter[j].entries,
            key,
        ) is None by {
            assert(shorter[j] == devices[j]);
        }
        lemma_setting_at(shorter, i, key);
    }
}

/// A text that is put in is read back where its key speaks once; what is read under another key
/// stays, and so does whether that key speaks once.
proof fn lemma_with_setting(entries: Seq<SettingView>, entry: SettingView, text: Seq<char>, key: Seq<char>)
    requires
        entry.value == ValueView::Text(text),
    ensures
        said_once(entries, entry.key) ==> text_under(with_setting(entries, entry), entry.key) == Some(text),
        key != entry.key ==> text_under(with_setting(entries, entry), key) == text_under(entries, key),
        key != entry.key && said_once(entries, key) ==> said_once(with_setting(entries, entry), key),
{
    lemma_place_bounds(entries, entry.key);
    let at = place_of(entries, entry.key);
    let after = with_setting(entries, entry);
    assert(after[at] == entry);
    if said_once(entries, entry.key) {
        assert forall|j: int| at < j < after.len() && (#[trigger] after[j]).key == entry.key implies after[j].value is Other by {
            assert(after[j] == entries[j]);
            assert(entries[at].key == entry.key);
        }
        lemma_text_at(after, at, text);
    }
    if key != entry.key {
        if at < entries.len() {
            lemma_text_update(entries, at, entry, key);
        } else {
            assert(after.drop_last() == entries);
        }
        if said_once(entries, key) {
            assert forall|i: int, j: int|
                0 <= i < j < after.len() && (#[trigger] after[i]).key == key && (#[trigger] after[j]).key == key implies after[j].value is Other by {
                assert(after[i] == entries[i] && after[j] == entries[j]);
            }
        }
    }
}

proof fn lemma_keys_differ()
    ensures
        SETTING_RUSTDESK_ID@ != SETTING_RUSTDESK_LAN@,
{
    reveal_strlit("rustdesk.id");
    reveal_strlit("rustdesk.lan");
    assert(SETTING_RUSTDESK_ID@.len() == 11);
    assert(SETTING_RUSTDESK_LAN@.len() == 12);
}

/// What the own map says after publishing, under the two keys.
proof fn lemma_own_map(settings: Seq<SettingView>, id: Seq<char>, lan: Seq<Seq<char>>, now: i64)
    ensures
        said_once(settings, SETTING_RUSTDESK_ID@) ==> text_under(
            with_settings(settings, own_entries(id, lan, now)),
            SETTING_RUSTDESK_ID@,
        ) == Some(id),
        lan.len() > 0 && said_once(settings, SETTING_RUSTDESK_LAN@) ==> text_under(
            with_settings(settings, own_entries(id, lan, now)),
            SETTING_RUSTDESK_LAN@,
        ) == Some(crate::reach::comma_joined(lan)),
{
    lemma_keys_differ();
    let entries = own_entries(id, lan, now);
    let first = own_setting(SETTING_RUSTDESK_ID@, id, now);
    let one = seq![first];
    reveal_with_fuel(with_settings, 3);
    assert(one.drop_last() == Seq::<SettingView>::empty());
    let mid = with_setting(settings, first);
    assert(with_settings(settings, one) == mid);
    lemma_with_setting(settings, first, id, SETTING_RUSTDESK_LAN@);
    if lan.len() > 0 {
        let addresses = crate::reach::comma_joined(lan);
        assert(entries.drop_last() == one);
        lemma_with_setting(mid, own_setting(SETTING_RUSTDESK_LAN@, addresses, now), addresses, SETTING_RUSTDESK_ID@);
    } else {
        assert(entries == one);
    }
}

/// What a device's new map says, under the two keys.
proof fn lemma_new_map(id: Seq<char>, lan: Seq<Seq<char>>, now: i64)
    ensures
        text_under(own_entries(id, lan, now), SETTING_RUSTDESK_ID@) == Some(id),
        lan.len() > 0 ==> text_under(own_entries(id, lan, now), SETTING_RUSTDESK_LAN@) == Some(
            crate::reach::comma_joined(lan),
        ),
{
    lemma_keys_differ();
    let entries = own_entries(id, lan, now);
    lemma_text_at(entries, 0, id);
    if lan.len() > 0 {
        lemma_text_at(entries, 1, crate::reach::comma_joined(lan));
    }
}

/// The id that a device publishes is the one that the others read.
pub proof fn law_published_id_is_read(devices: Seq<DeviceView>, me: Seq<u8>, id: Seq<char>, lan: Seq<Seq<char>>, now: i64)
    requires
        speaks_once(devices, me, SETTING_RUSTDESK_ID@),
    ensures
        setting_of(with_published(devices, me, own_entries(id, lan, now), now), me, SETTING_RUSTDESK_ID@) == Some(id),
{
    lemma_map_bounds(devices, me);
    let at = map_of(devices, me);
    let after = with_published(devices, me, own_entries(id, lan, now), now);
    if at < devices.len() {
        lemma_own_map(devices[at].entries, id, lan, now);
    } else {
        lemma_new_map(id, lan, now);
    }
    lemma_setting_at(after, at, SETTING_RUSTDESK_ID@);
}

/// The addresses that a device publishes are the ones that the others read.
pub proof fn law_published_addresses_are_read(
    devices: Seq<DeviceView>,
    me: Seq<u8>,
    id: Seq<char>,
    lan: Seq<Seq<char>>,
    now: i64,
)
    requires
        lan.len() > 0,
        speaks_once(devices, me, SETTING_RUSTDESK_LAN@),
    ensures
        setting_of(with_published(devices, me, own_entries(id, lan, now), now), me, SETTING_RUSTDESK_LAN@) == Some(
            crate::reach::comma_joined(lan),
        ),
{
    lemma_map_bounds(devices, me);
    let at = map_of(devices, me);
    let after = with_published(devices, me, own_entries(id, lan, now), now);
    if at < devices.len() {
        lemma_own_map(devices[at].entries, id, lan, now);
    } else {
        lemma_new_map(id, lan, now);
    }
    lemma_setting_at(after, at, SETTING_RUSTDESK_LAN@);
}

// ── what is stored and what is read, entry by entry ──

/// The names of what devices publish, and of the names that users give.
pub proof fn law_setting_keys()
    ensures
        SETTING_RUSTDESK_ID@ == "rustdesk.id"@,
        SETTING_RUSTDESK_LAN@ == "rustdesk.lan"@,
        SETTING_NAME_PREFIX@ == "fleet.name."@,
{
}

/// A setting takes the place of the first one with its key and leaves every other one where it is; where
/// there is none it comes behind them all.
pub proof fn law_setting_takes_its_place(entries: Seq<SettingView>, entry: SettingView, at: int)
    requires
        0 <= at <= entries.len(),
        forall|j: int| 0 <= j < at ==> (#[trigger] entries[j]).key != entry.key,
        at < entries.len() ==> entries[at].key == entry.key,
    ensures
        at < entries.len() ==> with_setting(entries, entry) == entries.update(at, entry),
        at == entries.len() ==> with_setting(entries, entry) == entries.push(entry),
{
    lemma_place_bounds(entries, entry.key);
    let found = place_of(entries, entry.key);
    if found < at {
        assert(entries[found].key == entry.key);
    }
    if at < found {
        assert(entries[at].key == entry.key);
    }
}

/// A device publishes its remote desktop id and, behind it, its addresses with commas between them, the
/// latter only where there are any. Both are texts of its own that no other device shares, of this
/// moment.
pub proof fn law_what_is_published(id: Seq<char>, lan: Seq<Seq<char>>, now: i64)
    ensures
        own_entries(id, Seq::empty(), now) == seq![
            (SettingView { key: "rustdesk.id"@, value: ValueView::Text(id), updated: now, linked: false }),
        ],
        lan.len() > 0 ==> own_entries(id, lan, now) == seq![
            (SettingView { key: "rustdesk.id"@, value: ValueView::Text(id), updated: now, linked: false }),
            (SettingView {
                key: "rustdesk.lan"@,
                value: ValueView::Text(crate::reach::comma_joined(lan)),
                updated: now,
                linked: false,
            }),
        ],
{
}

/// A device that has a map keeps it where it is, under its key and with this moment as its age; one that
/// has none gets one behind the others.
pub proof fn law_published_map(devices: Seq<DeviceView>, me: Seq<u8>, entries: Seq<SettingView>, now: i64, at: int)
    requires
        0 <= at <= devices.len(),
        forall|j: int| 0 <= j < at ==> (#[trigger] devices[j]).device != me,
        at < devices.len() ==> devices[at].device == me,
    ensures
        ({
            let after = with_published(devices, me, entries, now);
            &&& at < devices.len() ==> after.len() == devices.len()
            &&& at == devices.len() ==> after.len() == devices.len() + 1 && after[at].entries == entries
            &&& after[at].device == me
            &&& after[at].updated == now
            &&& forall|i: int| 0 <= i < devices.len() && i != at ==> #[trigger] after[i] == devices[i]
        }),
        at < devices.len() && entries.len() > 0 ==> with_published(devices, me, entries, now)[at].entries == with_setting(
            with_published(devices, me, entries.drop_last(), now)[at].entries,
            entries[entries.len() - 1],
        ),
        at < devices.len() ==> with_published(devices, me, Seq::empty(), now)[at].entries == devices[at].entries,
{
    lemma_map_bounds(devices, me);
    let found = map_of(devices, me);
    if found < at {
        assert(devices[found].device == me);
    }
    if at < found {
        assert(devices[at].device == me);
    }
}

/// Of several texts under one key the last one counts; a value that is no text does not, nor does what is
/// stored under another key.
pub proof fn law_last_text_counts(entries: Seq<SettingView>, entry: SettingView, key: Seq<char>, text: Seq<char>)
    ensures
        text_under(Seq::empty(), key) is None,
        entry.key == key && entry.value == ValueView::Text(text) ==> text_under(entries.push(entry), key) == Some(text),
        entry.key != key || entry.value is Other ==> text_under(entries.push(entry), key) == text_under(entries, key),
{
    assert(entries.push(entry).drop_last() == entries);
}

/// Of several maps of one device the last one that says something under a key counts; other devices' maps
/// do not.
pub proof fn law_last_map_counts(devices: Seq<DeviceView>, map: DeviceView, device: Seq<u8>, key: Seq<char>)
    ensures
        setting_of(Seq::empty(), device, key) is None,
        map.device == device && text_under(map.entries, key) is Some ==> setting_of(devices.push(map), device, key)
            == text_under(map.entries, key),
        map.device != device || text_under(map.entries, key) is None ==> setting_of(devices.push(map), device, key)
            == setting_of(devices, device, key),
{
    assert(devices.push(map).drop_last() == devices);
}

/// A name is given under the prefix and the device's key in hexadecimal, as a text; the white space around
/// it does not belong to it, and one of white space alone is no name. No other setting names a device.
pub proof fn law_naming(device: Seq<u8>, text: Seq<char>, other: vsf::VsfType, setting: (Seq<char>, ValueView))
    requires
        device.len() == 32,
    ensures
        ({
            let key = "fleet.name."@ + crate::text::hex(device);
            &&& crate::text::trimmed(text).len() > 0 ==> naming((key, ValueView::Text(text))) == Some(
                (device, crate::text::trimmed(text)),
            )
            &&& crate::text::trimmed(text).len() == 0 ==> naming((key, ValueView::Text(text))) is None
            &&& naming((key, ValueView::Other(other))) is None
        }),
        setting.0.len() != 75 ==> naming(setting) is None,
        setting.0.len() >= 11 && setting.0.take(11) != "fleet.name."@ ==> naming(setting) is None,
{
    reveal_strlit("fleet.name.");
    let prefix = "fleet.name."@;
    assert(prefix.len() == 11);
    let digits = crate::text::hex(device);
    crate::text::law_prefix_is_taken_off(prefix, digits, prefix + digits);
    crate::text::law_hex_round_trip(device);
    if crate::text::stripped_prefix(setting.0, prefix) is Some {
        assert(setting.0.subrange(0, 11) == prefix);
        assert(setting.0.take(11) == setting.0.subrange(0, 11));
        assert(setting.0.skip(11).len() == setting.0.len() - 11);
    }
}

/// Of several names of one device the last one counts.
pub proof fn law_last_name_counts(globals: Seq<(Seq<char>, ValueView)>, setting: (Seq<char>, ValueView), device: Seq<u8>)
    ensures
        name_of(Seq::empty(), device) is None,
        match naming(setting) {
            Some((named, name)) => name_of(globals.push(setting), device) == (if named == device {
                Some(name)
            } else {
                name_of(globals, device)
            }),
            None => name_of(globals.push(setting), device) == name_of(globals, device),
        },
{
    assert(globals.push(setting).drop_last() == globals);
}

/// An entry of the list holds the member's key, the name that was given it or else its default name, the
/// id and the addresses that it published, and whether it is this device; nothing is known yet of whether
/// and how it can be reached.
pub proof fn law_entries(
    entry: FleetDevice,
    member: Seq<u8>,
    identity_seed: Seq<u8>,
    me: Option<Seq<u8>>,
    globals: Seq<(Seq<char>, ValueView)>,
    devices: Seq<DeviceView>,
)
    requires
        lists(entry, member, identity_seed, me, globals, devices),
    ensures
        entry.pubkey@ == member,
        name_of(globals, member) matches Some(name) ==> entry.name@ == name,
        name_of(globals, member) is None ==> entry.name@ == crate::keys::default_name(member, identity_seed),
        match setting_of(devices, member, "rustdesk.id"@) {
            Some(id) => entry.rustdesk_id matches Some(t) && t@ == id,
            None => entry.rustdesk_id is None,
        },
        match setting_of(devices, member, "rustdesk.lan"@) {
            Some(lan) => entry.lan_addr matches Some(t) && t@ == lan,
            None => entry.lan_addr is None,
        },
        entry.is_self <==> me is Some && me->0 == member,
        entry.online is None,
        entry.direct_tier is None,
{
}

/// An id belongs to the entry of another device that published exactly that id.
pub proof fn law_who_answers(entry: FleetDevice, id: Seq<char>)
    ensures
        answers_to(entry, id) <==> !entry.is_self && entry.rustdesk_id is Some && entry.rustdesk_id->0@ == id,
{
}

/// What the settings say is all of them, in order.
pub proof fn law_what_settings_say(
    entries: Seq<DeviceSetting>,
    devices: Seq<DeviceSettings>,
    globals: Seq<GlobalSetting>,
    text: String,
    other: vsf::VsfType,
    i: int,
)
    ensures
        settings_view(entries).len() == entries.len(),
        0 <= i < entries.len() ==> settings_view(entries)[i] == (SettingView {
            key: entries[i].key@,
            value: entries[i].value@,
            updated: entries[i].updated,
            linked: entries[i].linked,
        }),
        devices_view(devices).len() == devices.len(),
        0 <= i < devices.len() ==> devices_view(devices)[i] == (DeviceView {
            device: devices[i].device_pubkey@,
            updated: devices[i].updated,
            entries: settings_view(devices[i].entries@),
        }),
        globals_view(globals).len() == globals.len(),
        0 <= i < globals.len() ==> globals_view(globals)[i] == (globals[i].key@, globals[i].value@),
        SettingValue::Text(text)@ == ValueView::Text(text@),
        SettingValue::Other(other)@ == ValueView::Other(other),
        opt_text(Some(text)) == Some(text@),
        opt_text(None) is None,
{
}

} // verus!
