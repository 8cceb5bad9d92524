use vstd::prelude::*;
use vstd::string::StringExecFns;
use crate::clock;
use crate::device::clone_opt_string;
use crate::device::DeviceType;
use crate::errors::DeviceError;
use crate::text::str_eq;

verus! {

/// A plain model of one JSON-like setting value: what the profile patcher can
/// read from it. Anything else is carried verbatim as raw text.
#[derive(Debug)]
pub enum SettingValue {
    Null,
    Bool(bool),
    UInt(u64),
    Str(String),
    Raw(String),
}

/// The mathematical model of a setting value.
#[verifier::ext_equal]
pub ghost enum SettingValueV {
    Null,
    Bool(bool),
    UInt(u64),
    Str(Seq<char>),
    Raw(Seq<char>),
}

impl View for SettingValue {
    type V = SettingValueV;

    open spec fn view(&self) -> SettingValueV {
        match self {
            SettingValue::Null => SettingValueV::Null,
            SettingValue::Bool(b) => SettingValueV::Bool(*b),
            SettingValue::UInt(u) => SettingValueV::UInt(*u),
            SettingValue::Str(s) => SettingValueV::Str(s@),
            SettingValue::Raw(s) => SettingValueV::Raw(s@),
        }
    }
}

impl Clone for SettingValue {
    /// A copy whose model equals the original's.
    fn clone(&self) -> (r: Self)
        ensures
            r@ == self@,
    {
        match self {
            SettingValue::Null => SettingValue::Null,
            SettingValue::Bool(b) => SettingValue::Bool(*b),
            SettingValue::UInt(u) => SettingValue::UInt(*u),
            SettingValue::Str(s) => SettingValue::Str(s.clone()),
            SettingValue::Raw(s) => SettingValue::Raw(s.clone()),
        }
    }
}

/// A user-defined named configuration for one device. Timestamps are whole
/// seconds since the Unix epoch.
#[derive(Debug)]
pub struct DeviceProfile {
    pub id: String,
    pub name: String,
    pub device_type: DeviceType,
    pub preferred_language: String,
    pub baud_rate: u32,
    pub auto_reconnect: bool,
    pub reconnect_interval_ms: u64,
    pub custom_settings: Vec<(String, SettingValue)>,
    pub created_at: i64,
    pub last_modified: i64,
}

/// The mathematical model of one profile.
#[verifier::ext_equal]
pub ghost struct DeviceProfileV {
    pub id: Seq<char>,
    pub name: Seq<char>,
    pub device_type: DeviceType,
    pub preferred_language: Seq<char>,
    pub baud_rate: u32,
    pub auto_reconnect: bool,
    pub reconnect_interval_ms: u64,
    pub custom_settings: Seq<(Seq<char>, SettingValueV)>,
    pub created_at: i64,
    pub last_modified: i64,
}

impl View for DeviceProfile {
    type V = DeviceProfileV;

    open spec fn view(&self) -> DeviceProfileV {
        DeviceProfileV {
            id: self.id@,
            name: self.name@,
            device_type: self.device_type,
            preferred_language: self.preferred_language@,
            baud_rate: self.baud_rate,
            auto_reconnect: self.auto_reconnect,
            reconnect_interval_ms: self.reconnect_interval_ms,
            custom_settings: self.custom_settings@.map_values(
                |e: (String, SettingValue)| (e.0@, e.1@),
            ),
            created_at: self.created_at,
            last_modified: self.last_modified,
        }
    }
}

/// An exact copy of a custom-settings list, element models preserved.
fn clone_settings(v: &Vec<(String, SettingValue)>) -> (r: Vec<(String, SettingValue)>)
    ensures
        r@.map_values(|e: (String, SettingValue)| (e.0@, e.1@)) == v@.map_values(
            |e: (String, SettingValue)| (e.0@, e.1@),
        ),
{
    let n: usize = v.len();
    let mut out: Vec<(String, SettingValue)> = Vec::new();
    let mut i: usize = 0;
    while i < n
        invariant
            n == v@.len(),
            0 <= i <= n,
            out@.len() == i,
            forall|k: int|
                0 <= k < i ==> ((#[trigger] out@[k]).0@, out@[k].1@) == (v@[k].0@, v@[k].1@),
        decreases n - i,
    {
        let entry = &v[i];
        out.push((entry.0.clone(), entry.1.clone()));
        i += 1;
    }
    proof {
        assert(out@.map_values(|e: (String, SettingValue)| (e.0@, e.1@)) =~= v@.map_values(
            |e: (String, SettingValue)| (e.0@, e.1@),
        ));
    }
    out
}

impl Clone for DeviceProfile {
    /// A copy whose model equals the original's.
    fn clone(&self) -> (r: Self)
        ensures
            r@ == self@,
    {
        let r = DeviceProfile {
            id: self.id.clone(),
            name: self.name.clone(),
            device_type: self.device_type,
            preferred_language: self.preferred_language.clone(),
            baud_rate: self.baud_rate,
            auto_reconnect: self.auto_reconnect,
            reconnect_interval_ms: self.reconnect_interval_ms,
            custom_settings: clone_settings(&self.custom_settings),
            created_at: self.created_at,
            last_modified: self.last_modified,
        };
        proof {
            assert(r@ =~= self@);
        }
        r
    }
}

/// The profile defaults for one device type: its recommended language.
pub open spec fn profile_language(t: DeviceType) -> Seq<char> {
    match t {
        DeviceType::Arduino => "arduino"@,
        DeviceType::MicroBit => "micropython"@,
        DeviceType::ESP32 => "arduino"@,
        DeviceType::RaspberryPiPico => "micropython"@,
        DeviceType::Unknown => "arduino"@,
    }
}

/// The profile default baud rate for one device type.
pub open spec fn profile_baud(t: DeviceType) -> u32 {
    match t {
        DeviceType::Arduino => 9600,
        _ => 115200,
    }
}

/// Relies on uuid's `Uuid::new_v4` and its `Display`: a random version-4
/// UUID in the canonical hyphenated form, which is 36 characters long.
/// The value is random, so nothing more is promised of it. uuid aborts if
/// the OS random source fails — an environmental failure no precondition
/// can exclude.
#[verifier::external_body]
fn fresh_profile_id() -> (r: String)
    ensures
        r@.len() == 36,
{
    uuid::Uuid::new_v4().to_string()
}

impl DeviceProfile {
    /// A fresh profile for one device type: generated id, the type's default
    /// language and baud rate, auto-reconnect on at a five-second interval,
    /// both timestamps set to the creation instant.
    pub fn new(name: String, device_type: DeviceType) -> (r: DeviceProfile)
        ensures
            r.id@.len() == 36,
            r.name == name,
            r.device_type == device_type,
            r.preferred_language@ == profile_language(device_type),
            r.baud_rate == profile_baud(device_type),
            r.auto_reconnect,
            r.reconnect_interval_ms == 5000,
            r.custom_settings@.len() == 0,
            r.created_at == r.last_modified,
    {
        let now = clock::now_seconds();
        let preferred_language = match device_type {
            DeviceType::Arduino => "arduino".to_owned(),
            DeviceType::MicroBit => "micropython".to_owned(),
            DeviceType::ESP32 => "arduino".to_owned(),
            DeviceType::RaspberryPiPico => "micropython".to_owned(),
            DeviceType::Unknown => "arduino".to_owned(),
        };
        let baud_rate: u32 = match device_type {
            DeviceType::Arduino => 9600,
            _ => 115200,
        };
        DeviceProfile {
            id: fresh_profile_id(),
            name,
            device_type,
            preferred_language,
            baud_rate,
            auto_reconnect: true,
            reconnect_interval_ms: 5000,
            custom_settings: Vec::new(),
            created_at: now,
            last_modified: now,
        }
    }
}

/// Per-device connection record: created lazily on first status update.
/// The last-seen timestamp is in milliseconds since the Unix epoch.
#[derive(Debug)]
pub struct ConnectionStatus {
    pub connected: bool,
    pub last_seen: i64,
    pub connection_attempts: u32,
    pub last_error: Option<String>,
}

impl Clone for ConnectionStatus {
    /// An exact copy of the record.
    fn clone(&self) -> (r: Self)
        ensures
            r == *self,
    {
        ConnectionStatus {
            connected: self.connected,
            last_seen: self.last_seen,
            connection_attempts: self.connection_attempts,
            last_error: clone_opt_string(&self.last_error),
        }
    }
}

/// Owns profiles, device-to-profile associations, connection statuses, and
/// the registry of active auto-reconnect loops, each keyed uniquely.
pub struct ConnectionManager {
    pub profiles: Vec<DeviceProfile>,
    pub connections: Vec<(String, ConnectionStatus)>,
    pub device_profiles: Vec<(String, String)>,
    pub reconnect_active: Vec<String>,
}

impl ConnectionManager {
    /// Every table is keyed uniquely: profile ids, status device ids,
    /// association device ids, and the ids holding an active reconnect loop.
    pub open spec fn wf(self) -> bool {
        &&& forall|i: int, j: int|
            0 <= i < j < self.profiles@.len() ==> self.profiles@[i].id@ != self.profiles@[j].id@
        &&& forall|i: int, j: int|
            0 <= i < j < self.connections@.len() ==> self.connections@[i].0@
                != self.connections@[j].0@
        &&& forall|i: int, j: int|
            0 <= i < j < self.device_profiles@.len() ==> self.device_profiles@[i].0@
                != self.device_profiles@[j].0@
        &&& forall|i: int, j: int|
            0 <= i < j < self.reconnect_active@.len() ==> self.reconnect_active@[i]@
                != self.reconnect_active@[j]@
    }

    /// A profile with this id exists.
    pub open spec fn has_profile(self, id: Seq<char>) -> bool {
        exists|i: int|
            0 <= i < self.profiles@.len() && (#[trigger] self.profiles@[i]).id@ == id
    }

    /// A device-to-profile association for this device id exists.
    pub open spec fn has_association(self, device_id: Seq<char>) -> bool {
        exists|k: int|
            0 <= k < self.device_profiles@.len() && (#[trigger] self.device_profiles@[k]).0@
                == device_id
    }

    /// A connection status for this device id exists.
    pub open spec fn has_status(self, device_id: Seq<char>) -> bool {
        exists|k: int|
            0 <= k < self.connections@.len() && (#[trigger] self.connections@[k]).0@ == device_id
    }

    /// An auto-reconnect loop for this device id is active.
    pub open spec fn loop_active(self, device_id: Seq<char>) -> bool {
        exists|k: int|
            0 <= k < self.reconnect_active@.len() && (#[trigger] self.reconnect_active@[k])@
                == device_id
    }

    /// A manager with every table empty.
    pub fn new() -> (r: ConnectionManager)
        ensures
            r.wf(),
            r.profiles@.len() == 0,
            r.connections@.len() == 0,
            r.device_profiles@.len() == 0,
            r.reconnect_active@.len() == 0,
    {
        ConnectionManager {
            profiles: Vec::new(),
            connections: Vec::new(),
            device_profiles: Vec::new(),
            reconnect_active: Vec::new(),
        }
    }

    /// The index of the profile with this id, if any.
    fn find_profile_index(&self, profile_id: &str) -> (r: Option<usize>)
        ensures
            match r {
                Some(i) => 0 <= i < self.profiles@.len() && self.profiles@[i as int].id@
                    == profile_id@,
                None => forall|i: int|
                    0 <= i < self.profiles@.len() ==> (#[trigger] self.profiles@[i]).id@
                        != profile_id@,
            },
    {
        let n: usize = self.profiles.len();
        let mut i: usize = 0;
        while i < n
            invariant
                n == self.profiles@.len(),
                0 <= i <= n,
                forall|k: int|
                    0 <= k < i ==> (#[trigger] self.profiles@[k]).id@ != profile_id@,
            decreases n - i,
        {
            if str_eq(self.profiles[i].id.as_str(), profile_id) {
                return Some(i);
            }
            i += 1;
        }
        None
    }

    /// The index of the association entry for this device id, if any.
    fn find_association_index(&self, device_id: &str) -> (r: Option<usize>)
        ensures
            match r {
                Some(i) => 0 <= i < self.device_profiles@.len() && self.device_profiles@[
                    i as int
                ].0@ == device_id@,
                None => forall|k: int|
                    0 <= k < self.device_profiles@.len() ==> (#[trigger] self.device_profiles@[
                        k
                    ]).0@ != device_id@,
            },
    {
        let n: usize = self.device_profiles.len();
        let mut i: usize = 0;
        while i < n
            invariant
                n == self.device_profiles@.len(),
                0 <= i <= n,
                forall|k: int|
                    0 <= k < i ==> (#[trigger] self.device_profiles@[k]).0@ != device_id@,
            decreases n - i,
        {
            if str_eq(self.device_profiles[i].0.as_str(), device_id) {
                return Some(i);
            }
            i += 1;
        }
        None
    }

    /// Stores the profile under its id and returns the id. An existing
    /// profile with the same id is overwritten in place; otherwise the
    /// profile is appended.
    pub fn create_profile(&mut self, profile: DeviceProfile) -> (r: Result<String, DeviceError>)
        requires
            old(self).wf(),
        ensures
            final(self).wf(),
            final(self).connections == old(self).connections,
            final(self).device_profiles == old(self).device_profiles,
            final(self).reconnect_active == old(self).reconnect_active,
            match r {
                Ok(id) => id@ == profile.id@,
                Err(_) => false,
            },
            (exists|k: int|
                0 <= k < old(self).profiles@.len() && (#[trigger] old(self).profiles@[k]).id@
                    == profile.id@ && final(self).profiles@ == old(self).profiles@.update(
                    k,
                    profile,
                )) || ((forall|k: int|
                0 <= k < old(self).profiles@.len() ==> (#[trigger] old(self).profiles@[k]).id@
                    != profile.id@) && final(self).profiles@ == old(self).profiles@.push(profile)),
    {
        let id = profile.id.clone();
        match self.find_profile_index(id.as_str()) {
            Some(i) => {
                let ghost pre = self.profiles@;
                self.profiles.remove(i);
                self.profiles.insert(i, profile);
                proof {
                    assert(self.profiles@ =~= pre.update(i as int, profile));
                }
            },
            None => {
                self.profiles.push(profile);
            },
        }
        Ok(id)
    }

    /// The profile with this id; `NotFound` exactly when no profile has it.
    pub fn get_profile(&self, profile_id: &str) -> (r: Result<DeviceProfile, DeviceError>)
        ensures
            match r {
                Ok(p) => exists|i: int|
                    0 <= i < self.profiles@.len() && (#[trigger] self.profiles@[i]).id@
                        == profile_id@ && p@ == self.profiles@[i]@,
                Err(e) => e is NotFound && forall|i: int|
                    0 <= i < self.profiles@.len() ==> (#[trigger] self.profiles@[i]).id@
                        != profile_id@,
            },
    {
        match self.find_profile_index(profile_id) {
            Some(i) => Ok(self.profiles[i].clone()),
            None => Err(
                DeviceError::NotFound("profile not found: ".to_owned().concat(profile_id)),
            ),
        }
    }

    /// Every profile, in table order.
    pub fn list_profiles(&self) -> (r: Vec<DeviceProfile>)
        ensures
            r@.map_values(|p: DeviceProfile| p@) == self.profiles@.map_values(
                |p: DeviceProfile| p@,
            ),
    {
        let n: usize = self.profiles.len();
        let mut out: Vec<DeviceProfile> = Vec::new();
        let mut i: usize = 0;
        while i < n
            invariant
                n == self.profiles@.len(),
                0 <= i <= n,
                out@.len() == i,
                forall|k: int| 0 <= k < i ==> (#[trigger] out@[k])@ == self.profiles@[k]@,
            decreases n - i,
        {
            out.push(self.profiles[i].clone());
            i += 1;
        }
        proof {
            assert(out@.map_values(|p: DeviceProfile| p@) =~= self.profiles@.map_values(
                |p: DeviceProfile| p@,
            ));
        }
        out
    }

    /// Removes the profile and every device association pointing at it.
    /// `NotFound` exactly when no profile has the id; the tables are then
    /// unchanged.
    pub fn delete_profile(&mut self, profile_id: &str) -> (r: Result<(), DeviceError>)
        requires
            old(self).wf(),
        ensures
            final(self).wf(),
            final(self).connections == old(self).connections,
            final(self).reconnect_active == old(self).reconnect_active,
            match r {
                Ok(()) => {
                    &&& exists|k: int|
                        0 <= k < old(self).profiles@.len() && (#[trigger] old(self).profiles@[k]).id@ == profile_id@ && final(self).profiles@ == old(self).profiles@.remove(k)
                    &&& forall|i: int|
                        0 <= i < final(self).profiles@.len() ==> (#[trigger] final(self).profiles@[i]).id@ != profile_id@
                    &&& final(self).device_profiles@ == old(self).device_profiles@.filter(
                        |e: (String, String)| e.1@ != profile_id@,
                    )
                    &&& forall|i: int|
                        0 <= i < final(self).device_profiles@.len() ==> (#[trigger] final(self).device_profiles@[i]).1@ != profile_id@
                },
                Err(e) => {
                    &&& e is NotFound
                    &&& *final(self) == *old(self)
                    &&& forall|i: int|
                        0 <= i < old(self).profiles@.len() ==> (#[trigger] old(self).profiles@[i]).id@ != profile_id@
                },
            },
    {
        match self.find_profile_index(profile_id) {
            None => Err(
                DeviceError::NotFound("profile not found: ".to_owned().concat(profile_id)),
            ),
            Some(i) => {
                let ghost pre = *self;
                self.profiles.remove(i);
                proof {
                    assert forall|k: int|
                        0 <= k < self.profiles@.len() implies (#[trigger] self.profiles@[k]).id@
                        != profile_id@ by {
                        if k < i as int {
                            assert(self.profiles@[k] == pre.profiles@[k]);
                        } else {
                            assert(self.profiles@[k] == pre.profiles@[k + 1]);
                        }
                    }
                }
                let ghost pred = |e: (String, String)| e.1@ != profile_id@;
                let n: usize = self.device_profiles.len();
                let mut kept: Vec<(String, String)> = Vec::new();
                let ghost mut src: Seq<int> = Seq::empty();
                let mut k: usize = 0;
                while k < n
                    invariant
                        n == self.device_profiles@.len(),
                        pred == (|e: (String, String)| e.1@ != profile_id@),
                        0 <= k <= n,
                        kept@ == self.device_profiles@.take(k as int).filter(pred),
                        src.len() == kept@.len(),
                        forall|a: int|
                            #![trigger src[a]]
                            0 <= a < kept@.len() ==> 0 <= src[a] < n && src[a] < k && kept@[a]
                                == self.device_profiles@[src[a]],
                        forall|a: int, b: int| 0 <= a < b < kept@.len() ==> src[a] < src[b],
                    decreases n - k,
                {
                    proof {
                        reveal(Seq::filter);
                        assert(self.device_profiles@.take(k + 1).drop_last()
                            =~= self.device_profiles@.take(k as int));
                        assert(self.device_profiles@.take(k + 1).last()
                            == self.device_profiles@[k as int]);
                    }
                    let entry = &self.device_profiles[k];
                    if !str_eq(entry.1.as_str(), profile_id) {
                        kept.push((entry.0.clone(), entry.1.clone()));
                        proof {
                            assert(kept@.last() == self.device_profiles@[k as int]);
                            src = src.push(k as int);
                        }
                    }
                    k += 1;
                }
                proof {
                    assert(self.device_profiles@.take(n as int) =~= self.device_profiles@);
                }
                self.device_profiles = kept;
                proof {
                    assert forall|a: int, b: int|
                        0 <= a < b < self.device_profiles@.len() implies self.device_profiles@[
                        a
                    ].0@ != self.device_profiles@[b].0@ by {
                        assert(self.device_profiles@[a] == pre.device_profiles@[src[a]]);
                        assert(self.device_profiles@[b] == pre.device_profiles@[src[b]]);
                    }
                }
                Ok(())
            },
        }
    }

    /// Associates the device with the profile; re-associating overwrites the
    /// prior mapping. `NotFound` exactly when the profile does not exist.
    pub fn associate_device_profile(&mut self, device_id: &str, profile_id: &str) -> (r: Result<
        (),
        DeviceError,
    >)
        requires
            old(self).wf(),
        ensures
            final(self).wf(),
            final(self).profiles == old(self).profiles,
            final(self).connections == old(self).connections,
            final(self).reconnect_active == old(self).reconnect_active,
            match r {
                Ok(()) => {
                    &&& old(self).has_profile(profile_id@)
                    &&& exists|k: int|
                        0 <= k < final(self).device_profiles@.len() && (#[trigger] final(self).device_profiles@[k]).0@ == device_id@
                    &&& forall|k: int|
                        0 <= k < final(self).device_profiles@.len() && (#[trigger] final(self).device_profiles@[k]).0@ == device_id@ ==> final(self).device_profiles@[k].1@ == profile_id@
                    &&& forall|k: int|
                        0 <= k < final(self).device_profiles@.len() && (#[trigger] final(self).device_profiles@[k]).0@ != device_id@ ==> old(self).device_profiles@.contains(final(self).device_profiles@[k])
                    &&& forall|k: int|
                        0 <= k < old(self).device_profiles@.len() && (#[trigger] old(self).device_profiles@[k]).0@ != device_id@ ==> final(self).device_profiles@.contains(old(self).device_profiles@[k])
                },
                Err(e) => {
                    &&& e is NotFound
                    &&& !old(self).has_profile(profile_id@)
                    &&& *final(self) == *old(self)
                },
            },
    {
        if let None = self.find_profile_index(profile_id) {
            return Err(
                DeviceError::NotFound("profile not found: ".to_owned().concat(profile_id)),
            );
        }
        let pair = (device_id.to_owned(), profile_id.to_owned());
        let ghost pre = self.device_profiles@;
        match self.find_association_index(device_id) {
            Some(k) => {
                self.device_profiles.remove(k);
                self.device_profiles.insert(k, pair);
                proof {
                    assert(self.device_profiles@ =~= pre.update(k as int, pair));
                    assert(self.device_profiles@[k as int] == pair);
                    assert(pair.0@ == device_id@);
                    assert forall|a: int|
                        0 <= a < self.device_profiles@.len() implies (
                        #[trigger] self.device_profiles@[a]).0@ == pre[a].0@ by {
                        if a != k as int {
                            assert(self.device_profiles@[a] == pre[a]);
                        } else {
                            assert(pre[k as int].0@ == device_id@);
                        }
                    }
                    assert forall|a: int|
                        0 <= a < self.device_profiles@.len() && (#[trigger] self.device_profiles@[
                        a
                    ]).0@ == device_id@ implies self.device_profiles@[a].1@ == profile_id@ by {
                        if a != k as int {
                            assert(pre[a].0@ == device_id@ && pre[k as int].0@ == device_id@);
                        }
                    }
                    assert forall|a: int|
                        0 <= a < self.device_profiles@.len() && (#[trigger] self.device_profiles@[
                        a
                    ]).0@ != device_id@ implies pre.contains(self.device_profiles@[a]) by {
                        assert(self.device_profiles@[a] == pre[a]);
                        assert(pre.contains(pre[a]));
                    }
                    assert forall|a: int|
                        0 <= a < pre.len() && (#[trigger] pre[a]).0@ != device_id@ implies self
                        .device_profiles@.contains(pre[a]) by {
                        assert(self.device_profiles@[a] == pre[a]);
                        assert(self.device_profiles@.contains(self.device_profiles@[a]));
                    }
                }
            },
            None => {
                self.device_profiles.push(pair);
                proof {
                    assert(self.device_profiles@[pre.len() as int] == pair);
                    assert(pair.0@ == device_id@);
                    assert forall|a: int, b: int|
                        0 <= a < b < self.device_profiles@.len() implies (
                        #[trigger] self.device_profiles@[a]).0@ != (
                        #[trigger] self.device_profiles@[b]).0@ by {
                        if b < pre.len() {
                            assert(self.device_profiles@[a] == pre[a]);
                            assert(self.device_profiles@[b] == pre[b]);
                        } else {
                            assert(self.device_profiles@[a] == pre[a]);
                            assert(pre[a].0@ != device_id@);
                        }
                    }
                    assert forall|a: int|
                        0 <= a < self.device_profiles@.len() && (#[trigger] self.device_profiles@[
                        a
                    ]).0@ == device_id@ implies self.device_profiles@[a].1@ == profile_id@ by {
                        if a < pre.len() {
                            assert(self.device_profiles@[a] == pre[a]);
                        }
                    }
                    assert forall|a: int|
                        0 <= a < self.device_profiles@.len() && (#[trigger] self.device_profiles@[
                        a
                    ]).0@ != device_id@ implies pre.contains(self.device_profiles@[a]) by {
                        assert(a < pre.len());
                        assert(self.device_profiles@[a] == pre[a]);
                        assert(pre.contains(pre[a]));
                    }
                    assert forall|a: int|
                        0 <= a < pre.len() && (#[trigger] pre[a]).0@ != device_id@ implies self
                        .device_profiles@.contains(pre[a]) by {
                        assert(self.device_profiles@[a] == pre[a]);
                        assert(self.device_profiles@.contains(self.device_profiles@[a]));
                    }
                }
            },
        }
        Ok(())
    }

    /// The profile currently associated with the device, if both the
    /// association and the profile exist.
    pub fn get_device_profile(&self, device_id: &str) -> (r: Option<DeviceProfile>)
        ensures
            match r {
                Some(p) => exists|k: int, i: int|
                    0 <= k < self.device_profiles@.len() && 0 <= i < self.profiles@.len() && (
                    #[trigger] self.device_profiles@[k]).0@ == device_id@ && (
                    #[trigger] self.profiles@[i]).id@ == self.device_profiles@[k].1@ && p@
                        == self.profiles@[i]@,
                None => (forall|k: int|
                    0 <= k < self.device_profiles@.len() ==> (#[trigger] self.device_profiles@[
                        k
                    ]).0@ != device_id@) || (exists|k: int|
                    0 <= k < self.device_profiles@.len() && (#[trigger] self.device_profiles@[
                        k
                    ]).0@ == device_id@ && forall|i: int|
                        0 <= i < self.profiles@.len() ==> (#[trigger] self.profiles@[i]).id@
                            != self.device_profiles@[k].1@),
            },
    {
        match self.find_association_index(device_id) {
            Some(k) => {
                match self.find_profile_index(self.device_profiles[k].1.as_str()) {
                    Some(i) => Some(self.profiles[i].clone()),
                    None => None,
                }
            },
            None => None,
        }
    }
}

/// Replaces the value of the first entry with this key, or appends the pair
/// when the key is absent.
pub open spec fn upsert_setting(
    s: Seq<(Seq<char>, SettingValueV)>,
    key: Seq<char>,
    v: SettingValueV,
) -> Seq<(Seq<char>, SettingValueV)>
    decreases s.len(),
{
    if s.len() == 0 {
        seq![(key, v)]
    } else if s[0].0 == key {
        seq![(key, v)] + s.drop_first()
    } else {
        seq![s[0]] + upsert_setting(s.drop_first(), key, v)
    }
}

proof fn lemma_upsert_found(s: Seq<(Seq<char>, SettingValueV)>, key: Seq<char>, v: SettingValueV, i: int)
    requires
        0 <= i < s.len(),
        s[i].0 == key,
        forall|k: int| 0 <= k < i ==> s[k].0 != key,
    ensures
        upsert_setting(s, key, v) =~= s.update(i, (key, v)),
    decreases s.len(),
{
    if i == 0 {
    } else {
        lemma_upsert_found(s.drop_first(), key, v, i - 1);
        assert(s.drop_first().update(i - 1, (key, v)) =~= s.update(i, (key, v)).drop_first());
    }
}

proof fn lemma_upsert_absent(s: Seq<(Seq<char>, SettingValueV)>, key: Seq<char>, v: SettingValueV)
    requires
        forall|k: int| 0 <= k < s.len() ==> s[k].0 != key,
    ensures
        upsert_setting(s, key, v) =~= s.push((key, v)),
    decreases s.len(),
{
    if s.len() > 0 {
        lemma_upsert_absent(s.drop_first(), key, v);
        assert(s.drop_first().push((key, v)) =~= s.push((key, v)).drop_first());
    }
}

/// One step of the partial-field patch: a known field name updates the typed
/// field when the value has the right kind and is otherwise ignored; an
/// unknown name is stored verbatim in the custom-settings map.
pub open spec fn apply_one(p: DeviceProfileV, key: Seq<char>, v: SettingValueV) -> DeviceProfileV {
    if key == "name"@ {
        match v {
            SettingValueV::Str(x) => DeviceProfileV { name: x, ..p },
            _ => p,
        }
    } else if key == "preferred_language"@ {
        match v {
            SettingValueV::Str(x) => DeviceProfileV { preferred_language: x, ..p },
            _ => p,
        }
    } else if key == "baud_rate"@ {
        match v {
            SettingValueV::UInt(u) => DeviceProfileV { baud_rate: u as u32, ..p },
            _ => p,
        }
    } else if key == "auto_reconnect"@ {
        match v {
            SettingValueV::Bool(b) => DeviceProfileV { auto_reconnect: b, ..p },
            _ => p,
        }
    } else if key == "reconnect_interval_ms"@ {
        match v {
            SettingValueV::UInt(u) => DeviceProfileV { reconnect_interval_ms: u, ..p },
            _ => p,
        }
    } else {
        DeviceProfileV { custom_settings: upsert_setting(p.custom_settings, key, v), ..p }
    }
}

/// The partial-field patch applied over a list of updates, in order.
pub open spec fn apply_all(
    p: DeviceProfileV,
    us: Seq<(Seq<char>, SettingValueV)>,
) -> DeviceProfileV
    decreases us.len(),
{
    if us.len() == 0 {
        p
    } else {
        apply_all(apply_one(p, us[0].0, us[0].1), us.drop_first())
    }
}

/// Replaces the value of the first custom-settings entry with this key, or
/// appends the pair when the key is absent.
fn upsert_setting_exec(settings: &mut Vec<(String, SettingValue)>, key: &String, value: &SettingValue)
    ensures
        final(settings)@.map_values(|e: (String, SettingValue)| (e.0@, e.1@)) == upsert_setting(
            old(settings)@.map_values(|e: (String, SettingValue)| (e.0@, e.1@)),
            key@,
            value@,
        ),
{
    let ghost pre = old(settings)@.map_values(|e: (String, SettingValue)| (e.0@, e.1@));
    let n: usize = settings.len();
    let mut i: usize = 0;
    while i < n
        invariant
            n == settings@.len(),
            *settings == *old(settings),
            pre == settings@.map_values(|e: (String, SettingValue)| (e.0@, e.1@)),
            0 <= i <= n,
            forall|k: int| 0 <= k < i ==> pre[k].0 != key@,
        decreases n - i,
    {
        if str_eq(settings[i].0.as_str(), key.as_str()) {
            settings.remove(i);
            settings.insert(i, (key.clone(), value.clone()));
            proof {
                assert(settings@.map_values(|e: (String, SettingValue)| (e.0@, e.1@)) =~= pre
                    .update(i as int, (key@, value@)));
                lemma_upsert_found(pre, key@, value@, i as int);
            }
            return ;
        }
        i += 1;
    }
    settings.push((key.clone(), value.clone()));
    proof {
        assert(settings@.map_values(|e: (String, SettingValue)| (e.0@, e.1@)) =~= pre.push(
            (key@, value@),
        ));
        lemma_upsert_absent(pre, key@, value@);
    }
}

/// One step of the partial-field patch, on an owned profile.
fn apply_update_exec(p: &mut DeviceProfile, key: &String, value: &SettingValue)
    ensures
        final(p)@ == apply_one(old(p)@, key@, value@),
{
    if str_eq(key.as_str(), "name") {
        if let SettingValue::Str(x) = value {
            p.name = x.clone();
        }
        proof {
            assert(p@ =~= apply_one(old(p)@, key@, value@));
        }
    } else if str_eq(key.as_str(), "preferred_language") {
        if let SettingValue::Str(x) = value {
            p.preferred_language = x.clone();
        }
        proof {
            assert(p@ =~= apply_one(old(p)@, key@, value@));
        }
    } else if str_eq(key.as_str(), "baud_rate") {
        if let SettingValue::UInt(u) = value {
            p.baud_rate = #[verifier::truncate] (*u as u32);
        }
        proof {
            assert(p@ =~= apply_one(old(p)@, key@, value@));
        }
    } else if str_eq(key.as_str(), "auto_reconnect") {
        if let SettingValue::Bool(b) = value {
            p.auto_reconnect = *b;
        }
        proof {
            assert(p@ =~= apply_one(old(p)@, key@, value@));
        }
    } else if str_eq(key.as_str(), "reconnect_interval_ms") {
        if let SettingValue::UInt(u) = value {
            p.reconnect_interval_ms = *u;
        }
        proof {
            assert(p@ =~= apply_one(old(p)@, key@, value@));
        }
    } else {
        upsert_setting_exec(&mut p.custom_settings, key, value);
        proof {
            assert(p@ =~= apply_one(old(p)@, key@, value@));
        }
    }
}

/// `a` equals `b` in every field but the last-modified stamp.
pub open spec fn same_but_modified(a: DeviceProfileV, b: DeviceProfileV) -> bool {
    a == (DeviceProfileV { last_modified: a.last_modified, ..b })
}

/// The patch leaves the identity fields of a profile untouched.
proof fn lemma_apply_all_fixed(p: DeviceProfileV, us: Seq<(Seq<char>, SettingValueV)>)
    ensures
        apply_all(p, us).id == p.id,
        apply_all(p, us).created_at == p.created_at,
        apply_all(p, us).device_type == p.device_type,
    decreases us.len(),
{
    if us.len() > 0 {
        lemma_apply_all_fixed(apply_one(p, us[0].0, us[0].1), us.drop_first());
    }
}

/// The status table `post` is `pre` with the entry for `device_id` updated in
/// place, or a fresh entry appended: connected flag and last-seen stamped;
/// an error message recorded when one is given; the attempt counter kept on
/// update and zero on creation.
pub open spec fn status_upserted(
    pre: Seq<(String, ConnectionStatus)>,
    post: Seq<(String, ConnectionStatus)>,
    device_id: Seq<char>,
    connected: bool,
    error: Option<String>,
    now: i64,
) -> bool {
    ||| exists|k: int|
        0 <= k < pre.len() && (#[trigger] pre[k]).0@ == device_id && post.len() == pre.len() && (
        forall|j: int| 0 <= j < pre.len() && j != k ==> post[j] == pre[j]) && post[k].0 == pre[k].0
            && post[k].1.connected == connected && post[k].1.last_seen == now
            && post[k].1.connection_attempts == pre[k].1.connection_attempts && ((error is Some
            && post[k].1.last_error is Some && post[k].1.last_error.unwrap()@ == error.unwrap()@)
            || (error is None && post[k].1.last_error == pre[k].1.last_error))
    ||| (forall|k: int| 0 <= k < pre.len() ==> (#[trigger] pre[k]).0@ != device_id) && post.len()
        == pre.len() + 1 && (forall|j: int| 0 <= j < pre.len() ==> post[j] == pre[j])
        && post.last().0@ == device_id && post.last().1.connected == connected
        && post.last().1.last_seen == now && post.last().1.connection_attempts == 0 && ((error
        is Some && post.last().1.last_error is Some && post.last().1.last_error.unwrap()@
        == error.unwrap()@) || (error is None && post.last().1.last_error is None))
}

/// The status table `post` is `pre` with every entry dropped that is
/// disconnected and was last seen before the cutoff instant.
pub open spec fn cleaned(
    pre: Seq<(String, ConnectionStatus)>,
    post: Seq<(String, ConnectionStatus)>,
    cutoff: i64,
) -> bool {
    post == pre.filter(|e: (String, ConnectionStatus)| e.1.connected || e.1.last_seen >= cutoff)
}

/// The status table `post` is `pre` after one auto-reconnect wake for
/// `device_id`: on success the entry is marked connected, stamped, its
/// attempt counter reset and its error cleared; on failure only the attempt
/// counter grows and the error is recorded. A device without a status entry
/// is left untouched.
pub open spec fn reconnect_stepped(
    pre: Seq<(String, ConnectionStatus)>,
    post: Seq<(String, ConnectionStatus)>,
    device_id: Seq<char>,
    succeeded: bool,
    now: i64,
) -> bool {
    ||| exists|k: int|
        0 <= k < pre.len() && (#[trigger] pre[k]).0@ == device_id && post.len() == pre.len() && (
        forall|j: int| 0 <= j < pre.len() && j != k ==> post[j] == pre[j]) && post[k].0 == pre[k].0
            && (if succeeded {
            post[k].1 == (ConnectionStatus {
                connected: true,
                last_seen: now,
                connection_attempts: 0,
                last_error: None,
            })
        } else {
            post[k].1.connected == pre[k].1.connected && post[k].1.last_seen == pre[k].1.last_seen
                && post[k].1.connection_attempts == (if pre[k].1.connection_attempts == u32::MAX {
                u32::MAX
            } else {
                (pre[k].1.connection_attempts + 1) as u32
            }) && post[k].1.last_error is Some && post[k].1.last_error.unwrap()@
                == "reconnect failed"@
        })
    ||| (forall|k: int| 0 <= k < pre.len() ==> (#[trigger] pre[k]).0@ != device_id) && post == pre
}

impl ConnectionManager {
    /// The index of the status entry for this device id, if any.
    fn find_status_index(&self, device_id: &str) -> (r: Option<usize>)
        ensures
            match r {
                Some(i) => 0 <= i < self.connections@.len() && self.connections@[i as int].0@
                    == device_id@,
                None => forall|k: int|
                    0 <= k < self.connections@.len() ==> (#[trigger] self.connections@[k]).0@
                        != device_id@,
            },
    {
        let n: usize = self.connections.len();
        let mut i: usize = 0;
        while i < n
            invariant
                n == self.connections@.len(),
                0 <= i <= n,
                forall|k: int|
                    0 <= k < i ==> (#[trigger] self.connections@[k]).0@ != device_id@,
            decreases n - i,
        {
            if str_eq(self.connections[i].0.as_str(), device_id) {
                return Some(i);
            }
            i += 1;
        }
        None
    }

    /// Applies a partial-field patch to the profile and stamps its
    /// last-modified time with the given instant. `NotFound` exactly when no
    /// profile has the id.
    pub fn update_profile_at(
        &mut self,
        profile_id: &str,
        updates: &Vec<(String, SettingValue)>,
        now: i64,
    ) -> (r: Result<(), DeviceError>)
        requires
            old(self).wf(),
        ensures
            final(self).wf(),
            final(self).connections == old(self).connections,
            final(self).device_profiles == old(self).device_profiles,
            final(self).reconnect_active == old(self).reconnect_active,
            match r {
                Ok(()) => exists|k: int|
                    {
                        &&& 0 <= k < old(self).profiles@.len()
                        &&& (#[trigger] old(self).profiles@[k]).id@ == profile_id@
                        &&& final(self).profiles@.len() == old(self).profiles@.len()
                        &&& forall|j: int|
                            0 <= j < old(self).profiles@.len() && j != k ==> final(self).profiles@[j] == old(self).profiles@[j]
                        &&& final(self).profiles@[k]@ == (DeviceProfileV {
                            last_modified: now,
                            ..apply_all(
                                old(self).profiles@[k]@,
                                updates@.map_values(|e: (String, SettingValue)| (e.0@, e.1@)),
                            )
                        })
                    },
                Err(e) => {
                    &&& e is NotFound
                    &&& *final(self) == *old(self)
                    &&& forall|i: int|
                        0 <= i < old(self).profiles@.len() ==> (#[trigger] old(self).profiles@[i]).id@ != profile_id@
                },
            },
    {
        let ghost us = updates@.map_values(|e: (String, SettingValue)| (e.0@, e.1@));
        match self.find_profile_index(profile_id) {
            None => Err(
                DeviceError::NotFound("profile not found: ".to_owned().concat(profile_id)),
            ),
            Some(k) => {
                let ghost pre = *self;
                let mut p = self.profiles.remove(k);
                let ghost p0 = p@;
                proof {
                    assert(us.skip(0) =~= us);
                }
                let n: usize = updates.len();
                let mut i: usize = 0;
                while i < n
                    invariant
                        n == updates@.len(),
                        us == updates@.map_values(|e: (String, SettingValue)| (e.0@, e.1@)),
                        0 <= i <= n,
                        apply_all(p0, us) == apply_all(p@, us.skip(i as int)),
                    decreases n - i,
                {
                    proof {
                        assert(us.skip(i as int).len() > 0);
                        assert(us.skip(i as int)[0] == us[i as int]);
                        assert(us.skip(i as int).drop_first() =~= us.skip(i + 1));
                    }
                    let entry = &updates[i];
                    apply_update_exec(&mut p, &entry.0, &entry.1);
                    i += 1;
                }
                proof {
                    assert(us.skip(n as int) =~= Seq::<(Seq<char>, SettingValueV)>::empty());
                    assert(apply_all(p@, us.skip(n as int)) == p@);
                }
                p.last_modified = now;
                proof {
                    assert(p@ =~= (DeviceProfileV {
                        last_modified: now,
                        ..apply_all(pre.profiles@[k as int]@, us)
                    }));
                    lemma_apply_all_fixed(pre.profiles@[k as int]@, us);
                }
                self.profiles.insert(k, p);
                proof {
                    assert(self.profiles@ =~= pre.profiles@.update(k as int, p));
                    assert forall|a: int, b: int|
                        0 <= a < b < self.profiles@.len() implies (#[trigger] self.profiles@[
                        a
                    ]).id@ != (#[trigger] self.profiles@[b]).id@ by {
                        assert(self.profiles@[a].id@ == pre.profiles@[a].id@);
                        assert(self.profiles@[b].id@ == pre.profiles@[b].id@);
                    }
                }
                Ok(())
            },
        }
    }

    /// Applies a partial-field patch to the profile and stamps its
    /// last-modified time with the current instant. `NotFound` exactly when
    /// no profile has the id.
    pub fn update_profile(&mut self, profile_id: &str, updates: &Vec<(String, SettingValue)>) -> (r:
        Result<(), DeviceError>)
        requires
            old(self).wf(),
        ensures
            final(self).wf(),
            final(self).connections == old(self).connections,
            final(self).device_profiles == old(self).device_profiles,
            final(self).reconnect_active == old(self).reconnect_active,
            match r {
                Ok(()) => exists|k: int|
                    {
                        &&& 0 <= k < old(self).profiles@.len()
                        &&& (#[trigger] old(self).profiles@[k]).id@ == profile_id@
                        &&& final(self).profiles@.len() == old(self).profiles@.len()
                        &&& forall|j: int|
                            0 <= j < old(self).profiles@.len() && j != k ==> final(self).profiles@[j] == old(self).profiles@[j]
                        &&& same_but_modified(
                            final(self).profiles@[k]@,
                            apply_all(
                                old(self).profiles@[k]@,
                                updates@.map_values(|e: (String, SettingValue)| (e.0@, e.1@)),
                            ),
                        )
                    },
                Err(e) => {
                    &&& e is NotFound
                    &&& *final(self) == *old(self)
                    &&& forall|i: int|
                        0 <= i < old(self).profiles@.len() ==> (#[trigger] old(self).profiles@[i]).id@ != profile_id@
                },
            },
    {
        let now = clock::now_seconds();
        self.update_profile_at(profile_id, updates, now)
    }

    /// Upserts the connection status of the device, stamping its last-seen
    /// time with the given instant.
    pub fn update_connection_status_at(
        &mut self,
        device_id: &str,
        connected: bool,
        error: Option<String>,
        now: i64,
    )
        requires
            old(self).wf(),
        ensures
            final(self).wf(),
            final(self).profiles == old(self).profiles,
            final(self).device_profiles == old(self).device_profiles,
            final(self).reconnect_active == old(self).reconnect_active,
            status_upserted(
                old(self).connections@,
                final(self).connections@,
                device_id@,
                connected,
                error,
                now,
            ),
    {
        let ghost pre = self.connections@;
        match self.find_status_index(device_id) {
            Some(k) => {
                let entry = self.connections.remove(k);
                let status = ConnectionStatus {
                    connected,
                    last_seen: now,
                    connection_attempts: entry.1.connection_attempts,
                    last_error: match error {
                        Some(e) => Some(e),
                        None => entry.1.last_error,
                    },
                };
                self.connections.insert(k, (entry.0, status));
                proof {
                    assert forall|a: int, b: int|
                        0 <= a < b < self.connections@.len() implies (#[trigger] self.connections@[
                        a
                    ]).0@ != (#[trigger] self.connections@[b]).0@ by {
                        assert(self.connections@[a].0 == pre[a].0);
                        assert(self.connections@[b].0 == pre[b].0);
                    }
                }
            },
            None => {
                let status = ConnectionStatus {
                    connected,
                    last_seen: now,
                    connection_attempts: 0,
                    last_error: error,
                };
                self.connections.push((device_id.to_owned(), status));
                proof {
                    assert(self.connections@.last().0@ == device_id@);
                    assert forall|a: int, b: int|
                        0 <= a < b < self.connections@.len() implies (#[trigger] self.connections@[
                        a
                    ]).0@ != (#[trigger] self.connections@[b]).0@ by {
                        if b < pre.len() {
                            assert(self.connections@[a] == pre[a]);
                            assert(self.connections@[b] == pre[b]);
                        } else {
                            assert(self.connections@[a] == pre[a]);
                            assert(pre[a].0@ != device_id@);
                        }
                    }
                }
            },
        }
    }

    /// Upserts the connection status of the device, stamping its last-seen
    /// time with the current instant.
    pub fn update_connection_status(&mut self, device_id: &str, connected: bool, error: Option<
        String,
    >)
        requires
            old(self).wf(),
        ensures
            final(self).wf(),
            final(self).profiles == old(self).profiles,
            final(self).device_profiles == old(self).device_profiles,
            final(self).reconnect_active == old(self).reconnect_active,
            exists|t: i64|
                #[trigger] status_upserted(
                    old(self).connections@,
                    final(self).connections@,
                    device_id@,
                    connected,
                    error,
                    t,
                ),
    {
        let now = clock::now_millis();
        self.update_connection_status_at(device_id, connected, error, now);
    }

    /// The connection status of the device, if one was ever recorded.
    pub fn get_connection_status(&self, device_id: &str) -> (r: Option<ConnectionStatus>)
        ensures
            match r {
                Some(st) => exists|k: int|
                    0 <= k < self.connections@.len() && (#[trigger] self.connections@[k]).0@
                        == device_id@ && st == self.connections@[k].1,
                None => forall|k: int|
                    0 <= k < self.connections@.len() ==> (#[trigger] self.connections@[k]).0@
                        != device_id@,
            },
    {
        match self.find_status_index(device_id) {
            Some(k) => Some(self.connections[k].1.clone()),
            None => None,
        }
    }

    /// Drops every status entry that is disconnected and was last seen
    /// before the cutoff instant. A connected entry is never dropped,
    /// however old.
    pub fn cleanup_disconnected_at(&mut self, cutoff: i64)
        requires
            old(self).wf(),
        ensures
            final(self).wf(),
            final(self).profiles == old(self).profiles,
            final(self).device_profiles == old(self).device_profiles,
            final(self).reconnect_active == old(self).reconnect_active,
            cleaned(old(self).connections@, final(self).connections@, cutoff),
            forall|k: int|
                0 <= k < old(self).connections@.len() && (#[trigger] old(self).connections@[k]).1.connected ==> final(self).connections@.contains(
                    old(self).connections@[k],
                ),
    {
        let ghost pre = self.connections@;
        let ghost pred = |e: (String, ConnectionStatus)| e.1.connected || e.1.last_seen >= cutoff;
        let n: usize = self.connections.len();
        let mut kept: Vec<(String, ConnectionStatus)> = Vec::new();
        let ghost mut src: Seq<int> = Seq::empty();
        let mut k: usize = 0;
        while k < n
            invariant
                n == self.connections@.len(),
                self.connections@ == pre,
                pred == (|e: (String, ConnectionStatus)| e.1.connected || e.1.last_seen >= cutoff),
                0 <= k <= n,
                kept@ == pre.take(k as int).filter(pred),
                src.len() == kept@.len(),
                forall|a: int|
                    #![trigger src[a]]
                    0 <= a < kept@.len() ==> 0 <= src[a] < n && src[a] < k && kept@[a] == pre[src[
                        a
                    ]],
                forall|a: int, b: int| 0 <= a < b < kept@.len() ==> src[a] < src[b],
            decreases n - k,
        {
            proof {
                reveal(Seq::filter);
                assert(pre.take(k + 1).drop_last() =~= pre.take(k as int));
                assert(pre.take(k + 1).last() == pre[k as int]);
            }
            let entry = &self.connections[k];
            if entry.1.connected || entry.1.last_seen >= cutoff {
                kept.push((entry.0.clone(), entry.1.clone()));
                proof {
                    assert(kept@.last() == pre[k as int]);
                    src = src.push(k as int);
                }
            }
            k += 1;
        }
        proof {
            assert(pre.take(n as int) =~= pre);
        }
        self.connections = kept;
        proof {
            assert forall|a: int, b: int|
                0 <= a < b < self.connections@.len() implies (#[trigger] self.connections@[a]).0@
                != (#[trigger] self.connections@[b]).0@ by {
                assert(self.connections@[a] == pre[src[a]]);
                assert(self.connections@[b] == pre[src[b]]);
            }
            assert forall|j: int|
                0 <= j < pre.len() && (#[trigger] pre[j]).1.connected implies self.connections@
                .contains(pre[j]) by {
                pre.lemma_filter_contains(pred, j);
            }
        }
    }

    /// Drops every status entry that is disconnected and was last seen more
    /// than the given number of hours before now.
    pub fn cleanup_disconnected_devices(&mut self, older_than_hours: i64)
        requires
            old(self).wf(),
        ensures
            final(self).wf(),
            final(self).profiles == old(self).profiles,
            final(self).device_profiles == old(self).device_profiles,
            final(self).reconnect_active == old(self).reconnect_active,
            exists|cutoff: i64|
                #[trigger] cleaned(old(self).connections@, final(self).connections@, cutoff),
            forall|k: int|
                0 <= k < old(self).connections@.len() && (#[trigger] old(self).connections@[k]).1.connected ==> final(self).connections@.contains(
                    old(self).connections@[k],
                ),
    {
        let now = clock::now_millis();
        let cutoff: i64 = match older_than_hours.checked_mul(3600000) {
            Some(span) => match now.checked_sub(span) {
                Some(c) => c,
                None => if span > 0 {
                    i64::MIN
                } else {
                    i64::MAX
                },
            },
            None => if older_than_hours > 0 {
                i64::MIN
            } else {
                i64::MAX
            },
        };
        self.cleanup_disconnected_at(cutoff);
    }

    /// Removes the device id from the active-loop registry.
    fn remove_active(&mut self, device_id: &str)
        requires
            old(self).wf(),
        ensures
            final(self).wf(),
            final(self).profiles == old(self).profiles,
            final(self).connections == old(self).connections,
            final(self).device_profiles == old(self).device_profiles,
            final(self).reconnect_active@ == old(self).reconnect_active@.filter(
                |s: String| s@ != device_id@,
            ),
            forall|k: int|
                0 <= k < final(self).reconnect_active@.len() ==> old(self).reconnect_active@.contains(#[trigger] final(self).reconnect_active@[k]),
            !final(self).loop_active(device_id@),
    {
        let ghost pre = self.reconnect_active@;
        let ghost pred = |s: String| s@ != device_id@;
        let n: usize = self.reconnect_active.len();
        let mut kept: Vec<String> = Vec::new();
        let ghost mut src: Seq<int> = Seq::empty();
        let mut k: usize = 0;
        while k < n
            invariant
                n == self.reconnect_active@.len(),
                self.reconnect_active@ == pre,
                pred == (|s: String| s@ != device_id@),
                0 <= k <= n,
                kept@ == pre.take(k as int).filter(pred),
                src.len() == kept@.len(),
                forall|a: int|
                    #![trigger src[a]]
                    0 <= a < kept@.len() ==> 0 <= src[a] < n && src[a] < k && kept@[a] == pre[src[
                        a
                    ]],
                forall|a: int, b: int| 0 <= a < b < kept@.len() ==> src[a] < src[b],
            decreases n - k,
        {
            proof {
                reveal(Seq::filter);
                assert(pre.take(k + 1).drop_last() =~= pre.take(k as int));
                assert(pre.take(k + 1).last() == pre[k as int]);
            }
            if !str_eq(self.reconnect_active[k].as_str(), device_id) {
                kept.push(self.reconnect_active[k].clone());
                proof {
                    assert(kept@.last() == pre[k as int]);
                    src = src.push(k as int);
                }
            }
            k += 1;
        }
        proof {
            assert(pre.take(n as int) =~= pre);
        }
        self.reconnect_active = kept;
        proof {
            assert forall|a: int, b: int|
                0 <= a < b < self.reconnect_active@.len() implies (
            #[trigger] self.reconnect_active@[a])@ != (#[trigger] self.reconnect_active@[b])@ by {
                assert(self.reconnect_active@[a] == pre[src[a]]);
                assert(self.reconnect_active@[b] == pre[src[b]]);
            }
            assert forall|a: int|
                0 <= a < self.reconnect_active@.len() implies (
            #[trigger] self.reconnect_active@[a])@ != device_id@ by {
                pre.lemma_filter_pred(pred, a);
            }
            assert forall|a: int|
                0 <= a < self.reconnect_active@.len() implies pre.contains(
                #[trigger] self.reconnect_active@[a]) by {
                assert(self.reconnect_active@[a] == pre[src[a]]);
                assert(pre.contains(pre[src[a]]));
            }
        }
    }

    /// Registers the device's auto-reconnect loop, cancelling any prior one,
    /// and hands back the wake interval the loop must use. A profile with
    /// auto-reconnect off makes this a no-op; a device with no associated
    /// profile is refused. At most one loop per device id is ever active.
    pub fn start_auto_reconnect(&mut self, device_id: &str) -> (r: Result<Option<u64>, DeviceError>)
        requires
            old(self).wf(),
        ensures
            final(self).wf(),
            final(self).profiles == old(self).profiles,
            final(self).connections == old(self).connections,
            final(self).device_profiles == old(self).device_profiles,
            match r {
                Err(e) => {
                    &&& e is NotFound
                    &&& *final(self) == *old(self)
                    &&& (forall|k: int|
                        0 <= k < old(self).device_profiles@.len() ==> (#[trigger] old(self).device_profiles@[k]).0@ != device_id@) || (exists|k: int|
                        0 <= k < old(self).device_profiles@.len() && (#[trigger] old(self).device_profiles@[k]).0@ == device_id@ && forall|i: int|
                            0 <= i < old(self).profiles@.len() ==> (#[trigger] old(self).profiles@[i]).id@ != old(self).device_profiles@[k].1@)
                },
                Ok(plan) => match plan {
                    None => *final(self) == *old(self) && exists|k: int, i: int|
                        0 <= k < old(self).device_profiles@.len() && 0 <= i < old(self).profiles@.len() && (#[trigger] old(self).device_profiles@[k]).0@
                            == device_id@ && (#[trigger] old(self).profiles@[i]).id@ == old(self).device_profiles@[k].1@ && !old(self).profiles@[i].auto_reconnect,
                    Some(interval_ms) => {
                        &&& exists|k: int, i: int|
                            0 <= k < old(self).device_profiles@.len() && 0 <= i < old(self).profiles@.len() && (#[trigger] old(self).device_profiles@[k]).0@
                                == device_id@ && (#[trigger] old(self).profiles@[i]).id@ == old(self).device_profiles@[k].1@ && old(self).profiles@[i].auto_reconnect
                                && interval_ms == old(self).profiles@[i].reconnect_interval_ms
                        &&& final(self).reconnect_active@.len() >= 1
                        &&& final(self).reconnect_active@.last()@ == device_id@
                        &&& final(self).reconnect_active@.take(
                            final(self).reconnect_active@.len() - 1,
                        ) == old(self).reconnect_active@.filter(|s: String| s@ != device_id@)
                        &&& final(self).loop_active(device_id@)
                    },
                },
            },
    {
        match self.get_device_profile(device_id) {
            None => Err(
                DeviceError::NotFound(
                    "no profile associated with device: ".to_owned().concat(device_id),
                ),
            ),
            Some(profile) => {
                if !profile.auto_reconnect {
                    return Ok(None);
                }
                self.remove_active(device_id);
                let ghost mid = self.reconnect_active@;
                self.reconnect_active.push(device_id.to_owned());
                proof {
                    assert(self.reconnect_active@.last()@ == device_id@);
                    assert(self.reconnect_active@.take(self.reconnect_active@.len() - 1)
                        =~= mid);
                    assert forall|a: int, b: int|
                        0 <= a < b < self.reconnect_active@.len() implies (
                    #[trigger] self.reconnect_active@[a])@ != (
                    #[trigger] self.reconnect_active@[b])@ by {
                        if b < mid.len() {
                            assert(self.reconnect_active@[a] == mid[a]);
                            assert(self.reconnect_active@[b] == mid[b]);
                        } else {
                            assert(self.reconnect_active@[a] == mid[a]);
                        }
                    }
                }
                Ok(Some(profile.reconnect_interval_ms))
            },
        }
    }

    /// Cancels the device's auto-reconnect loop; safe to call when none is
    /// running.
    pub fn stop_auto_reconnect(&mut self, device_id: &str) -> (r: Result<(), DeviceError>)
        requires
            old(self).wf(),
        ensures
            final(self).wf(),
            final(self).profiles == old(self).profiles,
            final(self).connections == old(self).connections,
            final(self).device_profiles == old(self).device_profiles,
            final(self).reconnect_active@ == old(self).reconnect_active@.filter(
                |s: String| s@ != device_id@,
            ),
            forall|k: int|
                0 <= k < final(self).reconnect_active@.len() ==> old(self).reconnect_active@.contains(#[trigger] final(self).reconnect_active@[k]),
            !final(self).loop_active(device_id@),
            r is Ok,
    {
        self.remove_active(device_id);
        Ok(())
    }

    /// Whether a reconnect attempt is due: a status exists and is
    /// disconnected.
    pub fn should_attempt_reconnect(&self, device_id: &str) -> (r: bool)
        requires
            self.wf(),
        ensures
            forall|k: int|
                0 <= k < self.connections@.len() && (#[trigger] self.connections@[k]).0@
                    == device_id@ ==> r == !self.connections@[k].1.connected,
            (forall|k: int|
                0 <= k < self.connections@.len() ==> (#[trigger] self.connections@[k]).0@
                    != device_id@) ==> !r,
    {
        match self.find_status_index(device_id) {
            Some(k) => {
                let r = !self.connections[k].1.connected;
                proof {
                    assert forall|a: int|
                        0 <= a < self.connections@.len() && (#[trigger] self.connections@[a]).0@
                            == device_id@ implies r == !self.connections@[a].1.connected by {
                        if a != k as int {
                            assert(self.connections@[a].0@ == self.connections@[k as int].0@);
                        }
                    }
                }
                r
            },
            None => false,
        }
    }

    /// Records the outcome of one auto-reconnect wake at the given instant.
    pub fn reconnect_step_at(&mut self, device_id: &str, succeeded: bool, now: i64)
        requires
            old(self).wf(),
        ensures
            final(self).wf(),
            final(self).profiles == old(self).profiles,
            final(self).device_profiles == old(self).device_profiles,
            final(self).reconnect_active == old(self).reconnect_active,
            reconnect_stepped(
                old(self).connections@,
                final(self).connections@,
                device_id@,
                succeeded,
                now,
            ),
    {
        let ghost pre = self.connections@;
        match self.find_status_index(device_id) {
            None => {
            },
            Some(k) => {
                let entry = self.connections.remove(k);
                let status = if succeeded {
                    ConnectionStatus {
                        connected: true,
                        last_seen: now,
                        connection_attempts: 0,
                        last_error: None,
                    }
                } else {
                    ConnectionStatus {
                        connected: entry.1.connected,
                        last_seen: entry.1.last_seen,
                        connection_attempts: entry.1.connection_attempts.saturating_add(1),
                        last_error: Some("reconnect failed".to_owned()),
                    }
                };
                self.connections.insert(k, (entry.0, status));
                proof {
                    assert forall|a: int, b: int|
                        0 <= a < b < self.connections@.len() implies (#[trigger] self.connections@[
                        a
                    ]).0@ != (#[trigger] self.connections@[b]).0@ by {
                        assert(self.connections@[a].0 == pre[a].0);
                        assert(self.connections@[b].0 == pre[b].0);
                    }
                }
            },
        }
    }

    /// Records the outcome of one auto-reconnect wake at the current instant.
    pub fn reconnect_step(&mut self, device_id: &str, succeeded: bool)
        requires
            old(self).wf(),
        ensures
            final(self).wf(),
            final(self).profiles == old(self).profiles,
            final(self).device_profiles == old(self).device_profiles,
            final(self).reconnect_active == old(self).reconnect_active,
            exists|t: i64|
                #[trigger] reconnect_stepped(
                    old(self).connections@,
                    final(self).connections@,
                    device_id@,
                    succeeded,
                    t,
                ),
    {
        let now = clock::now_millis();
        self.reconnect_step_at(device_id, succeeded, now);
    }
}

/// The device ids in a batch are pairwise distinct.
pub open spec fn distinct_ids(ids: Seq<String>) -> bool {
    forall|a: int, b: int| 0 <= a < b < ids.len() ==> ids[a]@ != ids[b]@
}

/// The status table maps this device id to a record with this connected
/// flag; on a failure outcome the error message is recorded.
pub open spec fn status_reflects(
    conns: Seq<(String, ConnectionStatus)>,
    device_id: Seq<char>,
    outcome: Result<(), String>,
) -> bool {
    exists|k: int|
        0 <= k < conns.len() && (#[trigger] conns[k]).0@ == device_id && conns[k].1.connected == (
        outcome is Ok) && (outcome is Err ==> conns[k].1.last_error is Some
            && conns[k].1.last_error.unwrap()@ == outcome->Err_0@)
}

/// The status table maps this device id to a disconnected record; on a
/// failure outcome the error message is recorded.
pub open spec fn status_disconnected(
    conns: Seq<(String, ConnectionStatus)>,
    device_id: Seq<char>,
    outcome: Result<(), String>,
) -> bool {
    exists|k: int|
        0 <= k < conns.len() && (#[trigger] conns[k]).0@ == device_id && !conns[k].1.connected && (
        outcome matches Err(m) ==> conns[k].1.last_error is Some
            && conns[k].1.last_error.unwrap()@ == m@)
}

/// The association table maps this device id to this profile id.
pub open spec fn assoc_maps(m: ConnectionManager, device_id: Seq<char>, profile_id: Seq<char>) -> bool {
    exists|k: int|
        0 <= k < m.device_profiles@.len() && (#[trigger] m.device_profiles@[k]).0@ == device_id
            && m.device_profiles@[k].1@ == profile_id
}

/// The entry at `i` is the last in the list carrying its profile id.
pub open spec fn last_occurrence(ps: Seq<DeviceProfile>, i: int) -> bool {
    0 <= i < ps.len() && forall|j: int| i < j < ps.len() ==> ps[j].id@ != ps[i].id@
}

/// The entry at `a` is the last among the first `i` entries carrying its id.
pub open spec fn last_so_far(ps: Seq<DeviceProfile>, a: int, i: int) -> bool {
    0 <= a < i <= ps.len() && forall|j: int| a < j < i ==> ps[j].id@ != ps[a].id@
}

/// No entry among the first `i` carries this profile id.
pub open spec fn no_imported_id(ps: Seq<DeviceProfile>, i: int, id: Seq<char>) -> bool {
    forall|a: int| 0 <= a < i && a < ps.len() ==> (#[trigger] ps[a]).id@ != id
}

/// Some profile in the table has exactly this model.
pub open spec fn profile_stored(ps: Seq<DeviceProfile>, pv: DeviceProfileV) -> bool {
    exists|k: int| 0 <= k < ps.len() && (#[trigger] ps[k])@ == pv
}

/// The id belongs to the prior table or to one of the first `upto` merged
/// profiles: a merge adds no id of its own.
pub open spec fn id_from(
    prior: Seq<DeviceProfile>,
    imported: Seq<DeviceProfile>,
    upto: int,
    id: Seq<char>,
) -> bool {
    ||| exists|j: int| 0 <= j < prior.len() && (#[trigger] prior[j]).id@ == id
    ||| exists|i: int| 0 <= i < upto && i < imported.len() && (#[trigger] imported[i]).id@ == id
}

/// In a well-formed manager no two active-loop registry entries carry the
/// same device id: at most one auto-reconnect loop per device is ever
/// active.
pub proof fn lemma_single_reconnect_loop(m: ConnectionManager, i: int, j: int)
    requires
        m.wf(),
        0 <= i < j < m.reconnect_active@.len(),
    ensures
        m.reconnect_active@[i]@ != m.reconnect_active@[j]@,
{
}

impl ConnectionManager {
    /// Connects each device independently through the caller's connect
    /// operation and records every outcome: one result entry per input id,
    /// in order; a failure for one device never aborts the others.
    pub fn batch_connect<F: Fn(&str) -> Result<(), String>>(
        &mut self,
        device_ids: Vec<String>,
        connect_fn: F,
    ) -> (r: Vec<(String, Result<(), String>)>)
        requires
            old(self).wf(),
            forall|s: &str| #[trigger] connect_fn.requires((s,)),
        ensures
            final(self).wf(),
            final(self).profiles == old(self).profiles,
            final(self).device_profiles == old(self).device_profiles,
            final(self).reconnect_active == old(self).reconnect_active,
            r@.len() == device_ids@.len(),
            forall|i: int| 0 <= i < r@.len() ==> (#[trigger] r@[i]).0 == device_ids@[i],
            distinct_ids(device_ids@) ==> forall|i: int|
                0 <= i < r@.len() ==> status_reflects(
                    final(self).connections@,
                    (#[trigger] r@[i]).0@,
                    r@[i].1,
                ),
    {
        let n: usize = device_ids.len();
        let mut out: Vec<(String, Result<(), String>)> = Vec::new();
        let mut i: usize = 0;
        while i < n
            invariant
                old(self).wf(),
                self.wf(),
                self.profiles == old(self).profiles,
                self.device_profiles == old(self).device_profiles,
                self.reconnect_active == old(self).reconnect_active,
                forall|s: &str| #[trigger] connect_fn.requires((s,)),
                n == device_ids@.len(),
                0 <= i <= n,
                out@.len() == i,
                forall|a: int| 0 <= a < i ==> (#[trigger] out@[a]).0 == device_ids@[a],
                distinct_ids(device_ids@) ==> forall|a: int|
                    0 <= a < i ==> status_reflects(
                        self.connections@,
                        (#[trigger] out@[a]).0@,
                        out@[a].1,
                    ),
            decreases n - i,
        {
            let ghost mid = self.connections@;
            let id = device_ids[i].clone();
            let outcome = connect_fn(id.as_str());
            match &outcome {
                Ok(_) => {
                    self.update_connection_status(id.as_str(), true, None);
                },
                Err(m) => {
                    self.update_connection_status(id.as_str(), false, Some(m.clone()));
                },
            }
            out.push((id, outcome));
            proof {
                if distinct_ids(device_ids@) {
                    assert forall|a: int|
                        0 <= a < i + 1 implies status_reflects(
                        self.connections@,
                        (#[trigger] out@[a]).0@,
                        out@[a].1,
                    ) by {
                        if a < i as int {
                            let k0 = choose|k: int|
                                0 <= k < mid.len() && (#[trigger] mid[k]).0@ == out@[a].0@ && mid[
                                    k
                                ].1.connected == (out@[a].1 is Ok) && (out@[a].1 is Err ==> mid[
                                    k
                                ].1.last_error is Some && mid[k].1.last_error.unwrap()@ == out@[
                                    a
                                ].1->Err_0@);
                            assert(out@[a].0@ != device_ids@[i as int]@);
                            assert(self.connections@[k0] == mid[k0]);
                        }
                    }
                }
            }
            i += 1;
        }
        out
    }

    /// Disconnects each device independently: stops its auto-reconnect loop,
    /// applies the caller's disconnect operation, and records the outcome as
    /// a disconnected status. One result entry per input id, in order.
    pub fn batch_disconnect<F: Fn(&str) -> Result<(), String>>(
        &mut self,
        device_ids: Vec<String>,
        disconnect_fn: F,
    ) -> (r: Vec<(String, Result<(), String>)>)
        requires
            old(self).wf(),
            forall|s: &str| #[trigger] disconnect_fn.requires((s,)),
        ensures
            final(self).wf(),
            final(self).profiles == old(self).profiles,
            final(self).device_profiles == old(self).device_profiles,
            r@.len() == device_ids@.len(),
            forall|i: int| 0 <= i < r@.len() ==> (#[trigger] r@[i]).0 == device_ids@[i],
            forall|i: int|
                0 <= i < device_ids@.len() ==> !final(self).loop_active(
                    (#[trigger] device_ids@[i])@,
                ),
            distinct_ids(device_ids@) ==> forall|i: int|
                0 <= i < r@.len() ==> #[trigger] status_disconnected(
                    final(self).connections@,
                    r@[i].0@,
                    r@[i].1,
                ),
    {
        let n: usize = device_ids.len();
        let mut out: Vec<(String, Result<(), String>)> = Vec::new();
        let mut i: usize = 0;
        while i < n
            invariant
                old(self).wf(),
                self.wf(),
                self.profiles == old(self).profiles,
                self.device_profiles == old(self).device_profiles,
                forall|s: &str| #[trigger] disconnect_fn.requires((s,)),
                n == device_ids@.len(),
                0 <= i <= n,
                out@.len() == i,
                forall|a: int| 0 <= a < i ==> (#[trigger] out@[a]).0 == device_ids@[a],
                forall|a: int|
                    0 <= a < i ==> !self.loop_active((#[trigger] device_ids@[a])@),
                distinct_ids(device_ids@) ==> forall|a: int|
                    0 <= a < i ==> #[trigger] status_disconnected(
                        self.connections@,
                        out@[a].0@,
                        out@[a].1,
                    ),
            decreases n - i,
        {
            let ghost pre_active = self.reconnect_active@;
            let id = device_ids[i].clone();
            let stop_result = self.stop_auto_reconnect(id.as_str());
            proof {
                assert forall|a: int|
                    0 <= a < i implies !self.loop_active((#[trigger] device_ids@[a])@) by {
                    if self.loop_active(device_ids@[a]@) {
                        let k0 = choose|k: int|
                            0 <= k < self.reconnect_active@.len() && (
                            #[trigger] self.reconnect_active@[k])@ == device_ids@[a]@;
                        assert(pre_active.contains(self.reconnect_active@[k0]));
                    }
                }
            }
            let ghost mid = self.connections@;
            let outcome = disconnect_fn(id.as_str());
            match &outcome {
                Ok(_) => {
                    self.update_connection_status(id.as_str(), false, None);
                },
                Err(m) => {
                    self.update_connection_status(id.as_str(), false, Some(m.clone()));
                },
            }
            proof {
                assert forall|a: int|
                    0 <= a < i implies !self.loop_active((#[trigger] device_ids@[a])@) by {
                }
            }
            out.push((id, outcome));
            proof {
                if distinct_ids(device_ids@) {
                    assert forall|a: int|
                        0 <= a < i + 1 implies #[trigger] status_disconnected(
                        self.connections@,
                        out@[a].0@,
                        out@[a].1,
                    ) by {
                        if a < i as int {
                            assert(status_disconnected(mid, out@[a].0@, out@[a].1));
                            let k0 = choose|k: int|
                                0 <= k < mid.len() && (#[trigger] mid[k]).0@ == out@[a].0@ && !mid[
                                    k
                                ].1.connected && (out@[a].1 matches Err(m) ==> mid[
                                    k
                                ].1.last_error is Some && mid[k].1.last_error.unwrap()@ == m@);
                            assert(out@[a].0@ != device_ids@[i as int]@);
                            assert(self.connections@[k0] == mid[k0]);
                        }
                    }
                }
            }
            i += 1;
        }
        out
    }

    /// Associates each device with the profile independently: one result
    /// entry per input id, in order, each `Ok` exactly when the profile
    /// exists.
    pub fn batch_apply_profile(&mut self, device_ids: Vec<String>, profile_id: &str) -> (r: Vec<
        (String, Result<(), String>),
    >)
        requires
            old(self).wf(),
        ensures
            final(self).wf(),
            final(self).profiles == old(self).profiles,
            final(self).connections == old(self).connections,
            final(self).reconnect_active == old(self).reconnect_active,
            r@.len() == device_ids@.len(),
            forall|i: int| 0 <= i < r@.len() ==> (#[trigger] r@[i]).0 == device_ids@[i],
            forall|i: int|
                0 <= i < r@.len() ==> ((#[trigger] r@[i]).1 is Ok <==> old(self).has_profile(
                    profile_id@,
                )),
            old(self).has_profile(profile_id@) ==> forall|i: int|
                0 <= i < device_ids@.len() ==> assoc_maps(
                    *final(self),
                    (#[trigger] device_ids@[i])@,
                    profile_id@,
                ),
    {
        let n: usize = device_ids.len();
        let mut out: Vec<(String, Result<(), String>)> = Vec::new();
        let mut i: usize = 0;
        while i < n
            invariant
                old(self).wf(),
                self.wf(),
                self.profiles == old(self).profiles,
                self.connections == old(self).connections,
                self.reconnect_active == old(self).reconnect_active,
                n == device_ids@.len(),
                0 <= i <= n,
                out@.len() == i,
                forall|a: int| 0 <= a < i ==> (#[trigger] out@[a]).0 == device_ids@[a],
                forall|a: int|
                    0 <= a < i ==> ((#[trigger] out@[a]).1 is Ok <==> old(self).has_profile(
                        profile_id@,
                    )),
                old(self).has_profile(profile_id@) ==> forall|a: int|
                    0 <= a < i ==> assoc_maps(*self, (#[trigger] device_ids@[a])@, profile_id@),
            decreases n - i,
        {
            let ghost mid = *self;
            let id = device_ids[i].clone();
            let outcome = match self.associate_device_profile(id.as_str(), profile_id) {
                Ok(()) => Ok(()),
                Err(e) => Err(e.message()),
            };
            out.push((id, outcome));
            proof {
                if old(self).has_profile(profile_id@) {
                    assert forall|a: int|
                        0 <= a < i + 1 implies assoc_maps(
                        *self,
                        (#[trigger] device_ids@[a])@,
                        profile_id@,
                    ) by {
                        if a < i as int {
                            let k0 = choose|k: int|
                                0 <= k < mid.device_profiles@.len() && (
                                #[trigger] mid.device_profiles@[k]).0@ == device_ids@[a]@
                                    && mid.device_profiles@[k].1@ == profile_id@;
                            if device_ids@[a]@ == device_ids@[i as int]@ {
                            } else {
                                assert(self.device_profiles@.contains(mid.device_profiles@[k0]));
                                let k1 = choose|k: int|
                                    0 <= k < self.device_profiles@.len() && (
                                    #[trigger] self.device_profiles@[k]) == mid.device_profiles@[
                                        k0
                                    ];
                                assert(self.device_profiles@[k1].0@ == device_ids@[a]@);
                            }
                        }
                    }
                }
            }
            i += 1;
        }
        out
    }

    /// Merges the given profiles into the table by id, overwriting existing
    /// ids and adding new ones, and returns how many were merged. Profiles
    /// absent from the batch are kept.
    pub fn import_profiles(&mut self, imported: Vec<DeviceProfile>) -> (r: usize)
        requires
            old(self).wf(),
        ensures
            final(self).wf(),
            final(self).connections == old(self).connections,
            final(self).device_profiles == old(self).device_profiles,
            final(self).reconnect_active == old(self).reconnect_active,
            r == imported@.len(),
            forall|i: int|
                last_occurrence(imported@, i) ==> #[trigger] profile_stored(
                    final(self).profiles@,
                    imported@[i]@,
                ),
            forall|j: int|
                0 <= j < old(self).profiles@.len() && no_imported_id(
                    imported@,
                    imported@.len() as int,
                    old(self).profiles@[j].id@,
                ) ==> final(self).profiles@.contains(#[trigger] old(self).profiles@[j]),
            forall|k: int|
                0 <= k < final(self).profiles@.len() ==> id_from(
                    old(self).profiles@,
                    imported@,
                    imported@.len() as int,
                    (#[trigger] final(self).profiles@[k]).id@,
                ),
    {
        let n: usize = imported.len();
        let mut i: usize = 0;
        while i < n
            invariant
                old(self).wf(),
                self.wf(),
                self.connections == old(self).connections,
                self.device_profiles == old(self).device_profiles,
                self.reconnect_active == old(self).reconnect_active,
                n == imported@.len(),
                0 <= i <= n,
                forall|a: int|
                    last_so_far(imported@, a, i as int) ==> #[trigger] profile_stored(
                        self.profiles@,
                        imported@[a]@,
                    ),
                forall|j: int|
                    0 <= j < old(self).profiles@.len() && no_imported_id(
                        imported@,
                        i as int,
                        old(self).profiles@[j].id@,
                    ) ==> self.profiles@.contains(#[trigger] old(self).profiles@[j]),
                forall|k: int|
                    0 <= k < self.profiles@.len() ==> id_from(
                        old(self).profiles@,
                        imported@,
                        i as int,
                        (#[trigger] self.profiles@[k]).id@,
                    ),
            decreases n - i,
        {
            let ghost mid = self.profiles@;
            let p = imported[i].clone();
            let ghost pv = p;
            let created = self.create_profile(p);
            proof {
                let newseq = self.profiles@;
                assert(pv@ == imported@[i as int]@);
                assert forall|a: int|
                    last_so_far(imported@, a, i + 1) implies #[trigger] profile_stored(
                    newseq,
                    imported@[a]@,
                ) by {
                    if a == i as int {
                        if exists|k: int|
                            0 <= k < mid.len() && (#[trigger] mid[k]).id@ == pv.id@ {
                            let k0 = choose|k: int|
                                0 <= k < mid.len() && (#[trigger] mid[k]).id@ == pv.id@ && newseq
                                    == mid.update(k, pv);
                            assert(newseq[k0]@ == pv@);
                        } else {
                            assert(newseq.last()@ == pv@);
                        }
                    } else {
                        assert(last_so_far(imported@, a, i as int));
                        assert(profile_stored(mid, imported@[a]@));
                        let k0 = choose|k: int|
                            0 <= k < mid.len() && (#[trigger] mid[k])@ == imported@[a]@;
                        assert(imported@[a].id@ != imported@[i as int].id@);
                        assert(newseq[k0]@ == imported@[a]@);
                    }
                }
                assert forall|k: int|
                    0 <= k < newseq.len() implies id_from(
                    old(self).profiles@,
                    imported@,
                    i + 1,
                    (#[trigger] newseq[k]).id@,
                ) by {
                    if exists|k2: int| 0 <= k2 < mid.len() && (#[trigger] mid[k2]).id@ == pv.id@ {
                        let k0 = choose|k2: int|
                            0 <= k2 < mid.len() && (#[trigger] mid[k2]).id@ == pv.id@ && newseq
                                == mid.update(k2, pv);
                        if k == k0 {
                            assert(newseq[k].id@ == imported@[i as int].id@);
                        } else {
                            assert(newseq[k] == mid[k]);
                            assert(id_from(old(self).profiles@, imported@, i as int, mid[k].id@));
                        }
                    } else {
                        if k < mid.len() {
                            assert(newseq[k] == mid[k]);
                            assert(id_from(old(self).profiles@, imported@, i as int, mid[k].id@));
                        } else {
                            assert(newseq[k].id@ == imported@[i as int].id@);
                        }
                    }
                }
                assert forall|j: int|
                    0 <= j < old(self).profiles@.len() && no_imported_id(
                        imported@,
                        i + 1,
                        old(self).profiles@[j].id@,
                    ) implies newseq.contains(#[trigger] old(self).profiles@[j]) by {
                    let e = old(self).profiles@[j];
                    assert(no_imported_id(imported@, i as int, e.id@));
                    assert(mid.contains(e));
                    let k0 = choose|k: int| 0 <= k < mid.len() && #[trigger] mid[k] == e;
                    assert(imported@[i as int].id@ != e.id@);
                    assert(newseq[k0] == e);
                }
            }
            i += 1;
        }
        proof {
            assert forall|a: int|
                last_occurrence(imported@, a) implies #[trigger] profile_stored(
                self.profiles@,
                imported@[a]@,
            ) by {
                assert(last_so_far(imported@, a, n as int));
            }
        }
        n
    }
}

} // verus!
