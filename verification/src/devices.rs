//! Device enumeration and mount bookkeeping.

use vstd::prelude::*;
use crate::core_types::{DeviceInfo, DeviceType, LuCastraError};
use crate::strutil::str_eq;

verus! {

/// A known device by path, as a spec value.
pub type DeviceEntry = (Seq<char>, DeviceInfo);

pub open spec fn spec_contains_dev(s: Seq<DeviceEntry>, p: Seq<char>) -> bool {
    exists|i: int| 0 <= i < s.len() && (#[trigger] s[i]).0 == p
}

pub open spec fn spec_dev_index(s: Seq<DeviceEntry>, p: Seq<char>) -> int {
    choose|i: int| 0 <= i < s.len() && (#[trigger] s[i]).0 == p
}

pub open spec fn spec_unique_devs(s: Seq<DeviceEntry>) -> bool {
    forall|i: int, j: int| 0 <= i < j < s.len() ==> (#[trigger] s[i]).0 != (#[trigger] s[j]).0
}

/// The mock devices a scan reports, in insertion order.
pub open spec fn spec_is_scan_result(s: Seq<DeviceEntry>) -> bool {
    &&& s.len() == 3
    &&& s[0].0 == "/dev/usb0"@ && s[0].1.path@ == "/dev/usb0"@ && s[0].1.device_type
        == DeviceType::BlockDevice && s[0].1.name@ == "USB Storage"@ && s[0].1.size_bytes
        == Some(0x4000_0000u64) && !s[0].1.mounted && s[0].1.mount_point is None
    &&& s[1].0 == "/dev/input/kbd0"@ && s[1].1.path@ == "/dev/input/kbd0"@ && s[1].1.device_type
        == DeviceType::InputDevice && s[1].1.name@ == "Keyboard"@ && s[1].1.size_bytes is None
        && !s[1].1.mounted && s[1].1.mount_point is None
    &&& s[2].0 == "/dev/input/mouse0"@ && s[2].1.path@ == "/dev/input/mouse0"@
        && s[2].1.device_type == DeviceType::InputDevice && s[2].1.name@ == "Mouse"@
        && s[2].1.size_bytes is None && !s[2].1.mounted && s[2].1.mount_point is None
}

/// Field-wise equality of device descriptions, by view.
pub open spec fn spec_dev_like(a: DeviceInfo, b: DeviceInfo) -> bool {
    &&& a.path@ == b.path@
    &&& a.device_type == b.device_type
    &&& a.name@ == b.name@
    &&& a.size_bytes == b.size_bytes
    &&& a.mounted == b.mounted
    &&& (match b.mount_point {
        Some(m) => a.mount_point matches Some(m2) && m2@ == m@,
        None => a.mount_point is None,
    })
}

/// A field-wise copy of a device description.
fn clone_device(d: &DeviceInfo) -> (r: DeviceInfo)
    ensures
        spec_dev_like(r, *d),
{
    let mount_point = match &d.mount_point {
        Some(m) => Some(m.clone()),
        None => None,
    };
    DeviceInfo {
        path: d.path.clone(),
        device_type: d.device_type,
        name: d.name.clone(),
        size_bytes: d.size_bytes,
        mounted: d.mounted,
        mount_point,
    }
}

/// Tracks detected devices and their mount state.
pub struct DeviceManager {
    devices: Vec<(String, DeviceInfo)>,
}

impl DeviceManager {
    pub closed spec fn spec_devices(&self) -> Seq<DeviceEntry> {
        self.devices@.map_values(|p: (String, DeviceInfo)| (p.0@, p.1))
    }

    pub open spec fn wf(&self) -> bool {
        spec_unique_devs(self.spec_devices())
    }

    pub fn new() -> (r: DeviceManager)
        ensures
            r.wf(),
            r.spec_devices() =~= Seq::<DeviceEntry>::empty(),
    {
        let r = DeviceManager { devices: Vec::new() };
        proof {
            assert(r.spec_devices() =~= Seq::<DeviceEntry>::empty());
        }
        r
    }

    /// Replaces the device list with the mock scan results: one USB block
    /// device and two input devices, all unmounted.
    pub fn scan(&mut self) -> (r: Result<(), LuCastraError>)
        ensures
            r.is_ok(),
            final(self).wf(),
            spec_is_scan_result(final(self).spec_devices()),
    {
        let mut devices: Vec<(String, DeviceInfo)> = Vec::new();
        devices.push(
            (
                "/dev/usb0".to_owned(),
                DeviceInfo {
                    path: "/dev/usb0".to_owned(),
                    device_type: DeviceType::BlockDevice,
                    name: "USB Storage".to_owned(),
                    size_bytes: Some(0x4000_0000),
                    mounted: false,
                    mount_point: None,
                },
            ),
        );
        devices.push(
            (
                "/dev/input/kbd0".to_owned(),
                DeviceInfo {
                    path: "/dev/input/kbd0".to_owned(),
                    device_type: DeviceType::InputDevice,
                    name: "Keyboard".to_owned(),
                    size_bytes: None,
                    mounted: false,
                    mount_point: None,
                },
            ),
        );
        devices.push(
            (
                "/dev/input/mouse0".to_owned(),
                DeviceInfo {
                    path: "/dev/input/mouse0".to_owned(),
                    device_type: DeviceType::InputDevice,
                    name: "Mouse".to_owned(),
                    size_bytes: None,
                    mounted: false,
                    mount_point: None,
                },
            ),
        );
        self.devices = devices;
        proof {
            reveal_strlit("/dev/usb0");
            reveal_strlit("/dev/input/kbd0");
            reveal_strlit("/dev/input/mouse0");
            let s = self.spec_devices();
            assert(s.len() == 3);
            assert(s[0].0.len() == 9 && s[1].0.len() == 15 && s[2].0.len() == 17);
            assert(s[0].0 != s[1].0 && s[0].0 != s[2].0 && s[1].0 != s[2].0);
            assert(spec_unique_devs(s));
        }
        Ok(())
    }

    /// The position of a device by path.
    fn position_of(&self, path: &str) -> (r: Option<usize>)
        ensures
            (match r {
                Some(i) => i < self.devices@.len() && self.spec_devices()[i as int].0 == path@,
                None => !spec_contains_dev(self.spec_devices(), path@),
            }),
    {
        let ghost s = self.spec_devices();
        let mut i: usize = 0;
        while i < self.devices.len()
            invariant
                i <= self.devices@.len(),
                s == self.spec_devices(),
                forall|j: int| 0 <= j < i ==> (#[trigger] s[j]).0 != path@,
            decreases self.devices@.len() - i,
        {
            if str_eq(self.devices[i].0.as_str(), path) {
                proof {
                    assert(s[i as int].0 == path@);
                }
                return Some(i);
            }
            i += 1;
        }
        None
    }

    /// Every detected device, in scan order.
    pub fn list_devices(&self) -> (r: Result<Vec<DeviceInfo>, LuCastraError>)
        ensures
            (match r {
                Ok(v) => v@.len() == self.spec_devices().len() && forall|i: int|
                    0 <= i < v@.len() ==> spec_dev_like(
                        #[trigger] v@[i],
                        self.spec_devices()[i].1,
                    ),
                Err(_) => false,
            }),
    {
        let mut out: Vec<DeviceInfo> = Vec::new();
        let mut i: usize = 0;
        while i < self.devices.len()
            invariant
                i <= self.devices@.len(),
                out@.len() == i,
                forall|j: int|
                    0 <= j < i ==> spec_dev_like(#[trigger] out@[j], self.spec_devices()[j].1),
            decreases self.devices@.len() - i,
        {
            out.push(clone_device(&self.devices[i].1));
            i += 1;
        }
        Ok(out)
    }

    /// The device at `path`, or `DeviceNotFound`.
    pub fn get_device(&self, path: &str) -> (r: Result<DeviceInfo, LuCastraError>)
        requires
            self.wf(),
        ensures
            (match r {
                Ok(d) => spec_contains_dev(self.spec_devices(), path@) && spec_dev_like(
                    d,
                    self.spec_devices()[spec_dev_index(self.spec_devices(), path@)].1,
                ),
                Err(e) => !spec_contains_dev(self.spec_devices(), path@) && (e matches
                LuCastraError::DeviceNotFound(p) && p@ == path@),
            }),
    {
        let ghost s = self.spec_devices();
        match self.position_of(path) {
            Some(i) => {
                proof {
                    assert(s[i as int].0 == path@);
                    assert(spec_contains_dev(s, path@));
                    let w = spec_dev_index(s, path@);
                    assert(0 <= w < s.len() && s[w].0 == path@);
                    if w < i as int {
                        assert(s[w].0 != s[i as int].0);
                    }
                    if (i as int) < w {
                        assert(s[i as int].0 != s[w].0);
                    }
                    assert(w == i as int);
                }
                Ok(clone_device(&self.devices[i].1))
            },
            None => Err(LuCastraError::DeviceNotFound(path.to_owned())),
        }
    }

    /// Marks the device as mounted at `mount_point`; `DeviceNotFound` for
    /// an unknown path.
    pub fn mount_device(&mut self, path: &str, mount_point: &str) -> (r: Result<
        (),
        LuCastraError,
    >)
        requires
            old(self).wf(),
        ensures
            final(self).wf(),
            r.is_ok() <==> spec_contains_dev(old(self).spec_devices(), path@),
            r.is_ok() ==> {
                let s = old(self).spec_devices();
                let i = spec_dev_index(s, path@);
                let s2 = final(self).spec_devices();
                &&& s2.len() == s.len()
                &&& (forall|j: int| 0 <= j < s.len() && j != i ==> #[trigger] s2[j] == s[j])
                &&& s2[i].0 == path@
                &&& s2[i].1.mounted
                &&& (s2[i].1.mount_point matches Some(m) && m@ == mount_point@)
                &&& s2[i].1.path@ == s[i].1.path@
                &&& s2[i].1.device_type == s[i].1.device_type
                &&& s2[i].1.name@ == s[i].1.name@
                &&& s2[i].1.size_bytes == s[i].1.size_bytes
            },
            r.is_err() ==> *final(self) == *old(self) && (r matches Err(
                LuCastraError::DeviceNotFound(p),
            ) && p@ == path@),
    {
        let ghost s = self.spec_devices();
        match self.position_of(path) {
            Some(i) => {
                proof {
                    assert(s[i as int].0 == path@);
                    assert(spec_contains_dev(s, path@));
                    let w = spec_dev_index(s, path@);
                    assert(0 <= w < s.len() && s[w].0 == path@);
                    if w < i as int {
                        assert(s[w].0 != s[i as int].0);
                    }
                    if (i as int) < w {
                        assert(s[i as int].0 != s[w].0);
                    }
                    assert(w == i as int);
                }
                let key = self.devices[i].0.clone();
                let d = &self.devices[i].1;
                let nd = DeviceInfo {
                    path: d.path.clone(),
                    device_type: d.device_type,
                    name: d.name.clone(),
                    size_bytes: d.size_bytes,
                    mounted: true,
                    mount_point: Some(mount_point.to_owned()),
                };
                self.devices[i] = (key, nd);
                proof {
                    let s2 = self.spec_devices();
                    assert(forall|x: int| 0 <= x < s2.len() ==> (#[trigger] s2[x]).0 == s[x].0);
                    assert(spec_unique_devs(s2));
                }
                Ok(())
            },
            None => Err(LuCastraError::DeviceNotFound(path.to_owned())),
        }
    }

    /// Marks the device as unmounted; `DeviceNotFound` for an unknown
    /// path.
    pub fn unmount_device(&mut self, path: &str) -> (r: Result<(), LuCastraError>)
        requires
            old(self).wf(),
        ensures
            final(self).wf(),
            r.is_ok() <==> spec_contains_dev(old(self).spec_devices(), path@),
            r.is_ok() ==> {
                let s = old(self).spec_devices();
                let i = spec_dev_index(s, path@);
                let s2 = final(self).spec_devices();
                &&& s2.len() == s.len()
                &&& (forall|j: int| 0 <= j < s.len() && j != i ==> #[trigger] s2[j] == s[j])
                &&& s2[i].0 == path@
                &&& !s2[i].1.mounted
                &&& s2[i].1.mount_point is None
                &&& s2[i].1.path@ == s[i].1.path@
                &&& s2[i].1.device_type == s[i].1.device_type
                &&& s2[i].1.name@ == s[i].1.name@
                &&& s2[i].1.size_bytes == s[i].1.size_bytes
            },
            r.is_err() ==> *final(self) == *old(self) && (r matches Err(
                LuCastraError::DeviceNotFound(p),
            ) && p@ == path@),
    {
        let ghost s = self.spec_devices();
        match self.position_of(path) {
            Some(i) => {
                proof {
                    assert(s[i as int].0 == path@);
                    assert(spec_contains_dev(s, path@));
                    let w = spec_dev_index(s, path@);
                    assert(0 <= w < s.len() && s[w].0 == path@);
                    if w < i as int {
                        assert(s[w].0 != s[i as int].0);
                    }
                    if (i as int) < w {
                        assert(s[i as int].0 != s[w].0);
                    }
                    assert(w == i as int);
                }
                let key = self.devices[i].0.clone();
                let d = &self.devices[i].1;
                let nd = DeviceInfo {
                    path: d.path.clone(),
                    device_type: d.device_type,
                    name: d.name.clone(),
                    size_bytes: d.size_bytes,
                    mounted: false,
                    mount_point: None,
                };
                self.devices[i] = (key, nd);
                proof {
                    let s2 = self.spec_devices();
                    assert(forall|x: int| 0 <= x < s2.len() ==> (#[trigger] s2[x]).0 == s[x].0);
                    assert(spec_unique_devs(s2));
                }
                Ok(())
            },
            None => Err(LuCastraError::DeviceNotFound(path.to_owned())),
        }
    }
}

} // verus!
