//! The order in which a device is read: the directory and the onboard
//! profiles, then which one is active, then the registers for each profile.

use crate::engine::device;
use crate::engine::device::{DeviceInfo, DeviceModel, ProfileModel};
use crate::hal::hidpp10::binding::Hidpp10ButtonBinding;
use crate::hal::hidpp10::driver;
use crate::hal::hidpp10::driver::{
    DriverModel, Hidpp10Driver, read_directory, read_led_color, read_refresh_rate,
};
use crate::hal::hidpp10::macros;
use crate::hal::hidpp10::macros::{MacroRead, MacroState};
use crate::hal::hidpp10::memory;
use crate::hal::hidpp10::memory::PageRead;
use crate::hal::hidpp10::profile;
use crate::hal::hidpp10::profile::{Hidpp10Profile, OnboardModel, check_page, parse_profile};
use crate::hal::hidpp10::register::{
    Hidpp10Request, REG_CURRENT_PROFILE, REG_LED_COLOR, REG_USB_REFRESH_RATE, RequestModel,
};
use crate::hal::hidpp10::types::Hidpp10ProfileType;
use vstd::prelude::*;

verus! {

/// The active profile is named by its number.
pub const PROFILE_TYPE_INDEX: u8 = 0x00;

/// The active profile is named by its place in memory.
pub const PROFILE_TYPE_ADDRESS: u8 = 0x01;

/// The profile of the factory is active.
pub const PROFILE_TYPE_FACTORY: u8 = 0xFF;

/// What is to be asked next.
#[derive(Debug, Clone, Copy, PartialEq, Eq, Structural)]
pub enum Hidpp10LoadPhase {
    /// The directory of the onboard profiles.
    Directory,
    /// The page of a profile. One whose check sum is wrong is read once more,
    /// and taken as it is.
    Page { strict: bool },
    /// The macro of a button.
    Macro,
    CurrentProfile,
    /// To leave the profile of the factory.
    LeaveFactory,
    Resolution,
    Rate,
    Color,
    Done,
}

/// How far the reading of a device has come.
#[derive(Debug)]
pub struct Hidpp10Load {
    phase: Hidpp10LoadPhase,
    at: usize,
    page: PageRead,
    profile: Hidpp10Profile,
    reading: MacroRead,
    loaded: Vec<Hidpp10Profile>,
    active: u32,
}

/// The state of a [`Hidpp10Load`], with the driver and the device that it fills
/// in: the place of the profile that is being read, the bytes of its page, what
/// is known of it, its macro, the profiles before it, and the active one.
#[verifier::ext_equal]
pub struct Loading {
    pub phase: Hidpp10LoadPhase,
    pub at: int,
    pub page: Seq<u8>,
    pub profile: OnboardModel,
    pub reading: MacroState,
    pub loaded: Seq<OnboardModel>,
    pub active: u32,
    pub driver: DriverModel,
    pub info: DeviceModel,
}

/// The next thing to do.
#[derive(Debug)]
pub enum Hidpp10LoadAction {
    /// Read sixteen bytes of memory.
    ReadMemory { page: u8, offset: u16 },
    Send(Hidpp10Request),
    Stop,
}

/// The contents of a [`Hidpp10LoadAction`].
pub enum ActionModel {
    ReadMemory { page: u8, offset: int },
    Send(RequestModel),
    Stop,
}

impl View for Hidpp10LoadAction {
    type V = ActionModel;

    open spec fn view(&self) -> ActionModel {
        match self {
            Hidpp10LoadAction::ReadMemory { page, offset } => ActionModel::ReadMemory {
                page: *page,
                offset: *offset as int,
            },
            Hidpp10LoadAction::Send(q) => ActionModel::Send(q@),
            Hidpp10LoadAction::Stop => ActionModel::Stop,
        }
    }
}

/// Whether `i` is the first onboard profile at a place of memory.
pub open spec fn at_address(profiles: Seq<OnboardModel>, page: u8, offset: u8, i: int) -> bool {
    &&& 0 <= i < profiles.len()
    &&& profiles[i].page == page && profiles[i].offset == offset
    &&& forall|j: int|
        0 <= j < i ==> !((#[trigger] profiles[j]).page == page && profiles[j].offset == offset)
}

/// The number of the active profile that a register names; 0 if it names none.
pub open spec fn named_profile(d: DriverModel, reply: Seq<u8>) -> u32 {
    if reply[0] == PROFILE_TYPE_INDEX {
        if reply[1] as int > d.profile_count {
            0
        } else {
            reply[1] as u32
        }
    } else if reply[0] == PROFILE_TYPE_ADDRESS && exists|i: int|
        at_address(d.onboard_profiles, reply[1], reply[2], i) {
        (choose|i: int| at_address(d.onboard_profiles, reply[1], reply[2], i)) as u32
    } else {
        0
    }
}

impl Loading {
    /// With another phase.
    pub open spec fn to(self, phase: Hidpp10LoadPhase) -> Loading {
        Loading { phase, ..self }
    }

    /// On to the onboard profile at `i`. One without a page is taken as it is.
    pub open spec fn next_profile(self, i: int) -> Loading
        decreases self.driver.onboard_profiles.len() - i,
    {
        if i < 0 || i >= self.driver.onboard_profiles.len() {
            Loading {
                phase: Hidpp10LoadPhase::CurrentProfile,
                at: i,
                driver: DriverModel { onboard_profiles: self.loaded, ..self.driver },
                loaded: Seq::empty(),
                ..self
            }
        } else if self.driver.onboard_profiles[i].page == 0 {
            Loading {
                loaded: self.loaded.push(self.driver.onboard_profiles[i]),
                ..self
            }.next_profile(i + 1)
        } else {
            Loading {
                phase: Hidpp10LoadPhase::Page { strict: true },
                at: i,
                page: Seq::empty(),
                profile: self.driver.onboard_profiles[i],
                ..self
            }
        }
    }

    /// On to the next button of the profile that has a macro.
    pub open spec fn next_button(self) -> Loading
        decreases self.profile.buttons.len() - self.profile.macros.len(),
    {
        if self.profile.macros.len() >= self.profile.buttons.len() {
            Loading { loaded: self.loaded.push(self.profile), ..self }.next_profile(self.at + 1)
        } else {
            match self.profile.buttons[self.profile.macros.len() as int] {
                Hidpp10ButtonBinding::Macro { page, offset } => Loading {
                    phase: Hidpp10LoadPhase::Macro,
                    reading: MacroState::start(page, (offset * 2 % 256) as u8),
                    ..self
                },
                _ => Loading {
                    profile: OnboardModel {
                        macros: self.profile.macros.push(None),
                        ..self.profile
                    },
                    ..self
                }.next_button(),
            }
        }
    }

    /// After the page of a profile.
    pub open spec fn page_read(self, page: Seq<u8>) -> Loading {
        Loading {
            page: Seq::empty(),
            profile: OnboardModel {
                macros: Seq::empty(),
                ..profile::profile_of_page(
                    self.driver.profile_type,
                    page,
                    self.profile,
                    self.driver.dpi_table,
                )
            },
            ..self
        }.next_button()
    }

    /// On to the registers for the profile at `i`.
    pub open spec fn next_register(self, i: int) -> Loading {
        if i < self.info.profiles.len() {
            let p = self.info.profiles[i];
            Loading {
                phase: Hidpp10LoadPhase::Resolution,
                at: i,
                info: DeviceModel {
                    profiles: self.info.profiles.update(
                        i,
                        ProfileModel { is_active: p.index == self.active, ..p },
                    ),
                    ..self.info
                },
                ..self
            }
        } else {
            Loading { phase: Hidpp10LoadPhase::Done, at: i, ..self }
        }
    }

    /// After it is known which profile is active.
    pub open spec fn activate(self, active: u32) -> Loading {
        Loading {
            active,
            info: if !(self.driver.profile_type is Unknown)
                && self.driver.onboard_profiles.len() > 0 {
                DeviceModel {
                    profiles: driver::applied_profiles(
                        self.info.profiles,
                        self.driver.onboard_profiles,
                        active,
                        self.driver.profile_type,
                    ),
                    ..self.info
                }
            } else {
                self.info
            },
            ..self
        }.next_register(0)
    }

    /// With the profile replaced whose registers are being read.
    pub open spec fn set_profile(self, p: ProfileModel) -> Loading {
        Loading {
            info: DeviceModel { profiles: self.info.profiles.update(self.at, p), ..self.info },
            ..self
        }
    }

    /// After an answer; `None` if the exchange failed.
    pub open spec fn after(self, reply: Option<Seq<u8>>) -> Loading {
        match self.phase {
            Hidpp10LoadPhase::Directory => match reply {
                None => Loading { loaded: Seq::empty(), ..self }.next_profile(0),
                Some(chunk) => {
                    let page = self.page + chunk;
                    if page.len() < 512 {
                        Loading { page, ..self }
                    } else {
                        Loading {
                            page: Seq::empty(),
                            loaded: Seq::empty(),
                            driver: if profile::page_is_valid(page) {
                                DriverModel {
                                    onboard_profiles: driver::directory_profiles(
                                        page,
                                        self.driver.profile_count,
                                    ),
                                    ..self.driver
                                }
                            } else {
                                self.driver
                            },
                            ..self
                        }.next_profile(0)
                    }
                },
            },
            Hidpp10LoadPhase::Page { strict } => match reply {
                None => if strict {
                    Loading {
                        phase: Hidpp10LoadPhase::Page { strict: false },
                        page: Seq::empty(),
                        ..self
                    }
                } else {
                    Loading {
                        loaded: self.loaded.push(OnboardModel::empty()),
                        ..self
                    }.next_profile(self.at + 1)
                },
                Some(chunk) => {
                    let page = self.page + chunk;
                    if page.len() < 512 {
                        Loading { page, ..self }
                    } else if strict && !profile::page_is_valid(page) {
                        Loading {
                            phase: Hidpp10LoadPhase::Page { strict: false },
                            page: Seq::empty(),
                            ..self
                        }
                    } else {
                        self.page_read(page)
                    }
                },
            },
            Hidpp10LoadPhase::Macro => match reply {
                None => Loading {
                    profile: OnboardModel {
                        macros: self.profile.macros.push(None),
                        ..self.profile
                    },
                    ..self
                }.next_button(),
                Some(chunk) => {
                    let reading = self.reading.after(chunk);
                    if reading.done {
                        Loading {
                            reading,
                            profile: OnboardModel {
                                macros: self.profile.macros.push(Some(reading.events)),
                                ..self.profile
                            },
                            ..self
                        }.next_button()
                    } else {
                        Loading { reading, ..self }
                    }
                },
            },
            Hidpp10LoadPhase::CurrentProfile => match reply {
                None => self.activate(0),
                Some(params) => if params[0] == PROFILE_TYPE_FACTORY {
                    self.to(Hidpp10LoadPhase::LeaveFactory)
                } else {
                    self.activate(named_profile(self.driver, params))
                },
            },
            Hidpp10LoadPhase::LeaveFactory => self.activate(0),
            Hidpp10LoadPhase::Resolution => match reply {
                None => self.to(Hidpp10LoadPhase::Rate),
                Some(params) => self.set_profile(
                    driver::with_register_resolution(
                        self.driver,
                        self.info.profiles[self.at],
                        params,
                    ),
                ).to(Hidpp10LoadPhase::Rate),
            },
            Hidpp10LoadPhase::Rate => match reply {
                None => self.to(Hidpp10LoadPhase::Color),
                Some(params) => self.set_profile(
                    driver::with_register_rate(self.info.profiles[self.at], params),
                ).to(Hidpp10LoadPhase::Color),
            },
            Hidpp10LoadPhase::Color => match reply {
                None => self.next_register(self.at + 1),
                Some(params) => self.set_profile(
                    driver::with_register_color(self.info.profiles[self.at], params),
                ).next_register(self.at + 1),
            },
            Hidpp10LoadPhase::Done => self,
        }
    }

    /// The next thing to do.
    pub open spec fn action(self) -> ActionModel {
        let device = self.driver.device_index;
        match self.phase {
            Hidpp10LoadPhase::Directory => ActionModel::ReadMemory {
                page: 1,
                offset: self.page.len() as int,
            },
            Hidpp10LoadPhase::Page { strict } => ActionModel::ReadMemory {
                page: self.profile.page,
                offset: self.page.len() as int,
            },
            Hidpp10LoadPhase::Macro => ActionModel::ReadMemory {
                page: self.reading.page,
                offset: self.reading.base + self.reading.data.len(),
            },
            Hidpp10LoadPhase::CurrentProfile => ActionModel::Send(
                RequestModel::get(device, REG_CURRENT_PROFILE, seq![0u8, 0u8, 0u8]),
            ),
            Hidpp10LoadPhase::LeaveFactory => ActionModel::Send(
                RequestModel::set(
                    device,
                    REG_CURRENT_PROFILE,
                    seq![PROFILE_TYPE_INDEX, 0u8, 0u8],
                ),
            ),
            Hidpp10LoadPhase::Resolution => ActionModel::Send(
                driver::resolution_query(self.driver),
            ),
            Hidpp10LoadPhase::Rate => ActionModel::Send(
                RequestModel::get(device, REG_USB_REFRESH_RATE, seq![0u8, 0u8, 0u8]),
            ),
            Hidpp10LoadPhase::Color => ActionModel::Send(
                RequestModel::get(device, REG_LED_COLOR, seq![0u8, 0u8, 0u8]),
            ),
            Hidpp10LoadPhase::Done => ActionModel::Stop,
        }
    }

    /// How many bytes an answer has.
    pub open spec fn reply_size(self) -> nat {
        match self.phase {
            Hidpp10LoadPhase::Directory | Hidpp10LoadPhase::Page { .. } | Hidpp10LoadPhase::Macro =>
            16,
            Hidpp10LoadPhase::Resolution => driver::resolution_size(self.driver),
            _ => 3,
        }
    }

    /// What holds of every state.
    pub open spec fn consistent(self) -> bool {
        match self.phase {
            Hidpp10LoadPhase::Directory => memory::page_progress(self.page) && self.page.len()
                < 512,
            Hidpp10LoadPhase::Page { strict } => {
                &&& memory::page_progress(self.page)
                &&& self.page.len() < 512
                &&& 0 <= self.at < self.driver.onboard_profiles.len()
            },
            Hidpp10LoadPhase::Macro => {
                &&& self.reading.consistent()
                &&& !self.reading.done
                &&& self.profile.macros.len() < self.profile.buttons.len()
                &&& 0 <= self.at < self.driver.onboard_profiles.len()
            },
            Hidpp10LoadPhase::Resolution | Hidpp10LoadPhase::Rate | Hidpp10LoadPhase::Color => 0
                <= self.at < self.info.profiles.len(),
            _ => true,
        }
    }
}

pub(crate) fn sixteen(v: &Vec<u8>) -> (r: [u8; 16])
    requires
        v@.len() == 16,
    ensures
        r@ == v@,
{
    let r: [u8; 16] = [
        v[0],
        v[1],
        v[2],
        v[3],
        v[4],
        v[5],
        v[6],
        v[7],
        v[8],
        v[9],
        v[10],
        v[11],
        v[12],
        v[13],
        v[14],
        v[15],
    ];
    assert(r@ =~= v@);
    r
}

pub(crate) fn three(v: &Vec<u8>) -> (r: [u8; 3])
    requires
        v@.len() == 3,
    ensures
        r@ == v@,
{
    let r: [u8; 3] = [v[0], v[1], v[2]];
    assert(r@ =~= v@);
    r
}

/// The contents of an optional answer.
pub open spec fn reply_view(reply: Option<Vec<u8>>) -> Option<Seq<u8>> {
    match reply {
        Some(v) => Some(v@),
        None => None,
    }
}

fn find_address(profiles: &Vec<Hidpp10Profile>, page: u8, offset: u8) -> (r: Option<usize>)
    ensures
        match r {
            Some(i) => at_address(profile::onboard_view(profiles@), page, offset, i as int),
            None => !exists|i: int| at_address(profile::onboard_view(profiles@), page, offset, i),
        },
{
    let ghost models = profile::onboard_view(profiles@);
    let mut i: usize = 0;
    while i < profiles.len()
        invariant
            i <= profiles@.len(),
            models == profile::onboard_view(profiles@),
            forall|j: int|
                0 <= j < i ==> !((#[trigger] models[j]).page == page && models[j].offset == offset),
        decreases profiles@.len() - i,
    {
        assert(models[i as int] == profiles@[i as int]@);
        if profiles[i].page == page && profiles[i].offset == offset {
            return Some(i);
        }
        i += 1;
    }
    None
}

impl Hidpp10Load {
    /// The reading with the driver and the device that it fills in.
    pub closed spec fn with(&self, driver: DriverModel, info: DeviceModel) -> Loading {
        Loading {
            phase: self.phase,
            at: self.at as int,
            page: self.page@,
            profile: self.profile@,
            reading: self.reading@,
            loaded: profile::onboard_view(self.loaded@),
            active: self.active,
            driver,
            info,
        }
    }

    /// At the start: with the directory, or, where the layout of onboard
    /// profiles is not known, with the active profile.
    pub fn begin(driver: &Hidpp10Driver) -> (r: Self)
        ensures
            forall|info: DeviceModel|
                #![trigger r.with(driver@, info)]
                r.with(driver@, info) == (Loading {
                    phase: if driver.profile_type is Unknown {
                        Hidpp10LoadPhase::CurrentProfile
                    } else {
                        Hidpp10LoadPhase::Directory
                    },
                    at: 0,
                    page: Seq::empty(),
                    profile: OnboardModel::empty(),
                    reading: MacroState::start(0, 0),
                    loaded: Seq::empty(),
                    active: 0,
                    driver: driver@,
                    info,
                }) && r.with(driver@, info).consistent(),
    {
        let r = Hidpp10Load {
            phase: if driver.profile_type == Hidpp10ProfileType::Unknown {
                Hidpp10LoadPhase::CurrentProfile
            } else {
                Hidpp10LoadPhase::Directory
            },
            at: 0,
            page: PageRead::new(),
            profile: Hidpp10Profile::default(),
            reading: MacroRead::new(0, 0),
            loaded: Vec::new(),
            active: 0,
        };
        assert(profile::onboard_view(r.loaded@) =~= Seq::empty());
        r
    }

    /// The next thing to do.
    pub fn action(&self, driver: &Hidpp10Driver, info: &DeviceInfo) -> (r: Hidpp10LoadAction)
        requires
            self.with(driver@, info@).consistent(),
        ensures
            r@ == self.with(driver@, info@).action(),
    {
        let zero: [u8; 3] = [0, 0, 0];
        assert(zero@ =~= seq![0u8, 0u8, 0u8]);
        let device: u8 = driver.device_index;
        match self.phase {
            Hidpp10LoadPhase::Directory => match self.page.wants() {
                Some(offset) => Hidpp10LoadAction::ReadMemory { page: 1, offset },
                None => Hidpp10LoadAction::Stop,
            },
            Hidpp10LoadPhase::Page { strict: _ } => match self.page.wants() {
                Some(offset) => Hidpp10LoadAction::ReadMemory { page: self.profile.page, offset },
                None => Hidpp10LoadAction::Stop,
            },
            Hidpp10LoadPhase::Macro => match self.reading.wants() {
                Some((page, offset)) => Hidpp10LoadAction::ReadMemory { page, offset },
                None => Hidpp10LoadAction::Stop,
            },
            Hidpp10LoadPhase::CurrentProfile => Hidpp10LoadAction::Send(
                Hidpp10Request::get_register(device, REG_CURRENT_PROFILE, &zero),
            ),
            Hidpp10LoadPhase::LeaveFactory => {
                assert(zero@ =~= seq![PROFILE_TYPE_INDEX, 0u8, 0u8]);
                Hidpp10LoadAction::Send(
                    Hidpp10Request::set_register(device, REG_CURRENT_PROFILE, &zero),
                )
            },
            Hidpp10LoadPhase::Resolution => Hidpp10LoadAction::Send(driver.resolution_request()),
            Hidpp10LoadPhase::Rate => Hidpp10LoadAction::Send(
                Hidpp10Request::get_register(device, REG_USB_REFRESH_RATE, &zero),
            ),
            Hidpp10LoadPhase::Color => Hidpp10LoadAction::Send(
                Hidpp10Request::get_register(device, REG_LED_COLOR, &zero),
            ),
            Hidpp10LoadPhase::Done => Hidpp10LoadAction::Stop,
        }
    }

    fn next_profile(&mut self, driver: &mut Hidpp10Driver, from: usize, Ghost(info): Ghost<
        DeviceModel,
    >)
        ensures
            final(self).with(final(driver)@, info) == old(self).with(
                old(driver)@,
                info,
            ).next_profile(from as int),
            final(self).with(final(driver)@, info).consistent(),
    {
        let ghost target = self.with(driver@, info).next_profile(from as int);
        let mut i: usize = from;
        assert(driver@.onboard_profiles.len() == driver.onboard_profiles.len());
        while i < driver.onboard_profiles.len() && driver.onboard_profiles[i].page == 0
            invariant
                *driver == *old(driver),
                driver@.onboard_profiles.len() == driver.onboard_profiles.len(),
                from <= i,
                target == self.with(driver@, info).next_profile(i as int),
            decreases driver.onboard_profiles@.len() - i,
        {
            assert(driver@.onboard_profiles[i as int] == driver.onboard_profiles@[i as int]@);
            let ghost before = self.with(driver@, info);
            let p = driver.onboard_profiles[i].clone();
            self.loaded.push(p);
            assert(self.with(driver@, info) =~= (Loading {
                loaded: before.loaded.push(driver@.onboard_profiles[i as int]),
                ..before
            })) by {
                assert(profile::onboard_view(self.loaded@) =~= before.loaded.push(
                    driver@.onboard_profiles[i as int],
                ));
            }
            i += 1;
        }
        self.at = i;
        if i < driver.onboard_profiles.len() {
            assert(driver@.onboard_profiles[i as int] == driver.onboard_profiles@[i as int]@);
            self.phase = Hidpp10LoadPhase::Page { strict: true };
            self.page = PageRead::new();
            self.profile = driver.onboard_profiles[i].clone();
        } else {
            self.phase = Hidpp10LoadPhase::CurrentProfile;
            let mut taken: Vec<Hidpp10Profile> = Vec::new();
            std::mem::swap(&mut taken, &mut self.loaded);
            driver.onboard_profiles = taken;
            assert(profile::onboard_view(self.loaded@) =~= Seq::empty());
        }
        assert(self.with(driver@, info) =~= target);
    }

    fn next_button(&mut self, driver: &mut Hidpp10Driver, Ghost(info): Ghost<DeviceModel>)
        requires
            old(self).with(old(driver)@, info).at < old(driver)@.onboard_profiles.len(),
        ensures
            final(self).with(final(driver)@, info) == old(self).with(
                old(driver)@,
                info,
            ).next_button(),
            final(self).with(final(driver)@, info).consistent(),
    {
        let ghost target = self.with(driver@, info).next_button();
        while self.profile.macros.len() < self.profile.buttons.len()
            invariant
                *driver == *old(driver),
                self.at == old(self).at,
                self.at < driver@.onboard_profiles.len(),
                target == old(self).with(old(driver)@, info).next_button(),
                target == self.with(driver@, info).next_button(),
            decreases self.profile.buttons@.len() - self.profile.macros@.len(),
        {
            assert(self.profile@.macros.len() == self.profile.macros@.len());
            let b: usize = self.profile.macros.len();
            assert(self.profile@.buttons[b as int] == self.profile.buttons@[b as int]);
            if let Hidpp10ButtonBinding::Macro { page, offset } = self.profile.buttons[b] {
                self.phase = Hidpp10LoadPhase::Macro;
                self.reading = MacroRead::new(page, (offset as u16 * 2 % 256) as u8);
                assert(self.with(driver@, info) =~= target);
                return;
            }
            let ghost before = self.with(driver@, info);
            self.profile.macros.push(None);
            assert(self.profile@.macros =~= before.profile.macros.push(None));
            assert(self.with(driver@, info) =~= (Loading {
                profile: OnboardModel {
                    macros: before.profile.macros.push(None),
                    ..before.profile
                },
                ..before
            }));
        }
        let ghost before = self.with(driver@, info);
        assert(self.profile@.macros.len() == self.profile.macros@.len());
        assert(driver@.onboard_profiles.len() == driver.onboard_profiles.len());
        let p = self.profile.clone();
        self.loaded.push(p);
        assert(profile::onboard_view(self.loaded@) =~= before.loaded.push(before.profile));
        assert(self.with(driver@, info) =~= (Loading {
            loaded: before.loaded.push(before.profile),
            ..before
        }));
        let next: usize = self.at + 1;
        self.next_profile(driver, next, Ghost(info));
    }

    fn page_read(&mut self, driver: &mut Hidpp10Driver, Ghost(info): Ghost<DeviceModel>)
        requires
            old(self).with(old(driver)@, info).page.len() == 512,
            old(self).with(old(driver)@, info).at < old(driver)@.onboard_profiles.len(),
        ensures
            final(self).with(final(driver)@, info) == ({
                let s = old(self).with(old(driver)@, info);
                s.page_read(s.page)
            }),
            final(self).with(final(driver)@, info).consistent(),
    {
        let ghost before = self.with(driver@, info);
        parse_profile(
            driver.profile_type,
            self.page.data().as_slice(),
            &mut self.profile,
            &driver.dpi_table,
        );
        self.profile.macros = Vec::new();
        self.page = PageRead::new();
        assert(self.profile@.macros =~= Seq::empty());
        assert(self.with(driver@, info) =~= (Loading {
            page: Seq::empty(),
            profile: OnboardModel {
                macros: Seq::empty(),
                ..profile::profile_of_page(
                    driver.profile_type,
                    before.page,
                    before.profile,
                    driver@.dpi_table,
                )
            },
            ..before
        }));
        self.next_button(driver, Ghost(info));
    }

    fn next_register(&mut self, driver: &Hidpp10Driver, info: &mut DeviceInfo, i: usize)
        ensures
            final(self).with(driver@, final(info)@) == old(self).with(
                driver@,
                old(info)@,
            ).next_register(i as int),
            final(self).with(driver@, final(info)@).consistent(),
    {
        let ghost target = self.with(driver@, info@).next_register(i as int);
        assert(info@.profiles.len() == info.profiles.len());
        self.at = i;
        if i < info.profiles.len() {
            proof {
                device::lemma_profiles_view_update(info.profiles@, i as int);
            }
            assert(info@.profiles[i as int] == info.profiles@[i as int]@);
            let active = info.profiles[i].index == self.active;
            info.profiles[i].is_active = active;
            self.phase = Hidpp10LoadPhase::Resolution;
        } else {
            self.phase = Hidpp10LoadPhase::Done;
        }
        assert(self.with(driver@, info@) =~= target);
    }

    fn activate(&mut self, driver: &Hidpp10Driver, info: &mut DeviceInfo, active: u32)
        ensures
            final(self).with(driver@, final(info)@) == old(self).with(
                driver@,
                old(info)@,
            ).activate(active),
            final(self).with(driver@, final(info)@).consistent(),
    {
        self.active = active;
        assert(driver@.onboard_profiles.len() == driver.onboard_profiles.len());
        if driver.profile_type != Hidpp10ProfileType::Unknown && driver.onboard_profiles.len()
            > 0 {
            driver.apply_onboard_profiles_to_device_info(info, active);
        }
        self.next_register(driver, info, 0);
    }

    fn directory_replied(
        &mut self,
        driver: &mut Hidpp10Driver,
        reply: &Option<Vec<u8>>,
        Ghost(info): Ghost<DeviceModel>,
    )
        requires
            old(self).with(old(driver)@, info).consistent(),
            old(self).with(old(driver)@, info).phase is Directory,
            reply matches Some(v) ==> v@.len() == 16,
        ensures
            final(self).with(final(driver)@, info) == old(self).with(old(driver)@, info).after(
                reply_view(*reply),
            ),
            final(self).with(final(driver)@, info).consistent(),
    {
        let ghost before = self.with(driver@, info);
        if let Some(v) = reply {
            let chunk = sixteen(v);
            self.page.accept(&chunk);
            assert(self.page@ == before.page + v@);
            if self.page.wants().is_some() {
                assert(self.with(driver@, info) =~= (Loading { page: before.page + v@, ..before }));
                return;
            }
            if check_page(self.page.data().as_slice()) {
                driver.onboard_profiles = read_directory(
                    self.page.data().as_slice(),
                    driver.profile_count,
                );
            }
            self.page = PageRead::new();
        }
        self.loaded = Vec::new();
        assert(profile::onboard_view(self.loaded@) =~= Seq::empty());
        let ghost mid = self.with(driver@, info);
        proof {
            match reply {
                None => {
                    assert(mid =~= (Loading { loaded: Seq::empty(), ..before }));
                },
                Some(v) => {
                    let page = before.page + v@;
                    assert(mid =~= (Loading {
                        page: Seq::empty(),
                        loaded: Seq::empty(),
                        driver: if profile::page_is_valid(page) {
                            DriverModel {
                                onboard_profiles: driver::directory_profiles(
                                    page,
                                    before.driver.profile_count,
                                ),
                                ..before.driver
                            }
                        } else {
                            before.driver
                        },
                        ..before
                    }));
                },
            }
        }
        self.next_profile(driver, 0, Ghost(info));
    }

    fn reread(&mut self, driver: &Hidpp10Driver, Ghost(info): Ghost<DeviceModel>)
        requires
            old(self).with(driver@, info).at < driver@.onboard_profiles.len(),
        ensures
            final(self).with(driver@, info) == (Loading {
                phase: Hidpp10LoadPhase::Page { strict: false },
                page: Seq::empty(),
                ..old(self).with(driver@, info)
            }),
            final(self).with(driver@, info).consistent(),
    {
        self.phase = Hidpp10LoadPhase::Page { strict: false };
        self.page = PageRead::new();
        assert(self.with(driver@, info) =~= (Loading {
            phase: Hidpp10LoadPhase::Page { strict: false },
            page: Seq::empty(),
            ..old(self).with(driver@, info)
        }));
    }

    fn page_replied(
        &mut self,
        driver: &mut Hidpp10Driver,
        strict: bool,
        reply: &Option<Vec<u8>>,
        Ghost(info): Ghost<DeviceModel>,
    )
        requires
            old(self).with(old(driver)@, info).consistent(),
            old(self).with(old(driver)@, info).phase == (Hidpp10LoadPhase::Page { strict }),
            reply matches Some(v) ==> v@.len() == 16,
        ensures
            final(self).with(final(driver)@, info) == old(self).with(old(driver)@, info).after(
                reply_view(*reply),
            ),
            final(self).with(final(driver)@, info).consistent(),
    {
        let ghost before = self.with(driver@, info);
        assert(driver@.onboard_profiles.len() == driver.onboard_profiles.len());
        match reply {
            None => {
                if strict {
                    self.reread(driver, Ghost(info));
                } else {
                    self.loaded.push(Hidpp10Profile::default());
                    assert(profile::onboard_view(self.loaded@) =~= before.loaded.push(
                        OnboardModel::empty(),
                    ));
                    assert(self.with(driver@, info) =~= (Loading {
                        loaded: before.loaded.push(OnboardModel::empty()),
                        ..before
                    }));
                    let next: usize = self.at + 1;
                    self.next_profile(driver, next, Ghost(info));
                }
            },
            Some(v) => {
                let chunk = sixteen(v);
                self.page.accept(&chunk);
                let ghost mid = self.with(driver@, info);
                assert(mid =~= (Loading { page: before.page + v@, ..before }));
                if self.page.wants().is_some() {
                    return;
                }
                if strict && !check_page(self.page.data().as_slice()) {
                    self.reread(driver, Ghost(info));
                } else {
                    assert(mid.page_read(mid.page) == before.page_read(mid.page));
                    self.page_read(driver, Ghost(info));
                }
            },
        }
    }

    fn macro_replied(
        &mut self,
        driver: &mut Hidpp10Driver,
        reply: &Option<Vec<u8>>,
        Ghost(info): Ghost<DeviceModel>,
    )
        requires
            old(self).with(old(driver)@, info).consistent(),
            old(self).with(old(driver)@, info).phase is Macro,
            reply matches Some(v) ==> v@.len() == 16,
        ensures
            final(self).with(final(driver)@, info) == old(self).with(old(driver)@, info).after(
                reply_view(*reply),
            ),
            final(self).with(final(driver)@, info).consistent(),
    {
        let ghost before = self.with(driver@, info);
        if let Some(v) = reply {
            let chunk = sixteen(v);
            self.reading.accept(&chunk);
            if self.reading.wants().is_some() {
                assert(self.with(driver@, info) =~= before.after(Some(v@)));
                return;
            }
            let ghost done = self.reading@;
            let events = self.reading.events_so_far();
            self.profile.macros.push(Some(events));
            assert(self.profile@.macros =~= before.profile.macros.push(Some(done.events)));
            assert(self.with(driver@, info) =~= (Loading {
                reading: done,
                profile: OnboardModel {
                    macros: before.profile.macros.push(Some(done.events)),
                    ..before.profile
                },
                ..before
            }));
        } else {
            self.profile.macros.push(None);
            assert(self.profile@.macros =~= before.profile.macros.push(None));
            assert(self.with(driver@, info) =~= (Loading {
                profile: OnboardModel {
                    macros: before.profile.macros.push(None),
                    ..before.profile
                },
                ..before
            }));
        }
        self.next_button(driver, Ghost(info));
    }

    /// Takes the answer to the last request; `None` if the exchange failed.
    pub fn replied(
        &mut self,
        driver: &mut Hidpp10Driver,
        info: &mut DeviceInfo,
        reply: &Option<Vec<u8>>,
    )
        requires
            old(self).with(old(driver)@, old(info)@).consistent(),
            reply matches Some(v) ==> v@.len() == old(self).with(
                old(driver)@,
                old(info)@,
            ).reply_size(),
        ensures
            final(self).with(final(driver)@, final(info)@) == old(self).with(
                old(driver)@,
                old(info)@,
            ).after(reply_view(*reply)),
            final(self).with(final(driver)@, final(info)@).consistent(),
    {
        let ghost before = self.with(driver@, info@);
        match self.phase {
            Hidpp10LoadPhase::Directory => {
                self.directory_replied(driver, reply, Ghost(info@));
                return;
            },
            Hidpp10LoadPhase::Page { strict } => {
                self.page_replied(driver, strict, reply, Ghost(info@));
                return;
            },
            Hidpp10LoadPhase::Macro => {
                self.macro_replied(driver, reply, Ghost(info@));
                return;
            },
            Hidpp10LoadPhase::CurrentProfile => {
                let mut active: u32 = 0;
                if let Some(v) = reply {
                    if v[0] == PROFILE_TYPE_FACTORY {
                        self.phase = Hidpp10LoadPhase::LeaveFactory;
                        assert(self.with(driver@, info@) =~= before.after(Some(v@)));
                        return;
                    }
                    if v[0] == PROFILE_TYPE_INDEX {
                        if v[1] as usize <= driver.profile_count {
                            active = v[1] as u32;
                        }
                    } else if v[0] == PROFILE_TYPE_ADDRESS {
                        if let Some(i) = find_address(&driver.onboard_profiles, v[1], v[2]) {
                            proof {
                                let k = choose|k: int|
                                    at_address(driver@.onboard_profiles, v[1], v[2], k);
                                assert(at_address(driver@.onboard_profiles, v[1], v[2], i as int));
                                assert(k == i);
                            }
                            active = i as u32;
                        }
                    }
                    assert(active == named_profile(driver@, v@));
                }
                self.activate(driver, info, active);
                return;
            },
            Hidpp10LoadPhase::LeaveFactory => {
                self.activate(driver, info, 0);
                return;
            },
            Hidpp10LoadPhase::Done => {
                return;
            },
            _ => {},
        }
        let at: usize = self.at;
        assert(info@.profiles.len() == info.profiles.len());
        proof {
            device::lemma_profiles_view_update(info.profiles@, at as int);
        }
        assert(info@.profiles[at as int] == info.profiles@[at as int]@);
        match self.phase {
            Hidpp10LoadPhase::Resolution => {
                if let Some(v) = reply {
                    driver.read_resolution(&mut info.profiles[at], v);
                }
                self.phase = Hidpp10LoadPhase::Rate;
                assert(self.with(driver@, info@) =~= before.after(reply_view(*reply)));
            },
            Hidpp10LoadPhase::Rate => {
                if let Some(v) = reply {
                    let params = three(v);
                    read_refresh_rate(&mut info.profiles[at], &params);
                }
                self.phase = Hidpp10LoadPhase::Color;
                assert(self.with(driver@, info@) =~= before.after(reply_view(*reply)));
            },
            _ => {
                if let Some(v) = reply {
                    let params = three(v);
                    read_led_color(&mut info.profiles[at], &params);
                    assert(self.with(driver@, info@) =~= before.set_profile(
                        driver::with_register_color(before.info.profiles[before.at], v@),
                    ));
                }
                self.next_register(driver, info, at + 1);
            },
        }
    }
}

impl Loading {
    /// Whether a profile is marked as active if and only if it is the active
    /// one, for every profile whose registers have been asked for.
    pub open spec fn marked(self) -> bool {
        match self.phase {
            Hidpp10LoadPhase::Resolution | Hidpp10LoadPhase::Rate | Hidpp10LoadPhase::Color =>
            forall|j: int|
                0 <= j <= self.at ==> (#[trigger] self.info.profiles[j]).is_active
                    == (self.info.profiles[j].index == self.active),
            Hidpp10LoadPhase::Done => forall|j: int|
                0 <= j < self.info.profiles.len() ==> (#[trigger] self.info.profiles[j]).is_active
                    == (self.info.profiles[j].index == self.active),
            _ => true,
        }
    }
}

/// Once a device has been read, its profiles are marked as active if and only
/// if they have the number of the active one: every answer, and every failure,
/// keeps the marks.
pub proof fn loading_marks_active_profile(s: Loading, reply: Option<Seq<u8>>)
    requires
        s.consistent(),
        s.marked(),
    ensures
        s.after(reply).marked(),
{
    match s.phase {
        Hidpp10LoadPhase::Directory => {
            lemma_next_profile_phase(Loading { loaded: Seq::empty(), ..s }, 0);
            match reply {
                Some(chunk) => {
                    let page = s.page + chunk;
                    let d = DriverModel {
                        onboard_profiles: driver::directory_profiles(page, s.driver.profile_count),
                        ..s.driver
                    };
                    lemma_next_profile_phase(
                        Loading { page: Seq::empty(), loaded: Seq::empty(), driver: d, ..s },
                        0,
                    );
                    lemma_next_profile_phase(
                        Loading { page: Seq::empty(), loaded: Seq::empty(), ..s },
                        0,
                    );
                },
                None => {},
            }
        },
        Hidpp10LoadPhase::Page { strict } => {
            lemma_next_profile_phase(
                Loading { loaded: s.loaded.push(OnboardModel::empty()), ..s },
                s.at + 1,
            );
            match reply {
                Some(chunk) => {
                    let page = s.page + chunk;
                    lemma_next_button_phase(
                        Loading {
                            page: Seq::empty(),
                            profile: OnboardModel {
                                macros: Seq::empty(),
                                ..profile::profile_of_page(
                                    s.driver.profile_type,
                                    page,
                                    s.profile,
                                    s.driver.dpi_table,
                                )
                            },
                            ..s
                        },
                    );
                },
                None => {},
            }
        },
        Hidpp10LoadPhase::Macro => {
            match reply {
                None => {
                    lemma_next_button_phase(
                        Loading {
                            profile: OnboardModel {
                                macros: s.profile.macros.push(None),
                                ..s.profile
                            },
                            ..s
                        },
                    );
                },
                Some(chunk) => {
                    let reading = s.reading.after(chunk);
                    lemma_next_button_phase(
                        Loading {
                            reading,
                            profile: OnboardModel {
                                macros: s.profile.macros.push(Some(reading.events)),
                                ..s.profile
                            },
                            ..s
                        },
                    );
                },
            }
        },
        _ => {},
    }
}

/// How much there is still to read at most: what kind of thing, of how many
/// profiles, which part of a profile, how many bytes or buttons of it, and how
/// many reads of a macro.
pub open spec fn remaining(s: Loading) -> (int, int, int, int, int) {
    let profiles = s.driver.onboard_profiles.len() - s.at;
    match s.phase {
        Hidpp10LoadPhase::Directory => (5, 0, 0, 512 - s.page.len(), 0),
        Hidpp10LoadPhase::Page { strict } => (
            4,
            profiles,
            if strict {
                3
            } else {
                2
            },
            512 - s.page.len(),
            0,
        ),
        Hidpp10LoadPhase::Macro => (
            4,
            profiles,
            1,
            s.profile.buttons.len() - s.profile.macros.len(),
            s.reading.reads_left(),
        ),
        Hidpp10LoadPhase::CurrentProfile => (3, 0, 0, 0, 0),
        Hidpp10LoadPhase::LeaveFactory => (2, 0, 0, 0, 0),
        Hidpp10LoadPhase::Resolution => (1, s.info.profiles.len() - s.at, 3, 0, 0),
        Hidpp10LoadPhase::Rate => (1, s.info.profiles.len() - s.at, 2, 0, 0),
        Hidpp10LoadPhase::Color => (1, s.info.profiles.len() - s.at, 1, 0, 0),
        Hidpp10LoadPhase::Done => (0, 0, 0, 0, 0),
    }
}

/// Every answer, and every failure, brings the reading of a device nearer to its
/// end, whatever its memory holds.
pub proof fn loading_makes_progress(s: Loading, reply: Option<Seq<u8>>)
    requires
        s.consistent(),
        !(s.action() is Stop),
        reply matches Some(v) ==> v.len() == s.reply_size(),
    ensures
        ({
            let a = remaining(s);
            let b = remaining(s.after(reply));
            decreases_to!(a.0, a.1, a.2, a.3, a.4 => b.0, b.1, b.2, b.3, b.4)
        }),
{
    match s.phase {
        Hidpp10LoadPhase::Directory => {
            lemma_next_profile_phase(Loading { loaded: Seq::empty(), ..s }, 0);
            match reply {
                Some(chunk) => {
                    let page = s.page + chunk;
                    let d = DriverModel {
                        onboard_profiles: driver::directory_profiles(page, s.driver.profile_count),
                        ..s.driver
                    };
                    lemma_next_profile_phase(
                        Loading { page: Seq::empty(), loaded: Seq::empty(), driver: d, ..s },
                        0,
                    );
                    lemma_next_profile_phase(
                        Loading { page: Seq::empty(), loaded: Seq::empty(), ..s },
                        0,
                    );
                },
                None => {},
            }
        },
        Hidpp10LoadPhase::Page { strict } => {
            lemma_next_profile_phase(
                Loading { loaded: s.loaded.push(OnboardModel::empty()), ..s },
                s.at + 1,
            );
            match reply {
                Some(chunk) => {
                    let page = s.page + chunk;
                    lemma_next_button_phase(
                        Loading {
                            page: Seq::empty(),
                            profile: OnboardModel {
                                macros: Seq::empty(),
                                ..profile::profile_of_page(
                                    s.driver.profile_type,
                                    page,
                                    s.profile,
                                    s.driver.dpi_table,
                                )
                            },
                            ..s
                        },
                    );
                },
                None => {},
            }
        },
        Hidpp10LoadPhase::Macro => {
            match reply {
                None => {
                    lemma_next_button_phase(
                        Loading {
                            profile: OnboardModel {
                                macros: s.profile.macros.push(None),
                                ..s.profile
                            },
                            ..s
                        },
                    );
                },
                Some(chunk) => {
                    let reading = s.reading.after(chunk);
                    macros::macro_reading_makes_progress(s.reading, chunk);
                    lemma_next_button_phase(
                        Loading {
                            reading,
                            profile: OnboardModel {
                                macros: s.profile.macros.push(Some(reading.events)),
                                ..s.profile
                            },
                            ..s
                        },
                    );
                },
            }
        },
        _ => {},
    }
}

proof fn lemma_next_profile_phase(s: Loading, i: int)
    ensures
        s.next_profile(i).phase is CurrentProfile || s.next_profile(i).phase is Page,
        s.next_profile(i).phase is Page ==> {
            &&& i <= s.next_profile(i).at < s.driver.onboard_profiles.len()
            &&& s.next_profile(i).driver == s.driver
        },
    decreases s.driver.onboard_profiles.len() - i,
{
    if 0 <= i < s.driver.onboard_profiles.len() && s.driver.onboard_profiles[i].page == 0 {
        lemma_next_profile_phase(
            Loading { loaded: s.loaded.push(s.driver.onboard_profiles[i]), ..s },
            i + 1,
        );
    }
}

proof fn lemma_next_button_phase(s: Loading)
    ensures
        ({
            let next = s.next_button();
            &&& next.phase is CurrentProfile || next.phase is Page || next.phase is Macro
            &&& next.phase is Page || next.phase is Macro ==> next.driver == s.driver
            &&& next.phase is Page ==> s.at < next.at < s.driver.onboard_profiles.len()
            &&& next.phase is Macro ==> {
                &&& next.at == s.at
                &&& s.profile.macros.len() <= next.profile.macros.len()
                &&& next.profile.macros.len() < next.profile.buttons.len()
                &&& next.profile.buttons == s.profile.buttons
            }
        }),
    decreases s.profile.buttons.len() - s.profile.macros.len(),
{
    if s.profile.macros.len() >= s.profile.buttons.len() {
        lemma_next_profile_phase(Loading { loaded: s.loaded.push(s.profile), ..s }, s.at + 1);
    } else if !(s.profile.buttons[s.profile.macros.len() as int] is Macro) {
        lemma_next_button_phase(
            Loading {
                profile: OnboardModel { macros: s.profile.macros.push(None), ..s.profile },
                ..s
            },
        );
    }
}

} // verus!
