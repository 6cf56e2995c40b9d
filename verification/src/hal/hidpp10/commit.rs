//! Writing the active profile of a device.

use crate::bytes;
use crate::engine::device;
use crate::engine::device::{DeviceInfo, DeviceModel, ProfileModel};
use crate::hal::hidpp10::driver;
use crate::hal::hidpp10::driver::{DriverModel, Hidpp10Driver};
use crate::hal::hidpp10::load;
use crate::hal::hidpp10::load::{PROFILE_TYPE_FACTORY, PROFILE_TYPE_INDEX, sixteen};
use crate::hal::hidpp10::memory;
use crate::hal::hidpp10::memory::{PageRead, erase_memory, send_hot_payload, write_flash};
use crate::hal::hidpp10::profile;
use crate::hal::hidpp10::profile::{OnboardModel, check_page, seal_page, write_profile};
use crate::hal::hidpp10::register::{Hidpp10Request, REG_CURRENT_PROFILE, RequestModel};
use crate::hal::hidpp10::types::Hidpp10ProfileType;
use vstd::prelude::*;

verus! {

/// Whether `i` is the first active profile.
pub open spec fn first_active(profiles: Seq<ProfileModel>, i: int) -> bool {
    &&& 0 <= i < profiles.len()
    &&& profiles[i].is_active
    &&& forall|j: int| 0 <= j < i ==> !(#[trigger] profiles[j]).is_active
}

/// The profile that is written: the first active one, if its number is below
/// 256.
pub open spec fn committed_profile(info: DeviceModel) -> Option<ProfileModel> {
    if exists|i: int| first_active(info.profiles, i) {
        let p = info.profiles[choose|i: int| first_active(info.profiles, i)];
        if p.index < 256 {
            Some(p)
        } else {
            None
        }
    } else {
        None
    }
}

/// The requests that put a page into memory: half of it goes to the buffer of
/// the device and from there to the page, which was erased before, and then the
/// other half.
pub open spec fn page_requests(device: u8, target: u8, page: Seq<u8>) -> Seq<RequestModel> {
    memory::payload_requests(device, 0, 0, page.subrange(0, 256)) + seq![
        memory::erase_request(device, target),
        memory::copy_request(device, 0, 0, target, 0, 256),
    ] + memory::payload_requests(device, 0, 0, page.subrange(256, 512)) + seq![
        memory::copy_request(device, 0, 0, target, 256, 256),
    ]
}

/// The requests that write an onboard profile: its page, while the profile of
/// the factory is active.
pub open spec fn profile_requests(device: u8, number: u8, target: u8, page: Seq<u8>) -> Seq<
    RequestModel,
> {
    seq![
        RequestModel::set(device, REG_CURRENT_PROFILE, seq![PROFILE_TYPE_FACTORY, 0u8, 0u8]),
    ] + page_requests(device, target, page) + seq![
        RequestModel::set(device, REG_CURRENT_PROFILE, seq![PROFILE_TYPE_INDEX, number, 0u8]),
    ]
}

fn push(plan: &mut Vec<Hidpp10Request>, q: Hidpp10Request)
    ensures
        memory::requests_view(final(plan)@) == memory::requests_view(old(plan)@).push(q@),
{
    proof {
        memory::lemma_requests_push(plan@, q);
    }
    plan.push(q);
}

/// Adds the requests that put a page into memory.
pub fn plan_page_write(device: u8, target: u8, page: &Vec<u8>, plan: &mut Vec<Hidpp10Request>)
    requires
        page@.len() == 512,
    ensures
        memory::requests_view(final(plan)@) == memory::requests_view(old(plan)@) + page_requests(
            device,
            target,
            page@,
        ),
{
    let first = bytes::slice(page.as_slice(), 0, 256);
    let second = bytes::slice(page.as_slice(), 256, 512);
    let ghost start = memory::requests_view(plan@);
    let _ = send_hot_payload(device, 0, 0, first.as_slice(), plan);
    let ghost a = memory::payload_requests(device, 0, 0, page@.subrange(0, 256));
    assert(memory::requests_view(plan@) == start + a);
    push(plan, erase_memory(device, target));
    if let Ok(q) = write_flash(device, 0, 0, target, 0, 256) {
        push(plan, q);
    }
    let ghost b = seq![
        memory::erase_request(device, target),
        memory::copy_request(device, 0, 0, target, 0, 256),
    ];
    assert(memory::requests_view(plan@) =~= start + a + b);
    let _ = send_hot_payload(device, 0, 0, second.as_slice(), plan);
    let ghost c = memory::payload_requests(device, 0, 0, page@.subrange(256, 512));
    assert(memory::requests_view(plan@) == start + a + b + c);
    if let Ok(q) = write_flash(device, 0, 0, target, 256, 256) {
        push(plan, q);
    }
    assert(memory::requests_view(plan@) =~= start + page_requests(device, target, page@));
}

/// The requests that write an onboard profile.
pub fn plan_profile_write(device: u8, number: u8, target: u8, page: &Vec<u8>) -> (r: Vec<
    Hidpp10Request,
>)
    requires
        page@.len() == 512,
    ensures
        memory::requests_view(r@) == profile_requests(device, number, target, page@),
{
    let mut plan: Vec<Hidpp10Request> = Vec::new();
    assert(memory::requests_view(plan@) =~= Seq::empty());
    let factory: [u8; 3] = [PROFILE_TYPE_FACTORY, 0, 0];
    assert(factory@ =~= seq![PROFILE_TYPE_FACTORY, 0u8, 0u8]);
    push(&mut plan, Hidpp10Request::set_register(device, REG_CURRENT_PROFILE, &factory));
    plan_page_write(device, target, page, &mut plan);
    let back: [u8; 3] = [PROFILE_TYPE_INDEX, number, 0];
    assert(back@ =~= seq![PROFILE_TYPE_INDEX, number, 0u8]);
    push(&mut plan, Hidpp10Request::set_register(device, REG_CURRENT_PROFILE, &back));
    assert(memory::requests_view(plan@) =~= profile_requests(device, number, target, page@));
    plan
}

/// The requests that write the directory of the onboard profiles; none where
/// the layout of onboard profiles is not known.
pub fn plan_directory_write(driver: &Hidpp10Driver) -> (r: Vec<Hidpp10Request>)
    requires
        !(driver.profile_type is Unknown) ==> driver::enabled_count(
            driver@.onboard_profiles,
            driver@.onboard_profiles.len(),
        ) <= 8,
    ensures
        memory::requests_view(r@) == if driver.profile_type is Unknown {
            Seq::empty()
        } else {
            page_requests(
                driver.device_index,
                1,
                profile::sealed_page(
                    driver::directory_body(
                        driver@.onboard_profiles,
                        driver@.onboard_profiles.len(),
                    ),
                ),
            )
        },
{
    let mut plan: Vec<Hidpp10Request> = Vec::new();
    assert(memory::requests_view(plan@) =~= Seq::empty());
    if driver.profile_type == Hidpp10ProfileType::Unknown {
        return plan;
    }
    assert(driver@.onboard_profiles.len() == driver.onboard_profiles@.len());
    let page = driver::build_directory(&driver.onboard_profiles);
    plan_page_write(driver.device_index, 1, &page, &mut plan);
    assert(memory::requests_view(plan@) =~= page_requests(driver.device_index, 1, page@));
    plan
}

/// What is to be done next.
#[derive(Debug, Clone, Copy, PartialEq, Eq, Structural)]
pub enum Hidpp10CommitPhase {
    Resolution,
    Rate,
    Color,
    /// To read the page of the onboard profile. One whose check sum is wrong is
    /// read once more, and what cannot be read of it is taken as erased.
    Page { strict: bool },
    /// To send the requests that write the onboard profile.
    Write { sent: usize },
    SetActive,
    Done,
    Failed,
}

/// How far the writing of a device has come.
#[derive(Debug)]
pub struct Hidpp10Commit {
    phase: Hidpp10CommitPhase,
    at: usize,
    page: PageRead,
    plan: Vec<Hidpp10Request>,
}

/// The state of a [`Hidpp10Commit`], with what it writes: the active profile,
/// the bytes of the page, and the requests that write it.
#[verifier::ext_equal]
pub struct Committing {
    pub phase: Hidpp10CommitPhase,
    pub page: Seq<u8>,
    pub plan: Seq<RequestModel>,
    pub driver: DriverModel,
    pub profile: ProfileModel,
}

impl Committing {
    /// With another phase.
    pub open spec fn to(self, phase: Hidpp10CommitPhase) -> Committing {
        Committing { phase, ..self }
    }

    /// To the first of the registers that is to be written.
    pub open spec fn from_resolution(self) -> Committing {
        if driver::resolution_write(self.driver, self.profile) is Some {
            self.to(Hidpp10CommitPhase::Resolution)
        } else {
            self.from_rate()
        }
    }

    pub open spec fn from_rate(self) -> Committing {
        if driver::rate_write(self.driver, self.profile) is Some {
            self.to(Hidpp10CommitPhase::Rate)
        } else {
            self.from_color()
        }
    }

    pub open spec fn from_color(self) -> Committing {
        if driver::color_write(self.driver, self.profile) is Some {
            self.to(Hidpp10CommitPhase::Color)
        } else {
            self.from_page()
        }
    }

    /// Whether there is an onboard profile to write.
    pub open spec fn has_page(self) -> bool {
        &&& !(self.driver.profile_type is Unknown)
        &&& self.profile.index < self.driver.onboard_profiles.len()
        &&& self.onboard().page != 0
    }

    /// The onboard profile.
    pub open spec fn onboard(self) -> OnboardModel {
        self.driver.onboard_profiles[self.profile.index as int]
    }

    pub open spec fn from_page(self) -> Committing {
        if self.has_page() {
            Committing { page: Seq::empty(), ..self }.to(Hidpp10CommitPhase::Page { strict: true })
        } else {
            self.to(Hidpp10CommitPhase::SetActive)
        }
    }

    /// After the page has been read: the profile is written into it.
    pub open spec fn page_read(self, page: Seq<u8>) -> Committing {
        Committing {
            page: Seq::empty(),
            plan: profile_requests(
                self.driver.device_index,
                self.profile.index as u8,
                self.onboard().page,
                profile::sealed_page(
                    profile::page_with_profile(
                        self.driver.profile_type,
                        page,
                        self.onboard(),
                        self.driver.dpi_table,
                    ),
                ),
            ),
            ..self
        }.to(Hidpp10CommitPhase::Write { sent: 0 })
    }

    /// After an answer; `None` if the exchange failed. Only a failure to make
    /// the profile active is one of the whole.
    pub open spec fn after(self, reply: Option<Seq<u8>>) -> Committing {
        match self.phase {
            Hidpp10CommitPhase::Resolution => self.from_rate(),
            Hidpp10CommitPhase::Rate => self.from_color(),
            Hidpp10CommitPhase::Color => self.from_page(),
            Hidpp10CommitPhase::Page { strict } => {
                let restart = Committing { page: Seq::empty(), ..self }.to(
                    Hidpp10CommitPhase::Page { strict: false },
                );
                if reply is None && strict {
                    restart
                } else {
                    let page = self.page + match reply {
                        Some(chunk) => chunk,
                        None => bytes::filled(16, 0xFF),
                    };
                    if page.len() < 512 {
                        Committing { page, ..self }
                    } else if strict && !profile::page_is_valid(page) {
                        restart
                    } else {
                        self.page_read(page)
                    }
                }
            },
            Hidpp10CommitPhase::Write { sent } => if reply is Some && sent + 1 < self.plan.len() {
                self.to(Hidpp10CommitPhase::Write { sent: (sent + 1) as usize })
            } else {
                self.to(Hidpp10CommitPhase::SetActive)
            },
            Hidpp10CommitPhase::SetActive => self.to(
                if reply is Some {
                    Hidpp10CommitPhase::Done
                } else {
                    Hidpp10CommitPhase::Failed
                },
            ),
            Hidpp10CommitPhase::Done => self,
            Hidpp10CommitPhase::Failed => self,
        }
    }

    /// The next thing to do.
    pub open spec fn action(self) -> CommitActionModel {
        match self.phase {
            Hidpp10CommitPhase::Resolution => CommitActionModel::Send(
                driver::resolution_write(self.driver, self.profile)->0,
            ),
            Hidpp10CommitPhase::Rate => CommitActionModel::Send(
                driver::rate_write(self.driver, self.profile)->0,
            ),
            Hidpp10CommitPhase::Color => CommitActionModel::Send(
                driver::color_write(self.driver, self.profile)->0,
            ),
            Hidpp10CommitPhase::Page { strict } => CommitActionModel::ReadMemory {
                page: self.onboard().page,
                offset: self.page.len() as int,
            },
            Hidpp10CommitPhase::Write { sent } => CommitActionModel::Send(self.plan[sent as int]),
            Hidpp10CommitPhase::SetActive => CommitActionModel::Send(
                RequestModel::set(
                    self.driver.device_index,
                    REG_CURRENT_PROFILE,
                    seq![self.profile.index as u8, 0u8, 0u8],
                ),
            ),
            Hidpp10CommitPhase::Done => CommitActionModel::Stop,
            Hidpp10CommitPhase::Failed => CommitActionModel::Stop,
        }
    }

    /// What holds of every state.
    pub open spec fn consistent(self) -> bool {
        &&& self.profile.index < 256
        &&& match self.phase {
            Hidpp10CommitPhase::Resolution => driver::resolution_write(
                self.driver,
                self.profile,
            ) is Some,
            Hidpp10CommitPhase::Rate => driver::rate_write(self.driver, self.profile) is Some,
            Hidpp10CommitPhase::Color => driver::color_write(self.driver, self.profile) is Some,
            Hidpp10CommitPhase::Page { strict } => {
                &&& self.has_page()
                &&& memory::page_progress(self.page)
                &&& self.page.len() < 512
            },
            Hidpp10CommitPhase::Write { sent } => sent < self.plan.len(),
            _ => true,
        }
    }
}

/// The next thing to do.
#[derive(Debug)]
pub enum Hidpp10CommitAction {
    /// Read sixteen bytes of memory.
    ReadMemory { page: u8, offset: u16 },
    Send(Hidpp10Request),
    Stop,
}

/// The contents of a [`Hidpp10CommitAction`].
pub enum CommitActionModel {
    ReadMemory { page: u8, offset: int },
    Send(RequestModel),
    Stop,
}

impl View for Hidpp10CommitAction {
    type V = CommitActionModel;

    open spec fn view(&self) -> CommitActionModel {
        match self {
            Hidpp10CommitAction::ReadMemory { page, offset } => CommitActionModel::ReadMemory {
                page: *page,
                offset: *offset as int,
            },
            Hidpp10CommitAction::Send(q) => CommitActionModel::Send(q@),
            Hidpp10CommitAction::Stop => CommitActionModel::Stop,
        }
    }
}

fn copy_request(q: &Hidpp10Request) -> (r: Hidpp10Request)
    ensures
        r@ == q@,
{
    let wire = q.wire.clone();
    assert(wire@ =~= q.wire@);
    Hidpp10Request { wire, reply: q.reply }
}

fn find_active(info: &DeviceInfo) -> (r: Option<usize>)
    ensures
        match r {
            Some(i) => first_active(info@.profiles, i as int) && i < info.profiles@.len(),
            None => !exists|i: int| first_active(info@.profiles, i),
        },
{
    assert(info@.profiles.len() == info.profiles.len());
    let mut i: usize = 0;
    while i < info.profiles.len()
        invariant
            i <= info.profiles@.len(),
            info@.profiles.len() == info.profiles.len(),
            forall|j: int| 0 <= j < i ==> !(#[trigger] info@.profiles[j]).is_active,
        decreases info.profiles@.len() - i,
    {
        assert(info@.profiles[i as int] == info.profiles@[i as int]@);
        if info.profiles[i].is_active {
            return Some(i);
        }
        i += 1;
    }
    None
}

impl Hidpp10Commit {
    /// The writing with the driver and the device that it writes.
    pub closed spec fn with(&self, driver: DriverModel, info: DeviceModel) -> Committing {
        Committing {
            phase: self.phase,
            page: self.page@,
            plan: memory::requests_view(self.plan@),
            driver,
            profile: info.profiles[self.at as int],
        }
    }

    /// Whether the profile that is written is there.
    pub closed spec fn fits(&self, info: DeviceModel) -> bool {
        self.at < info.profiles.len()
    }

    /// At the start; `None` if there is no profile to write.
    pub fn begin(driver: &Hidpp10Driver, info: &DeviceInfo) -> (r: Option<Self>)
        ensures
            match r {
                None => committed_profile(info@) is None,
                Some(c) => {
                    &&& committed_profile(info@) matches Some(p) && c.with(driver@, info@) == (
                    Committing {
                        phase: Hidpp10CommitPhase::SetActive,
                        page: Seq::empty(),
                        plan: Seq::empty(),
                        driver: driver@,
                        profile: p,
                    }).from_resolution()
                    &&& c.with(driver@, info@).consistent()
                    &&& c.fits(info@)
                },
            },
    {
        let at: usize = match find_active(info) {
            Some(i) => i,
            None => {
                return None;
            },
        };
        proof {
            let k = choose|k: int| first_active(info@.profiles, k);
            assert(first_active(info@.profiles, at as int));
            assert(k == at);
        }
        assert(info@.profiles[at as int] == info.profiles@[at as int]@);
        if info.profiles[at].index >= 256 {
            return None;
        }
        let mut c = Hidpp10Commit {
            phase: Hidpp10CommitPhase::SetActive,
            at,
            page: PageRead::new(),
            plan: Vec::new(),
        };
        assert(c.with(driver@, info@) =~= (Committing {
            phase: Hidpp10CommitPhase::SetActive,
            page: Seq::empty(),
            plan: Seq::empty(),
            driver: driver@,
            profile: info@.profiles[at as int],
        })) by {
            assert(memory::requests_view(c.plan@) =~= Seq::empty());
        }
        c.from_resolution(driver, info);
        Some(c)
    }

    /// Whether the onboard profile can be written, if it is its turn.
    pub fn can_write(&self, driver: &Hidpp10Driver, info: &DeviceInfo) -> (r: bool)
        requires
            self.fits(info@),
            self.with(driver@, info@).consistent(),
        ensures
            r == (self.with(driver@, info@).phase is Page ==> self.with(
                driver@,
                info@,
            ).onboard().writable()),
    {
        assert(info@.profiles[self.at as int] == info.profiles@[self.at as int]@);
        match self.phase {
            Hidpp10CommitPhase::Page { strict: _ } => {
                let at: usize = info.profiles[self.at].index as usize;
                assert(self.with(driver@, info@).onboard() == driver.onboard_profiles@[at as int]@);
                driver.onboard_profiles[at].is_writable()
            },
            _ => true,
        }
    }

    fn from_resolution(&mut self, driver: &Hidpp10Driver, info: &DeviceInfo)
        requires
            old(self).fits(info@),
            old(self).with(driver@, info@).profile.index < 256,
        ensures
            final(self).with(driver@, info@) == old(self).with(driver@, info@).from_resolution(),
            final(self).with(driver@, info@).consistent(),
            final(self).fits(info@),
    {
        assert(info@.profiles[self.at as int] == info.profiles@[self.at as int]@);
        if driver.write_resolution(&info.profiles[self.at]).is_some() {
            self.phase = Hidpp10CommitPhase::Resolution;
        } else {
            self.from_rate(driver, info);
        }
    }

    fn from_rate(&mut self, driver: &Hidpp10Driver, info: &DeviceInfo)
        requires
            old(self).fits(info@),
            old(self).with(driver@, info@).profile.index < 256,
        ensures
            final(self).with(driver@, info@) == old(self).with(driver@, info@).from_rate(),
            final(self).with(driver@, info@).consistent(),
            final(self).fits(info@),
    {
        assert(info@.profiles[self.at as int] == info.profiles@[self.at as int]@);
        if driver.write_refresh_rate(&info.profiles[self.at]).is_some() {
            self.phase = Hidpp10CommitPhase::Rate;
        } else {
            self.from_color(driver, info);
        }
    }

    fn from_color(&mut self, driver: &Hidpp10Driver, info: &DeviceInfo)
        requires
            old(self).fits(info@),
            old(self).with(driver@, info@).profile.index < 256,
        ensures
            final(self).with(driver@, info@) == old(self).with(driver@, info@).from_color(),
            final(self).with(driver@, info@).consistent(),
            final(self).fits(info@),
    {
        assert(info@.profiles[self.at as int] == info.profiles@[self.at as int]@);
        if driver.write_led_color(&info.profiles[self.at]).is_some() {
            self.phase = Hidpp10CommitPhase::Color;
        } else {
            self.from_page(driver, info);
        }
    }

    fn from_page(&mut self, driver: &Hidpp10Driver, info: &DeviceInfo)
        requires
            old(self).fits(info@),
            old(self).with(driver@, info@).profile.index < 256,
        ensures
            final(self).with(driver@, info@) == old(self).with(driver@, info@).from_page(),
            final(self).with(driver@, info@).consistent(),
            final(self).fits(info@),
    {
        let ghost target = self.with(driver@, info@).from_page();
        assert(info@.profiles[self.at as int] == info.profiles@[self.at as int]@);
        assert(driver@.onboard_profiles.len() == driver.onboard_profiles.len());
        let number: usize = info.profiles[self.at].index as usize;
        let mut has_page = false;
        if driver.profile_type != Hidpp10ProfileType::Unknown && number
            < driver.onboard_profiles.len() {
            assert(driver@.onboard_profiles[number as int]
                == driver.onboard_profiles@[number as int]@);
            has_page = driver.onboard_profiles[number].page != 0;
        }
        if has_page {
            self.page = PageRead::new();
            self.phase = Hidpp10CommitPhase::Page { strict: true };
        } else {
            self.phase = Hidpp10CommitPhase::SetActive;
        }
        assert(self.with(driver@, info@) =~= target);
    }

    /// The next thing to do.
    pub fn action(&self, driver: &Hidpp10Driver, info: &DeviceInfo) -> (r: Hidpp10CommitAction)
        requires
            self.fits(info@),
            self.with(driver@, info@).consistent(),
        ensures
            r@ == self.with(driver@, info@).action(),
    {
        assert(info@.profiles[self.at as int] == info.profiles@[self.at as int]@);
        let p = &info.profiles[self.at];
        match self.phase {
            Hidpp10CommitPhase::Resolution => match driver.write_resolution(p) {
                Some(q) => Hidpp10CommitAction::Send(q),
                None => Hidpp10CommitAction::Stop,
            },
            Hidpp10CommitPhase::Rate => match driver.write_refresh_rate(p) {
                Some(q) => Hidpp10CommitAction::Send(q),
                None => Hidpp10CommitAction::Stop,
            },
            Hidpp10CommitPhase::Color => match driver.write_led_color(p) {
                Some(q) => Hidpp10CommitAction::Send(q),
                None => Hidpp10CommitAction::Stop,
            },
            Hidpp10CommitPhase::Page { strict: _ } => {
                assert(driver@.onboard_profiles[p.index as int]
                    == driver.onboard_profiles@[p.index as int]@);
                match self.page.wants() {
                    Some(offset) => Hidpp10CommitAction::ReadMemory {
                        page: driver.onboard_profiles[p.index as usize].page,
                        offset,
                    },
                    None => Hidpp10CommitAction::Stop,
                }
            },
            Hidpp10CommitPhase::Write { sent } => {
                assert(self.with(driver@, info@).plan[sent as int] == self.plan@[sent as int]@);
                Hidpp10CommitAction::Send(copy_request(&self.plan[sent]))
            },
            Hidpp10CommitPhase::SetActive => {
                let params: [u8; 3] = [p.index as u8, 0, 0];
                assert(params@ =~= seq![p.index as u8, 0u8, 0u8]);
                Hidpp10CommitAction::Send(
                    Hidpp10Request::set_register(
                        driver.device_index,
                        REG_CURRENT_PROFILE,
                        &params,
                    ),
                )
            },
            Hidpp10CommitPhase::Done => Hidpp10CommitAction::Stop,
            Hidpp10CommitPhase::Failed => Hidpp10CommitAction::Stop,
        }
    }

    fn page_read(&mut self, driver: &Hidpp10Driver, info: &DeviceInfo)
        requires
            old(self).fits(info@),
            ({
                let s = old(self).with(driver@, info@);
                &&& s.profile.index < 256
                &&& s.has_page()
                &&& s.page.len() == 512
                &&& s.onboard().writable()
            }),
        ensures
            final(self).with(driver@, info@) == ({
                let s = old(self).with(driver@, info@);
                s.page_read(s.page)
            }),
            final(self).with(driver@, info@).consistent(),
            final(self).fits(info@),
    {
        let ghost before = self.with(driver@, info@);
        let ghost target = before.page_read(before.page);
        assert(info@.profiles[self.at as int] == info.profiles@[self.at as int]@);
        let number: u32 = info.profiles[self.at].index;
        assert(driver@.onboard_profiles[number as int] == driver.onboard_profiles@[number as int]@);
        let onboard = &driver.onboard_profiles[number as usize];
        let mut page: Vec<u8> = self.page.data().clone();
        assert(page@ =~= before.page);
        write_profile(driver.profile_type, &mut page, onboard, &driver.dpi_table);
        seal_page(&mut page);
        assert(page@.len() == 512) by {
            profile::sealed_page_is_valid(
                profile::page_with_profile(
                    driver.profile_type,
                    before.page,
                    onboard@,
                    driver@.dpi_table,
                ),
            );
        }
        self.plan = plan_profile_write(driver.device_index, number as u8, onboard.page, &page);
        self.page = PageRead::new();
        self.phase = Hidpp10CommitPhase::Write { sent: 0 };
        assert(self.with(driver@, info@) =~= target);
        assert(target.plan.len() > 0);
    }

    fn page_replied(
        &mut self,
        driver: &Hidpp10Driver,
        info: &DeviceInfo,
        strict: bool,
        reply: &Option<Vec<u8>>,
    )
        requires
            old(self).fits(info@),
            old(self).with(driver@, info@).consistent(),
            old(self).with(driver@, info@).phase == (Hidpp10CommitPhase::Page { strict }),
            old(self).with(driver@, info@).onboard().writable(),
            reply matches Some(v) ==> v@.len() == 16,
        ensures
            final(self).with(driver@, info@) == old(self).with(driver@, info@).after(
                load::reply_view(*reply),
            ),
            final(self).with(driver@, info@).consistent(),
            final(self).fits(info@),
    {
        let ghost before = self.with(driver@, info@);
        let ghost restart = Committing { page: Seq::empty(), ..before }.to(
            Hidpp10CommitPhase::Page { strict: false },
        );
        match reply {
            Some(v) => {
                let chunk = sixteen(v);
                self.page.accept(&chunk);
            },
            None => {
                if strict {
                    self.page = PageRead::new();
                    self.phase = Hidpp10CommitPhase::Page { strict: false };
                    assert(self.with(driver@, info@) =~= restart);
                    return;
                }
                self.page.skip();
            },
        }
        let ghost mid = self.with(driver@, info@);
        assert(mid =~= (Committing { page: mid.page, ..before }));
        if self.page.wants().is_some() {
            return;
        }
        if strict && !check_page(self.page.data().as_slice()) {
            self.page = PageRead::new();
            self.phase = Hidpp10CommitPhase::Page { strict: false };
            assert(self.with(driver@, info@) =~= restart);
            return;
        }
        assert(mid.page_read(mid.page) == before.page_read(mid.page));
        self.page_read(driver, info);
    }

    /// Takes the answer to the last request; `None` if the exchange failed.
    pub fn replied(&mut self, driver: &Hidpp10Driver, info: &DeviceInfo, reply: &Option<Vec<u8>>)
        requires
            old(self).fits(info@),
            old(self).with(driver@, info@).consistent(),
            old(self).with(driver@, info@).phase is Page ==> {
                &&& old(self).with(driver@, info@).onboard().writable()
                &&& reply matches Some(v) ==> v@.len() == 16
            },
        ensures
            final(self).with(driver@, info@) == old(self).with(driver@, info@).after(
                load::reply_view(*reply),
            ),
            final(self).with(driver@, info@).consistent(),
            final(self).fits(info@),
    {
        let ghost before = self.with(driver@, info@);
        match self.phase {
            Hidpp10CommitPhase::Resolution => {
                self.from_rate(driver, info);
            },
            Hidpp10CommitPhase::Rate => {
                self.from_color(driver, info);
            },
            Hidpp10CommitPhase::Color => {
                self.from_page(driver, info);
            },
            Hidpp10CommitPhase::Page { strict } => {
                self.page_replied(driver, info, strict, reply);
            },
            Hidpp10CommitPhase::Write { sent } => {
                assert(before.plan.len() == self.plan.len());
                if reply.is_some() && sent + 1 < self.plan.len() {
                    self.phase = Hidpp10CommitPhase::Write { sent: sent + 1 };
                } else {
                    self.phase = Hidpp10CommitPhase::SetActive;
                }
            },
            Hidpp10CommitPhase::SetActive => {
                self.phase = if reply.is_some() {
                    Hidpp10CommitPhase::Done
                } else {
                    Hidpp10CommitPhase::Failed
                };
            },
            Hidpp10CommitPhase::Done => {},
            Hidpp10CommitPhase::Failed => {},
        }
    }

    /// Whether the profile has been made active; `None` while there is more to
    /// do.
    pub fn outcome(&self) -> (r: Option<bool>)
        ensures
            forall|d: DriverModel, info: DeviceModel|
                #![trigger self.with(d, info)]
                r == match self.with(d, info).phase {
                    Hidpp10CommitPhase::Done => Some(true),
                    Hidpp10CommitPhase::Failed => Some(false),
                    _ => None,
                },
    {
        match self.phase {
            Hidpp10CommitPhase::Done => Some(true),
            Hidpp10CommitPhase::Failed => Some(false),
            _ => None,
        }
    }
}

/// How much there is still to do at most.
pub open spec fn remaining(s: Committing) -> (int, int) {
    match s.phase {
        Hidpp10CommitPhase::Resolution => (7, 0),
        Hidpp10CommitPhase::Rate => (6, 0),
        Hidpp10CommitPhase::Color => (5, 0),
        Hidpp10CommitPhase::Page { strict } => (
            if strict {
                4
            } else {
                3
            },
            512 - s.page.len(),
        ),
        Hidpp10CommitPhase::Write { sent } => (2, s.plan.len() - sent),
        Hidpp10CommitPhase::SetActive => (1, 0),
        Hidpp10CommitPhase::Done => (0, 0),
        Hidpp10CommitPhase::Failed => (0, 0),
    }
}

/// Every answer, and every failure, brings the writing of a device nearer to
/// its end.
pub proof fn committing_makes_progress(s: Committing, reply: Option<Seq<u8>>)
    requires
        s.consistent(),
        !(s.action() is Stop),
        s.plan.len() <= usize::MAX,
        reply matches Some(chunk) ==> s.phase is Page ==> chunk.len() == 16,
    ensures
        ({
            let (a, b) = remaining(s);
            let (c, d) = remaining(s.after(reply));
            0 <= c && 0 <= d && (c < a || (c == a && d < b))
        }),
{
}

/// The writing of a device fails only where the profile could not be made
/// active, and that is the last thing it tries.
pub proof fn commit_fails_at_the_end(s: Committing, reply: Option<Seq<u8>>)
    requires
        s.consistent(),
        !(s.phase is Failed),
        s.after(reply).phase is Failed,
    ensures
        s.phase is SetActive,
        reply is None,
{
}

/// What is written of an onboard profile is a valid page, from which the profile
/// is read again.
pub proof fn committed_page_reads_back(s: Committing, page: Seq<u8>)
    requires
        s.has_page(),
        page.len() == 512,
        profile::storable(s.driver.profile_type, s.onboard(), s.driver.dpi_table),
    ensures
        ({
            let written = profile::sealed_page(
                profile::page_with_profile(
                    s.driver.profile_type,
                    page,
                    s.onboard(),
                    s.driver.dpi_table,
                ),
            );
            let back = profile::profile_of_page(
                s.driver.profile_type,
                written,
                s.onboard(),
                s.driver.dpi_table,
            );
            &&& profile::page_is_valid(written)
            &&& s.page_read(page).plan == profile_requests(
                s.driver.device_index,
                s.profile.index as u8,
                s.onboard().page,
                written,
            )
            &&& back.dpi_modes == s.onboard().dpi_modes
            &&& back.buttons == s.onboard().buttons
            &&& back.refresh_rate == s.onboard().refresh_rate
        }),
{
    let w = profile::page_with_profile(
        s.driver.profile_type,
        page,
        s.onboard(),
        s.driver.dpi_table,
    );
    profile::written_page_keeps_size(s.driver.profile_type, page, s.onboard(), s.driver.dpi_table);
    profile::sealed_page_is_valid(w);
    profile::profile_reads_back(
        s.driver.profile_type,
        page,
        s.onboard(),
        s.onboard(),
        s.driver.dpi_table,
    );
}

} // verus!
