//! Writing the changed profiles of a device, one after another.

use crate::engine::device::{DeviceInfo, DeviceModel};
use crate::hal::sinowealth::config;
use crate::hal::sinowealth::driver::{self, DataModel, SinowealthData, finish_commit};
use crate::hal::sinowealth::protocol::SinowealthError;
use vstd::prelude::*;

verus! {

/// How far a commit has come: what is being sent.
#[derive(Debug, Clone, Copy, PartialEq, Eq, Structural)]
pub enum SinowealthCommitPhase {
    /// The settings of a profile.
    Config { profile: usize },
    /// The buttons of a profile, and its macros.
    Buttons { profile: usize },
    /// The debounce time and the active profile.
    Finish,
    /// Nothing: the commit is complete.
    Done,
    /// Nothing: the commit has failed.
    Failed { error: SinowealthError },
}

/// A commit under way.
#[derive(Debug)]
pub struct SinowealthCommit {
    pub phase: SinowealthCommitPhase,
    /// The reports to send, in order.
    pub reports: Vec<Vec<u8>>,
}

/// A commit together with the data of its driver and its device.
#[verifier::ext_equal]
pub struct Committing {
    pub phase: SinowealthCommitPhase,
    pub reports: Seq<Seq<u8>>,
    pub data: DataModel,
    pub info: DeviceModel,
}

/// Whether a commit comes to the profile at `j`: it ends with an error at the
/// first changed profile beyond the third.
pub open spec fn comes_to(info: DeviceModel, j: int) -> bool {
    forall|k: int| 3 <= k < j ==> !(#[trigger] info.profiles[k]).is_dirty
}

/// Whether the reports of the changed profiles from `from` on that a commit comes
/// to were read, so that they can be written.
pub open spec fn were_read(d: DataModel, info: DeviceModel, from: int) -> bool {
    forall|j: int|
        from <= j < info.profiles.len() && (#[trigger] info.profiles[j]).is_dirty && comes_to(
            info,
            j,
        ) ==> {
            &&& j < d.configs.len()
            &&& j <= 2 ==> d.configs[j].len() > 0 && j < d.buttons.len() && d.buttons[j].len() > 0
        }
}

impl Committing {
    pub open spec fn sending(self, phase: SinowealthCommitPhase, reports: Seq<Seq<u8>>) -> Committing {
        Committing { phase, reports, ..self }
    }

    pub open spec fn failed(self, error: SinowealthError) -> Committing {
        self.sending(SinowealthCommitPhase::Failed { error }, Seq::empty())
    }

    /// The first changed profile from `i` on comes next; after the last one the
    /// closing commands.
    pub open spec fn at_profile(self, i: int) -> Committing
        decreases self.info.profiles.len() - i,
    {
        if i < 0 || i >= self.info.profiles.len() {
            self.sending(
                SinowealthCommitPhase::Finish,
                driver::closing_commands(self.info.profiles),
            )
        } else if !self.info.profiles[i].is_dirty {
            self.at_profile(i + 1)
        } else {
            self.at_config(i)
        }
    }

    /// The settings of profile `i` are made and sent. Only the first three
    /// profiles can be sent.
    pub open spec fn at_config(self, i: int) -> Committing {
        let d = self.data;
        let p = self.info.profiles[i];
        let written = config::with_profile(d.sensor, d.led_type, d.configs[i], p);
        if i <= 2 {
            Committing {
                data: DataModel {
                    configs: d.configs.update(
                        i,
                        written.update(0, driver::data_report(d.is_long).code()),
                    ),
                    ..d
                },
                ..self
            }.sending(
                SinowealthCommitPhase::Config { profile: i as usize },
                driver::config_reports(d, i, p),
            )
        } else {
            Committing {
                data: DataModel { configs: d.configs.update(i, written), ..d },
                ..self
            }.failed(SinowealthError::InvalidProfile { index: i as usize })
        }
    }

    /// The buttons of profile `i`, one of the first three, are made and sent.
    pub open spec fn at_buttons(self, i: int) -> Committing {
        let d = self.data;
        let p = self.info.profiles[i];
        Committing {
            data: DataModel {
                buttons: d.buttons.update(
                    i,
                    driver::written_buttons(d, i, p).update(
                        0,
                        driver::data_report(d.is_long).code(),
                    ),
                ),
                ..d
            },
            ..self
        }.sending(
            SinowealthCommitPhase::Buttons { profile: i as usize },
            driver::button_reports(d, i, p),
        )
    }

    /// The state after the reports were sent, or one of them could not be sent.
    pub open spec fn after(self, sent: bool) -> Committing {
        match self.phase {
            SinowealthCommitPhase::Config { profile } => if sent {
                self.at_buttons(profile as int)
            } else {
                self.failed(SinowealthError::WriteFailed)
            },
            SinowealthCommitPhase::Buttons { profile } => if sent {
                self.at_profile(profile + 1)
            } else {
                self.failed(SinowealthError::WriteFailed)
            },
            SinowealthCommitPhase::Finish => if sent {
                self.sending(SinowealthCommitPhase::Done, Seq::empty())
            } else {
                self.failed(SinowealthError::WriteFailed)
            },
            SinowealthCommitPhase::Done => self,
            SinowealthCommitPhase::Failed { error } => self,
        }
    }

    /// Whether the commit, the data and the device fit together.
    pub open spec fn consistent(self) -> bool {
        let n = self.info.profiles.len();
        match self.phase {
            SinowealthCommitPhase::Config { profile } => {
                &&& profile < n
                &&& profile <= 2
                &&& profile < self.data.buttons.len()
                &&& self.data.buttons[profile as int].len() > 0
                &&& were_read(self.data, self.info, profile + 1)
            },
            SinowealthCommitPhase::Buttons { profile } => {
                &&& profile < n
                &&& profile <= 2
                &&& were_read(self.data, self.info, profile + 1)
            },
            _ => true,
        }
    }
}

impl SinowealthCommit {
    /// The state of a commit, the data and the device.
    pub open spec fn with(self, data: DataModel, info: DeviceModel) -> Committing {
        Committing { phase: self.phase, reports: driver::reports_view(self.reports@), data, info }
    }

    /// Begins to write the changed profiles of a device.
    pub fn begin(data: &mut SinowealthData, info: &DeviceInfo) -> (r: Self)
        requires
            were_read(old(data)@, info@, 0),
        ensures
            r.with(final(data)@, info@) == (Committing {
                phase: SinowealthCommitPhase::Done,
                reports: Seq::empty(),
                data: old(data)@,
                info: info@,
            }).at_profile(0),
            r.with(final(data)@, info@).consistent(),
    {
        let mut r = SinowealthCommit { phase: SinowealthCommitPhase::Done, reports: Vec::new() };
        assert(driver::reports_view(r.reports@) =~= Seq::empty());
        r.enter_profile(data, info, 0);
        r
    }

    fn enter_profile(&mut self, data: &mut SinowealthData, info: &DeviceInfo, from: usize)
        requires
            from <= 3,
            were_read(old(data)@, info@, from as int),
        ensures
            final(self).with(final(data)@, info@) == old(self).with(
                old(data)@,
                info@,
            ).at_profile(from as int),
            final(self).with(final(data)@, info@).consistent(),
    {
        let ghost s = self.with(data@, info@);
        assert(info@.profiles.len() == info.profiles@.len());
        let mut i: usize = from;
        while i < info.profiles.len() && !info.profiles[i].is_dirty
            invariant
                from <= i,
                i <= info.profiles@.len() || i == from,
                info@.profiles.len() == info.profiles@.len(),
                *data == *old(data),
                *self == *old(self),
                s == self.with(data@, info@),
                s.at_profile(from as int) == s.at_profile(i as int),
                forall|k: int| from <= k < i ==> !(#[trigger] info@.profiles[k]).is_dirty,
            decreases info.profiles@.len() - i,
        {
            assert(info@.profiles[i as int] == info.profiles@[i as int]@);
            i += 1;
        }
        if i >= info.profiles.len() {
            self.phase = SinowealthCommitPhase::Finish;
            self.reports = finish_commit(info);
            return;
        }
        assert(info@.profiles[i as int] == info.profiles@[i as int]@);
        assert(s.at_profile(i as int) == s.at_config(i as int));
        assert(comes_to(info@, i as int));
        match data.commit_config(i, &info.profiles[i]) {
            Ok(reports) => {
                self.phase = SinowealthCommitPhase::Config { profile: i };
                self.reports = reports;
            },
            Err(e) => {
                self.phase = SinowealthCommitPhase::Failed { error: e };
                self.reports = Vec::new();
                assert(driver::reports_view(self.reports@) =~= Seq::empty());
            },
        }
    }

    /// Whether there are reports to send.
    pub fn is_sending(&self) -> (r: bool)
        ensures
            r == !(self.phase is Done || self.phase is Failed),
    {
        match self.phase {
            SinowealthCommitPhase::Done => false,
            SinowealthCommitPhase::Failed { error: _ } => false,
            _ => true,
        }
    }

    /// Takes notice of whether the reports were sent.
    pub fn sent(&mut self, data: &mut SinowealthData, info: &DeviceInfo, sent: bool)
        requires
            old(self).with(old(data)@, info@).consistent(),
        ensures
            final(self).with(final(data)@, info@) == old(self).with(old(data)@, info@).after(sent),
            final(self).with(final(data)@, info@).consistent(),
    {
        if !self.is_sending() {
            return;
        }
        if !sent {
            self.phase = SinowealthCommitPhase::Failed { error: SinowealthError::WriteFailed };
            self.reports = Vec::new();
            assert(driver::reports_view(self.reports@) =~= Seq::empty());
            return;
        }
        let phase = self.phase;
        match phase {
            SinowealthCommitPhase::Config { profile } => {
                assert(info@.profiles[profile as int] == info.profiles@[profile as int]@);
                match data.commit_buttons(profile, &info.profiles[profile]) {
                    Ok(reports) => {
                        self.phase = SinowealthCommitPhase::Buttons { profile };
                        self.reports = reports;
                    },
                    Err(_) => {},
                }
            },
            SinowealthCommitPhase::Buttons { profile } => {
                assert(info@.profiles.len() == info.profiles.len());
                self.enter_profile(data, info, profile + 1);
            },
            _ => {
                self.phase = SinowealthCommitPhase::Done;
                self.reports = Vec::new();
                assert(driver::reports_view(self.reports@) =~= Seq::empty());
            },
        }
    }
}

/// How many batches of reports a commit may still send, at most.
pub open spec fn batches_left(s: Committing) -> int {
    let n = s.info.profiles.len() as int;
    match s.phase {
        SinowealthCommitPhase::Config { profile } => 2 * (n - profile) + 1,
        SinowealthCommitPhase::Buttons { profile } => 2 * (n - profile),
        SinowealthCommitPhase::Finish => 1,
        _ => 0,
    }
}

proof fn lemma_at_profile_left(s: Committing, i: int)
    requires
        0 <= i <= s.info.profiles.len() <= usize::MAX,
    ensures
        0 <= batches_left(s.at_profile(i)) <= 2 * (s.info.profiles.len() - i) + 1,
    decreases s.info.profiles.len() - i,
{
    if i < s.info.profiles.len() && !s.info.profiles[i].is_dirty {
        lemma_at_profile_left(s, i + 1);
    }
}

/// A commit ends: each batch of reports, sent or not, brings it nearer to its
/// end.
pub proof fn committing_makes_progress(s: Committing, sent: bool)
    requires
        s.consistent(),
        s.info.profiles.len() <= usize::MAX,
        !(s.phase is Done || s.phase is Failed),
    ensures
        0 <= batches_left(s.after(sent)) < batches_left(s),
{
    if let SinowealthCommitPhase::Buttons { profile } = s.phase {
        lemma_at_profile_left(s, profile + 1);
    }
}

/// A device without changes has its closing commands sent and nothing else.
pub proof fn unchanged_profiles_are_spared(s: Committing, i: int)
    requires
        0 <= i <= s.info.profiles.len(),
        forall|j: int| i <= j < s.info.profiles.len() ==> !(#[trigger] s.info.profiles[j]).is_dirty,
    ensures
        s.at_profile(i).phase is Finish,
        s.at_profile(i).data == s.data,
        s.at_profile(i).reports == driver::closing_commands(s.info.profiles),
    decreases s.info.profiles.len() - i,
{
    if i < s.info.profiles.len() {
        unchanged_profiles_are_spared(s, i + 1);
    }
}

} // verus!
