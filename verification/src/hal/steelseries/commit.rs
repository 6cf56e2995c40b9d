//! Writing the active profile.

use crate::engine::device;
use crate::engine::device::{
    DeviceInfo, DeviceModel, Dpi, LedInfo, LedMode, LedModel, ProfileInfo, ProfileModel,
    ResolutionInfo, ResolutionModel,
};
use crate::hal::steelseries::button;
use crate::hal::steelseries::button::write_buttons;
use crate::hal::steelseries::driver;
use crate::hal::steelseries::driver::{
    STEELSERIES_DPI_MAGIC_MARKER, STEELSERIES_ID_DPI, STEELSERIES_ID_DPI_PROTOCOL3,
    STEELSERIES_ID_DPI_PROTOCOL4, STEELSERIES_ID_DPI_SHORT, STEELSERIES_ID_REPORT_RATE,
    STEELSERIES_ID_REPORT_RATE_PROTOCOL3, STEELSERIES_ID_REPORT_RATE_PROTOCOL4,
    STEELSERIES_ID_REPORT_RATE_SHORT, STEELSERIES_ID_SAVE, STEELSERIES_ID_SAVE_PROTOCOL3,
    STEELSERIES_ID_SAVE_SHORT, SteelseriesDriver, dpi_step,
};
use crate::hal::steelseries::led;
use crate::hal::steelseries::led::{write_led_v1, write_led_v2, write_led_v3};
use crate::hal::steelseries::report::{
    CommandModel, DeviceQuirks, ProtocolVersion, Report, ReportModel, SETTLE_MS, SETTLE_SAVE_MS,
    STEELSERIES_REPORT_SIZE, STEELSERIES_REPORT_SIZE_SHORT, SteelseriesCommand, SteelseriesError,
};
use vstd::prelude::*;

verus! {

/// What writing comes to: commands to send in order, and the error that comes
/// after them, if one does.
#[derive(Debug)]
pub struct SteelseriesPlan {
    pub sent: Vec<SteelseriesCommand>,
    pub error: Option<SteelseriesError>,
}

/// The contents of a [`SteelseriesPlan`].
#[verifier::ext_equal]
pub struct PlanModel {
    pub sent: Seq<CommandModel>,
    pub error: Option<SteelseriesError>,
}

/// The contents of a list of commands.
pub open spec fn commands_view(s: Seq<SteelseriesCommand>) -> Seq<CommandModel> {
    s.map_values(|c: SteelseriesCommand| c@)
}

impl View for SteelseriesPlan {
    type V = PlanModel;

    open spec fn view(&self) -> PlanModel {
        PlanModel { sent: commands_view(self.sent@), error: self.error }
    }
}

impl PlanModel {
    /// A plan of commands only.
    pub open spec fn of(sent: Seq<CommandModel>) -> PlanModel {
        PlanModel { sent, error: None }
    }

    /// This plan, then another unless an error comes first.
    pub open spec fn and(self, next: PlanModel) -> PlanModel {
        if self.error is Some {
            self
        } else {
            PlanModel { sent: self.sent + next.sent, error: next.error }
        }
    }
}

/// The resolution that is written; the horizontal one of two.
pub open spec fn dpi_value(dpi: Dpi) -> u32 {
    match dpi {
        Dpi::Unified(d) => d,
        Dpi::Separate { x, y } => x,
        Dpi::Unknown => 800,
    }
}

/// A resolution as a device stores it: how many steps it lies above the first.
pub open spec fn scaled_dpi(dpi: u32, step: u32) -> u8 {
    let steps = dpi / step;
    if steps == 0 {
        0
    } else {
        ((steps - 1) as u32) as u8
    }
}

/// Where a value stands first in a list; 0 if it does not.
pub open spec fn place_in(list: Seq<u32>, v: u32) -> int {
    match device::position(list, v) {
        Some(i) => i,
        None => 0,
    }
}

/// A resolution in version 1: its place in the list, counted from the end,
/// where there is a list.
pub open spec fn listed_dpi(r: ResolutionModel, step: u32) -> u8 {
    if r.dpi_list.len() == 0 {
        scaled_dpi(dpi_value(r.dpi), step)
    } else {
        ((r.dpi_list.len() - place_in(r.dpi_list, dpi_value(r.dpi))) as usize) as u8
    }
}

/// The report that sets a resolution.
pub open spec fn dpi_report(version: ProtocolVersion, r: ResolutionModel, step: u32) -> ReportModel {
    let id = (r.index as u8 + 1) as u8;
    let scaled = scaled_dpi(dpi_value(r.dpi), step);
    match version {
        ProtocolVersion::V1 => ReportModel::output(STEELSERIES_ID_DPI_SHORT, 32).with(1, id).with(
            2,
            listed_dpi(r, step),
        ),
        ProtocolVersion::V2 => ReportModel::output(STEELSERIES_ID_DPI, 64).with(2, id).with(
            3,
            scaled,
        ).with(6, STEELSERIES_DPI_MAGIC_MARKER),
        ProtocolVersion::V3 => ReportModel::output(STEELSERIES_ID_DPI_PROTOCOL3, 64).with(
            2,
            id,
        ).with(3, scaled).with(5, STEELSERIES_DPI_MAGIC_MARKER),
        ProtocolVersion::V4 => ReportModel::output(STEELSERIES_ID_DPI_PROTOCOL4, 64).with(
            1,
            id,
        ).with(2, scaled),
    }
}

fn find_value(list: &Vec<u32>, v: u32) -> (r: usize)
    ensures
        r == place_in(list@, v),
        list@.len() > 0 ==> r < list@.len(),
{
    let mut i: usize = 0;
    while i < list.len()
        invariant
            i <= list@.len(),
            forall|k: int| 0 <= k < i ==> (#[trigger] list@[k]) != v,
        decreases list@.len() - i,
    {
        if list[i] == v {
            proof {
                device::lemma_position_found(list@, v, i as int);
            }
            return i;
        }
        i += 1;
    }
    assert(device::position(list@, v) is None) by {
        assert forall|k: int| !device::is_first(list@, v, k) by {}
    }
    0
}

/// The report that sets a resolution.
pub fn write_dpi(version: ProtocolVersion, res: &ResolutionInfo, step: u32) -> (r: Report)
    requires
        step > 0,
        res.index as u8 != 255,
    ensures
        r@ == dpi_report(version, res@, step),
{
    let dpi: u32 = match res.dpi {
        Dpi::Unified(d) => d,
        Dpi::Separate { x, y: _ } => x,
        Dpi::Unknown => 800,
    };
    let id: u8 = res.index as u8 + 1;
    let steps: u32 = dpi / step;
    let scaled: u8 = if steps == 0 {
        0
    } else {
        (steps - 1) as u8
    };
    match version {
        ProtocolVersion::V1 => {
            let scaled: u8 = if res.dpi_list.len() == 0 {
                scaled
            } else {
                let pos: usize = find_value(&res.dpi_list, dpi);
                (res.dpi_list.len() - pos) as u8
            };
            let mut r = Report::output(STEELSERIES_ID_DPI_SHORT, STEELSERIES_REPORT_SIZE_SHORT);
            r.param(1, id);
            r.param(2, scaled);
            r
        },
        ProtocolVersion::V2 => {
            let mut r = Report::output(STEELSERIES_ID_DPI, STEELSERIES_REPORT_SIZE);
            r.param(2, id);
            r.param(3, scaled);
            r.param(6, STEELSERIES_DPI_MAGIC_MARKER);
            r
        },
        ProtocolVersion::V3 => {
            let mut r = Report::output(STEELSERIES_ID_DPI_PROTOCOL3, STEELSERIES_REPORT_SIZE);
            r.param(2, id);
            r.param(3, scaled);
            r.param(5, STEELSERIES_DPI_MAGIC_MARKER);
            r
        },
        ProtocolVersion::V4 => {
            let mut r = Report::output(STEELSERIES_ID_DPI_PROTOCOL4, STEELSERIES_REPORT_SIZE);
            r.param(1, id);
            r.param(2, scaled);
            r
        },
    }
}

/// The code of a report rate in versions 1 and 4.
pub open spec fn rate_code(hz: u32) -> u8 {
    if hz >= 1000 {
        0x01
    } else if hz >= 375 {
        0x02
    } else if hz <= 125 {
        0x04
    } else {
        0x03
    }
}

/// A report rate in versions 2 and 3: the interval in milliseconds.
pub open spec fn rate_interval(hz: u32) -> u8 {
    (1000u32 / (if hz < 125 {
        125u32
    } else {
        hz
    })) as u8
}

/// The report that sets the report rate.
pub open spec fn rate_report(version: ProtocolVersion, hz: u32) -> ReportModel {
    match version {
        ProtocolVersion::V1 => ReportModel::output(STEELSERIES_ID_REPORT_RATE_SHORT, 32).with(
            2,
            rate_code(hz),
        ),
        ProtocolVersion::V2 => ReportModel::output(STEELSERIES_ID_REPORT_RATE, 64).with(
            2,
            rate_interval(hz),
        ),
        ProtocolVersion::V3 => ReportModel::output(STEELSERIES_ID_REPORT_RATE_PROTOCOL3, 64).with(
            2,
            rate_interval(hz),
        ),
        ProtocolVersion::V4 => ReportModel::output(STEELSERIES_ID_REPORT_RATE_PROTOCOL4, 32).with(
            2,
            rate_code(hz),
        ),
    }
}

/// The report that sets the report rate.
pub fn write_report_rate(version: ProtocolVersion, hz: u32) -> (r: Report)
    ensures
        r@ == rate_report(version, hz),
{
    if version == ProtocolVersion::V1 || version == ProtocolVersion::V4 {
        let code: u8 = if hz >= 1000 {
            0x01
        } else if hz >= 375 {
            0x02
        } else if hz <= 125 {
            0x04
        } else {
            0x03
        };
        let opcode: u8 = if version == ProtocolVersion::V1 {
            STEELSERIES_ID_REPORT_RATE_SHORT
        } else {
            STEELSERIES_ID_REPORT_RATE_PROTOCOL4
        };
        let mut r = Report::output(opcode, STEELSERIES_REPORT_SIZE_SHORT);
        r.param(2, code);
        r
    } else {
        let least: u32 = if hz < 125 {
            125
        } else {
            hz
        };
        let opcode: u8 = if version == ProtocolVersion::V2 {
            STEELSERIES_ID_REPORT_RATE
        } else {
            STEELSERIES_ID_REPORT_RATE_PROTOCOL3
        };
        let mut r = Report::output(opcode, STEELSERIES_REPORT_SIZE);
        r.param(2, (1000 / least) as u8);
        r
    }
}

/// The command that makes a device keep its settings.
pub open spec fn save_command(version: ProtocolVersion) -> CommandModel {
    let report = match version {
        ProtocolVersion::V1 => ReportModel::output(STEELSERIES_ID_SAVE_SHORT, 32),
        ProtocolVersion::V2 => ReportModel::output(STEELSERIES_ID_SAVE, 64),
        _ => ReportModel::output(STEELSERIES_ID_SAVE_PROTOCOL3, 64),
    };
    CommandModel { settle_ms: SETTLE_SAVE_MS, ..report.command() }
}

/// The command that makes a device keep its settings.
pub fn write_save(version: ProtocolVersion) -> (r: SteelseriesCommand)
    ensures
        r@ == save_command(version),
{
    let report = match version {
        ProtocolVersion::V1 => Report::output(
            STEELSERIES_ID_SAVE_SHORT,
            STEELSERIES_REPORT_SIZE_SHORT,
        ),
        ProtocolVersion::V2 => Report::output(STEELSERIES_ID_SAVE, STEELSERIES_REPORT_SIZE),
        _ => Report::output(STEELSERIES_ID_SAVE_PROTOCOL3, STEELSERIES_REPORT_SIZE),
    };
    let mut r = report.into_command();
    r.settle_ms = SETTLE_SAVE_MS;
    r
}

/// What writing an LED comes to. Version 1 does not have every mode, and
/// version 4 cannot write LEDs.
pub open spec fn led_plan(version: ProtocolVersion, quirks: DeviceQuirks, l: LedModel) -> PlanModel {
    match version {
        ProtocolVersion::V1 => if led::effect_v1(l) is Some {
            PlanModel::of(
                seq![
                    led::effect_report(quirks, l).command(),
                    led::color_report(quirks, l).command(),
                ],
            )
        } else {
            PlanModel {
                sent: Seq::empty(),
                error: Some(SteelseriesError::UnsupportedLedMode { mode: l.mode }),
            }
        },
        ProtocolVersion::V2 => PlanModel::of(seq![led::led_report_v2(l).command()]),
        ProtocolVersion::V3 => PlanModel::of(seq![led::led_report_v3(l).command()]),
        ProtocolVersion::V4 => PlanModel {
            sent: Seq::empty(),
            error: Some(SteelseriesError::NoLedProtocol),
        },
    }
}

/// What writing the first `n` LEDs comes to, after what was planned before.
pub open spec fn led_plans(
    before: PlanModel,
    version: ProtocolVersion,
    quirks: DeviceQuirks,
    leds: Seq<LedModel>,
    n: nat,
) -> PlanModel
    decreases n,
{
    if n == 0 {
        before
    } else {
        led_plans(before, version, quirks, leds, (n - 1) as nat).and(
            led_plan(version, quirks, leds[n - 1]),
        )
    }
}

/// Whether `i` is the first active resolution.
pub open spec fn first_active(list: Seq<ResolutionModel>, i: int) -> bool {
    &&& 0 <= i < list.len()
    &&& list[i].is_active
    &&& forall|j: int| 0 <= j < i ==> !(#[trigger] list[j]).is_active
}

/// The active resolution.
pub open spec fn active_resolution(list: Seq<ResolutionModel>) -> Option<ResolutionModel> {
    if exists|i: int| first_active(list, i) {
        Some(list[choose|i: int| first_active(list, i)])
    } else {
        None
    }
}

/// Whether `i` is the profile that is written: the first active one, or the
/// first of all where none is.
pub open spec fn is_written(profiles: Seq<ProfileModel>, i: int) -> bool {
    &&& 0 <= i < profiles.len()
    &&& forall|j: int| 0 <= j < i ==> !(#[trigger] profiles[j]).is_active
    &&& profiles[i].is_active || (i == 0 && forall|j: int|
        0 <= j < profiles.len() ==> !(#[trigger] profiles[j]).is_active)
}

/// The profile that is written.
pub open spec fn written_profile(profiles: Seq<ProfileModel>) -> ProfileModel {
    profiles[choose|i: int| is_written(profiles, i)]
}

/// What writing a profile comes to: the resolution, the buttons unless the
/// device has none to write, the LEDs, the report rate, and a save.
pub open spec fn profile_plan(
    version: ProtocolVersion,
    quirks: DeviceQuirks,
    info: DeviceModel,
    p: ProfileModel,
) -> PlanModel {
    let dpi = match active_resolution(p.resolutions) {
        Some(r) => PlanModel::of(
            seq![dpi_report(version, r, driver::step_of(info.driver_config)).command()],
        ),
        None => PlanModel::of(Seq::empty()),
    };
    let buttons = if info.driver_config.macro_length == Some(0u32) {
        PlanModel::of(Seq::empty())
    } else {
        PlanModel::of(seq![button::button_command(version, quirks.is_senseiraw, p.buttons)])
    };
    led_plans(dpi.and(buttons), version, quirks, p.leds, p.leds.len()).and(
        PlanModel::of(
            seq![rate_report(version, p.report_rate).command(), save_command(version)],
        ),
    )
}

/// What a commit comes to.
pub open spec fn commit_plan(d: SteelseriesDriver, info: DeviceModel) -> PlanModel {
    if info.profiles.len() == 0 {
        PlanModel { sent: Seq::empty(), error: Some(SteelseriesError::NoProfiles) }
    } else {
        match d.version {
            None => PlanModel { sent: Seq::empty(), error: Some(SteelseriesError::NotLoaded) },
            Some(version) => profile_plan(
                version,
                d.quirks,
                info,
                written_profile(info.profiles),
            ),
        }
    }
}

/// Whether version 1 comes to write the LED at `i`: it has the mode of that LED
/// and of all before it.
pub open spec fn reaches_led(leds: Seq<LedModel>, i: int) -> bool {
    forall|j: int| 0 <= j <= i ==> led::effect_v1(#[trigger] leds[j]) is Some
}

/// Whether the numbers of the LEDs that version 1 comes to write fit.
pub open spec fn led_numbers_fit(quirks: DeviceQuirks, leds: Seq<LedModel>) -> bool {
    forall|i: int|
        0 <= i < leds.len() && #[trigger] reaches_led(leds, i) ==> led::led_number_fits(
            quirks,
            leds[i],
        )
}

/// Whether the numbers of a profile can be written.
pub open spec fn numbers_fit(d: SteelseriesDriver, info: DeviceModel) -> bool {
    let p = written_profile(info.profiles);
    &&& active_resolution(p.resolutions) matches Some(r) ==> r.index as u8 != 255
        && driver::step_of(info.driver_config) > 0
    &&& d.version == Some(ProtocolVersion::V1) ==> led_numbers_fit(d.quirks, p.leds)
}

impl SteelseriesPlan {
    fn push_command(&mut self, c: SteelseriesCommand)
        requires
            old(self).error is None,
        ensures
            final(self)@ == old(self)@.and(PlanModel::of(seq![c@])),
    {
        let ghost m = c@;
        self.sent.push(c);
        assert(self@ =~= old(self)@.and(PlanModel::of(seq![m])));
    }

    fn add_led(&mut self, version: ProtocolVersion, quirks: DeviceQuirks, l: &LedInfo)
        requires
            old(self).error is None,
            version is V1 && led::effect_v1(l@) is Some ==> led::led_number_fits(quirks, l@),
        ensures
            final(self)@ == old(self)@.and(led_plan(version, quirks, l@)),
    {
        match version {
            ProtocolVersion::V1 => {
                match write_led_v1(quirks, l) {
                    Ok((first, second)) => {
                        self.push_command(first.into_command());
                        self.push_command(second.into_command());
                    },
                    Err(e) => {
                        self.error = Some(e);
                    },
                }
                assert(self@ =~= old(self)@.and(led_plan(version, quirks, l@)));
            },
            ProtocolVersion::V2 => {
                self.push_command(write_led_v2(l).into_command());
            },
            ProtocolVersion::V3 => {
                self.push_command(write_led_v3(l).into_command());
            },
            ProtocolVersion::V4 => {
                self.error = Some(SteelseriesError::NoLedProtocol);
                assert(self@ =~= old(self)@.and(led_plan(version, quirks, l@)));
            },
        }
    }
}

proof fn lemma_first_active(list: Seq<ResolutionModel>, i: int)
    requires
        first_active(list, i),
    ensures
        active_resolution(list) == Some(list[i]),
{
    let k = choose|k: int| first_active(list, k);
    assert(first_active(list, k));
    assert(k == i);
}

proof fn lemma_written(profiles: Seq<ProfileModel>, i: int)
    requires
        is_written(profiles, i),
    ensures
        written_profile(profiles) == profiles[i],
{
    let k = choose|k: int| is_written(profiles, k);
    assert(is_written(profiles, k));
    if k < i {
        assert(!profiles[k].is_active);
        assert(profiles[i].is_active);
    } else if i < k {
        assert(!profiles[i].is_active);
        assert(profiles[k].is_active);
    }
}

proof fn lemma_failed_plan(
    before: PlanModel,
    version: ProtocolVersion,
    quirks: DeviceQuirks,
    leds: Seq<LedModel>,
    m: nat,
    n: nat,
)
    requires
        m <= n,
        led_plans(before, version, quirks, leds, m).error is Some,
    ensures
        led_plans(before, version, quirks, leds, n) == led_plans(before, version, quirks, leds, m),
    decreases n,
{
    if m < n {
        lemma_failed_plan(before, version, quirks, leds, m, (n - 1) as nat);
    }
}

fn find_active(list: &Vec<ResolutionInfo>) -> (r: Option<usize>)
    ensures
        match r {
            Some(i) => i < list@.len() && active_resolution(device::resolutions_view(list@))
                == Some(list@[i as int]@),
            None => active_resolution(device::resolutions_view(list@)) is None,
        },
{
    let ghost models = device::resolutions_view(list@);
    let mut i: usize = 0;
    while i < list.len()
        invariant
            i <= list@.len(),
            models == device::resolutions_view(list@),
            forall|k: int| 0 <= k < i ==> !(#[trigger] models[k]).is_active,
        decreases list@.len() - i,
    {
        assert(models[i as int] == list@[i as int]@);
        if list[i].is_active {
            proof {
                lemma_first_active(models, i as int);
            }
            return Some(i);
        }
        i += 1;
    }
    None
}

fn find_written(list: &Vec<ProfileInfo>) -> (r: usize)
    requires
        list@.len() > 0,
    ensures
        r < list@.len(),
        written_profile(device::profiles_view(list@)) == list@[r as int]@,
{
    let ghost models = device::profiles_view(list@);
    let mut i: usize = 0;
    while i < list.len()
        invariant
            i <= list@.len(),
            models == device::profiles_view(list@),
            forall|k: int| 0 <= k < i ==> !(#[trigger] models[k]).is_active,
        decreases list@.len() - i,
    {
        assert(models[i as int] == list@[i as int]@);
        if list[i].is_active {
            proof {
                lemma_written(models, i as int);
            }
            return i;
        }
        i += 1;
    }
    proof {
        lemma_written(models, 0);
    }
    0
}

impl SteelseriesDriver {
    fn plan_profile(&self, version: ProtocolVersion, info: &DeviceInfo, p: &ProfileInfo) -> (r:
        SteelseriesPlan)
        requires
            active_resolution(p@.resolutions) matches Some(r) ==> r.index as u8 != 255
                && driver::step_of(info@.driver_config) > 0,
            version is V1 ==> led_numbers_fit(self.quirks, p@.leds),
        ensures
            r@ == profile_plan(version, self.quirks, info@, p@),
    {
        let mut plan = SteelseriesPlan { sent: Vec::new(), error: None };
        assert(plan@ =~= PlanModel::of(Seq::empty()));
        if let Some(i) = find_active(&p.resolutions) {
            plan.push_command(write_dpi(version, &p.resolutions[i], dpi_step(info)).into_command());
        }
        let ghost dpi = plan@;
        if info.driver_config.macro_length != Some(0u32) {
            plan.push_command(write_buttons(version, self.quirks.is_senseiraw, &p.buttons));
        }
        let ghost before = plan@;
        let ghost planned_dpi = match active_resolution(p@.resolutions) {
            Some(r) => PlanModel::of(
                seq![dpi_report(version, r, driver::step_of(info@.driver_config)).command()],
            ),
            None => PlanModel::of(Seq::empty()),
        };
        assert(dpi =~= planned_dpi);
        let ghost buttons = if info@.driver_config.macro_length == Some(0u32) {
            PlanModel::of(Seq::empty())
        } else {
            PlanModel::of(
                seq![button::button_command(version, self.quirks.is_senseiraw, p@.buttons)],
            )
        };
        assert(before =~= planned_dpi.and(buttons));
        assert(p@.leds.len() == p.leds@.len());
        let mut i: usize = 0;
        while i < p.leds.len()
            invariant
                i <= p.leds@.len(),
                p@.leds.len() == p.leds@.len(),
                plan.error is None,
                before == planned_dpi.and(buttons),
                planned_dpi == match active_resolution(p@.resolutions) {
                    Some(r) => PlanModel::of(
                        seq![
                            dpi_report(version, r, driver::step_of(info@.driver_config)).command(),
                        ],
                    ),
                    None => PlanModel::of(Seq::empty()),
                },
                buttons == if info@.driver_config.macro_length == Some(0u32) {
                    PlanModel::of(Seq::empty())
                } else {
                    PlanModel::of(
                        seq![
                            button::button_command(version, self.quirks.is_senseiraw, p@.buttons),
                        ],
                    )
                },
                plan@ == led_plans(before, version, self.quirks, p@.leds, i as nat),
                version is V1 ==> led_numbers_fit(self.quirks, p@.leds),
                version is V1 ==> forall|j: int|
                    0 <= j < i ==> led::effect_v1(#[trigger] p@.leds[j]) is Some,
            decreases p.leds@.len() - i,
        {
            assert(p@.leds[i as int] == p.leds@[i as int]@);
            assert(version is V1 && led::effect_v1(p@.leds[i as int]) is Some ==> reaches_led(
                p@.leds,
                i as int,
            ));
            plan.add_led(version, self.quirks, &p.leds[i]);
            if plan.error.is_some() {
                proof {
                    lemma_failed_plan(
                        before,
                        version,
                        self.quirks,
                        p@.leds,
                        (i + 1) as nat,
                        p@.leds.len(),
                    );
                }
                return plan;
            }
            i += 1;
        }
        let ghost leds = plan@;
        plan.push_command(write_report_rate(version, p.report_rate).into_command());
        plan.push_command(write_save(version));
        assert(plan@ =~= leds.and(
            PlanModel::of(
                seq![rate_report(version, p@.report_rate).command(), save_command(version)],
            ),
        ));
        plan
    }

    fn led_numbers_fit(&self, p: &ProfileInfo) -> (r: bool)
        ensures
            r == led_numbers_fit(self.quirks, p@.leds),
    {
        assert(p@.leds.len() == p.leds@.len());
        let mut i: usize = 0;
        while i < p.leds.len()
            invariant
                i <= p.leds@.len(),
                p@.leds.len() == p.leds@.len(),
                forall|j: int| 0 <= j < i ==> led::effect_v1(#[trigger] p@.leds[j]) is Some,
                forall|j: int| 0 <= j < i ==> led::led_number_fits(self.quirks, #[trigger] p@.leds[j]),
            decreases p.leds@.len() - i,
        {
            assert(p@.leds[i as int] == p.leds@[i as int]@);
            let l = &p.leds[i];
            let written: bool = match l.mode {
                LedMode::Off | LedMode::Solid | LedMode::Breathing => true,
                _ => false,
            };
            if !written {
                assert(forall|k: int| i <= k ==> !(#[trigger] reaches_led(p@.leds, k)));
                return true;
            }
            if !(self.quirks.is_rival100 && !self.quirks.is_senseiraw) && l.index as u8 == 255 {
                assert(reaches_led(p@.leds, i as int));
                return false;
            }
            i += 1;
        }
        true
    }

    /// Whether the numbers of the profile that a commit writes can be written.
    pub fn fits(&self, info: &DeviceInfo) -> (r: bool)
        ensures
            r == (info@.profiles.len() > 0 ==> numbers_fit(*self, info@)),
    {
        assert(info@.profiles.len() == info.profiles@.len());
        if info.profiles.len() == 0 {
            return true;
        }
        let at: usize = find_written(&info.profiles);
        let p = &info.profiles[at];
        if let Some(i) = find_active(&p.resolutions) {
            if p.resolutions[i].index as u8 == 255 || dpi_step(info) == 0 {
                return false;
            }
        }
        match self.version {
            Some(ProtocolVersion::V1) => {},
            _ => {
                return true;
            },
        }
        self.led_numbers_fit(p)
    }

    /// What a commit comes to: the commands to send, and the error that comes
    /// after them, if one does.
    pub fn commit(&self, info: &DeviceInfo) -> (r: SteelseriesPlan)
        requires
            info@.profiles.len() > 0 ==> numbers_fit(*self, info@),
        ensures
            r@ == commit_plan(*self, info@),
    {
        assert(info@.profiles.len() == info.profiles@.len());
        if info.profiles.len() == 0 {
            let plan = SteelseriesPlan {
                sent: Vec::new(),
                error: Some(SteelseriesError::NoProfiles),
            };
            assert(plan@ =~= commit_plan(*self, info@));
            return plan;
        }
        let version = match self.version {
            Some(v) => v,
            None => {
                let plan = SteelseriesPlan {
                    sent: Vec::new(),
                    error: Some(SteelseriesError::NotLoaded),
                };
                assert(plan@ =~= commit_plan(*self, info@));
                return plan;
            },
        };
        let i: usize = find_written(&info.profiles);
        self.plan_profile(version, info, &info.profiles[i])
    }
}

/// A commit that does not fail ends by having the device keep its settings, and
/// one that fails does not have it do so.
pub proof fn only_a_whole_commit_is_saved(d: SteelseriesDriver, info: DeviceModel)
    requires
        info.profiles.len() > 0,
        d.version is Some,
    ensures
        commit_plan(d, info).error is None ==> commit_plan(d, info).sent.len() > 0 && commit_plan(
            d,
            info,
        ).sent.last() == save_command(d.version->0),
        commit_plan(d, info).error is Some ==> forall|i: int|
            0 <= i < commit_plan(d, info).sent.len() ==> (#[trigger] commit_plan(d, info).sent[i])
                .settle_ms == SETTLE_MS,
{
    let p = written_profile(info.profiles);
    let version = d.version->0;
    let dpi = match active_resolution(p.resolutions) {
        Some(r) => PlanModel::of(
            seq![dpi_report(version, r, driver::step_of(info.driver_config)).command()],
        ),
        None => PlanModel::of(Seq::empty()),
    };
    let buttons = if info.driver_config.macro_length == Some(0u32) {
        PlanModel::of(Seq::empty())
    } else {
        PlanModel::of(seq![button::button_command(version, d.quirks.is_senseiraw, p.buttons)])
    };
    lemma_led_delays(dpi.and(buttons), version, d.quirks, p.leds, p.leds.len());
}

proof fn lemma_led_delays(
    before: PlanModel,
    version: ProtocolVersion,
    quirks: DeviceQuirks,
    leds: Seq<LedModel>,
    n: nat,
)
    requires
        forall|i: int| 0 <= i < before.sent.len() ==> (#[trigger] before.sent[i]).settle_ms == SETTLE_MS,
    ensures
        forall|i: int|
            0 <= i < led_plans(before, version, quirks, leds, n).sent.len() ==> (
            #[trigger] led_plans(before, version, quirks, leds, n).sent[i]).settle_ms == SETTLE_MS,
    decreases n,
{
    if n > 0 {
        lemma_led_delays(before, version, quirks, leds, (n - 1) as nat);
    }
}

/// A commit fails exactly where an LED cannot be written: in version 4 any
/// LED, in version 1 one with a mode that it does not have.
pub proof fn commit_fails_for_leds_only(d: SteelseriesDriver, info: DeviceModel)
    requires
        info.profiles.len() > 0,
        d.version is Some,
    ensures
        ({
            let leds = written_profile(info.profiles).leds;
            commit_plan(d, info).error is None <==> match d.version->0 {
                ProtocolVersion::V1 => forall|i: int|
                    0 <= i < leds.len() ==> led::effect_v1(#[trigger] leds[i]) is Some,
                ProtocolVersion::V4 => leds.len() == 0,
                _ => true,
            }
        }),
{
    let p = written_profile(info.profiles);
    let version = d.version->0;
    let dpi = match active_resolution(p.resolutions) {
        Some(r) => PlanModel::of(
            seq![dpi_report(version, r, driver::step_of(info.driver_config)).command()],
        ),
        None => PlanModel::of(Seq::empty()),
    };
    let buttons = if info.driver_config.macro_length == Some(0u32) {
        PlanModel::of(Seq::empty())
    } else {
        PlanModel::of(seq![button::button_command(version, d.quirks.is_senseiraw, p.buttons)])
    };
    lemma_led_errors(dpi.and(buttons), version, d.quirks, p.leds, p.leds.len());
}

proof fn lemma_led_errors(
    before: PlanModel,
    version: ProtocolVersion,
    quirks: DeviceQuirks,
    leds: Seq<LedModel>,
    n: nat,
)
    requires
        before.error is None,
        n <= leds.len(),
    ensures
        led_plans(before, version, quirks, leds, n).error is None <==> match version {
            ProtocolVersion::V1 => forall|i: int|
                0 <= i < n ==> led::effect_v1(#[trigger] leds[i]) is Some,
            ProtocolVersion::V4 => n == 0,
            _ => true,
        },
    decreases n,
{
    if n > 0 {
        lemma_led_errors(before, version, quirks, leds, (n - 1) as nat);
    }
}

/// A resolution that version 2 was set to is the one that it reports, for
/// steps of 100.
pub proof fn resolution_reads_back(r: ResolutionModel, data: Seq<u8>)
    requires
        100 <= dpi_value(r.dpi) <= 25600,
        dpi_value(r.dpi) % 100 == 0,
        2 + r.index * 2 < data.len(),
        data[2 + r.index * 2] == scaled_dpi(dpi_value(r.dpi), 100),
    ensures
        driver::read_resolution(data, r).dpi == Dpi::Unified(dpi_value(r.dpi)),
{
}

/// The four report rates have different codes in every version.
pub proof fn rates_are_told_apart(version: ProtocolVersion, a: u32, b: u32)
    requires
        a == 125 || a == 250 || a == 500 || a == 1000,
        b == 125 || b == 250 || b == 500 || b == 1000,
        a != b,
    ensures
        rate_report(version, a).bytes != rate_report(version, b).bytes,
{
    assert(1000u32 / 125u32 == 8 && 1000u32 / 250u32 == 4 && 1000u32 / 500u32 == 2 && 1000u32
        / 1000u32 == 1);
    assert(rate_interval(a) != rate_interval(b));
    assert(rate_code(a) != rate_code(b));
    let at = 3;
    assert(rate_report(version, a).bytes[at] == if version is V1 || version is V4 {
        rate_code(a)
    } else {
        rate_interval(a)
    });
    assert(rate_report(version, b).bytes[at] == if version is V1 || version is V4 {
        rate_code(b)
    } else {
        rate_interval(b)
    });
}

} // verus!
