use vstd::prelude::*;
use crate::shell::adapter::{Report, Trials};
use crate::shell::config::{
    AdapterCache, AdapterCacheView, AdapterInfo, ColdConfigView, Config, ConfigView, HotConfig,
};
use crate::shell::version::{successor, Version};

verus! {

/// The size of the window's drawable area, in physical pixels.
#[derive(Copy, Clone, Debug, PartialEq, Eq, Structural)]
pub struct Size {
    pub width: u32,
    pub height: u32,
}

/// Why a context could not be built.
#[derive(Copy, Clone, Debug, PartialEq, Eq, Structural)]
pub enum InitError {
    NoAvailableAdapter,
}

impl InitError {
    /// The text of the error.
    pub fn message(&self) -> (r: &'static str)
        ensures
            r@ == "there is no available adapter"@,
    {
        "there is no available adapter"
    }
}

/// Why a frame could not be drawn.
#[derive(Copy, Clone, Debug, PartialEq, Eq, Structural)]
pub enum RenderError {
    DeviceLost,
}

impl RenderError {
    /// The text of the error.
    pub fn message(&self) -> (r: &'static str)
        ensures
            r@ == "device lost"@,
    {
        "device lost"
    }
}

/// The configuration after a build that settled on the adapter `chosen`: the given
/// configuration, with `chosen` as the cached adapter.
pub open spec fn settled(config: ConfigView, chosen: AdapterInfo) -> ConfigView {
    ConfigView {
        cold: ColdConfigView {
            adapter: Some(AdapterCacheView { name: chosen.name@, backend: chosen.backend }),
            ..config.cold
        },
        ..config
    }
}

/// Law: building a context keeps the configuration it was given, down to every setting,
/// and only records the chosen adapter as the cached one.
pub proof fn building_keeps_the_given_configuration(config: ConfigView, chosen: AdapterInfo)
    ensures
        settled(config, chosen).hot == config.hot,
        settled(config, chosen).cold.debug == config.cold.debug,
        settled(config, chosen).cold.power_preference == config.cold.power_preference,
        settled(config, chosen).cold.memory_hints == config.cold.memory_hints,
        settled(config, chosen).cold.adapter == Some(
            AdapterCacheView { name: chosen.name@, backend: chosen.backend },
        ),
{
}

/// What a renewal of the context does.
#[derive(Debug)]
pub enum RenewPlan {
    /// Build a new instance, adapter, device and surface with this configuration.
    Rebuild(Config),
    /// Keep the device and reconfigure the surface with this configuration.
    Reconfigure(Config),
    /// Nothing changes.
    Keep,
}

/// Which kind of renewal a new configuration calls for.
#[derive(Copy, Clone, Debug, PartialEq, Eq, Structural)]
pub enum RenewKind {
    Rebuild,
    Reconfigure,
    Keep,
}

/// The renewal for the configuration in force `current` and the one asked for: a rebuild
/// when none is asked for or the device settings differ, a reconfiguration when only the
/// surface settings differ, and nothing otherwise.
pub open spec fn renew_kind(current: ConfigView, asked: Option<ConfigView>) -> RenewKind {
    match asked {
        None => RenewKind::Rebuild,
        Some(n) => if n.cold != current.cold {
            RenewKind::Rebuild
        } else if n.hot != current.hot {
            RenewKind::Reconfigure
        } else {
            RenewKind::Keep
        },
    }
}

/// The kind of a renewal plan.
pub open spec fn plan_kind(p: RenewPlan) -> RenewKind {
    match p {
        RenewPlan::Rebuild(_) => RenewKind::Rebuild,
        RenewPlan::Reconfigure(_) => RenewKind::Reconfigure,
        RenewPlan::Keep => RenewKind::Keep,
    }
}

/// The view of an optional configuration.
pub open spec fn config_view(c: Option<Config>) -> Option<ConfigView> {
    match c {
        Some(c) => Some(c@),
        None => None,
    }
}

/// Law: asking for the configuration already in force changes nothing; asking for none
/// rebuilds; and a change of the surface settings alone never rebuilds the device.
pub proof fn renewal_changes_only_what_differs(current: ConfigView, asked: ConfigView)
    ensures
        asked == current ==> renew_kind(current, Some(asked)) == RenewKind::Keep,
        renew_kind(current, None) == RenewKind::Rebuild,
        asked.cold == current.cold && asked.hot != current.hot ==> renew_kind(
            current,
            Some(asked),
        ) == RenewKind::Reconfigure,
        renew_kind(current, Some(asked)) == RenewKind::Keep ==> asked == current,
{
}

/// The part of the rendering context that the library decides on: the generations of
/// the device and surface settings, the build report, the configuration and the size.
#[derive(Debug)]
pub struct ContextState {
    cold_version: Version,
    hot_version: Version,
    report: Report,
    config: Config,
    size: Size,
}

impl ContextState {
    /// Generation of the settings that need a new device.
    pub closed spec fn spec_cold_version(self) -> usize {
        self.cold_version@
    }

    /// Generation of the settings of the surface.
    pub closed spec fn spec_hot_version(self) -> usize {
        self.hot_version@
    }

    /// The configuration in force.
    pub closed spec fn spec_config(self) -> ConfigView {
        self.config@
    }

    /// The current size.
    pub closed spec fn spec_size(self) -> Size {
        self.size
    }

    /// The report of the build.
    pub closed spec fn spec_report(self) -> Report {
        self.report
    }

    /// The state of a context just built on the adapter `chosen`, after giving up the
    /// adapters recorded in `trials`: the chosen adapter becomes the cached one, the
    /// given-up adapters and their reasons make the report, and both generations start at 0.
    pub fn new(config: Config, chosen: &AdapterInfo, trials: Trials, size: Size) -> (r: Self)
        requires
            trials.wf(),
        ensures
            r.spec_config() == settled(config@, *chosen),
            r.spec_config().hot == config@.hot,
            r.spec_config().cold.debug == config@.cold.debug,
            r.spec_config().cold.power_preference == config@.cold.power_preference,
            r.spec_config().cold.memory_hints == config@.cold.memory_hints,
            r.spec_config().cold.adapter == Some(
                AdapterCacheView { name: chosen.name@, backend: chosen.backend },
            ),
            r.spec_cold_version() == 0,
            r.spec_hot_version() == 0,
            r.spec_size() == size,
            r.spec_report().adapter_errors.len() == trials.spec_deny().len(),
            forall|i: int|
                0 <= i < r.spec_report().adapter_errors.len() ==> (
                #[trigger] r.spec_report().adapter_errors@[i]).adapter@ == trials.spec_deny()[i]@
                    && r.spec_report().adapter_errors@[i].message == trials.spec_errors()[i],
    {
        let mut config = config;
        config.cold.adapter = Some(AdapterCache::of(chosen));
        ContextState {
            cold_version: Version::new(),
            hot_version: Version::new(),
            report: trials.into_report(),
            config,
            size,
        }
    }

    /// The configuration in force.
    pub fn config(&self) -> (r: &Config)
        ensures
            r@ == self.spec_config(),
    {
        &self.config
    }

    /// The current size.
    pub fn size(&self) -> (r: Size)
        ensures
            r == self.spec_size(),
    {
        self.size
    }

    /// The report of the build.
    pub fn report(&self) -> (r: &Report)
        ensures
            *r == self.spec_report(),
    {
        &self.report
    }

    /// Generation of the settings that need a new device.
    pub fn cold_version(&self) -> (r: Version)
        ensures
            r@ == self.spec_cold_version(),
    {
        self.cold_version
    }

    /// Generation of the settings of the surface.
    pub fn hot_version(&self) -> (r: Version)
        ensures
            r@ == self.spec_hot_version(),
    {
        self.hot_version
    }

    /// What renewing the context with `config` does: a rebuild when the device settings
    /// change, a surface reconfiguration when only the surface settings change, nothing
    /// when nothing changes, and a rebuild with the configuration in force when none is given.
    pub fn plan_renew(&self, config: Option<Config>) -> (r: RenewPlan)
        ensures
            plan_kind(r) == renew_kind(self.spec_config(), config_view(config)),
            config is None ==> (r matches RenewPlan::Rebuild(c) && c@ == self.spec_config()),
            config matches Some(n) ==> {
                if n@.cold != self.spec_config().cold {
                    (r matches RenewPlan::Rebuild(c) && c@ == n@)
                } else if n@.hot != self.spec_config().hot {
                    (r matches RenewPlan::Reconfigure(c) && c@ == n@)
                } else {
                    r is Keep
                }
            },
    {
        match config {
            Some(config) => {
                if config.cold != self.config.cold {
                    RenewPlan::Rebuild(config)
                } else if config.hot != self.config.hot {
                    RenewPlan::Reconfigure(config)
                } else {
                    RenewPlan::Keep
                }
            },
            None => RenewPlan::Rebuild(self.config.clone()),
        }
    }

    /// Takes a configuration whose surface settings changed: the configuration is replaced
    /// and the surface generation advances.
    pub fn reconfigure(&mut self, config: Config)
        ensures
            final(self).spec_config() == config@,
            final(self).spec_hot_version() == successor(old(self).spec_hot_version()),
            final(self).spec_cold_version() == old(self).spec_cold_version(),
            final(self).spec_size() == old(self).spec_size(),
            final(self).spec_report() == old(self).spec_report(),
    {
        self.config = config;
        self.hot_version = self.hot_version.next();
    }

    /// Takes over from the context this one was rebuilt from: both generations advance
    /// past the ones it had.
    pub fn follow(&mut self, cold: Version, hot: Version)
        ensures
            final(self).spec_cold_version() == successor(cold@),
            final(self).spec_hot_version() == successor(hot@),
            final(self).spec_config() == old(self).spec_config(),
            final(self).spec_size() == old(self).spec_size(),
            final(self).spec_report() == old(self).spec_report(),
    {
        self.cold_version = cold.next();
        self.hot_version = hot.next();
    }

    /// Takes a new window size.
    pub fn resize(&mut self, size: Size)
        ensures
            final(self).spec_size() == size,
            final(self).spec_config() == old(self).spec_config(),
            final(self).spec_cold_version() == old(self).spec_cold_version(),
            final(self).spec_hot_version() == old(self).spec_hot_version(),
            final(self).spec_report() == old(self).spec_report(),
    {
        self.size = size;
    }

    /// Whether a frame is drawn at the current size: not when the window has no area.
    pub fn should_render(&self) -> (r: bool)
        ensures
            r == (self.spec_size().width != 0 && self.spec_size().height != 0),
    {
        self.size.width != 0 && self.size.height != 0
    }
}

/// What getting the next surface texture reported.
#[derive(Copy, Clone, Debug, PartialEq, Eq, Structural)]
pub enum SurfaceStatus {
    Success,
    Suboptimal,
    Timeout,
    Occluded,
    Outdated,
    Lost,
    Validation,
}

/// What to do with the frame after getting the next surface texture.
#[derive(Copy, Clone, Debug, PartialEq, Eq, Structural)]
pub enum FrameAction {
    /// Draw into the texture and present it.
    Draw,
    /// Skip this frame.
    Skip,
    /// Skip this frame and configure the surface again.
    Reconfigure,
    /// Fail with `RenderError::DeviceLost`.
    Lost,
}

/// The frame decision for each status: draw on success; reconfigure when the texture is
/// suboptimal or the surface outdated; fail when the surface is lost; otherwise skip.
pub fn frame_action(status: SurfaceStatus) -> (r: FrameAction)
    ensures
        r == (match status {
            SurfaceStatus::Success => FrameAction::Draw,
            SurfaceStatus::Suboptimal => FrameAction::Reconfigure,
            SurfaceStatus::Outdated => FrameAction::Reconfigure,
            SurfaceStatus::Lost => FrameAction::Lost,
            SurfaceStatus::Timeout => FrameAction::Skip,
            SurfaceStatus::Occluded => FrameAction::Skip,
            SurfaceStatus::Validation => FrameAction::Skip,
        }),
{
    match status {
        SurfaceStatus::Success => FrameAction::Draw,
        SurfaceStatus::Suboptimal => FrameAction::Reconfigure,
        SurfaceStatus::Outdated => FrameAction::Reconfigure,
        SurfaceStatus::Lost => FrameAction::Lost,
        SurfaceStatus::Timeout => FrameAction::Skip,
        SurfaceStatus::Occluded => FrameAction::Skip,
        SurfaceStatus::Validation => FrameAction::Skip,
    }
}

/// How frames are presented.
#[derive(Copy, Clone, Debug, PartialEq, Eq, Structural)]
pub enum PresentMode {
    AutoVsync,
    AutoNoVsync,
}

/// The presentation mode for the surface settings: synchronised with the display only
/// when vertical sync is asked for.
pub fn present_mode(hint: &HotConfig) -> (r: PresentMode)
    ensures
        r == (if hint.vsync {
            PresentMode::AutoVsync
        } else {
            PresentMode::AutoNoVsync
        }),
{
    if hint.vsync {
        PresentMode::AutoVsync
    } else {
        PresentMode::AutoNoVsync
    }
}

} // verus!
