use dgi::shell::adapter::{
    choose_adapter, find_adapter, AdapterPlan, Attempt, FailedStage, Next, Trials,
};
use dgi::shell::app::{on_window_event, AppAction, WindowInput};
use dgi::shell::config::{
    AdapterCache, AdapterInfo, Backend, ColdConfig, Config, HotConfig, MemoryPreference,
    PowerPreference,
};
use dgi::shell::context::{
    frame_action, present_mode, ContextState, FrameAction, InitError, PresentMode, RenderError,
    RenewPlan, Size, SurfaceStatus,
};
use dgi::shell::version::Version;

fn info(name: &str, backend: Backend) -> AdapterInfo {
    AdapterInfo { name: name.to_string(), backend }
}

fn cache(name: &str, backend: Backend) -> AdapterCache {
    AdapterCache::new(name.to_string(), backend)
}

#[test]
fn version_counts_generations() {
    let v = Version::new();
    assert_eq!(v.get(), 0);
    assert_eq!(v.next().get(), 1);
    assert_eq!(v.next().next().get(), 2);
    assert_ne!(v.next(), v);
}

#[test]
fn startup_configuration() {
    let c = Config::startup();
    assert!(!c.cold.debug);
    assert_eq!(c.cold.power_preference, PowerPreference::NoPreference);
    assert_eq!(c.cold.power_preference, PowerPreference::default());
    assert_eq!(c.cold.memory_hints, MemoryPreference::Performance);
    assert!(c.cold.adapter.is_none());
    assert!(!c.hot.vsync);
}

#[test]
fn configuration_equality_and_clone() {
    let a = Config::startup();
    let mut b = a.clone();
    assert!(a == b);
    b.hot.vsync = true;
    assert!(a != b);
    let mut c = a.clone();
    c.cold.adapter = Some(cache("gpu", Backend::Vulkan));
    assert!(a != c);
    let d = c.clone();
    assert!(c == d);
    let mut e = c.clone();
    e.cold.adapter = Some(cache("gpu", Backend::Gl));
    assert!(c != e);
}

#[test]
fn adapter_cache_matches_name_and_backend() {
    let c = cache("GeForce", Backend::Vulkan);
    assert_eq!(c.name(), "GeForce");
    assert_eq!(c.backend(), Backend::Vulkan);
    assert!(c.is_matched(&info("GeForce", Backend::Vulkan)));
    assert!(!c.is_matched(&info("GeForce", Backend::Dx12)));
    assert!(!c.is_matched(&info("Radeon", Backend::Vulkan)));
    let of = AdapterCache::of(&info("Radeon", Backend::Metal));
    assert!(of == cache("Radeon", Backend::Metal));
}

#[test]
fn find_adapter_skips_denied_ones() {
    let infos = vec![
        info("A", Backend::Vulkan),
        info("B", Backend::Vulkan),
        info("B", Backend::Gl),
        info("B", Backend::Vulkan),
    ];
    let wanted = cache("B", Backend::Vulkan);
    assert_eq!(find_adapter(&infos, &wanted, &vec![]), Some(1));
    assert_eq!(find_adapter(&infos, &wanted, &vec![cache("A", Backend::Vulkan)]), Some(1));
    assert_eq!(find_adapter(&infos, &wanted, &vec![cache("B", Backend::Vulkan)]), None);
    assert_eq!(find_adapter(&infos, &cache("C", Backend::Gl), &vec![]), None);
    assert_eq!(find_adapter(&vec![], &wanted, &vec![]), None);
}

#[test]
fn choose_adapter_falls_back() {
    let infos = vec![info("A", Backend::Vulkan), info("B", Backend::Metal)];
    assert_eq!(choose_adapter(&None, &infos, &vec![]), AdapterPlan::Fallback { warn: false });
    assert_eq!(
        choose_adapter(&Some(cache("B", Backend::Metal)), &infos, &vec![]),
        AdapterPlan::Cached(1)
    );
    assert_eq!(
        choose_adapter(&Some(cache("C", Backend::Metal)), &infos, &vec![]),
        AdapterPlan::Fallback { warn: true }
    );
    assert_eq!(
        choose_adapter(&Some(cache("B", Backend::Metal)), &infos, &vec![cache("B", Backend::Metal)]),
        AdapterPlan::Fallback { warn: true }
    );
}

#[test]
fn trials_report_each_adapter_with_its_reason() {
    let mut trials = Trials::new();
    assert!(trials.deny().is_empty());
    trials.reject(&info("A", Backend::Vulkan), FailedStage::Device, "out of memory");
    trials.reject(&info("B", Backend::Gl), FailedStage::Surface, "unsupported");
    assert_eq!(trials.deny().len(), 2);
    assert!(trials.deny()[0] == cache("A", Backend::Vulkan));
    let report = trials.into_report();
    assert_eq!(report.adapter_errors.len(), 2);
    assert!(report.adapter_errors[0].adapter == cache("A", Backend::Vulkan));
    assert_eq!(report.adapter_errors[0].message, "failed to init device: out of memory");
    assert!(report.adapter_errors[1].adapter == cache("B", Backend::Gl));
    assert_eq!(report.adapter_errors[1].message, "failed to init surface: unsupported");
}

#[test]
fn each_attempt_decides_what_comes_next() {
    let mut trials = Trials::new();
    let failed = Attempt::Failed(info("A", Backend::Vulkan), FailedStage::Surface, s("gone"));
    assert_eq!(trials.settle(failed), Next::TryAnother);
    assert_eq!(trials.deny().len(), 1);
    assert!(trials.deny()[0] == cache("A", Backend::Vulkan));
    assert_eq!(trials.settle(Attempt::Ready), Next::Finish);
    assert_eq!(trials.settle(Attempt::NoAdapter), Next::GiveUp);
    assert_eq!(trials.deny().len(), 1);
    let report = trials.into_report();
    assert_eq!(report.adapter_errors[0].message, "failed to init surface: gone");
}

fn s(t: &str) -> String {
    t.to_string()
}

fn built_state() -> ContextState {
    let mut trials = Trials::new();
    trials.reject(&info("Bad", Backend::Dx12), FailedStage::Device, "lost");
    ContextState::new(
        Config::startup(),
        &info("Good", Backend::Vulkan),
        trials,
        Size { width: 800, height: 600 },
    )
}

#[test]
fn context_state_caches_the_chosen_adapter() {
    let state = built_state();
    let expected = cache("Good", Backend::Vulkan);
    assert!(state.config().cold.adapter.as_ref().unwrap() == &expected);
    assert_eq!(state.cold_version().get(), 0);
    assert_eq!(state.hot_version().get(), 0);
    assert_eq!(state.size(), Size { width: 800, height: 600 });
    assert_eq!(state.report().adapter_errors.len(), 1);
    assert_eq!(state.report().adapter_errors[0].message, "failed to init device: lost");
}

#[test]
fn renewing_with_the_same_configuration_keeps_everything() {
    let state = built_state();
    let same = state.config().clone();
    assert!(matches!(state.plan_renew(Some(same)), RenewPlan::Keep));
}

#[test]
fn renewing_surface_settings_reconfigures() {
    let mut state = built_state();
    let mut asked = state.config().clone();
    asked.hot = HotConfig { vsync: true };
    match state.plan_renew(Some(asked)) {
        RenewPlan::Reconfigure(c) => {
            assert!(c.hot.vsync);
            state.reconfigure(c);
        }
        other => panic!("expected a reconfiguration, got {:?}", other),
    }
    assert!(state.config().hot.vsync);
    assert_eq!(state.hot_version().get(), 1);
    assert_eq!(state.cold_version().get(), 0);
}

#[test]
fn renewing_device_settings_rebuilds() {
    let state = built_state();
    let mut asked = state.config().clone();
    asked.cold.debug = true;
    match state.plan_renew(Some(asked)) {
        RenewPlan::Rebuild(c) => assert!(c.cold.debug),
        other => panic!("expected a rebuild, got {:?}", other),
    }
    match state.plan_renew(None) {
        RenewPlan::Rebuild(c) => assert!(&c == state.config()),
        other => panic!("expected a rebuild, got {:?}", other),
    }
}

#[test]
fn rebuilt_context_follows_the_old_generations() {
    let old = built_state();
    let mut fresh = built_state();
    fresh.follow(old.cold_version(), old.hot_version().next());
    assert_eq!(fresh.cold_version().get(), 1);
    assert_eq!(fresh.hot_version().get(), 2);
}

#[test]
fn resize_and_render_gate() {
    let mut state = built_state();
    assert!(state.should_render());
    state.resize(Size { width: 0, height: 600 });
    assert!(!state.should_render());
    state.resize(Size { width: 10, height: 0 });
    assert!(!state.should_render());
    state.resize(Size { width: 1, height: 1 });
    assert!(state.should_render());
    assert_eq!(state.size(), Size { width: 1, height: 1 });
}

#[test]
fn frame_actions() {
    assert_eq!(frame_action(SurfaceStatus::Success), FrameAction::Draw);
    assert_eq!(frame_action(SurfaceStatus::Suboptimal), FrameAction::Reconfigure);
    assert_eq!(frame_action(SurfaceStatus::Outdated), FrameAction::Reconfigure);
    assert_eq!(frame_action(SurfaceStatus::Timeout), FrameAction::Skip);
    assert_eq!(frame_action(SurfaceStatus::Occluded), FrameAction::Skip);
    assert_eq!(frame_action(SurfaceStatus::Validation), FrameAction::Skip);
    assert_eq!(frame_action(SurfaceStatus::Lost), FrameAction::Lost);
}

#[test]
fn present_modes() {
    assert_eq!(present_mode(&HotConfig { vsync: true }), PresentMode::AutoVsync);
    assert_eq!(present_mode(&HotConfig { vsync: false }), PresentMode::AutoNoVsync);
}

#[test]
fn window_events() {
    let size = Size { width: 3, height: 4 };
    assert_eq!(on_window_event(false, WindowInput::CloseRequested), AppAction::NotReady);
    assert_eq!(on_window_event(false, WindowInput::Resized(size)), AppAction::NotReady);
    assert_eq!(on_window_event(true, WindowInput::CloseRequested), AppAction::Exit);
    assert_eq!(on_window_event(true, WindowInput::RedrawRequested), AppAction::Render);
    assert_eq!(on_window_event(true, WindowInput::Resized(size)), AppAction::Resize(size));
    assert_eq!(on_window_event(true, WindowInput::Other), AppAction::Nothing);
}

#[test]
fn error_messages() {
    assert_eq!(InitError::NoAvailableAdapter.message(), "there is no available adapter");
    assert_eq!(RenderError::DeviceLost.message(), "device lost");
}

#[test]
fn cold_config_literal() {
    let cold = ColdConfig {
        debug: true,
        power_preference: PowerPreference::HighPerformance,
        memory_hints: MemoryPreference::MemoryUsage,
        adapter: None,
    };
    let copy = cold.clone();
    assert!(cold == copy);
    assert_eq!(copy.memory_hints, MemoryPreference::MemoryUsage);
}
