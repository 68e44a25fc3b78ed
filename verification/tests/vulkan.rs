use vulkys::vulkan::compute::{compute_output_is_expected, COMPUTE_ITEMS};
use vulkys::vulkan::events::{
    after_acquire, after_flush, handle_window_input, KeyBindings, SimulationFlags, WindowAction,
    WindowInput,
};
use vulkys::vulkan::frames::{
    on_redraw_event, redraw_after_acquire, redraw_after_flush, AcquireAction, AcquireOutcome,
    FlushAction, FlushOutcome, FrameFences, RedrawAction, RedrawEvent, RedrawFlags,
};
use vulkys::vulkan::selection::{
    choose_physical_device, device_kind_rank, graphics_queue_family_index, DeviceKind,
    PhysicalDeviceInfo, QueueFamilyInfo,
};

fn family(graphics: bool, surface_support: bool) -> QueueFamilyInfo {
    QueueFamilyInfo { graphics, surface_support }
}

fn device(supports_swapchain: bool, families: Vec<QueueFamilyInfo>, kind: DeviceKind) -> PhysicalDeviceInfo {
    PhysicalDeviceInfo { supports_swapchain, queue_families: families, kind }
}

#[test]
fn device_selection_prefers_known_types_then_order() {
    let devices = vec![
        device(true, vec![family(true, true)], DeviceKind::Other),
        device(false, vec![family(true, true)], DeviceKind::DiscreteGpu),
        device(true, vec![family(true, false), family(false, true)], DeviceKind::Cpu),
        device(true, vec![family(false, false), family(true, true)], DeviceKind::IntegratedGpu),
        device(true, vec![family(true, true)], DeviceKind::DiscreteGpu),
    ];
    assert_eq!(choose_physical_device(&devices), Some(3));
}

#[test]
fn device_selection_falls_back_to_other() {
    let devices = vec![device(true, vec![family(true, true)], DeviceKind::Other)];
    assert_eq!(choose_physical_device(&devices), Some(0));
    let none = vec![device(true, vec![family(true, false)], DeviceKind::DiscreteGpu)];
    assert_eq!(choose_physical_device(&none), None);
    assert_eq!(choose_physical_device(&Vec::new()), None);
}

#[test]
fn device_kind_ranks() {
    assert_eq!(device_kind_rank(DeviceKind::VirtualGpu), 0);
    assert_eq!(device_kind_rank(DeviceKind::Other), 4);
}

#[test]
fn graphics_family_is_first_with_graphics() {
    let fams = vec![family(false, true), family(true, false), family(true, true)];
    assert_eq!(graphics_queue_family_index(&fams), Some(1));
    assert_eq!(graphics_queue_family_index(&vec![family(false, true)]), None);
}

#[test]
fn window_keys_pause_and_resume() {
    let keys = KeyBindings::x86_64();
    assert_eq!((keys.quit, keys.pause, keys.resume), (16, 25, 19));
    let mut flags = SimulationFlags::new();
    assert_eq!(handle_window_input(&mut flags, &keys, WindowInput::MainEventsCleared), WindowAction::RenderFrame);
    assert_eq!(handle_window_input(&mut flags, &keys, WindowInput::Keyboard(25)), WindowAction::Nothing);
    assert!(flags.is_paused_flag);
    assert_eq!(handle_window_input(&mut flags, &keys, WindowInput::MainEventsCleared), WindowAction::Nothing);
    assert_eq!(handle_window_input(&mut flags, &keys, WindowInput::Keyboard(30)), WindowAction::LogKey(30));
    assert_eq!(handle_window_input(&mut flags, &keys, WindowInput::Keyboard(19)), WindowAction::Nothing);
    assert!(!flags.is_paused_flag);
    assert_eq!(handle_window_input(&mut flags, &keys, WindowInput::Keyboard(16)), WindowAction::ReportAndExit);
    assert_eq!(handle_window_input(&mut flags, &keys, WindowInput::CloseRequested), WindowAction::Exit);
    assert_eq!(handle_window_input(&mut flags, &keys, WindowInput::Other), WindowAction::Nothing);
}

#[test]
fn acquire_and_flush_outcomes() {
    let mut flags = SimulationFlags::new();
    let a = after_acquire(&mut flags, AcquireOutcome::Acquired { image_i: 2, suboptimal: true });
    assert_eq!(a, AcquireAction::Present(2));
    assert!(flags.recreate_swapchain_flag);
    assert_eq!(after_acquire(&mut flags, AcquireOutcome::OutOfDate), AcquireAction::Skip);
    assert!(flags.recreate_swapchain_flag);
    let _ = after_acquire(&mut flags, AcquireOutcome::Acquired { image_i: 0, suboptimal: false });
    assert!(!flags.recreate_swapchain_flag);
    assert_eq!(after_acquire(&mut flags, AcquireOutcome::Failed), AcquireAction::Abort);
    assert_eq!(after_flush(FlushOutcome::Flushed), FlushAction::KeepFence);
    assert_eq!(after_flush(FlushOutcome::OutOfDate), FlushAction::DropFence);
    assert_eq!(after_flush(FlushOutcome::Failed), FlushAction::LogAndDropFence);
}

#[test]
fn frame_fences_record_and_previous() {
    let mut fences: FrameFences<u32> = FrameFences::new(3);
    assert_eq!(fences.len(), 3);
    assert_eq!(fences.previous_fence(), &None);
    fences.record(2, Some(7));
    assert_eq!(fences.fence(2), &Some(7));
    assert_eq!(fences.previous_fence(), &Some(7));
    fences.record(1, None);
    assert_eq!(fences.previous_fence(), &None);
    assert_eq!(fences.fence(2), &Some(7));
}

#[test]
fn redraw_loop_resize_then_draw() {
    let mut flags = RedrawFlags::new();
    assert_eq!(
        on_redraw_event(&mut flags, RedrawEvent::MainEventsCleared),
        RedrawAction::Draw { recreate_swapchain: false, rebuild_pipeline: false }
    );
    assert_eq!(on_redraw_event(&mut flags, RedrawEvent::Resized), RedrawAction::Nothing);
    assert_eq!(on_redraw_event(&mut flags, RedrawEvent::Other), RedrawAction::Nothing);
    assert_eq!(
        on_redraw_event(&mut flags, RedrawEvent::MainEventsCleared),
        RedrawAction::Draw { recreate_swapchain: true, rebuild_pipeline: true }
    );
    assert_eq!(flags, RedrawFlags::new());
    assert_eq!(on_redraw_event(&mut flags, RedrawEvent::CloseRequested), RedrawAction::Exit);
}

#[test]
fn redraw_loop_stale_swapchain() {
    let mut flags = RedrawFlags::new();
    assert_eq!(redraw_after_acquire(&mut flags, AcquireOutcome::OutOfDate), AcquireAction::Skip);
    assert!(flags.recreate_swapchain);
    assert_eq!(
        on_redraw_event(&mut flags, RedrawEvent::MainEventsCleared),
        RedrawAction::Draw { recreate_swapchain: true, rebuild_pipeline: false }
    );
    assert_eq!(
        redraw_after_acquire(&mut flags, AcquireOutcome::Acquired { image_i: 1, suboptimal: false }),
        AcquireAction::Present(1)
    );
    assert!(!flags.recreate_swapchain);
    assert_eq!(redraw_after_flush(&mut flags, FlushOutcome::OutOfDate), FlushAction::DropFence);
    assert!(flags.recreate_swapchain);
    assert_eq!(redraw_after_flush(&mut flags, FlushOutcome::Failed), FlushAction::LogAndDropFence);
    assert_eq!(redraw_after_acquire(&mut flags, AcquireOutcome::Failed), AcquireAction::Abort);
}

#[test]
fn compute_output_check() {
    let good: Vec<u32> = (0..COMPUTE_ITEMS as u32).map(|n| n * 12).collect();
    assert!(compute_output_is_expected(&good));
    let mut bad = good.clone();
    bad[100] = 1;
    assert!(!compute_output_is_expected(&bad));
    assert!(compute_output_is_expected(&[]));
}

#[test]
fn compute_output_check_rejects_near_misses() {
    // 13 is not a multiple of 12; 24 is 2 * 12, at index 1 rather than 2.
    assert!(!compute_output_is_expected(&[0, 13]));
    assert!(!compute_output_is_expected(&[0, 12, 36]));
    assert!(compute_output_is_expected(&[0, 12, 24, 36]));
}
