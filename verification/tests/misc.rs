use copernicus_viewer::debug_text::{i64_text, opt_json_debug_text, strings_debug_text, u64_text, u64s_debug_text};
use copernicus_viewer::demo_capture::{finish_message, DemoAction, DemoCapture, DemoEffect, DemoObservation, DemoStep};
use copernicus_viewer::help_dialog::HelpDialog;
use copernicus_viewer::json::{JsonNumber, JsonValue};
use copernicus_viewer::json_text::json_compact_text;
use copernicus_viewer::numparse::{parse_i64, parse_u64_radix};
use copernicus_viewer::platform::{
    is_wsl_from, needs_xkb_check, software_request_ignored, use_wayland, zarr_native_pick_for_hint, Acceleration,
    GpuProfile, RendererKind, ZarrNativePick,
};

fn s(x: &str) -> Option<String> {
    Some(x.to_string())
}

#[test]
fn renderer_defaults_follow_the_host() {
    assert_eq!(GpuProfile::detect(&None, true, true), GpuProfile::WslGpu);
    assert_eq!(GpuProfile::detect(&None, true, false), GpuProfile::Software);
    assert_eq!(GpuProfile::detect(&None, false, false), GpuProfile::Native);
    assert_eq!(GpuProfile::detect(&s("auto"), true, false), GpuProfile::Software);
    assert_eq!(GpuProfile::detect(&s("software"), true, true), GpuProfile::WslGpu);
    assert!(software_request_ignored(&s("software"), true, true));
    assert_eq!(GpuProfile::detect(&s("native"), true, true), GpuProfile::Native);
    assert_eq!(GpuProfile::detect(&s("hardware"), false, false), GpuProfile::Native);
    assert_eq!(GpuProfile::Native.renderer(), RendererKind::Wgpu);
    assert_eq!(GpuProfile::Software.renderer(), RendererKind::Glow);
    assert_eq!(GpuProfile::Software.hardware_acceleration(), Acceleration::Off);
    assert!(!GpuProfile::Software.vsync(true, false));
    assert!(GpuProfile::Software.needs_mesa_software_env(false));
}

#[test]
fn host_detection_helpers() {
    assert!(use_wayland(&s("wayland-0"), &None));
    assert!(!use_wayland(&s(""), &None));
    assert!(is_wsl_from(&s("Linux version 5.15 (Microsoft)")));
    assert!(!is_wsl_from(&None));
    assert!(needs_xkb_check(false, &s(":0")));
    assert!(!needs_xkb_check(true, &s(":0")));
    assert_eq!(zarr_native_pick_for_hint(" /a/b.zarr.zip "), ZarrNativePick::ZipArchive);
    assert_eq!(zarr_native_pick_for_hint("/a/b.zarr"), ZarrNativePick::Directory);
}

#[test]
fn about_dialog_state() {
    let mut d = HelpDialog::new();
    assert!(!d.is_open());
    d.show();
    assert!(d.is_open());
    d.after_frame(true, false);
    assert!(d.is_open());
    d.after_frame(true, true);
    assert!(!d.is_open());
}

fn obs(stores: bool, lst: bool, plot: bool, cmp: bool) -> DemoObservation {
    DemoObservation { stores_ready: stores, first_has_lst: lst, plot_ready: plot, comparison_has_result: cmp }
}

#[test]
fn demo_capture_runs_through_two_shots() {
    assert!(DemoCapture::from_env(&s("  ")).is_none());
    let mut d = DemoCapture::from_env(&s("/tmp/shots")).expect("demo");
    assert_eq!(d.tick(obs(false, false, false, false)), (None, DemoEffect::Nothing));
    assert_eq!(d.tick(obs(true, true, false, false)), (Some(DemoAction::SelectLst), DemoEffect::Nothing));
    d.tick(obs(true, true, true, false));
    assert_eq!(d.step, DemoStep::WaitFrames);
    for _ in 0..8 {
        assert_eq!(d.tick(obs(true, true, true, false)).1, DemoEffect::Nothing);
    }
    assert_eq!(d.tick(obs(true, true, true, false)).1, DemoEffect::RequestShot("01-explore-lst.png".to_string()));
    assert!(d.screenshot_arrived("01-explore-lst.png", true));
    assert_eq!(d.tick(obs(true, true, true, false)).0, Some(DemoAction::RunComparison));
    d.tick(obs(true, true, true, true));
    for _ in 0..8 {
        d.tick(obs(true, true, true, true));
    }
    assert_eq!(d.tick(obs(true, true, true, true)).1, DemoEffect::RequestShot("02-comparison.png".to_string()));
    assert!(!d.screenshot_arrived("other.png", true));
    assert!(d.screenshot_arrived("02-comparison.png", true));
    assert_eq!(d.tick(obs(true, true, true, true)), (Some(DemoAction::Close), DemoEffect::Finish));
    assert_eq!(d.shots_saved, 2);
    assert_eq!(finish_message(2), "Demo capture: finished (2 screenshots)");
    assert_eq!(finish_message(1), "Demo capture: finished (1 screenshot)");
    let mut missing = DemoCapture::from_env(&s("/tmp/shots")).expect("demo");
    assert_eq!(missing.tick(obs(true, false, false, false)), (None, DemoEffect::MissingLstAndFinish));
}

#[test]
fn number_parsing() {
    let c = |t: &str| t.chars().collect::<Vec<char>>();
    assert_eq!(parse_u64_radix(&c("ff"), 16), Some(255));
    assert_eq!(parse_u64_radix(&c("101"), 2), Some(5));
    assert_eq!(parse_u64_radix(&c("18446744073709551616"), 10), None);
    assert_eq!(parse_i64(&c("-42")), Some(-42));
    assert_eq!(parse_i64(&c("x")), None);
}

#[test]
fn debug_texts() {
    assert_eq!(u64_text(1234), "1234");
    assert_eq!(i64_text(i64::MIN), "-9223372036854775808");
    assert_eq!(u64s_debug_text(&[1, 2]), "[1, 2]");
    assert_eq!(strings_debug_text(&vec!["a\"b".to_string()]), "[\"a\\\"b\"]");
    assert_eq!(strings_debug_text(&vec!["x\n".to_string()]), "[\"x\\n\"]");
    assert_eq!(opt_json_debug_text(&None), "None");
    assert_eq!(
        opt_json_debug_text(&Some(JsonValue::Array(vec![JsonValue::Null, JsonValue::Bool(true)]))),
        "Some(Array [Null, Bool(true)])"
    );
}

#[test]
fn json_texts() {
    assert_eq!(json_compact_text(&JsonValue::Str("a\"b\\c\n\u{1}".to_string())), "\"a\\\"b\\\\c\\n\\u0001\"");
    let v = JsonValue::Object(vec![
        ("a".to_string(), JsonValue::Array(vec![JsonValue::Number(JsonNumber::PosInt(1)), JsonValue::Null])),
        ("b".to_string(), JsonValue::Number(JsonNumber::Float("1.5".to_string()))),
    ]);
    assert_eq!(json_compact_text(&v), "{\"a\":[1,null],\"b\":1.5}");
}
