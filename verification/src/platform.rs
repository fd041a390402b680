//! Choosing the GPU / OpenGL profile and the native picker.
//!
//! The environment and the host are read by the caller; the decisions are
//! made here from what it found.
use vstd::prelude::*;

use crate::text::{chars_trim, contains_sub, seq_ends_with, str_chars, str_contains, str_ends_with, string_from_chars, trim_ws};

verus! {

/// What `str::to_lowercase` gives for a text (Unicode lower-case mapping).
pub uninterp spec fn lowercase_of(s: Seq<char>) -> Seq<char>;

/// `str::to_lowercase`.
#[verifier::external_body]
pub(crate) fn str_to_lowercase(s: &str) -> (r: String)
    ensures
        r@ == lowercase_of(s@),
{
    s.to_lowercase()
}

/// OpenGL / GPU profile selected from the environment and host OS.
#[derive(Clone, Copy, Debug, PartialEq, Eq, Structural)]
pub enum GpuProfile {
    /// Mesa llvmpipe + Glow — WSL over X11 (stable).
    Software,
    /// Glow + WSLg GPU — default on WSL Wayland.
    WslGpu,
    /// wgpu — Linux desktop, macOS, and Windows.
    Native,
}

/// Rendering backend of a profile.
#[derive(Clone, Copy, Debug, PartialEq, Eq, Structural)]
pub enum RendererKind {
    Wgpu,
    Glow,
}

/// Hardware acceleration setting of a profile.
#[derive(Clone, Copy, Debug, PartialEq, Eq, Structural)]
pub enum Acceleration {
    Off,
    Preferred,
}

/// The profile for the `COPERNICUS_VIEWER_GL` setting on a host.
pub open spec fn spec_detect(gl: Option<Seq<char>>, wsl: bool, wayland: bool) -> GpuProfile {
    if gl == Some("software"@) {
        if wsl && wayland {
            GpuProfile::WslGpu
        } else {
            GpuProfile::Software
        }
    } else if gl == Some("hardware"@) {
        if wsl {
            GpuProfile::WslGpu
        } else {
            GpuProfile::Native
        }
    } else if gl == Some("native"@) || gl == Some("wgpu"@) {
        GpuProfile::Native
    } else if wsl {
        if wayland {
            GpuProfile::WslGpu
        } else {
            GpuProfile::Software
        }
    } else {
        GpuProfile::Native
    }
}

/// The renderer table of the documentation: without a setting (or with
/// `auto`), WSLg gets Glow on the GPU, WSL over X11 gets Glow with software
/// rendering, and every other host gets wgpu; `native` is `wgpu`; asking
/// for software rendering on WSLg gives Glow on the GPU.
pub proof fn lemma_renderer_table(wsl: bool, wayland: bool)
    ensures
        spec_detect(Some("auto"@), wsl, wayland) == spec_detect(None, wsl, wayland),
        spec_detect(Some("native"@), wsl, wayland) == spec_detect(Some("wgpu"@), wsl, wayland),
        wsl && wayland ==> spec_detect(None, wsl, wayland) == GpuProfile::WslGpu,
        wsl && !wayland ==> spec_detect(None, wsl, wayland) == GpuProfile::Software,
        !wsl ==> spec_detect(None, wsl, wayland) == GpuProfile::Native,
        wsl && wayland ==> spec_detect(Some("software"@), wsl, wayland) == GpuProfile::WslGpu,
{
    reveal_strlit("auto");
    reveal_strlit("software");
    reveal_strlit("hardware");
    reveal_strlit("native");
    reveal_strlit("wgpu");
    assert("auto"@ != "software"@) by {
        assert("auto"@[0] != "software"@[0]);
    }
    assert("auto"@ != "hardware"@) by {
        assert("auto"@.len() != "hardware"@.len());
    }
    assert("auto"@ != "native"@) by {
        assert("auto"@.len() != "native"@.len());
    }
    assert("auto"@ != "wgpu"@) by {
        assert("auto"@[0] != "wgpu"@[0]);
    }
    assert("native"@ != "software"@) by {
        assert("native"@.len() != "software"@.len());
    }
    assert("native"@ != "hardware"@) by {
        assert("native"@.len() != "hardware"@.len());
    }
    assert("wgpu"@ != "software"@) by {
        assert("wgpu"@.len() != "software"@.len());
    }
    assert("wgpu"@ != "hardware"@) by {
        assert("wgpu"@.len() != "hardware"@.len());
    }
}

pub open spec fn opt_view(o: Option<String>) -> Option<Seq<char>> {
    match o {
        Some(s) => Some(s@),
        None => None,
    }
}

impl GpuProfile {
    /// The profile for the value of `COPERNICUS_VIEWER_GL` (`None` when unset),
    /// whether the host is WSL, and whether a Wayland session is present:
    /// `software` (Glow + GPU on WSLg, where llvmpipe cannot run), `hardware`,
    /// `native`/`wgpu`, and otherwise automatic.
    pub fn detect(gl: &Option<String>, wsl: bool, wayland: bool) -> (r: GpuProfile)
        ensures
            r == spec_detect(opt_view(*gl), wsl, wayland),
    {
        let v: &str = match gl {
            Some(s) => s.as_str(),
            None => "",
        };
        proof {
            reveal_strlit("");
            reveal_strlit("software");
            reveal_strlit("hardware");
            reveal_strlit("native");
            reveal_strlit("wgpu");
        }
        let set = gl.is_some();
        if set && crate::text::str_is(v, "software") {
            if wsl && wayland {
                GpuProfile::WslGpu
            } else {
                GpuProfile::Software
            }
        } else if set && crate::text::str_is(v, "hardware") {
            if wsl {
                GpuProfile::WslGpu
            } else {
                GpuProfile::Native
            }
        } else if set && (crate::text::str_is(v, "native") || crate::text::str_is(v, "wgpu")) {
            GpuProfile::Native
        } else if wsl {
            if wayland {
                GpuProfile::WslGpu
            } else {
                GpuProfile::Software
            }
        } else {
            GpuProfile::Native
        }
    }

    /// wgpu natively, Glow otherwise.
    pub fn renderer(self) -> (r: RendererKind)
        ensures
            r == (if self == GpuProfile::Native {
                RendererKind::Wgpu
            } else {
                RendererKind::Glow
            }),
    {
        match self {
            GpuProfile::Native => RendererKind::Wgpu,
            _ => RendererKind::Glow,
        }
    }

    /// Acceleration is off only for software rendering.
    pub fn hardware_acceleration(self) -> (r: Acceleration)
        ensures
            r == (if self == GpuProfile::Software {
                Acceleration::Off
            } else {
                Acceleration::Preferred
            }),
    {
        match self {
            GpuProfile::Software => Acceleration::Off,
            _ => Acceleration::Preferred,
        }
    }

    /// Vsync, except for software rendering on WSL over X11.
    pub fn vsync(self, wsl: bool, wayland: bool) -> (r: bool)
        ensures
            r == !(self == GpuProfile::Software && wsl && !wayland),
    {
        !(self == GpuProfile::Software && wsl && !wayland)
    }

    /// Mesa llvmpipe variables are set for software rendering on X11 only.
    pub fn needs_mesa_software_env(self, wayland: bool) -> (r: bool)
        ensures
            r == (self == GpuProfile::Software && !wayland),
    {
        self == GpuProfile::Software && !wayland
    }
}

/// Whether a Wayland session is present: `WAYLAND_DISPLAY` or
/// `WAYLAND_SOCKET` set and not empty.
pub fn use_wayland(display: &Option<String>, socket: &Option<String>) -> (r: bool)
    ensures
        r == ((display matches Some(d) && d@.len() > 0) || (socket matches Some(s) && s@.len() > 0)),
{
    let a = match display {
        Some(d) => !d.as_str().is_empty(),
        None => false,
    };
    let b = match socket {
        Some(s) => !s.as_str().is_empty(),
        None => false,
    };
    a || b
}

/// Whether the host is WSL: the kernel version text, lower-cased, mentions
/// `microsoft` (`None` when it cannot be read).
pub fn is_wsl_from(proc_version: &Option<String>) -> (r: bool)
    ensures
        r == (proc_version matches Some(v) && contains_sub(lowercase_of(v@), "microsoft"@)),
{
    match proc_version {
        Some(v) => {
            let lower = str_to_lowercase(v.as_str());
            str_contains(lower.as_str(), "microsoft")
        },
        None => false,
    }
}

/// Whether to warn that `software` is not supported on WSLg.
pub fn software_request_ignored(gl: &Option<String>, wsl: bool, wayland: bool) -> (r: bool)
    ensures
        r == (opt_view(*gl) == Some("software"@) && wsl && wayland),
{
    match gl {
        Some(v) => crate::text::str_is(v.as_str(), "software") && wsl && wayland,
        None => false,
    }
}

pub open spec fn spec_startup_message(p: GpuProfile, wsl: bool) -> Seq<char> {
    match p {
        GpuProfile::Software => if wsl {
            "WSL X11 — software OpenGL (Glow / Mesa llvmpipe)"@
        } else {
            "Software OpenGL rendering (Glow / Mesa llvmpipe)"@
        },
        GpuProfile::WslGpu => "WSLg — GPU OpenGL via Glow"@,
        GpuProfile::Native => "GPU rendering (wgpu)"@,
    }
}

/// The line logged at startup for the detected profile.
pub fn log_startup(profile: GpuProfile, wsl: bool) -> (r: &'static str)
    ensures
        r@ == spec_startup_message(profile, wsl),
{
    match profile {
        GpuProfile::Software => if wsl {
            "WSL X11 — software OpenGL (Glow / Mesa llvmpipe)"
        } else {
            "Software OpenGL rendering (Glow / Mesa llvmpipe)"
        },
        GpuProfile::WslGpu => "WSLg — GPU OpenGL via Glow",
        GpuProfile::Native => "GPU rendering (wgpu)",
    }
}

/// Whether the X11 keyboard library must be looked for: on an X11 display
/// without Wayland.
pub fn needs_xkb_check(wayland: bool, display: &Option<String>) -> (r: bool)
    ensures
        r == (!wayland && (display matches Some(d) && d@.len() > 0)),
{
    if wayland {
        return false;
    }
    match display {
        Some(d) => !d.as_str().is_empty(),
        None => false,
    }
}

/// Which native picker to use for an EOPF Zarr product.
#[derive(Clone, Copy, Debug, PartialEq, Eq, Structural)]
pub enum ZarrNativePick {
    /// Native folder picker for `.zarr` directories.
    Directory,
    /// Native file picker for `.zarr.zip` archives.
    ZipArchive,
}

/// Infer the native picker from a path hint: a zip archive when the trimmed
/// hint ends with `.zip`, else a folder.
pub fn zarr_native_pick_for_hint(path_hint: &str) -> (r: ZarrNativePick)
    ensures
        r == (if seq_ends_with(trim_ws(path_hint@), ".zip"@) {
            ZarrNativePick::ZipArchive
        } else {
            ZarrNativePick::Directory
        }),
{
    let h = str_chars(path_hint);
    let t = chars_trim(&h);
    let s = string_from_chars(&t);
    if str_ends_with(s.as_str(), ".zip") {
        ZarrNativePick::ZipArchive
    } else {
        ZarrNativePick::Directory
    }
}

} // verus!
