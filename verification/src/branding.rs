//! The application id and how the logo is cut to a square icon.
use vstd::prelude::*;

use crate::debug_text::{decimal, u64_text};
use crate::text::{push_text, string_from_chars};

verus! {

/// Desktop application id.
pub const APP_ID: &'static str = "io.github.vlevasseur073.CopernicusViewer";

/// Icon sizes written for desktop integration, in pixels.
pub const ICON_SIZES: [u32; 5] = [32, 48, 64, 128, 256];

/// The centred square of a `width` × `height` image: its left and top
/// offsets and its side (the shorter dimension).
pub fn square_crop(width: u32, height: u32) -> (r: (u32, u32, u32))
    ensures
        r.2 == (if width < height { width } else { height }),
        r.0 == (width - r.2) / 2,
        r.1 == (height - r.2) / 2,
        r.0 + r.2 <= width,
        r.1 + r.2 <= height,
{
    let side = if width < height { width } else { height };
    let x = (width - side) / 2;
    let y = (height - side) / 2;
    (x, y, side)
}

/// `NxN/apps`: the icon directory for one size.
pub open spec fn icon_dir(size: u32) -> Seq<char> {
    decimal(size as nat) + seq!['x'] + decimal(size as nat) + "/apps"@
}

pub fn icon_dir_name(size: u32) -> (r: String)
    ensures
        r@ == icon_dir(size),
{
    let n = u64_text(size as u64);
    let mut buf: Vec<char> = Vec::new();
    push_text(&mut buf, n.as_str());
    buf.push('x');
    push_text(&mut buf, n.as_str());
    push_text(&mut buf, "/apps");
    string_from_chars(&buf)
}

/// The desktop entry that launches the viewer with `exec`.
pub open spec fn spec_desktop_entry(exec: Seq<char>) -> Seq<char> {
    "[Desktop Entry]\nType=Application\nVersion=1.0\nName=Copernicus Viewer\nGenericName=EOPF Zarr viewer\nComment=GUI viewer for Copernicus EOPF Zarr products\nExec="@
        + exec + " %F\nIcon="@ + APP_ID@ + "\nTerminal=false\nCategories=Science;Education;\nStartupNotify=true\nStartupWMClass="@
        + APP_ID@ + "\n"@
}

pub fn desktop_entry(exec: &str) -> (r: String)
    ensures
        r@ == spec_desktop_entry(exec@),
{
    let mut buf: Vec<char> = Vec::new();
    push_text(
        &mut buf,
        "[Desktop Entry]\nType=Application\nVersion=1.0\nName=Copernicus Viewer\nGenericName=EOPF Zarr viewer\nComment=GUI viewer for Copernicus EOPF Zarr products\nExec=",
    );
    push_text(&mut buf, exec);
    push_text(&mut buf, " %F\nIcon=");
    push_text(&mut buf, APP_ID);
    push_text(&mut buf, "\nTerminal=false\nCategories=Science;Education;\nStartupNotify=true\nStartupWMClass=");
    push_text(&mut buf, APP_ID);
    push_text(&mut buf, "\n");
    string_from_chars(&buf)
}

/// One `[NxN/apps]` section of the fallback theme index.
pub open spec fn theme_section(size: u32) -> Seq<char> {
    seq!['['] + icon_dir(size) + "]\nSize="@ + decimal(size as nat) + "\nType=Fixed\n\n"@
}

/// The fallback `hicolor` theme index: its header listing the icon
/// directories, then one section per icon size.
pub open spec fn spec_theme_index() -> Seq<char> {
    "[Icon Theme]\nName=Hicolor\nComment=Fallback icon theme\nDirectories="@ + icon_dir(32) + seq![','] + icon_dir(48)
        + seq![','] + icon_dir(64) + seq![','] + icon_dir(128) + seq![','] + icon_dir(256) + "\n\n"@
        + theme_section(32) + theme_section(48) + theme_section(64) + theme_section(128) + theme_section(
        256,
    )
}

pub fn theme_index() -> (r: String)
    ensures
        r@ == spec_theme_index(),
{
    let mut buf: Vec<char> = Vec::new();
    push_text(&mut buf, "[Icon Theme]\nName=Hicolor\nComment=Fallback icon theme\nDirectories=");
    let sizes: [u32; 5] = [32, 48, 64, 128, 256];
    let mut i: usize = 0;
    while i < 5
        invariant
            i <= 5,
            sizes@ == seq![32u32, 48u32, 64u32, 128u32, 256u32],
            buf@ == "[Icon Theme]\nName=Hicolor\nComment=Fallback icon theme\nDirectories="@ + dirs_list(
                sizes@,
                i as int,
            ),
        decreases 5 - i,
    {
        if i > 0 {
            buf.push(',');
        }
        push_text(&mut buf, icon_dir_name(sizes[i]).as_str());
        i = i + 1;
        assert(buf@ =~= "[Icon Theme]\nName=Hicolor\nComment=Fallback icon theme\nDirectories="@ + dirs_list(
            sizes@,
            i as int,
        ));
    }
    push_text(&mut buf, "\n\n");
    let mut j: usize = 0;
    let ghost head = buf@;
    while j < 5
        invariant
            j <= 5,
            sizes@ == seq![32u32, 48u32, 64u32, 128u32, 256u32],
            buf@ == head + sections_list(sizes@, j as int),
        decreases 5 - j,
    {
        buf.push('[');
        push_text(&mut buf, icon_dir_name(sizes[j]).as_str());
        push_text(&mut buf, "]\nSize=");
        push_text(&mut buf, u64_text(sizes[j] as u64).as_str());
        push_text(&mut buf, "\nType=Fixed\n\n");
        j = j + 1;
        assert(buf@ =~= head + sections_list(sizes@, j as int));
    }
    proof {
        reveal_with_fuel(dirs_list, 6);
        reveal_with_fuel(sections_list, 6);
        assert(buf@ =~= spec_theme_index());
    }
    string_from_chars(&buf)
}

/// The icon directories of the first `n` sizes, comma-separated.
pub open spec fn dirs_list(sizes: Seq<u32>, n: int) -> Seq<char>
    decreases n,
{
    if n <= 0 {
        Seq::empty()
    } else if n == 1 {
        icon_dir(sizes[0])
    } else {
        dirs_list(sizes, n - 1) + seq![','] + icon_dir(sizes[n - 1])
    }
}

/// The theme sections of the first `n` sizes.
pub open spec fn sections_list(sizes: Seq<u32>, n: int) -> Seq<char>
    decreases n,
{
    if n <= 0 {
        Seq::empty()
    } else {
        sections_list(sizes, n - 1) + theme_section(sizes[n - 1])
    }
}

} // verus!
