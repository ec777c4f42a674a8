//! A random wallpaper on X11 (`feh`) or Wayland (`awww` / `swww`).

use vstd::prelude::*;
use rand::seq::IteratorRandom;
use crate::luks::{argv_view, push_arg};
use crate::paths::{extension, file_name_range, join, join_path};
use crate::text::{push_char, push_str, str_eq, to_chars};
use crate::paths::back_until;

verus! {

/// ASCII letters in lower case, other characters unchanged.
pub open spec fn ascii_lower(s: Seq<char>) -> Seq<char> {
    s.map_values(|c: char| if 'A' <= c && c <= 'Z' { ((c as int) + 32) as char } else { c })
}

/// Image formats the wallpaper tools are given: jpg, jpeg, png and webp.
pub open spec fn is_image_extension(ext: Seq<char>) -> bool {
    let e = ascii_lower(ext);
    e == "jpg"@ || e == "jpeg"@ || e == "png"@ || e == "webp"@
}

/// The path's extension, in any letter case, is jpg, jpeg, png or webp.
pub open spec fn supported_image(path: Seq<char>) -> bool {
    match extension(path) {
        Some(e) => is_image_extension(e),
        None => false,
    }
}

/// Whether the path names a supported image (by its extension).
pub fn is_supported_image(path: &str) -> (b: bool)
    ensures
        b == supported_image(path@),
{
    let v = to_chars(path);
    let (lo, hi) = match file_name_range(&v) {
        Some(r) => r,
        None => return false,
    };
    let dot = back_until(&v, lo, hi, '.');
    let ghost name = v@.subrange(lo as int, hi as int);
    if dot == lo || dot == lo + 1 {
        return false;
    }
    let mut lower = String::new();
    let mut i = dot;
    while i < hi
        invariant
            dot <= i <= hi <= v@.len(),
            lower@ == ascii_lower(v@.subrange(dot as int, i as int)),
        decreases hi - i,
    {
        let c = v[i];
        let l = if 'A' <= c && c <= 'Z' {
            ((c as u32) + 32) as u8 as char
        } else {
            c
        };
        proof {
            if 'A' <= c && c <= 'Z' {
                assert(l == ((c as int) + 32) as char);
            }
        }
        push_char(&mut lower, l);
        assert(ascii_lower(v@.subrange(dot as int, i + 1)) =~= ascii_lower(
            v@.subrange(dot as int, i as int),
        ).push(l));
        i += 1;
    }
    assert(name.skip(name.len() - (hi - dot)) =~= v@.subrange(dot as int, hi as int));
    let l = lower.as_str();
    str_eq(l, "jpg") || str_eq(l, "jpeg") || str_eq(l, "png") || str_eq(l, "webp")
}

/// The wallpaper directory under the home directory; empty without a home.
pub fn default_wallpaper_dir(home: Option<String>) -> (dir: String)
    ensures
        match home {
            Some(h) => dir@ == join(h@, "onedrive/wallpapers"@),
            None => dir@ == Seq::<char>::empty(),
        },
{
    match home {
        Some(h) => join_path(h.as_str(), "onedrive/wallpapers"),
        None => String::new(),
    }
}

/// `args` holds `--no-xinerama`.
pub fn wants_no_xinerama(args: &Vec<String>) -> (b: bool)
    ensures
        b == argv_view(args@).contains("--no-xinerama"@),
{
    let n = args.len();
    let mut i: usize = 0;
    while i < n
        invariant
            i <= n == args@.len(),
            forall|j: int| 0 <= j < i ==> #[trigger] args@[j]@ != "--no-xinerama"@,
        decreases n - i,
    {
        if str_eq(args[i].as_str(), "--no-xinerama") {
            assert(argv_view(args@)[i as int] == "--no-xinerama"@);
            return true;
        }
        i += 1;
    }
    assert forall|j: int| 0 <= j < argv_view(args@).len() implies argv_view(args@)[j]
        != "--no-xinerama"@ by {
        assert(argv_view(args@)[j] == args@[j]@);
    }
    false
}

/// The command that sets the wallpaper: the Wayland tool with a wave
/// transition, or `feh` filling the screen.
pub open spec fn wallpaper_argv(
    is_wayland: bool,
    wayland_tool: Seq<char>,
    no_xinerama: bool,
    wallpaper: Seq<char>,
) -> Seq<Seq<char>> {
    if is_wayland {
        seq![
            wayland_tool,
            "img"@,
            "--transition-fps"@,
            "255"@,
            "--transition-type"@,
            "wave"@,
            "--transition-wave"@,
            "50,25"@,
            "--transition-angle"@,
            "135"@,
            wallpaper,
        ]
    } else if no_xinerama {
        seq!["feh"@, "--no-fehbg"@, "--no-xinerama"@, "--bg-fill"@, wallpaper]
    } else {
        seq!["feh"@, "--no-fehbg"@, "--bg-fill"@, wallpaper]
    }
}

/// The command that sets the wallpaper (program first).
pub fn wallpaper_command(is_wayland: bool, wayland_tool: &str, no_xinerama: bool, wallpaper: &str) -> (argv:
    Vec<String>)
    ensures
        argv_view(argv@) == wallpaper_argv(is_wayland, wayland_tool@, no_xinerama, wallpaper@),
{
    let mut argv: Vec<String> = Vec::new();
    if is_wayland {
        push_arg(&mut argv, wayland_tool);
        push_arg(&mut argv, "img");
        push_arg(&mut argv, "--transition-fps");
        push_arg(&mut argv, "255");
        push_arg(&mut argv, "--transition-type");
        push_arg(&mut argv, "wave");
        push_arg(&mut argv, "--transition-wave");
        push_arg(&mut argv, "50,25");
        push_arg(&mut argv, "--transition-angle");
        push_arg(&mut argv, "135");
    } else {
        push_arg(&mut argv, "feh");
        push_arg(&mut argv, "--no-fehbg");
        if no_xinerama {
            push_arg(&mut argv, "--no-xinerama");
        }
        push_arg(&mut argv, "--bg-fill");
    }
    push_arg(&mut argv, wallpaper);
    assert(argv_view(argv@) =~= wallpaper_argv(is_wayland, wayland_tool@, no_xinerama, wallpaper@));
    argv
}

/// The line printed once the wallpaper is set.
pub fn confirmation(is_wayland: bool, wallpaper: &str) -> (line: String)
    ensures
        line@ == (if is_wayland {
            "Set Wayland wallpaper to: "@
        } else {
            "Set X11 wallpaper to: "@
        }) + wallpaper@,
{
    let mut line = String::new();
    if is_wayland {
        push_str(&mut line, "Set Wayland wallpaper to: ");
    } else {
        push_str(&mut line, "Set X11 wallpaper to: ");
    }
    push_str(&mut line, wallpaper);
    line
}

/// Why no wallpaper was set.
#[derive(Debug)]
pub enum WallpaperError {
    /// No image under the wallpaper directory.
    NoWallpapers { dir: String },
    /// The Wayland tool could not be started.
    DaemonMissing { tool: String },
    /// `feh` could not be started.
    FehMissing,
    /// The tool is not on the `PATH`.
    NotInstalled { tool: String },
    /// The tool reported failure.
    Failed { tool: String },
}

impl WallpaperError {
    /// The error for a setter program that could not be started: the
    /// Wayland daemon's tool, or `feh`.
    pub fn missing_tool(is_wayland: bool, tool: &str) -> (e: WallpaperError)
        ensures
            is_wayland ==> (e matches WallpaperError::DaemonMissing { tool: t } && t@ == tool@),
            !is_wayland ==> e is FehMissing,
    {
        if is_wayland {
            let mut t = String::new();
            push_str(&mut t, tool);
            WallpaperError::DaemonMissing { tool: t }
        } else {
            WallpaperError::FehMissing
        }
    }

    pub open spec fn text(&self) -> Seq<char> {
        match self {
            WallpaperError::NoWallpapers { dir } => "No wallpaper files found in "@ + dir@,
            WallpaperError::DaemonMissing { tool } => tool@
                + " not found on your system. Is the daemon running?"@,
            WallpaperError::FehMissing => "Feh not found on your system"@,
            WallpaperError::NotInstalled { tool } => tool@ + " is not installed"@,
            WallpaperError::Failed { tool } => tool@ + " failed"@,
        }
    }

    /// The message shown for the error.
    pub fn message(&self) -> (s: String)
        ensures
            s@ == self.text(),
    {
        let mut s = String::new();
        match self {
            WallpaperError::NoWallpapers { dir } => {
                push_str(&mut s, "No wallpaper files found in ");
                push_str(&mut s, dir.as_str());
            },
            WallpaperError::DaemonMissing { tool } => {
                push_str(&mut s, tool.as_str());
                push_str(&mut s, " not found on your system. Is the daemon running?");
            },
            WallpaperError::FehMissing => push_str(&mut s, "Feh not found on your system"),
            WallpaperError::NotInstalled { tool } => {
                push_str(&mut s, tool.as_str());
                push_str(&mut s, " is not installed");
            },
            WallpaperError::Failed { tool } => {
                push_str(&mut s, tool.as_str());
                push_str(&mut s, " failed");
            },
        }
        s
    }
}

/// `rand::seq::IteratorRandom::choose` with the thread's generator: one of
/// the items, picked at random; `None` exactly when there are none.
#[verifier::external_body]
fn choose_one(items: Vec<String>) -> (r: Option<String>)
    ensures
        r is None <==> items@.len() == 0,
        r matches Some(x) ==> items@.contains(x),
{
    items.into_iter().choose(&mut rand::thread_rng())
}

/// `x` is one of the first `i` files and a supported image.
pub open spec fn supported_among(files: Seq<String>, i: int, x: String) -> bool {
    exists|j: int| 0 <= j < i && files[j] == x && supported_image(#[trigger] files[j]@)
}

/// A random supported image among the given files; `None` when there is none.
pub fn pick_random_wallpaper(files: Vec<String>) -> (r: Option<String>)
    ensures
        (exists|i: int| 0 <= i < files@.len() && supported_image(#[trigger] files@[i]@)) <==> r is Some,
        r matches Some(p) ==> supported_among(files@, files@.len() as int, p),
{
    let mut images: Vec<String> = Vec::new();
    let n = files.len();
    let mut i: usize = 0;
    while i < n
        invariant
            i <= n == files@.len(),
            forall|k: int|
                0 <= k < images@.len() ==> supported_among(files@, i as int, #[trigger] images@[k]),
            (exists|j: int| 0 <= j < i && supported_image(#[trigger] files@[j]@)) ==> images@.len()
                > 0,
        decreases n - i,
    {
        let ghost old_images = images@;
        let keep = is_supported_image(files[i].as_str());
        if keep {
            images.push(files[i].clone());
        }
        proof {
            assert forall|k: int| 0 <= k < images@.len() implies supported_among(
                files@,
                i + 1,
                #[trigger] images@[k],
            ) by {
                if k < old_images.len() {
                    assert(images@[k] == old_images[k]);
                    assert(supported_among(files@, i as int, old_images[k]));
                    let j = choose|j: int|
                        0 <= j < i && files@[j] == old_images[k] && supported_image(
                            #[trigger] files@[j]@,
                        );
                    assert(0 <= j < i + 1 && files@[j] == images@[k] && supported_image(files@[j]@));
                } else {
                    assert(files@[i as int] == images@[k]);
                    assert(supported_image(files@[i as int]@));
                }
            }
            if exists|j: int| 0 <= j < i + 1 && supported_image(#[trigger] files@[j]@) {
                if !keep {
                    let j = choose|j: int| 0 <= j < i + 1 && supported_image(#[trigger] files@[j]@);
                    assert(j != i);
                }
            }
        }
        i += 1;
    }
    proof {
        if images@.len() > 0 {
            assert(supported_among(files@, n as int, images@[0]));
        }
    }
    let ghost imgs = images@;
    let r = choose_one(images);
    proof {
        if r is Some {
            let p = r->0;
            let k = choose|k: int| 0 <= k < imgs.len() && imgs[k] == p;
            assert(supported_among(files@, n as int, imgs[k]));
        }
    }
    r
}

/// Lowering ASCII letters twice changes nothing more than lowering once.
pub proof fn lemma_ascii_lower_idempotent(s: Seq<char>)
    ensures
        ascii_lower(ascii_lower(s)) == ascii_lower(s),
{
    let l = ascii_lower(s);
    assert forall|i: int| 0 <= i < s.len() implies #[trigger] ascii_lower(l)[i] == l[i] by {
        let c = s[i];
        if 'A' <= c && c <= 'Z' {
            assert((((c as int) + 32) as char) as int == (c as int) + 32);
        }
    }
    assert(ascii_lower(l) =~= l);
}

/// Extensions are compared without regard to ASCII letter case: an
/// extension is an image format exactly when its lower-case form is, so
/// `JPG`, `Jpeg` or `PNG` are accepted like `jpg`, `jpeg` and `png`.
pub proof fn lemma_image_test_ignores_case(e: Seq<char>)
    ensures
        is_image_extension(e) == is_image_extension(ascii_lower(e)),
        ascii_lower(e) == "jpg"@ || ascii_lower(e) == "jpeg"@ || ascii_lower(e) == "png"@
            || ascii_lower(e) == "webp"@ ==> is_image_extension(e),
{
    lemma_ascii_lower_idempotent(e);
}

/// Two paths whose extensions differ only in ASCII letter case are both
/// supported images or neither is (`IMG_0001.JPG` as `img_0001.jpg`).
pub proof fn lemma_supported_image_ignores_case(p: Seq<char>, q: Seq<char>)
    requires
        extension(p) matches Some(e1) && extension(q) matches Some(e2) && ascii_lower(e1)
            == ascii_lower(e2),
    ensures
        supported_image(p) == supported_image(q),
{
    let e1 = extension(p)->0;
    let e2 = extension(q)->0;
    lemma_image_test_ignores_case(e1);
    lemma_image_test_ignores_case(e2);
}

} // verus!
