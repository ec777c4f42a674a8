use deskutils::wallpaper::{
    confirmation, default_wallpaper_dir, is_supported_image, pick_random_wallpaper,
    wallpaper_command, wants_no_xinerama, WallpaperError,
};

#[test]
fn supported_images_by_extension() {
    assert!(is_supported_image("/w/a.jpg"));
    assert!(is_supported_image("/w/a.JPEG"));
    assert!(is_supported_image("b.Png"));
    assert!(is_supported_image("/w/c.tar.webp"));
    assert!(!is_supported_image("/w/a.gif"));
    assert!(!is_supported_image("/w/.png"));
    assert!(!is_supported_image("/w/png"));
    assert!(!is_supported_image("/w/a.jpg/.."));
    assert!(!is_supported_image(""));
    assert!(is_supported_image("/w/x.jpg/"));
}

#[test]
fn wallpaper_directory() {
    assert_eq!(
        default_wallpaper_dir(Some("/home/me".to_string())),
        "/home/me/onedrive/wallpapers"
    );
    assert_eq!(default_wallpaper_dir(None), "");
}

#[test]
fn wallpaper_commands() {
    assert_eq!(
        wallpaper_command(false, "awww", true, "/w/a.png"),
        vec!["feh", "--no-fehbg", "--no-xinerama", "--bg-fill", "/w/a.png"]
    );
    assert_eq!(
        wallpaper_command(false, "awww", false, "/w/a.png"),
        vec!["feh", "--no-fehbg", "--bg-fill", "/w/a.png"]
    );
    assert_eq!(
        wallpaper_command(true, "swww", true, "/w/a.png"),
        vec![
            "swww",
            "img",
            "--transition-fps",
            "255",
            "--transition-type",
            "wave",
            "--transition-wave",
            "50,25",
            "--transition-angle",
            "135",
            "/w/a.png"
        ]
    );
    assert_eq!(confirmation(true, "/w/a.png"), "Set Wayland wallpaper to: /w/a.png");
    assert_eq!(confirmation(false, "/w/a.png"), "Set X11 wallpaper to: /w/a.png");
    let args = vec!["x".to_string(), "--no-xinerama".to_string()];
    assert!(wants_no_xinerama(&args));
    assert!(!wants_no_xinerama(&vec!["--no-xinerama=1".to_string()]));
}

#[test]
fn wallpaper_errors() {
    let e = WallpaperError::NoWallpapers { dir: "/w".to_string() };
    assert_eq!(e.message(), "No wallpaper files found in /w");
    let e = WallpaperError::DaemonMissing { tool: "awww".to_string() };
    assert_eq!(e.message(), "awww not found on your system. Is the daemon running?");
    assert_eq!(WallpaperError::FehMissing.message(), "Feh not found on your system");
    let e = WallpaperError::NotInstalled { tool: "swww".to_string() };
    assert_eq!(e.message(), "swww is not installed");
    let e = WallpaperError::Failed { tool: "feh".to_string() };
    assert_eq!(e.message(), "feh failed");
}

#[test]
fn random_pick_is_a_supported_file() {
    let files = vec!["/w/a.txt".to_string(), "/w/b.png".to_string(), "/w/c.jpg".to_string()];
    for _ in 0..20 {
        let p = pick_random_wallpaper(files.clone()).unwrap();
        assert!(p == "/w/b.png" || p == "/w/c.jpg");
    }
    assert_eq!(pick_random_wallpaper(vec!["/w/a.txt".to_string()]), None);
    assert_eq!(pick_random_wallpaper(vec![]), None);
}

#[test]
fn missing_setter_messages() {
    assert_eq!(
        WallpaperError::missing_tool(true, "awww").message(),
        "awww not found on your system. Is the daemon running?"
    );
    assert_eq!(
        WallpaperError::missing_tool(false, "feh").message(),
        "Feh not found on your system"
    );
}
