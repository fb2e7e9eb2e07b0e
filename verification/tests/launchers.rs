use app_locker::shortcut::{
    badge_shade, desktop_entry_content, desktop_file_name, icon_search_plan, shortcut_artifacts, shortcut_layout, BadgeGeometry, DirSearch, EntryVerdict, Shade,
};

#[test]
fn launcher_file_and_text() {
    assert_eq!(desktop_file_name("gedit"), "app-locker-gedit.desktop");
    let text = desktop_entry_content("brave", "/usr/local/bin/app-locker", "brave-browser");
    assert_eq!(
        text,
        "[Desktop Entry]\nVersion=1.0\nType=Application\nName=brave (Locked)\n\
         Comment=Launch brave inside an encrypted, isolated App Locker sandbox\n\
         Exec=\"/usr/local/bin/app-locker\" run-gui \"brave\" --exec \"brave-browser\"\n\
         Icon=security-high\nTerminal=false\nCategories=Utility;Security;\n"
    );
    assert!(desktop_entry_content("gedit", "/x", "gedit").lines().any(|l| l == "Icon=security-high"));
}

#[test]
fn launcher_locations() {
    let l = shortcut_layout("/home/eve", "gedit");
    assert_eq!(l.apps_dir, "/home/eve/.local/share/applications");
    assert_eq!(l.entry_path, "/home/eve/.local/share/applications/app-locker-gedit.desktop");
    assert_eq!(l.desktop_dir, "/home/eve/Desktop");
    assert_eq!(l.desktop_copy, "/home/eve/Desktop/app-locker-gedit.desktop");
    assert_eq!(l.icons_dir, "/home/eve/.local/share/app-locker/icons");
    assert_eq!(l.badged_icon, "/home/eve/.local/share/app-locker/icons/gedit-locked.png");
    assert_eq!(
        shortcut_artifacts("/home/eve", "gedit"),
        vec![
            "/home/eve/.local/share/applications/app-locker-gedit.desktop",
            "/home/eve/Desktop/app-locker-gedit.desktop",
            "/home/eve/.local/share/app-locker/icons/gedit-locked.png",
        ]
    );
}

#[test]
fn icon_probe_order() {
    let plan = icon_search_plan("brave", "brave-browser", Some("/home/eve".to_string()));
    let got: Vec<(String, String)> = plan.into_iter().map(|p| (p.root, p.file_name)).collect();
    let names = ["brave-browser.png", "brave-browser.png", "org.gnome.brave.png", "brave.png"];
    let roots = ["/usr/share/icons", "/usr/share/pixmaps", "/home/eve/.local/share/icons"];
    let mut expected = Vec::new();
    for n in names {
        for r in roots {
            expected.push((r.to_string(), n.to_string()));
        }
    }
    assert_eq!(got, expected);
    let no_home = icon_search_plan("a", "a", None);
    assert_eq!(no_home[2].root, ".local/share/icons");
}

#[test]
fn directory_search_skips_theme_noise() {
    let mut s = DirSearch::new("/usr/share/icons".to_string(), "gedit.png".to_string());
    assert_eq!(s.next_dir(), Some("/usr/share/icons".to_string()));
    assert!(matches!(s.visit("/i/cursors".to_string(), true, Some("cursors".to_string())), EntryVerdict::Skip));
    assert!(matches!(s.visit("/i/hicolor".to_string(), true, Some("hicolor".to_string())), EntryVerdict::Descend));
    assert!(matches!(s.visit("/i/x.png".to_string(), false, Some("x.png".to_string())), EntryVerdict::Ignore));
    assert!(matches!(s.visit("/i/gedit.png".to_string(), false, Some("gedit.png".to_string())), EntryVerdict::Found));
    assert!(matches!(s.visit("/i/weird".to_string(), true, None), EntryVerdict::Descend));
    assert_eq!(s.next_dir(), Some("/i/weird".to_string()));
    assert_eq!(s.next_dir(), Some("/i/hicolor".to_string()));
    assert_eq!(s.next_dir(), None);
}

#[test]
fn badge_colours() {
    // A 100x100 icon: radius 22, centre (74, 74), lock 19x16, shackle radius 7.
    let g = BadgeGeometry { radius: 22, center_x: 74, center_y: 74, lock_w: 19, lock_h: 16, shackle_r: 7 };
    assert_eq!(badge_shade(&g, 0, 0), None);
    assert_eq!(badge_shade(&g, 74, 53), Some(Shade::Crimson));
    assert_eq!(badge_shade(&g, 74, 96), Some(Shade::Crimson));
    assert_eq!(badge_shade(&g, 74, 97), None);
    // lock body: x in [65, 84), y in [70, 86)
    assert_eq!(badge_shade(&g, 65, 70), Some(Shade::White));
    assert_eq!(badge_shade(&g, 83, 85), Some(Shade::White));
    assert_eq!(badge_shade(&g, 84, 75), Some(Shade::Crimson));
    // shackle ring above the body: radius 7, inner 5, centred at (74, 70)
    assert_eq!(badge_shade(&g, 74, 63), Some(Shade::White));
    assert_eq!(badge_shade(&g, 74, 66), Some(Shade::Crimson));
    assert_eq!(badge_shade(&g, 68, 70), Some(Shade::White));
}

#[test]
fn directory_walk_lists_depth_first_and_stops_at_the_file() {
    // root: a/ (dir), cursors/ (skipped), b/ (dir); b holds the target.
    let mut s = DirSearch::new("/r".to_string(), "t.png".to_string());
    let mut listed = Vec::new();
    let tree = |d: &str| -> Vec<(&'static str, bool, &'static str)> {
        match d {
            "/r" => vec![("/r/a", true, "a"), ("/r/cursors", true, "cursors"), ("/r/b", true, "b")],
            "/r/a" => vec![("/r/a/t.png", true, "t.png"), ("/r/a/x.png", false, "x.png")],
            "/r/b" => vec![("/r/b/t.png", false, "t.png")],
            _ => vec![],
        }
    };
    let mut found = None;
    'walk: while let Some(d) = s.next_dir() {
        listed.push(d.clone());
        for (p, is_dir, name) in tree(&d) {
            if let EntryVerdict::Found = s.visit(p.to_string(), is_dir, Some(name.to_string())) {
                found = Some(p.to_string());
                break 'walk;
            }
        }
    }
    assert_eq!(found, Some("/r/b/t.png".to_string()));
    assert_eq!(listed, vec!["/r", "/r/b"]);
}
