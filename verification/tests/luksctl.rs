use std::path::PathBuf;

use deskutils::luks::{
    detect_privilege_runner, df_last_line, ensure_luks_file_exists, is_device_open, is_mounted,
    luks_name_from_path, privileged_command, resolve_mount_point, LuksError, PrivilegeRunner,
};
use deskutils::luks_flow::{Event, Flow, LuksSession, Note, Query, Step, Tool};

#[test]
fn luks_name_from_path_strips_suffix() {
    let path = PathBuf::from("/tmp/secret.luks");
    assert_eq!(luks_name_from_path(path.to_str().unwrap()).unwrap(), "secret");
}

#[test]
fn luks_name_from_path_no_suffix() {
    let path = PathBuf::from("/tmp/secretfile");
    assert_eq!(luks_name_from_path(path.to_str().unwrap()).unwrap(), "secretfile");
}

#[test]
fn luks_name_from_path_errors_on_invalid() {
    let path = PathBuf::from("");
    assert!(luks_name_from_path(path.to_str().unwrap()).is_err());
}

#[test]
fn luks_name_uses_last_normal_component() {
    assert_eq!(luks_name_from_path("/data/vault.luks/").unwrap(), "vault");
    assert_eq!(luks_name_from_path("vault.luks/.").unwrap(), "vault");
    assert_eq!(luks_name_from_path("a.luks.luks").unwrap(), "a.luks");
    assert!(matches!(luks_name_from_path("/"), Err(LuksError::NoName)));
    assert!(matches!(luks_name_from_path("/tmp/.."), Err(LuksError::NoName)));
    assert_eq!(luks_name_from_path(".luks").unwrap(), "");
}

#[test]
fn privilege_runner_prefers_sudo_then_run0() {
    assert_eq!(detect_privilege_runner(true, true), PrivilegeRunner::Sudo);
    assert_eq!(detect_privilege_runner(false, true), PrivilegeRunner::Run0);
    assert_eq!(detect_privilege_runner(false, false), PrivilegeRunner::Direct);
}

#[test]
fn privileged_command_prefixes_the_runner() {
    assert_eq!(privileged_command(&PrivilegeRunner::Sudo, "mount"), vec!["sudo", "mount"]);
    assert_eq!(privileged_command(&PrivilegeRunner::Run0, "umount"), vec!["run0", "umount"]);
    assert_eq!(privileged_command(&PrivilegeRunner::Direct, "cryptsetup"), vec!["cryptsetup"]);
}

#[test]
fn missing_container_file_is_reported() {
    assert!(ensure_luks_file_exists("/tmp/secret.luks", true).is_ok());
    let err = ensure_luks_file_exists("/tmp/secret.luks", false).unwrap_err();
    assert_eq!(err.message(), "LUKS file '/tmp/secret.luks' does not exist");
}

#[test]
fn mount_point_defaults_to_home() {
    let given = resolve_mount_point("secret", Some("/mnt/secret".to_string()), None).unwrap();
    assert_eq!(given, "/mnt/secret");
    let home = resolve_mount_point("secret", None, Some("/home/me".to_string())).unwrap();
    assert_eq!(home, "/home/me/secret");
    let slash = resolve_mount_point("secret", None, Some("/home/me/".to_string())).unwrap();
    assert_eq!(slash, "/home/me/secret");
    let err = resolve_mount_point("secret", None, None).unwrap_err();
    assert_eq!(err.message(), "Failed to locate home directory");
}

#[test]
fn device_open_asks_about_the_mapper_node() {
    assert!(is_device_open("secret", |p: &str| p == "/dev/mapper/secret"));
    assert!(!is_device_open("other", |p: &str| p == "/dev/mapper/secret"));
}

#[test]
fn mount_table_is_searched_by_target() {
    let table = "sysfs /sys sysfs rw 0 0\n/dev/mapper/secret /mnt/secret ext4 rw 0 0\n";
    assert!(is_mounted(Some(table), "/mnt/secret"));
    assert!(!is_mounted(Some(table), "/mnt"));
    assert!(!is_mounted(Some(table), "/dev/mapper/secret"));
    assert!(!is_mounted(None, "/mnt/secret"));
    assert!(is_mounted(Some("a\t/x  y\r\n"), "/x"));
}

#[test]
fn df_reports_last_nonblank_line() {
    let out = "Filesystem Size Used Avail Use% Mounted on\n  /dev/dm-0 10G 1G 9G 10% /mnt  \n\n";
    assert_eq!(df_last_line(true, out), Some("/dev/dm-0 10G 1G 9G 10% /mnt".to_string()));
    assert_eq!(df_last_line(false, out), None);
    assert_eq!(df_last_line(true, " \n\n"), None);
}

fn session(flow: Flow) -> (LuksSession, Step) {
    LuksSession::start(
        flow,
        "/tmp/secret.luks".to_string(),
        "secret".to_string(),
        "/mnt/secret".to_string(),
        PrivilegeRunner::Sudo,
    )
}

fn said(s: &LuksSession, step: &Step) -> String {
    match step {
        Step::Say(n) => s.note_line(n),
        other => panic!("expected a note, got {other:?}"),
    }
}

#[test]
fn open_unlocks_mounts_and_reports_space() {
    let (s, step) = session(Flow::Open);
    assert!(matches!(step, Step::Ask(Query::DeviceOpen)));
    let (s, step) = s.step(Event::Answer(false));
    assert!(matches!(step, Step::Ask(Query::IsLuks)));
    let (s, step) = s.step(Event::Answer(true));
    assert_eq!(said(&s, &step), "Opening LUKS container...");
    let (s, step) = s.step(Event::Done);
    assert!(matches!(step, Step::Run(Tool::OpenContainer)));
    assert_eq!(
        s.command_line(Tool::OpenContainer),
        vec!["sudo", "cryptsetup", "open", "--type", "luks", "/tmp/secret.luks", "secret"]
    );
    let (s, step) = s.step(Event::Ran(true));
    assert!(matches!(step, Step::CreateMountPoint));
    let (s, step) = s.step(Event::Done);
    assert_eq!(said(&s, &step), "Mounting filesystem...");
    let (s, step) = s.step(Event::Done);
    assert!(matches!(step, Step::Run(Tool::Mount)));
    assert_eq!(
        s.command_line(Tool::Mount),
        vec!["sudo", "mount", "/dev/mapper/secret", "/mnt/secret"]
    );
    let (s, step) = s.step(Event::Ran(true));
    assert_eq!(
        said(&s, &step),
        "LUKS container '/tmp/secret.luks' opened and mounted at '/mnt/secret'"
    );
    let (s, step) = s.step(Event::Done);
    assert_eq!(said(&s, &step), "Available space:");
    let (s, step) = s.step(Event::Done);
    assert!(matches!(step, Step::MeasureSpace));
    let (s, step) = s.step(Event::Space(Some("/dev/dm-0 9G".to_string())));
    assert_eq!(said(&s, &step), "/dev/dm-0 9G");
    let (s, step) = s.step(Event::Done);
    assert!(matches!(step, Step::Finish(Ok(()))));
    assert!(!s.accepts(&Event::Done));
}

#[test]
fn open_rolls_back_when_mount_fails() {
    let (s, _) = session(Flow::Open);
    let (s, _) = s.step(Event::Answer(false));
    let (s, _) = s.step(Event::Answer(true));
    let (s, _) = s.step(Event::Done);
    let (s, _) = s.step(Event::Ran(true));
    let (s, _) = s.step(Event::Done);
    let (s, _) = s.step(Event::Done);
    let (s, step) = s.step(Event::Ran(false));
    assert!(matches!(step, Step::RunQuietly(Tool::CloseContainer)));
    assert_eq!(s.command_line(Tool::CloseContainer), vec!["sudo", "cryptsetup", "close", "secret"]);
    let (_, step) = s.step(Event::Done);
    match step {
        Step::Finish(Err(e)) => {
            assert_eq!(e.message(), "Failed to mount filesystem. Device may be corrupted.")
        }
        other => panic!("unexpected {other:?}"),
    }
}

#[test]
fn open_rolls_back_when_mount_point_cannot_be_made() {
    let (s, _) = session(Flow::Open);
    let (s, _) = s.step(Event::Answer(false));
    let (s, _) = s.step(Event::Answer(true));
    let (s, _) = s.step(Event::Done);
    let (s, _) = s.step(Event::Ran(true));
    let (s, step) = s.step(Event::Failed("permission denied".to_string()));
    assert!(matches!(step, Step::RunQuietly(Tool::CloseContainer)));
    let (_, step) = s.step(Event::Done);
    match step {
        Step::Finish(Err(e)) => assert_eq!(
            e.message(),
            "Failed to create mount point '/mnt/secret': permission denied"
        ),
        other => panic!("unexpected {other:?}"),
    }
}

#[test]
fn open_of_open_device_only_mounts() {
    let (s, _) = session(Flow::Open);
    let (s, step) = s.step(Event::Answer(true));
    assert!(matches!(step, Step::Ask(Query::Mounted)));
    let (s, step) = s.step(Event::Answer(false));
    assert_eq!(said(&s, &step), "Device is open but not mounted. Attempting to mount...");
    let (s, _) = s.step(Event::Done);
    let (s, _) = s.step(Event::Done);
    let (s, _) = s.step(Event::Done);
    let (_, step) = s.step(Event::Ran(false));
    match step {
        Step::Finish(Err(LuksError::MountFailed)) => {}
        other => panic!("no rollback expected, got {other:?}"),
    }
}

#[test]
fn open_refuses_mounted_and_non_luks() {
    let (s, _) = session(Flow::Open);
    let (s, _) = s.step(Event::Answer(true));
    let (_, step) = s.step(Event::Answer(true));
    match step {
        Step::Finish(Err(e)) => assert_eq!(
            e.message(),
            "LUKS device 'secret' is already open and mounted at '/mnt/secret'"
        ),
        other => panic!("unexpected {other:?}"),
    }
    let (s, _) = session(Flow::Open);
    let (s, _) = s.step(Event::Answer(false));
    let (_, step) = s.step(Event::Answer(false));
    match step {
        Step::Finish(Err(e)) => {
            assert_eq!(e.message(), "File '/tmp/secret.luks' is not a valid LUKS container")
        }
        other => panic!("unexpected {other:?}"),
    }
    let (s, _) = session(Flow::Open);
    let (s, _) = s.step(Event::Answer(false));
    let (s, _) = s.step(Event::Answer(true));
    let (s, _) = s.step(Event::Done);
    let (_, step) = s.step(Event::Ran(false));
    match step {
        Step::Finish(Err(e)) => assert_eq!(
            e.message(),
            "Failed to open LUKS device. Check password and try again."
        ),
        other => panic!("unexpected {other:?}"),
    }
}

#[test]
fn close_unmounts_closes_and_cleans_up() {
    let (s, step) = session(Flow::Close);
    assert!(matches!(step, Step::Ask(Query::Mounted)));
    let (s, step) = s.step(Event::Answer(true));
    assert_eq!(said(&s, &step), "Unmounting filesystem...");
    let (s, step) = s.step(Event::Done);
    assert!(matches!(step, Step::Run(Tool::Unmount)));
    assert_eq!(s.command_line(Tool::Unmount), vec!["sudo", "umount", "/mnt/secret"]);
    let (s, step) = s.step(Event::Ran(true));
    assert!(matches!(step, Step::Ask(Query::DeviceOpen)));
    let (s, step) = s.step(Event::Answer(true));
    assert_eq!(said(&s, &step), "Closing LUKS device...");
    let (s, _) = s.step(Event::Done);
    let (s, step) = s.step(Event::Ran(true));
    assert!(matches!(step, Step::Ask(Query::MountPointIsDir)));
    let (s, step) = s.step(Event::Answer(true));
    assert!(matches!(step, Step::RemoveMountPoint));
    let (s, step) = s.step(Event::Done);
    assert_eq!(said(&s, &step), "LUKS container '/tmp/secret.luks' closed successfully");
    let (_, step) = s.step(Event::Done);
    assert!(matches!(step, Step::Finish(Ok(()))));
}

#[test]
fn close_of_closed_container_says_so() {
    let (s, _) = session(Flow::Close);
    let (s, _) = s.step(Event::Answer(false));
    let (s, step) = s.step(Event::Answer(false));
    assert_eq!(said(&s, &step), "LUKS container 'secret' was not open");
    let (_, step) = s.step(Event::Done);
    assert!(matches!(step, Step::Finish(Ok(()))));
}

#[test]
fn close_failures_are_reported() {
    let (s, _) = session(Flow::Close);
    let (s, _) = s.step(Event::Answer(true));
    let (s, _) = s.step(Event::Done);
    let (_, step) = s.step(Event::Ran(false));
    match step {
        Step::Finish(Err(e)) => {
            assert_eq!(e.message(), "Failed to unmount filesystem. Files may be in use.")
        }
        other => panic!("unexpected {other:?}"),
    }
    let (s, _) = session(Flow::Close);
    let (s, _) = s.step(Event::Answer(false));
    let (s, _) = s.step(Event::Answer(true));
    let (s, _) = s.step(Event::Done);
    let (_, step) = s.step(Event::Ran(false));
    match step {
        Step::Finish(Err(e)) => assert_eq!(e.message(), "Failed to close LUKS device."),
        other => panic!("unexpected {other:?}"),
    }
    let (s, _) = session(Flow::Close);
    let (s, _) = s.step(Event::Answer(true));
    let (s, _) = s.step(Event::Done);
    let (_, step) = s.step(Event::Failed("no such file".to_string()));
    match step {
        Step::Finish(Err(e)) => assert_eq!(e.message(), "no such file"),
        other => panic!("unexpected {other:?}"),
    }
}

#[test]
fn status_reports_without_changing_anything() {
    let (s, step) = session(Flow::Status);
    assert_eq!(said(&s, &step), "LUKS Container: /tmp/secret.luks");
    let (s, step) = s.step(Event::Done);
    assert_eq!(said(&s, &step), "Device Name: secret");
    let (s, step) = s.step(Event::Done);
    assert_eq!(said(&s, &step), "Mount Point: /mnt/secret");
    let (s, step) = s.step(Event::Done);
    assert!(matches!(step, Step::Ask(Query::DeviceOpen)));
    let (s, step) = s.step(Event::Answer(true));
    assert_eq!(said(&s, &step), "Status: Device is OPEN");
    let (s, _) = s.step(Event::Done);
    let (s, step) = s.step(Event::Answer(true));
    assert_eq!(said(&s, &step), "Mount Status: MOUNTED at /mnt/secret");
    let (s, step) = s.step(Event::Done);
    assert_eq!(said(&s, &step), "Available Space:");
    let (s, step) = s.step(Event::Done);
    assert!(matches!(step, Step::MeasureSpace));
    let (_, step) = s.step(Event::Space(None));
    assert!(matches!(step, Step::Finish(Ok(()))));

    let (s, _) = session(Flow::Status);
    let (s, _) = s.step(Event::Done);
    let (s, _) = s.step(Event::Done);
    let (s, _) = s.step(Event::Done);
    let (s, step) = s.step(Event::Answer(false));
    assert_eq!(said(&s, &step), "Status: Device is CLOSED");
    let (_, step) = s.step(Event::Done);
    assert!(matches!(step, Step::Finish(Ok(()))));
}

#[test]
fn status_of_open_unmounted_device() {
    let (s, _) = session(Flow::Status);
    let (s, _) = s.step(Event::Done);
    let (s, _) = s.step(Event::Done);
    let (s, _) = s.step(Event::Done);
    let (s, _) = s.step(Event::Answer(true));
    let (s, _) = s.step(Event::Done);
    let (s, step) = s.step(Event::Answer(false));
    assert_eq!(said(&s, &step), "Mount Status: NOT MOUNTED");
    let _ = Note::Closed;
}
