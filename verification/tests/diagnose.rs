use llauncher::diagnose::{diagnose_launch_failure, is_dwproton_11, HINT_DWPROTON11_NTOSKRNL};

const PROTON_11: &str = "/home/user/.local/share/llauncher/proton/dwproton-11.0-11-x86_64";
const PROTON_10: &str = "/home/user/.local/share/llauncher/proton/dwproton-10.0-26-x86_64";

#[test]
fn recognizes_ntoskrnl_stub_aborts_on_dwproton_11() {
    for func in ["PsGetProcessExitStatus", "InbvAcquireDisplayOwnership"] {
        let log = format!(
            "ntsync: up and running.\n\
             wine: Call from 00006FFFFFBFD947 to unimplemented function ntoskrnl.exe.{}, aborting\n",
            func
        );
        assert_eq!(
            diagnose_launch_failure(&log, PROTON_11),
            Some(HINT_DWPROTON11_NTOSKRNL)
        );
    }
}

#[test]
fn stays_quiet_without_a_known_signature() {
    let log = "GStreamer-WARNING: Failed to load plugin libgstvpx.so: libvpx.so.9: cannot open\n\
               libEGL warning: egl: failed to create dri2 screen\n";
    assert_eq!(diagnose_launch_failure(log, PROTON_11), None);
}

#[test]
fn ignores_ntoskrnl_aborts_on_other_proton_versions() {
    let log =
        "wine: Call from 0x1 to unimplemented function ntoskrnl.exe.PsGetProcessExitStatus, aborting\n";
    assert_eq!(diagnose_launch_failure(log, PROTON_10), None);
    assert_eq!(diagnose_launch_failure(log, ""), None);
}

#[test]
fn matches_dwproton_11_on_the_directory_name_only() {
    assert!(is_dwproton_11("/opt/protons/dwproton-11.0-12-x86_64"));
    assert!(!is_dwproton_11("/opt/dwproton-11.0-12/dwproton-10.0-26"));
}

#[test]
fn the_abort_must_sit_on_one_line() {
    let log = "unimplemented function ntoskrnl.exe.PsGetProcessExitStatus\naborting\n";
    assert_eq!(diagnose_launch_failure(log, PROTON_11), None);
}
