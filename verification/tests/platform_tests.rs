use fluffy::platform::{get_battery, get_gpu_info, get_os_details};

#[test]
fn battery_from_sysfs() {
    let b = get_battery(Some("87\n"), Some("Discharging\n"));
    assert_eq!(b.percentage, Some(87));
    assert_eq!(b.status, "Discharging");
    assert!(b.time_remaining.is_none());
    let odd = get_battery(Some("n/a"), Some("Full"));
    assert_eq!(odd.percentage, None);
    let none = get_battery(None, Some("Full"));
    assert_eq!(none.status, "No battery detected.");
}

#[test]
fn os_details_from_os_release() {
    let os = "NAME=\"Ubuntu\"\nVERSION=\"22.04.3 LTS (Jammy Jellyfish)\"\nVERSION_ID=\"22.04\"\nPRETTY_NAME=\"Ubuntu 22.04.3 LTS\"\n";
    let d = get_os_details(Some(os), Some("6.5.0-14-generic\n"));
    assert_eq!(d.name, "Ubuntu 22.04.3 LTS");
    assert_eq!(d.version, "22.04.3 LTS (Jammy Jellyfish)");
    assert_eq!(d.build, "22.04 (kernel: 6.5.0-14-generic)");
    assert_eq!(d.edition, "");
    let bare = get_os_details(None, None);
    assert_eq!(bare.name, "Linux");
    assert_eq!(bare.build, "");
}

#[test]
fn gpu_lines() {
    let lspci = "00:02.0 VGA compatible controller: Intel\n00:1f.3 Audio device: Intel\n01:00.0 3D controller: NVIDIA\n";
    assert_eq!(get_gpu_info(Some(lspci)), "00:02.0 VGA compatible controller: Intel\n01:00.0 3D controller: NVIDIA");
    assert_eq!(get_gpu_info(Some("00:1f.3 Audio device\n")), "GPU info not available");
    assert_eq!(get_gpu_info(None), "GPU info not available");
}
