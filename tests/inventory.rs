use grublist::backup_manager::select_backups;
use grublist::grub_config::GrubConfig;
use grublist::kernel_cleanup::kernels_to_clean;
use grublist::kernel_info::{get_kernel_version_from_entry, select_kernels};
use grublist::ordering::less_text;
use grublist::records::BackupInfo;

#[test]
fn text_order_matches_str_order() {
    let words = ["", "a", "ab", "b", "B", "5.15.0", "5.4.0", "6.1", "é", "z"];
    for a in words {
        for b in words {
            assert_eq!(less_text(a, b), a < b, "{} {}", a, b);
        }
    }
}

#[test]
fn backups_are_filtered_and_newest_first() {
    let b = |p: &str, m: u64| BackupInfo { path: p.to_string(), size: 10, modified: m };
    let files = vec![
        ("grub.bak".to_string(), b("/etc/default/grub.bak", 5)),
        ("grub".to_string(), b("/etc/default/grub", 9)),
        ("grub.pre-restore-1.bak".to_string(), b("/etc/default/grub.pre-restore-1.bak", 7)),
        ("other.bak".to_string(), b("/etc/default/other.bak", 8)),
        ("grub.old.bak".to_string(), b("/etc/default/grub.old.bak", 7)),
    ];
    let r = select_backups(files);
    let paths: Vec<&str> = r.iter().map(|x| x.path.as_str()).collect();
    assert_eq!(paths, vec!["/etc/default/grub.pre-restore-1.bak", "/etc/default/grub.old.bak", "/etc/default/grub.bak"]);
}

#[test]
fn kernels_are_listed_newest_first() {
    let f = |n: &str| (n.to_string(), format!("/boot/{}", n));
    let r = select_kernels(vec![f("vmlinuz-5.15.0-91-generic"), f("initrd.img-5.15.0-91-generic"), f("vmlinuz-6.5.0-14-generic"), f("vmlinuz.old"), f("vmlinuz-5.4.0-old")]);
    let versions: Vec<&str> = r.iter().map(|k| k.version.as_str()).collect();
    assert_eq!(versions, vec!["6.5.0-14-generic", "5.15.0-91-generic"]);
    assert_eq!(r[0].release, "6.5.0-14-generic");
    assert_eq!(r[0].arch, "x86_64");
    assert_eq!(r[0].path, "/boot/vmlinuz-6.5.0-14-generic");
}

#[test]
fn clean_up_skips_running_kernel_and_sums_sizes() {
    let f = |n: &str| (n.to_string(), format!("/boot/{}", n));
    let kernels = select_kernels(vec![f("vmlinuz-6.5.0-14-generic"), f("vmlinuz-5.15.0-91-generic"), f("vmlinuz-5.4.0-1-generic")]);
    let boot = vec![
        ("vmlinuz-5.15.0-91-generic".to_string(), "/boot/vmlinuz-5.15.0-91-generic".to_string(), 100u64),
        ("initrd.img-5.15.0-91-generic".to_string(), "/boot/initrd.img-5.15.0-91-generic".to_string(), 50u64),
        ("vmlinuz-5.4.0-1-generic".to_string(), "/boot/vmlinuz-5.4.0-1-generic".to_string(), u64::MAX),
        ("config-5.4.0-1-generic".to_string(), "/boot/config-5.4.0-1-generic".to_string(), 7u64),
        ("vmlinuz-6.5.0-14-generic".to_string(), "/boot/vmlinuz-6.5.0-14-generic".to_string(), 1u64),
    ];
    let r = kernels_to_clean(kernels, Some("6.5.0-14-generic"), &boot);
    let versions: Vec<&str> = r.iter().map(|k| k.version.as_str()).collect();
    assert_eq!(versions, vec!["5.15.0-91-generic", "5.4.0-1-generic"]);
    assert_eq!(r[0].size, 150);
    assert_eq!(r[0].files, vec!["/boot/vmlinuz-5.15.0-91-generic", "/boot/initrd.img-5.15.0-91-generic"]);
    assert_eq!(r[1].size, u64::MAX);
    assert!(!r[0].in_use);
    let all = kernels_to_clean(select_kernels(vec![f("vmlinuz-1.0.0")]), None, &boot);
    assert_eq!(all.len(), 1);
}

#[test]
fn settings_sorted_by_name() {
    let c = GrubConfig::from_text("GRUB_TIMEOUT=1\nA_KEY=x\nGRUB_DEFAULT=0\n");
    let names: Vec<String> = c.sorted_params().into_iter().map(|p| p.0).collect();
    assert_eq!(names, vec!["A_KEY", "GRUB_DEFAULT", "GRUB_TIMEOUT", "GRUB_TIMEOUT_STYLE"]);
}

#[test]
fn kernel_found_from_entry_title() {
    let files = vec![
        ("initrd.img-5.15.0-91-generic".to_string(), "/boot/initrd.img-5.15.0-91-generic".to_string()),
        ("vmlinuz-5.15.0-91-generic".to_string(), "/boot/vmlinuz-5.15.0-91-generic".to_string()),
    ];
    let k = get_kernel_version_from_entry("Ubuntu, with Linux 5.15.0-91-generic", &files).unwrap();
    assert_eq!(k.version, "5.15.0-91-generic");
    assert_eq!(k.release, "5.15.0-91-generic");
    assert_eq!(k.arch, "x86_64");
    assert_eq!(k.path, "/boot/vmlinuz-5.15.0-91-generic");
    assert!(get_kernel_version_from_entry("Ubuntu", &files).is_none());
    assert!(get_kernel_version_from_entry("Linux 6.1.0", &files).is_none());
}
