use grub_bootimage::config::Config;
use grub_bootimage::launch::{launch_args, Mode, EMULATOR, TEST_DIR};

fn strings(list: &[&str]) -> Vec<String> {
    list.iter().map(|s| (*s).to_owned()).collect()
}

#[test]
fn emulator_is_qemu() {
    assert_eq!(EMULATOR, "qemu-system-x86_64");
}

#[test]
fn test_executables_lie_in_deps() {
    assert_eq!(TEST_DIR, "deps");
}

#[test]
fn image_comes_first_as_the_cdrom() {
    let config = Config::new();
    assert_eq!(launch_args(&config, Mode::Run, "target/os.iso"), strings(&["-cdrom", "target/os.iso"]));
    assert_eq!(launch_args(&config, Mode::Test, "target/os.iso"), strings(&["-cdrom", "target/os.iso"]));
    assert_eq!(launch_args(&config, Mode::Run, ""), strings(&["-cdrom", ""]));
}

#[test]
fn each_mode_adds_its_own_arguments() {
    let mut config = Config::new();
    config.run_args = Some(strings(&["-serial", "stdio"]));
    config.test_args = Some(strings(&["-display", "none", "-device", "isa-debug-exit"]));
    assert_eq!(
        launch_args(&config, Mode::Run, "os.iso"),
        strings(&["-cdrom", "os.iso", "-serial", "stdio"])
    );
    assert_eq!(
        launch_args(&config, Mode::Test, "os.iso"),
        strings(&["-cdrom", "os.iso", "-display", "none", "-device", "isa-debug-exit"])
    );
}

#[test]
fn arguments_of_the_other_mode_are_left_out() {
    let mut config = Config::new();
    config.test_args = Some(strings(&["-display", "none"]));
    assert_eq!(launch_args(&config, Mode::Run, "os.iso"), strings(&["-cdrom", "os.iso"]));
    let mut config = Config::new();
    config.run_args = Some(Vec::new());
    assert_eq!(launch_args(&config, Mode::Run, "os.iso"), strings(&["-cdrom", "os.iso"]));
}
