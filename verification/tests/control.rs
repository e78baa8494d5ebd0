use audio_2_dmx::control::{choose_suite, fft_size_changed, fft_size_for, EffectSetting, SuiteChoice};
use audio_2_dmx::ola::{ola_next, platform_of, OlaError, OlaNext, OlaStep, Platform};

#[test]
fn fft_size_changes() {
    assert!(!fft_size_changed(None, 128));
    assert!(!fft_size_changed(Some(128), 128));
    assert!(fft_size_changed(Some(256), 128));
    assert!(fft_size_changed(Some(0), 128));
}

#[test]
fn fft_size_from_setting() {
    assert_eq!(fft_size_for(None, 128), 128);
    assert_eq!(fft_size_for(Some(512), 128), 512);
    assert_eq!(fft_size_for(Some(0), 128), 128);
    // a stream opened with the stored size is kept
    assert!(!fft_size_changed(Some(512), fft_size_for(Some(512), 128)));
}

#[test]
fn choose_suite_cases() {
    match choose_suite(Some(EffectSetting::Name("RB Jams".to_string())), 3) {
        SuiteChoice::Named(n) => assert_eq!(n, "RB Jams"),
        other => panic!("{:?}", other),
    }
    assert!(matches!(choose_suite(Some(EffectSetting::Index(2)), 3), SuiteChoice::Ordered(2)));
    assert!(matches!(choose_suite(Some(EffectSetting::Index(3)), 3), SuiteChoice::NoSuite));
    assert!(matches!(choose_suite(Some(EffectSetting::Other), 3), SuiteChoice::NoSuite));
    assert!(matches!(choose_suite(None, 3), SuiteChoice::NoSuite));
}

#[test]
fn platforms() {
    assert_eq!(platform_of("linux"), Platform::Linux);
    assert_eq!(platform_of("macos"), Platform::MacOs);
    assert_eq!(platform_of("windows"), Platform::Unsupported);
    assert_eq!(platform_of("Linux"), Platform::Unsupported);
}

#[test]
fn ola_linux_with_apt() {
    let p = Platform::Linux;
    assert_eq!(ola_next(p, OlaStep::CheckDaemon, false), OlaNext::Run(OlaStep::CheckApt));
    assert_eq!(ola_next(p, OlaStep::CheckApt, true), OlaNext::Run(OlaStep::AptUpdate));
    assert_eq!(ola_next(p, OlaStep::AptUpdate, false), OlaNext::Run(OlaStep::AptInstall));
    assert_eq!(ola_next(p, OlaStep::AptInstall, false), OlaNext::Run(OlaStep::StartDaemon));
}

#[test]
fn ola_fallbacks_and_failures() {
    let p = Platform::Linux;
    assert_eq!(ola_next(p, OlaStep::CheckApt, false), OlaNext::Run(OlaStep::CheckPacman));
    assert_eq!(ola_next(p, OlaStep::CheckPacman, true), OlaNext::Run(OlaStep::PacmanInstall));
    assert_eq!(ola_next(p, OlaStep::CheckPacman, false), OlaNext::Fail(OlaError::NoPackageManager));
    assert_eq!(ola_next(Platform::MacOs, OlaStep::CheckDaemon, false), OlaNext::Run(OlaStep::CheckBrew));
    assert_eq!(ola_next(Platform::MacOs, OlaStep::CheckBrew, false), OlaNext::Fail(OlaError::NoHomebrew));
    assert_eq!(ola_next(Platform::MacOs, OlaStep::CheckBrew, true), OlaNext::Run(OlaStep::BrewInstall));
    assert_eq!(ola_next(Platform::Unsupported, OlaStep::CheckDaemon, false), OlaNext::Fail(OlaError::UnsupportedOs));
    assert_eq!(ola_next(Platform::Unsupported, OlaStep::CheckDaemon, true), OlaNext::Run(OlaStep::StartDaemon));
}

#[test]
fn ola_bring_up_ends_within_five_commands() {
    for platform in [Platform::Linux, Platform::MacOs, Platform::Unsupported] {
        for answers in 0..16u32 {
            let found = |step: OlaStep| -> bool {
                match step {
                    OlaStep::CheckDaemon => answers & 1 != 0,
                    OlaStep::CheckApt => answers & 2 != 0,
                    OlaStep::CheckPacman => answers & 4 != 0,
                    OlaStep::CheckBrew => answers & 8 != 0,
                    _ => false,
                }
            };
            let mut step = OlaStep::CheckDaemon;
            let mut commands = 1;
            loop {
                match ola_next(platform, step, found(step)) {
                    OlaNext::Run(OlaStep::StartDaemon) => break,
                    OlaNext::Fail(_) => break,
                    OlaNext::Run(next) => {
                        step = next;
                        commands += 1;
                        assert!(commands <= 5);
                    }
                }
            }
        }
    }
}
