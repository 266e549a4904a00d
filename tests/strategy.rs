use pinger::{
    fake_switch_on, select_address, select_strategy, BSDPinger, ConnectOutcome, FakePinger,
    IPVersion, IpAddress, LinuxPinger, MacOSPinger, PingCreationError, PingOptions, PingResult,
    Platform, ResolveError, StrategyKind, Target, TcpPinger, WindowsPinger, FAKE_MAX_MS,
    FAKE_MIN_MS,
};

fn opts(host: &str) -> PingOptions {
    PingOptions::new(host.to_string(), None, 1000, None)
}

#[test]
fn v6_preference_never_takes_v4() {
    let target = Target::new_ipv6("example.com".to_string(), None);
    let only_v4 = vec![IpAddress::V4(0x0101_0101), IpAddress::V4(0x0808_0808)];
    assert_eq!(target.resolve_with(&only_v4), Err(ResolveError::NoMatchingFamily));
    let windows = WindowsPinger::from_options(PingOptions::from_target(target, 500, None)).unwrap();
    match windows.target_address(&only_v4) {
        Err(PingCreationError::HostnameError(d)) => assert_eq!(d, "example.com"),
        other => panic!("unexpected {:?}", other),
    }
}

#[test]
fn address_selection_by_family() {
    let mixed = vec![IpAddress::V4(1), IpAddress::V6(2), IpAddress::V4(3)];
    assert_eq!(select_address(&mixed, IPVersion::Any), Ok(IpAddress::V4(1)));
    assert_eq!(select_address(&mixed, IPVersion::V6), Ok(IpAddress::V6(2)));
    assert_eq!(select_address(&mixed, IPVersion::V4), Ok(IpAddress::V4(1)));
    assert_eq!(select_address(&vec![], IPVersion::Any), Err(ResolveError::NoAddress));
    assert_eq!(select_address(&vec![], IPVersion::V4), Err(ResolveError::NoMatchingFamily));
    let ip = Target::new_any("1.1.1.1".to_string(), Some(IpAddress::V4(0x0101_0101)));
    assert_eq!(ip.resolve_with(&vec![]), Ok(IpAddress::V4(0x0101_0101)));
}

#[test]
fn targets_from_literals() {
    let v6 = IpAddress::V6(1);
    assert!(matches!(Target::new_any("::1".to_string(), Some(v6)), Target::IP(IpAddress::V6(1))));
    match Target::new_ipv4("::1".to_string(), Some(v6)) {
        Target::Hostname { domain, version } => {
            assert_eq!(domain, "::1");
            assert_eq!(version, IPVersion::V4);
        }
        other => panic!("unexpected {:?}", other),
    }
    assert!(Target::new_ipv6("h".to_string(), None).is_ipv6());
    assert!(!Target::new_any("h".to_string(), None).is_ipv6());
    assert_eq!(IpAddress::V4(0x0a00_00ff).to_text(), "10.0.0.255");
    assert_eq!(
        IpAddress::V6(0x2001_0db8_0000_0000_0000_0000_0000_0001).to_text(),
        "2001:db8:0:0:0:0:0:1"
    );
}

#[test]
fn linux_detection_from_version_output() {
    assert!(matches!(
        LinuxPinger::detect_platform_ping(opts("h"), String::new(), "BusyBox v1.36".to_string()),
        Ok(LinuxPinger::BusyBox(_))
    ));
    assert!(matches!(
        LinuxPinger::detect_platform_ping(opts("h"), "ping from iputils 20221126".to_string(), String::new()),
        Ok(LinuxPinger::IPTools(_))
    ));
    match LinuxPinger::detect_platform_ping(opts("h"), "ping (GNU inetutils) 2.4".to_string(), String::new()) {
        Err(PingCreationError::NotSupported { alternative }) => {
            assert_eq!(alternative, "Please use iputils ping, not inetutils.")
        }
        other => panic!("unexpected {:?}", other),
    }
    match LinuxPinger::detect_platform_ping(
        opts("h"),
        "one\r\ntwo\nthree\n".to_string(),
        "only\n".to_string(),
    ) {
        Err(PingCreationError::UnknownPing { stderr, stdout }) => {
            assert_eq!(stdout, vec!["one".to_string(), "two".to_string()]);
            assert_eq!(stderr, vec!["only".to_string()]);
        }
        other => panic!("unexpected {:?}", other),
    }
}

#[test]
fn command_lines() {
    let o = PingOptions::new("foo".to_string(), None, 1000, Some("eth0".to_string()));
    let (cmd, args) = LinuxPinger::IPTools(o.clone()).ping_args();
    assert_eq!(cmd, "ping");
    assert_eq!(args, vec!["-O", "-i1.0", "-I", "eth0", "foo"]);
    let (cmd, args) = LinuxPinger::BusyBox(o.clone()).ping_args();
    assert_eq!(cmd, "ping");
    assert_eq!(args, vec!["foo", "-i1.0"]);
    let raw = o.clone().with_raw_arguments(vec!["-c".to_string(), "3".to_string()]);
    let (cmd, args) = BSDPinger::from_options(raw).unwrap().ping_args();
    assert_eq!(cmd, "ping");
    assert_eq!(args, vec!["-i1.0", "-I", "eth0", "-c", "3", "foo"]);
    let v6 = PingOptions::new_ipv6("bar".to_string(), None, 200, Some("en0".to_string()));
    let (cmd, args) = MacOSPinger::from_options(v6).unwrap().ping_args();
    assert_eq!(cmd, "ping6");
    assert_eq!(args, vec!["-i0.2", "bar", "-b", "en0"]);
    let ip = PingOptions::new("1.2.3.4".to_string(), Some(IpAddress::V4(0x0102_0304)), 12345, None);
    let (_, args) = LinuxPinger::BusyBox(ip).ping_args();
    assert_eq!(args, vec!["1.2.3.4", "-i12.3"]);
    let (_, args) = LinuxPinger::BusyBox(opts("h").with_tcping(false)).ping_args();
    assert_eq!(args[1], "-i1.0");
    let extra = o.clone().with_raw_arguments(vec!["-W".to_string(), "2".to_string()]);
    let (_, args) = LinuxPinger::IPTools(extra.clone()).ping_args();
    assert_eq!(args, vec!["-O", "-i1.0", "-I", "eth0", "-W", "2", "foo"]);
    let (_, args) = LinuxPinger::BusyBox(extra.clone()).ping_args();
    assert_eq!(args, vec!["-W", "2", "foo", "-i1.0"]);
    let (_, args) = MacOSPinger::from_options(extra).unwrap().ping_args();
    assert_eq!(args, vec!["-i1.0", "-W", "2", "foo", "-b", "eth0"]);
    let slow = PingOptions::new("h".to_string(), None, 149, None);
    assert_eq!(LinuxPinger::BusyBox(slow).ping_args().1[1], "-i0.1");
}

#[test]
fn tcp_outcomes() {
    let o = opts("h").with_tcping(true).with_port(443);
    let strict = TcpPinger::from_options(o.clone()).unwrap();
    assert_eq!(strict.port(), 443);
    assert_eq!(TcpPinger::from_options(opts("h")).unwrap().port(), 80);
    assert!(matches!(strict.outcome(ConnectOutcome::Connected, 5, "a".to_string()), PingResult::Pong(5, _)));
    assert!(matches!(strict.outcome(ConnectOutcome::Refused, 5, "a".to_string()), PingResult::Timeout(_)));
    assert!(matches!(strict.outcome(ConnectOutcome::Failed, 5, "a".to_string()), PingResult::Timeout(_)));
    assert_eq!(strict.socket_text(), "h:443");
    let ip = PingOptions::new("9.8.7.6".to_string(), Some(IpAddress::V4(0x0908_0706)), 10, None);
    assert_eq!(TcpPinger::from_options(ip).unwrap().socket_text(), "9.8.7.6:80");
    let lenient = TcpPinger::from_options(o.with_allow_rst(true)).unwrap();
    assert!(matches!(lenient.outcome(ConnectOutcome::Refused, 9, "a".to_string()), PingResult::Pong(9, _)));
    match strict.unresolved(Some("boom".to_string())) {
        PingResult::Unknown(m) => assert_eq!(m, "Resolve error: boom"),
        other => panic!("unexpected {:?}", other),
    }
    match strict.unresolved(None) {
        PingResult::Unknown(m) => assert_eq!(m, "Unable to resolve address"),
        other => panic!("unexpected {:?}", other),
    }
}

#[test]
fn windows_outcomes() {
    let w = WindowsPinger::from_options(opts("h")).unwrap();
    assert!(matches!(w.outcome(Some(14)), PingResult::Pong(14_000_000, _)));
    assert!(matches!(w.outcome(None), PingResult::Timeout(_)));
}

#[test]
fn strategy_choice() {
    let o = opts("h");
    assert_eq!(select_strategy(Platform::Linux, &o, true), StrategyKind::Fake);
    assert_eq!(select_strategy(Platform::Linux, &o.clone().with_tcping(true), false), StrategyKind::Tcp);
    assert_eq!(select_strategy(Platform::NetBsd, &o, false), StrategyKind::Bsd);
    assert_eq!(select_strategy(Platform::MacOS, &o, false), StrategyKind::MacOS);
    assert_eq!(select_strategy(Platform::Windows, &o, false), StrategyKind::Windows);
    assert_eq!(select_strategy(Platform::Linux, &o, false), StrategyKind::Linux);
    assert!(fake_switch_on("1"));
    assert!(!fake_switch_on("0"));
    assert!(!fake_switch_on("11"));
}

#[test]
fn fake_pong_line() {
    match FakePinger::fake_pong(77) {
        PingResult::Pong(d, l) => {
            assert_eq!(d, 77_000_000);
            assert_eq!(l, "Fake ping line: 77 ms");
        }
        other => panic!("unexpected {:?}", other),
    }
}

#[test]
fn fake_strategy_end_to_end() {
    let fake = FakePinger::from_options(PingOptions::new("h".to_string(), None, 100, None)).unwrap();
    let interval = std::time::Duration::from_millis(fake.options.interval);
    let start = std::time::Instant::now();
    let mut next = start;
    let mut pongs = 0;
    while start.elapsed() < std::time::Duration::from_secs(1) {
        if std::time::Instant::now() < next {
            continue;
        }
        match fake.next_result() {
            PingResult::Pong(d, _) => {
                assert!(d > 50_000_000 && d < 150_000_000);
                assert!(d >= FAKE_MIN_MS as u128 * 1_000_000 && d < FAKE_MAX_MS as u128 * 1_000_000);
                pongs += 1;
            }
            other => panic!("unexpected {:?}", other),
        }
        next += interval;
    }
    assert!((8..=12).contains(&pongs), "{} pongs", pongs);
}
