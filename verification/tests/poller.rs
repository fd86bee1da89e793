use ip_logger::census::Platform;
use ip_logger::clock::get_timestamp;
use ip_logger::log_store::LogStore;
use ip_logger::poller::PollAction;
use ip_logger::poller::PollEvent;
use ip_logger::poller::PollStep;
use ip_logger::poller::Poller;
use ip_logger::poller::PollerConfig;
use ip_logger::poller::DEFAULT_IP_SERVICE_URL;
use ip_logger::poller::DEFAULT_POLL_INTERVAL_SECS;
use ip_logger::resolver::NetworkError;

fn dashes() -> String {
    "-".repeat(50)
}

fn new_poller(platform: Platform, poll_interval_secs: u64) -> Poller {
    Poller::new(
        platform,
        PollerConfig { poll_interval_secs, ip_service_url: "http://localhost/ip".to_string() },
    )
}

fn answer(ip: &str) -> PollEvent {
    PollEvent::IpResponse(format!("{{\"ip\":\"{}\"}}", ip))
}

/// Runs one cycle in which the address service names `ip` and the
/// network-status command prints `output`, and appends what it logs.
fn successful_cycle(poller: &mut Poller, log: &mut LogStore, ip: &str, time: &str, output: &str) {
    let step = poller.advance(PollEvent::Tick, "tick");
    assert_eq!(step.next, PollAction::FetchIp);
    assert_eq!(step.entry, None);
    let step = poller.advance(answer(ip), time);
    assert_eq!(step.next, PollAction::RunCensus);
    assert_eq!(step.entry, None);
    let step = poller.advance(PollEvent::CensusOutput(output.to_string()), "later");
    assert_eq!(step.next, PollAction::Sleep(30));
    log.append(&step.entry.unwrap());
    assert!(poller.is_idle());
}

fn failed_cycle(poller: &mut Poller, log: &mut LogStore, failure: PollEvent, time: &str) {
    let step = poller.advance(PollEvent::Tick, "tick");
    assert_eq!(step.next, PollAction::FetchIp);
    let step = poller.advance(failure, time);
    assert_eq!(step.next, PollAction::Sleep(30));
    log.append(&step.entry.unwrap());
    assert!(poller.is_idle());
}

#[test]
fn default_interval_is_thirty_seconds() {
    assert_eq!(DEFAULT_POLL_INTERVAL_SECS, 30);
}

#[test]
fn default_config_names_interval_and_service() {
    let config = PollerConfig::default();
    assert_eq!(config.poll_interval_secs, 30);
    assert_eq!(config.ip_service_url, "https://api64.ipify.org?format=json");
    assert_eq!(DEFAULT_IP_SERVICE_URL, "https://api64.ipify.org?format=json");
    let poller = Poller::new(Platform::Windows, config);
    assert_eq!(poller.service_url(), "https://api64.ipify.org?format=json");
    assert_eq!(poller.platform(), Platform::Windows);
    assert_eq!(poller.pending(), PollAction::Sleep(30));
}

#[test]
fn new_poller_is_idle_and_knows_no_address() {
    let poller = new_poller(Platform::Unix, 30);
    assert_eq!(poller.service_url(), "http://localhost/ip");
    assert!(poller.is_idle());
    assert_eq!(poller.last_ip(), None);
    assert_eq!(poller.pending(), PollAction::Sleep(30));
}

#[test]
fn first_poll_sets_the_baseline_and_second_reports_the_change() {
    let mut poller = new_poller(Platform::Unix, DEFAULT_POLL_INTERVAL_SECS);
    let mut log = LogStore::new();

    successful_cycle(&mut poller, &mut log, "1.2.3.4", "2024-05-01 10:00:00", "");
    let first = format!(
        "[2024-05-01 10:00:00] Active IP: 1.2.3.4\nConnected IPs:\n\n{}\n",
        dashes()
    );
    assert_eq!(log.read_snapshot(), first);
    assert!(!log.read_snapshot().contains("IP Changed"));
    assert_eq!(poller.last_ip(), Some(&"1.2.3.4".to_string()));

    successful_cycle(&mut poller, &mut log, "5.6.7.8", "2024-05-01 10:00:30", "");
    let second = format!(
        "[2024-05-01 10:00:30] IP Changed!\nOld: 1.2.3.4\nNew: 5.6.7.8\n{}\n[2024-05-01 10:00:30] Active IP: 5.6.7.8\nConnected IPs:\n\n{}\n",
        dashes(),
        dashes()
    );
    assert_eq!(log.read_snapshot(), format!("{}{}", first, second));
    assert_eq!(poller.last_ip(), Some(&"5.6.7.8".to_string()));
}

#[test]
fn network_failure_logs_an_error_and_keeps_the_last_address() {
    let mut poller = new_poller(Platform::Unix, 30);
    let mut log = LogStore::new();
    successful_cycle(&mut poller, &mut log, "1.2.3.4", "t0", "");
    let before = log.read_snapshot();

    failed_cycle(&mut poller, &mut log, PollEvent::IpUnreachable, "2024-05-01 10:01:00");
    let gained = log.read_snapshot()[before.len()..].to_string();
    assert_eq!(gained, format!("[2024-05-01 10:01:00] Network error.\n{}\n", dashes()));
    assert!(gained.contains("error"));
    assert!(gained.contains(&dashes()));
    assert_eq!(poller.last_ip(), Some(&"1.2.3.4".to_string()));
}

#[test]
fn repeated_failures_each_log_one_entry() {
    let mut poller = new_poller(Platform::Windows, 30);
    let mut log = LogStore::new();
    failed_cycle(&mut poller, &mut log, PollEvent::IpUnreachable, "a");
    failed_cycle(&mut poller, &mut log, PollEvent::IpResponse("not json".to_string()), "b");
    failed_cycle(&mut poller, &mut log, PollEvent::IpResponse("[]".to_string()), "c");
    assert_eq!(log.read_snapshot().matches("Network error.").count(), 3);
    assert_eq!(
        log.read_snapshot(),
        format!(
            "[a] Network error.\n{d}\n[b] Network error.\n{d}\n[c] Network error.\n{d}\n",
            d = dashes()
        )
    );
    assert_eq!(poller.last_ip(), None);
}

#[test]
fn same_address_logs_no_change_block() {
    let mut poller = new_poller(Platform::Unix, 30);
    let mut log = LogStore::new();
    successful_cycle(&mut poller, &mut log, "1.2.3.4", "t1", "");
    successful_cycle(&mut poller, &mut log, "1.2.3.4", "t2", "");
    assert_eq!(
        log.read_snapshot(),
        format!(
            "[t1] Active IP: 1.2.3.4\nConnected IPs:\n\n{d}\n[t2] Active IP: 1.2.3.4\nConnected IPs:\n\n{d}\n",
            d = dashes()
        )
    );
}

#[test]
fn failure_between_two_addresses_does_not_hide_the_change() {
    let mut poller = new_poller(Platform::Unix, 30);
    let mut log = LogStore::new();
    successful_cycle(&mut poller, &mut log, "1.2.3.4", "t1", "");
    failed_cycle(&mut poller, &mut log, PollEvent::IpUnreachable, "t2");
    let before = log.read_snapshot();
    successful_cycle(&mut poller, &mut log, "5.6.7.8", "t3", "");
    let gained = log.read_snapshot()[before.len()..].to_string();
    assert!(gained.starts_with("[t3] IP Changed!\nOld: 1.2.3.4\nNew: 5.6.7.8\n"));
    assert_eq!(gained.matches("IP Changed!").count(), 1);
    assert_eq!(gained.matches("Active IP: ").count(), 1);
}

#[test]
fn entry_carries_the_connection_summary() {
    let mut poller = new_poller(Platform::Unix, 30);
    let mut log = LogStore::new();
    let output = "tcp 0 0 10.0.0.1:1 A:443 ESTABLISHED\ntcp 0 0 10.0.0.1:2 A:443 ESTABLISHED\ntcp 0 0 10.0.0.1:3 B:22 ESTABLISHED\n";
    successful_cycle(&mut poller, &mut log, "1.2.3.4", "t", output);
    assert_eq!(
        log.read_snapshot(),
        format!("[t] Active IP: 1.2.3.4\nConnected IPs:\n2 -> A\n1 -> B\n{}\n", dashes())
    );
}

#[test]
fn census_that_could_not_be_run_still_ends_the_cycle() {
    let mut poller = new_poller(Platform::Unix, 30);
    poller.advance(PollEvent::Tick, "t");
    poller.advance(answer("1.2.3.4"), "t");
    let step = poller.advance(PollEvent::CensusUnavailable, "t");
    assert_eq!(
        step.entry,
        Some(format!(
            "[t] Active IP: 1.2.3.4\nConnected IPs:\n[!] Unable to fetch netstat info\n{}\n",
            dashes()
        ))
    );
    assert_eq!(step.next, PollAction::Sleep(30));
    assert_eq!(poller.last_ip(), Some(&"1.2.3.4".to_string()));
}

#[test]
fn answer_without_address_is_logged_with_the_placeholder() {
    let mut poller = new_poller(Platform::Unix, 30);
    let mut log = LogStore::new();
    poller.advance(PollEvent::Tick, "t");
    poller.advance(PollEvent::IpResponse("{}".to_string()), "t");
    let step = poller.advance(PollEvent::CensusOutput(String::new()), "t");
    log.append(&step.entry.unwrap());
    assert_eq!(
        log.read_snapshot(),
        format!("[t] Active IP: ?\nConnected IPs:\n\n{}\n", dashes())
    );
    assert_eq!(poller.last_ip(), Some(&"?".to_string()));
}

#[test]
fn entry_is_stamped_with_the_time_of_the_answer() {
    let mut poller = new_poller(Platform::Unix, 30);
    poller.advance(PollEvent::Tick, "tick time");
    poller.advance(answer("1.2.3.4"), "answer time");
    let step = poller.advance(PollEvent::CensusOutput(String::new()), "census time");
    assert!(step.entry.unwrap().starts_with("[answer time] "));
}

#[test]
fn stray_events_change_nothing() {
    let mut poller = new_poller(Platform::Unix, 7);
    let step: PollStep = poller.advance(PollEvent::IpUnreachable, "t");
    assert_eq!(step.entry, None);
    assert_eq!(step.next, PollAction::Sleep(7));
    assert!(poller.is_idle());
    let step = poller.advance(PollEvent::CensusOutput("x".to_string()), "t");
    assert_eq!((step.entry, step.next), (None, PollAction::Sleep(7)));

    poller.advance(PollEvent::Tick, "t");
    let step = poller.advance(PollEvent::Tick, "t");
    assert_eq!((step.entry, step.next), (None, PollAction::FetchIp));
    let step = poller.advance(PollEvent::CensusUnavailable, "t");
    assert_eq!((step.entry, step.next), (None, PollAction::FetchIp));
    assert_eq!(poller.pending(), PollAction::FetchIp);

    poller.advance(answer("1.2.3.4"), "t");
    let step = poller.advance(PollEvent::Tick, "t");
    assert_eq!((step.entry, step.next), (None, PollAction::RunCensus));
    let step = poller.advance(answer("9.9.9.9"), "t");
    assert_eq!((step.entry, step.next), (None, PollAction::RunCensus));
    assert_eq!(poller.last_ip(), None);
    let step = poller.advance(PollEvent::CensusOutput(String::new()), "t");
    assert!(step.entry.unwrap().contains("Active IP: 1.2.3.4"));
}

#[test]
fn step_stamps_entries_with_the_clock() {
    let mut poller = new_poller(Platform::Unix, 30);
    assert_eq!(poller.step(PollEvent::Tick).next, PollAction::FetchIp);
    let step = poller.step(PollEvent::IpUnreachable);
    let entry = step.entry.unwrap();
    let stamp = &entry[1..20];
    assert_eq!(entry, format!("[{}] Network error.\n{}\n", stamp, dashes()));
    assert_ne!(stamp, "%Y-%m-%d %H:%M:%S");
}

#[test]
fn timestamp_has_the_fixed_shape() {
    let stamp = get_timestamp();
    let shape: String =
        stamp.chars().map(|c| if c.is_ascii_digit() { '9' } else { c }).collect();
    assert_eq!(shape, "9999-99-99 99:99:99");
    assert!(get_timestamp() >= stamp);
}

#[test]
fn timestamp_fields_are_in_range() {
    let stamp = get_timestamp();
    let field = |at: usize| stamp[at..at + 2].parse::<u32>().unwrap();
    assert!(stamp[0..4].parse::<u32>().unwrap() >= 1970);
    assert!((1..=12).contains(&field(5)));
    assert!((1..=31).contains(&field(8)));
    assert!(field(11) <= 23);
    assert!(field(14) <= 59);
    assert!(field(17) <= 60);
}

#[test]
fn answer_with_an_address_goes_on_to_the_connections() {
    let mut poller = new_poller(Platform::Unix, 30);
    poller.advance(PollEvent::Tick, "t0");
    let step = poller.answer(Ok("1.2.3.4".to_string()), "t1");
    assert_eq!((step.entry, step.next), (None, PollAction::RunCensus));
    assert_eq!(poller.pending(), PollAction::RunCensus);
    assert_eq!(poller.last_ip(), None);
    let step = poller.advance(PollEvent::CensusOutput(String::new()), "t2");
    assert_eq!(
        step.entry,
        Some(format!("[t1] Active IP: 1.2.3.4\nConnected IPs:\n\n{}\n", dashes()))
    );
}

#[test]
fn answer_without_an_address_ends_the_cycle() {
    for error in [NetworkError::InvalidJson, NetworkError::NotAnObject] {
        let mut poller = new_poller(Platform::Unix, 5);
        poller.advance(PollEvent::Tick, "t0");
        let step = poller.answer(Err(error), "t1");
        assert_eq!(step.entry, Some(format!("[t1] Network error.\n{}\n", dashes())));
        assert_eq!(step.next, PollAction::Sleep(5));
        assert!(poller.is_idle());
        assert_eq!(poller.last_ip(), None);
    }
}

#[test]
fn answer_out_of_turn_changes_nothing() {
    let mut poller = new_poller(Platform::Unix, 30);
    let step = poller.answer(Ok("1.2.3.4".to_string()), "t");
    assert_eq!((step.entry, step.next), (None, PollAction::Sleep(30)));
    assert!(poller.is_idle());
    poller.advance(PollEvent::Tick, "t");
    poller.answer(Ok("1.2.3.4".to_string()), "t");
    let step = poller.answer(Err(NetworkError::InvalidJson), "t");
    assert_eq!((step.entry, step.next), (None, PollAction::RunCensus));
}
