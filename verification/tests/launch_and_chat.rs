use p2p_tor_chat::chat::ChatMessage;
use p2p_tor_chat::chat::StartupChoice;
use p2p_tor_chat::chat::chat_title;
use p2p_tor_chat::chat::incoming_text;
use p2p_tor_chat::chat::own_line;
use p2p_tor_chat::chat::peer_line;
use p2p_tor_chat::chat::shows_usage;
use p2p_tor_chat::chat::startup_choice;
use p2p_tor_chat::chat::text_message;
use p2p_tor_chat::chat::thumbnail_size;
use p2p_tor_chat::launch::LaunchState;
use p2p_tor_chat::launch::LaunchStep;
use p2p_tor_chat::launch::TorConnector;
use p2p_tor_chat::launch::TorLaunch;
use p2p_tor_chat::launch::control_socket_path;
use p2p_tor_chat::launch::key_path;
use p2p_tor_chat::launch::profile_dir;
use p2p_tor_chat::launch::socks_port_of_line;
use p2p_tor_chat::launch::tor_arguments;
use p2p_tor_chat::launch::torrc_path;
use p2p_tor_chat::pool::grown_count;
use p2p_tor_chat::pool::submit;

#[test]
fn launch_follows_the_log() {
    let mut l = TorLaunch::new();
    assert_eq!(l.on_log_line("[notice] Bootstrapped 0%"), LaunchStep::KeepReading);
    assert_eq!(l.on_log_line("[notice] Opened Socks listener on 127.0.0.1:9050"), LaunchStep::KeepReading);
    assert_eq!(l.on_log_line("[notice] Opened Control listener connection (ready) on /p/control-socket"), LaunchStep::ConnectControl);
    assert_eq!(l.state, LaunchState::AwaitingSocks);
    assert_eq!(l.on_log_line("[notice] Opened Socks listener on 127.0.0.1:x"), LaunchStep::UnreadableSocksPort);
    assert_eq!(l.on_log_line("[notice] Opened Socks listener connection (ready) on 127.0.0.1:41237"), LaunchStep::KeepReading);
    assert_eq!(l.on_log_line("[notice] Opened Socks listener on 127.0.0.1:41237"), LaunchStep::Ready { socks_port: 41237 });
    assert_eq!(l.state, LaunchState::Running { socks_port: 41237 });
    assert_eq!(l.on_log_line("[notice] Opened Socks listener on 127.0.0.1:1"), LaunchStep::Ignored);
}

#[test]
fn socks_port_is_after_last_colon() {
    assert_eq!(socks_port_of_line("Opened Socks listener on 127.0.0.1:9050"), Some(9050));
    assert_eq!(socks_port_of_line("Opened Socks listener on [::1]:9150"), Some(9150));
    assert_eq!(socks_port_of_line("no port"), None);
    assert_eq!(socks_port_of_line("65536"), None);
}

#[test]
fn tor_is_started_with_these_arguments() {
    let args = tor_arguments("/w/alice", "/w/torrc");
    let expected = vec![
        "-f", "/w/torrc", "ControlPort", "unix:/w/alice/control-socket", "DisableNetwork", "1",
        "DataDirectory", "data", "SocksPort", "auto", "Log", "notice file tor-log", "Log", "notice",
    ];
    assert_eq!(args, expected);
}

#[test]
fn profile_paths() {
    let dir = profile_dir("/w", "alice");
    assert_eq!(dir, "/w/alice");
    assert_eq!(torrc_path("/w"), "/w/torrc");
    assert_eq!(key_path(&dir), "/w/alice/key");
    assert_eq!(control_socket_path(&dir), "/w/alice/control-socket");
}

#[test]
fn connector_addresses() {
    let c = TorConnector::new(9050);
    assert_eq!(c.socks_port, 9050);
    assert_eq!(c.proxy_address(), "127.0.0.1:9050");
}

#[test]
fn chat_lines() {
    assert_eq!(chat_title("alice"), "chat for profile: alice");
    assert_eq!(own_line("hi"), "you: hi");
    assert_eq!(peer_line("yo"), "peer: yo");
    assert_eq!(text_message("x".to_string()), ChatMessage::Text("x".to_string()));
    assert_eq!(incoming_text(ChatMessage::Text("hey".to_string())), Some("hey".to_string()));
    assert_eq!(incoming_text(ChatMessage::FileRequest(3)), None);
    assert_eq!(incoming_text(ChatMessage::FileOffer { file_id: 1, file_size: 2 }), None);
}

#[test]
fn thumbnails_fit_the_box() {
    assert_eq!(thumbnail_size(50, 40), (50, 40));
    assert_eq!(thumbnail_size(400, 200), (100, 50));
    assert_eq!(thumbnail_size(200, 400), (50, 100));
    assert_eq!(thumbnail_size(1000, 1), (100, 0));
    assert_eq!(thumbnail_size(300, 299), (100, 99));
    assert_eq!(thumbnail_size(100, 100), (100, 100));
}

#[test]
fn startup_from_arguments() {
    let one = vec!["prog".to_string()];
    let two = vec!["prog".to_string(), "alice".to_string()];
    let three = vec!["prog".to_string(), "a".to_string(), "b".to_string()];
    assert_eq!(startup_choice(&one), StartupChoice::AskForProfile);
    assert_eq!(startup_choice(&two), StartupChoice::OpenProfile("alice".to_string()));
    assert_eq!(startup_choice(&three), StartupChoice::AskForProfile);
    assert!(!shows_usage(2));
    assert!(shows_usage(3));
}

#[test]
fn pool_grows_when_jobs_wait() {
    assert_eq!(grown_count(0, 4), None);
    assert_eq!(grown_count(1, 4), Some(5));
    assert_eq!(grown_count(3, usize::MAX), None);
    let mut pool = threadpool::ThreadPool::new(1);
    let (tx, rx) = std::sync::mpsc::channel::<()>();
    let done = std::sync::Arc::new(std::sync::atomic::AtomicUsize::new(0));
    let d = done.clone();
    submit(&mut pool, move || {
        rx.recv().unwrap();
        d.fetch_add(1, std::sync::atomic::Ordering::SeqCst);
    });
    for _ in 0..2 {
        let d = done.clone();
        submit(&mut pool, move || {
            d.fetch_add(1, std::sync::atomic::Ordering::SeqCst);
        });
    }
    assert!(pool.max_count() >= 2);
    tx.send(()).unwrap();
    pool.join();
    assert_eq!(done.load(std::sync::atomic::Ordering::SeqCst), 3);
}

#[test]
fn peer_lines_follow_the_stream() {
    let stream = vec![
        ChatMessage::Text("a".to_string()),
        ChatMessage::Text("b c".to_string()),
        ChatMessage::FileRequest(1),
        ChatMessage::Text("never shown".to_string()),
    ];
    let mut shown = Vec::new();
    for m in stream {
        match incoming_text(m) {
            Some(t) => shown.push(peer_line(&t)),
            None => break,
        }
    }
    assert_eq!(shown, vec!["peer: a".to_string(), "peer: b c".to_string()]);
}

#[test]
fn worker_count_only_grows_over_submissions() {
    let mut count: usize = 4;
    let mut seen = vec![count];
    for queued in [0usize, 2, 0, 1, 5, 0] {
        if let Some(n) = grown_count(queued, count) {
            count = n;
        }
        seen.push(count);
    }
    assert_eq!(seen, vec![4, 4, 5, 5, 6, 7, 7]);
}
