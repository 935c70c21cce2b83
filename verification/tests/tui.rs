use screenshare::sharers::SharerInfo;
use screenshare::tui::{
    home_status_line, key_to_bytes, sharer_list_item, terminal_share_label, Action, Key, KeyCode,
    Screen, TuiState,
};
use screenshare::desktop::{desktop_sharer_label, should_refresh_windows};
use screenshare::launch::use_desktop_window;

fn key(code: KeyCode) -> Key {
    Key { code, ctrl: false }
}

fn ctrl(c: char) -> Key {
    Key { code: KeyCode::Char(c), ctrl: true }
}

fn info(host: &str, ip: &str, sharing: &str, source: &str) -> SharerInfo {
    SharerInfo {
        hostname: host.into(),
        ip: ip.into(),
        port: 42070,
        sharing: sharing.into(),
        mode: "terminal".into(),
        source: source.into(),
    }
}

#[test]
fn key_bytes() {
    assert_eq!(key_to_bytes(key(KeyCode::Char('a'))), b"a".to_vec());
    assert_eq!(key_to_bytes(key(KeyCode::Char('é'))), vec![0xc3, 0xa9]);
    assert_eq!(key_to_bytes(key(KeyCode::Char('€'))), vec![0xe2, 0x82, 0xac]);
    assert_eq!(key_to_bytes(key(KeyCode::Char('😀'))), vec![0xf0, 0x9f, 0x98, 0x80]);
    assert_eq!(key_to_bytes(ctrl('c')), vec![3]);
    assert_eq!(key_to_bytes(ctrl('a')), vec![1]);
    assert_eq!(key_to_bytes(key(KeyCode::Enter)), vec![b'\r']);
    assert_eq!(key_to_bytes(key(KeyCode::Backspace)), vec![0x7f]);
    assert_eq!(key_to_bytes(key(KeyCode::Tab)), vec![b'\t']);
    assert_eq!(key_to_bytes(key(KeyCode::Up)), b"\x1b[A".to_vec());
    assert_eq!(key_to_bytes(key(KeyCode::Down)), b"\x1b[B".to_vec());
    assert_eq!(key_to_bytes(key(KeyCode::Right)), b"\x1b[C".to_vec());
    assert_eq!(key_to_bytes(key(KeyCode::Left)), b"\x1b[D".to_vec());
    assert_eq!(key_to_bytes(key(KeyCode::Esc)), Vec::<u8>::new());
    assert_eq!(key_to_bytes(key(KeyCode::Other)), Vec::<u8>::new());
}

#[test]
fn home_navigation_wraps() {
    let list = vec![info("a", "1", "", "lan"), info("b", "2", "", "lan"), info("c", "3", "", "lan")];
    let mut s = TuiState::new();
    assert!(matches!(s.on_key(key(KeyCode::Down), &list), Action::Continue));
    assert_eq!(s.selected(), Some(0));
    s.on_key(key(KeyCode::Char('j')), &list);
    s.on_key(key(KeyCode::Down), &list);
    assert_eq!(s.selected(), Some(2));
    s.on_key(key(KeyCode::Down), &list);
    assert_eq!(s.selected(), Some(0));
    s.on_key(key(KeyCode::Up), &list);
    assert_eq!(s.selected(), Some(2));
    s.on_key(key(KeyCode::Char('k')), &list);
    assert_eq!(s.selected(), Some(1));
    let empty: Vec<SharerInfo> = vec![];
    s.on_key(key(KeyCode::Down), &empty);
    assert_eq!(s.selected(), Some(1));
    let mut fresh = TuiState::new();
    fresh.on_key(key(KeyCode::Up), &list);
    assert_eq!(fresh.selected(), Some(0));
}

#[test]
fn quit_keys() {
    let list: Vec<SharerInfo> = vec![];
    let mut s = TuiState::new();
    assert!(matches!(s.on_key(key(KeyCode::Char('q')), &list), Action::Quit));
    assert!(matches!(s.on_key(ctrl('q'), &list), Action::Quit));
    assert!(matches!(s.on_key(ctrl('c'), &list), Action::Quit));
    assert!(matches!(s.on_key(key(KeyCode::Char('c')), &list), Action::Continue));
}

#[test]
fn sharing_cycle() {
    let list: Vec<SharerInfo> = vec![];
    let mut s = TuiState::new();
    assert!(matches!(s.on_key(key(KeyCode::Char('s')), &list), Action::StartSharing));
    assert!(!s.is_sharing());
    s.sharing_started();
    assert!(s.is_sharing());
    assert!(matches!(s.screen(), Screen::Sharing));
    match s.on_key(key(KeyCode::Char('x')), &list) {
        Action::ForwardKey(k) => assert_eq!(k.code, KeyCode::Char('x')),
        other => panic!("unexpected {other:?}"),
    }
    match s.on_key(ctrl('q'), &list) {
        Action::ForwardKey(k) => {
            assert_eq!(k.code, KeyCode::Char('q'));
            assert!(k.ctrl);
        }
        other => panic!("unexpected {other:?}"),
    }
    assert!(s.is_sharing());
    assert!(matches!(s.on_key(key(KeyCode::Esc), &list), Action::StopSharing));
    assert!(!s.is_sharing());
    assert!(matches!(s.screen(), Screen::Home));
}

#[test]
fn viewing_cycle() {
    let list = vec![info("a", "10.0.0.1", "", "lan"), info("b", "10.0.0.2", "", "lan")];
    let mut s = TuiState::new();
    assert!(matches!(s.on_key(key(KeyCode::Enter), &list), Action::Continue));
    s.on_key(key(KeyCode::Down), &list);
    s.on_key(key(KeyCode::Down), &list);
    match s.on_key(key(KeyCode::Enter), &list) {
        Action::StartViewing { ip, port, name } => {
            assert_eq!(ip, "10.0.0.2");
            assert_eq!(port, 42070);
            assert_eq!(name, "b");
        }
        other => panic!("unexpected {other:?}"),
    }
    s.viewing_started("b".into());
    assert!(matches!(s.screen(), Screen::Viewing(n) if n == "b"));
    assert!(matches!(s.on_key(key(KeyCode::Char('q')), &list), Action::Continue));
    assert!(matches!(s.on_key(key(KeyCode::Esc), &list), Action::StopViewing));
    assert!(matches!(s.screen(), Screen::Home));
    let short = vec![info("a", "10.0.0.1", "", "lan")];
    assert!(matches!(s.on_key(key(KeyCode::Enter), &short), Action::Continue));
}

#[test]
fn home_labels() {
    assert_eq!(home_status_line("box", "10.0.0.5", false), "You: box (10.0.0.5)  press 's' to share terminal");
    assert_eq!(home_status_line("box", "10.0.0.5", true), "You: box (10.0.0.5)  ● SHARING (press 's' to stop)");
    assert_eq!(sharer_list_item(&info("a", "10.0.0.1", "", "lan")), "  a (10.0.0.1)");
    assert_eq!(sharer_list_item(&info("a", "10.0.0.1", "Terminal - zsh", "lan")), "  a (10.0.0.1) — Terminal - zsh");
    assert_eq!(sharer_list_item(&info("a", "100.1.1.1", "", "tailscale")), "  a (100.1.1.1) [ts]");
    assert_eq!(terminal_share_label(Some("/bin/zsh")), "Terminal - /bin/zsh");
    assert_eq!(terminal_share_label(None), "Terminal - sh");
}

#[test]
fn desktop_labels() {
    assert_eq!(desktop_sharer_label("a", "1.2.3.4", ""), "a (1.2.3.4)");
    assert_eq!(desktop_sharer_label("a", "1.2.3.4", "Full Screen"), "a (1.2.3.4) — Full Screen");
    assert!(should_refresh_windows(false, 2));
    assert!(!should_refresh_windows(false, 1));
    assert!(!should_refresh_windows(true, 5));
}

#[test]
fn interface_choice() {
    let args = |v: &[&str]| v.iter().map(|s| s.to_string()).collect::<Vec<String>>();
    assert!(!use_desktop_window(&args(&["screenshare"]), true));
    assert!(use_desktop_window(&args(&["screenshare"]), false));
    assert!(use_desktop_window(&args(&["screenshare", "--gui"]), true));
    assert!(!use_desktop_window(&args(&["screenshare", "--tui"]), false));
    assert!(use_desktop_window(&args(&["screenshare", "--tui", "--gui"]), false));
}
