//! The terminal interface: what each key does on each screen, the bytes a
//! key sends to a shared shell, and the lines the home screen shows.
//!
//! The program reads keys, performs the returned [`Action`] and reports its
//! outcome back through [`TuiState::sharing_started`] and
//! [`TuiState::viewing_started`].

use vstd::prelude::*;
use vstd::utf8::{encode_utf8, encode_scalar, char_is_scalar};
use crate::sharers::SharerInfo;
use crate::text::text_eq;

verus! {

/// A key, as far as the interface distinguishes keys.
#[derive(Debug, Clone, Copy, PartialEq, Eq, Structural)]
pub enum KeyCode {
    Char(char),
    Enter,
    Backspace,
    Tab,
    Up,
    Down,
    Left,
    Right,
    Esc,
    Other,
}

/// A key press, with whether Control was held.
#[derive(Debug, Clone, Copy)]
pub struct Key {
    pub code: KeyCode,
    pub ctrl: bool,
}

/// The screen shown.
#[derive(Debug)]
pub enum Screen {
    Home,
    Sharing,
    /// Viewing the terminal of the named host.
    Viewing(String),
}

/// The screen shown, as text.
pub enum ScreenView {
    Home,
    Sharing,
    Viewing(Seq<char>),
}

/// What the program is to do after a key.
#[derive(Debug)]
pub enum Action {
    Continue,
    Quit,
    /// Start sharing the terminal; report success with
    /// [`TuiState::sharing_started`].
    StartSharing,
    /// Stop sharing: drop the shell and the announcer.
    StopSharing,
    /// Connect to a sharer; report success with
    /// [`TuiState::viewing_started`].
    StartViewing { ip: String, port: u16, name: String },
    /// Stop viewing and show the home screen again.
    StopViewing,
    /// Send the bytes of this key to the shared shell.
    ForwardKey(Key),
}

/// The state of the interface.
pub struct TuiState {
    screen: Screen,
    is_sharing: bool,
    selected: Option<usize>,
}

/// The state of the interface, as values.
pub struct TuiView {
    pub screen: ScreenView,
    pub is_sharing: bool,
    pub selected: Option<usize>,
}

impl View for TuiState {
    type V = TuiView;

    closed spec fn view(&self) -> TuiView {
        TuiView {
            screen: match self.screen {
                Screen::Home => ScreenView::Home,
                Screen::Sharing => ScreenView::Sharing,
                Screen::Viewing(n) => ScreenView::Viewing(n@),
            },
            is_sharing: self.is_sharing,
            selected: self.selected,
        }
    }
}

/// The terminal is shared exactly while the sharing screen is shown.
pub open spec fn tui_valid(v: TuiView) -> bool {
    v.screen is Sharing <==> v.is_sharing
}

/// `q`, or Control and `c`.
pub open spec fn is_quit_key(k: Key) -> bool {
    k.code == KeyCode::Char('q') || (k.code == KeyCode::Char('c') && k.ctrl)
}

/// The selection after moving down a list of `len` entries: the next entry,
/// wrapping to the first; the first when nothing was selected.
pub open spec fn selection_down(sel: Option<usize>, len: nat) -> usize {
    match sel {
        Some(i) => ((i + 1) % (len as int)) as usize,
        None => 0,
    }
}

/// The selection after moving up a list of `len` entries: the previous
/// entry, wrapping from the first to the last; the first when nothing was
/// selected.
pub open spec fn selection_up(sel: Option<usize>, len: nat) -> usize {
    match sel {
        Some(i) => if i == 0 { (len - 1) as usize } else { (i - 1) as usize },
        None => 0,
    }
}

/// What `k` does on the home screen, given the listed sharers.
pub open spec fn home_step(v: TuiView, k: Key, list: Seq<SharerInfo>) -> (TuiView, Action) {
    if is_quit_key(k) {
        (v, Action::Quit)
    } else {
        match k.code {
            KeyCode::Char('s') => if v.is_sharing {
                (TuiView { is_sharing: false, ..v }, Action::StopSharing)
            } else {
                (v, Action::StartSharing)
            },
            KeyCode::Down | KeyCode::Char('j') => if list.len() > 0 {
                (TuiView { selected: Some(selection_down(v.selected, list.len())), ..v }, Action::Continue)
            } else {
                (v, Action::Continue)
            },
            KeyCode::Up | KeyCode::Char('k') => if list.len() > 0 {
                (TuiView { selected: Some(selection_up(v.selected, list.len())), ..v }, Action::Continue)
            } else {
                (v, Action::Continue)
            },
            KeyCode::Enter => match v.selected {
                Some(i) => if i < list.len() {
                    (v, Action::StartViewing { ip: list[i as int].ip, port: list[i as int].port, name: list[i as int].hostname })
                } else {
                    (v, Action::Continue)
                },
                None => (v, Action::Continue),
            },
            _ => (v, Action::Continue),
        }
    }
}

/// What `k` does on the screen shown.
pub open spec fn step(v: TuiView, k: Key, list: Seq<SharerInfo>) -> (TuiView, Action) {
    match v.screen {
        ScreenView::Home => home_step(v, k, list),
        ScreenView::Sharing => if k.code == KeyCode::Esc {
            (TuiView { screen: ScreenView::Home, is_sharing: false, ..v }, Action::StopSharing)
        } else {
            (v, Action::ForwardKey(k))
        },
        ScreenView::Viewing(_) => if k.code == KeyCode::Esc {
            (TuiView { screen: ScreenView::Home, ..v }, Action::StopViewing)
        } else {
            (v, Action::Continue)
        },
    }
}

impl TuiState {
    #[verifier::type_invariant]
    spec fn inv(&self) -> bool {
        tui_valid(self@)
    }

    /// The home screen, not sharing, nothing selected.
    pub fn new() -> (res: TuiState)
        ensures
            res@ == (TuiView { screen: ScreenView::Home, is_sharing: false, selected: None }),
    {
        TuiState { screen: Screen::Home, is_sharing: false, selected: None }
    }

    /// Whether the terminal is being shared.
    pub fn is_sharing(&self) -> (res: bool)
        ensures
            res == self@.is_sharing,
            tui_valid(self@),
    {
        proof {
            use_type_invariant(self);
        }
        self.is_sharing
    }

    /// The selected entry of the sharer list.
    pub fn selected(&self) -> (res: Option<usize>)
        ensures
            res == self@.selected,
    {
        self.selected
    }

    /// The screen shown.
    pub fn screen(&self) -> (res: &Screen)
        ensures
            self@.screen == match *res {
                Screen::Home => ScreenView::Home,
                Screen::Sharing => ScreenView::Sharing,
                Screen::Viewing(n) => ScreenView::Viewing(n@),
            },
    {
        &self.screen
    }

    /// Handles a key on the screen shown, with `sharers` the sharers (of
    /// every mode) listed on the home screen.
    pub fn on_key(&mut self, key: Key, sharers: &Vec<SharerInfo>) -> (res: Action)
        ensures
            (final(self)@, res) == step(old(self)@, key, sharers@),
            tui_valid(final(self)@),
    {
        proof {
            use_type_invariant(&*self);
        }
        match self.screen {
            Screen::Home => self.on_home_key(key, sharers),
            Screen::Sharing => {
                if key.code == KeyCode::Esc {
                    let selected = self.selected;
                    *self = TuiState { screen: Screen::Home, is_sharing: false, selected };
                    Action::StopSharing
                } else {
                    Action::ForwardKey(key)
                }
            },
            Screen::Viewing(_) => {
                if key.code == KeyCode::Esc {
                    self.screen = Screen::Home;
                    Action::StopViewing
                } else {
                    Action::Continue
                }
            },
        }
    }

    fn on_home_key(&mut self, key: Key, sharers: &Vec<SharerInfo>) -> (res: Action)
        requires
            old(self)@.screen is Home,
        ensures
            (final(self)@, res) == home_step(old(self)@, key, sharers@),
    {
        proof {
            use_type_invariant(&*self);
        }
        let len = sharers.len();
        if key.code == KeyCode::Char('q') || (key.code == KeyCode::Char('c') && key.ctrl) {
            return Action::Quit;
        }
        match key.code {
            KeyCode::Char('s') => {
                if self.is_sharing {
                    self.is_sharing = false;
                    Action::StopSharing
                } else {
                    Action::StartSharing
                }
            },
            KeyCode::Down | KeyCode::Char('j') => {
                if len > 0 {
                    let next = match self.selected {
                        Some(i) => (i % len + 1) % len,
                        None => 0,
                    };
                    proof {
                        if let Some(i) = old(self).selected {
                            lemma_mod_step(i as int, len as int);
                        }
                    }
                    self.selected = Some(next);
                }
                Action::Continue
            },
            KeyCode::Up | KeyCode::Char('k') => {
                if len > 0 {
                    let next = match self.selected {
                        Some(i) => if i == 0 { len - 1 } else { i - 1 },
                        None => 0,
                    };
                    self.selected = Some(next);
                }
                Action::Continue
            },
            KeyCode::Enter => {
                match self.selected {
                    Some(i) => {
                        if i < len {
                            let s = &sharers[i];
                            Action::StartViewing {
                                ip: s.ip.clone(),
                                port: s.port,
                                name: s.hostname.clone(),
                            }
                        } else {
                            Action::Continue
                        }
                    },
                    None => Action::Continue,
                }
            },
            _ => Action::Continue,
        }
    }

    /// Sharing, asked for on the home screen, has started: the sharing
    /// screen is shown.
    pub fn sharing_started(&mut self)
        requires
            old(self)@.screen is Home,
        ensures
            final(self)@ == (TuiView { screen: ScreenView::Sharing, is_sharing: true, ..old(self)@ }),
    {
        let selected = self.selected;
        *self = TuiState { screen: Screen::Sharing, is_sharing: true, selected };
    }

    /// Viewing the terminal of `name`, asked for on the home screen, has
    /// started.
    pub fn viewing_started(&mut self, name: String)
        requires
            old(self)@.screen is Home,
        ensures
            final(self)@ == (TuiView { screen: ScreenView::Viewing(name@), ..old(self)@ }),
            !final(self)@.is_sharing,
    {
        proof {
            use_type_invariant(&*self);
        }
        self.screen = Screen::Viewing(name);
    }
}

/// The bytes a key sends to a shared shell: a character its UTF-8 encoding,
/// or with Control its code's low five bits; Enter a carriage return;
/// Backspace DEL; Tab a tab; the arrows their ANSI escape sequences; any
/// other key nothing.
pub open spec fn key_bytes(k: Key) -> Seq<u8> {
    match k.code {
        KeyCode::Char(c) => if k.ctrl {
            seq![((c as u32) % 32) as u8]
        } else {
            encode_utf8(seq![c])
        },
        KeyCode::Enter => seq![0x0du8],
        KeyCode::Backspace => seq![0x7fu8],
        KeyCode::Tab => seq![0x09u8],
        KeyCode::Up => seq![0x1bu8, 0x5bu8, 0x41u8],
        KeyCode::Down => seq![0x1bu8, 0x5bu8, 0x42u8],
        KeyCode::Right => seq![0x1bu8, 0x5bu8, 0x43u8],
        KeyCode::Left => seq![0x1bu8, 0x5bu8, 0x44u8],
        _ => Seq::empty(),
    }
}

fn encode_char(c: char) -> (res: Vec<u8>)
    ensures
        res@ == encode_utf8(seq![c]),
{
    let v = c as u32;
    proof {
        char_is_scalar(c);
        assert(seq![c].drop_first() =~= Seq::<char>::empty());
        reveal_with_fuel(encode_utf8, 2);
        assert(encode_utf8(seq![c]) == encode_scalar(v));
    }
    let mut res: Vec<u8> = Vec::new();
    if v <= 0x7F {
        res.push((v & 0x7F) as u8);
    } else if v <= 0x7FF {
        res.push(0xC0u8 | ((v >> 6) & 0x1F) as u8);
        res.push(0x80u8 | (v & 0x3F) as u8);
    } else if v <= 0xFFFF {
        res.push(0xE0u8 | ((v >> 12) & 0x0F) as u8);
        res.push(0x80u8 | ((v >> 6) & 0x3F) as u8);
        res.push(0x80u8 | (v & 0x3F) as u8);
    } else {
        res.push(0xF0u8 | ((v >> 18) & 0x7) as u8);
        res.push(0x80u8 | ((v >> 12) & 0x3F) as u8);
        res.push(0x80u8 | ((v >> 6) & 0x3F) as u8);
        res.push(0x80u8 | (v & 0x3F) as u8);
    }
    assert(res@ =~= encode_scalar(v));
    res
}

/// The bytes a key sends to a shared shell (see [`key_bytes`]).
pub fn key_to_bytes(key: Key) -> (res: Vec<u8>)
    ensures
        res@ == key_bytes(key),
{
    match key.code {
        KeyCode::Char(c) => {
            if key.ctrl {
                let v = c as u32;
                assert(v & 0x1f == v % 32) by (bit_vector);
                vec![(v & 0x1f) as u8]
            } else {
                encode_char(c)
            }
        },
        KeyCode::Enter => vec![0x0du8],
        KeyCode::Backspace => vec![0x7fu8],
        KeyCode::Tab => vec![0x09u8],
        KeyCode::Up => vec![0x1bu8, 0x5bu8, 0x41u8],
        KeyCode::Down => vec![0x1bu8, 0x5bu8, 0x42u8],
        KeyCode::Right => vec![0x1bu8, 0x5bu8, 0x43u8],
        KeyCode::Left => vec![0x1bu8, 0x5bu8, 0x44u8],
        _ => Vec::new(),
    }
}

/// The status line of the home screen.
pub open spec fn home_status(hostname: Seq<char>, ip: Seq<char>, is_sharing: bool) -> Seq<char> {
    "You: "@ + hostname + " ("@ + ip + ")  "@ + if is_sharing {
        "● SHARING (press 's' to stop)"@
    } else {
        "press 's' to share terminal"@
    }
}

/// The status line of the home screen: who this host is, and whether it
/// shares its terminal.
pub fn home_status_line(hostname: &str, ip: &str, is_sharing: bool) -> (res: String)
    ensures
        res@ == home_status(hostname@, ip@, is_sharing),
{
    let mut res = String::from_str("You: ");
    res.append(hostname);
    res.append(" (");
    res.append(ip);
    res.append(")  ");
    if is_sharing {
        res.append("● SHARING (press 's' to stop)");
    } else {
        res.append("press 's' to share terminal");
    }
    res
}

/// The entry of a sharer in the home screen's list.
pub open spec fn sharer_item(s: SharerInfo) -> Seq<char> {
    "  "@ + s.hostname@ + " ("@ + s.ip@ + ")"@ + (if s.sharing@.len() == 0 {
        Seq::<char>::empty()
    } else {
        " — "@ + s.sharing@
    }) + (if s.source@ == "tailscale"@ {
        " [ts]"@
    } else {
        Seq::<char>::empty()
    })
}

/// The entry of a sharer in the home screen's list: host and address, what
/// it shares if it says, and a tag for peers found through Tailscale.
pub fn sharer_list_item(s: &SharerInfo) -> (res: String)
    ensures
        res@ == sharer_item(*s),
{
    let mut res = String::from_str("  ");
    res.append(s.hostname.as_str());
    res.append(" (");
    res.append(s.ip.as_str());
    res.append(")");
    if !s.sharing.as_str().is_empty() {
        res.append(" — ");
        res.append(s.sharing.as_str());
    }
    if text_eq(s.source.as_str(), "tailscale") {
        res.append(" [ts]");
    }
    assert(res@ =~= sharer_item(*s));
    res
}

/// What a terminal sharer announces that it shares: "Terminal - " and the
/// user's shell, or "sh" where the shell is unknown.
pub fn terminal_share_label(shell: Option<&str>) -> (res: String)
    ensures
        res@ == "Terminal - "@ + match shell {
            Some(s) => s@,
            None => "sh"@,
        },
{
    let mut res = String::from_str("Terminal - ");
    match shell {
        Some(s) => res.append(s),
        None => res.append("sh"),
    }
    res
}

/// Every key keeps the state valid: the terminal is shared exactly while
/// the sharing screen is shown.
pub proof fn law_step_keeps_valid(v: TuiView, k: Key, list: Seq<SharerInfo>)
    requires
        tui_valid(v),
    ensures
        tui_valid(step(v, k, list).0),
{
}

/// Escape leaves the sharing and viewing screens for the home screen, and
/// leaving the sharing screen stops sharing; the state stays valid.
pub proof fn law_escape_returns_home(v: TuiView, list: Seq<SharerInfo>)
    requires
        tui_valid(v),
        !(v.screen is Home),
    ensures
        step(v, Key { code: KeyCode::Esc, ctrl: false }, list).0.screen is Home,
        v.screen is Sharing ==> !step(v, Key { code: KeyCode::Esc, ctrl: false }, list).0.is_sharing
            && step(v, Key { code: KeyCode::Esc, ctrl: false }, list).1 == Action::StopSharing,
        v.screen is Viewing ==> step(v, Key { code: KeyCode::Esc, ctrl: false }, list).1
            == Action::StopViewing,
        tui_valid(step(v, Key { code: KeyCode::Esc, ctrl: false }, list).0),
{
}

/// Moving through a non-empty list of sharers on the home screen keeps the
/// selection on an entry of the list, if it was on one or there was none.
pub proof fn law_navigation_stays_in_list(v: TuiView, k: Key, list: Seq<SharerInfo>)
    requires
        v.screen is Home,
        list.len() > 0,
        match v.selected {
            Some(i) => i < list.len(),
            None => true,
        },
        k.code == KeyCode::Down || k.code == KeyCode::Up || k.code == KeyCode::Char('j')
            || k.code == KeyCode::Char('k'),
    ensures
        step(v, k, list).0.selected matches Some(j) && j < list.len(),
        step(v, k, list).1 == Action::Continue,
{
    if let Some(i) = v.selected {
        lemma_mod_step(i as int, list.len() as int);
    }
}

/// Moving down from the last entry selects the first, and moving up from
/// the first selects the last; moving down then up returns to the entry.
pub proof fn law_navigation_wraps(i: usize, len: nat)
    requires
        i < len,
        len <= usize::MAX,
    ensures
        i == len - 1 ==> selection_down(Some(i), len) == 0,
        i == 0 ==> selection_up(Some(i), len) == len - 1,
        selection_up(Some(selection_down(Some(i), len)), len) == i,
{
    if i + 1 < len {
        assert((i + 1) % (len as int) == i + 1) by (nonlinear_arith)
            requires
                0 <= i + 1 < len,
        ;
    } else {
        assert((i + 1) % (len as int) == 0) by (nonlinear_arith)
            requires
                i + 1 == len,
                len > 0,
        ;
    }
}

/// On the sharing screen every key but Escape is forwarded, as it is, to
/// the shared shell, and the state is left unchanged.
pub proof fn law_sharing_forwards_every_other_key(v: TuiView, k: Key, list: Seq<SharerInfo>)
    requires
        v.screen is Sharing,
        k.code != KeyCode::Esc,
    ensures
        step(v, k, list).0 == v,
        step(v, k, list).1 == Action::ForwardKey(k),
{
}

/// With Control held, a character key sends one byte: the character's code
/// reduced to its low five bits (the byte is below 32 and differs from the
/// code by a multiple of 32). For a letter that is its place in the
/// alphabet: Control-A (or a) sends 1, ..., Control-Z sends 26.
pub proof fn law_control_key_bytes(c: char)
    ensures
        key_bytes(Key { code: KeyCode::Char(c), ctrl: true }).len() == 1,
        key_bytes(Key { code: KeyCode::Char(c), ctrl: true })[0] < 32,
        ((c as u32) as int - key_bytes(Key { code: KeyCode::Char(c), ctrl: true })[0] as int) % 32
            == 0,
        97 <= (c as u32) <= 122 ==> key_bytes(Key { code: KeyCode::Char(c), ctrl: true })[0] as int
            == (c as u32) as int - 96,
        65 <= (c as u32) <= 90 ==> key_bytes(Key { code: KeyCode::Char(c), ctrl: true })[0] as int
            == (c as u32) as int - 64,
{
    let x = (c as u32) as int;
    let b = key_bytes(Key { code: KeyCode::Char(c), ctrl: true })[0];
    assert(b as int == x % 32);
    assert(0 <= x % 32 < 32 && (x - x % 32) % 32 == 0) by (nonlinear_arith)
        requires
            x >= 0,
    ;
    if 97 <= x <= 122 {
        assert(x % 32 == x - 96) by (nonlinear_arith)
            requires
                97 <= x <= 122,
        ;
    }
    if 65 <= x <= 90 {
        assert(x % 32 == x - 64) by (nonlinear_arith)
            requires
                65 <= x <= 90,
        ;
    }
}

/// Without Control, an ASCII character key sends its own code.
pub proof fn law_ascii_key_bytes(c: char)
    requires
        (c as u32) < 128,
    ensures
        key_bytes(Key { code: KeyCode::Char(c), ctrl: false }) == seq![(c as u32) as u8],
{
    let v = c as u32;
    assert(seq![c].drop_first() =~= Seq::<char>::empty());
    reveal_with_fuel(encode_utf8, 2);
    assert(v & 0x7F == v) by (bit_vector)
        requires
            v < 128,
    ;
    assert(encode_scalar(v) =~= seq![v as u8]);
}

/// Without Control, a character key sends bytes that decode, as UTF-8, to
/// exactly that character.
pub proof fn law_char_key_bytes_decode(c: char)
    ensures
        vstd::utf8::decode_utf8(key_bytes(Key { code: KeyCode::Char(c), ctrl: false })) == seq![c],
{
    vstd::utf8::encode_utf8_decode_utf8(seq![c]);
}

/// On the home screen, `q` (and Control-C) quits leaving the state as it
/// is, and Enter opens the selected sharer of the list: its address, port
/// and host name.
pub proof fn law_home_quit_and_open(v: TuiView, k: Key, list: Seq<SharerInfo>)
    requires
        v.screen is Home,
    ensures
        (k.code == KeyCode::Char('q') || (k.code == KeyCode::Char('c') && k.ctrl)) ==> step(v, k, list)
            == (v, Action::Quit),
        (k.code == KeyCode::Enter && v.selected is Some && v.selected->0 < list.len()) ==> step(v, k, list)
            == (v, Action::StartViewing {
                ip: list[v.selected->0 as int].ip,
                port: list[v.selected->0 as int].port,
                name: list[v.selected->0 as int].hostname,
            }),
        (k.code == KeyCode::Enter && !(v.selected is Some && v.selected->0 < list.len())) ==> step(v, k, list)
            == (v, Action::Continue),
{
}

proof fn lemma_mod_step(i: int, len: int)
    requires
        0 <= i,
        0 < len,
    ensures
        (i % len + 1) % len == (i + 1) % len,
        (i % len + 1) <= len,
{
    assert((i % len + 1) % len == (i + 1) % len) by (nonlinear_arith)
        requires
            0 <= i,
            0 < len,
    ;
    assert(i % len < len) by (nonlinear_arith)
        requires
            0 < len,
    ;
}

} // verus!
