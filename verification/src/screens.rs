//! The state of the terminal front end between frames: the setup form, the overlays and
//! the selections, and how the keys move them.

use vstd::prelude::*;

use crate::bot::BotDifficulty;
use crate::card::Card;
use crate::game::{GameConfig, TokenDistribution};
use crate::shift_token::ShiftToken;
use crate::text::{pop_char, push_char};

verus! {

/// A single log entry.
#[derive(Debug, Clone)]
pub struct LogEntry {
    /// The text of the entry.
    pub text: String,
    /// Whether the entry reports an error.
    pub is_error: bool,
}

/// Which overlay is currently displayed on top of the main layout.
#[derive(Debug, Clone)]
pub enum Overlay {
    /// Picking the pile to draw from.
    SourcePicker,
    /// Picking a shift token to play.
    TokenPicker,
    /// Picking the target of a token.
    TargetPicker { token: ShiftToken },
    /// Keeping or discarding the drawn card.
    DiscardChoice { drawn: Card, current: Card },
    /// Picking the die for an Impostor.
    ImpostorChoice { die1: u8, die2: u8, for_sand: bool, sand_choice: Option<u8> },
    /// Picking the die for PrimeSabacc.
    PrimeSabaccChoice { die1: u8, die2: u8 },
    /// Confirming the wish to quit.
    QuitConfirm,
    /// The end of the game.
    GameOver { winner_name: String, is_human: bool },
}

/// Focus state for keyboard navigation.
#[derive(Debug, Clone, Copy, PartialEq, Eq, Structural)]
pub enum Focus {
    /// The action bar of the playing screen.
    ActionBar,
    /// The setup form.
    Setup,
}

/// UI-only state (not game logic).
#[derive(Debug, Clone)]
pub struct TuiState {
    /// Where the keys go.
    pub focus: Focus,
    /// The selected entry of the action bar.
    pub selected_action: usize,
    /// The selected token in the token picker.
    pub selected_token: usize,
    /// The selected target in the target picker.
    pub selected_target: usize,
    /// The selected pile in the source picker.
    pub selected_source: usize,
    /// The selected answer in the discard choice (0 keeps the drawn card).
    pub selected_discard: usize,
    /// The selected die (0 for the first).
    pub selected_die: usize,
    /// The overlay shown, if any.
    pub overlay: Option<Overlay>,
    /// Whether the front end is to quit.
    pub should_quit: bool,
    /// Whether the help screen is shown.
    pub show_help: bool,
    /// Terminal width.
    pub terminal_width: u16,
    /// Terminal height.
    pub terminal_height: u16,
    /// How many entries the log is scrolled back.
    pub log_scroll_offset: usize,
    /// Whether the log follows new entries.
    pub log_auto_scroll: bool,
}

/// The widgets as a fresh session has them.
pub open spec fn default_tui() -> TuiState {
    TuiState {
        focus: Focus::Setup,
        selected_action: 0,
        selected_token: 0,
        selected_target: 0,
        selected_source: 0,
        selected_discard: 0,
        selected_die: 0,
        overlay: None,
        should_quit: false,
        show_help: false,
        terminal_width: 80,
        terminal_height: 24,
        log_scroll_offset: 0,
        log_auto_scroll: true,
    }
}

impl Default for TuiState {
    fn default() -> (t: Self)
        ensures
            t == default_tui(),
    {
        TuiState {
            focus: Focus::Setup,
            selected_action: 0,
            selected_token: 0,
            selected_target: 0,
            selected_source: 0,
            selected_discard: 0,
            selected_die: 0,
            overlay: None,
            should_quit: false,
            show_help: false,
            terminal_width: 80,
            terminal_height: 24,
            log_scroll_offset: 0,
            log_auto_scroll: true,
        }
    }
}

/// Which screen the front end is on.
#[derive(Debug, Clone, Copy, PartialEq, Eq, Structural)]
pub enum Screen {
    /// The setup form.
    Setup,
    /// A game in progress.
    Playing,
}

/// Side effects the front end is asked to carry out after a key or a tick.
#[derive(Debug, Clone, Copy, PartialEq, Eq, Structural)]
pub enum Command {
    /// Nothing to do.
    Idle,
    /// Let the bots play.
    RunBots,
    /// Leave the program.
    Quit,
}

/// A key as the front end reads it.
#[derive(Debug, Clone, Copy, PartialEq, Eq, Structural)]
pub enum Key {
    /// A character key.
    Char(char),
    /// Enter.
    Enter,
    /// Escape.
    Esc,
    /// Tab.
    Tab,
    /// Shift+Tab.
    BackTab,
    /// Left arrow.
    Left,
    /// Right arrow.
    Right,
    /// Up arrow.
    Up,
    /// Down arrow.
    Down,
    /// Backspace.
    Backspace,
    /// Page up.
    PageUp,
    /// Page down.
    PageDown,
    /// Any other key.
    Other,
}

/// A key press: the key, and whether Control was held.
#[derive(Debug, Clone, Copy, PartialEq, Eq, Structural)]
pub struct KeyPress {
    /// The key.
    pub code: Key,
    /// Whether Control was held.
    pub ctrl: bool,
}

/// What the front end reacts to.
#[derive(Debug, Clone, Copy, PartialEq, Eq, Structural)]
pub enum AppEvent {
    /// A key was pressed.
    Key(KeyPress),
    /// An animation tick (~33ms).
    Tick,
    /// The terminal was resized.
    Resize(u16, u16),
}

/// Setup screen fields.
#[derive(Debug, Clone)]
pub struct SetupState {
    /// The human player's name.
    pub player_name: String,
    /// The number of bots (1 to 7).
    pub num_bots: u8,
    /// The position of the buy-in among the offered ones.
    pub buy_in_index: usize,
    /// Whether shift tokens are played.
    pub tokens_enabled: bool,
    /// Tokens dealt to each player (1 to 8).
    pub tokens_per_player: u8,
    /// The selected field of the form.
    pub selected_field: usize,
}

impl Default for SetupState {
    fn default() -> (s: Self)
        ensures
            s.player_name@ == "Player"@,
            s.num_bots == 3,
            s.buy_in_index == 1,
            s.tokens_enabled,
            s.tokens_per_player == 4,
            s.selected_field == 0,
    {
        SetupState {
            player_name: "Player".to_owned(),
            num_bots: 3,
            buy_in_index: 1,
            tokens_enabled: true,
            tokens_per_player: 4,
            selected_field: 0,
        }
    }
}

/// The buy-in offered at each position: 50, 100, 150 and 200 credits.
pub open spec fn buy_in_option(i: int) -> u32 {
    if i == 0 {
        50
    } else if i == 1 {
        100
    } else if i == 2 {
        150
    } else {
        200
    }
}

/// The starting chips that go with each buy-in: 4, 5, 6 and 8.
pub open spec fn chips_option(i: int) -> u8 {
    if i == 0 {
        4
    } else if i == 1 {
        5
    } else if i == 2 {
        6
    } else {
        8
    }
}

/// The name of the `i`-th bot: seven names, in turn.
pub open spec fn bot_name(i: int) -> Seq<char> {
    let k = i % 7;
    if k == 0 {
        "Lando"@
    } else if k == 1 {
        "Han"@
    } else if k == 2 {
        "Chewie"@
    } else if k == 3 {
        "Qi'ra"@
    } else if k == 4 {
        "Beckett"@
    } else if k == 5 {
        "L3-37"@
    } else {
        "Dryden"@
    }
}

fn bot_name_text(i: usize) -> (s: String)
    ensures
        s@ == bot_name(i as int),
{
    let k = i % 7;
    let name = if k == 0 {
        "Lando"
    } else if k == 1 {
        "Han"
    } else if k == 2 {
        "Chewie"
    } else if k == 3 {
        "Qi'ra"
    } else if k == 4 {
        "Beckett"
    } else if k == 5 {
        "L3-37"
    } else {
        "Dryden"
    };
    name.to_owned()
}

/// What a key on the setup screen asks for.
#[derive(Debug, Clone, Copy, PartialEq, Eq, Structural)]
pub enum SetupOutcome {
    /// Stay on the form.
    Stay,
    /// Start the game.
    Start,
    /// Leave the program.
    Quit,
}

/// One less, but not below `floor`.
pub open spec fn down_to(v: u8, floor: u8) -> u8 {
    if v >= floor + 1 {
        (v - 1) as u8
    } else {
        floor
    }
}

/// The setup form after a key, and what the key asks for.
///
/// Tab/Down and Shift+Tab/Up move between the six fields; Enter on the last field starts
/// the game; Left and Right change the bots (1 to 7), the buy-in, the token switch and,
/// while tokens are on, the tokens per player (1 to 8); typing edits the name while the
/// name field is selected; `q` elsewhere, or Escape, quits.
pub open spec fn setup_key_effect(old: SetupState, new: SetupState, key: Key, out: SetupOutcome) -> bool {
    let f = old.selected_field;
    match key {
        Key::Tab | Key::Down => out == SetupOutcome::Stay && new == (SetupState {
            selected_field: ((f + 1) % 6) as usize,
            ..old
        }),
        Key::BackTab | Key::Up => out == SetupOutcome::Stay && new == (SetupState {
            selected_field: ((f + 5) % 6) as usize,
            ..old
        }),
        Key::Enter => new == old && out == (if f == 5 { SetupOutcome::Start } else { SetupOutcome::Stay }),
        Key::Left => out == SetupOutcome::Stay && new == (if f == 1 {
            SetupState { num_bots: down_to(old.num_bots, 1), ..old }
        } else if f == 2 {
            SetupState { buy_in_index: (if old.buy_in_index >= 1 { old.buy_in_index - 1 } else { 0 }) as usize, ..old }
        } else if f == 3 {
            SetupState { tokens_enabled: !old.tokens_enabled, ..old }
        } else if f == 4 && old.tokens_enabled {
            SetupState { tokens_per_player: down_to(old.tokens_per_player, 1), ..old }
        } else {
            old
        }),
        Key::Right => out == SetupOutcome::Stay && new == (if f == 1 {
            SetupState { num_bots: (if old.num_bots + 1 <= 7 { old.num_bots + 1 } else { 7 }) as u8, ..old }
        } else if f == 2 {
            SetupState { buy_in_index: (if old.buy_in_index + 1 <= 3 { old.buy_in_index + 1 } else { 3 }) as usize, ..old }
        } else if f == 3 {
            SetupState { tokens_enabled: !old.tokens_enabled, ..old }
        } else if f == 4 && old.tokens_enabled {
            SetupState {
                tokens_per_player: (if old.tokens_per_player + 1 <= 8 { old.tokens_per_player + 1 } else { 8 }) as u8,
                ..old
            }
        } else {
            old
        }),
        Key::Char(c) => if f == 0 {
            out == SetupOutcome::Stay && new.player_name@ == old.player_name@.push(c) && new == (SetupState {
                player_name: new.player_name,
                ..old
            })
        } else {
            new == old && out == (if c == 'q' { SetupOutcome::Quit } else { SetupOutcome::Stay })
        },
        Key::Backspace => out == SetupOutcome::Stay && if f == 0 {
            new.player_name@ == (if old.player_name@.len() > 0 {
                old.player_name@.drop_last()
            } else {
                old.player_name@
            }) && new == (SetupState { player_name: new.player_name, ..old })
        } else {
            new == old
        },
        Key::Esc => new == old && out == SetupOutcome::Quit,
        _ => new == old && out == SetupOutcome::Stay,
    }
}

/// The configuration the form describes: the human first, then the bots by name, the
/// buy-in and chips of the selected position, and tokens as switched.
pub open spec fn configured(s: SetupState, c: GameConfig) -> bool {
    &&& c.players@.len() == 1 + s.num_bots
    &&& c.players@[0].0@ == s.player_name@
    &&& !c.players@[0].1
    &&& forall|i: int| 1 <= i <= s.num_bots ==> (#[trigger] c.players@[i]).0@ == bot_name(i - 1) && c.players@[i].1
    &&& c.starting_chips == chips_option(s.buy_in_index as int)
    &&& c.buy_in == buy_in_option(s.buy_in_index as int)
    &&& c.enable_shift_tokens == s.tokens_enabled
    &&& c.token_distribution == (if s.tokens_enabled {
        TokenDistribution::Random { tokens_per_player: s.tokens_per_player as usize }
    } else {
        TokenDistribution::NoTokens
    })
    &&& c.bot_difficulty == BotDifficulty::Basic
}

impl SetupState {
    /// The buy-ins offered.
    pub const BUY_IN_OPTIONS: [u32; 4] = [50, 100, 150, 200];

    /// The starting chips that go with each buy-in.
    pub const CHIPS_OPTIONS: [u8; 4] = [4, 5, 6, 8];

    /// The fields of the form: name, bots, buy-in, tokens, tokens per player, start.
    pub const NUM_FIELDS: usize = 6;

    /// The selected buy-in.
    pub fn buy_in(&self) -> (b: u32)
        requires
            self.buy_in_index < 4,
        ensures
            b == buy_in_option(self.buy_in_index as int),
    {
        let i = self.buy_in_index;
        if i == 0 {
            50
        } else if i == 1 {
            100
        } else if i == 2 {
            150
        } else {
            200
        }
    }

    /// The starting chips of the selected buy-in.
    pub fn starting_chips(&self) -> (c: u8)
        requires
            self.buy_in_index < 4,
        ensures
            c == chips_option(self.buy_in_index as int),
    {
        let i = self.buy_in_index;
        if i == 0 {
            4
        } else if i == 1 {
            5
        } else if i == 2 {
            6
        } else {
            8
        }
    }

    /// Handle a key on the setup screen.
    pub fn on_key(&mut self, key: Key) -> (out: SetupOutcome)
        requires
            old(self).selected_field < usize::MAX - 5,
            old(self).num_bots < u8::MAX,
            old(self).buy_in_index < usize::MAX,
            old(self).tokens_per_player < u8::MAX,
        ensures
            setup_key_effect(*old(self), *final(self), key, out),
    {
        let field = self.selected_field;
        match key {
            Key::Tab | Key::Down => {
                self.selected_field = (field + 1) % 6;
                SetupOutcome::Stay
            },
            Key::BackTab | Key::Up => {
                self.selected_field = (field + 6 - 1) % 6;
                SetupOutcome::Stay
            },
            Key::Enter => if field == 6 - 1 {
                SetupOutcome::Start
            } else {
                SetupOutcome::Stay
            },
            Key::Left => {
                if field == 1 {
                    self.num_bots = if self.num_bots >= 2 { self.num_bots - 1 } else { 1 };
                } else if field == 2 {
                    self.buy_in_index = if self.buy_in_index >= 1 { self.buy_in_index - 1 } else { 0 };
                } else if field == 3 {
                    self.tokens_enabled = !self.tokens_enabled;
                } else if field == 4 && self.tokens_enabled {
                    self.tokens_per_player = if self.tokens_per_player >= 2 { self.tokens_per_player - 1 } else { 1 };
                }
                SetupOutcome::Stay
            },
            Key::Right => {
                if field == 1 {
                    self.num_bots = if self.num_bots + 1 <= 7 { self.num_bots + 1 } else { 7 };
                } else if field == 2 {
                    self.buy_in_index = if self.buy_in_index + 1 <= 3 { self.buy_in_index + 1 } else { 3 };
                } else if field == 3 {
                    self.tokens_enabled = !self.tokens_enabled;
                } else if field == 4 && self.tokens_enabled {
                    self.tokens_per_player = if self.tokens_per_player + 1 <= 8 {
                        self.tokens_per_player + 1
                    } else {
                        8
                    };
                }
                SetupOutcome::Stay
            },
            Key::Char(c) => {
                if field == 0 {
                    push_char(&mut self.player_name, c);
                    SetupOutcome::Stay
                } else if c == 'q' {
                    SetupOutcome::Quit
                } else {
                    SetupOutcome::Stay
                }
            },
            Key::Backspace => {
                if field == 0 {
                    let _ = pop_char(&mut self.player_name);
                }
                SetupOutcome::Stay
            },
            Key::Esc => SetupOutcome::Quit,
            _ => SetupOutcome::Stay,
        }
    }

    /// The configuration of the game the form describes.
    pub fn game_config(&self) -> (c: GameConfig)
        requires
            self.buy_in_index < 4,
        ensures
            configured(*self, c),
    {
        let mut players: Vec<(String, bool)> = Vec::new();
        players.push((self.player_name.clone(), false));
        let n = self.num_bots as usize;
        let mut i: usize = 0;
        while i < n
            invariant
                n == self.num_bots,
                i <= n,
                players@.len() == 1 + i,
                players@[0].0@ == self.player_name@,
                !players@[0].1,
                forall|k: int| 1 <= k <= i ==> (#[trigger] players@[k]).0@ == bot_name(k - 1) && players@[k].1,
            decreases n - i,
        {
            players.push((bot_name_text(i), true));
            i = i + 1;
        }
        let token_distribution = if self.tokens_enabled {
            TokenDistribution::Random { tokens_per_player: self.tokens_per_player as usize }
        } else {
            TokenDistribution::NoTokens
        };
        GameConfig {
            players,
            starting_chips: self.starting_chips(),
            buy_in: self.buy_in(),
            enable_shift_tokens: self.tokens_enabled,
            token_distribution,
            bot_difficulty: BotDifficulty::Basic,
        }
    }
}

} // verus!
