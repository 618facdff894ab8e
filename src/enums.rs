use vstd::prelude::*;

use crate::utils::{ModbusReadCommand, ModbusWriteCommand};

verus! {

/// The four addressable memory spaces of a device, in their fixed order.
#[derive(Clone, Copy, Debug, PartialEq, Eq, Structural, PartialOrd, Ord, Hash)]
pub enum SelectedTopTab {
    Coils,
    DiscreteInputs,
    InputRegisters,
    HoldingRegisters,
}

/// Value held by one cell: a bit for the coil-like spaces, a word for registers.
#[derive(Clone, Copy, Debug, PartialEq, Eq, Structural)]
pub enum CellType {
    Coil(bool),
    Word(u16),
}

/// Whether a cell's staged value differs from the last value confirmed by the device.
#[derive(Clone, Copy, Debug, PartialEq, Eq, Structural)]
pub enum CellState {
    Normal,
    Queued,
}

impl SelectedTopTab {
    /// Position of the space in the fixed order of the four spaces.
    pub open spec fn ordinal(self) -> nat {
        match self {
            SelectedTopTab::Coils => 0,
            SelectedTopTab::DiscreteInputs => 1,
            SelectedTopTab::InputRegisters => 2,
            SelectedTopTab::HoldingRegisters => 3,
        }
    }

    pub open spec fn from_ordinal(i: nat) -> SelectedTopTab {
        if i == 0 {
            SelectedTopTab::Coils
        } else if i == 1 {
            SelectedTopTab::DiscreteInputs
        } else if i == 2 {
            SelectedTopTab::InputRegisters
        } else {
            SelectedTopTab::HoldingRegisters
        }
    }

    /// Coils and discrete inputs hold bits; the register spaces hold words.
    pub open spec fn holds_bits(self) -> bool {
        self is Coils || self is DiscreteInputs
    }

    /// Only coils and holding registers can be written to a device.
    pub open spec fn is_writable(self) -> bool {
        self is Coils || self is HoldingRegisters
    }

    /// The value an untouched cell of this space holds.
    pub open spec fn zero(self) -> CellType {
        if self.holds_bits() {
            CellType::Coil(false)
        } else {
            CellType::Word(0)
        }
    }

    /// Whether `v` lies in this space's value domain.
    pub open spec fn fits(self, v: CellType) -> bool {
        if self.holds_bits() {
            v is Coil
        } else {
            v is Word
        }
    }

    pub open spec fn spec_name(self) -> Seq<char> {
        match self {
            SelectedTopTab::Coils => "Coils"@,
            SelectedTopTab::DiscreteInputs => "Discrete Inputs"@,
            SelectedTopTab::InputRegisters => "Input Registers"@,
            SelectedTopTab::HoldingRegisters => "Holding Registers"@,
        }
    }

    /// The ordinal as an index into a list of the four spaces.
    pub fn index(self) -> (r: usize)
        ensures
            r == self.ordinal(),
    {
        match self {
            SelectedTopTab::Coils => 0,
            SelectedTopTab::DiscreteInputs => 1,
            SelectedTopTab::InputRegisters => 2,
            SelectedTopTab::HoldingRegisters => 3,
        }
    }

    /// The space with the given ordinal, if there is one.
    pub fn from_index(i: usize) -> (r: Option<SelectedTopTab>)
        ensures
            i < 4 ==> r == Some(SelectedTopTab::from_ordinal(i as nat)),
            i >= 4 ==> r is None,
    {
        match i {
            0 => Some(SelectedTopTab::Coils),
            1 => Some(SelectedTopTab::DiscreteInputs),
            2 => Some(SelectedTopTab::InputRegisters),
            3 => Some(SelectedTopTab::HoldingRegisters),
            _ => None,
        }
    }

    /// The next space in order; the last one stays where it is.
    pub fn next(self) -> (r: Self)
        ensures
            self.ordinal() < 3 ==> r.ordinal() == self.ordinal() + 1,
            self.ordinal() == 3 ==> r == self,
    {
        match self {
            SelectedTopTab::Coils => SelectedTopTab::DiscreteInputs,
            SelectedTopTab::DiscreteInputs => SelectedTopTab::InputRegisters,
            SelectedTopTab::InputRegisters => SelectedTopTab::HoldingRegisters,
            SelectedTopTab::HoldingRegisters => SelectedTopTab::HoldingRegisters,
        }
    }

    /// The previous space in order; the first one stays where it is.
    pub fn previous(self) -> (r: Self)
        ensures
            self.ordinal() > 0 ==> r.ordinal() + 1 == self.ordinal(),
            self.ordinal() == 0 ==> r == self,
    {
        match self {
            SelectedTopTab::Coils => SelectedTopTab::Coils,
            SelectedTopTab::DiscreteInputs => SelectedTopTab::Coils,
            SelectedTopTab::InputRegisters => SelectedTopTab::DiscreteInputs,
            SelectedTopTab::HoldingRegisters => SelectedTopTab::InputRegisters,
        }
    }

    pub fn holds_bits_exec(self) -> (r: bool)
        ensures
            r == self.holds_bits(),
    {
        match self {
            SelectedTopTab::Coils | SelectedTopTab::DiscreteInputs => true,
            _ => false,
        }
    }

    pub fn zero_value(self) -> (r: CellType)
        ensures
            r == self.zero(),
    {
        if self.holds_bits_exec() {
            CellType::Coil(false)
        } else {
            CellType::Word(0)
        }
    }

    /// The value a protocol word stands for in this space: in a bit space any
    /// non-zero word is a set bit.
    pub open spec fn word_value(self, w: u16) -> CellType {
        if self.holds_bits() {
            CellType::Coil(w != 0)
        } else {
            CellType::Word(w)
        }
    }

    pub fn value_of_word(self, w: u16) -> (r: CellType)
        ensures
            r == self.word_value(w),
    {
        if self.holds_bits_exec() {
            CellType::Coil(w != 0)
        } else {
            CellType::Word(w)
        }
    }

    /// Whether `v` lies in this space's value domain.
    pub fn accepts(self, v: CellType) -> (r: bool)
        ensures
            r == self.fits(v),
    {
        match v {
            CellType::Coil(_) => self.holds_bits_exec(),
            CellType::Word(_) => !self.holds_bits_exec(),
        }
    }

    pub fn is_writable_exec(self) -> (r: bool)
        ensures
            r == self.is_writable(),
    {
        match self {
            SelectedTopTab::Coils | SelectedTopTab::HoldingRegisters => true,
            _ => false,
        }
    }

    /// Human-readable name of the space.
    pub fn name(self) -> (r: String)
        ensures
            r@ == self.spec_name(),
    {
        match self {
            SelectedTopTab::Coils => "Coils".to_owned(),
            SelectedTopTab::DiscreteInputs => "Discrete Inputs".to_owned(),
            SelectedTopTab::InputRegisters => "Input Registers".to_owned(),
            SelectedTopTab::HoldingRegisters => "Holding Registers".to_owned(),
        }
    }
}

impl CellType {
    /// The value as a protocol word: a set bit is 1, a clear bit is 0.
    pub open spec fn spec_u16(self) -> u16 {
        match self {
            CellType::Coil(b) => if b { 1 } else { 0 },
            CellType::Word(w) => w,
        }
    }

    pub fn to_u16(self) -> (r: u16)
        ensures
            r == self.spec_u16(),
    {
        match self {
            CellType::Coil(content) => {
                if content {
                    1
                } else {
                    0
                }
            },
            CellType::Word(content) => content,
        }
    }
}

/// The two panels of the lower half of the screen.
#[derive(Clone, Copy, Debug, PartialEq, Eq, Structural)]
pub enum SelectedBottomTab {
    Connection,
    Queue,
}

impl SelectedBottomTab {
    /// The next panel; the last one stays where it is.
    pub fn next(self) -> (r: Self)
        ensures
            r == SelectedBottomTab::Queue,
    {
        SelectedBottomTab::Queue
    }

    /// The previous panel; the first one stays where it is.
    pub fn previous(self) -> (r: Self)
        ensures
            r == SelectedBottomTab::Connection,
    {
        SelectedBottomTab::Connection
    }

    pub fn name(self) -> (r: String)
        ensures
            self is Connection ==> r@ == "Connection"@,
            self is Queue ==> r@ == "Queue"@,
    {
        match self {
            SelectedBottomTab::Connection => "Connection".to_owned(),
            SelectedBottomTab::Queue => "Queue".to_owned(),
        }
    }
}

impl Default for SelectedBottomTab {
    fn default() -> (r: Self)
        ensures
            r == SelectedBottomTab::Connection,
    {
        SelectedBottomTab::Connection
    }
}

impl Default for SelectedTopTab {
    fn default() -> (r: Self)
        ensures
            r == SelectedTopTab::Coils,
    {
        SelectedTopTab::Coils
    }
}

/// Whether a live connection to a device exists.
#[derive(Clone, Copy, Debug, PartialEq, Eq, Structural)]
pub enum ConnectionStatus {
    Connected,
    NotConnected,
}

impl Default for ConnectionStatus {
    fn default() -> (r: Self)
        ensures
            r == ConnectionStatus::NotConnected,
    {
        ConnectionStatus::NotConnected
    }
}

/// What the screen is showing on top of the main view.
#[derive(Clone, Debug, PartialEq, Eq)]
pub enum AppMode {
    Main,
    Help,
    Popup(PopupType),
}

#[derive(Clone, Debug, PartialEq, Eq)]
pub enum PopupType {
    Connection,
    Edit,
    Error(String),
    Goto,
    SaveMacro(SaveMacroMode),
}

/// What happened to the screen's mode: a key that opens or closes a view, or
/// the outcome of the action a popup asked for.
#[derive(Clone, Debug, PartialEq, Eq)]
pub enum ModeEvent {
    /// Help opens from the main view and closes back to it.
    ToggleHelp,
    /// A popup opens over the main view.
    Open(PopupType),
    /// An error is shown, whatever was on screen.
    Fail(String),
    /// An error or a saved-file notice is acknowledged.
    Dismiss,
    /// A popup asking for input is abandoned.
    Cancel,
    /// A connection, edit or go-to popup got valid input.
    Submitted,
    /// The macro file was written.
    Saved,
    /// The macro file already exists and may not be overwritten yet.
    FileExists,
    /// Overwriting the existing macro file was declined.
    DeclineOverwrite,
}

/// The transition table of the screen's mode; a pair not listed leaves the mode as it is.
pub open spec fn mode_after(mode: AppMode, event: ModeEvent) -> AppMode {
    match (mode, event) {
        (_, ModeEvent::Fail(m)) => AppMode::Popup(PopupType::Error(m)),
        (AppMode::Main, ModeEvent::ToggleHelp) => AppMode::Help,
        (AppMode::Help, ModeEvent::ToggleHelp) => AppMode::Main,
        (AppMode::Main, ModeEvent::Open(p)) => AppMode::Popup(p),
        (AppMode::Popup(PopupType::Error(_)), ModeEvent::Dismiss) => AppMode::Main,
        (AppMode::Popup(PopupType::SaveMacro(SaveMacroMode::FileSaved)), ModeEvent::Dismiss) => AppMode::Main,
        (AppMode::Popup(PopupType::Connection), ModeEvent::Cancel) => AppMode::Main,
        (AppMode::Popup(PopupType::Edit), ModeEvent::Cancel) => AppMode::Main,
        (AppMode::Popup(PopupType::Goto), ModeEvent::Cancel) => AppMode::Main,
        (AppMode::Popup(PopupType::SaveMacro(SaveMacroMode::Main)), ModeEvent::Cancel) => AppMode::Main,
        (AppMode::Popup(PopupType::SaveMacro(SaveMacroMode::OverwriteWarning)), ModeEvent::Cancel) => AppMode::Main,
        (AppMode::Popup(PopupType::Connection), ModeEvent::Submitted) => AppMode::Main,
        (AppMode::Popup(PopupType::Edit), ModeEvent::Submitted) => AppMode::Main,
        (AppMode::Popup(PopupType::Goto), ModeEvent::Submitted) => AppMode::Main,
        (AppMode::Popup(PopupType::SaveMacro(SaveMacroMode::Main)), ModeEvent::Saved) => AppMode::Popup(
            PopupType::SaveMacro(SaveMacroMode::FileSaved),
        ),
        (AppMode::Popup(PopupType::SaveMacro(SaveMacroMode::OverwriteWarning)), ModeEvent::Saved) => AppMode::Popup(
            PopupType::SaveMacro(SaveMacroMode::FileSaved),
        ),
        (AppMode::Popup(PopupType::SaveMacro(SaveMacroMode::Main)), ModeEvent::FileExists) => AppMode::Popup(
            PopupType::SaveMacro(SaveMacroMode::OverwriteWarning),
        ),
        (AppMode::Popup(PopupType::SaveMacro(SaveMacroMode::OverwriteWarning)), ModeEvent::DeclineOverwrite) => AppMode::Popup(
            PopupType::SaveMacro(SaveMacroMode::Main),
        ),
        (m, _) => m,
    }
}

impl AppMode {
    /// The mode after `event`.
    pub fn next(self, event: ModeEvent) -> (r: AppMode)
        ensures
            r == mode_after(self, event),
    {
        match (self, event) {
            (_, ModeEvent::Fail(m)) => AppMode::Popup(PopupType::Error(m)),
            (AppMode::Main, ModeEvent::ToggleHelp) => AppMode::Help,
            (AppMode::Help, ModeEvent::ToggleHelp) => AppMode::Main,
            (AppMode::Main, ModeEvent::Open(p)) => AppMode::Popup(p),
            (AppMode::Popup(PopupType::Error(_)), ModeEvent::Dismiss) => AppMode::Main,
            (AppMode::Popup(PopupType::SaveMacro(SaveMacroMode::FileSaved)), ModeEvent::Dismiss) => AppMode::Main,
            (AppMode::Popup(PopupType::Connection), ModeEvent::Cancel) => AppMode::Main,
            (AppMode::Popup(PopupType::Edit), ModeEvent::Cancel) => AppMode::Main,
            (AppMode::Popup(PopupType::Goto), ModeEvent::Cancel) => AppMode::Main,
            (AppMode::Popup(PopupType::SaveMacro(SaveMacroMode::Main)), ModeEvent::Cancel) => AppMode::Main,
            (AppMode::Popup(PopupType::SaveMacro(SaveMacroMode::OverwriteWarning)), ModeEvent::Cancel) => AppMode::Main,
            (AppMode::Popup(PopupType::Connection), ModeEvent::Submitted) => AppMode::Main,
            (AppMode::Popup(PopupType::Edit), ModeEvent::Submitted) => AppMode::Main,
            (AppMode::Popup(PopupType::Goto), ModeEvent::Submitted) => AppMode::Main,
            (AppMode::Popup(PopupType::SaveMacro(SaveMacroMode::Main)), ModeEvent::Saved) => AppMode::Popup(
                PopupType::SaveMacro(SaveMacroMode::FileSaved),
            ),
            (AppMode::Popup(PopupType::SaveMacro(SaveMacroMode::OverwriteWarning)), ModeEvent::Saved) => AppMode::Popup(
                PopupType::SaveMacro(SaveMacroMode::FileSaved),
            ),
            (AppMode::Popup(PopupType::SaveMacro(SaveMacroMode::Main)), ModeEvent::FileExists) => AppMode::Popup(
                PopupType::SaveMacro(SaveMacroMode::OverwriteWarning),
            ),
            (AppMode::Popup(PopupType::SaveMacro(SaveMacroMode::OverwriteWarning)), ModeEvent::DeclineOverwrite) => AppMode::Popup(
                PopupType::SaveMacro(SaveMacroMode::Main),
            ),
            (m, _) => m,
        }
    }
}

#[derive(Clone, Copy, Debug, PartialEq, Eq, Structural)]
pub enum SaveMacroMode {
    Main,
    OverwriteWarning,
    FileSaved,
}

/// Which half of the screen receives navigation keys.
#[derive(Clone, Copy, Debug, PartialEq, Eq, Structural)]
pub enum CurrentFocus {
    Top,
    Bottom,
}

impl Default for CurrentFocus {
    fn default() -> (r: Self)
        ensures
            r == CurrentFocus::Top,
    {
        CurrentFocus::Top
    }
}

#[derive(Clone, Copy, Debug, PartialEq, Eq, Structural)]
pub enum SelectedConnectionButton {
    NewConnection,
    Disconnect,
}

#[derive(Clone, Copy, Debug, PartialEq, Eq, Structural)]
pub enum ConnectingField {
    Address,
    Port,
}

/// A request handed to the network worker: read batches or write commands.
#[derive(Clone, Debug, PartialEq, Eq)]
pub enum ModbusCommandQueue {
    Read(Vec<ModbusReadCommand>),
    Write(Vec<ModbusWriteCommand>),
}

} // verus!
