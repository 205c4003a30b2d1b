//! The window shell: which tool the dashboard shows, with its title and
//! tagline, and what a key press does.

use vstd::prelude::*;

verus! {

/// A tool of the dashboard; the search tool is shown at start.
#[derive(Debug, Clone, Copy, PartialEq, Eq, Structural)]
pub enum ToolId {
    Search,
    Bushing,
    PressureVessel,
    Dupes,
    Rename,
    Logs,
}

impl Default for ToolId {
    fn default() -> (r: Self)
        ensures
            r == ToolId::Search,
    {
        ToolId::Search
    }
}

impl ToolId {
    /// The tool's title in the header.
    pub fn title(self) -> (r: &'static str)
        ensures
            r@ == match self {
                ToolId::Search => "Search Files"@,
                ToolId::Bushing => "Bushing Workbench"@,
                ToolId::PressureVessel => "Pressure Vessel Analyzer"@,
                ToolId::Dupes => "Duplicate Finder"@,
                ToolId::Rename => "Batch Rename"@,
                ToolId::Logs => "Log Analyzer"@,
            },
    {
        match self {
            ToolId::Search => "Search Files",
            ToolId::Bushing => "Bushing Workbench",
            ToolId::PressureVessel => "Pressure Vessel Analyzer",
            ToolId::Dupes => "Duplicate Finder",
            ToolId::Rename => "Batch Rename",
            ToolId::Logs => "Log Analyzer",
        }
    }

    /// The line under the tool's title.
    pub fn tagline(self) -> (r: &'static str)
        ensures
            r@ == match self {
                ToolId::Search => "Recursively search a folder for keyword filters"@,
                ToolId::Bushing => "Straight-bushing interference-fit stress & margins"@,
                ToolId::PressureVessel => "Full Lam\u{e9} stress, failure-mode margins & minimum wall thickness"@,
                ToolId::Dupes => "Find and clean up redundant files"@,
                ToolId::Rename => "Pattern-based bulk renaming"@,
                ToolId::Logs => "Parse and chart log files"@,
            },
    {
        match self {
            ToolId::Search => "Recursively search a folder for keyword filters",
            ToolId::Bushing => "Straight-bushing interference-fit stress & margins",
            ToolId::PressureVessel => "Full Lam\u{e9} stress, failure-mode margins & minimum wall thickness",
            ToolId::Dupes => "Find and clean up redundant files",
            ToolId::Rename => "Pattern-based bulk renaming",
            ToolId::Logs => "Parse and chart log files",
        }
    }
}

/// A key the window reacts to.
#[derive(Debug, Clone, Copy, PartialEq, Eq, Structural)]
pub enum KeyInput {
    KeyK,
    Escape,
    ArrowDown,
    ArrowUp,
    Enter,
    Other,
}

/// What a key press does.
#[derive(Debug, Clone, Copy, PartialEq, Eq, Structural)]
pub enum KeyAction {
    TogglePalette,
    ClosePalette,
    SelectNext,
    SelectPrevious,
    OpenSelected,
    Nothing,
}

/// The action of a key press: Ctrl/Cmd+K opens or closes the command
/// palette; Escape closes an open palette; while the palette is closed the
/// arrow keys move the result selection and Enter opens the selected
/// result; anything else does nothing.
pub open spec fn action_for(key: KeyInput, ctrl_or_meta: bool, palette_open: bool) -> KeyAction {
    if key == KeyInput::KeyK && ctrl_or_meta {
        KeyAction::TogglePalette
    } else if key == KeyInput::Escape && palette_open {
        KeyAction::ClosePalette
    } else if !palette_open && key == KeyInput::ArrowDown {
        KeyAction::SelectNext
    } else if !palette_open && key == KeyInput::ArrowUp {
        KeyAction::SelectPrevious
    } else if !palette_open && key == KeyInput::Enter {
        KeyAction::OpenSelected
    } else {
        KeyAction::Nothing
    }
}

/// The action of a key press (see [`action_for`]).
pub fn key_action(key: KeyInput, ctrl_or_meta: bool, palette_open: bool) -> (r: KeyAction)
    ensures
        r == action_for(key, ctrl_or_meta, palette_open),
{
    if key == KeyInput::KeyK && ctrl_or_meta {
        KeyAction::TogglePalette
    } else if key == KeyInput::Escape && palette_open {
        KeyAction::ClosePalette
    } else if !palette_open {
        match key {
            KeyInput::ArrowDown => KeyAction::SelectNext,
            KeyInput::ArrowUp => KeyAction::SelectPrevious,
            KeyInput::Enter => KeyAction::OpenSelected,
            _ => KeyAction::Nothing,
        }
    } else {
        KeyAction::Nothing
    }
}

/// While the command palette is open, no key moves the result selection or
/// opens a result.
pub proof fn lemma_open_palette_keeps_selection(key: KeyInput, ctrl_or_meta: bool)
    ensures
        action_for(key, ctrl_or_meta, true) != KeyAction::SelectNext,
        action_for(key, ctrl_or_meta, true) != KeyAction::SelectPrevious,
        action_for(key, ctrl_or_meta, true) != KeyAction::OpenSelected,
{
}

} // verus!
