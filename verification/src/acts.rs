//! Abstract action tokens.
//!
//! Keyboard input resolves to one of these tokens, which callers dispatch
//! to per-category handlers: application window control, widget focus
//! motion, named control keys, and dock navigation.  Each category has a
//! distinguished no-op (`Be`) which is also its default value.  Tokens
//! carry a stable index (`idx`), a canonical configuration string (`cmd`
//! and `from_cmd`, a bidirectional table), and a display label.

use vstd::prelude::*;

verus! {

/// An application-level action token.
#[derive(Debug, Copy, Clone, PartialEq, Eq, Structural)]
pub enum AppAct {
    Help,
    Menu,
    Decorations,
    Fullscreen,
    Maximize,
    Minimize,
    ActiveTab,
    Be,
}

impl Default for AppAct {
    fn default() -> (r: Self)
        ensures
            r == AppAct::Be,
    {
        AppAct::Be
    }
}

impl AppAct {
    /// The no-op token, the default value of the category.
    pub fn new() -> (r: Self)
        ensures
            r == AppAct::Be,
    {
        AppAct::Be
    }

    /// Stable index of each token within the category.
    pub open spec fn spec_idx(self) -> usize {
        match self {
            AppAct::Help => 0,
            AppAct::Menu => 1,
            AppAct::Decorations => 2,
            AppAct::Fullscreen => 3,
            AppAct::Maximize => 4,
            AppAct::Minimize => 5,
            AppAct::ActiveTab => 6,
            AppAct::Be => 7,
        }
    }

    /// Stable index of each token within the category.
    pub fn idx(&self) -> (r: usize)
        ensures
            r == self.spec_idx(),
    {
        match self {
            AppAct::Help => 0,
            AppAct::Menu => 1,
            AppAct::Decorations => 2,
            AppAct::Fullscreen => 3,
            AppAct::Maximize => 4,
            AppAct::Minimize => 5,
            AppAct::ActiveTab => 6,
            AppAct::Be => 7,
        }
    }

    /// Canonical configuration token for each action.
    pub open spec fn spec_cmd(self) -> Seq<char> {
        match self {
            AppAct::Help => "help"@,
            AppAct::Menu => "menu"@,
            AppAct::Decorations => "decorations"@,
            AppAct::Fullscreen => "fullscreen"@,
            AppAct::Maximize => "maximize"@,
            AppAct::Minimize => "minimize"@,
            AppAct::ActiveTab => "active_tab"@,
            AppAct::Be => "be"@,
        }
    }

    /// Canonical configuration token for each action.
    pub fn cmd(&self) -> (r: String)
        ensures
            r@ == self.spec_cmd(),
    {
        match self {
            AppAct::Help => "help".to_owned(),
            AppAct::Menu => "menu".to_owned(),
            AppAct::Decorations => "decorations".to_owned(),
            AppAct::Fullscreen => "fullscreen".to_owned(),
            AppAct::Maximize => "maximize".to_owned(),
            AppAct::Minimize => "minimize".to_owned(),
            AppAct::ActiveTab => "active_tab".to_owned(),
            AppAct::Be => "be".to_owned(),
        }
    }

    /// The action a configuration token names, if any.
    pub open spec fn spec_from_cmd(s: Seq<char>) -> Option<AppAct> {
        if s == "help"@ {
            Some(AppAct::Help)
        } else if s == "menu"@ {
            Some(AppAct::Menu)
        } else if s == "decorations"@ {
            Some(AppAct::Decorations)
        } else if s == "fullscreen"@ {
            Some(AppAct::Fullscreen)
        } else if s == "maximize"@ {
            Some(AppAct::Maximize)
        } else if s == "minimize"@ {
            Some(AppAct::Minimize)
        } else if s == "active_tab"@ {
            Some(AppAct::ActiveTab)
        } else if s == "be"@ {
            Some(AppAct::Be)
        } else {
            None
        }
    }

    /// The action a configuration token names, if any.
    pub fn from_cmd(s: &str) -> (r: Option<AppAct>)
        ensures
            r == AppAct::spec_from_cmd(s@),
    {
        if crate::text::str_eq(s, "help") {
            Some(AppAct::Help)
        } else if crate::text::str_eq(s, "menu") {
            Some(AppAct::Menu)
        } else if crate::text::str_eq(s, "decorations") {
            Some(AppAct::Decorations)
        } else if crate::text::str_eq(s, "fullscreen") {
            Some(AppAct::Fullscreen)
        } else if crate::text::str_eq(s, "maximize") {
            Some(AppAct::Maximize)
        } else if crate::text::str_eq(s, "minimize") {
            Some(AppAct::Minimize)
        } else if crate::text::str_eq(s, "active_tab") {
            Some(AppAct::ActiveTab)
        } else if crate::text::str_eq(s, "be") {
            Some(AppAct::Be)
        } else {
            None
        }
    }

    /// Display label for the action.
    pub open spec fn spec_label(self) -> Seq<char> {
        match self {
            AppAct::Help => "Help"@,
            AppAct::Menu => "Menu"@,
            AppAct::Decorations => "Decorations"@,
            AppAct::Fullscreen => "Fullscreen"@,
            AppAct::Maximize => "Maximize"@,
            AppAct::Minimize => "Minimize"@,
            AppAct::ActiveTab => "Active Tab"@,
            AppAct::Be => "Be"@,
        }
    }

    /// Display label for the action.
    pub fn label(&self) -> (r: String)
        ensures
            r@ == self.spec_label(),
    {
        match self {
            AppAct::Help => "Help".to_owned(),
            AppAct::Menu => "Menu".to_owned(),
            AppAct::Decorations => "Decorations".to_owned(),
            AppAct::Fullscreen => "Fullscreen".to_owned(),
            AppAct::Maximize => "Maximize".to_owned(),
            AppAct::Minimize => "Minimize".to_owned(),
            AppAct::ActiveTab => "Active Tab".to_owned(),
            AppAct::Be => "Be".to_owned(),
        }
    }

    /// Every token of the category, in index order.
    pub fn variants() -> (r: Vec<AppAct>)
        ensures
            r@.len() == 8,
            forall|i: int| 0 <= i < 8 ==> #[trigger] r@[i].spec_idx() == i,
    {
        let v: Vec<AppAct> = vec![
            AppAct::Help,
            AppAct::Menu,
            AppAct::Decorations,
            AppAct::Fullscreen,
            AppAct::Maximize,
            AppAct::Minimize,
            AppAct::ActiveTab,
            AppAct::Be,
        ];
        v
    }
}

/// A widget-level focus motion token.
#[derive(Debug, Copy, Clone, PartialEq, Eq, Structural)]
pub enum EguiAct {
    Right,
    Left,
    Up,
    Down,
    Next,
    Previous,
    NextWindow,
    PreviousWindow,
    NextRow,
    PreviousRow,
    FocusedLeaf,
    Be,
}

impl Default for EguiAct {
    fn default() -> (r: Self)
        ensures
            r == EguiAct::Be,
    {
        EguiAct::Be
    }
}

impl EguiAct {
    /// The no-op token, the default value of the category.
    pub fn new() -> (r: Self)
        ensures
            r == EguiAct::Be,
    {
        EguiAct::Be
    }

    /// Stable index of each token within the category.
    pub open spec fn spec_idx(self) -> usize {
        match self {
            EguiAct::Right => 0,
            EguiAct::Left => 1,
            EguiAct::Up => 2,
            EguiAct::Down => 3,
            EguiAct::Next => 4,
            EguiAct::Previous => 5,
            EguiAct::NextWindow => 6,
            EguiAct::PreviousWindow => 7,
            EguiAct::NextRow => 8,
            EguiAct::PreviousRow => 9,
            EguiAct::FocusedLeaf => 10,
            EguiAct::Be => 11,
        }
    }

    /// Stable index of each token within the category.
    pub fn idx(&self) -> (r: usize)
        ensures
            r == self.spec_idx(),
    {
        match self {
            EguiAct::Right => 0,
            EguiAct::Left => 1,
            EguiAct::Up => 2,
            EguiAct::Down => 3,
            EguiAct::Next => 4,
            EguiAct::Previous => 5,
            EguiAct::NextWindow => 6,
            EguiAct::PreviousWindow => 7,
            EguiAct::NextRow => 8,
            EguiAct::PreviousRow => 9,
            EguiAct::FocusedLeaf => 10,
            EguiAct::Be => 11,
        }
    }

    /// The action a configuration token names, if any.
    pub open spec fn spec_from_cmd(s: Seq<char>) -> Option<EguiAct> {
        if s == "right"@ {
            Some(EguiAct::Right)
        } else if s == "left"@ {
            Some(EguiAct::Left)
        } else if s == "up"@ {
            Some(EguiAct::Up)
        } else if s == "down"@ {
            Some(EguiAct::Down)
        } else if s == "next"@ {
            Some(EguiAct::Next)
        } else if s == "previous"@ {
            Some(EguiAct::Previous)
        } else if s == "next_window"@ {
            Some(EguiAct::NextWindow)
        } else if s == "previous_window"@ {
            Some(EguiAct::PreviousWindow)
        } else if s == "next_row"@ {
            Some(EguiAct::NextRow)
        } else if s == "previous_row"@ {
            Some(EguiAct::PreviousRow)
        } else if s == "focused_leaf"@ {
            Some(EguiAct::FocusedLeaf)
        } else if s == "be"@ {
            Some(EguiAct::Be)
        } else {
            None
        }
    }

    /// The action a configuration token names, if any.
    pub fn from_cmd(s: &str) -> (r: Option<EguiAct>)
        ensures
            r == EguiAct::spec_from_cmd(s@),
    {
        if crate::text::str_eq(s, "right") {
            Some(EguiAct::Right)
        } else if crate::text::str_eq(s, "left") {
            Some(EguiAct::Left)
        } else if crate::text::str_eq(s, "up") {
            Some(EguiAct::Up)
        } else if crate::text::str_eq(s, "down") {
            Some(EguiAct::Down)
        } else if crate::text::str_eq(s, "next") {
            Some(EguiAct::Next)
        } else if crate::text::str_eq(s, "previous") {
            Some(EguiAct::Previous)
        } else if crate::text::str_eq(s, "next_window") {
            Some(EguiAct::NextWindow)
        } else if crate::text::str_eq(s, "previous_window") {
            Some(EguiAct::PreviousWindow)
        } else if crate::text::str_eq(s, "next_row") {
            Some(EguiAct::NextRow)
        } else if crate::text::str_eq(s, "previous_row") {
            Some(EguiAct::PreviousRow)
        } else if crate::text::str_eq(s, "focused_leaf") {
            Some(EguiAct::FocusedLeaf)
        } else if crate::text::str_eq(s, "be") {
            Some(EguiAct::Be)
        } else {
            None
        }
    }

    /// Display label for the action.
    pub open spec fn spec_label(self) -> Seq<char> {
        match self {
            EguiAct::Right => "Right"@,
            EguiAct::Left => "Left"@,
            EguiAct::Up => "Up"@,
            EguiAct::Down => "Down"@,
            EguiAct::Next => "Next"@,
            EguiAct::Previous => "Previous"@,
            EguiAct::NextWindow => "Next Window"@,
            EguiAct::PreviousWindow => "Previous Window"@,
            EguiAct::NextRow => "Next Row"@,
            EguiAct::PreviousRow => "Previous Row"@,
            EguiAct::FocusedLeaf => "Focused Leaf"@,
            EguiAct::Be => "Be"@,
        }
    }

    /// Display label for the action.
    pub fn label(&self) -> (r: String)
        ensures
            r@ == self.spec_label(),
    {
        match self {
            EguiAct::Right => "Right".to_owned(),
            EguiAct::Left => "Left".to_owned(),
            EguiAct::Up => "Up".to_owned(),
            EguiAct::Down => "Down".to_owned(),
            EguiAct::Next => "Next".to_owned(),
            EguiAct::Previous => "Previous".to_owned(),
            EguiAct::NextWindow => "Next Window".to_owned(),
            EguiAct::PreviousWindow => "Previous Window".to_owned(),
            EguiAct::NextRow => "Next Row".to_owned(),
            EguiAct::PreviousRow => "Previous Row".to_owned(),
            EguiAct::FocusedLeaf => "Focused Leaf".to_owned(),
            EguiAct::Be => "Be".to_owned(),
        }
    }

    /// Every token of the category, in index order.
    pub fn variants() -> (r: Vec<EguiAct>)
        ensures
            r@.len() == 12,
            forall|i: int| 0 <= i < 12 ==> #[trigger] r@[i].spec_idx() == i,
    {
        let v: Vec<EguiAct> = vec![
            EguiAct::Right,
            EguiAct::Left,
            EguiAct::Up,
            EguiAct::Down,
            EguiAct::Next,
            EguiAct::Previous,
            EguiAct::NextWindow,
            EguiAct::PreviousWindow,
            EguiAct::NextRow,
            EguiAct::PreviousRow,
            EguiAct::FocusedLeaf,
            EguiAct::Be,
        ];
        v
    }
}

/// A named control-key token: keys that arrive as named events rather
/// than characters.
#[derive(Debug, Copy, Clone, PartialEq, Eq, Structural)]
pub enum NamedAct {
    Enter,
    Escape,
    ArrowLeft,
    ArrowRight,
    ArrowUp,
    ArrowDown,
    Be,
}

impl Default for NamedAct {
    fn default() -> (r: Self)
        ensures
            r == NamedAct::Be,
    {
        NamedAct::Be
    }
}

impl NamedAct {
    /// The no-op token, the default value of the category.
    pub fn new() -> (r: Self)
        ensures
            r == NamedAct::Be,
    {
        NamedAct::Be
    }

    /// Canonical lowercase chord key for each named key.
    pub open spec fn spec_cmd(self) -> Seq<char> {
        match self {
            NamedAct::Enter => "enter"@,
            NamedAct::Escape => "escape"@,
            NamedAct::ArrowUp => "arrow_up"@,
            NamedAct::ArrowDown => "arrow_down"@,
            NamedAct::ArrowLeft => "arrow_left"@,
            NamedAct::ArrowRight => "arrow_right"@,
            NamedAct::Be => "be"@,
        }
    }

    /// Canonical lowercase chord key for each named key.
    pub fn cmd(&self) -> (r: String)
        ensures
            r@ == self.spec_cmd(),
    {
        match self {
            NamedAct::Enter => "enter".to_owned(),
            NamedAct::Escape => "escape".to_owned(),
            NamedAct::ArrowUp => "arrow_up".to_owned(),
            NamedAct::ArrowDown => "arrow_down".to_owned(),
            NamedAct::ArrowLeft => "arrow_left".to_owned(),
            NamedAct::ArrowRight => "arrow_right".to_owned(),
            NamedAct::Be => "be".to_owned(),
        }
    }

    /// Stable index of each token within the category.
    pub open spec fn spec_idx(self) -> usize {
        match self {
            NamedAct::Enter => 0,
            NamedAct::Escape => 1,
            NamedAct::ArrowUp => 2,
            NamedAct::ArrowDown => 3,
            NamedAct::ArrowLeft => 4,
            NamedAct::ArrowRight => 5,
            NamedAct::Be => 6,
        }
    }

    /// Stable index of each token within the category.
    pub fn idx(&self) -> (r: usize)
        ensures
            r == self.spec_idx(),
    {
        match self {
            NamedAct::Enter => 0,
            NamedAct::Escape => 1,
            NamedAct::ArrowUp => 2,
            NamedAct::ArrowDown => 3,
            NamedAct::ArrowLeft => 4,
            NamedAct::ArrowRight => 5,
            NamedAct::Be => 6,
        }
    }

    /// The action a configuration token names, if any.
    pub open spec fn spec_from_cmd(s: Seq<char>) -> Option<NamedAct> {
        if s == "enter"@ {
            Some(NamedAct::Enter)
        } else if s == "escape"@ {
            Some(NamedAct::Escape)
        } else if s == "arrow_left"@ {
            Some(NamedAct::ArrowLeft)
        } else if s == "arrow_right"@ {
            Some(NamedAct::ArrowRight)
        } else if s == "arrow_up"@ {
            Some(NamedAct::ArrowUp)
        } else if s == "arrow_down"@ {
            Some(NamedAct::ArrowDown)
        } else if s == "be"@ {
            Some(NamedAct::Be)
        } else {
            None
        }
    }

    /// The action a configuration token names, if any.
    pub fn from_cmd(s: &str) -> (r: Option<NamedAct>)
        ensures
            r == NamedAct::spec_from_cmd(s@),
    {
        if crate::text::str_eq(s, "enter") {
            Some(NamedAct::Enter)
        } else if crate::text::str_eq(s, "escape") {
            Some(NamedAct::Escape)
        } else if crate::text::str_eq(s, "arrow_left") {
            Some(NamedAct::ArrowLeft)
        } else if crate::text::str_eq(s, "arrow_right") {
            Some(NamedAct::ArrowRight)
        } else if crate::text::str_eq(s, "arrow_up") {
            Some(NamedAct::ArrowUp)
        } else if crate::text::str_eq(s, "arrow_down") {
            Some(NamedAct::ArrowDown)
        } else if crate::text::str_eq(s, "be") {
            Some(NamedAct::Be)
        } else {
            None
        }
    }

    /// Display label for the action.
    pub open spec fn spec_label(self) -> Seq<char> {
        match self {
            NamedAct::Enter => "Enter"@,
            NamedAct::Escape => "Escape"@,
            NamedAct::ArrowLeft => "Arrow Left"@,
            NamedAct::ArrowRight => "Arrow Right"@,
            NamedAct::ArrowUp => "Arrow Up"@,
            NamedAct::ArrowDown => "Arrow Down"@,
            NamedAct::Be => "Be"@,
        }
    }

    /// Display label for the action.
    pub fn label(&self) -> (r: String)
        ensures
            r@ == self.spec_label(),
    {
        match self {
            NamedAct::Enter => "Enter".to_owned(),
            NamedAct::Escape => "Escape".to_owned(),
            NamedAct::ArrowLeft => "Arrow Left".to_owned(),
            NamedAct::ArrowRight => "Arrow Right".to_owned(),
            NamedAct::ArrowUp => "Arrow Up".to_owned(),
            NamedAct::ArrowDown => "Arrow Down".to_owned(),
            NamedAct::Be => "Be".to_owned(),
        }
    }

    /// Every token of the category, in index order.
    pub fn variants() -> (r: Vec<NamedAct>)
        ensures
            r@.len() == 7,
            forall|i: int| 0 <= i < 7 ==> #[trigger] r@[i].spec_idx() == i,
    {
        let v: Vec<NamedAct> = vec![
            NamedAct::Enter,
            NamedAct::Escape,
            NamedAct::ArrowUp,
            NamedAct::ArrowDown,
            NamedAct::ArrowLeft,
            NamedAct::ArrowRight,
            NamedAct::Be,
        ];
        v
    }
}

/// A dock-level navigation token.
#[derive(Debug, Copy, Clone, PartialEq, Eq, Structural)]
pub enum Dock {
    CurrentTab,
    NextTab,
    PreviousTab,
    NextNode,
    PreviousNode,
    NextSurface,
    PreviousSurface,
    InspectRecords,
    Be,
}

impl Default for Dock {
    fn default() -> (r: Self)
        ensures
            r == Dock::Be,
    {
        Dock::Be
    }
}

impl Dock {
    /// The no-op token, the default value of the category.
    pub fn new() -> (r: Self)
        ensures
            r == Dock::Be,
    {
        Dock::Be
    }

    /// Canonical configuration token for each action.
    pub open spec fn spec_cmd(self) -> Seq<char> {
        match self {
            Dock::CurrentTab => "select_current"@,
            Dock::NextTab => "next_tab"@,
            Dock::PreviousTab => "previous_tab"@,
            Dock::NextNode => "next_node"@,
            Dock::PreviousNode => "previous_node"@,
            Dock::NextSurface => "next_surface"@,
            Dock::PreviousSurface => "previous_surface"@,
            Dock::InspectRecords => "inspect_records"@,
            Dock::Be => "be"@,
        }
    }

    /// Canonical configuration token for each action.
    pub fn cmd(&self) -> (r: String)
        ensures
            r@ == self.spec_cmd(),
    {
        match self {
            Dock::CurrentTab => "select_current".to_owned(),
            Dock::NextTab => "next_tab".to_owned(),
            Dock::PreviousTab => "previous_tab".to_owned(),
            Dock::NextNode => "next_node".to_owned(),
            Dock::PreviousNode => "previous_node".to_owned(),
            Dock::NextSurface => "next_surface".to_owned(),
            Dock::PreviousSurface => "previous_surface".to_owned(),
            Dock::InspectRecords => "inspect_records".to_owned(),
            Dock::Be => "be".to_owned(),
        }
    }

    /// Stable index of each token within the category.
    pub open spec fn spec_idx(self) -> usize {
        match self {
            Dock::CurrentTab => 0,
            Dock::NextTab => 1,
            Dock::PreviousTab => 2,
            Dock::NextNode => 3,
            Dock::PreviousNode => 4,
            Dock::NextSurface => 5,
            Dock::PreviousSurface => 6,
            Dock::InspectRecords => 7,
            Dock::Be => 8,
        }
    }

    /// Stable index of each token within the category.
    pub fn idx(&self) -> (r: usize)
        ensures
            r == self.spec_idx(),
    {
        match self {
            Dock::CurrentTab => 0,
            Dock::NextTab => 1,
            Dock::PreviousTab => 2,
            Dock::NextNode => 3,
            Dock::PreviousNode => 4,
            Dock::NextSurface => 5,
            Dock::PreviousSurface => 6,
            Dock::InspectRecords => 7,
            Dock::Be => 8,
        }
    }

    /// The action a configuration token names, if any.
    pub open spec fn spec_from_cmd(s: Seq<char>) -> Option<Dock> {
        if s == "select_current"@ {
            Some(Dock::CurrentTab)
        } else if s == "next_tab"@ {
            Some(Dock::NextTab)
        } else if s == "previous_tab"@ {
            Some(Dock::PreviousTab)
        } else if s == "next_node"@ {
            Some(Dock::NextNode)
        } else if s == "previous_node"@ {
            Some(Dock::PreviousNode)
        } else if s == "next_surface"@ {
            Some(Dock::NextSurface)
        } else if s == "previous_surface"@ {
            Some(Dock::PreviousSurface)
        } else if s == "inspect_records"@ {
            Some(Dock::InspectRecords)
        } else if s == "be"@ {
            Some(Dock::Be)
        } else {
            None
        }
    }

    /// The action a configuration token names, if any.
    pub fn from_cmd(s: &str) -> (r: Option<Dock>)
        ensures
            r == Dock::spec_from_cmd(s@),
    {
        if crate::text::str_eq(s, "select_current") {
            Some(Dock::CurrentTab)
        } else if crate::text::str_eq(s, "next_tab") {
            Some(Dock::NextTab)
        } else if crate::text::str_eq(s, "previous_tab") {
            Some(Dock::PreviousTab)
        } else if crate::text::str_eq(s, "next_node") {
            Some(Dock::NextNode)
        } else if crate::text::str_eq(s, "previous_node") {
            Some(Dock::PreviousNode)
        } else if crate::text::str_eq(s, "next_surface") {
            Some(Dock::NextSurface)
        } else if crate::text::str_eq(s, "previous_surface") {
            Some(Dock::PreviousSurface)
        } else if crate::text::str_eq(s, "inspect_records") {
            Some(Dock::InspectRecords)
        } else if crate::text::str_eq(s, "be") {
            Some(Dock::Be)
        } else {
            None
        }
    }

    /// Display label for the action.
    pub open spec fn spec_label(self) -> Seq<char> {
        match self {
            Dock::CurrentTab => "Select Current"@,
            Dock::NextTab => "Next Tab"@,
            Dock::PreviousTab => "Previous Tab"@,
            Dock::NextNode => "Next Node"@,
            Dock::PreviousNode => "Previous Node"@,
            Dock::NextSurface => "Next Surface"@,
            Dock::PreviousSurface => "Previous Surface"@,
            Dock::InspectRecords => "Inspect Records"@,
            Dock::Be => "Be"@,
        }
    }

    /// Display label for the action.
    pub fn label(&self) -> (r: String)
        ensures
            r@ == self.spec_label(),
    {
        match self {
            Dock::CurrentTab => "Select Current".to_owned(),
            Dock::NextTab => "Next Tab".to_owned(),
            Dock::PreviousTab => "Previous Tab".to_owned(),
            Dock::NextNode => "Next Node".to_owned(),
            Dock::PreviousNode => "Previous Node".to_owned(),
            Dock::NextSurface => "Next Surface".to_owned(),
            Dock::PreviousSurface => "Previous Surface".to_owned(),
            Dock::InspectRecords => "Inspect Records".to_owned(),
            Dock::Be => "Be".to_owned(),
        }
    }

    /// Every token of the category, in index order.
    pub fn variants() -> (r: Vec<Dock>)
        ensures
            r@.len() == 9,
            forall|i: int| 0 <= i < 9 ==> #[trigger] r@[i].spec_idx() == i,
    {
        let v: Vec<Dock> = vec![
            Dock::CurrentTab,
            Dock::NextTab,
            Dock::PreviousTab,
            Dock::NextNode,
            Dock::PreviousNode,
            Dock::NextSurface,
            Dock::PreviousSurface,
            Dock::InspectRecords,
            Dock::Be,
        ];
        v
    }
}

/// An action token: one case per category, plus the bare no-op `Be`.
#[derive(Debug, Copy, Clone, PartialEq, Eq, Structural)]
pub enum Act {
    /// Application window control.
    App(AppAct),
    /// Widget focus motion.
    Egui(EguiAct),
    /// Named control keys.
    Named(NamedAct),
    /// Dock navigation.
    Dock(Dock),
    /// The no-op action, the default value.
    Be,
}

impl Default for Act {
    fn default() -> (r: Self)
        ensures
            r == Act::Be,
    {
        Act::Be
    }
}

impl Act {
    /// The no-op token, the default value.
    pub fn new() -> (r: Self)
        ensures
            r == Act::Be,
    {
        Act::Be
    }

    /// Stable index: the category token's index offset by the category.
    pub open spec fn spec_idx(self) -> usize {
        match self {
            Act::App(act) => act.spec_idx(),
            Act::Egui(act) => (act.spec_idx() + 100) as usize,
            Act::Named(act) => (act.spec_idx() + 200) as usize,
            Act::Dock(act) => (act.spec_idx() + 300) as usize,
            Act::Be => 999,
        }
    }

    /// Stable index: the category token's index offset by the category.
    pub fn idx(&self) -> (r: usize)
        ensures
            r == self.spec_idx(),
    {
        match self {
            Act::App(act) => act.idx(),
            Act::Egui(act) => act.idx() + 100,
            Act::Named(act) => act.idx() + 200,
            Act::Dock(act) => act.idx() + 300,
            Act::Be => 999,
        }
    }

    /// The action a configuration token names, if any; categories are
    /// tried in a fixed order, so the shared no-op token "be" resolves to
    /// the first category's no-op.
    pub open spec fn spec_from_cmd(s: Seq<char>) -> Option<Act> {
        if AppAct::spec_from_cmd(s) is Some {
            Some(Act::App(AppAct::spec_from_cmd(s)->Some_0))
        } else if EguiAct::spec_from_cmd(s) is Some {
            Some(Act::Egui(EguiAct::spec_from_cmd(s)->Some_0))
        } else if NamedAct::spec_from_cmd(s) is Some {
            Some(Act::Named(NamedAct::spec_from_cmd(s)->Some_0))
        } else if Dock::spec_from_cmd(s) is Some {
            Some(Act::Dock(Dock::spec_from_cmd(s)->Some_0))
        } else {
            None
        }
    }

    /// The action a configuration token names, if any.
    pub fn from_cmd(s: &str) -> (r: Option<Act>)
        ensures
            r == Act::spec_from_cmd(s@),
    {
        if let Some(act) = AppAct::from_cmd(s) {
            Some(Act::App(act))
        } else if let Some(act) = EguiAct::from_cmd(s) {
            Some(Act::Egui(act))
        } else if let Some(act) = NamedAct::from_cmd(s) {
            Some(Act::Named(act))
        } else if let Some(act) = Dock::from_cmd(s) {
            Some(Act::Dock(act))
        } else {
            None
        }
    }

    /// Display label: the wrapped token's label, or "Be" for the bare no-op.
    pub open spec fn spec_label(self) -> Seq<char> {
        match self {
            Act::App(act) => act.spec_label(),
            Act::Egui(act) => act.spec_label(),
            Act::Named(act) => act.spec_label(),
            Act::Dock(act) => act.spec_label(),
            Act::Be => "Be"@,
        }
    }

    /// Display label: the wrapped token's label, or "Be" for the bare no-op.
    pub fn label(&self) -> (r: String)
        ensures
            r@ == self.spec_label(),
    {
        match self {
            Act::App(act) => act.label(),
            Act::Egui(act) => act.label(),
            Act::Named(act) => act.label(),
            Act::Dock(act) => act.label(),
            Act::Be => "Be".to_owned(),
        }
    }
}

} // verus!
