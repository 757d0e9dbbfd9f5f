//! The panel that shows the threads of the sessions: which thread has a
//! view, which view is in front, and what the panel asks for when its
//! pane reports a change.

use crate::events::Capabilities;
use vstd::prelude::*;

verus! {

/// The view of one thread of one session.
#[derive(Copy, Clone, Debug, PartialEq, Eq, Structural)]
pub struct PanelItem {
    pub client_id: u64,
    pub thread_id: u64,
}

/// What the pane of the panel reports.
#[derive(Copy, Clone, Debug, PartialEq, Eq, Structural)]
pub enum PaneEvent {
    /// A view has been added to the pane.
    AddItem { item: PanelItem },
    /// A view has been closed.
    RemovedItem { item: PanelItem },
    /// A view has come to the front, by the user's hand (`local`) or by
    /// that of a collaborator.
    ActivateItem { item: PanelItem, local: bool },
    /// The pane itself is to be closed.
    Remove,
    ZoomIn,
    ZoomOut,
    /// Anything else.
    Other,
}

/// What the panel tells the dock it sits in.
#[derive(Copy, Clone, Debug, PartialEq, Eq, Structural)]
pub enum PanelEvent {
    Close,
    ZoomIn,
    ZoomOut,
}

/// What the panel asks for in answer to a pane event.
#[derive(Copy, Clone, Debug, PartialEq, Eq, Structural)]
pub enum PanelAction {
    Nothing,
    /// The view is gone: its thread's entry goes, and the adapter is
    /// asked to end the thread.
    CloseThread { client_id: u64, thread_id: u64 },
    Emit(PanelEvent),
    /// Attach the view to the workspace.
    AddedToPane { item: PanelItem },
    /// Show the current stack frame of the thread in the source viewer.
    GoToCurrentStackFrame { item: PanelItem },
}

/// Where a panel may be docked.
#[derive(Copy, Clone, Debug, PartialEq, Eq, Structural)]
pub enum DockPosition {
    Left,
    Bottom,
    Right,
}

/// Which commands the command palette offers.
#[derive(Copy, Clone, Debug, PartialEq, Eq, Structural)]
pub struct CommandVisibility {
    /// Continue, step, pause, stop, restart and the like.
    pub debugger_actions: bool,
    pub step_back: bool,
}

/// Whether `at` is the first of `items` that is `item`.
pub open spec fn first_item(items: Seq<PanelItem>, item: PanelItem, at: int) -> bool {
    &&& 0 <= at < items.len()
    &&& items[at] == item
    &&& forall|k: int| 0 <= k < at ==> items[k] != item
}

/// `items` without the first occurrence of `item`.
pub open spec fn without_first(items: Seq<PanelItem>, item: PanelItem) -> Seq<PanelItem> {
    if items.contains(item) {
        items.remove(choose|at: int| first_item(items, item, at))
    } else {
        items
    }
}

/// The items of `items` that belong to the session `client_id`, in order.
pub open spec fn items_of_client(items: Seq<PanelItem>, client_id: u64) -> Seq<PanelItem>
    decreases items.len(),
{
    if items.len() == 0 {
        Seq::empty()
    } else {
        let before = items_of_client(items.drop_last(), client_id);
        if items.last().client_id == client_id {
            before.push(items.last())
        } else {
            before
        }
    }
}

/// What a panel is, to those who use it.
pub struct PanelModel {
    pub items: Seq<PanelItem>,
    pub active: Option<PanelItem>,
    pub button: bool,
}

impl PanelModel {
    /// The panel after a pane event.
    pub open spec fn after(self, event: PaneEvent) -> PanelModel {
        match event {
            PaneEvent::AddItem { item } => PanelModel { items: self.items.push(item), ..self },
            PaneEvent::RemovedItem { item } => PanelModel {
                items: without_first(self.items, item),
                active: if self.active == Some(item) {
                    None
                } else {
                    self.active
                },
                ..self
            },
            PaneEvent::ActivateItem { item, local } => PanelModel {
                active: if self.items.contains(item) {
                    Some(item)
                } else {
                    None
                },
                ..self
            },
            _ => self,
        }
    }

    /// What the panel asks for in answer to a pane event.
    pub open spec fn action(self, event: PaneEvent) -> PanelAction {
        match event {
            PaneEvent::AddItem { item } => PanelAction::AddedToPane { item },
            PaneEvent::RemovedItem { item } => PanelAction::CloseThread {
                client_id: item.client_id,
                thread_id: item.thread_id,
            },
            PaneEvent::ActivateItem { item, local } => if local && self.items.contains(item) {
                PanelAction::GoToCurrentStackFrame { item }
            } else {
                PanelAction::Nothing
            },
            PaneEvent::Remove => PanelAction::Emit(PanelEvent::Close),
            PaneEvent::ZoomIn => PanelAction::Emit(PanelEvent::ZoomIn),
            PaneEvent::ZoomOut => PanelAction::Emit(PanelEvent::ZoomOut),
            PaneEvent::Other => PanelAction::Nothing,
        }
    }
}

/// The debug panel.
pub struct DebugPanel {
    items: Vec<PanelItem>,
    active: Option<PanelItem>,
    button: bool,
}

impl View for DebugPanel {
    type V = PanelModel;

    closed spec fn view(&self) -> PanelModel {
        PanelModel { items: self.items@, active: self.active, button: self.button }
    }
}

fn find_item(items: &Vec<PanelItem>, item: PanelItem) -> (found: Option<usize>)
    ensures
        found is Some ==> first_item(items@, item, found->0 as int),
        found is None ==> !items@.contains(item),
{
    let mut i: usize = 0;
    while i < items.len()
        invariant
            i <= items@.len(),
            forall|k: int| 0 <= k < i ==> items@[k] != item,
        decreases items@.len() - i,
    {
        if items[i] == item {
            return Some(i);
        }
        i += 1;
    }
    None
}

impl DebugPanel {
    /// A panel without views. `button` says whether the settings ask for
    /// the panel's button to be shown.
    pub fn new(button: bool) -> (panel: DebugPanel)
        ensures
            panel@ == (PanelModel { items: Seq::empty(), active: None, button }),
    {
        DebugPanel { items: Vec::new(), active: None, button }
    }

    /// The view in front, if there is one.
    pub fn active_debug_panel_item(&self) -> (item: Option<PanelItem>)
        ensures
            item == self@.active,
    {
        self.active
    }

    /// The views of the threads of the session `client_id`, in the order
    /// of the pane.
    pub fn debug_panel_items_by_client(&self, client_id: u64) -> (items: Vec<PanelItem>)
        ensures
            items@ == items_of_client(self@.items, client_id),
    {
        let mut found: Vec<PanelItem> = Vec::new();
        let mut i: usize = 0;
        while i < self.items.len()
            invariant
                i <= self.items@.len(),
                found@ == items_of_client(self.items@.subrange(0, i as int), client_id),
            decreases self.items@.len() - i,
        {
            proof {
                assert(self.items@.subrange(0, i + 1).drop_last() == self.items@.subrange(
                    0,
                    i as int,
                ));
            }
            if self.items[i].client_id == client_id {
                found.push(self.items[i]);
            }
            i += 1;
        }
        proof {
            assert(self.items@.subrange(0, i as int) == self.items@);
        }
        found
    }

    /// The view of the thread `thread_id` of the session `client_id`, if
    /// it has one.
    pub fn debug_panel_item_by_client(&self, client_id: u64, thread_id: u64) -> (item: Option<
        PanelItem,
    >)
        ensures
            item is Some == self@.items.contains(PanelItem { client_id, thread_id }),
            item is Some ==> item->0 == (PanelItem { client_id, thread_id }),
    {
        let wanted = PanelItem { client_id, thread_id };
        match find_item(&self.items, wanted) {
            Some(at) => {
                assert(self@.items[at as int] == wanted);
                Some(self.items[at])
            },
            None => None,
        }
    }

    /// Whether the view in front is that of this thread of this session.
    pub fn is_active(&self, client_id: u64, thread_id: u64) -> (active: bool)
        ensures
            active == (self@.active == Some(PanelItem { client_id, thread_id })),
    {
        match self.active {
            Some(item) => item.client_id == client_id && item.thread_id == thread_id,
            None => false,
        }
    }

    /// Takes an event of the pane and says what is to be done about it.
    pub fn handle_pane_event(&mut self, event: PaneEvent) -> (action: PanelAction)
        ensures
            final(self)@ == old(self)@.after(event),
            action == old(self)@.action(event),
    {
        match event {
            PaneEvent::AddItem { item } => {
                self.items.push(item);
                PanelAction::AddedToPane { item }
            },
            PaneEvent::RemovedItem { item } => {
                match find_item(&self.items, item) {
                    Some(at) => {
                        proof {
                            let chosen = choose|k: int| first_item(self.items@, item, k);
                            assert(self.items@.contains(item));
                            assert(first_item(self.items@, item, chosen)) by {
                                assert(first_item(self.items@, item, at as int));
                            }
                            if chosen < at {
                            } else if at < chosen {
                            }
                        }
                        self.items.remove(at);
                    },
                    None => {},
                }
                if self.active == Some(item) {
                    self.active = None;
                }
                PanelAction::CloseThread { client_id: item.client_id, thread_id: item.thread_id }
            },
            PaneEvent::ActivateItem { item, local } => {
                let known = find_item(&self.items, item).is_some();
                assert(known == self.items@.contains(item));
                self.active = if known {
                    Some(item)
                } else {
                    None
                };
                if local && known {
                    PanelAction::GoToCurrentStackFrame { item }
                } else {
                    PanelAction::Nothing
                }
            },
            PaneEvent::Remove => PanelAction::Emit(PanelEvent::Close),
            PaneEvent::ZoomIn => PanelAction::Emit(PanelEvent::ZoomIn),
            PaneEvent::ZoomOut => PanelAction::Emit(PanelEvent::ZoomOut),
            PaneEvent::Other => PanelAction::Nothing,
        }
    }

    /// Which commands to offer: the debugger's commands while a view is in
    /// front, and stepping back only if the adapter of that view's session
    /// says it can. `capabilities` are those of the session whose view is
    /// in front.
    pub fn command_visibility(&self, capabilities: Capabilities) -> (visible: CommandVisibility)
        ensures
            visible.debugger_actions == (self@.active is Some),
            visible.step_back == (self@.active is Some && capabilities.supports_step_back == Some(
                true,
            )),
    {
        let has_active_session = self.active.is_some();
        let supports_step_back = match capabilities.supports_step_back {
            Some(supported) => supported,
            None => false,
        };
        CommandVisibility {
            debugger_actions: has_active_session,
            step_back: has_active_session && supports_step_back,
        }
    }

    /// Whether the panel has no view to show, and so shows the hint on
    /// how to start a debugger in their place.
    pub fn shows_start_hint(&self) -> (hint: bool)
        ensures
            hint == (self@.items.len() == 0),
    {
        self.items.len() == 0
    }

    /// The name under which the panel's place is remembered.
    pub fn persistent_name() -> (name: &'static str)
        ensures
            name@ == "DebugPanel"@,
    {
        "DebugPanel"
    }

    /// Where the panel is docked.
    pub fn position(&self) -> (position: DockPosition)
        ensures
            position == DockPosition::Bottom,
    {
        DockPosition::Bottom
    }

    /// Whether the panel may be docked at `position`: at the bottom only.
    pub fn position_is_valid(&self, position: DockPosition) -> (valid: bool)
        ensures
            valid == (position == DockPosition::Bottom),
    {
        position == DockPosition::Bottom
    }

    /// The text shown over the panel's button, if the button is shown.
    pub fn icon_tooltip(&self) -> (tooltip: Option<&'static str>)
        ensures
            tooltip is Some == self@.button,
            tooltip is Some ==> tooltip->0@ == "Debug Panel"@,
    {
        if self.button {
            Some("Debug Panel")
        } else {
            None
        }
    }

    /// The panel's rank among those that may be opened first.
    pub fn activation_priority(&self) -> (priority: u32)
        ensures
            priority == 9,
    {
        9
    }
}

} // verus!
