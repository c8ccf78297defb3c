use vstd::prelude::*;

use crate::domain::action::{action_index, RelativeAction};

verus! {

/// The index that stands for "no node".
pub const NO_NODE: u32 = 0xffff_ffff;

/// The code that stands for "no action" (the root).
pub const NO_ACTION: u32 = 3;

/// A search-tree node. Statistics that are real numbers (`value_sum`, `prior_prob`)
/// are held as the bit patterns of `f32` values and read by the search code.
#[derive(Debug, Clone, Copy)]
pub struct Node {
    pub visit_count: u32,
    /// Bits of the `f32` sum of backed-up values.
    pub value_sum: u32,
    pub virtual_loss_active: u32,
    /// Bits of the `f32` prior probability.
    pub prior_prob: u32,
    pub parent: u32,
    pub children: [u32; 3],
    /// 0, 1, 2 for the action that leads here; `NO_ACTION` at the root.
    pub action_taken: u32,
}

/// Counter increment that wraps around at `u32::MAX`, as an atomic `fetch_add` does.
pub open spec fn wrap_inc(n: u32) -> u32 {
    if n == u32::MAX { 0 } else { (n + 1) as u32 }
}

/// Counter decrement that wraps around at 0, as an atomic `fetch_sub` does.
pub open spec fn wrap_dec(n: u32) -> u32 {
    if n == 0 { u32::MAX } else { (n - 1) as u32 }
}

/// The code of an optional action.
pub open spec fn action_code(action: Option<RelativeAction>) -> u32 {
    match action {
        Some(a) => action_index(a) as u32,
        None => NO_ACTION,
    }
}

/// The action of a code, if it names one.
pub open spec fn code_action(code: u32) -> Option<RelativeAction> {
    if code == 0 {
        Some(RelativeAction::Straight)
    } else if code == 1 {
        Some(RelativeAction::TurnLeft)
    } else if code == 2 {
        Some(RelativeAction::TurnRight)
    } else {
        None
    }
}

/// A node with no statistics, no parent, no children and no action; `0.0f32` has all
/// bits clear.
pub open spec fn fresh_node(parent: u32, prior_bits: u32, action: u32) -> Node {
    Node {
        visit_count: 0,
        value_sum: 0,
        virtual_loss_active: 0,
        prior_prob: prior_bits,
        parent,
        children: [NO_NODE, NO_NODE, NO_NODE],
        action_taken: action,
    }
}

impl Node {
    /// A node with no statistics, no parent, no children and no action.
    pub fn new() -> (n: Node)
        ensures
            n == fresh_node(NO_NODE, 0, NO_ACTION),
    {
        Node {
            visit_count: 0,
            value_sum: 0,
            virtual_loss_active: 0,
            prior_prob: 0,
            parent: NO_NODE,
            children: [NO_NODE, NO_NODE, NO_NODE],
            action_taken: NO_ACTION,
        }
    }

    /// Resets the node for reuse under `parent`, reached by `action_taken`, with prior
    /// probability bits `prior_bits`.
    pub fn init(&mut self, parent: Option<u32>, prior_bits: u32, action_taken: Option<RelativeAction>)
        ensures
            *final(self) == fresh_node(
                match parent {
                    Some(p) => p,
                    None => NO_NODE,
                },
                prior_bits,
                action_code(action_taken),
            ),
    {
        self.visit_count = 0;
        self.value_sum = 0;
        self.virtual_loss_active = 0;
        self.prior_prob = prior_bits;
        self.parent = match parent {
            Some(p) => p,
            None => NO_NODE,
        };
        self.children = [NO_NODE, NO_NODE, NO_NODE];
        self.action_taken = match action_taken {
            Some(RelativeAction::Straight) => 0,
            Some(RelativeAction::TurnLeft) => 1,
            Some(RelativeAction::TurnRight) => 2,
            None => NO_ACTION,
        };
    }

    /// The action that leads to this node, if any.
    pub fn action_taken(&self) -> (a: Option<RelativeAction>)
        ensures
            a == code_action(self.action_taken),
    {
        match self.action_taken {
            0 => Some(RelativeAction::Straight),
            1 => Some(RelativeAction::TurnLeft),
            2 => Some(RelativeAction::TurnRight),
            _ => None,
        }
    }

    /// The parent's index, if any.
    pub fn parent(&self) -> (p: Option<u32>)
        ensures
            p == (if self.parent == NO_NODE { None } else { Some(self.parent) }),
    {
        let p = self.parent;
        if p == NO_NODE {
            None
        } else {
            Some(p)
        }
    }

    /// Counts one more visit.
    pub fn add_visit(&mut self)
        ensures
            *final(self) == (Node { visit_count: wrap_inc(old(self).visit_count), ..*old(self) }),
    {
        self.visit_count = if self.visit_count == u32::MAX { 0 } else { self.visit_count + 1 };
    }

    /// Marks one more search in flight below this node.
    pub fn add_virtual_loss(&mut self)
        ensures
            *final(self) == (Node { virtual_loss_active: wrap_inc(old(self).virtual_loss_active), ..*old(self) }),
    {
        self.virtual_loss_active = if self.virtual_loss_active == u32::MAX {
            0
        } else {
            self.virtual_loss_active + 1
        };
    }

    /// Marks one search in flight below this node as finished.
    pub fn remove_virtual_loss(&mut self)
        ensures
            *final(self) == (Node { virtual_loss_active: wrap_dec(old(self).virtual_loss_active), ..*old(self) }),
    {
        self.virtual_loss_active = if self.virtual_loss_active == 0 {
            u32::MAX
        } else {
            self.virtual_loss_active - 1
        };
    }

    /// Visits plus searches in flight, as the selection rule counts them.
    pub fn effective_visits(&self) -> (n: u32)
        ensures
            n == (self.visit_count as int + self.virtual_loss_active as int) % 0x1_0000_0000,
    {
        let total: u64 = self.visit_count as u64 + self.virtual_loss_active as u64;
        (total % 0x1_0000_0000) as u32
    }

    /// Whether children have been linked.
    pub fn is_expanded(&self) -> (b: bool)
        ensures
            b == (self.children[0] != NO_NODE),
    {
        self.children[0] != NO_NODE
    }
}

/// Marking a search in flight and then finishing it leaves the node as it was.
pub proof fn lemma_virtual_loss_round_trip(n: Node)
    ensures
        (Node {
            virtual_loss_active: wrap_dec(wrap_inc(n.virtual_loss_active)),
            ..n
        }) == n,
{
}

/// An action's code names it back.
pub proof fn lemma_action_code_round_trip(action: Option<RelativeAction>)
    ensures
        code_action(action_code(action)) == action,
{
}

} // verus!
