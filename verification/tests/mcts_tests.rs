use predator_snake_dqn::{
    domain::action::RelativeAction,
    mcts::{
        arena::TreeArena,
        node::{Node, NO_ACTION, NO_NODE},
        plan::{arena_capacity, thread_simulations},
    },
};

#[test]
fn a_new_node_is_blank() {
    let n = Node::new();
    assert_eq!((n.visit_count, n.value_sum, n.virtual_loss_active, n.prior_prob), (0, 0, 0, 0));
    assert_eq!(n.parent, NO_NODE);
    assert_eq!(n.children, [NO_NODE; 3]);
    assert_eq!(n.action_taken, NO_ACTION);
    assert_eq!(n.parent(), None);
    assert_eq!(n.action_taken(), None);
    assert!(!n.is_expanded());
}

#[test]
fn init_resets_a_used_node() {
    let mut n = Node::new();
    n.visit_count = 9;
    n.value_sum = 0.5f32.to_bits();
    n.virtual_loss_active = 2;
    n.children = [4, 5, 6];
    n.init(Some(7), 0.25f32.to_bits(), Some(RelativeAction::TurnLeft));
    assert_eq!((n.visit_count, n.value_sum, n.virtual_loss_active), (0, 0, 0));
    assert_eq!(f32::from_bits(n.prior_prob), 0.25);
    assert_eq!(n.parent(), Some(7));
    assert_eq!(n.children, [NO_NODE; 3]);
    assert_eq!(n.action_taken, 1);
    assert_eq!(n.action_taken(), Some(RelativeAction::TurnLeft));
    n.init(None, 0, None);
    assert_eq!(n.parent(), None);
    assert_eq!(n.action_taken(), None);
}

#[test]
fn action_codes_name_the_actions() {
    let mut n = Node::new();
    for (code, action) in [
        (0, RelativeAction::Straight),
        (1, RelativeAction::TurnLeft),
        (2, RelativeAction::TurnRight),
    ] {
        n.init(None, 0, Some(action));
        assert_eq!(n.action_taken, code);
        assert_eq!(n.action_taken(), Some(action));
    }
    n.action_taken = 17;
    assert_eq!(n.action_taken(), None);
}

#[test]
fn visit_counters_wrap_like_atomics() {
    let mut n = Node::new();
    n.add_visit();
    n.add_visit();
    assert_eq!(n.visit_count, 2);
    n.visit_count = u32::MAX;
    n.add_visit();
    assert_eq!(n.visit_count, 0);

    n.remove_virtual_loss();
    assert_eq!(n.virtual_loss_active, u32::MAX);
    n.add_virtual_loss();
    assert_eq!(n.virtual_loss_active, 0);
}

#[test]
fn virtual_loss_round_trip_restores_the_node() {
    let mut n = Node::new();
    n.init(Some(3), 7, Some(RelativeAction::TurnRight));
    n.visit_count = 5;
    n.virtual_loss_active = 2;
    let before = n;
    n.add_virtual_loss();
    assert_eq!(n.virtual_loss_active, 3);
    assert_eq!(n.effective_visits(), 8);
    n.remove_virtual_loss();
    assert_eq!(
        (n.visit_count, n.value_sum, n.virtual_loss_active, n.prior_prob, n.parent, n.children, n.action_taken),
        (
            before.visit_count,
            before.value_sum,
            before.virtual_loss_active,
            before.prior_prob,
            before.parent,
            before.children,
            before.action_taken
        )
    );
}

#[test]
fn effective_visits_wrap() {
    let mut n = Node::new();
    n.visit_count = u32::MAX;
    n.virtual_loss_active = 2;
    assert_eq!(n.effective_visits(), 1);
}

#[test]
fn arena_allocates_in_order_and_clears() {
    let mut arena = TreeArena::new(10);
    assert_eq!(arena.capacity(), 10);
    assert_eq!(arena.len(), 0);
    assert!(arena.is_empty());
    assert_eq!(arena.alloc_node(), 0);
    assert_eq!(arena.alloc_node(), 1);
    assert_eq!(arena.len(), 2);
    assert!(!arena.is_empty());
    arena.clear();
    assert!(arena.is_empty());
    assert_eq!(arena.capacity(), 10);
    assert_eq!(arena.alloc_node(), 0);
}

#[test]
fn arena_new_node_resets_the_slot() {
    let mut arena = TreeArena::new(4);
    arena.get_mut(0).visit_count = 12;
    let root = arena.new_node(None, 1.0f32.to_bits(), None);
    assert_eq!(root, 0);
    let n = arena.get(root);
    assert_eq!(n.visit_count, 0);
    assert_eq!(f32::from_bits(n.prior_prob), 1.0);
    assert_eq!(n.parent(), None);
    assert_eq!(n.action_taken(), None);
}

#[test]
fn arena_expand_links_three_children_once() {
    let mut arena = TreeArena::new(7);
    let root = arena.new_node(None, 1.0f32.to_bits(), None);
    let priors = [0.5f32.to_bits(), 0.25f32.to_bits(), 0.25f32.to_bits()];
    assert!(arena.expand(root, priors));
    assert_eq!(arena.len(), 4);
    assert!(arena.get(root).is_expanded());
    assert_eq!(arena.get(root).children, [1, 2, 3]);
    let actions = [RelativeAction::Straight, RelativeAction::TurnLeft, RelativeAction::TurnRight];
    for k in 0..3 {
        let child = arena.get(1 + k as u32);
        assert_eq!(child.parent(), Some(root));
        assert_eq!(child.action_taken(), Some(actions[k]));
        assert_eq!(child.prior_prob, priors[k]);
        assert!(!child.is_expanded());
    }
    assert!(!arena.expand(root, [0, 0, 0]));
    assert_eq!(arena.len(), 4);
    assert_eq!(arena.get(1).prior_prob, priors[0]);

    assert!(arena.expand(2, [1, 2, 3]));
    assert_eq!(arena.get(2).children, [4, 5, 6]);
    assert_eq!(arena.get(5).parent(), Some(2));
    assert_eq!(arena.len(), 7);
}

#[test]
fn arena_capacity_allows_every_expansion() {
    assert_eq!(arena_capacity(1000, 4), 3013);
    assert_eq!(arena_capacity(800, 4), 2413);
    assert_eq!(arena_capacity(0, 0), 1);
}

#[test]
fn thread_shares_add_up() {
    assert_eq!(thread_simulations(1000, 4, 0), 250);
    assert_eq!(thread_simulations(1000, 4, 3), 250);
    assert_eq!(thread_simulations(10, 3, 0), 4);
    assert_eq!(thread_simulations(10, 3, 1), 3);
    assert_eq!(thread_simulations(2, 5, 0), 2);
    assert_eq!(thread_simulations(2, 5, 4), 0);
    for sims in 0..40usize {
        for threads in 1..9usize {
            let total: usize = (0..threads).map(|t| thread_simulations(sims, threads, t)).sum();
            assert_eq!(total, sims);
        }
    }
}

#[test]
fn backing_up_a_path_releases_its_marks_and_counts_visits() {
    let mut arena = TreeArena::new(10);
    let root = arena.new_node(None, 1.0f32.to_bits(), None);
    arena.expand(root, [1, 2, 3]);
    arena.expand(2, [4, 5, 6]);
    // A search descends root -> 2 -> 6, marking 2 and 6 as in flight.
    arena.mark_in_flight(2);
    arena.mark_in_flight(6);
    assert_eq!(arena.get(2).virtual_loss_active, 1);
    assert_eq!(arena.get(6).effective_visits(), 1);
    arena.backup_visits(&vec![root, 2, 6]);
    for idx in 0..arena.len() as u32 {
        assert_eq!(arena.get(idx).virtual_loss_active, 0);
    }
    assert_eq!(arena.get(root).visit_count, 1);
    assert_eq!(arena.get(2).visit_count, 1);
    assert_eq!(arena.get(6).visit_count, 1);
    assert_eq!(arena.get(1).visit_count, 0);
    assert_eq!(arena.get(2).children, [4, 5, 6]);
    assert_eq!(arena.len(), 7);
}

#[test]
fn backing_up_counts_repeated_entries_and_wraps() {
    let mut arena = TreeArena::new(3);
    arena.get_mut(1).virtual_loss_active = 1;
    arena.get_mut(2).visit_count = u32::MAX;
    arena.backup_visits(&vec![0, 1, 1, 2, 0]);
    assert_eq!(arena.get(0).visit_count, 2);
    assert_eq!(arena.get(0).virtual_loss_active, 0);
    assert_eq!(arena.get(1).visit_count, 2);
    assert_eq!(arena.get(1).virtual_loss_active, u32::MAX);
    assert_eq!(arena.get(2).visit_count, 0);
    assert_eq!(arena.get(2).virtual_loss_active, u32::MAX);
}
