use behavior_tree::composite::select;
use behavior_tree::composite::sequence;
use behavior_tree::interrupt::interrupt;
use behavior_tree::node::condition;
use behavior_tree::node::lambda;
use behavior_tree::node::run_or_fail;
use behavior_tree::node::BtBehavior;
use behavior_tree::node::BtNode;
use behavior_tree::node::BtPredicate;
use behavior_tree::node::Condition;
use behavior_tree::status::BtState;

/// Test environment: a log of leaf visits plus a few knobs predicates read.
struct Env {
    log: Vec<u32>,
    flag: bool,
}

impl Env {
    fn new() -> Env {
        Env { log: Vec::new(), flag: false }
    }
}

/// Leaf that logs its id and returns a fixed status.
struct Always {
    id: u32,
    status: BtState,
}

impl BtNode<Env> for Always {
    fn tick(&mut self, env: &mut Env) -> BtState {
        env.log.push(self.id);
        self.status
    }
}

/// Leaf that logs its id and plays a scripted list of statuses, staying on
/// the last one once the script is exhausted.
struct Script {
    id: u32,
    statuses: Vec<BtState>,
    pos: usize,
}

impl Script {
    fn new(id: u32, statuses: Vec<BtState>) -> Script {
        Script { id, statuses, pos: 0 }
    }
}

impl BtNode<Env> for Script {
    fn tick(&mut self, env: &mut Env) -> BtState {
        env.log.push(self.id);
        let s = self.statuses[self.pos];
        if self.pos + 1 < self.statuses.len() {
            self.pos += 1;
        }
        s
    }
}

struct ConstPred {
    value: bool,
}

impl BtPredicate<Env> for ConstPred {
    fn eval(&mut self, _env: &mut Env) -> bool {
        self.value
    }
}

struct FlagPred;

impl BtPredicate<Env> for FlagPred {
    fn eval(&mut self, env: &mut Env) -> bool {
        env.flag
    }
}

/// Behavior for `lambda`: runs for `left` ticks, then succeeds.
struct CountDown {
    left: u32,
}

impl BtBehavior<Env> for CountDown {
    fn step(&mut self, _env: &mut Env) -> BtState {
        if self.left == 0 {
            BtState::Success
        } else {
            self.left -= 1;
            BtState::Running
        }
    }
}

/// Heterogeneous tree node for mixed-leaf scenarios.
enum TestNode {
    Cond(Condition<ConstPred>),
    Script(Script),
}

impl BtNode<Env> for TestNode {
    fn tick(&mut self, env: &mut Env) -> BtState {
        match self {
            TestNode::Cond(c) => c.tick(env),
            TestNode::Script(s) => s.tick(env),
        }
    }
}

#[test]
fn sequence_all_success_collapses_in_one_tick() {
    let mut env = Env::new();
    let children: Vec<Always> = (0..5u32).map(|id| Always { id, status: BtState::Success }).collect();
    let mut seq = sequence(children);
    assert_eq!(seq.tick(&mut env), BtState::Success);
    assert_eq!(seq.current_child, 0);
    assert_eq!(env.log, vec![0, 1, 2, 3, 4]);
}

#[test]
fn sequence_child_failure_resets_cursor() {
    let mut env = Env::new();
    let mut seq = sequence(vec![
        Always { id: 0, status: BtState::Success },
        Always { id: 1, status: BtState::Failure },
        Always { id: 2, status: BtState::Success },
    ]);
    assert_eq!(seq.tick(&mut env), BtState::Failure);
    assert_eq!(seq.current_child, 0);
    assert_eq!(env.log, vec![0, 1]);
    // ticking again visits child 0 first: the whole sequence restarts
    assert_eq!(seq.tick(&mut env), BtState::Failure);
    assert_eq!(env.log, vec![0, 1, 0, 1]);
}

#[test]
fn sequence_child_running_resumes_at_same_child() {
    let mut env = Env::new();
    let mut seq = sequence(vec![
        Script::new(0, vec![BtState::Success]),
        Script::new(1, vec![BtState::Running, BtState::Success]),
        Script::new(2, vec![BtState::Success]),
    ]);
    assert_eq!(seq.tick(&mut env), BtState::Running);
    assert_eq!(seq.current_child, 1);
    assert_eq!(env.log, vec![0, 1]);
    // the next tick visits child 1 again, not child 0
    assert_eq!(seq.tick(&mut env), BtState::Success);
    assert_eq!(seq.current_child, 0);
    assert_eq!(env.log, vec![0, 1, 1, 2]);
}

#[test]
fn selector_all_failure_collapses_in_one_tick() {
    let mut env = Env::new();
    let children: Vec<Always> = (0..5u32).map(|id| Always { id, status: BtState::Failure }).collect();
    let mut sel = select(children);
    assert_eq!(sel.tick(&mut env), BtState::Failure);
    assert_eq!(sel.current_child, 0);
    assert_eq!(env.log, vec![0, 1, 2, 3, 4]);
}

#[test]
fn selector_child_success_resets_cursor() {
    let mut env = Env::new();
    let mut sel = select(vec![
        Always { id: 0, status: BtState::Failure },
        Always { id: 1, status: BtState::Success },
        Always { id: 2, status: BtState::Failure },
    ]);
    assert_eq!(sel.tick(&mut env), BtState::Success);
    assert_eq!(sel.current_child, 0);
    assert_eq!(env.log, vec![0, 1]);
    // ticking again visits child 0 first
    assert_eq!(sel.tick(&mut env), BtState::Success);
    assert_eq!(env.log, vec![0, 1, 0, 1]);
}

#[test]
fn selector_child_running_resumes_at_same_child() {
    let mut env = Env::new();
    let mut sel = select(vec![
        Script::new(0, vec![BtState::Failure]),
        Script::new(1, vec![BtState::Running, BtState::Success]),
        Script::new(2, vec![BtState::Failure]),
    ]);
    assert_eq!(sel.tick(&mut env), BtState::Running);
    assert_eq!(sel.current_child, 1);
    assert_eq!(env.log, vec![0, 1]);
    // the next tick visits child 1 again, not child 0
    assert_eq!(sel.tick(&mut env), BtState::Success);
    assert_eq!(sel.current_child, 0);
    assert_eq!(env.log, vec![0, 1, 1]);
}

#[test]
fn run_or_fail_two_phase_when_issued() {
    let mut env = Env::new();
    let mut node = run_or_fail(FlagPred);
    assert_eq!(node.state, BtState::NotStarted);
    // first tick with the predicate true: the action is issued
    env.flag = true;
    assert_eq!(node.tick(&mut env), BtState::Running);
    // the following tick confirms, whatever the predicate now says
    env.flag = false;
    assert_eq!(node.tick(&mut env), BtState::Success);
    assert_eq!(node.state, BtState::NotStarted);
    // a third tick behaves exactly like the first
    env.flag = true;
    assert_eq!(node.tick(&mut env), BtState::Running);
    assert_eq!(node.tick(&mut env), BtState::Success);
}

#[test]
fn run_or_fail_failure_leaves_state_unchanged() {
    let mut env = Env::new();
    let mut node = run_or_fail(FlagPred);
    // the predicate refuses: the leaf fails and stays idle
    env.flag = false;
    assert_eq!(node.tick(&mut env), BtState::Failure);
    assert_eq!(node.state, BtState::NotStarted);
    // a later tick with the predicate true still starts the two-phase run
    env.flag = true;
    assert_eq!(node.tick(&mut env), BtState::Running);
    assert_eq!(node.tick(&mut env), BtState::Success);
}

#[test]
fn condition_is_idempotent_and_never_running() {
    let mut env = Env::new();
    let mut yes = condition(ConstPred { value: true });
    let mut no = condition(ConstPred { value: false });
    for _ in 0..100 {
        let r = yes.tick(&mut env);
        assert_eq!(r, BtState::Success);
        let r = no.tick(&mut env);
        assert_eq!(r, BtState::Failure);
    }
}

#[test]
fn lambda_defers_to_the_behavior() {
    let mut env = Env::new();
    let mut node = lambda(CountDown { left: 2 });
    assert_eq!(node.tick(&mut env), BtState::Running);
    assert_eq!(node.tick(&mut env), BtState::Running);
    assert_eq!(node.tick(&mut env), BtState::Success);
    // terminal statuses do not stop it from being ticked again
    assert_eq!(node.tick(&mut env), BtState::Success);
}

#[test]
fn interrupt_monitor_switches_to_fallback() {
    let mut env = Env::new();
    let primary = Script::new(1, vec![BtState::Running, BtState::Running, BtState::Success]);
    let fallback = Script::new(9, vec![BtState::Running]);
    let mut node = interrupt(primary, FlagPred, fallback);
    // tick 1: monitor false, the primary subtree is driven
    env.flag = false;
    assert_eq!(node.tick(&mut env), BtState::Running);
    assert_eq!(env.log, vec![1]);
    // tick 2: monitor true, the fallback is driven although the primary was
    // mid-Running
    env.flag = true;
    assert_eq!(node.tick(&mut env), BtState::Running);
    assert_eq!(env.log, vec![1, 9]);
}

#[test]
fn interrupt_primary_resumes_where_it_left_off() {
    let mut env = Env::new();
    let primary = sequence(vec![
        Script::new(1, vec![BtState::Success]),
        Script::new(2, vec![BtState::Running, BtState::Success]),
    ]);
    let fallback = Script::new(9, vec![BtState::Running]);
    let mut node = interrupt(primary, FlagPred, fallback);
    env.flag = false;
    assert_eq!(node.tick(&mut env), BtState::Running);
    assert_eq!(env.log, vec![1, 2]);
    assert_eq!(node.primary.current_child, 1);
    env.flag = true;
    assert_eq!(node.tick(&mut env), BtState::Running);
    assert_eq!(env.log, vec![1, 2, 9]);
    // switching did not reset the primary's cursor: it resumes at child 1
    assert_eq!(node.primary.current_child, 1);
    env.flag = false;
    assert_eq!(node.tick(&mut env), BtState::Success);
    assert_eq!(env.log, vec![1, 2, 9, 2]);
}

#[test]
fn sequence_of_condition_and_two_phase_leaf() {
    let mut env = Env::new();
    let mut seq = sequence(vec![
        TestNode::Cond(condition(ConstPred { value: true })),
        TestNode::Script(Script::new(7, vec![BtState::Running, BtState::Success])),
    ]);
    assert_eq!(seq.tick(&mut env), BtState::Running);
    assert_eq!(seq.tick(&mut env), BtState::Success);
    assert_eq!(seq.current_child, 0);
}

#[test]
fn selector_visits_both_children_in_one_tick() {
    let mut env = Env::new();
    let mut sel = select(vec![
        Always { id: 0, status: BtState::Failure },
        Always { id: 1, status: BtState::Success },
    ]);
    assert_eq!(sel.tick(&mut env), BtState::Success);
    assert_eq!(env.log, vec![0, 1]);
}

#[test]
fn nested_composites_tick_through_in_one_turn() {
    // a selector of sequences: the first strategy aborts mid-way, the
    // second runs to completion, all within a single tick
    let mut env = Env::new();
    let mut tree = select(vec![
        sequence(vec![
            Always { id: 0, status: BtState::Success },
            Always { id: 1, status: BtState::Failure },
        ]),
        sequence(vec![
            Always { id: 2, status: BtState::Success },
            Always { id: 3, status: BtState::Success },
        ]),
    ]);
    assert_eq!(tree.tick(&mut env), BtState::Success);
    assert_eq!(env.log, vec![0, 1, 2, 3]);
    assert_eq!(tree.current_child, 0);
    // both inner cursors were reset on their terminal statuses
    assert_eq!(tree.children[0].current_child, 0);
    assert_eq!(tree.children[1].current_child, 0);
}

#[test]
fn constructors_start_at_the_first_child() {
    let seq = sequence(vec![Always { id: 0, status: BtState::Success }]);
    assert_eq!(seq.current_child, 0);
    let sel = select(vec![Always { id: 0, status: BtState::Failure }]);
    assert_eq!(sel.current_child, 0);
    let node = run_or_fail(ConstPred { value: true });
    assert_eq!(node.state, BtState::NotStarted);
}
